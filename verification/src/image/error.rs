//! The error of the image tools: a message.

use vstd::prelude::*;

use crate::protocol::preflight::PreflightError;

verus! {

/// A failure of an image operation, described by its message.
#[derive(Debug)]
pub struct ImageError(String);

impl View for ImageError {
    type V = Seq<char>;

    closed spec fn view(&self) -> Seq<char> {
        self.0@
    }
}

impl ImageError {
    pub fn new(message: String) -> (e: Self)
        ensures
            e@ == message@,
    {
        ImageError(message)
    }

    /// The error of an image that failed preflight.
    pub fn from_preflight(e: &PreflightError) -> (r: Self)
        ensures
            r@ == e.describe(),
    {
        ImageError(e.to_string())
    }

    /// The message.
    pub fn to_string(&self) -> (s: String)
        ensures
            s@ == self@,
    {
        self.0.clone()
    }
}

} // verus!
