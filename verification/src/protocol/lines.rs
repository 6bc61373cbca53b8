//! Splitting the bytes boot1 sends into trimmed text lines.

use vstd::prelude::*;

use crate::text::{decode_lossy, trim, trim_chars, utf8_lossy};

verus! {

/// Line feed and carriage return both end a line.
pub open spec fn is_line_end(b: u8) -> bool {
    b == 10 || b == 13
}

/// Index of the first line end at or after `i` in `p`, or `-1` when there is none.
pub open spec fn line_end_from(p: Seq<u8>, i: int) -> int
    decreases p.len() - i,
{
    if i < 0 || i >= p.len() {
        -1
    } else if is_line_end(p[i]) {
        i
    } else {
        line_end_from(p, i + 1)
    }
}

/// The first complete line of `p`, trimmed, and the bytes after its line end; `None` when `p`
/// holds no line end.
pub open spec fn first_line(p: Seq<u8>) -> Option<(Seq<char>, Seq<u8>)> {
    let e = line_end_from(p, 0);
    if e < 0 {
        None
    } else {
        Some((trim(utf8_lossy(p.take(e))), p.skip(e + 1)))
    }
}

/// Bytes received but not yet split into lines.
pub struct LineBuffer {
    pending: Vec<u8>,
}

impl View for LineBuffer {
    type V = Seq<u8>;

    closed spec fn view(&self) -> Seq<u8> {
        self.pending@
    }
}

proof fn lemma_line_end_found(p: Seq<u8>, i: int, e: int)
    requires
        0 <= i <= e < p.len(),
        is_line_end(p[e]),
        forall|j: int| i <= j < e ==> !is_line_end(#[trigger] p[j]),
    ensures
        line_end_from(p, i) == e,
    decreases e - i,
{
    if i < e {
        lemma_line_end_found(p, i + 1, e);
    }
}

proof fn lemma_line_end_absent(p: Seq<u8>, i: int)
    requires
        0 <= i <= p.len(),
        forall|j: int| i <= j < p.len() ==> !is_line_end(#[trigger] p[j]),
    ensures
        line_end_from(p, i) == -1,
    decreases p.len() - i,
{
    if i < p.len() {
        lemma_line_end_absent(p, i + 1);
    }
}

impl LineBuffer {
    pub fn new() -> (b: Self)
        ensures
            b@ == Seq::<u8>::empty(),
    {
        LineBuffer { pending: Vec::new() }
    }

    /// Forgets everything received so far.
    pub fn clear(&mut self)
        ensures
            final(self)@ == Seq::<u8>::empty(),
    {
        self.pending = Vec::new();
    }

    /// Appends received bytes.
    pub fn extend(&mut self, bytes: &Vec<u8>)
        ensures
            final(self)@ == old(self)@ + bytes@,
    {
        let n = bytes.len();
        let mut i: usize = 0;
        let ghost start = self.pending@;
        while i < n
            invariant
                n == bytes@.len(),
                i <= n,
                self.pending@ == start + bytes@.take(i as int),
            decreases n - i,
        {
            self.pending.push(bytes[i]);
            i = i + 1;
            assert(self.pending@ =~= start + bytes@.take(i as int));
        }
        assert(bytes@.take(n as int) =~= bytes@);
    }

    /// Removes and returns the first complete line, trimmed (possibly empty).
    pub fn take_line(&mut self) -> (r: Option<Vec<char>>)
        ensures
            match first_line(old(self)@) {
                None => r is None && final(self)@ == old(self)@,
                Some((line, rest)) => r matches Some(l) && l@ == line && final(self)@ == rest,
            },
    {
        let n = self.pending.len();
        let mut e: usize = 0;
        while e < n && !(self.pending[e] == 10 || self.pending[e] == 13)
            invariant
                n == self.pending@.len(),
                e <= n,
                forall|j: int| 0 <= j < e ==> !is_line_end(#[trigger] self.pending@[j]),
            decreases n - e,
        {
            e = e + 1;
        }
        if e == n {
            proof {
                lemma_line_end_absent(self.pending@, 0);
            }
            return None;
        }
        proof {
            lemma_line_end_found(self.pending@, 0, e as int);
        }
        let text = decode_lossy(&self.pending.as_slice()[0..e]);
        let line = trim_chars(&text);
        let mut rest: Vec<u8> = Vec::new();
        let mut i: usize = e + 1;
        while i < n
            invariant
                e < n,
                n == self.pending@.len(),
                e + 1 <= i <= n,
                rest@ == self.pending@.subrange(e + 1, i as int),
            decreases n - i,
        {
            rest.push(self.pending[i]);
            i = i + 1;
            assert(rest@ =~= self.pending@.subrange(e + 1, i as int));
        }
        proof {
            assert(self.pending@.subrange(0, e as int) =~= self.pending@.take(e as int));
            assert(rest@ =~= self.pending@.skip(e + 1));
        }
        self.pending = rest;
        Some(line)
    }
}

} // verus!
