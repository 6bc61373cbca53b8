//! The checks made before a presign image is signed, and the versions recorded in its
//! signature block.

use vstd::prelude::*;

use xous_semver::SemVer;

use crate::image::error::ImageError;
use crate::image::layout::{KERNEL_START, SIGBLOCK_LEN, SIGNATURE_PQ_LENGTH, SLOT_START};
use crate::text::{
    chars_to_string, dec_str, parse_u32, parse_u32_radix, push_dec, push_str, trim_end, trim_end_chars,
};

verus! {

/// What a signing run is asked to do, as far as the checks before signing read it.
pub struct SignRequest {
    /// The signed output is the presign input itself.
    pub same_path: bool,
    /// The extension of the signed output, where it has one that is valid UTF-8.
    pub output_extension: Option<String>,
    /// A post-quantum key was supplied.
    pub pq_key: bool,
    /// A post-quantum key cache was supplied.
    pub pq_key_cache: bool,
}

/// Whether the extension `e` is one a signed output may have.
pub open spec fn signed_extension(e: Option<String>) -> bool {
    match e {
        Some(x) => x@ == "img"@ || x@ == "bin"@,
        None => false,
    }
}

/// The first problem with a signing request, before any file is read.
pub open spec fn request_problem(r: SignRequest) -> Option<Seq<char>> {
    if r.same_path {
        Some("signed output must differ from the presign input"@)
    } else if !signed_extension(r.output_extension) {
        Some("signed output must end in .img or .bin"@)
    } else if r.pq_key != r.pq_key_cache {
        Some("PQ key and key cache must be supplied together"@)
    } else {
        None
    }
}

/// An error whose message is the literal `m`.
fn error_str(m: &str) -> (e: ImageError)
    ensures
        e@ == m@,
{
    let mut out: Vec<char> = Vec::new();
    push_str(&mut out, m);
    ImageError::new(chars_to_string(&out))
}

/// Checks a signing request: the output must differ from the input and end in `.img` or
/// `.bin`, and a PQ key and its cache come together or not at all.
pub fn check_sign_request(request: &SignRequest) -> (r: Result<(), ImageError>)
    ensures
        match r {
            Ok(()) => request_problem(*request) is None,
            Err(e) => request_problem(*request) == Some(e@),
        },
{
    if request.same_path {
        return Err(error_str("signed output must differ from the presign input"));
    }
    let allowed = match &request.output_extension {
        Some(extension) => {
            let img = String::from_str("img");
            let bin = String::from_str("bin");
            *extension == img || *extension == bin
        },
        None => false,
    };
    if !allowed {
        return Err(error_str("signed output must end in .img or .bin"));
    }
    if request.pq_key != request.pq_key_cache {
        return Err(error_str("PQ key and key cache must be supplied together"));
    }
    Ok(())
}

/// Size of the baremetal slot, which a PQ-signed image must fit.
pub open spec fn slot_size() -> int {
    KERNEL_START - SLOT_START
}

/// Size of the PQ-signed image of a presign input of `input_len` bytes.
pub open spec fn pq_signed_size(input_len: u64) -> int {
    SIGBLOCK_LEN + input_len + SIGNATURE_PQ_LENGTH
}

/// Checks that the PQ-signed image of a presign input of `input_len` bytes fits the
/// baremetal slot.
pub fn check_pq_fits(input_len: u64) -> (r: Result<(), ImageError>)
    requires
        pq_signed_size(input_len) <= u64::MAX,
    ensures
        match r {
            Ok(()) => pq_signed_size(input_len) <= slot_size(),
            Err(e) => pq_signed_size(input_len) > slot_size() && e@ == "PQ-signed image is "@
                + dec_str(pq_signed_size(input_len) as nat) + " bytes, exceeding the "@ + dec_str(
                slot_size() as nat,
            ) + "-byte baremetal slot"@,
        },
{
    let signed_size = SIGBLOCK_LEN as u64 + input_len + SIGNATURE_PQ_LENGTH as u64;
    let slot = (KERNEL_START - SLOT_START) as u64;
    if signed_size > slot {
        let mut m: Vec<char> = Vec::new();
        push_str(&mut m, "PQ-signed image is ");
        push_dec(&mut m, signed_size);
        push_str(&mut m, " bytes, exceeding the ");
        push_dec(&mut m, slot);
        push_str(&mut m, "-byte baremetal slot");
        return Err(ImageError::new(chars_to_string(&m)));
    }
    Ok(())
}

/// `t` without one leading `v`.
pub open spec fn strip_v(t: Seq<char>) -> Seq<char> {
    if t.len() > 0 && t[0] == 'v' {
        t.drop_first()
    } else {
        t
    }
}

/// The index of the first `c` in `t`.
pub open spec fn first_index(t: Seq<char>, c: char) -> Option<int>
    decreases t.len(),
{
    if t.len() == 0 {
        None
    } else if t[0] == c {
        Some(0)
    } else {
        match first_index(t.drop_first(), c) {
            Some(i) => Some(i + 1),
            None => None,
        }
    }
}

/// `u16::from_str` accepts `t`.
pub open spec fn parses_u16(t: Seq<char>) -> bool {
    parse_u32_radix(t, 10) matches Some(v) && v <= 0xffff
}

/// The number of bytes of the UTF-8 encoding of `c`.
pub open spec fn utf8_width(c: char) -> int {
    let n = c as u32;
    if n < 0x80 {
        1
    } else if n < 0x800 {
        2
    } else if n < 0x1_0000 {
        3
    } else {
        4
    }
}

/// Byte offset `b` of the UTF-8 encoding of `t` falls inside a character, after its first
/// byte.
pub open spec fn splits_char(t: Seq<char>, b: int) -> bool
    decreases t.len(),
{
    if t.len() == 0 || b <= 0 {
        false
    } else if utf8_width(t[0]) > b {
        true
    } else {
        splits_char(t.drop_first(), b - utf8_width(t[0]))
    }
}

/// Whether `SemVer::from_str` panics on the text after the `-` that ends the patch number:
/// when that text starts with a digit or `g` and reads `extra-g…`, where `extra` is a
/// number, it cuts the commit text `g…` at byte 9, which must not fall inside a character.
pub open spec fn commit_cut_panics(rest: Seq<char>) -> bool {
    &&& rest.len() > 0
    &&& ('0' <= rest[0] <= '9' || rest[0] == 'g')
    &&& match first_index(rest, '-') {
        None => false,
        Some(m) => {
            let commit = rest.skip(m + 1);
            &&& commit.len() > 0
            &&& commit[0] == 'g'
            &&& parses_u16(rest.take(m))
            &&& splits_char(commit, 9)
        },
    }
}

/// Whether `SemVer::from_str` panics on the version text `s` instead of returning: after
/// trailing whitespace and a leading `v` are removed, `major.minor.patch-` must parse up to
/// the commit text, whose cut at byte 9 falls inside a character.
pub open spec fn semver_text_panics(s: Seq<char>) -> bool {
    let t = strip_v(trim_end(s));
    match first_index(t, '.') {
        None => false,
        Some(i) => {
            let r1 = t.skip(i + 1);
            &&& parses_u16(t.take(i))
            &&& match first_index(r1, '.') {
                None => false,
                Some(j) => {
                    let r2 = r1.skip(j + 1);
                    &&& parses_u16(r1.take(j))
                    &&& match first_index(r2, '-') {
                        None => false,
                        Some(k) => parses_u16(r2.take(k)) && commit_cut_panics(r2.skip(k + 1)),
                    }
                },
            }
        },
    }
}

proof fn lemma_first_index(t: Seq<char>, c: char)
    ensures
        match first_index(t, c) {
            Some(i) => 0 <= i < t.len() && t[i] == c && forall|j: int| 0 <= j < i ==> t[j] != c,
            None => forall|j: int| 0 <= j < t.len() ==> t[j] != c,
        },
    decreases t.len(),
{
    if t.len() > 0 && t[0] != c {
        lemma_first_index(t.drop_first(), c);
        match first_index(t.drop_first(), c) {
            Some(i) => {
                assert forall|j: int| 0 <= j < i + 1 implies t[j] != c by {
                    if j > 0 {
                        assert(t[j] == t.drop_first()[j - 1]);
                    }
                }
            },
            None => {
                assert forall|j: int| 0 <= j < t.len() implies t[j] != c by {
                    if j > 0 {
                        assert(t[j] == t.drop_first()[j - 1]);
                    }
                }
            },
        }
    }
}

/// The index of the first `c` in `t`.
fn find_char(t: &Vec<char>, c: char) -> (r: Option<usize>)
    ensures
        match r {
            Some(i) => first_index(t@, c) == Some(i as int),
            None => first_index(t@, c) is None,
        },
{
    let n = t.len();
    let mut i: usize = 0;
    while i < n
        invariant
            n == t@.len(),
            i <= n,
            forall|j: int| 0 <= j < i ==> t@[j] != c,
        decreases n - i,
    {
        if t[i] == c {
            proof {
                lemma_first_index(t@, c);
                match first_index(t@, c) {
                    Some(k) => {
                        if k < i {
                            assert(t@[k] != c);
                        } else if k > i {
                            assert(t@[i as int] != c);
                        }
                    },
                    None => {
                        assert(t@[i as int] != c);
                    },
                }
            }
            return Some(i);
        }
        i = i + 1;
    }
    proof {
        lemma_first_index(t@, c);
    }
    None
}

/// The characters of `t` from index `lo` up to `hi`.
fn sub_chars(t: &Vec<char>, lo: usize, hi: usize) -> (r: Vec<char>)
    requires
        lo <= hi <= t@.len(),
    ensures
        r@ == t@.subrange(lo as int, hi as int),
{
    let mut r: Vec<char> = Vec::new();
    let mut i = lo;
    while i < hi
        invariant
            lo <= i <= hi <= t@.len(),
            r@ == t@.subrange(lo as int, i as int),
        decreases hi - i,
    {
        r.push(t[i]);
        i = i + 1;
        assert(r@ =~= t@.subrange(lo as int, i as int));
    }
    r
}

/// Whether `u16::from_str` accepts `t`.
fn u16_text(t: &Vec<char>) -> (b: bool)
    ensures
        b == parses_u16(t@),
{
    match parse_u32(t, 10) {
        Some(v) => v <= 0xffff,
        None => false,
    }
}

/// Whether byte offset `b` of the UTF-8 encoding of `t` falls inside a character.
fn splits_char_at(t: &Vec<char>, b: usize) -> (r: bool)
    ensures
        r == splits_char(t@, b as int),
{
    let n = t.len();
    let mut i: usize = 0;
    let mut rest = b;
    assert(t@.skip(0) =~= t@);
    while i < n
        invariant
            n == t@.len(),
            i <= n,
            splits_char(t@, b as int) == splits_char(t@.skip(i as int), rest as int),
        decreases n - i,
    {
        if rest == 0 {
            return false;
        }
        let code = t[i] as u32;
        let width: usize = if code < 0x80 {
            1
        } else if code < 0x800 {
            2
        } else if code < 0x1_0000 {
            3
        } else {
            4
        };
        assert(t@.skip(i as int)[0] == t@[i as int]);
        if width > rest {
            return true;
        }
        assert(t@.skip(i as int).drop_first() =~= t@.skip(i + 1));
        rest = rest - width;
        i = i + 1;
    }
    assert(t@.skip(n as int).len() == 0);
    false
}

/// Whether `SemVer::from_str` panics on the text after the patch number's `-`.
fn commit_cut_would_panic(rest: &Vec<char>) -> (b: bool)
    ensures
        b == commit_cut_panics(rest@),
{
    if rest.len() == 0 {
        return false;
    }
    let c = rest[0];
    if !(('0' <= c && c <= '9') || c == 'g') {
        return false;
    }
    proof {
        lemma_first_index(rest@, '-');
    }
    match find_char(rest, '-') {
        None => false,
        Some(m) => {
            let commit = sub_chars(rest, m + 1, rest.len());
            assert(commit@ =~= rest@.skip(m + 1));
            if commit.len() == 0 || commit[0] != 'g' {
                return false;
            }
            let extra = sub_chars(rest, 0, m);
            assert(extra@ =~= rest@.take(m as int));
            u16_text(&extra) && splits_char_at(&commit, 9)
        },
    }
}

/// Whether `SemVer::from_str` panics on the version text `s` instead of returning; see
/// [`semver_text_panics`].
pub fn semver_parse_would_panic(s: &str) -> (b: bool)
    ensures
        b == semver_text_panics(s@),
{
    let mut chars: Vec<char> = Vec::new();
    push_str(&mut chars, s);
    assert(chars@ =~= s@);
    let trimmed = trim_end_chars(&chars);
    let t = if trimmed.len() > 0 && trimmed[0] == 'v' {
        let t = sub_chars(&trimmed, 1, trimmed.len());
        assert(t@ =~= trimmed@.drop_first());
        t
    } else {
        trimmed
    };
    assert(t@ == strip_v(trim_end(s@)));
    let i = match find_char(&t, '.') {
        None => {
            return false;
        },
        Some(i) => i,
    };
    proof {
        lemma_first_index(t@, '.');
    }
    let major = sub_chars(&t, 0, i);
    let r1 = sub_chars(&t, i + 1, t.len());
    assert(major@ =~= t@.take(i as int));
    assert(r1@ =~= t@.skip(i + 1));
    if !u16_text(&major) {
        return false;
    }
    let j = match find_char(&r1, '.') {
        None => {
            return false;
        },
        Some(j) => j,
    };
    proof {
        lemma_first_index(r1@, '.');
    }
    let minor = sub_chars(&r1, 0, j);
    let r2 = sub_chars(&r1, j + 1, r1.len());
    assert(minor@ =~= r1@.take(j as int));
    assert(r2@ =~= r1@.skip(j + 1));
    if !u16_text(&minor) {
        return false;
    }
    let k = match find_char(&r2, '-') {
        None => {
            return false;
        },
        Some(k) => k,
    };
    proof {
        lemma_first_index(r2@, '-');
    }
    let patch = sub_chars(&r2, 0, k);
    let rest = sub_chars(&r2, k + 1, r2.len());
    assert(patch@ =~= r2@.take(k as int));
    assert(rest@ =~= r2@.skip(k + 1));
    u16_text(&patch) && commit_cut_would_panic(&rest)
}

/// What `xous_semver` makes of the version text `s`: the 16-byte record of the version, or
/// the message of its error.
pub uninterp spec fn semver_parse(s: Seq<char>) -> Result<Seq<u8>, Seq<char>>;

/// The abstract value of a version parse.
pub open spec fn semver_view(r: Result<[u8; 16], String>) -> Result<Seq<u8>, Seq<char>> {
    match r {
        Ok(b) => Ok(b@),
        Err(m) => Err(m@),
    }
}

/// Parses `s` with `SemVer::from_str` (through `str::parse`) and serializes the version into its 16-byte record
/// with `From<SemVer> for [u8; 16]`; an error becomes its message. The contract claims only
/// that the outcome is a function of the text, named [`semver_parse`].
#[verifier::external_body]
fn parse_semver(s: &str) -> (r: Result<[u8; 16], String>)
    requires
        !semver_text_panics(s@),
    ensures
        semver_view(r) == semver_parse(s@),
{
    match s.parse::<SemVer>() {
        Ok(version) => Ok(version.into()),
        Err(message) => Err(message.to_string()),
    }
}

/// The version records of a signed image: the minimum Xous version it needs, and its own.
#[derive(Debug)]
pub struct SignVersions {
    pub minimum: [u8; 16],
    pub image: [u8; 16],
}

/// The versions given the parse outcomes of the minimum version and of the image version:
/// a failed parse is reported with what it was for, the minimum version first.
pub open spec fn versions_spec(
    minimum: Result<Seq<u8>, Seq<char>>,
    image: Result<Seq<u8>, Seq<char>>,
) -> Result<(Seq<u8>, Seq<u8>), Seq<char>> {
    match minimum {
        Err(m) => Err("invalid minimum Xous version: "@ + m),
        Ok(min) => match image {
            Err(m) => Err("invalid image version: "@ + m),
            Ok(img) => Ok((min, img)),
        },
    }
}

/// The abstract value of a versions outcome.
pub open spec fn versions_view(r: Result<SignVersions, ImageError>) -> Result<
    (Seq<u8>, Seq<u8>),
    Seq<char>,
> {
    match r {
        Ok(v) => Ok((v.minimum@, v.image@)),
        Err(e) => Err(e@),
    }
}

/// An error "{prefix}{message}".
fn prefixed(prefix: &str, message: &String) -> (e: ImageError)
    ensures
        e@ == prefix@ + message@,
{
    let mut out: Vec<char> = Vec::new();
    push_str(&mut out, prefix);
    push_str(&mut out, message.as_str());
    ImageError::new(chars_to_string(&out))
}

/// The versions from the parse outcomes of the minimum version and of the image version.
pub fn versions_from(minimum: Result<[u8; 16], String>, image: Result<[u8; 16], String>) -> (r:
    Result<SignVersions, ImageError>)
    ensures
        versions_view(r) == versions_spec(semver_view(minimum), semver_view(image)),
{
    match minimum {
        Err(m) => Err(prefixed("invalid minimum Xous version: ", &m)),
        Ok(min) => match image {
            Err(m) => Err(prefixed("invalid image version: ", &m)),
            Ok(img) => Ok(SignVersions { minimum: min, image: img }),
        },
    }
}

/// Parses the minimum Xous version and the image version (`git describe` text) of a signing
/// run; the image version is parsed only once the minimum version parsed. `None` where
/// `SemVer::from_str` would panic on the image version, which the minimum version let it
/// reach (see [`semver_text_panics`]).
pub fn parse_versions(min_xous_version: &str, git_describe: &str) -> (r: Option<
    Result<SignVersions, ImageError>,
>)
    requires
        !semver_text_panics(min_xous_version@),
    ensures
        r is None <==> (semver_parse(min_xous_version@) is Ok && semver_text_panics(
            git_describe@,
        )),
        r matches Some(v) ==> versions_view(v) == versions_spec(
            semver_parse(min_xous_version@),
            semver_parse(git_describe@),
        ),
{
    let minimum = parse_semver(min_xous_version);
    match minimum {
        Err(m) => Some(Err(prefixed("invalid minimum Xous version: ", &m))),
        Ok(_) => {
            if semver_parse_would_panic(git_describe) {
                return None;
            }
            let image = parse_semver(git_describe);
            Some(versions_from(minimum, image))
        },
    }
}

/// A signing request is accepted exactly when its output differs from its input, ends in
/// `.img` or `.bin`, and has a PQ key and a PQ key cache both or neither; in particular a PQ
/// key without its cache, or a cache without its key, is always refused.
pub proof fn law_sign_request_accepted(r: SignRequest)
    ensures
        request_problem(r) is None <==> (!r.same_path && (r.output_extension matches Some(x) && (
        x@ == "img"@ || x@ == "bin"@)) && r.pq_key == r.pq_key_cache),
        r.pq_key != r.pq_key_cache ==> request_problem(r) is Some,
{
}

} // verus!
