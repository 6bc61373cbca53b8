//! Character-level text handling: whitespace, trimming, word splitting, number parsing and
//! number formatting, as the boot1 REPL lines and the tool's messages need them.

use vstd::prelude::*;

verus! {

/// Unicode `White_Space`, the set that `char::is_whitespace` tests.
pub open spec fn is_whitespace(c: char) -> bool {
    let n = c as u32;
    ||| 0x09 <= n <= 0x0d
    ||| n == 0x20
    ||| n == 0x85
    ||| n == 0xa0
    ||| n == 0x1680
    ||| 0x2000 <= n <= 0x200a
    ||| n == 0x2028
    ||| n == 0x2029
    ||| n == 0x202f
    ||| n == 0x205f
    ||| n == 0x3000
}

pub fn char_is_whitespace(c: char) -> (b: bool)
    ensures
        b == is_whitespace(c),
{
    let n = c as u32;
    (0x09 <= n && n <= 0x0d) || n == 0x20 || n == 0x85 || n == 0xa0 || n == 0x1680 || (0x2000 <= n
        && n <= 0x200a) || n == 0x2028 || n == 0x2029 || n == 0x202f || n == 0x205f || n == 0x3000
}

/// `s` without its leading whitespace.
pub open spec fn trim_start(s: Seq<char>) -> Seq<char>
    decreases s.len(),
{
    if s.len() > 0 && is_whitespace(s[0]) {
        trim_start(s.drop_first())
    } else {
        s
    }
}

/// `s` without its trailing whitespace.
pub open spec fn trim_end(s: Seq<char>) -> Seq<char>
    decreases s.len(),
{
    if s.len() > 0 && is_whitespace(s.last()) {
        trim_end(s.drop_last())
    } else {
        s
    }
}

/// `s` without leading and trailing whitespace.
pub open spec fn trim(s: Seq<char>) -> Seq<char> {
    trim_end(trim_start(s))
}

proof fn lemma_trim_start_skip(s: Seq<char>, i: int)
    requires
        0 <= i <= s.len(),
        forall|j: int| 0 <= j < i ==> is_whitespace(#[trigger] s[j]),
        i == s.len() || !is_whitespace(s[i]),
    ensures
        trim_start(s) == s.skip(i),
    decreases i,
{
    if i > 0 {
        let t = s.drop_first();
        assert forall|j: int| 0 <= j < i - 1 implies is_whitespace(#[trigger] t[j]) by {
            assert(t[j] == s[j + 1]);
        }
        lemma_trim_start_skip(t, i - 1);
        assert(t.skip(i - 1) =~= s.skip(i));
    } else {
        assert(s.skip(0) =~= s);
    }
}

proof fn lemma_trim_end_take(s: Seq<char>, k: int)
    requires
        0 <= k <= s.len(),
        forall|j: int| k <= j < s.len() ==> is_whitespace(#[trigger] s[j]),
        k == 0 || !is_whitespace(s[k - 1]),
    ensures
        trim_end(s) == s.take(k),
    decreases s.len() - k,
{
    if k < s.len() {
        let t = s.drop_last();
        assert forall|j: int| k <= j < t.len() implies is_whitespace(#[trigger] t[j]) by {
            assert(t[j] == s[j]);
        }
        lemma_trim_end_take(t, k);
        assert(t.take(k) =~= s.take(k));
    } else {
        assert(s.take(k) =~= s);
    }
}

/// The characters of `s` with leading and trailing whitespace removed.
pub fn trim_chars(s: &Vec<char>) -> (t: Vec<char>)
    ensures
        t@ == trim(s@),
{
    let n = s.len();
    let mut i: usize = 0;
    while i < n && char_is_whitespace(s[i])
        invariant
            n == s@.len(),
            i <= n,
            forall|j: int| 0 <= j < i ==> is_whitespace(#[trigger] s@[j]),
        decreases n - i,
    {
        i = i + 1;
    }
    proof {
        lemma_trim_start_skip(s@, i as int);
    }
    let mut k: usize = n;
    while k > i && char_is_whitespace(s[k - 1])
        invariant
            n == s@.len(),
            i <= k <= n,
            forall|j: int| k <= j < n ==> is_whitespace(#[trigger] s@[j]),
        decreases k,
    {
        k = k - 1;
    }
    let ghost rest = s@.skip(i as int);
    proof {
        assert forall|j: int| k - i <= j < rest.len() implies is_whitespace(#[trigger] rest[j]) by {
            assert(rest[j] == s@[i + j]);
        }
        if k > i {
            assert(rest[k - i - 1] == s@[k - 1]);
        }
        lemma_trim_end_take(rest, k - i);
    }
    let mut t: Vec<char> = Vec::new();
    let mut p: usize = i;
    while p < k
        invariant
            i <= p <= k <= n,
            n == s@.len(),
            t@ == s@.subrange(i as int, p as int),
        decreases k - p,
    {
        t.push(s[p]);
        p = p + 1;
        assert(t@ =~= s@.subrange(i as int, p as int));
    }
    assert(rest.take(k - i) =~= s@.subrange(i as int, k as int));
    t
}

/// The characters of `s` with trailing whitespace removed.
pub fn trim_end_chars(s: &Vec<char>) -> (t: Vec<char>)
    ensures
        t@ == trim_end(s@),
{
    let n = s.len();
    let mut k: usize = n;
    while k > 0 && char_is_whitespace(s[k - 1])
        invariant
            n == s@.len(),
            k <= n,
            forall|j: int| k <= j < n ==> is_whitespace(#[trigger] s@[j]),
        decreases k,
    {
        k = k - 1;
    }
    proof {
        lemma_trim_end_take(s@, k as int);
    }
    let mut t: Vec<char> = Vec::new();
    let mut p: usize = 0;
    while p < k
        invariant
            p <= k <= n,
            n == s@.len(),
            t@ == s@.take(p as int),
        decreases k - p,
    {
        t.push(s[p]);
        p = p + 1;
        assert(t@ =~= s@.take(p as int));
    }
    t
}

/// Splitting `s` at whitespace, read left to right: the words completed so far and the word
/// being read.
pub open spec fn words_fold(s: Seq<char>) -> (Seq<Seq<char>>, Seq<char>)
    decreases s.len(),
{
    if s.len() == 0 {
        (seq![], seq![])
    } else {
        let (done, cur) = words_fold(s.drop_last());
        if is_whitespace(s.last()) {
            if cur.len() > 0 {
                (done.push(cur), seq![])
            } else {
                (done, cur)
            }
        } else {
            (done, cur.push(s.last()))
        }
    }
}

/// The non-empty runs of non-whitespace characters of `s`, in order (`str::split_whitespace`).
pub open spec fn words(s: Seq<char>) -> Seq<Seq<char>> {
    let (done, cur) = words_fold(s);
    if cur.len() > 0 {
        done.push(cur)
    } else {
        done
    }
}

/// The whitespace-separated words of `s`.
pub fn split_words(s: &Vec<char>) -> (w: Vec<Vec<char>>)
    ensures
        w@.map_values(|x: Vec<char>| x@) == words(s@),
{
    let n = s.len();
    let mut done: Vec<Vec<char>> = Vec::new();
    let mut cur: Vec<char> = Vec::new();
    let mut i: usize = 0;
    while i < n
        invariant
            n == s@.len(),
            i <= n,
            (done@.map_values(|x: Vec<char>| x@), cur@) == words_fold(s@.take(i as int)),
        decreases n - i,
    {
        let c = s[i];
        let ghost prev = s@.take(i as int);
        assert(s@.take(i + 1).drop_last() =~= prev);
        assert(s@.take(i + 1).last() == c);
        if char_is_whitespace(c) {
            if cur.len() > 0 {
                let ghost before = done@;
                let finished = cur;
                done.push(finished);
                cur = Vec::new();
                assert(done@.map_values(|x: Vec<char>| x@) =~= before.map_values(
                    |x: Vec<char>| x@,
                ).push(finished@));
            }
        } else {
            cur.push(c);
        }
        i = i + 1;
    }
    assert(s@.take(n as int) =~= s@);
    if cur.len() > 0 {
        let ghost before = done@;
        let last = cur;
        done.push(last);
        assert(done@.map_values(|x: Vec<char>| x@) =~= before.map_values(|x: Vec<char>| x@).push(
            last@,
        ));
    }
    done
}

/// Whether `s` begins with `prefix`.
pub open spec fn has_prefix(s: Seq<char>, prefix: Seq<char>) -> bool {
    prefix.len() <= s.len() && s.take(prefix.len() as int) == prefix
}

pub fn starts_with(s: &Vec<char>, prefix: &str) -> (b: bool)
    ensures
        b == has_prefix(s@, prefix@),
{
    let m = prefix.unicode_len();
    if m > s.len() {
        return false;
    }
    let mut i: usize = 0;
    while i < m
        invariant
            m == prefix@.len(),
            m <= s@.len(),
            i <= m,
            forall|j: int| 0 <= j < i ==> s@[j] == prefix@[j],
        decreases m - i,
    {
        if s[i] != prefix.get_char(i) {
            assert(s@.take(m as int)[i as int] != prefix@[i as int]);
            return false;
        }
        i = i + 1;
    }
    assert(s@.take(m as int) =~= prefix@);
    true
}

/// Whether the characters `s` are exactly the string `t`.
pub fn chars_equal(s: &Vec<char>, t: &str) -> (b: bool)
    ensures
        b == (s@ == t@),
{
    let m = t.unicode_len();
    if m != s.len() {
        return false;
    }
    let mut i: usize = 0;
    while i < m
        invariant
            m == t@.len(),
            m == s@.len(),
            i <= m,
            forall|j: int| 0 <= j < i ==> s@[j] == t@[j],
        decreases m - i,
    {
        if s[i] != t.get_char(i) {
            return false;
        }
        i = i + 1;
    }
    assert(s@ =~= t@);
    true
}

/// `s` without `prefix`, when it begins with it.
pub fn strip_prefix(s: &Vec<char>, prefix: &str) -> (r: Option<Vec<char>>)
    ensures
        match r {
            Some(rest) => has_prefix(s@, prefix@) && rest@ == s@.skip(prefix@.len() as int),
            None => !has_prefix(s@, prefix@),
        },
{
    if !starts_with(s, prefix) {
        return None;
    }
    let m = prefix.unicode_len();
    let n = s.len();
    let mut rest: Vec<char> = Vec::new();
    let mut i: usize = m;
    while i < n
        invariant
            m <= i <= n,
            n == s@.len(),
            rest@ == s@.subrange(m as int, i as int),
        decreases n - i,
    {
        rest.push(s[i]);
        i = i + 1;
        assert(rest@ =~= s@.subrange(m as int, i as int));
    }
    assert(rest@ =~= s@.skip(m as int));
    Some(rest)
}

/// The value of the digit `c` in base `radix` (digits `0-9`, then letters of either case).
pub open spec fn digit_value(c: char, radix: nat) -> Option<nat> {
    let n = c as u32;
    let v: int = if 0x30 <= n <= 0x39 {
        n - 0x30
    } else if 0x61 <= n <= 0x7a {
        n - 0x61 + 10
    } else if 0x41 <= n <= 0x5a {
        n - 0x41 + 10
    } else {
        radix as int
    };
    if v < radix {
        Some(v as nat)
    } else {
        None
    }
}

/// The value of the digit string `s` in base `radix`; `None` if a character is not a digit.
pub open spec fn digits_value(s: Seq<char>, radix: nat) -> Option<nat>
    decreases s.len(),
{
    if s.len() == 0 {
        Some(0)
    } else {
        match (digits_value(s.drop_last(), radix), digit_value(s.last(), radix)) {
            (Some(v), Some(d)) => Some(v * radix + d),
            _ => None,
        }
    }
}

/// The `u32` that `u32::from_str_radix(s, radix)` yields: an optional `+`, then at least one
/// digit, with a value that fits.
pub open spec fn parse_u32_radix(s: Seq<char>, radix: nat) -> Option<u32> {
    let d = if s.len() > 0 && s[0] == '+' {
        s.drop_first()
    } else {
        s
    };
    if d.len() == 0 {
        None
    } else {
        match digits_value(d, radix) {
            Some(v) => if v <= u32::MAX {
                Some(v as u32)
            } else {
                None
            },
            None => None,
        }
    }
}

fn char_digit_value(c: char, radix: u64) -> (r: Option<u64>)
    requires
        2 <= radix <= 36,
    ensures
        match r {
            Some(v) => digit_value(c, radix as nat) == Some(v as nat),
            None => digit_value(c, radix as nat) is None,
        },
{
    let n = c as u32;
    let v: u64 = if 0x30 <= n && n <= 0x39 {
        (n - 0x30) as u64
    } else if 0x61 <= n && n <= 0x7a {
        (n - 0x61 + 10) as u64
    } else if 0x41 <= n && n <= 0x5a {
        (n - 0x41 + 10) as u64
    } else {
        radix
    };
    if v < radix {
        Some(v)
    } else {
        None
    }
}

proof fn lemma_digits_grow(s: Seq<char>, k: int, radix: nat)
    requires
        0 <= k <= s.len(),
        radix >= 1,
        digits_value(s.take(k), radix) matches Some(v) && v > u32::MAX,
    ensures
        digits_value(s, radix) matches Some(w) ==> w > u32::MAX,
    decreases s.len() - k,
{
    if k < s.len() {
        let t = s.drop_last();
        assert(t.take(k) =~= s.take(k));
        lemma_digits_grow(t, k, radix);
        if let Some(w) = digits_value(s, radix) {
            let v = digits_value(t, radix)->0;
            let d = digit_value(s.last(), radix)->0;
            assert(v * radix + d >= v) by (nonlinear_arith)
                requires
                    radix >= 1,
                    v >= 0,
                    d >= 0,
            ;
        }
    } else {
        assert(s.take(k) =~= s);
    }
}

/// `u32::from_str_radix` over characters.
pub fn parse_u32(s: &Vec<char>, radix: u64) -> (r: Option<u32>)
    requires
        2 <= radix <= 36,
    ensures
        r == parse_u32_radix(s@, radix as nat),
{
    let n = s.len();
    let start: usize = if n > 0 && s[0] == '+' {
        1
    } else {
        0
    };
    let ghost d = if s@.len() > 0 && s@[0] == '+' {
        s@.drop_first()
    } else {
        s@
    };
    assert(d =~= s@.skip(start as int));
    if start == n {
        return None;
    }
    let mut acc: u64 = 0;
    let mut i: usize = start;
    while i < n
        invariant
            start <= i <= n,
            n == s@.len(),
            2 <= radix <= 36,
            d == s@.skip(start as int),
            d == (if s@.len() > 0 && s@[0] == '+' {
                s@.drop_first()
            } else {
                s@
            }),
            d.len() > 0,
            acc <= u32::MAX,
            digits_value(d.take(i - start), radix as nat) == Some(acc as nat),
        decreases n - i,
    {
        let ghost pre = d.take(i - start);
        let ghost cur = d.take(i - start + 1);
        assert(cur.drop_last() =~= pre);
        assert(cur.last() == s@[i as int]);

        match char_digit_value(s[i], radix) {
            None => {
                proof {
                    assert(digits_value(cur, radix as nat) is None);
                    lemma_digits_none_sticks(d, i - start + 1, radix as nat);
                }
                return None;
            },
            Some(v) => {
                assert(acc * radix <= 0xffff_ffff * 36) by (nonlinear_arith)
                    requires
                        acc <= 0xffff_ffff,
                        radix <= 36,
                ;
                let next = acc * radix + v;
                if next > 0xffff_ffff {
                    proof {
                        assert(digits_value(cur, radix as nat) == Some(next as nat));
                        lemma_digits_grow(d, i - start + 1, radix as nat);
                    }
                    return None;
                }
                acc = next;
                assert(digits_value(cur, radix as nat) == Some(acc as nat));
            },
        }
        i = i + 1;
    }
    assert(d.take(n - start) =~= d);
    Some(acc as u32)
}

proof fn lemma_digits_none_sticks(s: Seq<char>, k: int, radix: nat)
    requires
        0 <= k <= s.len(),
        digits_value(s.take(k), radix) is None,
    ensures
        digits_value(s, radix) is None,
    decreases s.len() - k,
{
    if k < s.len() {
        let t = s.drop_last();
        assert(t.take(k) =~= s.take(k));
        lemma_digits_none_sticks(t, k, radix);
    } else {
        assert(s.take(k) =~= s);
    }
}

/// The character of digit `d` (`0-9`, then lower-case letters).
pub open spec fn digit_char(d: nat) -> char {
    if d < 10 {
        (0x30 + d) as char
    } else {
        (0x61 + d - 10) as char
    }
}

/// Decimal representation of `n`.
pub open spec fn dec_str(n: nat) -> Seq<char>
    decreases n,
{
    if n < 10 {
        seq![digit_char(n)]
    } else {
        dec_str(n / 10).push(digit_char(n % 10))
    }
}

/// The lowest `width` hexadecimal digits of `n`, most significant first (`{:0width$x}` for
/// values below `16^width`).
pub open spec fn hex_fixed(n: nat, width: nat) -> Seq<char>
    decreases width,
{
    if width == 0 {
        seq![]
    } else {
        hex_fixed(n / 16, (width - 1) as nat).push(digit_char(n % 16))
    }
}

fn digit(d: u64) -> (c: char)
    requires
        d < 16,
    ensures
        c == digit_char(d as nat),
{
    if d < 10 {
        let b = (0x30 + d) as u8;
        b as char
    } else {
        let b = (0x61 + d - 10) as u8;
        b as char
    }
}

/// Appends the decimal digits of `n`.
pub fn push_dec(out: &mut Vec<char>, n: u64)
    ensures
        final(out)@ == old(out)@ + dec_str(n as nat),
    decreases n,
{
    if n >= 10 {
        push_dec(out, n / 10);
    }
    out.push(digit(n % 10));
}

/// Appends the lowest `width` hexadecimal digits of `n`.
pub fn push_hex(out: &mut Vec<char>, n: u64, width: u32)
    ensures
        final(out)@ == old(out)@ + hex_fixed(n as nat, width as nat),
    decreases width,
{
    if width > 0 {
        push_hex(out, n / 16, width - 1);
        out.push(digit(n % 16));
    }
}

/// The hexadecimal digits of `n`, left-padded with zeros to at least `width` digits
/// (`{:0width$x}`).
pub open spec fn hex_min(n: nat, width: nat) -> Seq<char>
    decreases n + width,
{
    if n < 16 && width <= 1 {
        seq![digit_char(n)]
    } else {
        hex_min(n / 16, if width > 0 { (width - 1) as nat } else { 0 }).push(digit_char(n % 16))
    }
}

/// Appends the hexadecimal digits of `n`, left-padded with zeros to at least `width` digits.
pub fn push_hex_min(out: &mut Vec<char>, n: u64, width: u32)
    ensures
        final(out)@ == old(out)@ + hex_min(n as nat, width as nat),
    decreases n + width,
{
    if n < 16 && width <= 1 {
        out.push(digit(n));
    } else {
        let w = if width > 0 {
            width - 1
        } else {
            0
        };
        push_hex_min(out, n / 16, w);
        out.push(digit(n % 16));
    }
}

/// Two lower-case hexadecimal digits per byte of `s`, in order.
pub open spec fn hex_bytes(s: Seq<u8>) -> Seq<char>
    decreases s.len(),
{
    if s.len() == 0 {
        seq![]
    } else {
        hex_bytes(s.drop_last()) + hex_fixed(s.last() as nat, 2)
    }
}

/// Appends two hexadecimal digits for each byte of `s`.
pub fn push_hex_bytes(out: &mut Vec<char>, s: &[u8])
    ensures
        final(out)@ == old(out)@ + hex_bytes(s@),
{
    let n = s.len();
    let mut i: usize = 0;
    let ghost start = out@;
    while i < n
        invariant
            n == s@.len(),
            i <= n,
            out@ == start + hex_bytes(s@.take(i as int)),
        decreases n - i,
    {
        push_hex(out, s[i] as u64, 2);
        assert(s@.take(i + 1).drop_last() =~= s@.take(i as int));
        i = i + 1;
        assert(out@ =~= start + hex_bytes(s@.take(i as int)));
    }
    assert(s@.take(n as int) =~= s@);
}

/// Appends the characters of `s`.
pub fn push_str(out: &mut Vec<char>, s: &str)
    ensures
        final(out)@ == old(out)@ + s@,
{
    let m = s.unicode_len();
    let mut i: usize = 0;
    let ghost start = out@;
    while i < m
        invariant
            m == s@.len(),
            i <= m,
            out@ == start + s@.take(i as int),
        decreases m - i,
    {
        out.push(s.get_char(i));
        i = i + 1;
        assert(out@ =~= start + s@.take(i as int));
    }
    assert(s@.take(m as int) =~= s@);
}

/// Appends the characters `s`.
pub fn push_chars(out: &mut Vec<char>, s: &Vec<char>)
    ensures
        final(out)@ == old(out)@ + s@,
{
    let m = s.len();
    let mut i: usize = 0;
    let ghost start = out@;
    while i < m
        invariant
            m == s@.len(),
            i <= m,
            out@ == start + s@.take(i as int),
        decreases m - i,
    {
        out.push(s[i]);
        i = i + 1;
        assert(out@ =~= start + s@.take(i as int));
    }
    assert(s@.take(m as int) =~= s@);
}

/// The text of `UTF-8` bytes with each invalid sequence replaced by U+FFFD, as
/// `String::from_utf8_lossy` decodes it.
pub uninterp spec fn utf8_lossy(bytes: Seq<u8>) -> Seq<char>;

/// Decodes `bytes` with `String::from_utf8_lossy`. The contract claims that the result is a
/// function of the bytes, named [`utf8_lossy`], and that ASCII bytes, being valid UTF-8,
/// decode to the characters of the same code.
#[verifier::external_body]
pub(crate) fn decode_lossy(bytes: &[u8]) -> (s: Vec<char>)
    ensures
        s@ == utf8_lossy(bytes@),
        (forall|i: int| 0 <= i < bytes@.len() ==> bytes@[i] < 0x80) ==> s@ == bytes@.map_values(
            |b: u8| b as char,
        ),
{
    String::from_utf8_lossy(bytes).chars().collect()
}

/// Collects characters into a `String` (`FromIterator<char>`); the contract claims that the
/// string holds exactly those characters.
#[verifier::external_body]
pub(crate) fn chars_to_string(s: &Vec<char>) -> (t: String)
    ensures
        t@ == s@,
{
    s.iter().collect()
}

} // verus!
