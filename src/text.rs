//! Text helpers of the outline parser: decoding link destinations and locating byte offsets.
use vstd::prelude::*;
use vstd::string::{StringExecFns, StringSliceAdditionalSpecFns};

verus! {

/// `s` with every `%20` read left to right replaced by a space.
pub open spec fn decode_spaces(s: Seq<char>) -> Seq<char>
    decreases s.len(),
{
    if s.len() == 0 {
        Seq::empty()
    } else if s.len() >= 3 && s[0] == '%' && s[1] == '2' && s[2] == '0' {
        seq![' '] + decode_spaces(s.skip(3))
    } else {
        seq![s[0]] + decode_spaces(s.skip(1))
    }
}

/// Relies on std's `String::push`: appends one character to the string.
#[verifier::external_body]
pub(crate) fn push_char(s: &mut String, c: char)
    ensures
        final(s)@ == old(s)@.push(c),
{
    s.push(c);
}

/// The characters of `s`, in order.
pub(crate) fn chars_of(s: &str) -> (r: Vec<char>)
    ensures
        r@ == s@,
{
    let mut r: Vec<char> = Vec::new();
    for c in it: s.chars()
        invariant
            r@ == it.seq().take(it.index() as int),
    {
        r.push(c);
    }
    r
}

/// Replaces each percent-encoded space `%20` of `s` by a space.
pub fn decode_percent_spaces(s: &str) -> (r: String)
    ensures
        r@ == decode_spaces(s@),
{
    let cs = chars_of(s);
    let mut r = String::new();
    let mut i: usize = 0;
    assert(cs@.skip(0) =~= cs@);
    assert(r@ + decode_spaces(cs@) =~= decode_spaces(cs@));
    while i < cs.len()
        invariant
            i <= cs.len(),
            r@ + decode_spaces(cs@.skip(i as int)) == decode_spaces(cs@),
        decreases cs.len() - i,
    {
        let rest = Ghost(cs@.skip(i as int));
        if cs.len() - i >= 3 && cs[i] == '%' && cs[i + 1] == '2' && cs[i + 2] == '0' {
            assert(rest@.skip(3) =~= cs@.skip(i + 3));
            push_char(&mut r, ' ');
            i = i + 3;
        } else {
            assert(rest@.skip(1) =~= cs@.skip(i + 1));
            push_char(&mut r, cs[i]);
            i = i + 1;
        }
    }
    assert(cs@.skip(i as int) =~= Seq::<char>::empty());
    assert(r@ + Seq::<char>::empty() =~= r@);
    r
}

/// How many newline bytes stand among the first `n` bytes of `b`.
pub open spec fn newlines_before(b: Seq<u8>, n: int) -> int
    decreases n,
{
    if n <= 0 {
        0
    } else {
        newlines_before(b, n - 1) + if b[n - 1] == 10u8 { 1int } else { 0int }
    }
}

/// The offset at which the line holding byte offset `n` starts.
pub open spec fn line_start(b: Seq<u8>, n: int) -> int
    decreases n,
{
    if n <= 0 {
        0
    } else if b[n - 1] == 10u8 {
        n
    } else {
        line_start(b, n - 1)
    }
}

/// The 1-based line and column of byte offset `off` in `b`; an offset past the end
/// stands for the end.
pub open spec fn location_of(b: Seq<u8>, off: int) -> (int, int) {
    let n = if off < b.len() { off } else { b.len() as int };
    (newlines_before(b, n) + 1, n - line_start(b, n) + 1)
}

/// The 1-based line and column of the byte offset `offset` of `src`.
pub fn locate(src: &str, offset: usize) -> (r: (usize, usize))
    requires
        src.spec_bytes().len() < usize::MAX,
    ensures
        (r.0 as int, r.1 as int) == location_of(src.spec_bytes(), offset as int),
{
    let b = src.as_bytes();
    let n = if offset < b.len() { offset } else { b.len() };
    let mut count: usize = 0;
    let mut start: usize = 0;
    let mut i: usize = 0;
    while i < n
        invariant
            n <= b@.len(),
            b@ == src.spec_bytes(),
            i <= n,
            count <= i,
            start <= i,
            count as int == newlines_before(b@, i as int),
            start as int == line_start(b@, i as int),
        decreases n - i,
    {
        if b[i] == 10u8 {
            count = count + 1;
            start = i + 1;
        }
        i = i + 1;
    }
    (count + 1, n - start + 1)
}

} // verus!
