//! Characters, whitespace and the small string operations the assembler needs.
use vstd::prelude::*;

verus! {

/// The characters with the Unicode White_Space property, which `char::is_whitespace`
/// and `str::trim` go by.
pub open spec fn is_space(c: char) -> bool {
    let u = c as u32;
    ||| 0x09 <= u <= 0x0D
    ||| u == 0x20
    ||| u == 0x85
    ||| u == 0xA0
    ||| u == 0x1680
    ||| 0x2000 <= u <= 0x200A
    ||| u == 0x2028
    ||| u == 0x2029
    ||| u == 0x202F
    ||| u == 0x205F
    ||| u == 0x3000
}

/// `s` without its leading whitespace.
pub open spec fn trim_start(s: Seq<char>) -> Seq<char>
    decreases s.len(),
{
    if s.len() > 0 && is_space(s[0]) {
        trim_start(s.drop_first())
    } else {
        s
    }
}

/// `s` without its trailing whitespace.
pub open spec fn trim_end(s: Seq<char>) -> Seq<char>
    decreases s.len(),
{
    if s.len() > 0 && is_space(s.last()) {
        trim_end(s.drop_last())
    } else {
        s
    }
}

/// `s` without leading and trailing whitespace, as `str::trim` gives it.
pub open spec fn trim(s: Seq<char>) -> Seq<char> {
    trim_end(trim_start(s))
}

/// Whether `c` is whitespace.
pub fn is_space_char(c: char) -> (r: bool)
    ensures
        r == is_space(c),
{
    let u = c as u32;
    (0x09 <= u && u <= 0x0D) || u == 0x20 || u == 0x85 || u == 0xA0 || u == 0x1680 || (0x2000
        <= u && u <= 0x200A) || u == 0x2028 || u == 0x2029 || u == 0x202F || u == 0x205F || u
        == 0x3000
}

/// The bounds of `cs[from..to]` with its leading and trailing whitespace left out.
pub fn trim_bounds(cs: &Vec<char>, from: usize, to: usize) -> (r: (usize, usize))
    requires
        from <= to <= cs.len(),
    ensures
        from <= r.0 <= r.1 <= to,
        cs@.subrange(r.0 as int, r.1 as int) == trim(cs@.subrange(from as int, to as int)),
{
    let mut i: usize = from;
    while i < to && is_space_char(cs[i])
        invariant
            from <= i <= to <= cs.len(),
            trim_start(cs@.subrange(from as int, to as int)) == trim_start(
                cs@.subrange(i as int, to as int),
            ),
        decreases to - i,
    {
        assert(cs@.subrange(i as int, to as int).drop_first() =~= cs@.subrange(i + 1, to as int));
        i += 1;
    }
    let mut j: usize = to;
    while j > i && is_space_char(cs[j - 1])
        invariant
            from <= i <= j <= to <= cs.len(),
            trim_start(cs@.subrange(from as int, to as int)) == cs@.subrange(i as int, to as int),
            trim(cs@.subrange(from as int, to as int)) == trim_end(
                cs@.subrange(i as int, j as int),
            ),
        decreases j - i,
    {
        assert(cs@.subrange(i as int, j as int).drop_last() =~= cs@.subrange(i as int, j - 1));
        j -= 1;
    }
    (i, j)
}

/// Relies on `String::push`: appends one character at the end.
#[verifier::external_body]
pub(crate) fn push_char(s: &mut String, c: char)
    ensures
        final(s)@ == old(s)@.push(c),
{
    s.push(c);
}

/// The characters of `s`, in order.
pub fn chars_of(s: &str) -> (r: Vec<char>)
    ensures
        r@ == s@,
{
    let mut r: Vec<char> = Vec::new();
    for c in it: s.chars()
        invariant
            r@ == it.seq().take(it.index() as int),
    {
        r.push(c);
    }
    r
}

/// A `String` holding the characters `cs[from..to]`.
pub fn string_of(cs: &Vec<char>, from: usize, to: usize) -> (r: String)
    requires
        from <= to <= cs.len(),
    ensures
        r@ == cs@.subrange(from as int, to as int),
{
    let mut r = String::new();
    let mut i: usize = from;
    while i < to
        invariant
            from <= i <= to <= cs.len(),
            r@ == cs@.subrange(from as int, i as int),
        decreases to - i,
    {
        push_char(&mut r, cs[i]);
        proof {
            assert(cs@.subrange(from as int, i + 1) =~= cs@.subrange(from as int, i as int).push(
                cs@[i as int],
            ));
        }
        i += 1;
    }
    r
}

} // verus!
