use vstd::prelude::*;

verus! {

/// Whether std counts `c` as a control character.
pub uninterp spec fn control_of(c: char) -> bool;

/// Whether std counts `c` as white space.
pub uninterp spec fn whitespace_of(c: char) -> bool;

/// Relies on `char::is_control`: whether `c` has the general category of
/// control codes, which depends on `c` alone.
#[verifier::external_body]
fn is_control(c: char) -> (r: bool)
    ensures
        r == control_of(c),
{
    c.is_control()
}

/// Relies on `char::is_whitespace`: whether `c` has the `White_Space`
/// property, which depends on `c` alone.
#[verifier::external_body]
fn is_whitespace(c: char) -> (r: bool)
    ensures
        r == whitespace_of(c),
{
    c.is_whitespace()
}

/// Relies on `String::push`: appends `c` at the end of `s`.
#[verifier::external_body]
fn push_char(s: &mut String, c: char)
    ensures
        final(s)@ == old(s)@.push(c),
{
    s.push(c)
}

/// What a character of a label becomes: kept when it is no control
/// character, a single space when it is a control character that is white
/// space, and dropped otherwise.
pub open spec fn cleaned(c: char, control: bool, whitespace: bool) -> Option<char> {
    if !control {
        Some(c)
    } else if whitespace {
        Some(' ')
    } else {
        None
    }
}

/// A label with each character cleaned, in order.
pub open spec fn sanitized(s: Seq<char>) -> Seq<char>
    decreases s.len(),
{
    if s.len() == 0 {
        s
    } else {
        let rest = sanitized(s.drop_last());
        match cleaned(s.last(), control_of(s.last()), whitespace_of(s.last())) {
            Some(c) => rest.push(c),
            None => rest,
        }
    }
}

/// What the character `c` becomes in a label, given whether it is a control
/// character and whether it is white space.
pub fn clean_char(c: char, control: bool, whitespace: bool) -> (r: Option<char>)
    ensures
        r == cleaned(c, control, whitespace),
{
    if !control {
        Some(c)
    } else if whitespace {
        Some(' ')
    } else {
        None
    }
}

/// The label as it is stored: control characters that are white space become
/// a single space each, other control characters are dropped, and everything
/// else is kept in order.
pub fn sanitize_label(raw: &str) -> (r: String)
    ensures
        r@ == sanitized(raw@),
{
    let mut out = String::new();
    let n = raw.unicode_len();
    let mut i: usize = 0;
    while i < n
        invariant
            n == raw@.len(),
            i <= n,
            out@ == sanitized(raw@.take(i as int)),
        decreases n - i,
    {
        let c = raw.get_char(i);
        let ghost prefix = raw@.take(i + 1);
        assert(prefix.drop_last() =~= raw@.take(i as int));
        match clean_char(c, is_control(c), is_whitespace(c)) {
            Some(d) => push_char(&mut out, d),
            None => {},
        }
        i = i + 1;
    }
    assert(raw@.take(n as int) =~= raw@);
    out
}

} // verus!
