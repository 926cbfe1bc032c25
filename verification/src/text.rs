//! Small pieces of text that the screen is put together from.
use vstd::prelude::*;

verus! {

/// Trusted: `String::push` appends one scalar value.
pub assume_specification[ String::push ](s: &mut String, ch: char)
    ensures
        final(s)@ == old(s)@.push(ch),
;

/// Trusted: `String::pop` takes the last scalar value off, if there is one,
/// and hands it back.
pub assume_specification[ String::pop ](s: &mut String) -> (last: Option<char>)
    ensures
        old(s)@.len() > 0 ==> last == Some(old(s)@.last()) && final(s)@ == old(s)@.drop_last(),
        old(s)@.len() == 0 ==> last is None && final(s)@ == old(s)@,
;

/// The character of the decimal digit `d`.
pub open spec fn digit(d: int) -> char {
    ('0' as int + d) as char
}

/// `n` written in decimal, without leading zeros.
pub open spec fn decimal(n: nat) -> Seq<char>
    decreases n,
{
    if n < 10 {
        seq![digit(n as int)]
    } else {
        decimal(n / 10).push(digit((n % 10) as int))
    }
}

/// The first `limit` scalar values of `text`; all of it where it has no more.
pub open spec fn clipped(text: Seq<char>, limit: int) -> Seq<char> {
    if 0 <= limit < text.len() {
        text.take(limit)
    } else {
        text
    }
}

/// `count` spaces.
pub open spec fn blanks(count: int) -> Seq<char> {
    Seq::new(
        if count > 0 {
            count as nat
        } else {
            0
        },
        |i: int| ' ',
    )
}

/// The character of the decimal digit `d`.
pub fn digit_char(d: u8) -> (c: char)
    requires
        d < 10,
    ensures
        c == digit(d as int),
{
    (48u8 + d) as char
}

/// `n` written in decimal.
pub fn decimal_string(n: usize) -> (s: String)
    ensures
        s@ == decimal(n as nat),
    decreases n,
{
    if n < 10 {
        let mut s = String::new();
        s.push(digit_char(n as u8));
        assert(s@ =~= seq![digit(n as int)]);
        s
    } else {
        let mut s = decimal_string(n / 10);
        s.push(digit_char((n % 10) as u8));
        s
    }
}

/// The first `limit` scalar values of `text` as a string of their own.
pub fn clip(text: &str, limit: usize) -> (s: String)
    ensures
        s@ == clipped(text@, limit as int),
{
    if limit < text.unicode_len() {
        String::from_str(text.substring_char(0, limit))
    } else {
        String::from_str(text)
    }
}

/// Appends `count` spaces to `text`.
pub fn pad(text: &mut String, count: usize)
    ensures
        final(text)@ == old(text)@ + blanks(count as int),
{
    let mut i: usize = 0;
    assert(text@ =~= old(text)@ + blanks(0));
    while i < count
        invariant
            i <= count,
            text@ == old(text)@ + blanks(i as int),
        decreases count - i,
    {
        text.push(' ');
        i += 1;
        assert(text@ =~= old(text)@ + blanks(i as int));
    }
}

} // verus!
