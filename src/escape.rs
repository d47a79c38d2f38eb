//! Quoting and escaping of text for SQL string literals and identifiers.
use vstd::prelude::*;

verus! {

/// A character inside quotes: the quote character and the backslash are
/// preceded by a backslash, every other character stands for itself.
pub open spec fn escape_char(c: char, quote: char) -> Seq<char> {
    if c == quote || c == '\\' {
        seq!['\\', c]
    } else {
        seq![c]
    }
}

/// The escaped form of a whole text, character by character.
pub open spec fn escaped(s: Seq<char>, quote: char) -> Seq<char>
    decreases s.len(),
{
    if s.len() == 0 {
        Seq::empty()
    } else {
        escaped(s.drop_last(), quote) + escape_char(s.last(), quote)
    }
}

/// The text escaped and wrapped in the quote character.
pub open spec fn quoted(s: Seq<char>, quote: char) -> Seq<char> {
    seq![quote] + escaped(s, quote) + seq![quote]
}

/// Relies on `String::push`: the character is appended to the end.
#[verifier::external_body]
pub(crate) fn push_char(dst: &mut String, c: char)
    ensures
        final(dst)@ == old(dst)@.push(c),
{
    dst.push(c);
}

/// The characters of `s`, in order.
pub fn chars_of(s: &str) -> (r: Vec<char>)
    ensures
        r@ == s@,
{
    broadcast use vstd::string::group_string_axioms;

    let mut v: Vec<char> = Vec::new();
    for c in it: s.chars()
        invariant
            v@ == it.seq().take(it.index() as int),
    {
        v.push(c);
    }
    v
}

/// Appends `src` wrapped in `quote`, with `quote` and the backslash escaped.
fn write_quoted(src: &str, quote: char, dst: &mut String)
    ensures
        final(dst)@ == old(dst)@ + quoted(src@, quote),
{
    let chars = chars_of(src);
    let ghost start = dst@;
    push_char(dst, quote);
    let mut i: usize = 0;
    while i < chars.len()
        invariant
            chars@ == src@,
            i <= chars@.len(),
            dst@ == start + seq![quote] + escaped(src@.take(i as int), quote),
        decreases chars@.len() - i,
    {
        let c = chars[i];
        if c == quote || c == '\\' {
            push_char(dst, '\\');
        }
        push_char(dst, c);
        assert(src@.take(i + 1).drop_last() =~= src@.take(i as int));
        assert(dst@ =~= start + seq![quote] + escaped(src@.take(i + 1), quote));
        i = i + 1;
    }
    push_char(dst, quote);
    assert(src@.take(chars@.len() as int) =~= src@);
    assert(dst@ =~= old(dst)@ + quoted(src@, quote));
}

/// Appends `src` as a single-quoted SQL string literal.
pub fn string(src: &str, dst: &mut String)
    ensures
        final(dst)@ == old(dst)@ + quoted(src@, '\''),
{
    write_quoted(src, '\'', dst);
}

/// Appends `src` as a backtick-quoted SQL identifier.
pub fn identifier(src: &str, dst: &mut String)
    ensures
        final(dst)@ == old(dst)@ + quoted(src@, '`'),
{
    write_quoted(src, '`', dst);
}

} // verus!
