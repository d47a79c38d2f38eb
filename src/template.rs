//! Parsing of query templates into segments.
//!
//! In a template `?` is a positional argument, `?fields` is the list of
//! columns of a row type, and `??` is a literal `?`.
use vstd::prelude::*;

use crate::escape::{chars_of, push_char};

verus! {

/// The meaning of one segment of a parsed template.
pub enum Segment {
    /// A `?` awaiting a value.
    Arg,
    /// A `?fields` awaiting a column list.
    Fields,
    /// Text that goes to the output as it is.
    Literal(Seq<char>),
}

/// One segment of a parsed template.
#[derive(Debug)]
pub enum Part {
    Arg,
    Fields,
    Text(String),
}

impl View for Part {
    type V = Segment;

    open spec fn view(&self) -> Segment {
        match self {
            Part::Arg => Segment::Arg,
            Part::Fields => Segment::Fields,
            Part::Text(t) => Segment::Literal(t@),
        }
    }
}

/// The segments that a sequence of parts stands for.
pub open spec fn segments_of(parts: Seq<Part>) -> Seq<Segment> {
    parts.map_values(|p: Part| p@)
}

/// The keyword that follows `?` in a column-list placeholder.
pub open spec fn fields_keyword() -> Seq<char> {
    seq!['f', 'i', 'e', 'l', 'd', 's']
}

/// Whether `rest`, which starts with `?`, continues with the keyword `fields`.
pub open spec fn names_fields(rest: Seq<char>) -> bool {
    rest.len() >= 7 && rest.subrange(1, 7) == fields_keyword()
}

/// The pending literal text `cur`, if any, added as a segment after `parts`.
pub open spec fn close_literal(parts: Seq<Segment>, cur: Seq<char>) -> Seq<Segment> {
    if cur.len() == 0 {
        parts
    } else {
        parts.push(Segment::Literal(cur))
    }
}

/// Left-to-right scan of `rest`, where `parts` are the segments found so far
/// and `cur` the literal text read since the last placeholder.
pub open spec fn scan(rest: Seq<char>, parts: Seq<Segment>, cur: Seq<char>) -> Seq<Segment>
    decreases rest.len(),
{
    if rest.len() == 0 {
        close_literal(parts, cur)
    } else if rest[0] != '?' {
        scan(rest.drop_first(), parts, cur.push(rest[0]))
    } else if rest.len() >= 2 && rest[1] == '?' {
        scan(rest.skip(2), parts.push(Segment::Literal(cur.push('?'))), Seq::empty())
    } else if names_fields(rest) {
        scan(rest.skip(7), close_literal(parts, cur).push(Segment::Fields), Seq::empty())
    } else {
        scan(rest.skip(1), close_literal(parts, cur).push(Segment::Arg), Seq::empty())
    }
}

/// The segments of a template.
pub open spec fn parse(template: Seq<char>) -> Seq<Segment> {
    scan(template, Seq::empty(), Seq::empty())
}

/// Whether the `?` at position `i` of `s` is followed by `fields`.
fn fields_follow(s: &Vec<char>, i: usize) -> (r: bool)
    requires
        i < s@.len(),
    ensures
        r == names_fields(s@.skip(i as int)),
{
    let n = s.len();
    if n - i < 7 {
        return false;
    }
    let keyword = ['f', 'i', 'e', 'l', 'd', 's'];
    assert(keyword@ =~= fields_keyword());
    let mut j: usize = 0;
    while j < 6
        invariant
            i + 7 <= n,
            n == s@.len(),
            j <= 6,
            keyword@ == fields_keyword(),
            forall|k: int| 0 <= k < j ==> s@[i + 1 + k] == fields_keyword()[k],
        decreases 6 - j,
    {
        if s[i + 1 + j] != keyword[j] {
            assert(s@.skip(i as int).subrange(1, 7)[j as int] != fields_keyword()[j as int]);
            return false;
        }
        j = j + 1;
    }
    assert(s@.skip(i as int).subrange(1, 7) =~= fields_keyword());
    true
}

/// Adds the pending literal text, if any, to `parts` and empties it.
fn flush(parts: &mut Vec<Part>, cur: &mut String, cur_empty: bool)
    requires
        cur_empty == (old(cur)@.len() == 0),
    ensures
        segments_of(final(parts)@) == close_literal(segments_of(old(parts)@), old(cur)@),
        final(cur)@.len() == 0,
{
    if !cur_empty {
        let text = cur.clone();
        *cur = String::new();
        parts.push(Part::Text(text));
        assert(segments_of(parts@) =~= segments_of(old(parts)@).push(Segment::Literal(old(cur)@)));
    } else {
        assert(cur@ =~= Seq::<char>::empty());
    }
}

/// Splits a template into its segments.
pub fn parse_template(template: &str) -> (r: Vec<Part>)
    ensures
        segments_of(r@) == parse(template@),
{
    let s = chars_of(template);
    let n = s.len();
    let mut parts: Vec<Part> = Vec::new();
    let mut cur = String::new();
    let mut cur_empty = true;
    let mut i: usize = 0;
    assert(s@.skip(0) =~= s@);
    assert(segments_of(parts@) =~= Seq::<Segment>::empty());
    while i < n
        invariant
            s@ == template@,
            n == s@.len(),
            i <= n,
            cur_empty == (cur@.len() == 0),
            scan(s@.skip(i as int), segments_of(parts@), cur@) == parse(s@),
        decreases n - i,
    {
        let ghost rest = s@.skip(i as int);
        let c = s[i];
        if c != '?' {
            assert(rest.drop_first() =~= s@.skip(i + 1));
            push_char(&mut cur, c);
            cur_empty = false;
            i = i + 1;
        } else if i + 1 < n && s[i + 1] == '?' {
            assert(rest.skip(2) =~= s@.skip(i + 2));
            push_char(&mut cur, c);
            flush(&mut parts, &mut cur, false);
            assert(cur@ =~= Seq::<char>::empty());
            cur_empty = true;
            i = i + 2;
        } else if fields_follow(&s, i) {
            assert(rest.skip(7) =~= s@.skip(i + 7));
            flush(&mut parts, &mut cur, cur_empty);
            let ghost before = segments_of(parts@);
            parts.push(Part::Fields);
            assert(segments_of(parts@) =~= before.push(Segment::Fields));
            assert(cur@ =~= Seq::<char>::empty());
            cur_empty = true;
            i = i + 7;
        } else {
            assert(rest.skip(1) =~= s@.skip(i + 1));
            flush(&mut parts, &mut cur, cur_empty);
            let ghost before = segments_of(parts@);
            parts.push(Part::Arg);
            assert(segments_of(parts@) =~= before.push(Segment::Arg));
            assert(cur@ =~= Seq::<char>::empty());
            cur_empty = true;
            i = i + 1;
        }
    }
    assert(s@.skip(n as int) =~= Seq::<char>::empty());
    flush(&mut parts, &mut cur, cur_empty);
    parts
}

} // verus!
