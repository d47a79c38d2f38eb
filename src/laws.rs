//! Properties of templates, binding and rendering, proved over the models
//! that the operations' contracts use.
use vstd::prelude::*;

use crate::bind::{list_body, list_literal, null_literal, Bind};
use crate::builder::{
    all_bound_message, bind_arg_model, bind_fields_model, finished, first_arg, format_suffix,
    has_arg, has_fields, is_first_arg, lemma_render_prefix_err, new_model, non_struct_message,
    raw_model, render, set_format_model, sql_error, unbound_fields_message, unbound_message,
    BuilderModel,
};
use crate::template::{close_literal, fields_keyword, names_fields, parse, scan, Segment};

verus! {

/// The text holds no `?`.
pub open spec fn no_mark(s: Seq<char>) -> bool {
    forall|i: int| 0 <= i < s.len() ==> s[i] != '?'
}

/// The text starts with the keyword `fields`.
pub open spec fn starts_with_fields(s: Seq<char>) -> bool {
    s.len() >= 6 && s.take(6) == fields_keyword()
}

/// The number of `?` slots.
pub open spec fn count_args(segs: Seq<Segment>) -> nat
    decreases segs.len(),
{
    if segs.len() == 0 {
        0
    } else {
        count_args(segs.drop_last()) + if segs.last() is Arg {
            1nat
        } else {
            0nat
        }
    }
}

/// The state after binding values with the literal texts `lits`, in order.
pub open spec fn bind_all(m: BuilderModel, lits: Seq<Seq<char>>) -> BuilderModel
    decreases lits.len(),
{
    if lits.len() == 0 {
        m
    } else {
        bind_arg_model(bind_all(m, lits.drop_last()), lits.last())
    }
}

/// `k` is the position of the first unbound slot, of either kind.
pub open spec fn is_first_slot(segs: Seq<Segment>, k: int) -> bool {
    &&& 0 <= k < segs.len()
    &&& !(segs[k] is Literal)
    &&& forall|j: int| 0 <= j < k ==> segs[j] is Literal
}

proof fn lemma_scan_plain(rest: Seq<char>, parts: Seq<Segment>, cur: Seq<char>)
    requires
        no_mark(rest),
    ensures
        scan(rest, parts, cur) == close_literal(parts, cur + rest),
    decreases rest.len(),
{
    if rest.len() == 0 {
        assert(cur + rest =~= cur);
    } else {
        assert(rest[0] != '?');
        lemma_scan_plain(rest.drop_first(), parts, cur.push(rest[0]));
        assert(cur.push(rest[0]) + rest.drop_first() =~= cur + rest);
    }
}

proof fn lemma_scan_prefix(a: Seq<char>, rest: Seq<char>, parts: Seq<Segment>, cur: Seq<char>)
    requires
        no_mark(a),
    ensures
        scan(a + rest, parts, cur) == scan(rest, parts, cur + a),
    decreases a.len(),
{
    if a.len() == 0 {
        assert(a + rest =~= rest);
        assert(cur + a =~= cur);
    } else {
        let s = a + rest;
        assert(s[0] == a[0]);
        assert(s.drop_first() =~= a.drop_first() + rest);
        lemma_scan_prefix(a.drop_first(), rest, parts, cur.push(a[0]));
        assert(cur.push(a[0]) + a.drop_first() =~= cur + a);
    }
}

proof fn lemma_first_arg(segs: Seq<Segment>, i: int)
    requires
        is_first_arg(segs, i),
    ensures
        has_arg(segs),
        first_arg(segs) == i,
{
    let j = first_arg(segs);
    assert(is_first_arg(segs, j));
    if j < i {
        assert(!(segs[j] is Arg));
    } else if i < j {
        assert(!(segs[i] is Arg));
    }
}

proof fn lemma_render_literals(segs: Seq<Segment>)
    requires
        forall|j: int| 0 <= j < segs.len() ==> segs[j] is Literal,
    ensures
        render(segs) is Ok,
    decreases segs.len(),
{
    if segs.len() > 0 {
        lemma_render_literals(segs.drop_last());
    }
}

proof fn lemma_render_push(segs: Seq<Segment>, t: Seq<char>, x: Seq<char>)
    requires
        render(segs) == Ok::<Seq<char>, Seq<char>>(x),
    ensures
        render(segs.push(Segment::Literal(t))) == Ok::<Seq<char>, Seq<char>>(x + t),
{
    assert(segs.push(Segment::Literal(t)).drop_last() =~= segs);
}

proof fn lemma_render_close(segs: Seq<Segment>, t: Seq<char>, x: Seq<char>)
    requires
        render(segs) == Ok::<Seq<char>, Seq<char>>(x),
    ensures
        render(close_literal(segs, t)) == Ok::<Seq<char>, Seq<char>>(x + t),
{
    if t.len() == 0 {
        assert(x + t =~= x);
    } else {
        lemma_render_push(segs, t, x);
    }
}

proof fn lemma_count_update(segs: Seq<Segment>, i: int, t: Seq<char>)
    requires
        0 <= i < segs.len(),
        segs[i] is Arg,
    ensures
        count_args(segs.update(i, Segment::Literal(t))) + 1 == count_args(segs),
    decreases segs.len(),
{
    let u = segs.update(i, Segment::Literal(t));
    if i == segs.len() - 1 {
        assert(u.drop_last() =~= segs.drop_last());
    } else {
        assert(u.drop_last() =~= segs.drop_last().update(i, Segment::Literal(t)));
        lemma_count_update(segs.drop_last(), i, t);
    }
}

proof fn lemma_first_arg_exists(segs: Seq<Segment>)
    requires
        has_arg(segs),
    ensures
        is_first_arg(segs, first_arg(segs)),
    decreases segs.len(),
{
    let init = segs.drop_last();
    if has_arg(init) {
        lemma_first_arg_exists(init);
        let i = first_arg(init);
        assert forall|j: int| 0 <= j < i implies !(segs[j] is Arg) by {
            assert(segs[j] == init[j]);
        }
        assert(segs[i] == init[i]);
        lemma_first_arg(segs, i);
    } else {
        assert(segs.last() is Arg) by {
            let i = choose|i: int| 0 <= i < segs.len() && segs[i] is Arg;
            if i < segs.len() - 1 {
                assert(init[i] is Arg);
            }
        }
        assert forall|j: int| 0 <= j < segs.len() - 1 implies !(segs[j] is Arg) by {
            assert(segs[j] == init[j]);
        }
        lemma_first_arg(segs, segs.len() - 1);
    }
}

proof fn lemma_bind_all(segs: Seq<Segment>, format: Option<Seq<char>>, lits: Seq<Seq<char>>)
    ensures
        lits.len() <= count_args(segs) ==> {
            let m = bind_all(BuilderModel::InProgress(segs, format), lits);
            &&& m is InProgress
            &&& m->InProgress_1 == format
            &&& count_args(m->InProgress_0) + lits.len() == count_args(segs)
        },
        lits.len() > count_args(segs) ==> bind_all(BuilderModel::InProgress(segs, format), lits)
            == BuilderModel::Failed(sql_error(all_bound_message())),
    decreases lits.len(),
{
    if lits.len() > 0 {
        let prev = lits.drop_last();
        lemma_bind_all(segs, format, prev);
        let m = bind_all(BuilderModel::InProgress(segs, format), prev);
        if prev.len() <= count_args(segs) {
            let s = m->InProgress_0;
            if has_arg(s) {
                lemma_first_arg_exists(s);
                lemma_count_update(s, first_arg(s), lits.last());
            } else {
                lemma_count_zero(s);
            }
        }
    }
}

proof fn lemma_count_zero(segs: Seq<Segment>)
    requires
        !has_arg(segs),
    ensures
        count_args(segs) == 0,
    decreases segs.len(),
{
    if segs.len() > 0 {
        assert(!(segs.last() is Arg));
        assert forall|j: int| 0 <= j < segs.drop_last().len() implies !(
        segs.drop_last()[j] is Arg) by {
            assert(segs.drop_last()[j] == segs[j]);
        }
        lemma_count_zero(segs.drop_last());
    }
}

/// A template with exactly one `?` finishes, once a value is bound, as the
/// template with that `?` replaced by the value's literal text.
pub proof fn law_single_argument<T: Bind>(a: Seq<char>, b: Seq<char>, value: T)
    requires
        no_mark(a),
        no_mark(b),
        !starts_with_fields(b),
    ensures
        finished(bind_arg_model(new_model(a + seq!['?'] + b), value.sql_literal())) == Ok::<
            Seq<char>,
            Seq<char>,
        >(a + value.sql_literal() + b),
{
    let lit = value.sql_literal();
    let rest = seq!['?'] + b;
    assert(a + seq!['?'] + b =~= a + rest);
    lemma_scan_prefix(a, rest, Seq::empty(), Seq::empty());
    assert(Seq::<char>::empty() + a =~= a);
    assert(!names_fields(rest)) by {
        if names_fields(rest) {
            assert(b.take(6) =~= rest.subrange(1, 7));
        }
    }
    if rest.len() >= 2 {
        assert(rest[1] == b[0]);
    }
    assert(rest.skip(1) =~= b);
    let head = close_literal(Seq::empty(), a).push(Segment::Arg);
    lemma_scan_plain(b, head, Seq::empty());
    assert(Seq::<char>::empty() + b =~= b);
    let segs = close_literal(head, b);
    assert(parse(a + seq!['?'] + b) == segs);
    let i = head.len() - 1;
    assert(is_first_arg(segs, i));
    lemma_first_arg(segs, i);
    let bound = segs.update(i, Segment::Literal(lit));
    let lead = close_literal(Seq::empty(), a).push(Segment::Literal(lit));
    assert(bound == close_literal(lead, b)) by {
        assert(bound =~= close_literal(lead, b));
    }
    let e = Seq::<char>::empty();
    lemma_render_close(Seq::empty(), a, e);
    assert(e + a =~= a);
    lemma_render_push(close_literal(Seq::empty(), a), lit, a);
    lemma_render_close(lead, b, a + lit);
    assert(format_suffix(None) =~= Seq::<char>::empty());
    assert(a + lit + b + format_suffix(None) =~= a + lit + b);
}

/// At any point of a template, `??` ends the text being read with one
/// literal `?`, as a segment of its own, and adds no slot.
pub proof fn law_doubled_mark_scan(rest: Seq<char>, parts: Seq<Segment>, cur: Seq<char>)
    ensures
        scan(seq!['?', '?'] + rest, parts, cur) == scan(
            rest,
            parts.push(Segment::Literal(cur.push('?'))),
            Seq::empty(),
        ),
{
    let s = seq!['?', '?'] + rest;
    assert(s.skip(2) =~= rest);
}

/// A template whose only `?` is one `??` parses as the text up to and
/// including one `?`, then the rest, if any, as a second literal; it
/// finishes, with no binding, as the template with `??` read as `?`, and has
/// no slot to bind.
pub proof fn law_doubled_mark(a: Seq<char>, b: Seq<char>)
    requires
        no_mark(a),
        no_mark(b),
    ensures
        parse(a + seq!['?', '?'] + b) == close_literal(
            seq![Segment::Literal(a + seq!['?'])],
            b,
        ),
        finished(new_model(a + seq!['?', '?'] + b)) == Ok::<Seq<char>, Seq<char>>(a + seq!['?'] + b),
        !has_arg(parse(a + seq!['?', '?'] + b)),
        !has_fields(parse(a + seq!['?', '?'] + b)),
{
    let rest = seq!['?', '?'] + b;
    assert(a + seq!['?', '?'] + b =~= a + rest);
    lemma_scan_prefix(a, rest, Seq::empty(), Seq::empty());
    let e = Seq::<char>::empty();
    let head = (e + a).push('?');
    assert(head =~= a + seq!['?']);
    law_doubled_mark_scan(b, Seq::empty(), e + a);
    let first = Seq::<Segment>::empty().push(Segment::Literal(head));
    lemma_scan_plain(b, first, e);
    assert(e + b =~= b);
    let segs = parse(a + seq!['?', '?'] + b);
    assert(segs == close_literal(first, b));
    lemma_render_close(Seq::empty(), head, e);
    assert(close_literal(Seq::<Segment>::empty(), head) == first);
    assert(first =~= seq![Segment::Literal(a + seq!['?'])]);
    assert(e + head =~= head);
    lemma_render_close(first, b, head);
    assert(forall|j: int| 0 <= j < segs.len() ==> segs[j] is Literal);
    assert(head + b + format_suffix(None) =~= a + seq!['?'] + b);
}

/// Once every `?` is bound, binding one more value fails, and the failure
/// is what finishing reports.
pub proof fn law_too_many_arguments(
    segs: Seq<Segment>,
    format: Option<Seq<char>>,
    lits: Seq<Seq<char>>,
)
    requires
        lits.len() > count_args(segs),
    ensures
        bind_all(BuilderModel::InProgress(segs, format), lits) == BuilderModel::Failed(
            sql_error(all_bound_message()),
        ),
        finished(bind_all(BuilderModel::InProgress(segs, format), lits)) == Err::<
            Seq<char>,
            Seq<char>,
        >(sql_error(all_bound_message())),
{
    lemma_bind_all(segs, format, lits);
}

/// Finishing with an unbound slot fails; the first unbound slot decides the
/// message.
pub proof fn law_unbound_slot(segs: Seq<Segment>, format: Option<Seq<char>>, k: int)
    requires
        is_first_slot(segs, k),
    ensures
        finished(BuilderModel::InProgress(segs, format)) == Err::<Seq<char>, Seq<char>>(
            sql_error(
                if segs[k] is Arg {
                    unbound_message()
                } else {
                    unbound_fields_message()
                },
            ),
        ),
{
    let pre = segs.take(k);
    assert forall|j: int| 0 <= j < pre.len() implies pre[j] is Literal by {
        assert(pre[j] == segs[j]);
    }
    lemma_render_literals(pre);
    assert(segs.take(k + 1).drop_last() =~= pre);
    lemma_render_prefix_err(
        segs,
        k + 1,
        sql_error(
            if segs[k] is Arg {
                unbound_message()
            } else {
                unbound_fields_message()
            },
        ),
    );
}

proof fn lemma_first_slot_exists(segs: Seq<Segment>, i: int)
    requires
        0 <= i < segs.len(),
        !(segs[i] is Literal),
    ensures
        exists|k: int| is_first_slot(segs, k),
    decreases i,
{
    if forall|j: int| 0 <= j < i ==> segs[j] is Literal {
        assert(is_first_slot(segs, i));
    } else {
        let j = choose|j: int| 0 <= j < i && !(segs[j] is Literal);
        lemma_first_slot_exists(segs, j);
    }
}

/// Finishing while any `?` or `?fields` is unbound fails with the message
/// for an unbound argument or for unbound fields.
pub proof fn law_any_unbound_slot(segs: Seq<Segment>, format: Option<Seq<char>>)
    requires
        has_arg(segs) || has_fields(segs),
    ensures
        finished(BuilderModel::InProgress(segs, format)) == Err::<Seq<char>, Seq<char>>(
            sql_error(unbound_message()),
        ) || finished(BuilderModel::InProgress(segs, format)) == Err::<Seq<char>, Seq<char>>(
            sql_error(unbound_fields_message()),
        ),
{
    let i = if has_arg(segs) {
        choose|i: int| 0 <= i < segs.len() && segs[i] is Arg
    } else {
        choose|i: int| 0 <= i < segs.len() && segs[i] is Fields
    };
    lemma_first_slot_exists(segs, i);
    let k = choose|k: int| is_first_slot(segs, k);
    law_unbound_slot(segs, format, k);
}

/// Binding the columns of a row type without named fields fails where the
/// query has a `?fields`, and changes nothing where it has none.
pub proof fn law_fields_without_names(segs: Seq<Segment>, format: Option<Seq<char>>)
    ensures
        has_fields(segs) ==> bind_fields_model(BuilderModel::InProgress(segs, format), None)
            == BuilderModel::Failed(sql_error(non_struct_message())),
        has_fields(segs) ==> finished(
            bind_fields_model(BuilderModel::InProgress(segs, format), None),
        ) == Err::<Seq<char>, Seq<char>>(sql_error(non_struct_message())),
        !has_fields(segs) ==> bind_fields_model(BuilderModel::InProgress(segs, format), None)
            == BuilderModel::InProgress(segs, format),
{
}

/// An empty sequence is written `[]`.
pub proof fn law_empty_sequence<T: Bind>(items: Seq<T>)
    requires
        items.len() == 0,
    ensures
        list_literal(items) == seq!['[', ']'],
{
    assert(list_literal(items) =~= seq!['[', ']']);
}

/// A sequence of three values is written as their literals between brackets,
/// separated by commas.
pub proof fn law_three_elements<T: Bind>(x: T, y: T, z: T)
    ensures
        list_literal(seq![x, y, z]) == seq!['['] + x.sql_literal() + seq![','] + y.sql_literal()
            + seq![','] + z.sql_literal() + seq![']'],
{
    let s = seq![x, y, z];
    assert(s.drop_last() =~= seq![x, y]);
    assert(seq![x, y].drop_last() =~= seq![x]);
    assert(list_body(seq![x]) == x.sql_literal());
    assert(list_body(seq![x, y]) == x.sql_literal() + seq![','] + y.sql_literal());
    assert(list_body(s) == x.sql_literal() + seq![','] + y.sql_literal() + seq![','] + z.sql_literal());
    assert(list_literal(s) =~= seq!['['] + x.sql_literal() + seq![','] + y.sql_literal()
        + seq![','] + z.sql_literal() + seq![']']);
}

/// An absent value is written `NULL`, a present one as the value itself.
pub proof fn law_optional<T: Bind>(o: Option<T>)
    ensures
        o.sql_literal() == match o {
            Some(v) => v.sql_literal(),
            None => null_literal(),
        },
{
}

/// A query made from text used as it is finishes as that text, followed by
/// the output format if one is set.
pub proof fn law_raw_round_trip(query: Seq<char>, format: Seq<char>)
    ensures
        finished(raw_model(query)) == Ok::<Seq<char>, Seq<char>>(query),
        finished(set_format_model(raw_model(query), format)) == Ok::<Seq<char>, Seq<char>>(
            query + " FORMAT "@ + format,
        ),
{
    let segs = seq![Segment::Literal(query)];
    assert(segs =~= Seq::<Segment>::empty().push(Segment::Literal(query)));
    lemma_render_push(Seq::empty(), query, Seq::empty());
    assert(Seq::<char>::empty() + query =~= query);
    assert(query + format_suffix(None) =~= query);
    assert(query + format_suffix(Some(format)) =~= query + " FORMAT "@ + format);
}

} // verus!
