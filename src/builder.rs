//! The query builder: a parsed template whose placeholders are bound one
//! by one, with a sticky failure state, rendered once at the end.
use vstd::prelude::*;
use vstd::string::*;

use crate::bind::Bind;
use crate::template::{parse, parse_template, segments_of, Part, Segment};

verus! {

/// The error of a query that could not be built.
#[derive(Debug)]
pub enum Error {
    InvalidParams(String),
}

impl Error {
    /// The text of the error.
    pub open spec fn message(&self) -> Seq<char> {
        match self {
            Error::InvalidParams(m) => m@,
        }
    }

    /// The text of the error.
    pub fn to_string(&self) -> (r: String)
        ensures
            r@ == self.message(),
    {
        match self {
            Error::InvalidParams(m) => m.clone(),
        }
    }
}

/// The state of a builder, as segments of text and slots.
pub enum BuilderModel {
    InProgress(Seq<Segment>, Option<Seq<char>>),
    Failed(Seq<char>),
}

/// A query under construction.
#[derive(Debug)]
pub enum SqlBuilder {
    /// The template's segments, and the output format if one was set.
    InProgress(Vec<Part>, Option<String>),
    /// The message of the first failure.
    Failed(String),
}

impl View for SqlBuilder {
    type V = BuilderModel;

    open spec fn view(&self) -> BuilderModel {
        match self {
            SqlBuilder::InProgress(parts, format) => BuilderModel::InProgress(
                segments_of(parts@),
                match format {
                    Some(f) => Some(f@),
                    None => None,
                },
            ),
            SqlBuilder::Failed(m) => BuilderModel::Failed(m@),
        }
    }
}

/// The message of a failure, with its prefix.
pub open spec fn sql_error(m: Seq<char>) -> Seq<char> {
    "invalid SQL: "@ + m
}

pub open spec fn all_bound_message() -> Seq<char> {
    "unexpected bind, all arguments are already bound"@
}

pub open spec fn non_struct_message() -> Seq<char> {
    "argument ?fields cannot be used with non-struct row types"@
}

pub open spec fn unbound_message() -> Seq<char> {
    "unbound query argument"@
}

pub open spec fn unbound_fields_message() -> Seq<char> {
    "unbound query argument ?fields"@
}

pub open spec fn has_arg(segs: Seq<Segment>) -> bool {
    exists|i: int| 0 <= i < segs.len() && segs[i] is Arg
}

pub open spec fn has_fields(segs: Seq<Segment>) -> bool {
    exists|i: int| 0 <= i < segs.len() && segs[i] is Fields
}

/// `i` is the position of the first `?` slot.
pub open spec fn is_first_arg(segs: Seq<Segment>, i: int) -> bool {
    &&& 0 <= i < segs.len()
    &&& segs[i] is Arg
    &&& forall|j: int| 0 <= j < i ==> !(segs[j] is Arg)
}

pub open spec fn first_arg(segs: Seq<Segment>) -> int {
    choose|i: int| is_first_arg(segs, i)
}

/// Every `?fields` slot replaced by the column list.
pub open spec fn fill_fields(segs: Seq<Segment>, columns: Seq<char>) -> Seq<Segment> {
    segs.map_values(
        |s: Segment|
            if s is Fields {
                Segment::Literal(columns)
            } else {
                s
            },
    )
}

/// The state after a new builder is made from a template.
pub open spec fn new_model(template: Seq<char>) -> BuilderModel {
    BuilderModel::InProgress(parse(template), None)
}

/// The state after a builder is made from text that is used as it is.
pub open spec fn raw_model(query: Seq<char>) -> BuilderModel {
    BuilderModel::InProgress(seq![Segment::Literal(query)], None)
}

pub open spec fn set_format_model(m: BuilderModel, format: Seq<char>) -> BuilderModel {
    match m {
        BuilderModel::InProgress(segs, _) => BuilderModel::InProgress(segs, Some(format)),
        BuilderModel::Failed(_) => m,
    }
}

/// The state after binding a value whose literal text is `lit`.
pub open spec fn bind_arg_model(m: BuilderModel, lit: Seq<char>) -> BuilderModel {
    match m {
        BuilderModel::InProgress(segs, format) => if has_arg(segs) {
            BuilderModel::InProgress(segs.update(first_arg(segs), Segment::Literal(lit)), format)
        } else {
            BuilderModel::Failed(sql_error(all_bound_message()))
        },
        BuilderModel::Failed(_) => m,
    }
}

/// The state after binding the column list of a row type; `None` for a row
/// type without named fields.
pub open spec fn bind_fields_model(m: BuilderModel, columns: Option<Seq<char>>) -> BuilderModel {
    match m {
        BuilderModel::InProgress(segs, format) => match columns {
            Some(c) => BuilderModel::InProgress(fill_fields(segs, c), format),
            None => if has_fields(segs) {
                BuilderModel::Failed(sql_error(non_struct_message()))
            } else {
                m
            },
        },
        BuilderModel::Failed(_) => m,
    }
}

/// The text of the segments, or the error of the first unbound slot.
pub open spec fn render(segs: Seq<Segment>) -> Result<Seq<char>, Seq<char>>
    decreases segs.len(),
{
    if segs.len() == 0 {
        Ok(Seq::empty())
    } else {
        match render(segs.drop_last()) {
            Err(e) => Err(e),
            Ok(text) => match segs.last() {
                Segment::Literal(t) => Ok(text + t),
                Segment::Arg => Err(sql_error(unbound_message())),
                Segment::Fields => Err(sql_error(unbound_fields_message())),
            },
        }
    }
}

/// What is appended for an output format.
pub open spec fn format_suffix(format: Option<Seq<char>>) -> Seq<char> {
    match format {
        Some(f) => " FORMAT "@ + f,
        None => Seq::empty(),
    }
}

/// The result of finishing a builder: the query text, or an error message.
pub open spec fn finished(m: BuilderModel) -> Result<Seq<char>, Seq<char>> {
    match m {
        BuilderModel::InProgress(segs, format) => match render(segs) {
            Ok(text) => Ok(text + format_suffix(format)),
            Err(e) => Err(e),
        },
        BuilderModel::Failed(e) => Err(e),
    }
}

pub open spec fn outcome(r: Result<String, Error>) -> Result<Seq<char>, Seq<char>> {
    match r {
        Ok(s) => Ok(s@),
        Err(e) => Err(e.message()),
    }
}

/// A segment as it is shown before binding.
pub open spec fn shown_segment(s: Segment) -> Seq<char> {
    match s {
        Segment::Arg => "?"@,
        Segment::Fields => "?fields"@,
        Segment::Literal(t) => t,
    }
}

pub open spec fn shown_segments(segs: Seq<Segment>) -> Seq<char>
    decreases segs.len(),
{
    if segs.len() == 0 {
        Seq::empty()
    } else {
        shown_segments(segs.drop_last()) + shown_segment(segs.last())
    }
}

/// The query as it stands, with unbound slots shown as placeholders, or the
/// failure message.
pub open spec fn shown(m: BuilderModel) -> Seq<char> {
    match m {
        BuilderModel::InProgress(segs, format) => shown_segments(segs) + format_suffix(format),
        BuilderModel::Failed(e) => e,
    }
}

/// An error in the text of the first `k` segments is the error of all of them.
pub proof fn lemma_render_prefix_err(segs: Seq<Segment>, k: int, e: Seq<char>)
    requires
        0 <= k <= segs.len(),
        render(segs.take(k)) == Err::<Seq<char>, Seq<char>>(e),
    ensures
        render(segs) == Err::<Seq<char>, Seq<char>>(e),
    decreases segs.len() - k,
{
    if k < segs.len() {
        assert(segs.take(k + 1).drop_last() =~= segs.take(k));
        lemma_render_prefix_err(segs, k + 1, e);
    } else {
        assert(segs.take(k) =~= segs);
    }
}

fn error_text(err: &str) -> (r: String)
    ensures
        r@ == sql_error(err@),
{
    let mut m = String::from_str("invalid SQL: ");
    m.append(err);
    m
}

fn first_arg_index(parts: &Vec<Part>) -> (r: Option<usize>)
    ensures
        match r {
            Some(i) => is_first_arg(segments_of(parts@), i as int),
            None => !has_arg(segments_of(parts@)),
        },
{
    let ghost segs = segments_of(parts@);
    let mut i: usize = 0;
    while i < parts.len()
        invariant
            i <= parts@.len(),
            segs == segments_of(parts@),
            forall|j: int| 0 <= j < i ==> !(segs[j] is Arg),
        decreases parts@.len() - i,
    {
        if let Part::Arg = &parts[i] {
            return Some(i);
        }
        i = i + 1;
    }
    None
}

fn any_fields(parts: &Vec<Part>) -> (r: bool)
    ensures
        r == has_fields(segments_of(parts@)),
{
    let ghost segs = segments_of(parts@);
    let mut i: usize = 0;
    while i < parts.len()
        invariant
            i <= parts@.len(),
            segs == segments_of(parts@),
            forall|j: int| 0 <= j < i ==> !(segs[j] is Fields),
        decreases parts@.len() - i,
    {
        if let Part::Fields = &parts[i] {
            assert(segs[i as int] is Fields);
            return true;
        }
        i = i + 1;
    }
    false
}

/// Renders the segments of a builder, or reports its failure.
fn finish_builder(builder: SqlBuilder) -> (r: Result<String, Error>)
    ensures
        outcome(r) == finished(builder@),
{
    let (parts, format) = match builder {
        SqlBuilder::Failed(m) => {
            return Err(Error::InvalidParams(m));
        },
        SqlBuilder::InProgress(parts, format) => (parts, format),
    };
    let ghost segs = segments_of(parts@);
    let ghost model = builder@;
    let mut sql = String::new();
    let mut i: usize = 0;
    assert(segs.take(0) =~= Seq::<Segment>::empty());
    while i < parts.len()
        invariant
            i <= parts@.len(),
            segs == segments_of(parts@),
            model == builder@,
            model == BuilderModel::InProgress(segs, model->InProgress_1),
            model->InProgress_1 == match format {
                Some(f) => Some(f@),
                None => None,
            },
            render(segs.take(i as int)) == Ok::<Seq<char>, Seq<char>>(sql@),
        decreases parts@.len() - i,
    {
        assert(segs.take(i + 1).drop_last() =~= segs.take(i as int));
        match &parts[i] {
            Part::Text(t) => {
                sql.append(t.as_str());
            },
            Part::Arg => {
                let e = error_text("unbound query argument");
                proof {
                    lemma_render_prefix_err(segs, i + 1, e@);
                }
                return Err(Error::InvalidParams(e));
            },
            Part::Fields => {
                let e = error_text("unbound query argument ?fields");
                proof {
                    lemma_render_prefix_err(segs, i + 1, e@);
                }
                return Err(Error::InvalidParams(e));
            },
        }
        i = i + 1;
    }
    assert(segs.take(i as int) =~= segs);
    let ghost text = sql@;
    if let Some(f) = format {
        sql.append(" FORMAT ");
        sql.append(f.as_str());
        assert(sql@ =~= text + format_suffix(model->InProgress_1));
    } else {
        assert(sql@ =~= text + format_suffix(model->InProgress_1));
    }
    Ok(sql)
}

impl SqlBuilder {
    /// A builder for the query that `template` describes.
    pub fn new(template: &str) -> (r: Self)
        ensures
            r@ == new_model(template@),
    {
        SqlBuilder::InProgress(parse_template(template), None)
    }

    /// A builder for a query that is used as it is, with no placeholders.
    pub fn raw(query: &str) -> (r: Self)
        ensures
            r@ == raw_model(query@),
    {
        let parts = vec![Part::Text(String::from_str(query))];
        assert(segments_of(parts@) =~= seq![Segment::Literal(query@)]);
        SqlBuilder::InProgress(parts, None)
    }

    /// Sets the output format that is appended to the query; does nothing
    /// after a failure.
    pub fn set_output_format(&mut self, format: String)
        ensures
            final(self)@ == set_format_model(old(self)@, format@),
    {
        if let SqlBuilder::InProgress(_, format_opt) = self {
            *format_opt = Some(format);
        }
    }

    /// Replaces the first unbound `?` with the literal text of `value`; fails
    /// when no `?` is left, and does nothing after a failure.
    pub fn bind_arg<T: Bind>(&mut self, value: T)
        ensures
            final(self)@ == bind_arg_model(old(self)@, value.sql_literal()),
    {
        let found = match self {
            SqlBuilder::InProgress(parts, _) => first_arg_index(parts),
            SqlBuilder::Failed(_) => return,
        };
        match found {
            Some(i) => {
                let mut text = String::new();
                value.write(&mut text);
                if let SqlBuilder::InProgress(parts, _) = self {
                    let ghost segs = segments_of(parts@);
                    parts.set(i, Part::Text(text));
                    assert(segments_of(parts@) =~= segs.update(i as int, Segment::Literal(value.sql_literal())));
                }
            },
            None => {
                self.error("unexpected bind, all arguments are already bound");
            },
        }
    }

    /// Replaces every `?fields` with `columns`, the comma-joined quoted column
    /// names of a row type, or `None` for a row type without named fields,
    /// which fails if the query has a `?fields`. Does nothing after a failure.
    pub fn bind_fields(&mut self, columns: Option<&str>)
        ensures
            final(self)@ == bind_fields_model(
                old(self)@,
                match columns {
                    Some(c) => Some(c@),
                    None => None,
                },
            ),
    {
        let fails = match self {
            SqlBuilder::InProgress(parts, _) => match columns {
                Some(c) => {
                    let ghost segs = segments_of(parts@);
                    let mut i: usize = 0;
                    while i < parts.len()
                        invariant
                            i <= parts@.len(),
                            segs.len() == parts@.len(),
                            forall|j: int| 0 <= j < i ==> segments_of(parts@)[j] == fill_fields(segs, c@)[j],
                            forall|j: int| i <= j < parts@.len() ==> segments_of(parts@)[j] == segs[j],
                        decreases parts@.len() - i,
                    {
                        if let Part::Fields = &parts[i] {
                            parts.set(i, Part::Text(String::from_str(c)));
                        }
                        i = i + 1;
                    }
                    assert(segments_of(parts@) =~= fill_fields(segs, c@));
                    false
                },
                None => any_fields(parts),
            },
            SqlBuilder::Failed(_) => false,
        };
        if fails {
            self.error("argument ?fields cannot be used with non-struct row types");
        }
    }

    /// The finished query, with the output format appended if one was set;
    /// an error after a failure or while a slot is unbound.
    pub fn finish(self) -> (r: Result<String, Error>)
        ensures
            outcome(r) == finished(self@),
    {
        finish_builder(self)
    }

    /// The query as it stands, with unbound slots shown as `?` and
    /// `?fields`, or the failure message.
    pub fn to_string(&self) -> (r: String)
        ensures
            r@ == shown(self@),
    {
        match self {
            SqlBuilder::Failed(m) => m.clone(),
            SqlBuilder::InProgress(parts, format) => {
                let ghost segs = segments_of(parts@);
                let mut out = String::new();
                let mut i: usize = 0;
                assert(segs.take(0) =~= Seq::<Segment>::empty());
                while i < parts.len()
                    invariant
                        i <= parts@.len(),
                        segs == segments_of(parts@),
                        shown_segments(segs.take(i as int)) == out@,
                    decreases parts@.len() - i,
                {
                    assert(segs.take(i + 1).drop_last() =~= segs.take(i as int));
                    match &parts[i] {
                        Part::Text(t) => out.append(t.as_str()),
                        Part::Arg => out.append("?"),
                        Part::Fields => out.append("?fields"),
                    }
                    i = i + 1;
                }
                assert(segs.take(i as int) =~= segs);
                let ghost text = out@;
                if let Some(f) = format {
                    out.append(" FORMAT ");
                    out.append(f.as_str());
                }
                assert(out@ =~= shown(self@));
                out
            },
        }
    }

    /// Enters the failed state with `err` as the message.
    pub fn error(&mut self, err: &str)
        ensures
            final(self)@ == BuilderModel::Failed(sql_error(err@)),
    {
        *self = SqlBuilder::Failed(error_text(err));
    }
}

} // verus!
