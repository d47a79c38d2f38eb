//! Rendering of values as SQL literals.
use vstd::prelude::*;
use vstd::string::*;

use crate::escape::{identifier, push_char, quoted, string};

verus! {

/// A value that can be bound to a `?` placeholder.
pub trait Bind {
    /// The SQL literal text of the value.
    spec fn sql_literal(&self) -> Seq<char>;

    /// Appends the SQL literal text of the value to `dst`.
    fn write(&self, dst: &mut String)
        ensures
            final(dst)@ == old(dst)@ + self.sql_literal(),
    ;
}

/// An identifier (a table or column name), rendered in backticks.
pub struct Identifier<'a>(pub &'a str);

pub open spec fn digit_char(d: nat) -> char {
    seq!['0', '1', '2', '3', '4', '5', '6', '7', '8', '9'][d as int]
}

/// The decimal digits of a natural number, most significant first.
pub open spec fn decimal(n: nat) -> Seq<char>
    decreases n,
{
    if n < 10 {
        seq![digit_char(n)]
    } else {
        decimal(n / 10).push(digit_char(n % 10))
    }
}

/// The decimal form of an integer, with a leading `-` when it is negative.
pub open spec fn signed_decimal(i: int) -> Seq<char> {
    if i < 0 {
        seq!['-'] + decimal((-i) as nat)
    } else {
        decimal(i as nat)
    }
}

/// The text `NULL`.
pub open spec fn null_literal() -> Seq<char> {
    seq!['N', 'U', 'L', 'L']
}

/// The elements' literals joined by commas.
pub open spec fn list_body<T: Bind>(s: Seq<T>) -> Seq<char>
    decreases s.len(),
{
    if s.len() == 0 {
        Seq::empty()
    } else if s.len() == 1 {
        s[0].sql_literal()
    } else {
        list_body(s.drop_last()) + seq![','] + s.last().sql_literal()
    }
}

/// A sequence literal: `[`, the elements' literals joined by commas, `]`.
pub open spec fn list_literal<T: Bind>(s: Seq<T>) -> Seq<char> {
    seq!['['] + list_body(s) + seq![']']
}

fn write_decimal(n: u128, dst: &mut String)
    ensures
        final(dst)@ == old(dst)@ + decimal(n as nat),
    decreases n,
{
    if n >= 10 {
        write_decimal(n / 10, dst);
    }
    let digits = "0123456789";
    proof {
        reveal_strlit("0123456789");
        assert(digits@ =~= seq!['0', '1', '2', '3', '4', '5', '6', '7', '8', '9']);
    }
    let c = digits.get_char((n % 10) as usize);
    push_char(dst, c);
    assert(dst@ =~= old(dst)@ + decimal(n as nat));
}

fn write_signed(n: i128, dst: &mut String)
    ensures
        final(dst)@ == old(dst)@ + signed_decimal(n as int),
{
    if n < 0 {
        proof {
            reveal_strlit("-");
        }
        dst.append("-");
        let magnitude: u128 = (-(n + 1)) as u128 + 1;
        write_decimal(magnitude, dst);
        assert(dst@ =~= old(dst)@ + signed_decimal(n as int));
    } else {
        write_decimal(n as u128, dst);
    }
}

fn write_list<T: Bind>(items: &[T], dst: &mut String)
    ensures
        final(dst)@ == old(dst)@ + list_literal(items@),
{
    let ghost start = dst@;
    proof {
        reveal_strlit("[");
        reveal_strlit("]");
    }
    dst.append("[");
    let mut i: usize = 0;
    while i < items.len()
        invariant
            i <= items@.len(),
            dst@ == start + seq!['['] + list_body(items@.take(i as int)),
        decreases items@.len() - i,
    {
        let ghost before = dst@;
        if i > 0 {
            proof {
                reveal_strlit(",");
            }
            dst.append(",");
            assert(","@ =~= seq![',']);
        }
        let ghost mid = dst@;
        items[i].write(dst);
        proof {
            let s = items@.take(i + 1);
            assert(s.drop_last() =~= items@.take(i as int));
            assert(s.last() == items@[i as int]);
            if i == 0 {
                assert(list_body(s) == s[0].sql_literal());
            } else {
                assert(mid == before + seq![',']);
                assert(list_body(s) == list_body(s.drop_last()) + seq![','] + s.last().sql_literal());
            }
            assert(dst@ =~= start + seq!['['] + list_body(s));
        }
        i = i + 1;
    }
    dst.append("]");
    assert(items@.take(items@.len() as int) =~= items@);
    assert(dst@ =~= old(dst)@ + list_literal(items@));
}

impl Bind for u8 {
    open spec fn sql_literal(&self) -> Seq<char> {
        decimal(*self as nat)
    }

    fn write(&self, dst: &mut String) {
        write_decimal(*self as u128, dst);
    }
}

impl Bind for u16 {
    open spec fn sql_literal(&self) -> Seq<char> {
        decimal(*self as nat)
    }

    fn write(&self, dst: &mut String) {
        write_decimal(*self as u128, dst);
    }
}

impl Bind for u32 {
    open spec fn sql_literal(&self) -> Seq<char> {
        decimal(*self as nat)
    }

    fn write(&self, dst: &mut String) {
        write_decimal(*self as u128, dst);
    }
}

impl Bind for u64 {
    open spec fn sql_literal(&self) -> Seq<char> {
        decimal(*self as nat)
    }

    fn write(&self, dst: &mut String) {
        write_decimal(*self as u128, dst);
    }
}

impl Bind for u128 {
    open spec fn sql_literal(&self) -> Seq<char> {
        decimal(*self as nat)
    }

    fn write(&self, dst: &mut String) {
        write_decimal(*self, dst);
    }
}

impl Bind for usize {
    open spec fn sql_literal(&self) -> Seq<char> {
        decimal(*self as nat)
    }

    fn write(&self, dst: &mut String) {
        write_decimal(*self as u128, dst);
    }
}

impl Bind for i8 {
    open spec fn sql_literal(&self) -> Seq<char> {
        signed_decimal(*self as int)
    }

    fn write(&self, dst: &mut String) {
        write_signed(*self as i128, dst);
    }
}

impl Bind for i16 {
    open spec fn sql_literal(&self) -> Seq<char> {
        signed_decimal(*self as int)
    }

    fn write(&self, dst: &mut String) {
        write_signed(*self as i128, dst);
    }
}

impl Bind for i32 {
    open spec fn sql_literal(&self) -> Seq<char> {
        signed_decimal(*self as int)
    }

    fn write(&self, dst: &mut String) {
        write_signed(*self as i128, dst);
    }
}

impl Bind for i64 {
    open spec fn sql_literal(&self) -> Seq<char> {
        signed_decimal(*self as int)
    }

    fn write(&self, dst: &mut String) {
        write_signed(*self as i128, dst);
    }
}

impl Bind for i128 {
    open spec fn sql_literal(&self) -> Seq<char> {
        signed_decimal(*self as int)
    }

    fn write(&self, dst: &mut String) {
        write_signed(*self, dst);
    }
}

impl Bind for isize {
    open spec fn sql_literal(&self) -> Seq<char> {
        signed_decimal(*self as int)
    }

    fn write(&self, dst: &mut String) {
        write_signed(*self as i128, dst);
    }
}

impl<'a> Bind for &'a str {
    open spec fn sql_literal(&self) -> Seq<char> {
        quoted((*self)@, '\'')
    }

    fn write(&self, dst: &mut String) {
        string(*self, dst);
    }
}

impl Bind for String {
    open spec fn sql_literal(&self) -> Seq<char> {
        quoted(self@, '\'')
    }

    fn write(&self, dst: &mut String) {
        string(self.as_str(), dst);
    }
}

impl<'a> Bind for Identifier<'a> {
    open spec fn sql_literal(&self) -> Seq<char> {
        quoted(self.0@, '`')
    }

    fn write(&self, dst: &mut String) {
        identifier(self.0, dst);
    }
}

impl<T: Bind> Bind for Option<T> {
    open spec fn sql_literal(&self) -> Seq<char> {
        match self {
            Some(v) => v.sql_literal(),
            None => null_literal(),
        }
    }

    fn write(&self, dst: &mut String) {
        match self {
            Some(v) => v.write(dst),
            None => {
                proof {
                    reveal_strlit("NULL");
                }
                dst.append("NULL");
                assert(dst@ =~= old(dst)@ + null_literal());
            },
        }
    }
}

impl<'a, T: Bind> Bind for &'a [T] {
    open spec fn sql_literal(&self) -> Seq<char> {
        list_literal((*self)@)
    }

    fn write(&self, dst: &mut String) {
        write_list(*self, dst);
    }
}

impl<T: Bind> Bind for Vec<T> {
    open spec fn sql_literal(&self) -> Seq<char> {
        list_literal(self@)
    }

    fn write(&self, dst: &mut String) {
        write_list(self.as_slice(), dst);
    }
}

} // verus!
