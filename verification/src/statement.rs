//! Names of server-side prepared statements.

use crate::error::Error;
use vstd::prelude::*;

verus! {

/// A reference to a prepared statement on one connection.
#[derive(Clone, Copy, Debug, PartialEq, Eq, Structural)]
pub enum StatementRef {
    /// The unnamed statement, which every parse overwrites.
    Unnamed,
    /// A named statement, identified by the connection's statement counter.
    Named(u32),
}

/// The ASCII code of the digit `0`.
pub const ASCII_ZERO: u8 = 0x30;

/// The bytes of `_sqlx_s_`, with which every statement name starts.
pub open spec fn name_prefix() -> Seq<u8> {
    seq![0x5fu8, 0x73u8, 0x71u8, 0x6cu8, 0x78u8, 0x5fu8, 0x73u8, 0x5fu8]
}

/// The ASCII decimal digits of `n`, without leading zeros.
pub open spec fn decimal_digits(n: nat) -> Seq<u8>
    decreases n,
{
    if n < 10 {
        seq![(ASCII_ZERO + n) as u8]
    } else {
        decimal_digits(n / 10).push((ASCII_ZERO + n % 10) as u8)
    }
}

/// The number that a sequence of ASCII decimal digits denotes.
pub open spec fn decimal_value(s: Seq<u8>) -> nat
    decreases s.len(),
{
    if s.len() == 0 {
        0
    } else {
        decimal_value(s.drop_last()) * 10 + (s.last() - ASCII_ZERO) as nat
    }
}

/// Calls `itoa::write` on a vector, which appends the decimal digits of the
/// value to it; writing to a vector does not fail.
#[verifier::external_body]
fn write_decimal(buf: &mut Vec<u8>, value: u32)
    ensures
        final(buf)@ == old(buf)@ + decimal_digits(value as nat),
{
    itoa::write(&mut *buf, value).unwrap();
}

/// Every decimal digit lies between `0` and `9`, and there is at least one.
pub proof fn lemma_decimal_digits_are_digits(n: nat)
    ensures
        decimal_digits(n).len() >= 1,
        forall|i: int|
            0 <= i < decimal_digits(n).len() ==> ASCII_ZERO <= #[trigger] decimal_digits(n)[i]
                <= ASCII_ZERO + 9,
    decreases n,
{
    if n >= 10 {
        lemma_decimal_digits_are_digits(n / 10);
    }
}

/// The digits of a number denote that number.
pub proof fn lemma_decimal_value_of_digits(n: nat)
    ensures
        decimal_value(decimal_digits(n)) == n,
    decreases n,
{
    if n < 10 {
        let s = decimal_digits(n);
        assert(s.drop_last() =~= Seq::<u8>::empty());
        assert(decimal_value(s.drop_last()) == 0);
    } else {
        lemma_decimal_value_of_digits(n / 10);
        let s = decimal_digits(n);
        assert(s.drop_last() =~= decimal_digits(n / 10));
    }
}

/// Different numbers have different digits.
pub proof fn lemma_decimal_digits_injective(a: nat, b: nat)
    requires
        decimal_digits(a) == decimal_digits(b),
    ensures
        a == b,
{
    lemma_decimal_value_of_digits(a);
    lemma_decimal_value_of_digits(b);
}

/// Ten to the power of `digits`.
pub open spec fn power_of_ten(digits: nat) -> nat
    decreases digits,
{
    if digits == 0 {
        1
    } else {
        10 * power_of_ten((digits - 1) as nat)
    }
}

/// A number below ten to the power of `digits` has at most `digits` digits.
pub proof fn lemma_digits_len(n: nat, digits: nat)
    requires
        digits >= 1,
        n < power_of_ten(digits),
    ensures
        decimal_digits(n).len() <= digits,
    decreases digits,
{
    if n >= 10 {
        assert(power_of_ten(1) == 10) by {
            reveal_with_fuel(power_of_ten, 2);
        }
        if digits > 1 {
            lemma_digits_len(n / 10, (digits - 1) as nat);
        }
    }
}

impl StatementRef {
    /// The name as it travels in a message: nothing for the unnamed
    /// statement, the prefix and the decimal counter for a named one, and a
    /// terminating zero byte in both cases.
    pub open spec fn wire_name(&self) -> Seq<u8> {
        match self {
            StatementRef::Unnamed => seq![0u8],
            StatementRef::Named(id) => name_prefix() + decimal_digits(*id as nat) + seq![0u8],
        }
    }

    /// Two references travel under the same name only if they are the same
    /// reference: no two counter values share a name, and no named statement
    /// is mistaken for the unnamed one.
    pub proof fn lemma_wire_name_injective(a: StatementRef, b: StatementRef)
        requires
            a.wire_name() == b.wire_name(),
        ensures
            a == b,
    {
        match (a, b) {
            (StatementRef::Named(x), StatementRef::Named(y)) => {
                let dx = decimal_digits(x as nat);
                let dy = decimal_digits(y as nat);
                assert(a.wire_name().len() == 8 + dx.len() + 1);
                assert(b.wire_name().len() == 8 + dy.len() + 1);
                assert forall|i: int| 0 <= i < dx.len() implies dx[i] == dy[i] by {
                    assert(a.wire_name()[8 + i] == dx[i]);
                    assert(b.wire_name()[8 + i] == dy[i]);
                }
                assert(dx =~= dy);
                lemma_decimal_digits_injective(x as nat, y as nat);
            },
            (StatementRef::Named(x), StatementRef::Unnamed) => {
                assert(a.wire_name().len() >= 9);
                assert(b.wire_name().len() == 1);
            },
            (StatementRef::Unnamed, StatementRef::Named(y)) => {
                assert(b.wire_name().len() >= 9);
                assert(a.wire_name().len() == 1);
            },
            (StatementRef::Unnamed, StatementRef::Unnamed) => {},
        }
    }

    /// A name is short: at most the prefix, ten digits and the terminating
    /// zero byte.
    pub proof fn lemma_wire_name_len(statement: StatementRef)
        ensures
            1 <= statement.wire_name().len() <= 19,
    {
        if let StatementRef::Named(id) = statement {
            assert(power_of_ten(10) == 10_000_000_000) by {
                reveal_with_fuel(power_of_ten, 11);
            }
            lemma_digits_len(id as nat, 10);
        }
    }

    /// A name ends in a zero byte and holds no other.
    pub proof fn lemma_wire_name_terminated(r: StatementRef)
        ensures
            r.wire_name().len() >= 1,
            r.wire_name().last() == 0,
            forall|i: int| 0 <= i < r.wire_name().len() - 1 ==> #[trigger] r.wire_name()[i] != 0,
    {
        if let StatementRef::Named(id) = r {
            lemma_decimal_digits_are_digits(id as nat);
            let d = decimal_digits(id as nat);
            assert forall|i: int| 0 <= i < r.wire_name().len() - 1 implies #[trigger] r.wire_name()[i]
                != 0 by {
                if i >= 8 {
                    assert(r.wire_name()[i] == d[i - 8]);
                }
            }
        }
    }

    /// Appends the name of the statement to `buf`, which never fails.
    pub fn serialize_with(&self, buf: &mut Vec<u8>, _context: ()) -> (r: Result<(), Error>)
        ensures
            r.is_ok(),
            final(buf)@ == old(buf)@ + self.wire_name(),
    {
        if let StatementRef::Named(id) = self {
            let prefix: [u8; 8] = [0x5f, 0x73, 0x71, 0x6c, 0x78, 0x5f, 0x73, 0x5f];
            buf.extend_from_slice(prefix.as_slice());
            write_decimal(buf, *id);
            assert(prefix@ =~= name_prefix());
        }
        buf.push(0);
        Ok(())
    }
}

} // verus!
