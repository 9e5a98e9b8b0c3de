//! PR numbers: the positive integer identity of a change request, and its
//! decimal text form used in filenames and record content.

use vstd::prelude::*;

verus! {

/// Identifier of the change request a record documents.  Always positive:
/// `parse_pr_number` never returns 0 and `valid_number_text` excludes it.
pub type PRNumber = u64;

/// Rejection of text that does not denote a positive integer.
#[derive(Debug, Clone, Copy, PartialEq, Eq, Structural)]
pub enum NumberError {
    InvalidNumber,
}

/// `b` is an ASCII decimal digit.
pub open spec fn is_digit(b: u8) -> bool {
    48 <= b && b <= 57
}

/// Every byte of `s` is an ASCII decimal digit.
pub open spec fn all_digits(s: Seq<u8>) -> bool {
    forall|i: int| 0 <= i < s.len() ==> is_digit(s[i])
}

/// Numeric value of a decimal digit string (most significant digit first).
pub open spec fn digits_value(s: Seq<u8>) -> nat
    decreases s.len(),
{
    if s.len() == 0 {
        0
    } else {
        digits_value(s.drop_last()) * 10 + (s.last() - 48) as nat
    }
}

/// Decimal digit string of `n`: nonempty, no leading zero unless `n == 0`.
pub open spec fn digits_of(n: nat) -> Seq<u8>
    decreases n,
{
    if n < 10 {
        seq![(n + 48) as u8]
    } else {
        digits_of(n / 10).push((n % 10 + 48) as u8)
    }
}

/// Text that `parse_pr_number` accepts: nonempty, all digits, and denoting a
/// positive value that fits the number type.
pub open spec fn valid_number_text(s: Seq<u8>) -> bool {
    &&& s.len() > 0
    &&& all_digits(s)
    &&& 1 <= digits_value(s) <= u64::MAX
}

/// The digit string of any `n` consists of digits only.
pub proof fn lemma_digits_of_all_digits(n: nat)
    ensures
        digits_of(n).len() >= 1,
        all_digits(digits_of(n)),
    decreases n,
{
    if n >= 10 {
        lemma_digits_of_all_digits(n / 10);
        assert forall|i: int| 0 <= i < digits_of(n).len() implies is_digit(digits_of(n)[i]) by {
            if i < digits_of(n / 10).len() {
                assert(digits_of(n)[i] == digits_of(n / 10)[i]);
            }
        }
    }
}

/// Reading back the digit string of `n` yields `n`: the decimal rendering is
/// injective.
pub proof fn lemma_digits_value_of(n: nat)
    ensures
        digits_value(digits_of(n)) == n,
    decreases n,
{
    if n < 10 {
        let s = seq![(n + 48) as u8];
        assert(s.drop_last() =~= Seq::<u8>::empty());
        assert(digits_value(s) == digits_value(s.drop_last()) * 10 + (s.last() - 48) as nat);
        assert(digits_value(s) == n);
    } else {
        lemma_digits_value_of(n / 10);
        let d = (n % 10 + 48) as u8;
        let s = digits_of(n / 10).push(d);
        assert(s.drop_last() =~= digits_of(n / 10));
        assert(s.last() == d);
        assert(digits_value(s) == digits_value(digits_of(n / 10)) * 10 + (d - 48) as nat);
        assert(digits_value(s) == (n / 10) * 10 + n % 10);
        assert(n == (n / 10) * 10 + n % 10) by (nonlinear_arith);
    }
}

/// Appending digits never decreases the value of a digit string.
proof fn lemma_digits_value_prefix_le(s: Seq<u8>, i: int)
    requires
        0 <= i <= s.len(),
    ensures
        digits_value(s.take(i)) <= digits_value(s),
    decreases s.len() - i,
{
    if i < s.len() {
        lemma_digits_value_prefix_le(s, i + 1);
        let t = s.take(i + 1);
        assert(t.drop_last() =~= s.take(i));
        let v = digits_value(s.take(i));
        assert(v <= v * 10) by (nonlinear_arith);
        assert(digits_value(s.take(i)) <= digits_value(s.take(i + 1)));
    } else {
        assert(s.take(i) =~= s);
    }
}

/// Parses decimal text into a PR number.  Accepts exactly the nonempty
/// all-digit strings whose value is positive and fits; leading zeros are
/// allowed and ignored in the value.
pub fn parse_pr_number(raw: &Vec<u8>) -> (r: Result<PRNumber, NumberError>)
    ensures
        match r {
            Ok(n) => valid_number_text(raw@) && n == digits_value(raw@),
            Err(e) => e == NumberError::InvalidNumber && !valid_number_text(raw@),
        },
{
    if raw.len() == 0 {
        return Err(NumberError::InvalidNumber);
    }
    let mut acc: u64 = 0;
    let mut i: usize = 0;
    while i < raw.len()
        invariant
            0 <= i <= raw.len(),
            all_digits(raw@.take(i as int)),
            acc == digits_value(raw@.take(i as int)),
        decreases raw.len() - i,
    {
        let b = raw[i];
        if b < 48 || b > 57 {
            assert(!is_digit(raw@[i as int]));
            return Err(NumberError::InvalidNumber);
        }
        let d = b - 48;
        if acc > (u64::MAX - d as u64) / 10 {
            proof {
                let t = raw@.take(i as int + 1);
                assert(t.drop_last() =~= raw@.take(i as int));
                assert(acc * 10 + d > u64::MAX) by (nonlinear_arith)
                    requires
                        acc > (u64::MAX - d as u64) / 10,
                        d < 10,
                ;
                assert(digits_value(t) > u64::MAX);
                if all_digits(raw@) {
                    lemma_digits_value_prefix_le(raw@, i as int + 1);
                    assert(digits_value(raw@) > u64::MAX);
                }
            }
            return Err(NumberError::InvalidNumber);
        }
        proof {
            let t = raw@.take(i as int + 1);
            assert(t.drop_last() =~= raw@.take(i as int));
            assert(acc * 10 + d <= u64::MAX) by (nonlinear_arith)
                requires
                    acc <= (u64::MAX - d as u64) / 10,
                    d < 10,
            ;
        }
        acc = acc * 10 + d as u64;
        i = i + 1;
    }
    proof {
        assert(raw@.take(raw@.len() as int) =~= raw@);
    }
    if acc == 0 {
        Err(NumberError::InvalidNumber)
    } else {
        Ok(acc)
    }
}

/// Renders a PR number as decimal digits; the exact inverse of the value
/// function, so filenames built from it decode to the same number.
pub fn pr_number_digits(n: PRNumber) -> (r: Vec<u8>)
    ensures
        r@ == digits_of(n as nat),
    decreases n,
{
    if n < 10 {
        let mut v: Vec<u8> = Vec::new();
        v.push((n as u8) + 48);
        proof {
            assert(v@ =~= digits_of(n as nat));
        }
        v
    } else {
        let mut v = pr_number_digits(n / 10);
        v.push(((n % 10) as u8) + 48);
        proof {
            assert(v@ =~= digits_of(n as nat));
        }
        v
    }
}

} // verus!
