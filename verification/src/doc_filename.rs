//! Canonical filenames of PR doc records.
//!
//! The fixed naming convention is `pr_<number>_<slug>.prdoc`.  Encoding is
//! deterministic; decoding recovers the PR number unambiguously from any
//! well-formed name, while the title portion need not round-trip (slugs are
//! lossy).  Any change to the prefix, separator or extension would be a
//! breaking change of the naming contract.

use vstd::prelude::*;
use crate::common::{
    NumberError, PRNumber, all_digits, digits_of, digits_value, is_digit, parse_pr_number,
    pr_number_digits, lemma_digits_of_all_digits, lemma_digits_value_of,
};
use crate::title::Title;

verus! {

/// Rejection of a filename that does not follow the convention.
#[derive(Debug, Clone, Copy, PartialEq, Eq, Structural)]
pub enum FilenameError {
    MalformedFilename,
}

/// The fixed name prefix, `pr_`.
pub open spec fn name_prefix() -> Seq<u8> {
    seq![112u8, 114u8, 95u8]
}

/// The fixed extension, `.prdoc`.
pub open spec fn name_ext() -> Seq<u8> {
    seq![46u8, 112u8, 114u8, 100u8, 111u8, 99u8]
}

/// The slug substituted when a record is generated without a title,
/// `no-title`.
pub open spec fn placeholder_slug() -> Seq<u8> {
    seq![110u8, 111u8, 45u8, 116u8, 105u8, 116u8, 108u8, 101u8]
}

/// The canonical filename for number `n` and slug `slug`:
/// `pr_<digits of n>_<slug>.prdoc`.
pub open spec fn encode_spec(n: nat, slug: Seq<u8>) -> Seq<u8> {
    name_prefix() + digits_of(n) + seq![95u8] + slug + name_ext()
}

/// Length of the digit run at the front of `s`.
pub open spec fn leading_digits(s: Seq<u8>) -> int
    decreases s.len(),
{
    if s.len() > 0 && is_digit(s[0]) {
        1 + leading_digits(s.drop_first())
    } else {
        0
    }
}

/// A filename that follows the convention: the prefix, at least one digit,
/// the separator, any title remainder, the extension, and a digit run whose
/// value is positive and fits the number type.
pub open spec fn wf_name(s: Seq<u8>) -> bool {
    let k = leading_digits(s.skip(3));
    &&& s.len() >= 3
    &&& s.take(3) == name_prefix()
    &&& k >= 1
    &&& 3 + k < s.len()
    &&& s[3 + k] == 95
    &&& 3 + k + 1 + 6 <= s.len()
    &&& s.skip(s.len() - 6) == name_ext()
    &&& 1 <= digits_value(s.subrange(3, 3 + k)) <= u64::MAX
}

/// The PR number a well-formed filename encodes.
pub open spec fn name_number(s: Seq<u8>) -> nat {
    digits_value(s.subrange(3, 3 + leading_digits(s.skip(3))))
}

/// The title remainder of a well-formed filename: what stands between the
/// separator and the extension.
pub open spec fn name_title(s: Seq<u8>) -> Seq<u8> {
    s.subrange(3 + leading_digits(s.skip(3)) + 1, s.len() - 6)
}

/// The digit run of `d + rest` is all of `d` when `d` is digits and `rest`
/// does not start with one.
proof fn lemma_leading_digits_concat(d: Seq<u8>, rest: Seq<u8>)
    requires
        all_digits(d),
        rest.len() > 0,
        !is_digit(rest[0]),
    ensures
        leading_digits(d + rest) == d.len(),
    decreases d.len(),
{
    if d.len() == 0 {
        assert(d + rest =~= rest);
    } else {
        assert(is_digit((d + rest)[0]));
        assert((d + rest).drop_first() =~= d.drop_first() + rest);
        assert(all_digits(d.drop_first())) by {
            assert(forall|i: int|
                0 <= i < d.drop_first().len() ==> d.drop_first()[i] == d[i + 1]);
        }
        lemma_leading_digits_concat(d.drop_first(), rest);
    }
}

/// The digit run of `s` ends exactly at the first non-digit.
proof fn lemma_leading_digits_scan(s: Seq<u8>, j: int)
    requires
        0 <= j <= s.len(),
        forall|k: int| 0 <= k < j ==> is_digit(s[k]),
        j == s.len() || !is_digit(s[j]),
    ensures
        leading_digits(s) == j,
    decreases j,
{
    if j == 0 {
    } else {
        assert(is_digit(s[0]));
        assert(forall|k: int|
            0 <= k < j - 1 ==> s.drop_first()[k] == s[k + 1] && is_digit(s[k + 1]));
        if j < s.len() {
            assert(s.drop_first()[j - 1] == s[j]);
        }
        lemma_leading_digits_scan(s.drop_first(), j - 1);
    }
}

/// Identity round-trip on the number: for every valid PR number `n` and any
/// slug, the canonical filename is well formed, decodes to `n`, and its title
/// remainder is the slug.  The title text itself need not survive the trip;
/// the number always does.
pub proof fn lemma_name_round_trip(n: nat, slug: Seq<u8>)
    requires
        1 <= n <= u64::MAX,
    ensures
        wf_name(encode_spec(n, slug)),
        name_number(encode_spec(n, slug)) == n,
        name_title(encode_spec(n, slug)) == slug,
{
    let s = encode_spec(n, slug);
    let d = digits_of(n);
    lemma_digits_of_all_digits(n);
    lemma_digits_value_of(n);
    let rest = seq![95u8] + slug + name_ext();
    assert(s.skip(3) =~= d + rest);
    assert(rest[0] == 95);
    lemma_leading_digits_concat(d, rest);
    let k = leading_digits(s.skip(3));
    assert(k == d.len());
    assert(s.take(3) =~= name_prefix());
    assert(s[3 + k] == rest[0]);
    assert(s.len() == 3 + d.len() + 1 + slug.len() + 6);
    assert(s.skip(s.len() - 6) =~= name_ext());
    assert(s.subrange(3, 3 + k) =~= d);
    assert(name_title(s) =~= slug);
}

/// The canonical identity of a record: its PR number together with the slug
/// (or placeholder) that names it on disk.  Comparisons for uniqueness go by
/// the number alone.
#[derive(Debug, Clone, PartialEq, Eq)]
pub struct DocFileName {
    /// The PR number the name encodes; positive in every well-formed value.
    pub number: PRNumber,
    /// The title portion of the name: a slug for generated records, or
    /// whatever stood in a decoded name.
    pub title: Vec<u8>,
}

impl DocFileName {
    /// The identity's invariant: the number is positive.
    pub open spec fn wf(&self) -> bool {
        1 <= self.number
    }

    /// Builds the identity of a fresh record; without a title the fixed
    /// placeholder slug stands in.
    pub fn new(number: PRNumber, title: Option<&Title>) -> (r: DocFileName)
        requires
            1 <= number,
        ensures
            r.wf(),
            r.number == number,
            r.title@ == match title {
                Some(t) => t@,
                None => placeholder_slug(),
            },
    {
        let title_bytes: Vec<u8> = match title {
            Some(t) => t.as_bytes().clone(),
            None => {
                let mut v: Vec<u8> = Vec::new();
                v.push(110);
                v.push(111);
                v.push(45);
                v.push(116);
                v.push(105);
                v.push(116);
                v.push(108);
                v.push(101);
                proof {
                    assert(v@ =~= placeholder_slug());
                }
                v
            },
        };
        DocFileName { number, title: title_bytes }
    }

    /// Renders the canonical filename, `pr_<number>_<title>.prdoc`.
    pub fn filename(&self) -> (r: Vec<u8>)
        ensures
            r@ == encode_spec(self.number as nat, self.title@),
    {
        let mut out: Vec<u8> = Vec::new();
        out.push(112);
        out.push(114);
        out.push(95);
        let mut digits = pr_number_digits(self.number);
        out.append(&mut digits);
        out.push(95);
        let mut i: usize = 0;
        let ghost mid = name_prefix() + digits_of(self.number as nat) + seq![95u8];
        assert(out@ =~= mid);
        while i < self.title.len()
            invariant
                0 <= i <= self.title.len(),
                out@ == mid + self.title@.take(i as int),
            decreases self.title.len() - i,
        {
            out.push(self.title[i]);
            proof {
                assert(mid + self.title@.take(i as int + 1) =~= (mid + self.title@.take(
                    i as int,
                )).push(self.title@[i as int]));
            }
            i = i + 1;
        }
        out.push(46);
        out.push(112);
        out.push(114);
        out.push(100);
        out.push(111);
        out.push(99);
        proof {
            assert(self.title@.take(self.title@.len() as int) =~= self.title@);
            assert(out@ =~= encode_spec(self.number as nat, self.title@));
        }
        out
    }

    /// Parses a filename against the convention.  Succeeds exactly on
    /// well-formed names and recovers the encoded number and title
    /// remainder; anything else is `MalformedFilename`.
    pub fn decode(name: &Vec<u8>) -> (r: Result<DocFileName, FilenameError>)
        ensures
            match r {
                Ok(d) => {
                    &&& wf_name(name@)
                    &&& d.wf()
                    &&& d.number == name_number(name@)
                    &&& d.title@ == name_title(name@)
                },
                Err(e) => {
                    &&& e == FilenameError::MalformedFilename
                    &&& !wf_name(name@)
                },
            },
    {
        let s = name;
        if s.len() < 3 || s[0] != 112 || s[1] != 114 || s[2] != 95 {
            proof {
                if s@.len() >= 3 && s@.take(3) == name_prefix() {
                    assert(s@.take(3)[0] == s@[0] && s@.take(3)[1] == s@[1] && s@.take(3)[2]
                        == s@[2]);
                    assert(name_prefix()[0] == 112 && name_prefix()[1] == 114 && name_prefix()[2]
                        == 95);
                }
            }
            return Err(FilenameError::MalformedFilename);
        }
        proof {
            assert(s@.take(3) =~= name_prefix());
        }
        let mut i: usize = 3;
        while i < s.len() && s[i] >= 48 && s[i] <= 57
            invariant
                3 <= i <= s@.len(),
                forall|k: int| 3 <= k < i ==> is_digit(s@[k]),
            decreases s@.len() - i,
        {
            i = i + 1;
        }
        proof {
            let body = s@.skip(3);
            assert(forall|k: int| 0 <= k < i - 3 ==> body[k] == s@[k + 3]);
            if i < s@.len() {
                assert(body[i - 3] == s@[i as int]);
            }
            lemma_leading_digits_scan(body, i as int - 3);
            assert(leading_digits(s@.skip(3)) == i - 3);
        }
        let k = i - 3;
        if k == 0 {
            return Err(FilenameError::MalformedFilename);
        }
        if i >= s.len() {
            return Err(FilenameError::MalformedFilename);
        }
        if s[i] != 95 {
            return Err(FilenameError::MalformedFilename);
        }
        if s.len() - i < 7 {
            return Err(FilenameError::MalformedFilename);
        }
        let e = s.len() - 6;
        if s[e] != 46 || s[e + 1] != 112 || s[e + 2] != 114 || s[e + 3] != 100 || s[e + 4] != 111
            || s[e + 5] != 99 {
            proof {
                if s@.skip(s@.len() - 6) == name_ext() {
                    let tail = s@.skip(s@.len() - 6);
                    assert(forall|j: int| 0 <= j < 6 ==> tail[j] == s@[j + s@.len() - 6]);
                    assert(name_ext()[0] == 46 && name_ext()[1] == 112 && name_ext()[2] == 114
                        && name_ext()[3] == 100 && name_ext()[4] == 111 && name_ext()[5] == 99);
                }
            }
            return Err(FilenameError::MalformedFilename);
        }
        proof {
            assert(s@.skip(s@.len() - 6) =~= name_ext());
        }

        let mut digits: Vec<u8> = Vec::new();
        let mut j: usize = 3;
        while j < i
            invariant
                3 <= j <= i <= s@.len(),
                digits@ == s@.subrange(3, j as int),
            decreases i - j,
        {
            digits.push(s[j]);
            proof {
                assert(s@.subrange(3, j as int + 1) =~= s@.subrange(3, j as int).push(
                    s@[j as int],
                ));
            }
            j = j + 1;
        }
        let number = match parse_pr_number(&digits) {
            Ok(n) => n,
            Err(_) => {
                proof {
                    assert(digits@.len() > 0);
                    assert(all_digits(digits@)) by {
                        assert(forall|t: int|
                            0 <= t < digits@.len() ==> digits@[t] == s@[t + 3] && is_digit(
                                s@[t + 3],
                            ));
                    }
                }
                return Err(FilenameError::MalformedFilename);
            },
        };

        let mut title: Vec<u8> = Vec::new();
        let mut t: usize = i + 1;
        while t < e
            invariant
                i + 1 <= t <= e <= s@.len(),
                title@ == s@.subrange(i as int + 1, t as int),
            decreases e - t,
        {
            title.push(s[t]);
            proof {
                assert(s@.subrange(i as int + 1, t as int + 1) =~= s@.subrange(
                    i as int + 1,
                    t as int,
                ).push(s@[t as int]));
            }
            t = t + 1;
        }
        proof {
            assert(title@ == name_title(name@));
        }
        Ok(DocFileName { number, title })
    }
}

} // verus!
