//! Titles: free text reduced to a filename-safe slug.
//!
//! Normalization lowercases ASCII letters, keeps digits and dashes, replaces
//! every other byte with a dash, and strips leading and trailing dashes.  It
//! is deterministic and lossy by design: a filename never needs to give the
//! exact title back, only the PR number.

use vstd::prelude::*;

verus! {

/// Rejection of input that leaves nothing once normalized.
#[derive(Debug, Clone, Copy, PartialEq, Eq, Structural)]
pub enum TitleError {
    InvalidTitle,
}

/// Bytes allowed in a slug: lowercase ASCII letters, digits, dash.
pub open spec fn is_slug_byte(b: u8) -> bool {
    (97 <= b && b <= 122) || (48 <= b && b <= 57) || b == 45
}

/// Normalization of one byte: lowercase a letter, keep a slug byte, replace
/// anything else with a dash.
pub open spec fn norm_byte(b: u8) -> u8 {
    if 65 <= b && b <= 90 {
        (b + 32) as u8
    } else if is_slug_byte(b) {
        b
    } else {
        45
    }
}

/// `s` without its leading dashes.
pub open spec fn drop_leading_dashes(s: Seq<u8>) -> Seq<u8>
    decreases s.len(),
{
    if s.len() > 0 && s[0] == 45 {
        drop_leading_dashes(s.drop_first())
    } else {
        s
    }
}

/// `s` without its trailing dashes.
pub open spec fn drop_trailing_dashes(s: Seq<u8>) -> Seq<u8>
    decreases s.len(),
{
    if s.len() > 0 && s.last() == 45 {
        drop_trailing_dashes(s.drop_last())
    } else {
        s
    }
}

/// `s` with every byte normalized.
pub open spec fn norm_all(s: Seq<u8>) -> Seq<u8>
    decreases s.len(),
{
    if s.len() == 0 {
        Seq::empty()
    } else {
        norm_all(s.drop_last()).push(norm_byte(s.last()))
    }
}

/// `norm_all` maps byte by byte.
pub proof fn lemma_norm_all(s: Seq<u8>)
    ensures
        norm_all(s).len() == s.len(),
        forall|i: int| 0 <= i < s.len() ==> norm_all(s)[i] == norm_byte(s[i]),
    decreases s.len(),
{
    if s.len() > 0 {
        lemma_norm_all(s.drop_last());
    }
}

/// The slug of raw title text: every byte normalized, then edge dashes
/// stripped.  Empty exactly when the input has no letter or digit.
pub open spec fn slug_of(s: Seq<u8>) -> Seq<u8> {
    drop_trailing_dashes(drop_leading_dashes(norm_all(s)))
}

/// A well-formed slug: nonempty, slug bytes only, no dash at either edge.
pub open spec fn wf_slug(s: Seq<u8>) -> bool {
    &&& s.len() > 0
    &&& forall|i: int| 0 <= i < s.len() ==> is_slug_byte(s[i])
    &&& s[0] != 45
    &&& s.last() != 45
}

/// A normalized, filename-safe title.  `normalize` is the only constructor
/// that yields a well-formed one.
#[derive(Debug, Clone, PartialEq, Eq)]
pub struct Title {
    /// The slug bytes; well-formed whenever the value came from `normalize`.
    pub slug: Vec<u8>,
}

impl View for Title {
    type V = Seq<u8>;

    open spec fn view(&self) -> Seq<u8> {
        self.slug@
    }
}

/// Dropping the first `j` bytes of `s` is exactly `drop_leading_dashes` when
/// the first `j` bytes are dashes and byte `j`, if any, is not.
proof fn lemma_drop_leading(s: Seq<u8>, j: int)
    requires
        0 <= j <= s.len(),
        forall|k: int| 0 <= k < j ==> s[k] == 45,
        j == s.len() || s[j] != 45,
    ensures
        drop_leading_dashes(s) == s.skip(j),
    decreases j,
{
    if j == 0 {
        assert(s.skip(0) =~= s);
    } else {
        assert(s[0] == 45);
        lemma_drop_leading(s.drop_first(), j - 1);
        assert(s.drop_first().skip(j - 1) =~= s.skip(j));
    }
}

/// Keeping the first `j` bytes of `s` is exactly `drop_trailing_dashes` when
/// everything from `j` on is a dash and byte `j - 1`, if any, is not.
proof fn lemma_drop_trailing(s: Seq<u8>, j: int)
    requires
        0 <= j <= s.len(),
        forall|k: int| j <= k < s.len() ==> s[k] == 45,
        j == 0 || s[j - 1] != 45,
    ensures
        drop_trailing_dashes(s) == s.take(j),
    decreases s.len() - j,
{
    if j == s.len() {
        assert(s.take(j) =~= s);
    } else {
        assert(s.last() == 45);
        lemma_drop_trailing(s.drop_last(), j);
        assert(s.drop_last().take(j) =~= s.take(j));
    }
}

impl Title {
    /// The title's invariant: its bytes form a well-formed slug.
    pub open spec fn wf(&self) -> bool {
        wf_slug(self@)
    }

    /// Reduces free text to a slug; fails exactly when nothing remains, that
    /// is when the input holds no ASCII letter or digit.
    pub fn normalize(raw: &Vec<u8>) -> (r: Result<Title, TitleError>)
        ensures
            match r {
                Ok(t) => {
                    &&& slug_of(raw@).len() > 0
                    &&& t@ == slug_of(raw@)
                    &&& t.wf()
                },
                Err(e) => {
                    &&& e == TitleError::InvalidTitle
                    &&& slug_of(raw@).len() == 0
                },
            },
    {
        let mut mapped: Vec<u8> = Vec::new();
        let mut i: usize = 0;
        while i < raw.len()
            invariant
                0 <= i <= raw.len(),
                mapped@ == norm_all(raw@.take(i as int)),
            decreases raw.len() - i,
        {
            let b = raw[i];
            let m: u8 = if 65 <= b && b <= 90 {
                b + 32
            } else if (97 <= b && b <= 122) || (48 <= b && b <= 57) || b == 45 {
                b
            } else {
                45
            };
            assert(m == norm_byte(raw@[i as int]));
            mapped.push(m);
            proof {
                let t = raw@.take(i as int + 1);
                assert(t.drop_last() =~= raw@.take(i as int));
                assert(t.last() == raw@[i as int]);
            }
            i = i + 1;
        }
        proof {
            assert(raw@.take(raw@.len() as int) =~= raw@);
        }
        let ghost ms = norm_all(raw@);
        assert(mapped@ == ms);
        proof {
            lemma_norm_all(raw@);
        }

        let mut start: usize = 0;
        while start < mapped.len() && mapped[start] == 45
            invariant
                0 <= start <= mapped.len(),
                mapped@ == ms,
                forall|k: int| 0 <= k < start ==> ms[k] == 45,
            decreases mapped.len() - start,
        {
            start = start + 1;
        }
        proof {
            lemma_drop_leading(ms, start as int);
        }
        let ghost tail = ms.skip(start as int);

        let mut end: usize = mapped.len();
        while end > start && mapped[end - 1] == 45
            invariant
                start <= end <= mapped.len(),
                mapped@ == ms,
                forall|k: int| end <= k < ms.len() ==> ms[k] == 45,
            decreases end,
        {
            end = end - 1;
        }
        proof {
            assert forall|k: int| (end - start) <= k < tail.len() implies tail[k] == 45 by {
                assert(tail[k] == ms[k + start]);
            }
            if end > start {
                assert(tail[end - start - 1] == ms[end as int - 1]);
            }
            lemma_drop_trailing(tail, end - start);
            assert(slug_of(raw@) == tail.take(end - start));
        }

        if end == start {
            proof {
                assert(tail.take(0) =~= Seq::<u8>::empty());
            }
            return Err(TitleError::InvalidTitle);
        }

        let mut slug: Vec<u8> = Vec::new();
        let mut k: usize = start;
        while k < end
            invariant
                start <= k <= end <= mapped.len(),
                mapped@ == ms,
                slug@ == ms.subrange(start as int, k as int),
            decreases end - k,
        {
            slug.push(mapped[k]);
            proof {
                assert(ms.subrange(start as int, k as int + 1) =~= ms.subrange(
                    start as int,
                    k as int,
                ).push(ms[k as int]));
            }
            k = k + 1;
        }
        proof {
            assert(slug@ =~= tail.take(end - start));
            assert(slug@ == slug_of(raw@));
            assert forall|j: int| 0 <= j < slug@.len() implies is_slug_byte(slug@[j]) by {
                assert(slug@[j] == ms[j + start]);
                assert(ms[j + start] == norm_byte(raw@[j + start]));
            }
            assert(slug@[0] == ms[start as int]);
            assert(slug@.last() == ms[end as int - 1]);
        }
        Ok(Title { slug })
    }

    /// The slug bytes of this title.
    pub fn as_bytes(&self) -> (r: &Vec<u8>)
        ensures
            r@ == self@,
    {
        &self.slug
    }
}

} // verus!
