//! Dotted variable paths. A batch-shaped request addresses a document by
//! prefixing the path with a decimal element index and a dot.

use vstd::prelude::*;

verus! {

/// Index of the first `'.'` in a path, if any.
pub open spec fn first_dot(p: Seq<char>) -> Option<int>
    decreases p.len(),
{
    if p.len() == 0 {
        None
    } else if p[0] == '.' {
        Some(0)
    } else {
        match first_dot(p.skip(1)) {
            Some(i) => Some(i + 1),
            None => None,
        }
    }
}

proof fn lemma_first_dot_at(p: Seq<char>, i: int)
    requires
        0 <= i < p.len(),
        p[i] == '.',
        forall|j: int| 0 <= j < i ==> p[j] != '.',
    ensures
        first_dot(p) == Some(i),
    decreases p.len(),
{
    if i > 0 {
        lemma_first_dot_at(p.skip(1), i - 1);
    }
}

proof fn lemma_first_dot_none(p: Seq<char>)
    requires
        forall|j: int| 0 <= j < p.len() ==> p[j] != '.',
    ensures
        first_dot(p) is None,
    decreases p.len(),
{
    if p.len() > 0 {
        lemma_first_dot_none(p.skip(1));
    }
}

pub open spec fn is_digit(c: char) -> bool {
    48 <= c as int && c as int <= 57
}

pub open spec fn all_digits(s: Seq<char>) -> bool {
    forall|i: int| 0 <= i < s.len() ==> is_digit(s[i])
}

/// Value of a decimal digit string, most significant digit first.
pub open spec fn digits_val(s: Seq<char>) -> int
    decreases s.len(),
{
    if s.len() == 0 {
        0
    } else {
        digits_val(s.drop_last()) * 10 + (s.last() as int - 48)
    }
}

/// What `str::parse::<usize>` accepts here: a nonempty digit string whose
/// value fits a `usize`.
pub open spec fn parse_index(s: Seq<char>) -> Option<int> {
    if s.len() > 0 && all_digits(s) && digits_val(s) <= usize::MAX as int {
        Some(digits_val(s))
    } else {
        None
    }
}

/// Splitting a batch path at its first dot: the element index before it
/// and the remaining path after it, or `None` when there is no dot or the
/// prefix is not an index.
pub open spec fn split_batch_path(p: Seq<char>) -> Option<(int, Seq<char>)> {
    match first_dot(p) {
        Some(d) => match parse_index(p.take(d)) {
            Some(v) => Some((v, p.skip(d + 1))),
            None => None,
        },
        None => None,
    }
}

proof fn lemma_digits_val_nonneg(s: Seq<char>)
    requires
        all_digits(s),
    ensures
        digits_val(s) >= 0,
    decreases s.len(),
{
    if s.len() > 0 {
        assert(all_digits(s.drop_last()));
        lemma_digits_val_nonneg(s.drop_last());
    }
}

proof fn lemma_digits_val_take_le(s: Seq<char>, j: int)
    requires
        all_digits(s),
        0 <= j <= s.len(),
    ensures
        digits_val(s.take(j)) <= digits_val(s),
    decreases s.len(),
{
    if j == s.len() {
        assert(s.take(j) =~= s);
    } else {
        assert(all_digits(s.drop_last()));
        assert(s.take(j) =~= s.drop_last().take(j));
        lemma_digits_val_take_le(s.drop_last(), j);
        lemma_digits_val_nonneg(s.drop_last());
    }
}

/// Split a path at its first dot and read the leading element index, as
/// the upload binder does for a batch-shaped request.
pub fn split_index_path(p: &str) -> (r: Option<(usize, String)>)
    ensures
        r is Some <==> split_batch_path(p@) is Some,
        r matches Some(ir) ==> split_batch_path(p@) == Some((ir.0 as int, ir.1@)),
{
    let n = p.unicode_len();
    let mut i: usize = 0;
    let mut dot: Option<usize> = None;
    while i < n
        invariant
            i <= n,
            n == p@.len(),
            match dot {
                Some(k) => k < i && p@[k as int] == '.' && forall|j: int|
                    0 <= j < k ==> p@[j] != '.',
                None => forall|j: int| 0 <= j < i ==> p@[j] != '.',
            },
        decreases n - i,
    {
        if dot.is_none() {
            let c = p.get_char(i);
            if c == '.' {
                dot = Some(i);
            }
        }
        i += 1;
    }
    let k = match dot {
        Some(k) => k,
        None => {
            proof {
                lemma_first_dot_none(p@);
            }
            return None;
        },
    };
    proof {
        lemma_first_dot_at(p@, k as int);
    }
    let ghost s = p@.take(k as int);
    let mut acc: u128 = 0;
    let mut j: usize = 0;
    if k == 0 {
        return None;
    }
    while j < k
        invariant
            0 < k <= n,
            n == p@.len(),
            j <= k,
            s == p@.take(k as int),
            s.len() == k,
            all_digits(s.take(j as int)),
            acc as int == digits_val(s.take(j as int)),
            acc <= usize::MAX as u128,
            first_dot(p@) == Some(k as int),
        decreases k - j,
    {
        let c = p.get_char(j);
        let u = c as u32;
        proof {
            assert(s[j as int] == p@[j as int]);
        }
        if u < 48 || u > 57 {
            proof {
                assert(!is_digit(s[j as int]));
                assert(!all_digits(s));
            }
            return None;
        }
        proof {
            assert(s.take(j + 1).drop_last() =~= s.take(j as int));
            assert(s.take(j + 1).last() == s[j as int]);
            assert(all_digits(s.take(j + 1)));
        }
        acc = acc * 10 + ((u - 48) as u128);
        if acc > usize::MAX as u128 {
            proof {
                if all_digits(s) {
                    lemma_digits_val_take_le(s, j + 1);
                }
            }
            return None;
        }
        j += 1;
    }
    proof {
        assert(s.take(k as int) =~= s);
        assert(parse_index(s) == Some(acc as int));
    }
    let rest = p.substring_char(k + 1, n).to_owned();
    proof {
        assert(rest@ =~= p@.skip(k as int + 1));
    }
    Some((acc as usize, rest))
}

} // verus!
