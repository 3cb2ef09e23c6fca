//! Small operations on text: comparison, suffix test, literal replacement,
//! splitting.
//!
//! Text is measured in characters, not bytes.

use vstd::prelude::*;
use vstd::string::*;

verus! {

/// The texts of a sequence of strings.
pub open spec fn texts(v: Seq<String>) -> Seq<Seq<char>> {
    Seq::new(v.len(), |i: int| v[i]@)
}

/// `pat` stands in `s` at position `at`.
pub open spec fn spec_matches_at(s: Seq<char>, at: int, pat: Seq<char>) -> bool {
    0 <= at && at + pat.len() <= s.len() && s.subrange(at, at + pat.len()) == pat
}

/// `s` ends with `suffix`.
pub open spec fn spec_ends_with(s: Seq<char>, suffix: Seq<char>) -> bool {
    suffix.len() <= s.len() && spec_matches_at(s, s.len() - suffix.len(), suffix)
}

/// `text` with every occurrence of `pat` replaced by `with`, found from the
/// left, each search starting behind the last occurrence replaced. An empty
/// `pat` occurs nowhere.
pub open spec fn spec_replace(text: Seq<char>, pat: Seq<char>, with: Seq<char>) -> Seq<char>
    decreases text.len(),
{
    if text.len() == 0 {
        text
    } else if pat.len() > 0 && spec_matches_at(text, 0, pat) {
        with + spec_replace(text.skip(pat.len() as int), pat, with)
    } else {
        text.take(1) + spec_replace(text.skip(1), pat, with)
    }
}

/// The parts of `s` between the occurrences of `sep`: one part more than
/// there are occurrences, empty parts included.
pub open spec fn spec_split(s: Seq<char>, sep: char) -> Seq<Seq<char>>
    decreases s.len(),
{
    if s.len() == 0 {
        seq![Seq::<char>::empty()]
    } else {
        let before = spec_split(s.drop_last(), sep);
        if s.last() == sep {
            before.push(Seq::<char>::empty())
        } else {
            before.drop_last().push(before.last().push(s.last()))
        }
    }
}

/// Tells whether `pat` stands in `s` at position `at`.
pub fn matches_at(s: &str, at: usize, pat: &str) -> (r: bool)
    ensures
        r == spec_matches_at(s@, at as int, pat@),
{
    let n: usize = s.unicode_len();
    let m: usize = pat.unicode_len();
    if at > n || m > n - at {
        return false;
    }
    let mut i: usize = 0;
    while i < m
        invariant
            i <= m,
            at + m <= n,
            n == s@.len(),
            m == pat@.len(),
            forall|k: int| 0 <= k < i ==> s@[at + k] == pat@[k],
        decreases m - i,
    {
        if s.get_char(at + i) != pat.get_char(i) {
            assert(s@.subrange(at as int, at + m)[i as int] == s@[at + i]);
            return false;
        }
        i += 1;
    }
    assert(s@.subrange(at as int, at + m) =~= pat@);
    true
}

/// Tells whether `a` and `b` are the same text.
pub fn same_text(a: &str, b: &str) -> (r: bool)
    ensures
        r == (a@ == b@),
{
    let n: usize = a.unicode_len();
    let m: usize = b.unicode_len();
    if n != m {
        return false;
    }
    let found: bool = matches_at(a, 0, b);
    proof {
        assert(a@.subrange(0, n as int) =~= a@);
    }
    found
}

/// Tells whether `s` ends with `suffix`.
pub fn ends_with(s: &str, suffix: &str) -> (r: bool)
    ensures
        r == spec_ends_with(s@, suffix@),
{
    let n: usize = s.unicode_len();
    let m: usize = suffix.unicode_len();
    if m > n {
        return false;
    }
    matches_at(s, n - m, suffix)
}

/// `text` with every occurrence of `pat` replaced by `with`.
pub fn replace_all(text: &str, pat: &str, with: &str) -> (r: String)
    ensures
        r@ == spec_replace(text@, pat@, with@),
{
    let n: usize = text.unicode_len();
    let m: usize = pat.unicode_len();
    let mut out = String::new();
    let mut i: usize = 0;
    proof {
        assert(text@.skip(0) =~= text@);
        assert(out@ + spec_replace(text@, pat@, with@) =~= spec_replace(text@, pat@, with@));
    }
    while i < n
        invariant
            i <= n,
            n == text@.len(),
            m == pat@.len(),
            out@ + spec_replace(text@.skip(i as int), pat@, with@) == spec_replace(
                text@,
                pat@,
                with@,
            ),
        decreases n - i,
    {
        let ghost rest = text@.skip(i as int);
        let found: bool = m > 0 && matches_at(text, i, pat);
        proof {
            assert(rest.len() == n - i);
            if m > 0 && i + m <= n {
                assert(rest.subrange(0, m as int) =~= text@.subrange(i as int, i + m));
            }
            assert(found == (m > 0 && spec_matches_at(rest, 0, pat@)));
        }
        let ghost before = out@;
        if found {
            out.append(with);
            proof {
                assert(rest.skip(m as int) =~= text@.skip(i + m));
                assert((out@ + spec_replace(text@.skip(i + m), pat@, with@)) =~= (before + (with@
                    + spec_replace(rest.skip(m as int), pat@, with@))));
            }
            i += m;
        } else {
            out.append(text.substring_char(i, i + 1));
            proof {
                assert(rest.take(1) =~= text@.subrange(i as int, i + 1));
                assert(rest.skip(1) =~= text@.skip(i + 1));
                assert((out@ + spec_replace(text@.skip(i + 1), pat@, with@)) =~= (before + (
                    rest.take(1) + spec_replace(rest.skip(1), pat@, with@)
                )));
            }
            i += 1;
        }
    }
    proof {
        assert(text@.skip(n as int).len() == 0);
        assert(out@ + Seq::<char>::empty() =~= out@);
    }
    out
}

/// The parts of `s` between the occurrences of `sep`.
pub fn split(s: &str, sep: char) -> (r: Vec<String>)
    ensures
        texts(r@) == spec_split(s@, sep),
{
    let n: usize = s.unicode_len();
    let mut parts: Vec<String> = Vec::new();
    let mut start: usize = 0;
    let mut i: usize = 0;
    proof {
        assert(s@.subrange(0, 0) =~= Seq::<char>::empty());
        assert(s@.take(0) =~= Seq::<char>::empty());
        assert(texts(parts@) =~= Seq::<Seq<char>>::empty());
        assert(texts(parts@).push(s@.subrange(0, 0)) =~= seq![Seq::<char>::empty()]);
    }
    while i < n
        invariant
            start <= i <= n,
            n == s@.len(),
            texts(parts@).push(s@.subrange(start as int, i as int)) == spec_split(
                s@.take(i as int),
                sep,
            ),
        decreases n - i,
    {
        let ghost prefix = s@.take(i + 1);
        let ghost before = spec_split(s@.take(i as int), sep);
        proof {
            assert(prefix.drop_last() =~= s@.take(i as int));
            assert(prefix.last() == s@[i as int]);
            assert(before.last() == s@.subrange(start as int, i as int));
            assert(before.drop_last() =~= texts(parts@));
        }
        if s.get_char(i) == sep {
            let part: String = s.substring_char(start, i).to_owned();
            let ghost earlier = parts@;
            parts.push(part);
            start = i + 1;
            proof {
                assert(texts(parts@) =~= texts(earlier).push(part@));
                assert(s@.subrange(start as int, i + 1) =~= Seq::<char>::empty());
            }
        } else {
            proof {
                assert(s@.subrange(start as int, i + 1) =~= s@.subrange(
                    start as int,
                    i as int,
                ).push(s@[i as int]));
            }
        }
        i += 1;
    }
    let last: String = s.substring_char(start, n).to_owned();
    let ghost earlier = parts@;
    parts.push(last);
    proof {
        assert(texts(parts@) =~= texts(earlier).push(last@));
        assert(s@.take(n as int) =~= s@);
    }
    parts
}

} // verus!
