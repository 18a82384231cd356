//! Character-sequence utilities shared by the parsing and session logic:
//! substring search, prefix tests, whitespace trimming, and joining.

use vstd::prelude::*;

verus! {

/// The views of a sequence of owned strings.
pub open spec fn views(v: Seq<String>) -> Seq<Seq<char>> {
    v.map_values(|s: String| s@)
}

/// The view of an optional owned string.
pub open spec fn view_opt(o: Option<String>) -> Option<Seq<char>> {
    match o {
        Some(s) => Some(s@),
        None => None,
    }
}

/// `pat` occurs in `s` starting at position `i`.
pub open spec fn occurs_at(s: Seq<char>, pat: Seq<char>, i: int) -> bool {
    0 <= i && i + pat.len() <= s.len() && s.subrange(i, i + pat.len()) == pat
}

/// `pat` occurs somewhere in `s`.
pub open spec fn contains_seq(s: Seq<char>, pat: Seq<char>) -> bool {
    exists|i: int| occurs_at(s, pat, i)
}

/// Position of the first occurrence of `pat` in `s` at or after `from`.
pub open spec fn first_occurrence_from(s: Seq<char>, pat: Seq<char>, from: int) -> Option<int>
    decreases s.len() - from when 0 <= from <= s.len()
{
    if from + pat.len() > s.len() {
        None
    } else if pat.len() == 0 || occurs_at(s, pat, from) {
        Some(from)
    } else {
        first_occurrence_from(s, pat, from + 1)
    }
}

/// Position of the first occurrence of `pat` in `s`, if any.
pub open spec fn first_occurrence(s: Seq<char>, pat: Seq<char>) -> Option<int> {
    first_occurrence_from(s, pat, 0)
}

/// What `first_occurrence_from` returns: the least occurrence at or after
/// `from`, or `None` exactly when there is none.
pub proof fn lemma_first_occurrence_from(s: Seq<char>, pat: Seq<char>, from: int)
    requires
        0 <= from <= s.len(),
    ensures
        match first_occurrence_from(s, pat, from) {
            Some(i) => from <= i && occurs_at(s, pat, i) && (forall|j: int|
                from <= j < i ==> !occurs_at(s, pat, j)),
            None => forall|j: int| from <= j ==> !occurs_at(s, pat, j),
        },
    decreases s.len() - from,
{
    if from + pat.len() > s.len() {
        assert forall|j: int| from <= j implies !occurs_at(s, pat, j) by {}
    } else if pat.len() == 0 || occurs_at(s, pat, from) {
        if pat.len() == 0 {
            assert(s.subrange(from, from + pat.len()) =~= pat);
        }
    } else {
        lemma_first_occurrence_from(s, pat, from + 1);
    }
}

/// A known occurrence with none before it is the first occurrence.
pub proof fn lemma_first_occurrence_is(s: Seq<char>, pat: Seq<char>, p: int)
    requires
        occurs_at(s, pat, p),
        forall|j: int| 0 <= j < p ==> !occurs_at(s, pat, j),
    ensures
        first_occurrence(s, pat) == Some(p),
{
    lemma_first_occurrence_from_is(s, pat, 0, p);
}

proof fn lemma_first_occurrence_from_is(s: Seq<char>, pat: Seq<char>, from: int, p: int)
    requires
        0 <= from <= p,
        occurs_at(s, pat, p),
        forall|j: int| from <= j < p ==> !occurs_at(s, pat, j),
    ensures
        first_occurrence_from(s, pat, from) == Some(p),
    decreases p - from,
{
    if from == p {
        assert(from + pat.len() <= s.len());
        assert(first_occurrence_from(s, pat, from) == Some(p));
    } else {
        if pat.len() == 0 {
            // An empty pattern occurs everywhere, contradicting the
            // no-occurrence hypothesis at `from`.
            assert(occurs_at(s, pat, from)) by {
                assert(s.subrange(from, from + pat.len()) =~= pat);
            }
        }
        assert(!occurs_at(s, pat, from));
        lemma_first_occurrence_from_is(s, pat, from + 1, p);
        assert(first_occurrence_from(s, pat, from) == first_occurrence_from(s, pat, from + 1));
    }
}

/// Occurrence of a one-character pattern is just indexing.
pub proof fn lemma_occurs_single(s: Seq<char>, c: char, j: int)
    requires
        0 <= j < s.len(),
    ensures
        occurs_at(s, seq![c], j) <==> s[j] == c,
{
    if s[j] == c {
        assert(s.subrange(j, j + 1) =~= seq![c]);
    }
    if occurs_at(s, seq![c], j) {
        assert(s.subrange(j, j + 1)[0] == s[j]);
    }
}

/// `pat` matches `s` at position `i`.
fn matches_at(s: &str, pat: &str, i: usize) -> (r: bool)
    requires
        i + pat@.len() <= s@.len(),
    ensures
        r == occurs_at(s@, pat@, i as int),
{
    let n = s.unicode_len();
    let m = pat.unicode_len();
    let mut k: usize = 0;
    while k < m
        invariant
            0 <= k <= m,
            m == pat@.len(),
            n == s@.len(),
            i + m <= n,
            forall|t: int| 0 <= t < k ==> s@[i + t] == pat@[t],
        decreases m - k,
    {
        if s.get_char(i + k) != pat.get_char(k) {
            proof {
                if occurs_at(s@, pat@, i as int) {
                    assert(s@.subrange(i as int, i + pat@.len())[k as int] == s@[i + k]);
                }
            }
            return false;
        }
        k += 1;
    }
    proof {
        assert(s@.subrange(i as int, i + pat@.len()) =~= pat@);
    }
    true
}

/// First position where `pat` occurs in `s`, if any.
pub fn find_substring(s: &str, pat: &str) -> (r: Option<usize>)
    ensures
        match r {
            Some(i) => first_occurrence(s@, pat@) == Some(i as int),
            None => first_occurrence(s@, pat@) is None,
        },
{
    let n = s.unicode_len();
    let m = pat.unicode_len();
    if m > n {
        return None;
    }
    if m == 0 {
        proof {
            assert(s@.subrange(0, 0) =~= pat@);
        }
        return Some(0);
    }
    let mut i: usize = 0;
    while i <= n - m
        invariant
            0 < m <= n,
            n == s@.len(),
            m == pat@.len(),
            0 <= i <= n - m + 1,
            first_occurrence(s@, pat@) == first_occurrence_from(s@, pat@, i as int),
        decreases n - m + 1 - i,
    {
        if matches_at(s, pat, i) {
            proof {
                assert(first_occurrence_from(s@, pat@, i as int) == Some(i as int));
            }
            return Some(i);
        }
        proof {
            assert(first_occurrence_from(s@, pat@, i as int) == first_occurrence_from(
                s@,
                pat@,
                i + 1,
            ));
        }
        i += 1;
    }
    proof {
        assert(first_occurrence_from(s@, pat@, i as int) is None);
    }
    None
}

/// Whether `pat` occurs somewhere in `s`.
pub fn contains_substring(s: &str, pat: &str) -> (r: bool)
    ensures
        r == contains_seq(s@, pat@),
{
    let found = find_substring(s, pat);
    proof {
        lemma_first_occurrence_from(s@, pat@, 0);
        if first_occurrence(s@, pat@) is Some {
            let i = first_occurrence(s@, pat@)->Some_0;
            assert(occurs_at(s@, pat@, i));
        }
    }
    found.is_some()
}

/// Whether `s` begins with `pat`.
pub fn starts_with(s: &str, pat: &str) -> (r: bool)
    ensures
        r == pat@.is_prefix_of(s@),
{
    let n = s.unicode_len();
    let m = pat.unicode_len();
    if m > n {
        return false;
    }
    let r = matches_at(s, pat, 0);
    proof {
        if r {
            assert(pat@ =~= s@.subrange(0, pat@.len() as int));
        }
        if pat@.is_prefix_of(s@) {
            assert(s@.subrange(0, pat@.len() as int) =~= pat@);
        }
    }
    r
}

/// The whitespace characters stripped from line ends. Device replies are
/// ASCII lines, so only the ASCII whitespace characters are considered.
pub open spec fn is_space_char(c: char) -> bool {
    c == ' ' || c == '\t' || c == '\n' || c == '\r'
}

fn is_space(c: char) -> (r: bool)
    ensures
        r == is_space_char(c),
{
    c == ' ' || c == '\t' || c == '\n' || c == '\r'
}

/// `s` with leading whitespace removed.
pub open spec fn trim_start_spec(s: Seq<char>) -> Seq<char>
    decreases s.len(),
{
    if s.len() > 0 && is_space_char(s[0]) {
        trim_start_spec(s.drop_first())
    } else {
        s
    }
}

/// `s` with trailing whitespace removed.
pub open spec fn trim_end_spec(s: Seq<char>) -> Seq<char>
    decreases s.len(),
{
    if s.len() > 0 && is_space_char(s.last()) {
        trim_end_spec(s.drop_last())
    } else {
        s
    }
}

/// `s` with whitespace removed from both ends.
pub open spec fn trim_spec(s: Seq<char>) -> Seq<char> {
    trim_end_spec(trim_start_spec(s))
}

/// Strip ASCII whitespace from both ends of a line.
pub fn trim_line(s: &str) -> (r: String)
    ensures
        r@ == trim_spec(s@),
{
    let n = s.unicode_len();
    proof {
        assert(s@.subrange(0, n as int) =~= s@);
    }
    let mut a: usize = 0;
    while a < n && is_space(s.get_char(a))
        invariant
            0 <= a <= n,
            n == s@.len(),
            trim_start_spec(s@) == trim_start_spec(s@.subrange(a as int, n as int)),
        decreases n - a,
    {
        proof {
            assert(s@.subrange(a as int, n as int).drop_first() =~= s@.subrange(
                a + 1,
                n as int,
            ));
        }
        a += 1;
    }
    proof {
        // The remaining slice starts with a non-space (or is empty), so it is
        // its own trim_start.
        if a < n {
            assert(s@.subrange(a as int, n as int)[0] == s@[a as int]);
        }
        assert(trim_start_spec(s@.subrange(a as int, n as int)) == s@.subrange(
            a as int,
            n as int,
        ));
    }
    let mut b: usize = n;
    while b > a && is_space(s.get_char(b - 1))
        invariant
            a <= b <= n,
            n == s@.len(),
            trim_start_spec(s@) == s@.subrange(a as int, n as int),
            trim_end_spec(s@.subrange(a as int, n as int)) == trim_end_spec(
                s@.subrange(a as int, b as int),
            ),
        decreases b,
    {
        proof {
            assert(s@.subrange(a as int, b as int).drop_last() =~= s@.subrange(
                a as int,
                b - 1,
            ));
        }
        b -= 1;
    }
    proof {
        if b > a {
            assert(s@.subrange(a as int, b as int).last() == s@[b - 1]);
        }
        assert(trim_end_spec(s@.subrange(a as int, b as int)) == s@.subrange(
            a as int,
            b as int,
        ));
    }
    let out = s.substring_char(a, b);
    out.to_owned()
}

/// `parts` joined with the separator `sep` between consecutive parts.
pub open spec fn join_with(parts: Seq<Seq<char>>, sep: Seq<char>) -> Seq<char>
    decreases parts.len(),
{
    if parts.len() == 0 {
        Seq::empty()
    } else if parts.len() == 1 {
        parts[0]
    } else {
        parts[0] + sep + join_with(parts.drop_first(), sep)
    }
}

/// Appending one part to a join adds one separator and the part.
pub proof fn lemma_join_with_push(parts: Seq<Seq<char>>, sep: Seq<char>, p: Seq<char>)
    ensures
        join_with(parts.push(p), sep) == if parts.len() == 0 {
            p
        } else {
            join_with(parts, sep) + sep + p
        },
    decreases parts.len(),
{
    if parts.len() == 0 {
        assert(parts.push(p) =~= seq![p]);
        assert(join_with(seq![p], sep) == p);
    } else {
        assert(parts.push(p).drop_first() =~= parts.drop_first().push(p));
        lemma_join_with_push(parts.drop_first(), sep, p);
        if parts.len() == 1 {
            assert(parts.drop_first().len() == 0);
            assert(join_with(parts.push(p), sep) == parts[0] + sep + p);
            assert(join_with(parts, sep) == parts[0]);
        } else {
            assert(join_with(parts, sep) + sep + p =~= parts[0] + sep + (join_with(
                parts.drop_first(),
                sep,
            ) + sep + p));
        }
    }
}

/// Join owned strings with a separator.
pub fn join_strings(parts: &Vec<String>, sep: &str) -> (r: String)
    ensures
        r@ == join_with(views(parts@), sep@),
{
    let mut out = String::new();
    let mut i: usize = 0;
    while i < parts.len()
        invariant
            0 <= i <= parts@.len(),
            out@ == join_with(views(parts@).take(i as int), sep@),
        decreases parts@.len() - i,
    {
        if i > 0 {
            out.append(sep);
        }
        out.append(parts[i].as_str());
        proof {
            assert(views(parts@).take(i as int).push(parts@[i as int]@) =~= views(parts@).take(
                i + 1,
            ));
            lemma_join_with_push(views(parts@).take(i as int), sep@, parts@[i as int]@);
        }
        i += 1;
    }
    proof {
        assert(views(parts@).take(parts@.len() as int) =~= views(parts@));
    }
    out
}

} // verus!
