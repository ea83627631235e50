//! Character-level text utilities used by the quote decoder: splitting on a
//! separator and trimming surrounding whitespace, each with an exact
//! specification over the character sequence.

use vstd::prelude::*;

verus! {

/// Index of the first occurrence of `sep` in `s`, or -1 when `sep` is absent.
pub open spec fn first_index(s: Seq<char>, sep: char) -> int
    decreases s.len(),
{
    if s.len() == 0 {
        -1
    } else if s[0] == sep {
        0
    } else {
        let r = first_index(s.drop_first(), sep);
        if r < 0 {
            -1
        } else {
            r + 1
        }
    }
}

pub proof fn lemma_first_index_bounds(s: Seq<char>, sep: char)
    ensures
        -1 <= first_index(s, sep) < s.len(),
        first_index(s, sep) >= 0 ==> s[first_index(s, sep)] == sep,
    decreases s.len(),
{
    if s.len() > 0 && s[0] != sep {
        lemma_first_index_bounds(s.drop_first(), sep);
    }
}

pub proof fn lemma_first_index_at(s: Seq<char>, sep: char, j: int)
    requires
        0 <= j < s.len(),
        s[j] == sep,
        forall|k: int| 0 <= k < j ==> s[k] != sep,
    ensures
        first_index(s, sep) == j,
    decreases j,
{
    if j > 0 {
        assert forall|k: int| 0 <= k < j - 1 implies s.drop_first()[k] != sep by {
            assert(s.drop_first()[k] == s[k + 1]);
        }
        assert(s.drop_first()[j - 1] == s[j]);
        lemma_first_index_at(s.drop_first(), sep, j - 1);
    }
}

pub proof fn lemma_first_index_none(s: Seq<char>, sep: char)
    requires
        forall|k: int| 0 <= k < s.len() ==> s[k] != sep,
    ensures
        first_index(s, sep) == -1,
    decreases s.len(),
{
    if s.len() > 0 {
        assert forall|k: int| 0 <= k < s.len() - 1 implies s.drop_first()[k] != sep by {
            assert(s.drop_first()[k] == s[k + 1]);
        }
        lemma_first_index_none(s.drop_first(), sep);
    }
}

/// The pieces of `s` between occurrences of `sep`, in order; an `s` without
/// `sep` yields the one-element sequence of `s` itself.
pub open spec fn spec_split(s: Seq<char>, sep: char) -> Seq<Seq<char>>
    decreases s.len(),
    via spec_split_decreases
{
    let i = first_index(s, sep);
    if i < 0 {
        seq![s]
    } else {
        seq![s.take(i)] + spec_split(s.skip(i + 1), sep)
    }
}

#[via_fn]
proof fn spec_split_decreases(s: Seq<char>, sep: char) {
    lemma_first_index_bounds(s, sep);
}

/// Splitting `s` whose first separator stands at `j` yields the piece before
/// `j` followed by the split of what comes after `j`.
pub proof fn lemma_split_step(s: Seq<char>, sep: char, j: int)
    requires
        0 <= j < s.len(),
        s[j] == sep,
        forall|k: int| 0 <= k < j ==> s[k] != sep,
    ensures
        spec_split(s, sep) == seq![s.take(j)] + spec_split(s.skip(j + 1), sep),
{
    lemma_first_index_at(s, sep, j);
}

/// Splitting an `s` without separators yields `s` alone.
pub proof fn lemma_split_whole(s: Seq<char>, sep: char)
    requires
        forall|k: int| 0 <= k < s.len() ==> s[k] != sep,
    ensures
        spec_split(s, sep) == seq![s],
{
    lemma_first_index_none(s, sep);
}

/// Split `s` on every occurrence of `sep`.
pub fn split_str(s: &str, sep: char) -> (parts: Vec<String>)
    ensures
        parts@.map_values(|p: String| p@) == spec_split(s@, sep),
        parts@.len() >= 1,
{
    let n = s.unicode_len();
    let mut parts: Vec<String> = Vec::new();
    let mut start: usize = 0;
    let mut i: usize = 0;
    proof {
        assert(s@.skip(0) =~= s@);
        assert(parts@.map_values(|p: String| p@) =~= Seq::<Seq<char>>::empty());
        assert(Seq::<Seq<char>>::empty() + spec_split(s@, sep) =~= spec_split(s@, sep));
    }
    while i < n
        invariant
            start <= i <= n,
            n == s@.len(),
            forall|k: int| start <= k < i ==> s@[k] != sep,
            spec_split(s@, sep) == parts@.map_values(|p: String| p@) + spec_split(
                s@.skip(start as int),
                sep,
            ),
        decreases n - i,
    {
        let c = s.get_char(i);
        if c == sep {
            let piece = s.substring_char(start, i).to_owned();
            proof {
                let tail = s@.skip(start as int);
                assert forall|k: int| 0 <= k < i - start implies tail[k] != sep by {
                    assert(tail[k] == s@[start + k]);
                }
                assert(tail[i - start] == s@[i as int]);
                lemma_split_step(tail, sep, i - start);
                assert(tail.take(i - start) =~= s@.subrange(start as int, i as int));
                assert(tail.skip(i - start + 1) =~= s@.skip(i + 1));
                assert((parts@ + seq![piece]).map_values(|p: String| p@) =~= parts@.map_values(
                    |p: String| p@,
                ) + seq![piece@]);
                assert(parts@.push(piece) =~= parts@ + seq![piece]);
            }
            parts.push(piece);
            start = i + 1;
        }
        i += 1;
    }
    let piece = s.substring_char(start, n).to_owned();
    proof {
        let tail = s@.skip(start as int);
        assert forall|k: int| 0 <= k < tail.len() implies tail[k] != sep by {
            assert(tail[k] == s@[start + k]);
        }
        lemma_split_whole(tail, sep);
        assert(tail =~= s@.subrange(start as int, n as int));
        assert((parts@ + seq![piece]).map_values(|p: String| p@) =~= parts@.map_values(
            |p: String| p@,
        ) + seq![piece@]);
        assert(parts@.push(piece) =~= parts@ + seq![piece]);
    }
    parts.push(piece);
    parts
}

/// Index of the first occurrence of `sep` in `s`, when there is one.
pub fn find_first(s: &str, sep: char) -> (r: Option<usize>)
    ensures
        r matches Some(j) ==> j < s@.len() && first_index(s@, sep) == j,
        r is None ==> first_index(s@, sep) == -1,
{
    let n = s.unicode_len();
    let mut j: usize = 0;
    while j < n
        invariant
            j <= n,
            n == s@.len(),
            forall|k: int| 0 <= k < j ==> s@[k] != sep,
        decreases n - j,
    {
        if s.get_char(j) == sep {
            proof {
                lemma_first_index_at(s@, sep, j as int);
            }
            return Some(j);
        }
        j += 1;
    }
    proof {
        lemma_first_index_none(s@, sep);
    }
    None
}

/// The whitespace characters the upstream feed can carry around a token.
pub open spec fn is_space(c: char) -> bool {
    c == ' ' || c == '\n' || c == '\r' || c == '\t'
}

/// `s` without its leading whitespace.
pub open spec fn spec_trim_start(s: Seq<char>) -> Seq<char>
    decreases s.len(),
{
    if s.len() > 0 && is_space(s[0]) {
        spec_trim_start(s.drop_first())
    } else {
        s
    }
}

/// `s` without its trailing whitespace.
pub open spec fn spec_trim_end(s: Seq<char>) -> Seq<char>
    decreases s.len(),
{
    if s.len() > 0 && is_space(s[s.len() - 1]) {
        spec_trim_end(s.drop_last())
    } else {
        s
    }
}

/// `s` without leading and trailing whitespace.
pub open spec fn spec_trim(s: Seq<char>) -> Seq<char> {
    spec_trim_end(spec_trim_start(s))
}

proof fn lemma_trim_start_at(s: Seq<char>, a: int)
    requires
        0 <= a <= s.len(),
        forall|k: int| 0 <= k < a ==> is_space(s[k]),
        a == s.len() || !is_space(s[a]),
    ensures
        spec_trim_start(s) == s.skip(a),
    decreases a,
{
    if a == 0 {
        assert(s.skip(0) =~= s);
    } else {
        assert(is_space(s[0]));
        assert forall|k: int| 0 <= k < a - 1 implies is_space(s.drop_first()[k]) by {
            assert(s.drop_first()[k] == s[k + 1]);
        }
        if a - 1 < s.drop_first().len() {
            assert(s.drop_first()[a - 1] == s[a]);
        }
        lemma_trim_start_at(s.drop_first(), a - 1);
        assert(s.drop_first().skip(a - 1) =~= s.skip(a));
    }
}

proof fn lemma_trim_end_at(s: Seq<char>, b: int)
    requires
        0 <= b <= s.len(),
        forall|k: int| b <= k < s.len() ==> is_space(s[k]),
        b == 0 || !is_space(s[b - 1]),
    ensures
        spec_trim_end(s) == s.take(b),
    decreases s.len() - b,
{
    if b == s.len() {
        assert(s.take(b) =~= s);
    } else {
        assert(is_space(s[s.len() - 1]));
        lemma_trim_end_at(s.drop_last(), b);
        assert(s.drop_last().take(b) =~= s.take(b));
    }
}

/// Drop the whitespace around `s`.
pub fn trim_str(s: &str) -> (r: String)
    ensures
        r@ == spec_trim(s@),
{
    let n = s.unicode_len();
    let mut a: usize = 0;
    while a < n && is_space_char(s.get_char(a))
        invariant
            a <= n,
            n == s@.len(),
            forall|k: int| 0 <= k < a ==> is_space(s@[k]),
        decreases n - a,
    {
        a += 1;
    }
    let mut b: usize = n;
    while b > a && is_space_char(s.get_char(b - 1))
        invariant
            a <= b <= n,
            n == s@.len(),
            forall|k: int| 0 <= k < a ==> is_space(s@[k]),
            forall|k: int| b <= k < n ==> is_space(s@[k]),
        decreases b,
    {
        b -= 1;
    }
    let r = s.substring_char(a, b).to_owned();
    proof {
        lemma_trim_start_at(s@, a as int);
        let t = s@.skip(a as int);
        assert forall|k: int| b - a <= k < t.len() implies is_space(t[k]) by {
            assert(t[k] == s@[a + k]);
        }
        if b > a {
            assert(t[b - a - 1] == s@[b - 1]);
        }
        lemma_trim_end_at(t, b - a);
        assert(t.take(b - a) =~= s@.subrange(a as int, b as int));
    }
    r
}

/// Does `s` hold exactly the characters of `p` starting at `from`?
pub fn chars_match_at(s: &str, from: usize, p: &str) -> (r: bool)
    requires
        from + p@.len() <= s@.len(),
    ensures
        r == (s@.subrange(from as int, from + p@.len()) =~= p@),
{
    let sn = s.unicode_len();
    let m = p.unicode_len();
    let mut i: usize = 0;
    while i < m
        invariant
            i <= m,
            m == p@.len(),
            sn == s@.len(),
            from + m <= sn,
            forall|k: int| 0 <= k < i ==> s@[from + k] == p@[k],
        decreases m - i,
    {
        if s.get_char(from + i) != p.get_char(i) {
            proof {
                assert(s@.subrange(from as int, from + p@.len())[i as int] != p@[i as int]);
            }
            return false;
        }
        i += 1;
    }
    proof {
        assert(s@.subrange(from as int, from + p@.len()) =~= p@);
    }
    true
}

/// The pieces joined by `sep`: the inverse direction of `spec_split`.
pub open spec fn spec_join(parts: Seq<Seq<char>>, sep: char) -> Seq<char>
    decreases parts.len(),
{
    if parts.len() == 0 {
        Seq::empty()
    } else if parts.len() == 1 {
        parts[0]
    } else {
        spec_join(parts.drop_last(), sep) + seq![sep] + parts.last()
    }
}

/// Join `parts` with a comma, as the batch quote request wants its codes.
pub fn join_comma(parts: &Vec<String>) -> (r: String)
    ensures
        r@ == spec_join(parts@.map_values(|p: String| p@), ','),
{
    let ghost gp = parts@.map_values(|p: String| p@);
    let mut acc = String::new();
    let n = parts.len();
    let mut i: usize = 0;
    proof {
        reveal_strlit(",");
        assert(gp.take(0) =~= Seq::<Seq<char>>::empty());
        assert(acc@ =~= spec_join(gp.take(0), ','));
    }
    while i < n
        invariant
            i <= n,
            n == parts@.len(),
            gp == parts@.map_values(|p: String| p@),
            acc@ == spec_join(gp.take(i as int), ','),
        decreases n - i,
    {
        proof {
            reveal_strlit(",");
            assert(gp[i as int] == parts@[i as int]@);
            assert(gp.take(i + 1).drop_last() =~= gp.take(i as int));
            assert(gp.take(i + 1).last() == gp[i as int]);
        }
        if i > 0 {
            acc.append(",");
            proof {
                assert(","@ =~= seq![',']);
            }
        }
        acc.append(parts[i].as_str());
        proof {
            if i == 0 {
                assert(gp.take(1) =~= seq![gp[0]]);
                assert(acc@ =~= gp[0]);
            }
        }
        i += 1;
    }
    proof {
        assert(gp.take(n as int) =~= gp);
    }
    acc
}

/// Character-for-character string equality.
pub fn str_eq(a: &str, b: &str) -> (r: bool)
    ensures
        r == (a@ == b@),
{
    let an = a.unicode_len();
    let bn = b.unicode_len();
    if an != bn {
        return false;
    }
    let r = chars_match_at(a, 0, b);
    proof {
        assert(a@.subrange(0, b@.len() as int) =~= a@);
        if r {
            assert(a@ =~= b@);
        }
    }
    r
}

/// Executable mirror of `is_space`.
pub fn is_space_char(c: char) -> (r: bool)
    ensures
        r == is_space(c),
{
    c == ' ' || c == '\n' || c == '\r' || c == '\t'
}

} // verus!
