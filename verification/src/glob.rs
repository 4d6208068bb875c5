//! Case-insensitive wildcard masks (`*` for any run of characters, `?` for
//! any one character), as used to select files by mask.
use vstd::prelude::*;
use crate::text::lowercase;

verus! {

/// What remains of a sequence of length `n` after position `k`.
pub open spec fn rest(n: nat, k: int) -> nat {
    if 0 <= k <= n { (n - k) as nat } else { 0 }
}

/// Wildcard matching of the pattern suffix from `j` against the name suffix
/// from `i`: `*` matches any run of characters, `?` any one character, and
/// every other character itself.
pub open spec fn glob_at(p: Seq<char>, s: Seq<char>, j: int, i: int) -> bool
    decreases rest(p.len(), j) + rest(s.len(), i),
{
    if j < 0 || i < 0 || j >= p.len() {
        j >= p.len() && i >= s.len()
    } else if p[j] == '*' {
        glob_at(p, s, j + 1, i) || (i < s.len() && glob_at(p, s, j, i + 1))
    } else {
        i < s.len() && (p[j] == '?' || p[j] == s[i]) && glob_at(p, s, j + 1, i + 1)
    }
}

/// The whole name matches the whole pattern.
pub open spec fn glob(p: Seq<char>, s: Seq<char>) -> bool {
    glob_at(p, s, 0, 0)
}

/// Every pattern character from `j` on is `*`.
pub open spec fn only_stars_from(p: Seq<char>, j: int) -> bool {
    forall|k: int| j <= k < p.len() ==> p[k] == '*'
}

/// The state of the matcher: positions in the name (`i`) and pattern (`j`),
/// the last `*` seen in the pattern and the name position it was tried at.
pub open spec fn run_ok(p: Seq<char>, s: Seq<char>, i: int, j: int, star: Option<int>, mark: int) -> bool {
    &&& 0 <= mark <= i <= s.len()
    &&& 0 <= j <= p.len()
    &&& star matches Some(sj) ==> 0 <= sj < j
}

/// The single-backtrack matcher: it advances on a matching character,
/// remembers the last `*` of the pattern, and on a mismatch retries that
/// `*` one name character further on. A pattern `*` facing a `*` in the
/// name is taken as a plain character.
pub open spec fn run(p: Seq<char>, s: Seq<char>, i: int, j: int, star: Option<int>, mark: int) -> bool
    decreases rest(s.len(), mark), rest(s.len(), i), rest(p.len(), j),
    when run_ok(p, s, i, j, star, mark)
{
    if i < s.len() {
        if j < p.len() && (p[j] == '?' || p[j] == s[i]) {
            run(p, s, i + 1, j + 1, star, mark)
        } else if j < p.len() && p[j] == '*' {
            run(p, s, i, j + 1, Some(j), i)
        } else if let Some(sj) = star {
            run(p, s, mark + 1, sj + 1, star, mark + 1)
        } else {
            false
        }
    } else {
        only_stars_from(p, j)
    }
}

/// What the mask matcher answers for a pattern and a name, both already
/// lowercased.
pub open spec fn mask_matches(p: Seq<char>, s: Seq<char>) -> bool {
    run(p, s, 0, 0, None, 0)
}

/// Matches the characters of a name against the characters of a pattern.
pub fn glob_match_chars(p: &[char], s: &[char]) -> (res: bool)
    ensures
        res == mask_matches(p@, s@),
{
    let mut i: usize = 0;
    let mut j: usize = 0;
    let mut star: Option<usize> = None;
    let mut mark: usize = 0;
    while i < s.len()
        invariant
            run_ok(p@, s@, i as int, j as int, match star { Some(x) => Some(x as int), None => None }, mark as int),
            run(p@, s@, 0, 0, None, 0) == run(p@, s@, i as int, j as int, match star { Some(x) => Some(x as int), None => None }, mark as int),
        decreases s.len() - mark, s.len() - i, p.len() - j,
    {
        if j < p.len() && (p[j] == '?' || p[j] == s[i]) {
            i += 1;
            j += 1;
        } else if j < p.len() && p[j] == '*' {
            star = Some(j);
            mark = i;
            j += 1;
        } else if let Some(sj) = star {
            j = sj + 1;
            mark += 1;
            i = mark;
        } else {
            return false;
        }
    }
    while j < p.len() && p[j] == '*'
        invariant
            i >= s.len(),
            run_ok(p@, s@, i as int, j as int, match star { Some(x) => Some(x as int), None => None }, mark as int),
            run(p@, s@, 0, 0, None, 0) == only_stars_from(p@, j as int),
        decreases p.len() - j,
    {
        j += 1;
    }
    j == p.len()
}

/// Whether a file name matches a selection mask, ignoring case, as
/// `str::to_lowercase` folds it.
pub fn glob_match(pattern: &str, name: &str) -> (res: bool)
    ensures
        res == mask_matches(lowercase(pattern@), lowercase(name@)),
{
    let lp = crate::text::to_lowercase(pattern);
    let ls = crate::text::to_lowercase(name);
    let p = crate::text::chars_of(lp.as_str());
    let s = crate::text::chars_of(ls.as_str());
    glob_match_chars(p.as_slice(), s.as_slice())
}

// ---------------------------------------------------------------------------
// The matcher is exact wildcard matching for names without `*`
// ---------------------------------------------------------------------------

/// The `n` pattern characters from `a` hold no `*` and match the name
/// characters from `b` one for one.
pub open spec fn seg_match(p: Seq<char>, s: Seq<char>, a: int, b: int, n: int) -> bool {
    forall|t: int| 0 <= t < n ==> #[trigger] char_ok(p, s, a, b, t)
}

/// Pattern character `a + t` is not `*` and matches name character `b + t`.
pub open spec fn char_ok(p: Seq<char>, s: Seq<char>, a: int, b: int, t: int) -> bool {
    p[a + t] != '*' && (p[a + t] == '?' || p[a + t] == s[b + t])
}

/// Pattern character `a + t` is not `*`.
pub open spec fn not_star_at(p: Seq<char>, a: int, t: int) -> bool {
    p[a + t] != '*'
}

/// The name holds no `*`.
pub open spec fn no_star(s: Seq<char>) -> bool {
    forall|k: int| 0 <= k < s.len() ==> s[k] != '*'
}

proof fn lemma_at_end(p: Seq<char>, s: Seq<char>, j: int)
    requires
        0 <= j <= p.len(),
    ensures
        glob_at(p, s, j, s.len() as int) == only_stars_from(p, j),
    decreases p.len() - j,
{
    if j < p.len() {
        lemma_at_end(p, s, j + 1);
    }
}

proof fn lemma_absorb(p: Seq<char>, s: Seq<char>, a: int, b: int, k: int)
    requires
        0 <= a < p.len(),
        p[a] == '*',
        0 <= b <= k <= s.len(),
        glob_at(p, s, a, k),
    ensures
        glob_at(p, s, a, b),
    decreases k - b,
{
    if b < k {
        lemma_absorb(p, s, a, b + 1, k);
    }
}

proof fn lemma_segment(p: Seq<char>, s: Seq<char>, a: int, b: int, n: int)
    requires
        0 <= a,
        0 <= b <= s.len(),
        0 <= n,
        a + n <= p.len(),
        forall|t: int| 0 <= t < n ==> #[trigger] not_star_at(p, a, t),
    ensures
        glob_at(p, s, a, b) == (b + n <= s.len() && seg_match(p, s, a, b, n) && glob_at(p, s, a + n, b + n)),
    decreases n,
{
    if n > 0 {
        if b < s.len() {
            assert forall|t: int| 0 <= t < n - 1 implies #[trigger] not_star_at(p, a + 1, t) by {
                assert(not_star_at(p, a, t + 1));
            }
            assert(not_star_at(p, a, 0));
            lemma_segment(p, s, a + 1, b + 1, n - 1);
            if glob_at(p, s, a, b) {
                assert forall|t: int| 0 <= t < n implies #[trigger] char_ok(p, s, a, b, t) by {
                    if t > 0 {
                        assert(char_ok(p, s, a + 1, b + 1, t - 1));
                    }
                }
            }
            if b + n <= s.len() && seg_match(p, s, a, b, n) && glob_at(p, s, a + n, b + n) {
                assert(char_ok(p, s, a, b, 0));
                assert forall|t: int| 0 <= t < n - 1 implies #[trigger] char_ok(p, s, a + 1, b + 1, t) by {
                    assert(char_ok(p, s, a, b, t + 1));
                }
            }
        } else {
            assert(not_star_at(p, a, 0));
        }
    }
}

proof fn lemma_star_segment(p: Seq<char>, s: Seq<char>, sj: int, mark: int, n: int, m: int)
    requires
        0 <= sj,
        sj + 1 + n < p.len(),
        p[sj] == '*',
        p[sj + 1 + n] == '*',
        0 <= n,
        forall|t: int| 0 <= t < n ==> #[trigger] not_star_at(p, sj + 1, t),
        0 <= mark <= m <= s.len(),
        mark + n <= s.len(),
        glob_at(p, s, sj, m),
    ensures
        glob_at(p, s, sj + 1 + n, mark + n),
    decreases s.len() - m,
{
    lemma_segment(p, s, sj + 1, m, n);
    if glob_at(p, s, sj + 1, m) {
        lemma_absorb(p, s, sj + 1 + n, mark + n, m + n);
    } else {
        lemma_star_segment(p, s, sj, mark, n, m + 1);
    }
}

proof fn lemma_star_segment_end(p: Seq<char>, s: Seq<char>, sj: int, mark: int, n: int, m: int)
    requires
        0 <= sj,
        sj + 1 + n <= p.len(),
        p[sj] == '*',
        0 <= n,
        forall|t: int| 0 <= t < n ==> #[trigger] not_star_at(p, sj + 1, t),
        0 <= mark <= m <= s.len(),
        mark + n == s.len(),
        glob_at(p, s, sj, m),
    ensures
        glob_at(p, s, sj + 1 + n, s.len() as int),
    decreases s.len() - m,
{
    lemma_segment(p, s, sj + 1, m, n);
    if glob_at(p, s, sj + 1, m) {
    } else {
        lemma_star_segment_end(p, s, sj, mark, n, m + 1);
    }
}

/// What the matcher state promises about the whole match.
pub open spec fn run_inv(p: Seq<char>, s: Seq<char>, i: int, j: int, star: Option<int>, mark: int) -> bool {
    match star {
        None => glob(p, s) == glob_at(p, s, j, i),
        Some(sj) => {
            &&& p[sj] == '*'
            &&& j - (sj + 1) == i - mark
            &&& seg_match(p, s, sj + 1, mark, j - (sj + 1))
            &&& glob(p, s) == glob_at(p, s, sj, mark)
        },
    }
}

proof fn lemma_run_is_glob(p: Seq<char>, s: Seq<char>, i: int, j: int, star: Option<int>, mark: int)
    requires
        run_ok(p, s, i, j, star, mark),
        no_star(s),
        run_inv(p, s, i, j, star, mark),
    ensures
        run(p, s, i, j, star, mark) == glob(p, s),
    decreases rest(s.len(), mark), rest(s.len(), i), rest(p.len(), j),
{
    if i < s.len() {
        if j < p.len() && (p[j] == '?' || p[j] == s[i]) {
            assert(p[j] != '*');
            if let Some(sj) = star {
                assert forall|t: int| 0 <= t < j + 1 - (sj + 1) implies #[trigger] char_ok(p, s, sj + 1, mark, t) by {
                    if t < j - (sj + 1) {
                    } else {
                        assert(sj + 1 + t == j);
                        assert(mark + t == i);
                    }
                }
            }
            lemma_run_is_glob(p, s, i + 1, j + 1, star, mark);
        } else if j < p.len() && p[j] == '*' {
            if let Some(sj) = star {
                let n = j - (sj + 1);
                assert forall|t: int| 0 <= t < n implies #[trigger] not_star_at(p, sj + 1, t) by {
                    assert(char_ok(p, s, sj + 1, mark, t));
                }
                lemma_segment(p, s, sj + 1, mark, n);
                if glob_at(p, s, sj, mark) {
                    lemma_star_segment(p, s, sj, mark, n, mark);
                }
                if glob_at(p, s, j, i) {
                    assert(glob_at(p, s, sj + 1, mark));
                }
            }
            lemma_run_is_glob(p, s, i, j + 1, Some(j), i);
        } else if let Some(sj) = star {
            let n = j - (sj + 1);
            assert forall|t: int| 0 <= t < n implies #[trigger] not_star_at(p, sj + 1, t) by {
                assert(char_ok(p, s, sj + 1, mark, t));
            }
            lemma_segment(p, s, sj + 1, mark, n);
            assert(!glob_at(p, s, j, i));
            assert(!glob_at(p, s, sj + 1, mark));
            lemma_run_is_glob(p, s, mark + 1, sj + 1, star, mark + 1);
        } else {
            assert(!glob_at(p, s, j, i));
        }
    } else {
        lemma_at_end(p, s, j);
        if let Some(sj) = star {
            let n = j - (sj + 1);
            assert forall|t: int| 0 <= t < n implies #[trigger] not_star_at(p, sj + 1, t) by {
                assert(char_ok(p, s, sj + 1, mark, t));
            }
            lemma_segment(p, s, sj + 1, mark, n);
            if glob_at(p, s, sj, mark) {
                lemma_star_segment_end(p, s, sj, mark, n, mark);
            }
            if glob_at(p, s, j, i) {
                assert(glob_at(p, s, sj + 1, mark));
            }
        }
    }
}

/// For names without `*` the mask matcher is exact wildcard matching: `*`
/// stands for any run of characters and `?` for any one character.
pub proof fn lemma_mask_is_wildcard_match(p: Seq<char>, s: Seq<char>)
    requires
        no_star(s),
    ensures
        mask_matches(p, s) == glob(p, s),
{
    lemma_run_is_glob(p, s, 0, 0, None, 0);
}

} // verus!
