//! Verified text utilities: substring search, occurrence counting,
//! ASCII-case-insensitive search, whitespace tokens and line scanning.

use vstd::prelude::*;

verus! {

/// The needle `n` occurs in `h` starting at index `i`.
pub open spec fn match_at(h: Seq<char>, n: Seq<char>, i: int) -> bool {
    0 <= i && i + n.len() <= h.len() && h.subrange(i, i + n.len() as int) == n
}

/// The needle `n` occurs somewhere in `h`.
pub open spec fn contains_seq(h: Seq<char>, n: Seq<char>) -> bool {
    exists|i: int| match_at(h, n, i)
}

/// `n` is a prefix of `h`.
pub open spec fn prefix_of(h: Seq<char>, n: Seq<char>) -> bool {
    match_at(h, n, 0)
}

/// Compares `h[i .. i + n.len())` with `n`, character by character.
fn eq_at(h: &str, n: &str, i: usize) -> (r: bool)
    requires
        i + n@.len() <= h@.len(),
        h@.len() <= usize::MAX,
    ensures
        r == match_at(h@, n@, i as int),
{
    let n_len: usize = n.unicode_len();
    let mut j: usize = 0;
    while j < n_len
        invariant
            j <= n_len,
            n_len == n@.len(),
            i + n_len <= h@.len(),
            h@.len() <= usize::MAX,
            forall|k: int| 0 <= k < j ==> h@[i + k] == n@[k],
        decreases n_len - j,
    {
        if h.get_char(i + j) != n.get_char(j) {
            assert(!match_at(h@, n@, i as int)) by {
                assert(h@.subrange(i as int, i + n@.len()) =~= n@ ==> h@[i + j] == n@[j as int]);
            }
            return false;
        }
        j = j + 1;
    }
    assert(h@.subrange(i as int, i + n@.len()) =~= n@);
    true
}

/// Index of the first occurrence of `n` in `h`, if any.
pub fn find_substr(h: &str, n: &str) -> (r: Option<usize>)
    ensures
        h@.len() <= usize::MAX,
        match r {
            Some(i) => match_at(h@, n@, i as int) && forall|j: int|
                0 <= j < i ==> !match_at(h@, n@, j),
            None => !contains_seq(h@, n@),
        },
{
    let h_len: usize = h.unicode_len();
    let n_len: usize = n.unicode_len();
    if n_len > h_len {
        assert(forall|i: int| !match_at(h@, n@, i));
        return None;
    }
    if n_len == 0 {
        assert(match_at(h@, n@, 0)) by {
            assert(h@.subrange(0, 0) =~= n@);
        }
        return Some(0);
    }
    let mut i: usize = 0;
    while i <= h_len - n_len
        invariant
            h_len == h@.len(),
            n_len == n@.len(),
            1 <= n_len <= h_len,
            i <= h_len - n_len + 1,
            forall|j: int| 0 <= j < i ==> !match_at(h@, n@, j),
        decreases h_len - i,
    {
        if eq_at(h, n, i) {
            return Some(i);
        }
        i = i + 1;
    }
    assert(!contains_seq(h@, n@)) by {
        assert(forall|j: int| match_at(h@, n@, j) ==> 0 <= j <= h@.len() - n@.len());
    }
    None
}

/// Whether `n` occurs in `h`.
pub fn contains_substr(h: &str, n: &str) -> (r: bool)
    ensures
        r == contains_seq(h@, n@),
{
    find_substr(h, n).is_some()
}

/// Number of non-overlapping occurrences of `n` in `h`, counted from
/// the left, the way `str::matches` walks a string.
pub open spec fn match_count(h: Seq<char>, n: Seq<char>) -> nat
    decreases h.len(),
{
    if n.len() == 0 {
        0
    } else if h.len() < n.len() {
        0
    } else if h.subrange(0, n.len() as int) == n {
        1 + match_count(h.skip(n.len() as int), n)
    } else {
        match_count(h.skip(1), n)
    }
}

/// Counts the non-overlapping occurrences of `n` in `h`.
pub fn count_matches(h: &str, n: &str) -> (r: usize)
    ensures
        r == match_count(h@, n@),
{
    let h_len: usize = h.unicode_len();
    let n_len: usize = n.unicode_len();
    if n_len == 0 || n_len > h_len {
        return 0;
    }
    let mut i: usize = 0;
    let mut count: usize = 0;
    proof {
        assert(h@.skip(0) =~= h@);
    }
    while h_len - i >= n_len
        invariant
            h_len == h@.len(),
            n_len == n@.len(),
            1 <= n_len <= h_len,
            i <= h_len,
            count <= i,
            count + match_count(h@.skip(i as int), n@) == match_count(h@, n@),
        decreases h_len - i,
    {
        let hit = eq_at(h, n, i);
        proof {
            assert(h@.skip(i as int).subrange(0, n@.len() as int) =~= h@.subrange(
                i as int,
                i + n@.len(),
            ));
        }
        if hit {
            proof {
                assert(h@.skip(i as int).skip(n@.len() as int) =~= h@.skip(i + n@.len()));
            }
            count = count + 1;
            i = i + n_len;
        } else {
            proof {
                assert(h@.skip(i as int).skip(1) =~= h@.skip(i + 1));
            }
            i = i + 1;
        }
    }
    assert(match_count(h@.skip(i as int), n@) == 0);
    count
}

/// The character code of `c` with ASCII upper-case letters folded to
/// lower case; other characters keep their own code.
pub open spec fn lower_code(c: char) -> int {
    if 65 <= c as int <= 90 {
        c as int + 32
    } else {
        c as int
    }
}

/// `n` occurs in `h` at index `i` when ASCII upper-case letters of `h`
/// are folded to lower case; `n` is taken as written.
pub open spec fn ci_match_at(h: Seq<char>, n: Seq<char>, i: int) -> bool {
    0 <= i && i + n.len() <= h.len() && forall|k: int|
        0 <= k < n.len() ==> lower_code(h[i + k]) == n[k] as int
}

/// `n` occurs somewhere in `h` under ASCII case folding of `h`.
pub open spec fn ci_contains(h: Seq<char>, n: Seq<char>) -> bool {
    exists|i: int| ci_match_at(h, n, i)
}

/// Folds an ASCII upper-case letter to its lower-case code.
pub fn lower_code_of(c: char) -> (r: u32)
    ensures
        r == lower_code(c),
{
    let u = c as u32;
    if 65 <= u && u <= 90 {
        u + 32
    } else {
        u
    }
}

/// Compares `h[i ..]` with `n` under ASCII case folding of `h`.
fn ci_eq_at(h: &str, n: &str, i: usize) -> (r: bool)
    requires
        i + n@.len() <= h@.len(),
        h@.len() <= usize::MAX,
    ensures
        r == ci_match_at(h@, n@, i as int),
{
    let n_len: usize = n.unicode_len();
    let mut j: usize = 0;
    while j < n_len
        invariant
            j <= n_len,
            n_len == n@.len(),
            i + n_len <= h@.len(),
            h@.len() <= usize::MAX,
            forall|k: int| 0 <= k < j ==> lower_code(h@[i + k]) == n@[k] as int,
        decreases n_len - j,
    {
        if lower_code_of(h.get_char(i + j)) != n.get_char(j) as u32 {
            return false;
        }
        j = j + 1;
    }
    true
}

/// Whether `n` occurs in `h` under ASCII case folding of `h`.
pub fn ci_contains_substr(h: &str, n: &str) -> (r: bool)
    ensures
        r == ci_contains(h@, n@),
{
    let h_len: usize = h.unicode_len();
    let n_len: usize = n.unicode_len();
    if n_len > h_len {
        assert(forall|i: int| !ci_match_at(h@, n@, i));
        return false;
    }
    if n_len == 0 {
        assert(ci_match_at(h@, n@, 0));
        return true;
    }
    let mut i: usize = 0;
    while i <= h_len - n_len
        invariant
            h_len == h@.len(),
            n_len == n@.len(),
            1 <= n_len <= h_len,
            i <= h_len - n_len + 1,
            forall|j: int| 0 <= j < i ==> !ci_match_at(h@, n@, j),
        decreases h_len - i,
    {
        if ci_eq_at(h, n, i) {
            return true;
        }
        i = i + 1;
    }
    assert(!ci_contains(h@, n@)) by {
        assert(forall|j: int| ci_match_at(h@, n@, j) ==> 0 <= j <= h@.len() - n@.len());
    }
    false
}

/// Whether `h` starts with `n`.
pub fn starts_with_str(h: &str, n: &str) -> (r: bool)
    ensures
        r == prefix_of(h@, n@),
{
    let h_len: usize = h.unicode_len();
    let n_len: usize = n.unicode_len();
    if n_len > h_len {
        return false;
    }
    eq_at(h, n, 0)
}

/// ASCII whitespace: space, tab, carriage return, line feed.
pub open spec fn is_space(c: char) -> bool {
    c as int == 32 || c as int == 9 || c as int == 13 || c as int == 10
}

/// `l[i .. j)` is a maximal non-empty run of non-whitespace characters.
pub open spec fn token_at(l: Seq<char>, i: int, j: int) -> bool {
    0 <= i < j <= l.len() && (forall|k: int| i <= k < j ==> !is_space(l[k])) && (i == 0
        || is_space(l[i - 1])) && (j == l.len() || is_space(l[j]))
}

/// `[i1, j1)` and `[i2, j2)` bound the first and second token of `l`.
pub open spec fn second_token_bounds(l: Seq<char>, i1: int, j1: int, i2: int, j2: int) -> bool {
    token_at(l, i1, j1) && token_at(l, i2, j2) && j1 <= i2 && (forall|k: int|
        0 <= k < i1 ==> is_space(l[k])) && (forall|k: int| j1 <= k < i2 ==> is_space(l[k]))
}

/// `t` is the second whitespace-separated token of `l`.
pub open spec fn is_second_token(l: Seq<char>, t: Seq<char>) -> bool {
    exists|i1: int, j1: int, i2: int, j2: int|
        second_token_bounds(l, i1, j1, i2, j2) && t == l.subrange(i2, j2)
}

/// `l` has at least two whitespace-separated tokens.
pub open spec fn has_second_token(l: Seq<char>) -> bool {
    exists|t: Seq<char>| is_second_token(l, t)
}

/// Whether `c` is ASCII whitespace.
fn is_space_char(c: char) -> (r: bool)
    ensures
        r == is_space(c),
{
    let u = c as u32;
    u == 32 || u == 9 || u == 13 || u == 10
}

/// First index at or after `from` that does not hold whitespace.
fn skip_spaces_from(l: &str, from: usize) -> (r: usize)
    requires
        from <= l@.len(),
        l@.len() <= usize::MAX,
    ensures
        from <= r <= l@.len(),
        forall|k: int| from <= k < r ==> is_space(l@[k]),
        r == l@.len() || !is_space(l@[r as int]),
{
    let len: usize = l.unicode_len();
    let mut i: usize = from;
    loop
        invariant
            from <= i <= len,
            len == l@.len(),
            forall|k: int| from <= k < i ==> is_space(l@[k]),
        ensures
            from <= i <= len,
            forall|k: int| from <= k < i ==> is_space(l@[k]),
            i == len || !is_space(l@[i as int]),
        decreases len - i,
    {
        if i >= len {
            break ;
        }
        if !is_space_char(l.get_char(i)) {
            break ;
        }
        i = i + 1;
    }
    i
}

/// First index at or after `from` that holds whitespace.
fn skip_token_from(l: &str, from: usize) -> (r: usize)
    requires
        from <= l@.len(),
        l@.len() <= usize::MAX,
    ensures
        from <= r <= l@.len(),
        forall|k: int| from <= k < r ==> !is_space(l@[k]),
        r == l@.len() || is_space(l@[r as int]),
{
    let len: usize = l.unicode_len();
    let mut i: usize = from;
    loop
        invariant
            from <= i <= len,
            len == l@.len(),
            forall|k: int| from <= k < i ==> !is_space(l@[k]),
        ensures
            from <= i <= len,
            forall|k: int| from <= k < i ==> !is_space(l@[k]),
            i == len || is_space(l@[i as int]),
        decreases len - i,
    {
        if i >= len {
            break ;
        }
        if is_space_char(l.get_char(i)) {
            break ;
        }
        i = i + 1;
    }
    i
}

/// The second whitespace-separated token of `l`, if `l` has one.
pub fn second_token(l: &str) -> (r: Option<String>)
    ensures
        match r {
            Some(t) => is_second_token(l@, t@),
            None => !has_second_token(l@),
        },
{
    let len: usize = l.unicode_len();
    let i1 = skip_spaces_from(l, 0);
    let j1 = skip_token_from(l, i1);
    if j1 == i1 {
        proof {
            lemma_no_token_no_second(l@, i1 as int);
        }
        return None;
    }
    let i2 = skip_spaces_from(l, j1);
    let j2 = skip_token_from(l, i2);
    if j2 == i2 {
        proof {
            lemma_one_token_no_second(l@, i1 as int, j1 as int);
        }
        return None;
    }
    let tok = l.substring_char(i2, j2);
    let out = tok.to_owned();
    proof {
        assert(second_token_bounds(l@, i1 as int, j1 as int, i2 as int, j2 as int));
        assert(is_second_token(l@, out@));
    }
    Some(out)
}

/// A string of whitespace alone has no second token.
proof fn lemma_no_token_no_second(l: Seq<char>, e: int)
    requires
        e == l.len(),
        forall|k: int| 0 <= k < e ==> is_space(l[k]),
    ensures
        !has_second_token(l),
{
    assert forall|t: Seq<char>| !is_second_token(l, t) by {
        if is_second_token(l, t) {
            let (i1, j1, i2, j2): (int, int, int, int) = choose|i1: int, j1: int, i2: int, j2: int|
                second_token_bounds(l, i1, j1, i2, j2) && t == l.subrange(i2, j2);
            assert(!is_space(l[i1]));
        }
    }
}

/// A string whose only non-whitespace run is `[i1, j1)` has no second
/// token.
proof fn lemma_one_token_no_second(l: Seq<char>, i1: int, j1: int)
    requires
        0 <= i1 < j1 <= l.len(),
        forall|k: int| 0 <= k < i1 ==> is_space(l[k]),
        forall|k: int| i1 <= k < j1 ==> !is_space(l[k]),
        forall|k: int| j1 <= k < l.len() ==> is_space(l[k]),
    ensures
        !has_second_token(l),
{
    assert forall|t: Seq<char>| !is_second_token(l, t) by {
        if is_second_token(l, t) {
            let (a1, b1, a2, b2): (int, int, int, int) = choose|a1: int, b1: int, a2: int, b2: int|
                second_token_bounds(l, a1, b1, a2, b2) && t == l.subrange(a2, b2);
            assert(!is_space(l[a1]));
            assert(!is_space(l[a2]));
            assert(i1 <= a1 < j1);
            assert(i1 <= a2 < j1);
            assert(a1 < b1 <= a2 < j1);
            assert(b1 < l.len());
            assert(is_space(l[b1]));
            assert(!is_space(l[b1]));
        }
    }
}

/// `[a, b)` spans one line of `s`: `a` stands at the start or right
/// after a newline, `b` on the next newline or at the end.
pub open spec fn line_at(s: Seq<char>, a: int, b: int) -> bool {
    0 <= a <= b <= s.len() && (a == 0 || s[a - 1] == '\n') && (b == s.len() || s[b] == '\n') && (
    forall|k: int| a <= k < b ==> s[k] != '\n')
}

/// First index at or after `from` that holds a newline.
pub fn find_newline_from(s: &str, from: usize) -> (r: usize)
    requires
        from <= s@.len(),
        s@.len() <= usize::MAX,
    ensures
        from <= r <= s@.len(),
        forall|k: int| from <= k < r ==> s@[k] != '\n',
        r == s@.len() || s@[r as int] == '\n',
{
    let len: usize = s.unicode_len();
    let mut i: usize = from;
    loop
        invariant
            from <= i <= len,
            len == s@.len(),
            forall|k: int| from <= k < i ==> s@[k] != '\n',
        ensures
            from <= i <= len,
            forall|k: int| from <= k < i ==> s@[k] != '\n',
            i == len || s@[i as int] == '\n',
        decreases len - i,
    {
        if i >= len {
            break ;
        }
        if s.get_char(i) == '\n' {
            break ;
        }
        i = i + 1;
    }
    i
}

} // verus!
