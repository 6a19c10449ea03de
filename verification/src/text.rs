//! Character-level text helpers: ASCII case folding, whitespace trimming,
//! case-insensitive substring search, and splitting at a first occurrence.

use vstd::prelude::*;

verus! {

/// `c` is an ASCII upper-case letter `A`..=`Z`.
pub open spec fn is_ascii_upper(c: char) -> bool {
    65 <= c as u32 && c as u32 <= 90
}

/// Code point of the ASCII-lowercased form of `c`: letters `A`..=`Z` map to
/// `a`..=`z`, every other character keeps its own code point.
pub open spec fn lower_code(c: char) -> u32 {
    if is_ascii_upper(c) {
        (c as u32 + 32) as u32
    } else {
        c as u32
    }
}

/// ASCII-lowercased form of `c`.
pub open spec fn lower_char(c: char) -> char {
    lower_code(c) as char
}

/// ASCII-lowercased form of a character sequence.
pub open spec fn lower_seq(s: Seq<char>) -> Seq<char> {
    s.map_values(|c: char| lower_char(c))
}

/// `c` is ASCII whitespace: space, tab, line feed, vertical tab, form feed,
/// or carriage return.
pub open spec fn is_space(c: char) -> bool {
    c as u32 == 32 || c as u32 == 9 || c as u32 == 10 || c as u32 == 11 || c as u32 == 12
        || c as u32 == 13
}

/// `s` with leading whitespace removed.
pub open spec fn trim_front(s: Seq<char>) -> Seq<char>
    decreases s.len(),
{
    if s.len() > 0 && is_space(s[0]) {
        trim_front(s.drop_first())
    } else {
        s
    }
}

/// `s` with trailing whitespace removed.
pub open spec fn trim_back(s: Seq<char>) -> Seq<char>
    decreases s.len(),
{
    if s.len() > 0 && is_space(s[s.len() - 1]) {
        trim_back(s.drop_last())
    } else {
        s
    }
}

/// `s` with surrounding whitespace removed.
pub open spec fn trim_seq(s: Seq<char>) -> Seq<char> {
    trim_back(trim_front(s))
}

/// The characters of `pat` occur in `s` at offset `i`, compared
/// case-insensitively (ASCII case folding on both sides).
pub open spec fn matches_ci_at(s: Seq<char>, pat: Seq<char>, i: int) -> bool {
    &&& 0 <= i
    &&& i + pat.len() <= s.len()
    &&& forall|j: int| 0 <= j < pat.len() ==> lower_code(s[i + j]) == lower_code(pat[j])
}

/// Index of the first case-insensitive occurrence of `pat` in `s` at or after
/// offset `i`, or `-1` if there is none.
pub open spec fn find_ci_from(s: Seq<char>, pat: Seq<char>, i: int) -> int
    decreases s.len() - i,
{
    if i + pat.len() > s.len() {
        -1
    } else if matches_ci_at(s, pat, i) {
        i
    } else {
        find_ci_from(s, pat, i + 1)
    }
}

/// Index of the first case-insensitive occurrence of `pat` in `s`, or `-1`.
pub open spec fn find_ci(s: Seq<char>, pat: Seq<char>) -> int {
    find_ci_from(s, pat, 0)
}

/// `s` contains `pat`, compared case-insensitively.
pub open spec fn contains_ci(s: Seq<char>, pat: Seq<char>) -> bool {
    find_ci(s, pat) >= 0
}

/// What `find_ci_from` returns is the first match at or after `k`: a `-1`
/// means no offset from `k` on matches, and a nonnegative result matches with
/// nothing matching before it.
pub proof fn lemma_find_ci_from_props(s: Seq<char>, pat: Seq<char>, k: int)
    ensures
        find_ci_from(s, pat, k) == -1 ==> forall|i: int| k <= i ==> !matches_ci_at(s, pat, i),
        find_ci_from(s, pat, k) != -1 ==> k <= find_ci_from(s, pat, k) && matches_ci_at(
            s,
            pat,
            find_ci_from(s, pat, k),
        ) && forall|i: int| k <= i < find_ci_from(s, pat, k) ==> !matches_ci_at(s, pat, i),
    decreases s.len() - k,
{
    if k + pat.len() > s.len() {
        assert forall|i: int| k <= i implies !matches_ci_at(s, pat, i) by {}
    } else if matches_ci_at(s, pat, k) {
    } else {
        lemma_find_ci_from_props(s, pat, k + 1);
    }
}

/// Case folding does not change where a pattern occurs.
pub proof fn lemma_find_ci_lower(s: Seq<char>, pat: Seq<char>, k: int)
    ensures
        find_ci_from(lower_seq(s), pat, k) == find_ci_from(s, pat, k),
    decreases s.len() - k,
{
    assert(lower_seq(s).len() == s.len());
    assert forall|i: int| matches_ci_at(lower_seq(s), pat, i) == matches_ci_at(s, pat, i) by {
        lemma_matches_ci_lower(s, pat, i);
    }
    if k + pat.len() > s.len() {
    } else if matches_ci_at(s, pat, k) {
    } else {
        lemma_find_ci_lower(s, pat, k + 1);
    }
}

proof fn lemma_matches_ci_lower(s: Seq<char>, pat: Seq<char>, i: int)
    ensures
        matches_ci_at(lower_seq(s), pat, i) == matches_ci_at(s, pat, i),
{
    let l = lower_seq(s);
    assert(l.len() == s.len());
    if matches_ci_at(s, pat, i) {
        assert forall|j: int| 0 <= j < pat.len() implies lower_code(l[i + j]) == lower_code(
            pat[j],
        ) by {
            lemma_lower_code_idempotent(s[i + j]);
        }
    }
    if matches_ci_at(l, pat, i) {
        assert forall|j: int| 0 <= j < pat.len() implies lower_code(s[i + j]) == lower_code(
            pat[j],
        ) by {
            lemma_lower_code_idempotent(s[i + j]);
        }
    }
}

/// Folding a character twice folds it once.
pub proof fn lemma_lower_code_idempotent(c: char)
    ensures
        lower_code(lower_char(c)) == lower_code(c),
        !is_ascii_upper(lower_char(c)),
        lower_char(c) as u32 == lower_code(c),
{
    vstd::utf8::char_is_scalar(c);
    lemma_u32_char_roundtrip(lower_code(c));
}

/// A Unicode scalar value casts to a `char` and back unchanged.
proof fn lemma_u32_char_roundtrip(u: u32)
    requires
        vstd::utf8::is_scalar(u),
    ensures
        (u as char) as u32 == u,
{
    vstd::utf8::char_u32_cast(u as char, (u as char) as u32);
}

// ---------------------------------------------------------------------------
// Executable counterparts
// ---------------------------------------------------------------------------
/// Relies on `String::push` of std: appends exactly one character.
#[verifier::external_body]
pub fn push_char(s: &mut String, c: char)
    ensures
        final (s)@ == old(s)@.push(c),
{
    s.push(c);
}

pub fn is_space_exec(c: char) -> (r: bool)
    ensures
        r == is_space(c),
{
    let u = c as u32;
    u == 32 || u == 9 || u == 10 || u == 11 || u == 12 || u == 13
}

pub fn lower_char_exec(c: char) -> (r: char)
    ensures
        r == lower_char(c),
{
    let code = c as u32;
    proof {
        vstd::utf8::char_u32_cast(c, code);
    }
    if 65 <= code && code <= 90 {
        let b: u8 = (code + 32) as u8;
        b as char
    } else {
        c
    }
}

pub fn lower_code_exec(c: char) -> (r: u32)
    ensures
        r == lower_code(c),
{
    let code = c as u32;
    if 65 <= code && code <= 90 {
        code + 32
    } else {
        code
    }
}

/// ASCII-lowercase a string.
pub fn to_ascii_lower(s: &str) -> (r: String)
    ensures
        r@ == lower_seq(s@),
{
    let n = s.unicode_len();
    let mut out = String::new();
    let mut i: usize = 0;
    while i < n
        invariant
            i <= n,
            n == s@.len(),
            out@ == lower_seq(s@).take(i as int),
        decreases n - i,
    {
        let c = s.get_char(i);
        let lc = lower_char_exec(c);
        push_char(&mut out, lc);
        proof {
            assert(lower_seq(s@).take(i as int).push(lower_char(s@[i as int])) =~= lower_seq(
                s@,
            ).take(i + 1 as int));
        }
        i = i + 1;
    }
    proof {
        assert(lower_seq(s@).take(n as int) =~= lower_seq(s@));
    }
    out
}

proof fn lemma_trim_front_skip(s: Seq<char>, i: int)
    requires
        0 <= i <= s.len(),
        forall|j: int| 0 <= j < i ==> is_space(s[j]),
        i == s.len() || !is_space(s[i]),
    ensures
        trim_front(s) == s.skip(i),
    decreases i,
{
    if i == 0 {
        assert(s.skip(0) =~= s);
    } else {
        let s1 = s.drop_first();
        assert(s1 =~= s.skip(1));
        lemma_trim_front_skip(s1, i - 1);
        assert(s1.skip(i - 1) =~= s.skip(i));
    }
}

proof fn lemma_trim_back_take(s: Seq<char>, e: int)
    requires
        0 <= e <= s.len(),
        forall|j: int| e <= j < s.len() ==> is_space(s[j]),
        e == 0 || !is_space(s[e - 1]),
    ensures
        trim_back(s) == s.take(e),
    decreases s.len() - e,
{
    if e == s.len() {
        assert(s.take(e) =~= s);
    } else {
        let s1 = s.drop_last();
        lemma_trim_back_take(s1, e);
        assert(s1.take(e) =~= s.take(e));
    }
}

/// Remove surrounding whitespace.
pub fn trim_str<'a>(s: &'a str) -> (r: &'a str)
    ensures
        r@ == trim_seq(s@),
{
    let n = s.unicode_len();
    let mut start: usize = 0;
    while start < n && is_space_exec(s.get_char(start))
        invariant
            start <= n,
            n == s@.len(),
            forall|j: int| 0 <= j < start ==> is_space(s@[j]),
        decreases n - start,
    {
        start = start + 1;
    }
    let mut end: usize = n;
    while end > start && is_space_exec(s.get_char(end - 1))
        invariant
            start <= end <= n,
            n == s@.len(),
            forall|j: int| end <= j < n ==> is_space(s@[j]),
        decreases end,
    {
        end = end - 1;
    }
    let r = s.substring_char(start, end);
    proof {
        lemma_trim_front_skip(s@, start as int);
        let u = s@.skip(start as int);
        lemma_trim_back_take(u, end - start);
        assert(u.take(end - start) =~= s@.subrange(start as int, end as int));
    }
    r
}

/// Index of the first case-insensitive occurrence of `pat` in `s`.
pub fn find_ci_str(s: &str, pat: &str) -> (r: Option<usize>)
    ensures
        r matches Some(i) ==> find_ci(s@, pat@) == i as int,
        r is None ==> find_ci(s@, pat@) == -1,
{
    let n = s.unicode_len();
    let m = pat.unicode_len();
    if m > n {
        return None;
    }
    let mut i: usize = 0;
    while i <= n - m
        invariant
            m <= n,
            i <= n - m + 1,
            n == s@.len(),
            m == pat@.len(),
            find_ci(s@, pat@) == find_ci_from(s@, pat@, i as int),
        decreases n - i,
    {
        let mut j: usize = 0;
        let mut ok = true;
        while j < m
            invariant
                i + m <= n,
                j <= m,
                n == s@.len(),
                m == pat@.len(),
                ok == (forall|jj: int|
                    0 <= jj < j ==> lower_code(s@[i + jj]) == lower_code(pat@[jj])),
            decreases m - j,
        {
            let sc = lower_code_exec(s.get_char(i + j));
            let pc = lower_code_exec(pat.get_char(j));
            if sc != pc {
                proof {
                    assert(lower_code(s@[i + j as int]) != lower_code(pat@[j as int]));
                }
                ok = false;
            }
            j = j + 1;
        }
        if ok {
            proof {
                assert(matches_ci_at(s@, pat@, i as int));
            }
            return Some(i);
        }
        proof {
            assert(!matches_ci_at(s@, pat@, i as int));
            assert(find_ci_from(s@, pat@, i as int) == find_ci_from(s@, pat@, i + 1 as int));
        }
        i = i + 1;
    }
    proof {
        assert(find_ci_from(s@, pat@, i as int) == -1);
    }
    None
}

/// Split `s` at its first `/`: the part before it, and the part after it
/// (empty, with no split made, when `s` holds no `/`).
pub open spec fn slash_host(s: Seq<char>) -> Seq<char> {
    let k = find_ci(s, seq!['/']);
    if k >= 0 {
        s.take(k)
    } else {
        s
    }
}

/// The part of `s` after its first `/`, or empty when there is none.
pub open spec fn slash_path(s: Seq<char>) -> Seq<char> {
    let k = find_ci(s, seq!['/']);
    if k >= 0 {
        s.skip(k + 1)
    } else {
        Seq::<char>::empty()
    }
}

/// Split a string at its first `/` into host part and path part.
pub fn split_first_slash(s: &str) -> (r: (String, String))
    ensures
        r.0@ == slash_host(s@),
        r.1@ == slash_path(s@),
{
    proof {
        reveal_strlit("/");
        assert("/"@ =~= seq!['/']);
    }
    let n = s.unicode_len();
    match find_ci_str(s, "/") {
        Some(k) => {
            proof {
                lemma_find_ci_from_props(s@, seq!['/'], 0);
            }
            let host = s.substring_char(0, k);
            let path = s.substring_char(k + 1, n);
            proof {
                assert(s@.subrange(0, k as int) =~= slash_host(s@));
                assert(s@.subrange(k + 1 as int, n as int) =~= slash_path(s@));
            }
            (host.to_owned(), path.to_owned())
        },
        None => {
            let path = String::new();
            proof {
                assert(Seq::<char>::empty() =~= slash_path(s@));
            }
            (s.to_owned(), path)
        },
    }
}

} // verus!
