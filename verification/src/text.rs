//! Verified text utilities: character access, trimming, whitespace
//! tokenization, line splitting, joining, searching and integer parsing.
//!
//! Every executable function here is pinned to a spec-level twin over
//! `Seq<char>`, so the higher layers can state their contracts directly in
//! terms of these specification functions.

use vstd::prelude::*;

verus! {

/// The ASCII whitespace characters that sysfs values and bootloader
/// configuration files use.
pub open spec fn is_space_char(c: char) -> bool {
    c == ' ' || c == '\t' || c == '\n' || c == '\r'
}

/// Executable mirror of [`is_space_char`].
pub fn is_space(c: char) -> (r: bool)
    ensures
        r == is_space_char(c),
{
    c == ' ' || c == '\t' || c == '\n' || c == '\r'
}

// ---------------------------------------------------------------------------
// Character extraction and string construction
// ---------------------------------------------------------------------------

/// All characters of a string slice, as a vector.
pub fn chars_of(s: &str) -> (r: Vec<char>)
    ensures
        r@ == s@,
{
    let n: usize = s.unicode_len();
    let mut out: Vec<char> = Vec::new();
    let mut i: usize = 0;
    while i < n
        invariant
            i <= n,
            n == s@.len(),
            out@ == s@.subrange(0, i as int),
        decreases n - i,
    {
        out.push(s.get_char(i));
        assert(out@ =~= s@.subrange(0, i + 1 as int));
        i = i + 1;
    }
    assert(out@ =~= s@);
    out
}

/// Relies on `String::push`: appends the given character to the end of the
/// string.
#[verifier::external_body]
pub(crate) fn push_char(s: &mut String, c: char)
    ensures
        final(s)@ == old(s)@.push(c),
{
    s.push(c);
}

/// Builds a `String` from a character slice.
pub fn string_from(v: &[char]) -> (r: String)
    ensures
        r@ == v@,
{
    let mut out = String::new();
    let mut i: usize = 0;
    while i < v.len()
        invariant
            i <= v@.len(),
            out@ == v@.subrange(0, i as int),
        decreases v@.len() - i,
    {
        push_char(&mut out, v[i]);
        assert(out@ =~= v@.subrange(0, i + 1 as int));
        i = i + 1;
    }
    assert(out@ =~= v@);
    out
}

/// String equality by view.
pub fn str_eq(a: &str, b: &str) -> (r: bool)
    ensures
        r == (a@ == b@),
{
    let na: usize = a.unicode_len();
    let nb: usize = b.unicode_len();
    if na != nb {
        return false;
    }
    let mut i: usize = 0;
    while i < na
        invariant
            i <= na,
            na == a@.len(),
            na == b@.len(),
            forall|j: int| 0 <= j < i ==> a@[j] == b@[j],
        decreases na - i,
    {
        if a.get_char(i) != b.get_char(i) {
            return false;
        }
        i = i + 1;
    }
    assert(a@ =~= b@);
    true
}

/// True when the option holds a string equal to `lit`.
pub fn opt_is(o: &Option<String>, lit: &str) -> (r: bool)
    ensures
        r == (o is Some && o->0@ == lit@),
{
    match o {
        Some(s) => str_eq(s.as_str(), lit),
        None => false,
    }
}

/// Concatenation of two string slices.
pub fn concat(a: &str, b: &str) -> (r: String)
    ensures
        r@ == a@ + b@,
{
    let mut out = a.to_owned();
    out.append(b);
    out
}

/// Concatenation of three string slices.
pub fn concat3(a: &str, b: &str, c: &str) -> (r: String)
    ensures
        r@ == a@ + b@ + c@,
{
    let mut out = a.to_owned();
    out.append(b);
    out.append(c);
    out
}

// ---------------------------------------------------------------------------
// Trimming
// ---------------------------------------------------------------------------

/// The sequence without its leading whitespace.
pub open spec fn trim_front(s: Seq<char>) -> Seq<char>
    decreases s.len(),
{
    if s.len() > 0 && is_space_char(s[0]) {
        trim_front(s.drop_first())
    } else {
        s
    }
}

/// The sequence without its trailing whitespace.
pub open spec fn trim_back(s: Seq<char>) -> Seq<char>
    decreases s.len(),
{
    if s.len() > 0 && is_space_char(s[s.len() - 1]) {
        trim_back(s.drop_last())
    } else {
        s
    }
}

/// The sequence without leading and trailing whitespace, as `str::trim`
/// computes it for ASCII whitespace.
pub open spec fn trim_seq(s: Seq<char>) -> Seq<char> {
    trim_back(trim_front(s))
}

/// The trimmed copy of a string.
pub fn trim(s: &str) -> (r: String)
    ensures
        r@ == trim_seq(s@),
{
    let n: usize = s.unicode_len();
    assert(s@.subrange(0, n as int) =~= s@);
    let mut lo: usize = 0;
    while lo < n && is_space(s.get_char(lo))
        invariant
            lo <= n,
            n == s@.len(),
            trim_front(s@) == trim_front(s@.subrange(lo as int, n as int)),
        decreases n - lo,
    {
        assert(s@.subrange(lo as int, n as int).drop_first() =~= s@.subrange(
            lo + 1 as int,
            n as int,
        ));
        lo = lo + 1;
    }
    assert(trim_front(s@) =~= s@.subrange(lo as int, n as int));
    let mut hi: usize = n;
    while hi > lo && is_space(s.get_char(hi - 1))
        invariant
            lo <= hi <= n,
            n == s@.len(),
            trim_front(s@) == s@.subrange(lo as int, n as int),
            trim_back(trim_front(s@)) == trim_back(s@.subrange(lo as int, hi as int)),
        decreases hi,
    {
        assert(s@.subrange(lo as int, hi as int).drop_last() =~= s@.subrange(
            lo as int,
            hi - 1 as int,
        ));
        hi = hi - 1;
    }
    assert(trim_back(s@.subrange(lo as int, hi as int)) =~= s@.subrange(lo as int, hi as int));
    let chars = chars_of(s);
    let mut out = String::new();
    let mut i: usize = lo;
    while i < hi
        invariant
            lo <= i <= hi <= n,
            n == chars@.len(),
            chars@ == s@,
            out@ == s@.subrange(lo as int, i as int),
        decreases hi - i,
    {
        push_char(&mut out, chars[i]);
        assert(out@ =~= s@.subrange(lo as int, i + 1 as int));
        i = i + 1;
    }
    assert(out@ =~= trim_seq(s@));
    out
}

// ---------------------------------------------------------------------------
// Searching
// ---------------------------------------------------------------------------

/// First position of `c` in `s` at or after `i`, or the length when absent.
pub open spec fn find_char_from(s: Seq<char>, i: int, c: char) -> int
    decreases s.len() - i,
{
    if i < 0 || i >= s.len() {
        s.len() as int
    } else if s[i] == c {
        i
    } else {
        find_char_from(s, i + 1, c)
    }
}

/// First position of `c` in `s`, or the length when absent.
pub fn find_char(s: &str, c: char) -> (r: usize)
    ensures
        r == find_char_from(s@, 0, c),
        r <= s@.len(),
{
    let n: usize = s.unicode_len();
    let mut i: usize = 0;
    while i < n
        invariant
            i <= n,
            n == s@.len(),
            find_char_from(s@, 0, c) == find_char_from(s@, i as int, c),
        decreases n - i,
    {
        if s.get_char(i) == c {
            return i;
        }
        i = i + 1;
    }
    i
}

/// Whether `p` is a prefix of `s`.
pub open spec fn has_prefix(s: Seq<char>, p: Seq<char>) -> bool {
    p.len() <= s.len() && s.subrange(0, p.len() as int) == p
}

/// Executable prefix test.
pub fn starts_with(s: &str, p: &str) -> (r: bool)
    ensures
        r == has_prefix(s@, p@),
{
    let ns: usize = s.unicode_len();
    let np: usize = p.unicode_len();
    if np > ns {
        assert(!has_prefix(s@, p@));
        return false;
    }
    let mut i: usize = 0;
    while i < np
        invariant
            i <= np <= ns,
            ns == s@.len(),
            np == p@.len(),
            forall|j: int| 0 <= j < i ==> s@[j] == p@[j],
        decreases np - i,
    {
        if s.get_char(i) != p.get_char(i) {
            assert(s@.subrange(0, np as int)[i as int] != p@[i as int]);
            return false;
        }
        i = i + 1;
    }
    assert(s@.subrange(0, np as int) =~= p@);
    true
}

/// Whether `p` is a suffix of `s`.
pub open spec fn has_suffix(s: Seq<char>, p: Seq<char>) -> bool {
    p.len() <= s.len() && s.subrange(s.len() - p.len(), s.len() as int) == p
}

/// Executable suffix test.
pub fn ends_with(s: &str, p: &str) -> (r: bool)
    ensures
        r == has_suffix(s@, p@),
{
    let ns: usize = s.unicode_len();
    let np: usize = p.unicode_len();
    if np > ns {
        assert(!has_suffix(s@, p@));
        return false;
    }
    let off = ns - np;
    let mut i: usize = 0;
    while i < np
        invariant
            i <= np <= ns,
            off == ns - np,
            ns == s@.len(),
            np == p@.len(),
            forall|j: int| 0 <= j < i ==> s@[off + j] == p@[j],
        decreases np - i,
    {
        if s.get_char(off + i) != p.get_char(i) {
            assert(s@.subrange(s@.len() - p@.len(), s@.len() as int)[i as int] != p@[i as int]);
            return false;
        }
        i = i + 1;
    }
    assert(s@.subrange(s@.len() - p@.len(), s@.len() as int) =~= p@);
    true
}

/// The copy without leading whitespace.
pub fn trim_start(s: &str) -> (r: String)
    ensures
        r@ == trim_front(s@),
{
    let n: usize = s.unicode_len();
    assert(s@.subrange(0, n as int) =~= s@);
    let mut lo: usize = 0;
    while lo < n && is_space(s.get_char(lo))
        invariant
            lo <= n,
            n == s@.len(),
            trim_front(s@) == trim_front(s@.subrange(lo as int, n as int)),
        decreases n - lo,
    {
        assert(s@.subrange(lo as int, n as int).drop_first() =~= s@.subrange(
            lo + 1 as int,
            n as int,
        ));
        lo = lo + 1;
    }
    assert(trim_front(s@) =~= s@.subrange(lo as int, n as int));
    let chars = chars_of(s);
    let mut out = String::new();
    let mut i: usize = lo;
    while i < n
        invariant
            lo <= i <= n,
            n == chars@.len(),
            chars@ == s@,
            out@ == s@.subrange(lo as int, i as int),
        decreases n - i,
    {
        push_char(&mut out, chars[i]);
        assert(out@ =~= s@.subrange(lo as int, i + 1 as int));
        i = i + 1;
    }
    assert(out@ =~= trim_front(s@));
    out
}

/// Whether `needle` occurs contiguously inside `s`.
pub open spec fn contains_seq(s: Seq<char>, needle: Seq<char>) -> bool {
    exists|k: int|
        0 <= k <= s.len() - needle.len() && #[trigger] s.subrange(k, k + needle.len()) == needle
}

/// Executable substring test.
pub fn contains_sub(s: &str, needle: &str) -> (r: bool)
    ensures
        r == contains_seq(s@, needle@),
{
    let ns: usize = s.unicode_len();
    let nn: usize = needle.unicode_len();
    if nn > ns {
        return false;
    }
    if nn == 0 {
        assert(s@.subrange(0, 0 + needle@.len() as int) =~= needle@);
        return true;
    }
    let mut k: usize = 0;
    while k <= ns - nn
        invariant
            0 < nn <= ns,
            ns == s@.len(),
            nn == needle@.len(),
            k <= ns - nn + 1,
            forall|m: int|
                0 <= m < k ==> #[trigger] s@.subrange(m, m + needle@.len()) != needle@,
        decreases ns - nn - k + 1,
    {
        let mut j: usize = 0;
        let mut matched: bool = true;
        while j < nn
            invariant
                j <= nn,
                k + nn <= ns,
                ns == s@.len(),
                nn == needle@.len(),
                matched ==> forall|t: int| 0 <= t < j ==> s@[k + t] == needle@[t],
                !matched ==> s@.subrange(k as int, k + needle@.len()) != needle@,
            decreases nn - j,
        {
            if s.get_char(k + j) != needle.get_char(j) {
                assert(s@.subrange(k as int, k + needle@.len())[j as int] != needle@[j as int]);
                assert(s@.subrange(k as int, k + needle@.len()) != needle@);
                matched = false;
                j = nn;
            } else {
                j = j + 1;
            }
        }
        if matched {
            assert(s@.subrange(k as int, k + needle@.len()) =~= needle@);
            return true;
        }
        assert(s@.subrange(k as int, k + needle@.len()) != needle@);
        k = k + 1;
    }
    false
}

/// The copy of `s` between two character positions.
pub fn substring_of(s: &str, start: usize, end: usize) -> (r: String)
    requires
        start <= end <= s@.len(),
    ensures
        r@ == s@.subrange(start as int, end as int),
{
    let chars = chars_of(s);
    let mut out = String::new();
    let mut i: usize = start;
    while i < end
        invariant
            start <= i <= end <= chars@.len(),
            chars@ == s@,
            out@ == s@.subrange(start as int, i as int),
        decreases end - i,
    {
        push_char(&mut out, chars[i]);
        assert(out@ =~= s@.subrange(start as int, i + 1 as int));
        i = i + 1;
    }
    out
}

/// Whether some string in the vector views-equals `x`.
pub fn contains_string(v: &Vec<String>, x: &str) -> (r: bool)
    ensures
        r == views_of(v@).contains(x@),
{
    let mut i: usize = 0;
    while i < v.len()
        invariant
            i <= v@.len(),
            forall|j: int| 0 <= j < i ==> views_of(v@)[j] != x@,
        decreases v@.len() - i,
    {
        if str_eq(v[i].as_str(), x) {
            assert(views_of(v@)[i as int] == x@);
            return true;
        }
        i = i + 1;
    }
    assert(!views_of(v@).contains(x@));
    false
}

/// Character equality up to ASCII case.
pub open spec fn char_ci_eq(a: char, b: char) -> bool {
    ||| a == b
    ||| ('A' <= a && a <= 'Z' && b as u32 == a as u32 + 32)
    ||| ('A' <= b && b <= 'Z' && a as u32 == b as u32 + 32)
}

/// Whether `needle` matches `s` at offset `k`, up to ASCII case.
pub open spec fn ci_match_at(s: Seq<char>, needle: Seq<char>, k: int) -> bool {
    forall|t: int| 0 <= t < needle.len() ==> char_ci_eq(#[trigger] s[k + t], needle[t])
}

/// Whether `needle` occurs inside `s` up to ASCII case.
pub open spec fn contains_ci_seq(s: Seq<char>, needle: Seq<char>) -> bool {
    exists|k: int| 0 <= k <= s.len() - needle.len() && #[trigger] ci_match_at(s, needle, k)
}

/// Executable case-insensitive substring test.
pub fn contains_ci(s: &str, needle: &str) -> (r: bool)
    ensures
        r == contains_ci_seq(s@, needle@),
{
    let ns: usize = s.unicode_len();
    let nn: usize = needle.unicode_len();
    if nn > ns {
        return false;
    }
    if nn == 0 {
        assert(ci_match_at(s@, needle@, 0));
        return true;
    }
    let sc = chars_of(s);
    let nc = chars_of(needle);
    let mut k: usize = 0;
    while k <= ns - nn
        invariant
            0 < nn <= ns,
            ns == s@.len(),
            nn == needle@.len(),
            sc@ == s@,
            nc@ == needle@,
            k <= ns - nn + 1,
            forall|m: int| 0 <= m < k ==> !ci_match_at(s@, needle@, m),
        decreases ns - nn - k + 1,
    {
        let mut j: usize = 0;
        let mut matched: bool = true;
        while j < nn
            invariant
                j <= nn,
                k + nn <= ns,
                ns == s@.len(),
                nn == needle@.len(),
                sc@ == s@,
                nc@ == needle@,
                matched ==> forall|t: int| 0 <= t < j ==> char_ci_eq(#[trigger] s@[k + t], needle@[t]),
                !matched ==> !ci_match_at(s@, needle@, k as int),
            decreases nn - j,
        {
            let a = sc[k + j];
            let b = nc[j];
            let ok = a == b || ('A' <= a && a <= 'Z' && b as u32 == a as u32 + 32) || ('A' <= b
                && b <= 'Z' && a as u32 == b as u32 + 32);
            if !ok {
                assert(!char_ci_eq(s@[k + j], needle@[j as int]));
                assert(!ci_match_at(s@, needle@, k as int));
                matched = false;
                j = nn;
            } else {
                j = j + 1;
            }
        }
        if matched {
            assert(ci_match_at(s@, needle@, k as int));
            return true;
        }
        k = k + 1;
    }
    false
}

// ---------------------------------------------------------------------------
// Tokenization and line splitting
// ---------------------------------------------------------------------------

/// Views of a vector of strings.
pub open spec fn views_of(v: Seq<String>) -> Seq<Seq<char>> {
    v.map_values(|s: String| s@)
}

/// Whitespace tokenization, processed left to right: `cur` is the token
/// being built, `acc` the tokens already complete.
pub open spec fn split_ws_from(s: Seq<char>, i: int, cur: Seq<char>, acc: Seq<Seq<char>>) -> Seq<
    Seq<char>,
>
    decreases s.len() - i,
{
    if i < 0 || i >= s.len() {
        if cur.len() > 0 {
            acc.push(cur)
        } else {
            acc
        }
    } else if is_space_char(s[i]) {
        if cur.len() > 0 {
            split_ws_from(s, i + 1, Seq::empty(), acc.push(cur))
        } else {
            split_ws_from(s, i + 1, cur, acc)
        }
    } else {
        split_ws_from(s, i + 1, cur.push(s[i]), acc)
    }
}

/// The whitespace-separated tokens of `s`, as `str::split_whitespace` yields
/// them for ASCII whitespace.
pub open spec fn split_ws(s: Seq<char>) -> Seq<Seq<char>> {
    split_ws_from(s, 0, Seq::empty(), Seq::empty())
}

/// Executable whitespace tokenizer.
pub fn split_whitespace(s: &str) -> (r: Vec<String>)
    ensures
        views_of(r@) == split_ws(s@),
{
    let chars = chars_of(s);
    let n = chars.len();
    let mut out: Vec<String> = Vec::new();
    let mut cur: Vec<char> = Vec::new();
    assert(views_of(out@) =~= Seq::<Seq<char>>::empty());
    let mut i: usize = 0;
    while i < n
        invariant
            i <= n,
            n == chars@.len(),
            chars@ == s@,
            split_ws(s@) == split_ws_from(s@, i as int, cur@, views_of(out@)),
        decreases n - i,
    {
        let c = chars[i];
        if is_space(c) {
            if cur.len() > 0 {
                let tok = string_from(cur.as_slice());
                let ghost prev = views_of(out@);
                out.push(tok);
                assert(views_of(out@) =~= prev.push(cur@));
                cur = Vec::new();
            }
        } else {
            cur.push(c);
        }
        i = i + 1;
    }
    if cur.len() > 0 {
        let tok = string_from(cur.as_slice());
        let ghost prev = views_of(out@);
        out.push(tok);
        assert(views_of(out@) =~= prev.push(cur@));
    }
    out
}

/// Line splitting at `'\n'`, processed left to right; a trailing newline
/// terminates the last line rather than opening an empty one, as with
/// `str::lines`.
pub open spec fn split_lines_from(
    s: Seq<char>,
    i: int,
    cur: Seq<char>,
    acc: Seq<Seq<char>>,
) -> Seq<Seq<char>>
    decreases s.len() - i,
{
    if i < 0 || i >= s.len() {
        if cur.len() > 0 {
            acc.push(cur)
        } else {
            acc
        }
    } else if s[i] == '\n' {
        split_lines_from(s, i + 1, Seq::empty(), acc.push(cur))
    } else {
        split_lines_from(s, i + 1, cur.push(s[i]), acc)
    }
}

/// The lines of `s`.
pub open spec fn split_lines_seq(s: Seq<char>) -> Seq<Seq<char>> {
    split_lines_from(s, 0, Seq::empty(), Seq::empty())
}

/// Executable line splitter.
pub fn split_lines(s: &str) -> (r: Vec<String>)
    ensures
        views_of(r@) == split_lines_seq(s@),
{
    let chars = chars_of(s);
    let n = chars.len();
    let mut out: Vec<String> = Vec::new();
    let mut cur: Vec<char> = Vec::new();
    assert(views_of(out@) =~= Seq::<Seq<char>>::empty());
    let mut i: usize = 0;
    while i < n
        invariant
            i <= n,
            n == chars@.len(),
            chars@ == s@,
            split_lines_seq(s@) == split_lines_from(s@, i as int, cur@, views_of(out@)),
        decreases n - i,
    {
        let c = chars[i];
        if c == '\n' {
            let line = string_from(cur.as_slice());
            let ghost prev = views_of(out@);
            out.push(line);
            assert(views_of(out@) =~= prev.push(cur@));
            cur = Vec::new();
        } else {
            cur.push(c);
        }
        i = i + 1;
    }
    if cur.len() > 0 {
        let line = string_from(cur.as_slice());
        let ghost prev = views_of(out@);
        out.push(line);
        assert(views_of(out@) =~= prev.push(cur@));
    }
    out
}

// ---------------------------------------------------------------------------
// Joining
// ---------------------------------------------------------------------------

/// Left fold that appends `sep` and the next part to `acc`.
pub open spec fn join_from(parts: Seq<Seq<char>>, i: int, sep: Seq<char>, acc: Seq<char>) -> Seq<
    char,
>
    decreases parts.len() - i,
{
    if i < 0 || i >= parts.len() {
        acc
    } else {
        join_from(parts, i + 1, sep, acc + sep + parts[i])
    }
}

/// The parts joined with `sep` between them.
pub open spec fn join_seq(parts: Seq<Seq<char>>, sep: Seq<char>) -> Seq<char> {
    if parts.len() == 0 {
        Seq::empty()
    } else {
        join_from(parts, 1, sep, parts[0])
    }
}

/// Executable join.
pub fn join(parts: &Vec<String>, sep: &str) -> (r: String)
    ensures
        r@ == join_seq(views_of(parts@), sep@),
{
    if parts.len() == 0 {
        return String::new();
    }
    let mut out: String = parts[0].clone();
    let mut i: usize = 1;
    while i < parts.len()
        invariant
            1 <= i <= parts@.len(),
            join_seq(views_of(parts@), sep@) == join_from(
                views_of(parts@),
                i as int,
                sep@,
                out@,
            ),
        decreases parts@.len() - i,
    {
        out.append(sep);
        out.append(parts[i].as_str());
        i = i + 1;
    }
    out
}

// ---------------------------------------------------------------------------
// Parameter names and integer parsing
// ---------------------------------------------------------------------------

/// The part of a token before the first `'='`; the whole token when it has
/// none. This is the kernel parameter's name.
pub open spec fn param_name_seq(tok: Seq<char>) -> Seq<char> {
    tok.subrange(0, find_char_from(tok, 0, '='))
}

/// Executable parameter-name extraction.
pub fn param_name(tok: &str) -> (r: String)
    ensures
        r@ == param_name_seq(tok@),
{
    let pos = find_char(tok, '=');
    let chars = chars_of(tok);
    let mut out = String::new();
    let mut i: usize = 0;
    while i < pos
        invariant
            i <= pos,
            pos <= chars@.len(),
            chars@ == tok@,
            out@ == tok@.subrange(0, i as int),
        decreases pos - i,
    {
        push_char(&mut out, chars[i]);
        assert(out@ =~= tok@.subrange(0, i + 1 as int));
        i = i + 1;
    }
    out
}

/// Decimal digit test.
pub open spec fn is_digit_char(c: char) -> bool {
    '0' <= c && c <= '9'
}

/// Value of a decimal digit.
pub open spec fn digit_val(c: char) -> int {
    c as int - '0' as int
}

/// Left-fold decimal parse: `None` on a non-digit or on overflow past
/// `u64::MAX`.
pub open spec fn parse_u64_from(s: Seq<char>, i: int, acc: u64) -> Option<u64>
    decreases s.len() - i,
{
    if i < 0 || i >= s.len() {
        Some(acc)
    } else if !is_digit_char(s[i]) {
        None
    } else if acc > (u64::MAX - digit_val(s[i])) / 10 {
        None
    } else {
        parse_u64_from(s, i + 1, (10 * acc + digit_val(s[i])) as u64)
    }
}

/// The value of a decimal numeral, when the whole string is one and it fits
/// in a `u64`.
pub open spec fn parse_u64_seq(s: Seq<char>) -> Option<u64> {
    if s.len() == 0 {
        None
    } else {
        parse_u64_from(s, 0, 0)
    }
}

/// Executable decimal parser.
pub fn parse_u64(s: &str) -> (r: Option<u64>)
    ensures
        r == parse_u64_seq(s@),
{
    let n: usize = s.unicode_len();
    if n == 0 {
        return None;
    }
    let chars = chars_of(s);
    let mut acc: u64 = 0;
    let mut i: usize = 0;
    while i < n
        invariant
            i <= n,
            n == chars@.len(),
            chars@ == s@,
            n > 0,
            parse_u64_seq(s@) == parse_u64_from(s@, i as int, acc),
        decreases n - i,
    {
        let c = chars[i];
        if c < '0' || c > '9' {
            return None;
        }
        let d: u64 = (c as u64) - ('0' as u64);
        assert(d == digit_val(s@[i as int]));
        if acc > (u64::MAX - d) / 10 {
            return None;
        }
        acc = 10 * acc + d;
        i = i + 1;
    }
    Some(acc)
}

/// Decimal parse capped at `u32`.
pub open spec fn parse_u32_seq(s: Seq<char>) -> Option<u32> {
    match parse_u64_seq(s) {
        Some(v) => if v <= u32::MAX {
            Some(v as u32)
        } else {
            None
        },
        None => None,
    }
}

/// Executable `u32` parser.
pub fn parse_u32(s: &str) -> (r: Option<u32>)
    ensures
        r == parse_u32_seq(s@),
{
    match parse_u64(s) {
        Some(v) => if v <= u32::MAX as u64 {
            Some(v as u32)
        } else {
            None
        },
        None => None,
    }
}

// ---------------------------------------------------------------------------
// Lexicographic order and sorting
// ---------------------------------------------------------------------------

/// Lexicographic order on character sequences, by code point, as `str`'s
/// `Ord` orders UTF-8 strings.
pub open spec fn lex_leq(a: Seq<char>, b: Seq<char>) -> bool
    decreases a.len(),
{
    if a.len() == 0 {
        true
    } else if b.len() == 0 {
        false
    } else if a[0] < b[0] {
        true
    } else if a[0] > b[0] {
        false
    } else {
        lex_leq(a.drop_first(), b.drop_first())
    }
}

/// Executable lexicographic comparison.
pub fn lex_le(a: &str, b: &str) -> (r: bool)
    ensures
        r == lex_leq(a@, b@),
    decreases a@.len(),
{
    let na: usize = a.unicode_len();
    let nb: usize = b.unicode_len();
    assert(a@.subrange(0, na as int) =~= a@);
    assert(b@.subrange(0, nb as int) =~= b@);
    let mut i: usize = 0;
    while i < na && i < nb
        invariant
            i <= na,
            i <= nb,
            na == a@.len(),
            nb == b@.len(),
            lex_leq(a@, b@) == lex_leq(
                a@.subrange(i as int, na as int),
                b@.subrange(i as int, nb as int),
            ),
            forall|j: int| 0 <= j < i ==> a@[j] == b@[j],
        decreases na - i,
    {
        let ca = a.get_char(i);
        let cb = b.get_char(i);
        if ca < cb {
            return true;
        }
        if ca > cb {
            return false;
        }
        assert(a@.subrange(i as int, na as int).drop_first() =~= a@.subrange(
            i + 1 as int,
            na as int,
        ));
        assert(b@.subrange(i as int, nb as int).drop_first() =~= b@.subrange(
            i + 1 as int,
            nb as int,
        ));
        i = i + 1;
    }
    assert(a@.subrange(i as int, na as int).len() == na - i);
    assert(b@.subrange(i as int, nb as int).len() == nb - i);
    i >= na
}

/// Sortedness under [`lex_leq`].
pub open spec fn lex_sorted(v: Seq<Seq<char>>) -> bool {
    forall|i: int, j: int| 0 <= i < j < v.len() ==> lex_leq(v[i], v[j])
}

/// [`lex_leq`] is total: two sequences always compare one way or the other.
pub proof fn lemma_lex_total(a: Seq<char>, b: Seq<char>)
    ensures
        lex_leq(a, b) || lex_leq(b, a),
    decreases a.len(),
{
    if a.len() > 0 && b.len() > 0 && a[0] == b[0] {
        lemma_lex_total(a.drop_first(), b.drop_first());
    }
}

/// Antisymmetry of [`lex_leq`]: sequences that compare both ways are
/// equal.
pub proof fn lemma_lex_antisym(a: Seq<char>, b: Seq<char>)
    requires
        lex_leq(a, b),
        lex_leq(b, a),
    ensures
        a == b,
    decreases a.len(),
{
    if a.len() == 0 {
        assert(b.len() == 0);
        assert(a =~= b);
    } else {
        assert(b.len() > 0);
        assert(a[0] == b[0]);
        lemma_lex_antisym(a.drop_first(), b.drop_first());
        assert(a.drop_first().len() == b.drop_first().len());
        assert(a.len() == b.len());
        assert forall|i: int| 0 <= i < a.len() implies a[i] == b[i] by {
            if i > 0 {
                assert(a[i] == a.drop_first()[i - 1]);
                assert(b[i] == b.drop_first()[i - 1]);
            }
        }
        assert(a =~= b);
    }
}

/// Transitivity of [`lex_leq`].
pub proof fn lemma_lex_trans(a: Seq<char>, b: Seq<char>, c: Seq<char>)
    requires
        lex_leq(a, b),
        lex_leq(b, c),
    ensures
        lex_leq(a, c),
    decreases a.len(),
{
    if a.len() > 0 {
        if b.len() > 0 && c.len() > 0 {
            if a[0] == b[0] && b[0] == c[0] {
                lemma_lex_trans(a.drop_first(), b.drop_first(), c.drop_first());
            }
        }
    }
}

/// Inserting into a sequence grows its multiset like a push does.
proof fn lemma_multiset_insert(v: Seq<Seq<char>>, k: int, x: Seq<char>)
    requires
        0 <= k <= v.len(),
    ensures
        v.insert(k, x).to_multiset() == v.push(x).to_multiset(),
{
    let w = v.insert(k, x);
    assert(w.remove(k) =~= v);
    assert(w[k] == x);
    w.to_multiset_ensures();
    v.to_multiset_ensures();
    assert(w.contains(x));
    assert(w.to_multiset().count(x) > 0);
    assert(w.remove(k).to_multiset() =~= w.to_multiset().remove(x));
    assert(w.to_multiset() =~= v.to_multiset().insert(x));
    assert(v.push(x).to_multiset() =~= v.to_multiset().insert(x));
}

/// Position where `x` goes in `v` to keep it sorted: past every element
/// that compares at or below `x`.
pub open spec fn insert_pos_from(v: Seq<Seq<char>>, x: Seq<char>, k: int) -> int
    decreases v.len() - k,
{
    if k < 0 || k >= v.len() {
        v.len() as int
    } else if lex_leq(v[k], x) {
        insert_pos_from(v, x, k + 1)
    } else {
        k
    }
}

/// One insertion-sort step.
pub open spec fn insert_sorted(v: Seq<Seq<char>>, x: Seq<char>) -> Seq<Seq<char>> {
    v.insert(insert_pos_from(v, x, 0), x)
}

/// Left fold of [`insert_sorted`] over `src`.
pub open spec fn sort_seqs_from(src: Seq<Seq<char>>, i: int, acc: Seq<Seq<char>>) -> Seq<
    Seq<char>,
>
    decreases src.len() - i,
{
    if i < 0 || i >= src.len() {
        acc
    } else {
        sort_seqs_from(src, i + 1, insert_sorted(acc, src[i]))
    }
}

/// The insertion sort of `src`, by [`lex_leq`].
pub open spec fn sort_seqs(src: Seq<Seq<char>>) -> Seq<Seq<char>> {
    sort_seqs_from(src, 0, Seq::empty())
}

/// Bounds of [`insert_pos_from`].
pub proof fn lemma_insert_pos_bounds(v: Seq<Seq<char>>, x: Seq<char>, k: int)
    requires
        0 <= k <= v.len(),
    ensures
        k <= insert_pos_from(v, x, k) <= v.len(),
    decreases v.len() - k,
{
    if k < v.len() && lex_leq(v[k], x) {
        lemma_insert_pos_bounds(v, x, k + 1);
    }
}

/// Insertion sort on strings, by [`lex_leq`]. Keeps exactly the same
/// multiset of values and computes exactly [`sort_seqs`].
pub fn sort_strings(v: &Vec<String>) -> (r: Vec<String>)
    ensures
        lex_sorted(views_of(r@)),
        views_of(r@).to_multiset() == views_of(v@).to_multiset(),
        views_of(r@) == sort_seqs(views_of(v@)),
{
    let mut out: Vec<String> = Vec::new();
    assert(views_of(out@) =~= Seq::<Seq<char>>::empty());
    assert(views_of(v@.subrange(0, 0)) =~= Seq::<Seq<char>>::empty());
    let mut i: usize = 0;
    while i < v.len()
        invariant
            i <= v@.len(),
            lex_sorted(views_of(out@)),
            views_of(out@).to_multiset() == views_of(v@.subrange(0, i as int)).to_multiset(),
            sort_seqs(views_of(v@)) == sort_seqs_from(views_of(v@), i as int, views_of(out@)),
        decreases v@.len() - i,
    {
        let ghost pre = views_of(out@);
        let s = v[i].clone();
        let mut k: usize = 0;
        while k < out.len()
            invariant
                k <= out@.len(),
                s@ == v@[i as int]@,
                views_of(out@) == pre,
                insert_pos_from(pre, s@, 0) == insert_pos_from(pre, s@, k as int),
                forall|j: int| 0 <= j < k ==> lex_leq(views_of(out@)[j], s@),
            ensures
                k <= out@.len(),
                views_of(out@) == pre,
                k == insert_pos_from(pre, s@, 0),
                forall|j: int| 0 <= j < k ==> lex_leq(views_of(out@)[j], s@),
                k < out@.len() ==> lex_leq(s@, views_of(out@)[k as int]),
            decreases out@.len() - k,
        {
            if lex_le(out[k].as_str(), s.as_str()) {
                k = k + 1;
            } else {
                proof {
                    lemma_lex_total(views_of(out@)[k as int], s@);
                }
                break;
            }
        }
        out.insert(k, s);
        proof {
            let x = v@[i as int]@;
            let post = views_of(out@);
            assert(post =~= pre.insert(k as int, x));
            assert forall|p: int, q: int| 0 <= p < q < post.len() implies lex_leq(
                post[p],
                post[q],
            ) by {
                if q < k {
                    assert(lex_leq(pre[p], pre[q]));
                } else if q == k {
                    assert(post[q] == x);
                    assert(lex_leq(pre[p], x));
                } else {
                    // q > k
                    assert(post[q] == pre[q - 1]);
                    if p < k {
                        assert(lex_leq(pre[p], pre[q - 1]));
                    } else if p == k {
                        assert(post[p] == x);
                        assert(lex_leq(x, pre[k as int]));
                        if q - 1 > k {
                            lemma_lex_trans(x, pre[k as int], pre[q - 1]);
                        }
                    } else {
                        assert(lex_leq(pre[p - 1], pre[q - 1]));
                    }
                }
            }
            lemma_multiset_insert(pre, k as int, x);
            pre.to_multiset_ensures();
            let prefix = views_of(v@.subrange(0, i as int));
            assert(views_of(v@.subrange(0, i + 1)) =~= prefix.push(x));
            prefix.to_multiset_ensures();
            assert(post == insert_sorted(pre, x));
        }
        i = i + 1;
    }
    proof {
        assert(v@.subrange(0, v@.len() as int) =~= v@);
    }
    out
}

} // verus!
