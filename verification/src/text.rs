//! Character-level text helpers shared by the plugin pipeline.
//!
//! All executable helpers carry exact contracts over `Seq<char>` views;
//! the spec functions here are the vocabulary the rest of the crate's
//! contracts are written in.

use vstd::prelude::*;
use vstd::string::StrSliceExecFns;
use vstd::string::StringExecFns;

verus! {

/// The Unicode `White_Space` characters: the set recognised by
/// `char::is_whitespace`, `str::trim` and `str::split_whitespace`.
pub open spec fn spec_is_space(c: char) -> bool {
    c == ' ' || c == '\t' || c == '\n' || c == '\u{b}' || c == '\u{c}' || c == '\r'
        || c == '\u{85}' || c == '\u{a0}' || c == '\u{1680}'
        || ('\u{2000}' <= c && c <= '\u{200a}')
        || c == '\u{2028}' || c == '\u{2029}' || c == '\u{202f}' || c == '\u{205f}'
        || c == '\u{3000}'
}

/// Decides whether `c` is a whitespace character.
pub fn is_space(c: char) -> (r: bool)
    ensures
        r == spec_is_space(c),
{
    c == ' ' || c == '\t' || c == '\n' || c == '\u{b}' || c == '\u{c}' || c == '\r'
        || c == '\u{85}' || c == '\u{a0}' || c == '\u{1680}'
        || ('\u{2000}' <= c && c <= '\u{200a}')
        || c == '\u{2028}' || c == '\u{2029}' || c == '\u{202f}' || c == '\u{205f}'
        || c == '\u{3000}'
}

/// Some character of `s` is not whitespace.
pub open spec fn spec_has_visible(s: Seq<char>) -> bool {
    exists|i: int| 0 <= i < s.len() && !spec_is_space(s[i])
}

/// Decides whether `s` holds any non-whitespace character.
pub fn has_visible(s: &str) -> (r: bool)
    ensures
        r == spec_has_visible(s@),
{
    let n = s.unicode_len();
    let mut i: usize = 0;
    while i < n
        invariant
            i <= n,
            n == s@.len(),
            forall|j: int| 0 <= j < i ==> spec_is_space(s@[j]),
        decreases n - i,
    {
        if !is_space(s.get_char(i)) {
            return true;
        }
        i += 1;
    }
    false
}

/// The characters of `s`, one vector element per `char`.
pub fn chars_vec(s: &str) -> (v: Vec<char>)
    ensures
        v@ == s@,
{
    let n = s.unicode_len();
    let mut v: Vec<char> = Vec::new();
    let mut i: usize = 0;
    while i < n
        invariant
            i <= n,
            n == s@.len(),
            v@ == s@.subrange(0, i as int),
        decreases n - i,
    {
        v.push(s.get_char(i));
        i += 1;
        proof {
            assert(v@ =~= s@.subrange(0, i as int));
        }
    }
    proof {
        assert(v@ =~= s@);
    }
    v
}

/// Relies on `String::push`: appends one character at the end of the string.
#[verifier::external_body]
fn push_char(s: &mut String, c: char)
    ensures
        final(s)@ == old(s)@.push(c),
{
    s.push(c);
}

/// A freshly allocated string holding exactly the characters of `v`.
pub fn string_from_chars(v: &Vec<char>) -> (s: String)
    ensures
        s@ == v@,
{
    let mut s = String::new();
    let mut i: usize = 0;
    while i < v.len()
        invariant
            i <= v@.len(),
            s@ == v@.subrange(0, i as int),
        decreases v@.len() - i,
    {
        push_char(&mut s, v[i]);
        i += 1;
        proof {
            assert(s@ =~= v@.subrange(0, i as int));
        }
    }
    proof {
        assert(s@ =~= v@);
    }
    s
}

/// Decides character-for-character equality of two strings.
pub fn str_eq(a: &str, b: &str) -> (r: bool)
    ensures
        r == (a@ == b@),
{
    let na = a.unicode_len();
    let nb = b.unicode_len();
    if na != nb {
        proof {
            assert(a@.len() != b@.len());
        }
        return false;
    }
    let mut i: usize = 0;
    while i < na
        invariant
            i <= na,
            na == a@.len(),
            na == b@.len(),
            forall|j: int| 0 <= j < i ==> a@[j] == b@[j],
        decreases na - i,
    {
        if a.get_char(i) != b.get_char(i) {
            proof {
                assert(a@[i as int] != b@[i as int]);
            }
            return false;
        }
        i += 1;
    }
    proof {
        assert(a@ =~= b@);
    }
    true
}

/// `p` occurs at the front of `s`.
pub open spec fn spec_starts_with(s: Seq<char>, p: Seq<char>) -> bool {
    p.len() <= s.len() && s.subrange(0, p.len() as int) == p
}

/// Decides whether the characters of `v` start with those of `p`.
pub fn starts_with_chars(v: &Vec<char>, p: &Vec<char>) -> (r: bool)
    ensures
        r == spec_starts_with(v@, p@),
{
    let np = p.len();
    if np > v.len() {
        return false;
    }
    let mut i: usize = 0;
    while i < np
        invariant
            i <= np,
            np == p@.len(),
            np <= v@.len(),
            forall|j: int| 0 <= j < i ==> v@[j] == p@[j],
        decreases np - i,
    {
        if v[i] != p[i] {
            proof {
                assert(v@.subrange(0, p@.len() as int)[i as int] != p@[i as int]);
            }
            return false;
        }
        i += 1;
    }
    proof {
        assert(v@.subrange(0, p@.len() as int) =~= p@);
    }
    true
}

/// Decides whether `s` starts with `p`.
pub fn starts_with(s: &str, p: &str) -> (r: bool)
    ensures
        r == spec_starts_with(s@, p@),
{
    let ns = s.unicode_len();
    let np = p.unicode_len();
    if np > ns {
        return false;
    }
    let mut i: usize = 0;
    while i < np
        invariant
            i <= np,
            np <= ns,
            ns == s@.len(),
            np == p@.len(),
            forall|j: int| 0 <= j < i ==> s@[j] == p@[j],
        decreases np - i,
    {
        if s.get_char(i) != p.get_char(i) {
            proof {
                assert(s@.subrange(0, p@.len() as int)[i as int] != p@[i as int]);
            }
            return false;
        }
        i += 1;
    }
    proof {
        assert(s@.subrange(0, p@.len() as int) =~= p@);
    }
    true
}

/// `p` occurs at the end of `s`.
pub open spec fn spec_ends_with(s: Seq<char>, p: Seq<char>) -> bool {
    p.len() <= s.len() && s.subrange(s.len() - p.len(), s.len() as int) == p
}

/// Decides whether the characters of `v` end with those of `p`.
pub fn ends_with_chars(v: &Vec<char>, p: &Vec<char>) -> (r: bool)
    ensures
        r == spec_ends_with(v@, p@),
{
    let np = p.len();
    let nv = v.len();
    if np > nv {
        return false;
    }
    let base = nv - np;
    let mut i: usize = 0;
    while i < np
        invariant
            i <= np,
            np == p@.len(),
            nv == v@.len(),
            base == nv - np,
            forall|j: int| 0 <= j < i ==> v@[base + j] == p@[j],
        decreases np - i,
    {
        if v[base + i] != p[i] {
            proof {
                assert(v@.subrange(v@.len() - p@.len(), v@.len() as int)[i as int]
                    != p@[i as int]);
            }
            return false;
        }
        i += 1;
    }
    proof {
        assert(v@.subrange(v@.len() - p@.len(), v@.len() as int) =~= p@);
    }
    true
}

/// How many times `c` occurs in `s`.
pub open spec fn spec_count_char(s: Seq<char>, c: char) -> nat
    decreases s.len(),
{
    if s.len() == 0 {
        0
    } else {
        spec_count_char(s.drop_last(), c) + (if s.last() == c {
            1nat
        } else {
            0nat
        })
    }
}

/// A character with a positive count occurs somewhere.
pub proof fn lemma_count_char_pos(s: Seq<char>, c: char)
    ensures
        spec_count_char(s, c) > 0 ==> exists|j: int| 0 <= j < s.len() && #[trigger] s[j] == c,
    decreases s.len(),
{
    if s.len() > 0 {
        if s.last() == c {
            assert(s[s.len() - 1] == c);
        } else {
            lemma_count_char_pos(s.drop_last(), c);
            if spec_count_char(s, c) > 0 {
                let j = choose|j: int| 0 <= j < s.len() - 1 && #[trigger] s.drop_last()[j] == c;
                assert(s[j] == c);
            }
        }
    }
}

/// The view of an optional borrowed string.
pub open spec fn spec_view_opt(o: Option<&str>) -> Option<Seq<char>> {
    match o {
        Some(s) => Some(s@),
        None => None,
    }
}

/// The view of an optional owned string.
pub open spec fn spec_view_opt_string(o: Option<String>) -> Option<Seq<char>> {
    match o {
        Some(s) => Some(s@),
        None => None,
    }
}

/// Counts the occurrences of `c` among the characters of `v`.
pub fn count_char(v: &Vec<char>, c: char) -> (r: usize)
    ensures
        r == spec_count_char(v@, c),
{
    let mut n: usize = 0;
    let mut i: usize = 0;
    proof {
        assert(v@.subrange(0, 0) =~= Seq::<char>::empty());
    }
    while i < v.len()
        invariant
            i <= v@.len(),
            n <= i,
            n == spec_count_char(v@.subrange(0, i as int), c),
        decreases v@.len() - i,
    {
        proof {
            assert(v@.subrange(0, i as int + 1).drop_last() =~= v@.subrange(0, i as int));
            assert(v@.subrange(0, i as int + 1).last() == v@[i as int]);
        }
        if v[i] == c {
            n += 1;
        }
        i += 1;
    }
    proof {
        assert(v@.subrange(0, v@.len() as int) =~= v@);
    }
    n
}

/// `p` occurs in `s` starting at position `i`.
pub open spec fn spec_match_at(s: Seq<char>, p: Seq<char>, i: int) -> bool {
    0 <= i && i + p.len() <= s.len() && s.subrange(i, i + p.len() as int) == p
}

/// `p` occurs somewhere in `s`.
pub open spec fn spec_contains_sub(s: Seq<char>, p: Seq<char>) -> bool {
    exists|i: int| spec_match_at(s, p, i)
}

/// The least position at or after `i` where `p` occurs in `s`, if any.
pub open spec fn spec_find_from(s: Seq<char>, p: Seq<char>, i: int) -> Option<int>
    decreases s.len() - i,
{
    if i + p.len() > s.len() {
        None
    } else if spec_match_at(s, p, i) {
        Some(i)
    } else if i < s.len() {
        spec_find_from(s, p, i + 1)
    } else {
        None
    }
}

/// The least position where `p` occurs in `s`, if any.
pub open spec fn spec_find(s: Seq<char>, p: Seq<char>) -> Option<int> {
    spec_find_from(s, p, 0)
}

/// What `spec_find_from` returns is a match position, is minimal among
/// positions at or after `i`, and exists exactly when some match does.
pub proof fn lemma_find_from(s: Seq<char>, p: Seq<char>, i: int)
    requires
        0 <= i,
    ensures
        spec_find_from(s, p, i) matches Some(j) ==> i <= j && spec_match_at(s, p, j)
            && forall|k: int| i <= k < j ==> !spec_match_at(s, p, k),
        spec_find_from(s, p, i) is None ==> forall|k: int| i <= k ==> !spec_match_at(s, p, k),
    decreases s.len() - i,
{
    if i + p.len() > s.len() {
        assert forall|k: int| i <= k implies !spec_match_at(s, p, k) by {}
    } else if spec_match_at(s, p, i) {
    } else if i < s.len() {
        lemma_find_from(s, p, i + 1);
    } else {
        assert forall|k: int| i <= k implies !spec_match_at(s, p, k) by {}
    }
}

/// Checks whether `p` occurs at position `i` of `s`.
fn match_at(s: &Vec<char>, p: &Vec<char>, i: usize) -> (r: bool)
    requires
        i + p@.len() <= s@.len(),
    ensures
        r == spec_match_at(s@, p@, i as int),
{
    let sl = s.len();
    let pl = p.len();
    let mut j: usize = 0;
    while j < pl
        invariant
            j <= pl,
            sl == s@.len(),
            pl == p@.len(),
            i + pl <= sl,
            forall|k: int| 0 <= k < j ==> s@[i + k] == p@[k],
        decreases pl - j,
    {
        if s[i + j] != p[j] {
            proof {
                assert(s@.subrange(i as int, i + p@.len() as int)[j as int] != p@[j as int]);
            }
            return false;
        }
        j += 1;
    }
    proof {
        assert(s@.subrange(i as int, i + p@.len() as int) =~= p@);
    }
    true
}

/// The position of the first occurrence of `p` in `s`, if there is one.
pub fn find_sub(s: &Vec<char>, p: &Vec<char>) -> (r: Option<usize>)
    ensures
        r matches Some(i) ==> spec_find(s@, p@) == Some(i as int),
        r is None ==> spec_find(s@, p@) is None,
{
    if p.len() > s.len() {
        return None;
    }
    if p.len() == 0 {
        proof {
            assert(s@.subrange(0, 0) =~= p@);
        }
        return Some(0);
    }
    let sl = s.len();
    let mut i: usize = 0;
    let last = sl - p.len();
    while i <= last
        invariant
            i <= last + 1,
            sl == s@.len(),
            1 <= p@.len(),
            last == s@.len() - p@.len(),
            p@.len() <= s@.len(),
            spec_find(s@, p@) == spec_find_from(s@, p@, i as int),
        decreases last + 1 - i,
    {
        if match_at(s, p, i) {
            return Some(i);
        }
        i += 1;
    }
    None
}

/// Decides whether `p` occurs anywhere in `s`.
pub fn contains_sub(s: &Vec<char>, p: &Vec<char>) -> (r: bool)
    ensures
        r == spec_contains_sub(s@, p@),
{
    proof {
        lemma_find_from(s@, p@, 0);
    }
    match find_sub(s, p) {
        Some(_) => true,
        None => false,
    }
}

/// `s` without its leading whitespace.
pub open spec fn spec_drop_leading(s: Seq<char>) -> Seq<char>
    decreases s.len(),
{
    if s.len() > 0 && spec_is_space(s[0]) {
        spec_drop_leading(s.drop_first())
    } else {
        s
    }
}

/// `s` without its trailing whitespace.
pub open spec fn spec_drop_trailing(s: Seq<char>) -> Seq<char>
    decreases s.len(),
{
    if s.len() > 0 && spec_is_space(s.last()) {
        spec_drop_trailing(s.drop_last())
    } else {
        s
    }
}

/// `s` without leading and trailing whitespace, as `str::trim` strips it.
pub open spec fn spec_trim(s: Seq<char>) -> Seq<char> {
    spec_drop_trailing(spec_drop_leading(s))
}

/// The characters of `v` with leading and trailing whitespace removed.
pub fn trim_chars(v: &Vec<char>) -> (r: Vec<char>)
    ensures
        r@ == spec_trim(v@),
{
    let len = v.len();
    let mut lo: usize = 0;
    proof {
        assert(v@.skip(0) =~= v@);
    }
    while lo < len && is_space(v[lo])
        invariant
            lo <= len,
            len == v@.len(),
            spec_drop_leading(v@) == spec_drop_leading(v@.skip(lo as int)),
        decreases len - lo,
    {
        proof {
            assert(v@.skip(lo as int).drop_first() =~= v@.skip(lo as int + 1));
        }
        lo += 1;
    }
    proof {
        assert(spec_drop_leading(v@) =~= v@.skip(lo as int));
    }
    let mut hi: usize = len;
    while hi > lo && is_space(v[hi - 1])
        invariant
            lo <= hi <= len,
            len == v@.len(),
            spec_drop_leading(v@) == v@.skip(lo as int),
            spec_drop_trailing(v@.skip(lo as int)) == spec_drop_trailing(
                v@.subrange(lo as int, hi as int),
            ),
        decreases hi,
    {
        proof {
            assert(v@.subrange(lo as int, hi as int).drop_last() =~= v@.subrange(
                lo as int,
                hi as int - 1,
            ));
        }
        hi -= 1;
    }
    proof {
        assert(spec_trim(v@) =~= v@.subrange(lo as int, hi as int));
    }
    let mut r: Vec<char> = Vec::new();
    let mut i: usize = lo;
    while i < hi
        invariant
            lo <= i <= hi <= len,
            len == v@.len(),
            r@ == v@.subrange(lo as int, i as int),
        decreases hi - i,
    {
        r.push(v[i]);
        proof {
            assert(r@.drop_last() == v@.subrange(lo as int, i as int));
            assert(r@ =~= v@.subrange(lo as int, i as int + 1));
        }
        i += 1;
    }
    proof {
        assert(r@ =~= v@.subrange(lo as int, hi as int));
    }
    r
}

/// The maximal run of non-whitespace characters at the front of `s`.
pub open spec fn spec_take_word(s: Seq<char>) -> Seq<char>
    decreases s.len(),
{
    if s.len() > 0 && !spec_is_space(s[0]) {
        seq![s[0]] + spec_take_word(s.drop_first())
    } else {
        Seq::empty()
    }
}

/// A word never extends past the end of the text it was taken from.
pub proof fn lemma_take_word_len(s: Seq<char>)
    ensures
        spec_take_word(s).len() <= s.len(),
    decreases s.len(),
{
    if s.len() > 0 && !spec_is_space(s[0]) {
        lemma_take_word_len(s.drop_first());
    }
}

/// The whitespace-separated words of `s`, in order, as
/// `str::split_whitespace` yields them.
pub open spec fn spec_tokens(s: Seq<char>) -> Seq<Seq<char>>
    decreases s.len(),
{
    if s.len() == 0 {
        Seq::empty()
    } else if spec_is_space(s[0]) {
        spec_tokens(s.drop_first())
    } else {
        let word = spec_take_word(s);
        proof {
            lemma_take_word_len(s);
        }
        seq![word] + spec_tokens(s.skip(word.len() as int))
    }
}

/// The words joined with a single space between neighbours, as
/// `[&str]::join(" ")` builds it.
pub open spec fn spec_join_space(ts: Seq<Seq<char>>) -> Seq<char>
    decreases ts.len(),
{
    if ts.len() == 0 {
        Seq::empty()
    } else if ts.len() == 1 {
        ts[0]
    } else {
        ts[0] + seq![' '] + spec_join_space(ts.drop_first())
    }
}

/// The characters of `v` between positions `a` and `b`.
pub fn copy_range(v: &Vec<char>, a: usize, b: usize) -> (r: Vec<char>)
    requires
        a <= b <= v@.len(),
    ensures
        r@ == v@.subrange(a as int, b as int),
{
    let mut r: Vec<char> = Vec::new();
    let mut i: usize = a;
    while i < b
        invariant
            a <= i <= b <= v@.len(),
            r@ == v@.subrange(a as int, i as int),
        decreases b - i,
    {
        r.push(v[i]);
        proof {
            assert(r@ =~= v@.subrange(a as int, i as int + 1));
        }
        i += 1;
    }
    r
}

/// When the first `m` characters of `s` are visible and position `m` is the
/// end of the text or whitespace, the leading word is exactly those `m`
/// characters.
proof fn lemma_take_word_chars(s: Seq<char>, m: int)
    requires
        0 <= m <= s.len(),
        forall|k: int| 0 <= k < m ==> !spec_is_space(s[k]),
        m == s.len() || spec_is_space(s[m]),
    ensures
        spec_take_word(s) == s.subrange(0, m),
    decreases m,
{
    if m == 0 {
        assert(spec_take_word(s) =~= s.subrange(0, 0));
    } else {
        let t = s.drop_first();
        assert(forall|k: int| 0 <= k < m - 1 ==> !spec_is_space(#[trigger] t[k]));
        lemma_take_word_chars(t, m - 1);
        assert(spec_take_word(s) =~= s.subrange(0, m));
    }
}

/// The whitespace-separated words of `v`, in order.
pub fn tokens_chars(v: &Vec<char>) -> (r: Vec<Vec<char>>)
    ensures
        r.deep_view() == spec_tokens(v@),
{
    let len = v.len();
    let mut r: Vec<Vec<char>> = Vec::new();
    let mut i: usize = 0;
    proof {
        assert(v@.skip(0) =~= v@);
    }
    while i < len
        invariant
            i <= len,
            len == v@.len(),
            spec_tokens(v@) == r.deep_view() + spec_tokens(v@.skip(i as int)),
        decreases len - i,
    {
        if is_space(v[i]) {
            proof {
                assert(v@.skip(i as int).drop_first() =~= v@.skip(i as int + 1));
            }
            i += 1;
        } else {
            let start = i;
            let mut j = i;
            while j < len && !is_space(v[j])
                invariant
                    start <= j <= len,
                    len == v@.len(),
                    forall|k: int| start <= k < j ==> !spec_is_space(v@[k]),
                decreases len - j,
            {
                j += 1;
            }
            let word = copy_range(v, start, j);
            proof {
                let rest = v@.skip(start as int);
                assert(forall|k: int|
                    0 <= k < j - start ==> !spec_is_space(#[trigger] rest[k]));
                lemma_take_word_chars(rest, j - start);
                assert(spec_take_word(rest) =~= word@);
                assert(rest.skip(j - start) =~= v@.skip(j as int));
            }
            let ghost old_deep = r.deep_view();
            r.push(word);
            proof {
                assert(r.deep_view() =~~= old_deep.push(word@));
                assert(r.deep_view() + spec_tokens(v@.skip(j as int)) =~= old_deep + (seq![
                    word@,
                ] + spec_tokens(v@.skip(j as int))));
            }
            i = j;
        }
    }
    proof {
        assert(spec_tokens(v@.skip(len as int)) =~= Seq::<Seq<char>>::empty());
        assert(r.deep_view() =~= r.deep_view() + spec_tokens(v@.skip(len as int)));
    }
    r
}

/// Joining after appending one more word appends a separator and the word.
proof fn lemma_join_push(ts: Seq<Seq<char>>, w: Seq<char>)
    ensures
        ts.len() == 0 ==> spec_join_space(ts.push(w)) == w,
        ts.len() > 0 ==> spec_join_space(ts.push(w)) == spec_join_space(ts) + seq![' '] + w,
    decreases ts.len(),
{
    if ts.len() == 0 {
        assert(ts.push(w)[0] == w);
    } else if ts.len() == 1 {
        assert(ts.push(w).drop_first() =~= seq![w]);
        assert(spec_join_space(seq![w]) == w);
    } else {
        assert(ts.push(w).drop_first() =~= ts.drop_first().push(w));
        lemma_join_push(ts.drop_first(), w);
    }
}

/// The words of `parts` from position `from` on, joined with single spaces.
pub fn join_space_from(parts: &Vec<Vec<char>>, from: usize) -> (r: Vec<char>)
    requires
        from <= parts.deep_view().len(),
    ensures
        r@ == spec_join_space(parts.deep_view().skip(from as int)),
{
    let ghost ts = parts.deep_view();
    let mut r: Vec<char> = Vec::new();
    let mut k = from;
    proof {
        assert(parts.deep_view().len() == parts@.len());
        assert(ts.subrange(from as int, from as int) =~= Seq::<Seq<char>>::empty());
    }
    while k < parts.len()
        invariant
            from <= k <= parts@.len(),
            ts == parts.deep_view(),
            ts.len() == parts@.len(),
            r@ == spec_join_space(ts.subrange(from as int, k as int)),
        decreases parts@.len() - k,
    {
        proof {
            lemma_join_push(ts.subrange(from as int, k as int), ts[k as int]);
            assert(ts.subrange(from as int, k as int).push(ts[k as int]) =~= ts.subrange(
                from as int,
                k as int + 1,
            ));
        }
        if k > from {
            r.push(' ');
        }
        let word = &parts[k];
        let mut i: usize = 0;
        let ghost r_before = r@;
        while i < word.len()
            invariant
                i <= word@.len(),
                r@ == r_before + word@.subrange(0, i as int),
            decreases word@.len() - i,
        {
            r.push(word[i]);
            proof {
                assert(r@ =~= r_before + word@.subrange(0, i as int + 1));
            }
            i += 1;
        }
        proof {
            assert(word@.subrange(0, word@.len() as int) =~= word@);
            assert(word@ == ts[k as int]);
            if k > from {
                assert(r@ =~= spec_join_space(ts.subrange(from as int, k as int)) + seq![' ']
                    + ts[k as int]);
            }
        }
        k += 1;
    }
    proof {
        assert(ts.subrange(from as int, ts.len() as int) =~= ts.skip(from as int));
    }
    r
}

/// `s` with every leading occurrence of `p` removed, as
/// `str::trim_start_matches` strips it.
pub open spec fn spec_strip_prefix_rep(s: Seq<char>, p: Seq<char>) -> Seq<char>
    decreases s.len(),
{
    if p.len() > 0 && spec_starts_with(s, p) {
        spec_strip_prefix_rep(s.skip(p.len() as int), p)
    } else {
        s
    }
}

/// The characters of `v` with every leading occurrence of `p` removed.
pub fn strip_prefix_rep(v: &Vec<char>, p: &Vec<char>) -> (r: Vec<char>)
    ensures
        r@ == spec_strip_prefix_rep(v@, p@),
{
    if p.len() == 0 {
        let r = copy_range(v, 0, v.len());
        proof {
            assert(r@ =~= v@);
        }
        return r;
    }
    let mut rest = copy_range(v, 0, v.len());
    proof {
        assert(rest@ =~= v@);
    }
    while starts_with_chars(&rest, p)
        invariant
            p@.len() > 0,
            spec_strip_prefix_rep(v@, p@) == spec_strip_prefix_rep(rest@, p@),
        decreases rest@.len(),
    {
        let next = copy_range(&rest, p.len(), rest.len());
        proof {
            assert(rest@.subrange(p@.len() as int, rest@.len() as int) =~= rest@.skip(
                p@.len() as int,
            ));
        }
        rest = next;
    }
    rest
}

/// The ASCII-uppercase counterpart of `c`; other characters are unchanged.
pub open spec fn spec_upper_char(c: char) -> char {
    if 'a' <= c && c <= 'z' {
        ((c as u8) - 32) as char
    } else {
        c
    }
}

/// The ASCII-lowercase counterpart of `c`; other characters are unchanged.
pub open spec fn spec_lower_char(c: char) -> char {
    if 'A' <= c && c <= 'Z' {
        ((c as u8) + 32) as char
    } else {
        c
    }
}

/// Maps `c` to ASCII uppercase.
pub fn upper_char(c: char) -> (r: char)
    ensures
        r == spec_upper_char(c),
{
    if 'a' <= c && c <= 'z' {
        ((c as u8) - 32) as char
    } else {
        c
    }
}

/// Maps `c` to ASCII lowercase.
pub fn lower_char(c: char) -> (r: char)
    ensures
        r == spec_lower_char(c),
{
    if 'A' <= c && c <= 'Z' {
        ((c as u8) + 32) as char
    } else {
        c
    }
}

/// `s` with every ASCII letter mapped to uppercase.
pub open spec fn spec_upper(s: Seq<char>) -> Seq<char> {
    s.map_values(|c: char| spec_upper_char(c))
}

/// The characters of `v` with every ASCII letter mapped to uppercase.
pub fn upper_chars(v: &Vec<char>) -> (r: Vec<char>)
    ensures
        r@ == spec_upper(v@),
{
    let mut r: Vec<char> = Vec::new();
    let mut i: usize = 0;
    while i < v.len()
        invariant
            i <= v@.len(),
            r@.len() == i,
            forall|j: int| 0 <= j < i ==> r@[j] == spec_upper_char(v@[j]),
        decreases v@.len() - i,
    {
        r.push(upper_char(v[i]));
        i += 1;
    }
    proof {
        assert(r@ =~= spec_upper(v@));
    }
    r
}

/// The two strings are equal once ASCII letters are mapped to one case,
/// as `str::eq_ignore_ascii_case` compares them.
pub open spec fn spec_eq_ignore_case(a: Seq<char>, b: Seq<char>) -> bool {
    a.map_values(|c: char| spec_lower_char(c)) == b.map_values(|c: char| spec_lower_char(c))
}

/// Decides equality up to ASCII case.
pub fn eq_ignore_case(a: &str, b: &str) -> (r: bool)
    ensures
        r == spec_eq_ignore_case(a@, b@),
{
    let na = a.unicode_len();
    let nb = b.unicode_len();
    if na != nb {
        proof {
            assert(a@.map_values(|c: char| spec_lower_char(c)).len() == a@.len());
            assert(b@.map_values(|c: char| spec_lower_char(c)).len() == b@.len());
        }
        return false;
    }
    let mut i: usize = 0;
    while i < na
        invariant
            i <= na,
            na == a@.len(),
            na == b@.len(),
            forall|j: int| 0 <= j < i ==> spec_lower_char(a@[j]) == spec_lower_char(b@[j]),
        decreases na - i,
    {
        if lower_char(a.get_char(i)) != lower_char(b.get_char(i)) {
            proof {
                assert(a@.map_values(|c: char| spec_lower_char(c))[i as int] != b@.map_values(
                    |c: char| spec_lower_char(c),
                )[i as int]);
            }
            return false;
        }
        i += 1;
    }
    proof {
        assert(a@.map_values(|c: char| spec_lower_char(c)) =~= b@.map_values(
            |c: char| spec_lower_char(c),
        ));
    }
    true
}

} // verus!
