//! Verified text primitives over `&str` and `String`, specified against
//! the `Seq<char>` views of the strings: substring search, prefix tests,
//! whitespace trimming, splitting on a separator, and joining lines.

use vstd::prelude::*;
use vstd::string::*;

verus! {

/// The characters that count as whitespace when a line or a field is
/// trimmed: the Unicode `White_Space` set.
pub open spec fn white(c: char) -> bool {
    c == ' ' || c == '\t' || c == '\n' || c == '\r' || c == '\u{000B}' || c == '\u{000C}'
        || c == '\u{0085}' || c == '\u{00A0}' || c == '\u{1680}'
        || (0x2000 <= c as u32 && c as u32 <= 0x200A)
        || c == '\u{2028}' || c == '\u{2029}' || c == '\u{202F}' || c == '\u{205F}'
        || c == '\u{3000}'
}

pub fn is_white(c: char) -> (r: bool)
    ensures
        r == white(c),
{
    c == ' ' || c == '\t' || c == '\n' || c == '\r' || c == '\u{000B}' || c == '\u{000C}'
        || c == '\u{0085}' || c == '\u{00A0}' || c == '\u{1680}'
        || (0x2000 <= c as u32 && c as u32 <= 0x200A)
        || c == '\u{2028}' || c == '\u{2029}' || c == '\u{202F}' || c == '\u{205F}'
        || c == '\u{3000}'
}

/// The pattern `pat` occurs in `s` starting at position `i`.
pub open spec fn matches_at(s: Seq<char>, pat: Seq<char>, i: int) -> bool {
    0 <= i && i + pat.len() <= s.len() && s.subrange(i, i + pat.len() as int) == pat
}

/// The first position at or after `i` where `pat` occurs in `s`.
pub open spec fn find_from(s: Seq<char>, pat: Seq<char>, i: int) -> Option<int>
    decreases s.len() - i,
{
    if i < 0 || i + pat.len() > s.len() {
        None
    } else if pat.len() == 0 {
        Some(i)
    } else if matches_at(s, pat, i) {
        Some(i)
    } else {
        find_from(s, pat, i + 1)
    }
}

/// The first position where `pat` occurs in `s`.
pub open spec fn find(s: Seq<char>, pat: Seq<char>) -> Option<int> {
    find_from(s, pat, 0)
}

pub open spec fn contains_sub(s: Seq<char>, pat: Seq<char>) -> bool {
    find(s, pat) is Some
}

pub open spec fn starts_with(s: Seq<char>, pat: Seq<char>) -> bool {
    matches_at(s, pat, 0)
}

/// `find_from` yields the first match: nothing matches earlier.
pub proof fn lemma_find_from_first(s: Seq<char>, pat: Seq<char>, i: int, k: int)
    requires
        0 <= i <= k,
        find_from(s, pat, i) is Some,
        k < find_from(s, pat, i)->0,
    ensures
        !matches_at(s, pat, k),
    decreases k - i,
{
    if i + pat.len() > s.len() {
    } else if pat.len() == 0 {
    } else if matches_at(s, pat, i) {
    } else {
        if k == i {
        } else {
            lemma_find_from_first(s, pat, i + 1, k);
        }
    }
}

pub proof fn lemma_find_from_some(s: Seq<char>, pat: Seq<char>, i: int)
    requires
        0 <= i,
        find_from(s, pat, i) is Some,
    ensures
        i <= find_from(s, pat, i)->0,
        matches_at(s, pat, find_from(s, pat, i)->0),
    decreases s.len() - i,
{
    if i + pat.len() > s.len() {
    } else if pat.len() == 0 {
        assert(s.subrange(i, i as int) =~= pat);
    } else if matches_at(s, pat, i) {
    } else {
        lemma_find_from_some(s, pat, i + 1);
    }
}

/// If some position at or after `i` matches, `find_from(s, pat, i)` succeeds.
pub proof fn lemma_find_from_complete(s: Seq<char>, pat: Seq<char>, i: int, j: int)
    requires
        0 <= i <= j,
        matches_at(s, pat, j),
    ensures
        find_from(s, pat, i) is Some,
    decreases s.len() - i,
{
    if i + pat.len() > s.len() {
        assert(false);
    } else if pat.len() == 0 {
    } else if matches_at(s, pat, i) {
    } else {
        lemma_find_from_complete(s, pat, i + 1, j);
    }
}

pub fn match_at(s: &str, pat: &str, i: usize) -> (r: bool)
    ensures
        r == matches_at(s@, pat@, i as int),
{
    let n = s.unicode_len();
    let m = pat.unicode_len();
    if i > n || m > n - i {
        return false;
    }
    let mut j: usize = 0;
    while j < m
        invariant
            i + m <= n,
            n == s@.len(),
            m == pat@.len(),
            j <= m,
            forall|k: int| 0 <= k < j ==> s@[i + k] == pat@[k],
        decreases m - j,
    {
        if s.get_char(i + j) != pat.get_char(j) {
            proof {
                assert(s@.subrange(i as int, i + m as int)[j as int] == s@[i + j]);
            }
            return false;
        }
        j += 1;
    }
    proof {
        assert(s@.subrange(i as int, i + m as int) =~= pat@);
    }
    true
}

pub fn starts_with_str(s: &str, pat: &str) -> (r: bool)
    ensures
        r == starts_with(s@, pat@),
{
    match_at(s, pat, 0)
}

pub fn find_str(s: &str, pat: &str) -> (r: Option<usize>)
    ensures
        (match r {
            Some(i) => find(s@, pat@) == Some(i as int),
            None => find(s@, pat@) is None,
        }),
{
    let n = s.unicode_len();
    let m = pat.unicode_len();
    if m > n {
        return None;
    }
    if m == 0 {
        return Some(0);
    }
    let mut i: usize = 0;
    loop
        invariant
            0 < m <= n,
            n == s@.len(),
            m == pat@.len(),
            i <= n - m + 1,
            find_from(s@, pat@, 0) == find_from(s@, pat@, i as int),
        decreases n - m - i + 1,
    {
        if i > n - m {
            return None;
        }
        if match_at(s, pat, i) {
            return Some(i);
        }
        i += 1;
    }
}

pub fn contains_str(s: &str, pat: &str) -> (r: bool)
    ensures
        r == contains_sub(s@, pat@),
{
    find_str(s, pat).is_some()
}

pub fn eq_str(a: &str, b: &str) -> (r: bool)
    ensures
        r == (a@ == b@),
{
    let n = a.unicode_len();
    let m = b.unicode_len();
    if n != m {
        return false;
    }
    let r = match_at(a, b, 0);
    proof {
        assert(a@.subrange(0, n as int) =~= a@);
    }
    r
}

/// `s` with leading whitespace removed.
pub open spec fn trim_start_spec(s: Seq<char>) -> Seq<char>
    decreases s.len(),
{
    if s.len() > 0 && white(s[0]) {
        trim_start_spec(s.subrange(1, s.len() as int))
    } else {
        s
    }
}

/// `s` with trailing whitespace removed.
pub open spec fn trim_end_spec(s: Seq<char>) -> Seq<char>
    decreases s.len(),
{
    if s.len() > 0 && white(s[s.len() - 1]) {
        trim_end_spec(s.subrange(0, s.len() - 1))
    } else {
        s
    }
}

/// `s` with leading and trailing whitespace removed.
pub open spec fn trim_spec(s: Seq<char>) -> Seq<char> {
    trim_end_spec(trim_start_spec(s))
}

proof fn lemma_trim_start_at(s: Seq<char>, a: int)
    requires
        0 <= a <= s.len(),
        forall|j: int| 0 <= j < a ==> white(s[j]),
        a < s.len() ==> !white(s[a]),
    ensures
        trim_start_spec(s) == s.subrange(a, s.len() as int),
    decreases a,
{
    if a == 0 {
        assert(s.subrange(0, s.len() as int) =~= s);
    } else {
        let s1 = s.subrange(1, s.len() as int);
        lemma_trim_start_at(s1, a - 1);
        assert(s1.subrange(a - 1, s1.len() as int) =~= s.subrange(a, s.len() as int));
    }
}

proof fn lemma_trim_end_at(s: Seq<char>, b: int)
    requires
        0 <= b <= s.len(),
        forall|j: int| b <= j < s.len() ==> white(s[j]),
        b > 0 ==> !white(s[b - 1]),
    ensures
        trim_end_spec(s) == s.subrange(0, b),
    decreases s.len(),
{
    if b == s.len() {
        if s.len() > 0 && white(s[s.len() - 1]) {
            assert(false);
        } else {
            assert(s.subrange(0, s.len() as int) =~= s);
        }
    } else {
        let s1 = s.subrange(0, s.len() - 1);
        lemma_trim_end_at(s1, b);
        assert(s1.subrange(0, b) =~= s.subrange(0, b));
    }
}

pub fn trim_str<'a>(s: &'a str) -> (r: &'a str)
    ensures
        r@ == trim_spec(s@),
{
    let n = s.unicode_len();
    let mut a: usize = 0;
    while a < n && is_white(s.get_char(a))
        invariant
            a <= n,
            n == s@.len(),
            forall|j: int| 0 <= j < a ==> white(s@[j]),
        decreases n - a,
    {
        a += 1;
    }
    let mut b: usize = n;
    while b > a && is_white(s.get_char(b - 1))
        invariant
            a <= b <= n,
            n == s@.len(),
            forall|j: int| b <= j < n ==> white(s@[j]),
        decreases b,
    {
        b -= 1;
    }
    proof {
        lemma_trim_start_at(s@, a as int);
        let t = s@.subrange(a as int, n as int);
        lemma_trim_end_at(t, b - a);
        assert(t.subrange(0, b - a) =~= s@.subrange(a as int, b as int));
    }
    s.substring_char(a, b)
}

/// The pieces of `s` delimited by the separator `sep`, leftmost
/// occurrence first, as `str::split` yields them for a string pattern.
pub open spec fn split_spec(s: Seq<char>, sep: Seq<char>) -> Seq<Seq<char>>
    decreases s.len(),
{
    if sep.len() == 0 {
        seq![s]
    } else {
        match find(s, sep) {
            None => seq![s],
            Some(i) => {
                if 0 <= i && i + sep.len() <= s.len() {
                    seq![s.subrange(0, i)] + split_spec(
                        s.subrange(i + sep.len() as int, s.len() as int),
                        sep,
                    )
                } else {
                    seq![s]
                }
            },
        }
    }
}

pub fn split_str(s: &str, sep: &str) -> (r: Vec<String>)
    requires
        sep@.len() > 0,
    ensures
        r.deep_view() == split_spec(s@, sep@),
{
    let mut out: Vec<String> = Vec::new();
    let mut rest: &str = s;
    loop
        invariant
            sep@.len() > 0,
            split_spec(s@, sep@) == out.deep_view() + split_spec(rest@, sep@),
        decreases rest@.len(),
    {
        let rl = rest.unicode_len();
        let m = sep.unicode_len();
        let ghost prev = out.deep_view();
        match find_str(rest, sep) {
            None => {
                out.push(rest.to_owned());
                proof {
                    assert(out.deep_view() =~~= prev + seq![rest@]);
                    assert(out.deep_view() =~~= split_spec(s@, sep@));
                }
                return out;
            },
            Some(i) => {
                proof {
                    lemma_find_from_some(rest@, sep@, 0);
                }
                let ghost old_rest = rest@;
                let piece = rest.substring_char(0, i);
                out.push(piece.to_owned());
                rest = rest.substring_char(i + m, rl);
                proof {
                    assert(split_spec(old_rest, sep@) == seq![old_rest.subrange(0, i as int)]
                        + split_spec(rest@, sep@));
                    assert(out.deep_view() =~~= prev + seq![piece@]);
                    assert(out.deep_view() + split_spec(rest@, sep@) =~~= split_spec(s@, sep@));
                }
            },
        }
    }
}

/// The lines joined with the separator between consecutive lines.
pub open spec fn join_spec(lines: Seq<Seq<char>>, sep: Seq<char>) -> Seq<char>
    decreases lines.len(),
{
    if lines.len() == 0 {
        Seq::empty()
    } else if lines.len() == 1 {
        lines[0]
    } else {
        join_spec(lines.drop_last(), sep) + sep + lines.last()
    }
}

pub fn join_strings(lines: &Vec<String>, sep: &str) -> (r: String)
    ensures
        r@ == join_spec(lines.deep_view(), sep@),
{
    let mut r = String::new();
    let mut k: usize = 0;
    while k < lines.len()
        invariant
            k <= lines.len(),
            r@ == join_spec(lines.deep_view().take(k as int), sep@),
        decreases lines.len() - k,
    {
        if k > 0 {
            r.append(sep);
        }
        r.append(lines[k].as_str());
        proof {
            let dv = lines.deep_view();
            assert(dv.take(k + 1).drop_last() =~~= dv.take(k as int));
            assert(dv.take(k + 1).last() == dv[k as int]);
            if k == 0 {
                assert(join_spec(dv.take(1), sep@) == dv[0]);
            }
        }
        k += 1;
    }
    proof {
        assert(lines.deep_view().take(lines@.len() as int) =~~= lines.deep_view());
    }
    r
}

/// The character `c` does not occur in `s`.
pub open spec fn no_char(s: Seq<char>, c: char) -> bool {
    forall|i: int| 0 <= i < s.len() ==> s[i] != c
}

pub proof fn lemma_subrange_no_char(s: Seq<char>, a: int, b: int, c: char)
    requires
        no_char(s, c),
        0 <= a <= b <= s.len(),
    ensures
        no_char(s.subrange(a, b), c),
{
    assert forall|j: int| 0 <= j < b - a implies s.subrange(a, b)[j] != c by {
        assert(s.subrange(a, b)[j] == s[a + j]);
    }
}

pub proof fn lemma_concat_no_char(a: Seq<char>, b: Seq<char>, c: char)
    requires
        no_char(a, c),
        no_char(b, c),
    ensures
        no_char(a + b, c),
{
    assert forall|j: int| 0 <= j < (a + b).len() implies (a + b)[j] != c by {
        if j < a.len() {
            assert((a + b)[j] == a[j]);
        } else {
            assert((a + b)[j] == b[j - a.len()]);
        }
    }
}

proof fn lemma_trim_start_no_char(s: Seq<char>, c: char)
    requires
        no_char(s, c),
    ensures
        no_char(trim_start_spec(s), c),
    decreases s.len(),
{
    if s.len() > 0 && white(s[0]) {
        lemma_subrange_no_char(s, 1, s.len() as int, c);
        lemma_trim_start_no_char(s.subrange(1, s.len() as int), c);
    }
}

proof fn lemma_trim_end_no_char(s: Seq<char>, c: char)
    requires
        no_char(s, c),
    ensures
        no_char(trim_end_spec(s), c),
    decreases s.len(),
{
    if s.len() > 0 && white(s[s.len() - 1]) {
        lemma_subrange_no_char(s, 0, s.len() - 1, c);
        lemma_trim_end_no_char(s.subrange(0, s.len() - 1), c);
    }
}

/// Trimming never introduces a character.
pub proof fn lemma_trim_no_char(s: Seq<char>, c: char)
    requires
        no_char(s, c),
    ensures
        no_char(trim_spec(s), c),
{
    lemma_trim_start_no_char(s, c);
    lemma_trim_end_no_char(trim_start_spec(s), c);
}

/// Splitting never introduces a character into a piece.
pub proof fn lemma_split_no_char(s: Seq<char>, sep: Seq<char>, c: char)
    requires
        no_char(s, c),
    ensures
        forall|k: int|
            0 <= k < split_spec(s, sep).len() ==> no_char(#[trigger] split_spec(s, sep)[k], c),
    decreases s.len(),
{
    if sep.len() == 0 {
    } else {
        match find(s, sep) {
            None => {},
            Some(i) => {
                if 0 <= i && i + sep.len() <= s.len() {
                    let s2 = s.subrange(i + sep.len() as int, s.len() as int);
                    lemma_subrange_no_char(s, i + sep.len() as int, s.len() as int, c);
                    lemma_subrange_no_char(s, 0, i, c);
                    lemma_split_no_char(s2, sep, c);
                    let sp = split_spec(s, sep);
                    assert forall|k: int| 0 <= k < sp.len() implies no_char(
                        #[trigger] sp[k],
                        c,
                    ) by {
                        if k == 0 {
                            assert(sp[0] == s.subrange(0, i));
                        } else {
                            assert(sp[k] == split_spec(s2, sep)[k - 1]);
                        }
                    }
                }
            },
        }
    }
}

/// A single-character separator never occurs inside a piece of the
/// split.
pub proof fn lemma_split_sep_free(s: Seq<char>, sep: Seq<char>)
    requires
        sep.len() == 1,
    ensures
        forall|k: int|
            0 <= k < split_spec(s, sep).len() ==> no_char(#[trigger] split_spec(s, sep)[k], sep[0]),
    decreases s.len(),
{
    match find(s, sep) {
        None => {
            assert forall|k: int| 0 <= k < split_spec(s, sep).len() implies no_char(
                #[trigger] split_spec(s, sep)[k],
                sep[0],
            ) by {
                assert(split_spec(s, sep)[k] == s);
                assert forall|j: int| 0 <= j < s.len() implies s[j] != sep[0] by {
                    if s[j] == sep[0] {
                        assert(s.subrange(j, j + 1) =~= sep);
                        lemma_find_from_complete(s, sep, 0, j);
                        assert(false);
                    }
                }
            }
        },
        Some(i) => {
            lemma_find_from_some(s, sep, 0);
            let s2 = s.subrange(i + 1, s.len() as int);
            lemma_split_sep_free(s2, sep);
            assert forall|k: int| 0 <= k < split_spec(s, sep).len() implies no_char(
                #[trigger] split_spec(s, sep)[k],
                sep[0],
            ) by {
                if k == 0 {
                    let piece = s.subrange(0, i as int);
                    assert(split_spec(s, sep)[0] == piece);
                    assert forall|j: int| 0 <= j < piece.len() implies piece[j] != sep[0] by {
                        if piece[j] == sep[0] {
                            assert(s.subrange(j, j + 1) =~= sep);
                            lemma_find_from_first(s, sep, 0, j);
                            assert(false);
                        }
                    }
                } else {
                    assert(split_spec(s, sep)[k] == split_spec(s2, sep)[k - 1]);
                }
            }
        },
    }
}

/// Splitting text of the form `a<sep>b`, with no separator inside
/// `a`, yields `a` and then the pieces of `b`.
pub proof fn lemma_split_prepend(a: Seq<char>, sep: Seq<char>, b: Seq<char>)
    requires
        sep.len() == 1,
        no_char(a, sep[0]),
    ensures
        split_spec(a + sep + b, sep) == seq![a] + split_spec(b, sep),
{
    let s = a + sep + b;
    assert(s.subrange(a.len() as int, a.len() as int + 1) =~= sep);
    assert(matches_at(s, sep, a.len() as int));
    lemma_find_from_complete(s, sep, 0, a.len() as int);
    lemma_find_from_some(s, sep, 0);
    let j = find(s, sep)->0;
    if j < a.len() {
        assert(s.subrange(j, j + 1)[0] == s[j]);
        assert(s[j] == a[j]);
        assert(false);
    }
    if j > a.len() {
        lemma_find_from_first(s, sep, 0, a.len() as int);
        assert(false);
    }
    assert(s.subrange(0, j) =~= a);
    assert(s.subrange(j + 1, s.len() as int) =~= b);
}

/// Text without the separator splits into itself alone.
pub proof fn lemma_split_whole(a: Seq<char>, sep: Seq<char>)
    requires
        sep.len() == 1,
        no_char(a, sep[0]),
    ensures
        split_spec(a, sep) == seq![a],
{
    if find(a, sep) is Some {
        lemma_find_from_some(a, sep, 0);
        let j = find(a, sep)->0;
        assert(a.subrange(j, j + 1)[0] == a[j]);
        assert(false);
    }
}

/// Joining newline-free lines with the two-character terminator
/// leaves every line feed directly preceded by a carriage return.
pub proof fn lemma_join_crlf_no_bare_nl(lines: Seq<Seq<char>>)
    requires
        forall|k: int| 0 <= k < lines.len() ==> no_char(#[trigger] lines[k], '\n'),
    ensures
        forall|q: int|
            0 <= q < join_spec(lines, "\r\n"@).len() && #[trigger] join_spec(lines, "\r\n"@)[q]
                == '\n' ==> q > 0 && join_spec(lines, "\r\n"@)[q - 1] == '\r',
    decreases lines.len(),
{
    reveal_strlit("\r\n");
    let sep = "\r\n"@;
    if lines.len() == 0 {
    } else if lines.len() == 1 {
        assert forall|q: int|
            0 <= q < join_spec(lines, sep).len() && #[trigger] join_spec(lines, sep)[q]
                == '\n' implies q > 0 && join_spec(lines, sep)[q - 1] == '\r' by {
            assert(join_spec(lines, sep)[q] == lines[0][q]);
            assert(false);
        }
    } else {
        let dl = lines.drop_last();
        assert forall|k: int| 0 <= k < dl.len() implies no_char(#[trigger] dl[k], '\n') by {
            assert(dl[k] == lines[k]);
        }
        lemma_join_crlf_no_bare_nl(dl);
        let jd = join_spec(dl, sep);
        let last = lines.last();
        let j = join_spec(lines, sep);
        assert(j == jd + sep + last);
        assert forall|q: int| 0 <= q < j.len() && #[trigger] j[q] == '\n' implies q > 0 && j[q
            - 1] == '\r' by {
            if q < jd.len() {
                assert(j[q] == jd[q]);
                if q > 0 {
                    assert(j[q - 1] == jd[q - 1]);
                }
            } else if q == jd.len() {
                assert(j[q] == sep[0]);
                assert(false);
            } else if q == jd.len() + 1 {
                assert(j[q - 1] == sep[0]);
            } else {
                assert(j[q] == last[q - jd.len() - 2]);
                assert(false);
            }
        }
    }
}

/// Appends clones of all of `src` to `dst`, in order.
pub fn append_all(dst: &mut Vec<String>, src: &Vec<String>)
    ensures
        final(dst).deep_view() == old(dst).deep_view() + src.deep_view(),
{
    let mut i: usize = 0;
    while i < src.len()
        invariant
            i <= src.len(),
            dst.deep_view() == old(dst).deep_view() + src.deep_view().subrange(0, i as int),
        decreases src.len() - i,
    {
        let ghost before = dst.deep_view();
        let x = (&src[i]).clone();
        proof {
            assert(x@ == src@[i as int]@);
            assert(src.deep_view()[i as int] == src@[i as int]@);
        }
        dst.push(x);
        proof {
            assert(dst.deep_view() =~~= before.push(src.deep_view()[i as int]));
            assert(before.push(src.deep_view()[i as int]) =~~= old(dst).deep_view()
                + src.deep_view().subrange(0, i + 1));
        }
        i += 1;
    }
    proof {
        assert(src.deep_view().subrange(0, src@.len() as int) =~~= src.deep_view());
    }
}

/// The last position where the character `c` occurs in `s`.
pub open spec fn rfind_char(s: Seq<char>, c: char) -> Option<int>
    decreases s.len(),
{
    if s.len() == 0 {
        None
    } else if s[s.len() - 1] == c {
        Some(s.len() - 1)
    } else {
        rfind_char(s.subrange(0, s.len() - 1), c)
    }
}

pub fn rfind_char_str(s: &str, c: char) -> (r: Option<usize>)
    ensures
        (match r {
            Some(i) => rfind_char(s@, c) == Some(i as int),
            None => rfind_char(s@, c) is None,
        }),
{
    let n = s.unicode_len();
    proof {
        assert(s@.subrange(0, n as int) =~= s@);
    }
    let mut b: usize = n;
    loop
        invariant
            b <= n,
            n == s@.len(),
            rfind_char(s@, c) == rfind_char(s@.subrange(0, b as int), c),
        decreases b,
    {
        if b == 0 {
            return None;
        }
        if s.get_char(b - 1) == c {
            proof {
                assert(s@.subrange(0, b as int)[b - 1] == s@[b - 1]);
            }
            return Some(b - 1);
        }
        proof {
            assert(s@.subrange(0, b as int).subrange(0, b - 1) =~= s@.subrange(0, b - 1));
            assert(s@.subrange(0, b as int)[b - 1] == s@[b - 1]);
        }
        b -= 1;
    }
}

} // verus!
