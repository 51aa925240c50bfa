//! The field scraper and the argument quoter: the scraper pulls a
//! delimited, whitespace-trimmed field out of raw chart text; the
//! quoter wraps a string for display in a spawn log line.

use vstd::prelude::*;
use vstd::string::*;

use crate::text::{
    contains_sub, find, find_from, find_str, lemma_find_from_some, starts_with, trim_spec,
    trim_str, white,
};

verus! {

/// What the scraper yields: the text between the first occurrence of
/// `start` and the next occurrence of `end` after it, trimmed; empty
/// when either marker is missing.
pub open spec fn spec_scrape(data: Seq<char>, start: Seq<char>, end: Seq<char>) -> Seq<char> {
    match find(data, start) {
        None => Seq::empty(),
        Some(i) => {
            let tail = data.subrange(i + start.len() as int, data.len() as int);
            match find(tail, end) {
                None => Seq::empty(),
                Some(j) => trim_spec(tail.subrange(0, j)),
            }
        },
    }
}

/// Extracts the trimmed text standing between the first occurrence of
/// `start` and the next occurrence of `end`; yields the empty string
/// when either marker is absent.
pub fn scrape(data: &str, start: &str, end: &str) -> (r: String)
    ensures
        r@ == spec_scrape(data@, start@, end@),
{
    match find_str(data, start) {
        None => String::new(),
        Some(i) => {
            proof {
                lemma_find_from_some(data@, start@, 0);
            }
            let n = data.unicode_len();
            let m = start.unicode_len();
            let tail = data.substring_char(i + m, n);
            match find_str(tail, end) {
                None => String::new(),
                Some(j) => {
                    proof {
                        lemma_find_from_some(tail@, end@, 0);
                    }
                    let piece = tail.substring_char(0, j);
                    trim_str(piece).to_owned()
                },
            }
        },
    }
}

/// A marker that does not occur in the text scrapes to nothing.
pub proof fn lemma_scrape_missing(data: Seq<char>, start: Seq<char>, end: Seq<char>)
    requires
        !contains_sub(data, start),
    ensures
        spec_scrape(data, start, end) == Seq::<char>::empty(),
{
}

/// A character that forces the quoter to wrap its input.
pub open spec fn quotable(c: char) -> bool {
    white(c) || c == '"' || c == '\'' || c == '\\'
}

pub open spec fn needs_quote(s: Seq<char>) -> bool {
    exists|i: int| 0 <= i < s.len() && quotable(s[i])
}

/// `s` with every double quote preceded by a backslash.
pub open spec fn escaped(s: Seq<char>) -> Seq<char>
    decreases s.len(),
{
    if s.len() == 0 {
        Seq::empty()
    } else if s[0] == '"' {
        seq!['\\', '"'] + escaped(s.subrange(1, s.len() as int))
    } else {
        seq![s[0]] + escaped(s.subrange(1, s.len() as int))
    }
}

/// What the quoter yields: the input unchanged when it holds no
/// whitespace, quote or backslash, else the input with double quotes
/// escaped and wrapped in double quotes.
pub open spec fn spec_quote(s: Seq<char>) -> Seq<char> {
    if needs_quote(s) {
        seq!['"'] + escaped(s) + seq!['"']
    } else {
        s
    }
}

proof fn lemma_escaped_concat(a: Seq<char>, b: Seq<char>)
    ensures
        escaped(a + b) == escaped(a) + escaped(b),
    decreases a.len(),
{
    if a.len() == 0 {
        assert(a + b =~= b);
        assert(escaped(a) + escaped(b) =~= escaped(b));
    } else {
        let ab = a + b;
        assert(ab[0] == a[0]);
        assert(ab.subrange(1, ab.len() as int) =~= a.subrange(1, a.len() as int) + b);
        lemma_escaped_concat(a.subrange(1, a.len() as int), b);
        if a[0] == '"' {
            assert(escaped(a + b) =~= escaped(a) + escaped(b));
        } else {
            assert(escaped(a + b) =~= escaped(a) + escaped(b));
        }
    }
}

proof fn lemma_escaped_snoc(s: Seq<char>, i: int)
    requires
        0 <= i < s.len(),
    ensures
        escaped(s.subrange(0, i + 1)) == escaped(s.subrange(0, i)) + (if s[i] == '"' {
            seq!['\\', '"']
        } else {
            seq![s[i]]
        }),
{
    assert(s.subrange(0, i + 1) =~= s.subrange(0, i) + seq![s[i]]);
    lemma_escaped_concat(s.subrange(0, i), seq![s[i]]);
    let single = seq![s[i]];
    assert(single.subrange(1, 1) =~= Seq::<char>::empty());
    assert(escaped(single.subrange(1, 1)) == Seq::<char>::empty());
    if s[i] == '"' {
        assert(escaped(single) =~= seq!['\\', '"']);
    } else {
        assert(escaped(single) =~= seq![s[i]]);
    }
}

/// Wraps `s` in double quotes, escaping inner double quotes, when it
/// holds whitespace, a quote, an apostrophe or a backslash; otherwise
/// returns it unchanged.
pub fn quote(s: &str) -> (r: String)
    ensures
        r@ == spec_quote(s@),
{
    let n = s.unicode_len();
    let mut any = false;
    let mut i: usize = 0;
    while i < n
        invariant
            i <= n,
            n == s@.len(),
            any == exists|k: int| 0 <= k < i && quotable(s@[k]),
        decreases n - i,
    {
        let c = s.get_char(i);
        if crate::text::is_white(c) || c == '"' || c == '\'' || c == '\\' {
            any = true;
        }
        i += 1;
    }
    if !any {
        return s.to_owned();
    }
    let mut r = "\"".to_owned();
    proof {
        reveal_strlit("\"");
        assert(r@ =~= seq!['"'] + escaped(s@.subrange(0, 0)));
    }
    let mut j: usize = 0;
    while j < n
        invariant
            j <= n,
            n == s@.len(),
            needs_quote(s@),
            r@ == seq!['"'] + escaped(s@.subrange(0, j as int)),
        decreases n - j,
    {
        let c = s.get_char(j);
        if c == '"' {
            r.append("\\\"");
            proof {
                reveal_strlit("\\\"");
                assert("\\\""@ =~= seq!['\\', '"']);
            }
        } else {
            r.append(s.substring_char(j, j + 1));
            proof {
                assert(s@.subrange(j as int, j + 1) =~= seq![s@[j as int]]);
            }
        }
        proof {
            lemma_escaped_snoc(s@, j as int);
        }
        j += 1;
    }
    r.append("\"");
    proof {
        reveal_strlit("\"");
        assert(s@.subrange(0, n as int) =~= s@);
        assert(r@ =~= seq!['"'] + escaped(s@) + seq!['"']);
    }
    r
}

} // verus!
