//! The pure planning steps of the clone orchestrator: reading the
//! background declaration out of a chart, computing the next free
//! folder number from the existing folder names, sanitizing a title
//! into a filesystem-safe fragment, forming the destination folder and
//! chart file names, and deciding which source assets to copy.  The
//! caller does the directory walking and the copying; these functions
//! only decide.

use vstd::prelude::*;
use vstd::string::*;

use crate::model::BeatmapMetadata;
use crate::num::{dec_nat, parse_i32_opt, parse_i32_str, u32_to_string};
use crate::skin::{is_skin_file, lower, spec_is_skin_file, to_lower_ascii};
use crate::text::{
    eq_str, find, find_str, lemma_find_from_some, rfind_char, rfind_char_str, split_spec,
    split_str, starts_with, starts_with_str, trim_spec, trim_str,
};

verus! {

/// The background filename declared by one trimmed Events line: the
/// text between the first two double quotes of a line that starts
/// `0,0,` or `Background,`.
pub open spec fn bg_of_line(t: Seq<char>) -> Option<Seq<char>> {
    if starts_with(t, "0,0,"@) || starts_with(t, "Background,"@) {
        match find(t, "\""@) {
            None => None,
            Some(q1) => {
                let after = t.subrange(q1 + 1, t.len() as int);
                match find(after, "\""@) {
                    None => None,
                    Some(q2) => Some(after.subrange(0, q2)),
                }
            },
        }
    } else {
        None
    }
}

/// The first background declaration among the lines.
pub open spec fn bg_scan(ls: Seq<Seq<char>>) -> Option<Seq<char>>
    decreases ls.len(),
{
    if ls.len() == 0 {
        None
    } else {
        match bg_of_line(trim_spec(ls[0])) {
            Some(b) => Some(b),
            None => bg_scan(ls.subrange(1, ls.len() as int)),
        }
    }
}

/// The background filename a chart declares, scanning its lines in
/// order.
pub open spec fn spec_get_background(content: Seq<char>) -> Option<Seq<char>> {
    bg_scan(split_spec(content, "\n"@))
}

/// Finds the background filename declared in a chart's Events lines:
/// the quoted name on the first line starting `0,0,` or `Background,`.
pub fn get_background_from_osu(content: &str) -> (r: Option<String>)
    ensures
        (match r {
            Some(b) => spec_get_background(content@) == Some(b@),
            None => spec_get_background(content@) is None,
        }),
{
    proof {
        reveal_strlit("\n");
    }
    let lines = split_str(content, "\n");
    let ghost ldv = lines.deep_view();
    let mut k: usize = 0;
    proof {
        assert(ldv.subrange(0 as int, ldv.len() as int) =~~= ldv);
    }
    while k < lines.len()
        invariant
            k <= lines.len(),
            ldv == lines.deep_view(),
            ldv.len() == lines@.len(),
            spec_get_background(content@) == bg_scan(ldv.subrange(k as int, ldv.len() as int)),
        decreases lines.len() - k,
    {
        let ghost rest = ldv.subrange(k as int, ldv.len() as int);
        proof {
            assert(rest[0] == ldv[k as int]);
            assert(ldv[k as int] == lines@[k as int]@);
            assert(rest.subrange(1, rest.len() as int) =~~= ldv.subrange(
                k + 1,
                ldv.len() as int,
            ));
        }
        let line: &String = &lines[k];
        let t = trim_str(line.as_str());
        if starts_with_str(t, "0,0,") || starts_with_str(t, "Background,") {
            match find_str(t, "\"") {
                Some(q1) => {
                    proof {
                        reveal_strlit("\"");
                        lemma_find_from_some(t@, "\""@, 0);
                    }
                    let tn = t.unicode_len();
                    let after = t.substring_char(q1 + 1, tn);
                    match find_str(after, "\"") {
                        Some(q2) => {
                            proof {
                                lemma_find_from_some(after@, "\""@, 0);
                            }
                            return Some(after.substring_char(0, q2).to_owned());
                        },
                        None => {},
                    }
                },
                None => {},
            }
        }
        k += 1;
    }
    None
}

/// The number carried by a folder name of the form `beatmap-<N>-...`.
pub open spec fn folder_num(name: Seq<char>) -> Option<int> {
    if starts_with(name, "beatmap-"@) {
        let rest = name.subrange("beatmap-"@.len() as int, name.len() as int);
        let numpart = match find(rest, "-"@) {
            None => rest,
            Some(i) => rest.subrange(0, i),
        };
        parse_i32_opt(numpart)
    } else {
        None
    }
}

pub open spec fn max2(a: int, b: int) -> int {
    if a > b {
        a
    } else {
        b
    }
}

/// The largest number carried by any of the folder names, at least 0.
pub open spec fn max_folder_num(names: Seq<Seq<char>>) -> int
    decreases names.len(),
{
    if names.len() == 0 {
        0
    } else {
        let m = max_folder_num(names.subrange(1, names.len() as int));
        match folder_num(names[0]) {
            Some(v) => max2(v, m),
            None => m,
        }
    }
}

proof fn lemma_max_folder_num_nonneg(names: Seq<Seq<char>>)
    ensures
        max_folder_num(names) >= 0,
    decreases names.len(),
{
    if names.len() > 0 {
        lemma_max_folder_num_nonneg(names.subrange(1, names.len() as int));
    }
}

/// Computes the next free folder number: one past the largest number
/// among existing `beatmap-<N>-...` folder names, starting at 1.
pub fn next_beatmap_number(folder_names: &Vec<String>) -> (n: i32)
    requires
        max_folder_num(folder_names.deep_view()) < 0x7fff_ffff,
    ensures
        n as int == max_folder_num(folder_names.deep_view()) + 1,
{
    let ghost ldv = folder_names.deep_view();
    let mut m: i32 = 0;
    let mut k: usize = 0;
    proof {
        assert(ldv.subrange(0 as int, ldv.len() as int) =~~= ldv);
        lemma_max_folder_num_nonneg(ldv);
    }
    while k < folder_names.len()
        invariant
            k <= folder_names.len(),
            ldv == folder_names.deep_view(),
            ldv.len() == folder_names@.len(),
            m >= 0,
            max_folder_num(ldv) == max2(
                m as int,
                max_folder_num(ldv.subrange(k as int, ldv.len() as int)),
            ),
            max_folder_num(ldv) < 0x7fff_ffff,
        decreases folder_names.len() - k,
    {
        let ghost rest = ldv.subrange(k as int, ldv.len() as int);
        proof {
            reveal_strlit("beatmap-");
            assert(rest[0] == ldv[k as int]);
            assert(ldv[k as int] == folder_names@[k as int]@);
            assert(rest.subrange(1, rest.len() as int) =~~= ldv.subrange(
                k + 1,
                ldv.len() as int,
            ));
        }
        let name: &String = &folder_names[k];
        if starts_with_str(name.as_str(), "beatmap-") {
            let nn = name.as_str().unicode_len();
            let rest_str = name.as_str().substring_char(8, nn);
            let numpart = match find_str(rest_str, "-") {
                None => rest_str,
                Some(i) => {
                    proof {
                        reveal_strlit("-");
                        lemma_find_from_some(rest_str@, "-"@, 0);
                    }
                    rest_str.substring_char(0, i)
                },
            };
            match parse_i32_str(numpart) {
                Some(v) => {
                    if v > m {
                        m = v;
                    }
                },
                None => {},
            }
        }
        k += 1;
    }
    proof {
        assert(max_folder_num(ldv.subrange(k as int, ldv.len() as int)) == 0);
    }
    m + 1
}

/// Whether `c` is a Unicode alphanumeric character.  The result is a
/// property of the character alone.
pub uninterp spec fn alphanumeric(c: char) -> bool;

/// Relies on char::is_alphanumeric: whether the character is Unicode
/// alphabetic or numeric.
#[verifier::external_body]
fn is_alphanumeric_char(c: char) -> (r: bool)
    ensures
        r == alphanumeric(c),
{
    c.is_alphanumeric()
}

/// A title folded to a filesystem-safe fragment: alphanumeric
/// characters kept, every other character (spaces included) replaced
/// with an underscore.
pub open spec fn spec_sanitize_title(s: Seq<char>) -> Seq<char> {
    Seq::new(s.len(), |i: int| if alphanumeric(s[i]) { s[i] } else { '_' })
}

/// Folds a title into a filesystem-safe fragment: alphanumeric
/// characters are kept, all others (spaces included) become
/// underscores.
pub fn sanitize_title(title: &str) -> (r: String)
    ensures
        r@ == spec_sanitize_title(title@),
{
    let n = title.unicode_len();
    let mut r = String::new();
    let mut i: usize = 0;
    proof {
        assert(r@ =~= spec_sanitize_title(title@.subrange(0, 0)));
    }
    while i < n
        invariant
            i <= n,
            n == title@.len(),
            r@ == spec_sanitize_title(title@.subrange(0, i as int)),
        decreases n - i,
    {
        let c = title.get_char(i);
        if is_alphanumeric_char(c) {
            let piece = title.substring_char(i, i + 1);
            proof {
                assert(piece@ =~= seq![title@[i as int]]);
            }
            r.append(piece);
        } else {
            r.append("_");
            proof {
                reveal_strlit("_");
            }
        }
        proof {
            assert(spec_sanitize_title(title@.subrange(0, i + 1)) =~= spec_sanitize_title(
                title@.subrange(0, i as int),
            ) + seq![if alphanumeric(title@[i as int]) {
                title@[i as int]
            } else {
                '_'
            }]);
        }
        i += 1;
    }
    proof {
        assert(title@.subrange(0, n as int) =~= title@);
    }
    r
}

/// The destination folder name `beatmap-<N>-<safeTitle>`.
pub open spec fn spec_folder_name(num: int, safe_title: Seq<char>) -> Seq<char>
    recommends
        num >= 0,
{
    "beatmap-"@ + dec_nat(num as nat) + "-"@ + safe_title
}

/// Forms the destination folder name `beatmap-<N>-<safeTitle>`.
pub fn new_folder_name(num: i32, safe_title: &str) -> (r: String)
    requires
        num >= 0,
    ensures
        r@ == spec_folder_name(num as int, safe_title@),
{
    let mut r = "beatmap-".to_owned();
    let digits = u32_to_string(num as u32);
    r.append(digits.as_str());
    r.append("-");
    r.append(safe_title);
    r
}

/// The name of one written chart file:
/// `<artist> - <title> (<creator>) [<difficulty>].osu`.
pub open spec fn spec_osu_file_name(
    artist: Seq<char>,
    title: Seq<char>,
    creator: Seq<char>,
    difficulty: Seq<char>,
) -> Seq<char> {
    artist + " - "@ + title + " ("@ + creator + ") ["@ + difficulty + "].osu"@
}

/// Forms the file name of one cloned chart from the target metadata
/// and the difficulty name.
pub fn osu_file_name(metadata: &BeatmapMetadata, difficulty: &str) -> (r: String)
    ensures
        r@ == spec_osu_file_name(
            metadata.artist@,
            metadata.title@,
            metadata.creator@,
            difficulty@,
        ),
{
    let mut r = metadata.artist.clone();
    r.append(" - ");
    r.append(metadata.title.as_str());
    r.append(" (");
    r.append(metadata.creator.as_str());
    r.append(") [");
    r.append(difficulty);
    r.append("].osu");
    r
}

/// Whether a filename carries one of the copied media extensions
/// (audio `mp3`/`ogg`/`wav`, image `jpg`/`jpeg`/`png`), compared
/// case-insensitively; a name whose only `.` is its first character
/// has no extension.
pub open spec fn spec_is_media_file(name: Seq<char>) -> bool {
    match rfind_char(name, '.') {
        None => false,
        Some(i) => i > 0 && {
            let e = lower(name.subrange(i + 1, name.len() as int));
            e == "mp3"@ || e == "ogg"@ || e == "wav"@ || e == "jpg"@ || e == "jpeg"@ || e
                == "png"@
        },
    }
}

proof fn lemma_rfind_some_bounds(s: Seq<char>, c: char)
    requires
        rfind_char(s, c) is Some,
    ensures
        0 <= rfind_char(s, c)->0 < s.len(),
    decreases s.len(),
{
    if s.len() == 0 {
    } else if s[s.len() - 1] == c {
    } else {
        lemma_rfind_some_bounds(s.subrange(0, s.len() - 1), c);
    }
}

/// Decides whether a source file is a media asset to copy.
pub fn is_media_file(filename: &str) -> (r: bool)
    ensures
        r == spec_is_media_file(filename@),
{
    match rfind_char_str(filename, '.') {
        None => false,
        Some(i) => {
            if i == 0 {
                false
            } else {
                proof {
                    lemma_rfind_some_bounds(filename@, '.');
                }
                let n = filename.unicode_len();
                let ext = filename.substring_char(i + 1, n);
                let lowered = to_lower_ascii(ext);
                let le = lowered.as_str();
                eq_str(le, "mp3") || eq_str(le, "ogg") || eq_str(le, "wav") || eq_str(le, "jpg")
                    || eq_str(le, "jpeg") || eq_str(le, "png")
            }
        },
    }
}

/// Whether a source folder entry is copied into the clone: it must be
/// a media asset, and must not be a skin asset when skin files are
/// being removed.
pub open spec fn spec_should_copy_asset(name: Seq<char>, remove_skin_files: bool) -> bool {
    if remove_skin_files && spec_is_skin_file(name) {
        false
    } else {
        spec_is_media_file(name)
    }
}

/// Decides whether one source folder entry is copied into the clone.
pub fn should_copy_asset(filename: &str, remove_skin_files: bool) -> (r: bool)
    ensures
        r == spec_should_copy_asset(filename@, remove_skin_files),
{
    if remove_skin_files && is_skin_file(filename) {
        false
    } else {
        is_media_file(filename)
    }
}

} // verus!
