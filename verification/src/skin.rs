//! The skin-asset filename classifier: decides whether a file in a
//! beatmap folder is a cosmetic skin element (interface graphics,
//! hitsounds, mode-specific sprites) rather than chart media.  The
//! tables are a closed list of name prefixes and exact names, grouped
//! by category; matching is case-insensitive over the ASCII letters and
//! ignores the filename extension.

use vstd::prelude::*;
use vstd::string::*;

use crate::text::{eq_str, rfind_char, rfind_char_str, starts_with, starts_with_str};

verus! {

/// An ASCII capital letter folded to lower case; all else unchanged.
pub open spec fn lower_char(c: char) -> char {
    if c == 'A' {
        'a'
    } else if c == 'B' {
        'b'
    } else if c == 'C' {
        'c'
    } else if c == 'D' {
        'd'
    } else if c == 'E' {
        'e'
    } else if c == 'F' {
        'f'
    } else if c == 'G' {
        'g'
    } else if c == 'H' {
        'h'
    } else if c == 'I' {
        'i'
    } else if c == 'J' {
        'j'
    } else if c == 'K' {
        'k'
    } else if c == 'L' {
        'l'
    } else if c == 'M' {
        'm'
    } else if c == 'N' {
        'n'
    } else if c == 'O' {
        'o'
    } else if c == 'P' {
        'p'
    } else if c == 'Q' {
        'q'
    } else if c == 'R' {
        'r'
    } else if c == 'S' {
        's'
    } else if c == 'T' {
        't'
    } else if c == 'U' {
        'u'
    } else if c == 'V' {
        'v'
    } else if c == 'W' {
        'w'
    } else if c == 'X' {
        'x'
    } else if c == 'Y' {
        'y'
    } else if c == 'Z' {
        'z'
    } else {
        c
    }
}

/// `s` with each ASCII capital letter folded to lower case.
pub open spec fn lower(s: Seq<char>) -> Seq<char> {
    Seq::new(s.len(), |i: int| lower_char(s[i]))
}

/// Folds each ASCII capital letter of `s` to lower case.
pub fn to_lower_ascii(s: &str) -> (r: String)
    ensures
        r@ == lower(s@),
{
    let n = s.unicode_len();
    let mut r = String::new();
    let mut i: usize = 0;
    while i < n
        invariant
            i <= n,
            n == s@.len(),
            r@ == lower(s@.subrange(0, i as int)),
        decreases n - i,
    {
        proof {
            reveal_strlit("a");
            reveal_strlit("b");
            reveal_strlit("c");
            reveal_strlit("d");
            reveal_strlit("e");
            reveal_strlit("f");
            reveal_strlit("g");
            reveal_strlit("h");
            reveal_strlit("i");
            reveal_strlit("j");
            reveal_strlit("k");
            reveal_strlit("l");
            reveal_strlit("m");
            reveal_strlit("n");
            reveal_strlit("o");
            reveal_strlit("p");
            reveal_strlit("q");
            reveal_strlit("r");
            reveal_strlit("s");
            reveal_strlit("t");
            reveal_strlit("u");
            reveal_strlit("v");
            reveal_strlit("w");
            reveal_strlit("x");
            reveal_strlit("y");
            reveal_strlit("z");
        }
        let c = s.get_char(i);
        match c {
            'A' => r.append("a"),
            'B' => r.append("b"),
            'C' => r.append("c"),
            'D' => r.append("d"),
            'E' => r.append("e"),
            'F' => r.append("f"),
            'G' => r.append("g"),
            'H' => r.append("h"),
            'I' => r.append("i"),
            'J' => r.append("j"),
            'K' => r.append("k"),
            'L' => r.append("l"),
            'M' => r.append("m"),
            'N' => r.append("n"),
            'O' => r.append("o"),
            'P' => r.append("p"),
            'Q' => r.append("q"),
            'R' => r.append("r"),
            'S' => r.append("s"),
            'T' => r.append("t"),
            'U' => r.append("u"),
            'V' => r.append("v"),
            'W' => r.append("w"),
            'X' => r.append("x"),
            'Y' => r.append("y"),
            'Z' => r.append("z"),
            _ => {
                let piece = s.substring_char(i, i + 1);
                proof {
                    assert(piece@ =~= seq![s@[i as int]]);
                }
                r.append(piece);
            },
        }
        proof {
            assert(lower(s@.subrange(0, i + 1)) =~= lower(s@.subrange(0, i as int)) + seq![
                lower_char(s@[i as int]),
            ]);
        }
        i += 1;
    }
    proof {
        assert(s@.subrange(0, n as int) =~= s@);
    }
    r
}

proof fn lemma_rfind_some(s: Seq<char>, c: char)
    requires
        rfind_char(s, c) is Some,
    ensures
        0 <= rfind_char(s, c)->0 < s.len(),
    decreases s.len(),
{
    if s.len() == 0 {
    } else if s[s.len() - 1] == c {
    } else {
        lemma_rfind_some(s.subrange(0, s.len() - 1), c);
    }
}

/// The name before its last `.`; the whole name when it has none.
pub open spec fn strip_ext(s: Seq<char>) -> Seq<char> {
    match rfind_char(s, '.') {
        None => s,
        Some(i) => s.subrange(0, i),
    }
}

pub open spec fn spec_hitcircle_family(b: Seq<char>) -> bool {
    starts_with(b, "approachcircle"@) || starts_with(b, "hit"@) || starts_with(b, "hitcircle"@)
        || starts_with(b, "hitcircleoverlay"@) || starts_with(b, "hitcircleselect"@)
        || starts_with(b, "followpoint"@) || starts_with(b, "lighting"@)
}

fn hitcircle_family(b: &str) -> (r: bool)
    ensures
        r == spec_hitcircle_family(b@),
{
    starts_with_str(b, "approachcircle") || starts_with_str(b, "hit") || starts_with_str(
        b,
        "hitcircle",
    ) || starts_with_str(b, "hitcircleoverlay") || starts_with_str(b, "hitcircleselect")
        || starts_with_str(b, "followpoint") || starts_with_str(b, "lighting")
}

pub open spec fn spec_slider_family(b: Seq<char>) -> bool {
    starts_with(b, "sliderstartcircle"@) || starts_with(b, "sliderstartcircleoverlay"@)
        || starts_with(b, "sliderendcircle"@) || starts_with(b, "sliderendcircleoverlay"@)
        || starts_with(b, "reversearrow"@) || starts_with(b, "sliderfollowcircle"@)
        || starts_with(b, "sliderb"@) || starts_with(b, "sliderb-nd"@) || starts_with(
        b,
        "sliderb-spec"@,
    ) || starts_with(b, "sliderpoint10"@) || starts_with(b, "sliderpoint30"@) || starts_with(
        b,
        "sliderscorepoint"@,
    )
}

fn slider_family(b: &str) -> (r: bool)
    ensures
        r == spec_slider_family(b@),
{
    starts_with_str(b, "sliderstartcircle") || starts_with_str(b, "sliderstartcircleoverlay")
        || starts_with_str(b, "sliderendcircle") || starts_with_str(b, "sliderendcircleoverlay")
        || starts_with_str(b, "reversearrow") || starts_with_str(b, "sliderfollowcircle")
        || starts_with_str(b, "sliderb") || starts_with_str(b, "sliderb-nd") || starts_with_str(
        b,
        "sliderb-spec",
    ) || starts_with_str(b, "sliderpoint10") || starts_with_str(b, "sliderpoint30")
        || starts_with_str(b, "sliderscorepoint")
}

pub open spec fn spec_spinner_family(b: Seq<char>) -> bool {
    starts_with(b, "spinner-background"@) || starts_with(b, "spinner-circle"@) || starts_with(
        b,
        "spinner-metre"@,
    ) || starts_with(b, "spinner-osu"@) || starts_with(b, "spinner-glow"@) || starts_with(
        b,
        "spinner-bottom"@,
    ) || starts_with(b, "spinner-top"@) || starts_with(b, "spinner-middle"@) || starts_with(
        b,
        "spinner-middle2"@,
    ) || starts_with(b, "spinner-approachcircle"@) || starts_with(b, "spinner-rpm"@)
        || starts_with(b, "spinner-clear"@) || starts_with(b, "spinner-spin"@)
}

fn spinner_family(b: &str) -> (r: bool)
    ensures
        r == spec_spinner_family(b@),
{
    starts_with_str(b, "spinner-background") || starts_with_str(b, "spinner-circle")
        || starts_with_str(b, "spinner-metre") || starts_with_str(b, "spinner-osu")
        || starts_with_str(b, "spinner-glow") || starts_with_str(b, "spinner-bottom")
        || starts_with_str(b, "spinner-top") || starts_with_str(b, "spinner-middle")
        || starts_with_str(b, "spinner-middle2") || starts_with_str(b, "spinner-approachcircle")
        || starts_with_str(b, "spinner-rpm") || starts_with_str(b, "spinner-clear")
        || starts_with_str(b, "spinner-spin")
}

pub open spec fn spec_taiko_family(b: Seq<char>) -> bool {
    starts_with(b, "taiko-bar-left"@) || starts_with(b, "taiko-bar-right"@) || starts_with(
        b,
        "taiko-bar-right-glow"@,
    ) || starts_with(b, "taiko-drum-inner"@) || starts_with(b, "taiko-drum-outer"@)
        || starts_with(b, "taiko-barline"@) || starts_with(b, "taiko-hit0"@) || starts_with(
        b,
        "taiko-hit100"@,
    ) || starts_with(b, "taiko-hit100k"@) || starts_with(b, "taiko-hit300"@) || starts_with(
        b,
        "taiko-hit300k"@,
    ) || starts_with(b, "taiko-hit300g"@) || starts_with(b, "taiko-flower-group"@) || starts_with(
        b,
        "taikobigcircle"@,
    ) || starts_with(b, "taikohitcircle"@) || starts_with(b, "taikohitcircleoverlay"@)
        || starts_with(b, "taiko-glow"@) || starts_with(b, "taiko-slider"@) || starts_with(
        b,
        "taiko-slider-fail"@,
    ) || starts_with(b, "pippidon"@) || starts_with(b, "taiko-roll-middle"@) || starts_with(
        b,
        "taiko-roll-end"@,
    )
}

fn taiko_family(b: &str) -> (r: bool)
    ensures
        r == spec_taiko_family(b@),
{
    starts_with_str(b, "taiko-bar-left") || starts_with_str(b, "taiko-bar-right")
        || starts_with_str(b, "taiko-bar-right-glow") || starts_with_str(b, "taiko-drum-inner")
        || starts_with_str(b, "taiko-drum-outer") || starts_with_str(b, "taiko-barline")
        || starts_with_str(b, "taiko-hit0") || starts_with_str(b, "taiko-hit100")
        || starts_with_str(b, "taiko-hit100k") || starts_with_str(b, "taiko-hit300")
        || starts_with_str(b, "taiko-hit300k") || starts_with_str(b, "taiko-hit300g")
        || starts_with_str(b, "taiko-flower-group") || starts_with_str(b, "taikobigcircle")
        || starts_with_str(b, "taikohitcircle") || starts_with_str(b, "taikohitcircleoverlay")
        || starts_with_str(b, "taiko-glow") || starts_with_str(b, "taiko-slider")
        || starts_with_str(b, "taiko-slider-fail") || starts_with_str(b, "pippidon")
        || starts_with_str(b, "taiko-roll-middle") || starts_with_str(b, "taiko-roll-end")
}

pub open spec fn spec_catch_family(b: Seq<char>) -> bool {
    starts_with(b, "fruit-apple"@) || starts_with(b, "fruit-bananas"@) || starts_with(
        b,
        "fruit-grapes"@,
    ) || starts_with(b, "fruit-orange"@) || starts_with(b, "fruit-pear"@) || starts_with(
        b,
        "fruit-apple-overlay"@,
    ) || starts_with(b, "fruit-bananas-overlay"@) || starts_with(b, "fruit-grapes-overlay"@)
        || starts_with(b, "fruit-orange-overlay"@) || starts_with(b, "fruit-pear-overlay"@)
        || starts_with(b, "fruit-drop"@) || starts_with(b, "fruit-drop-overlay"@) || starts_with(
        b,
        "fruit-catcher-idle"@,
    ) || starts_with(b, "fruit-catcher-kiai"@) || starts_with(b, "fruit-catcher-fail"@)
        || starts_with(b, "fruit-ryuuta"@) || starts_with(b, "lighting"@)
}

fn catch_family(b: &str) -> (r: bool)
    ensures
        r == spec_catch_family(b@),
{
    starts_with_str(b, "fruit-apple") || starts_with_str(b, "fruit-bananas") || starts_with_str(
        b,
        "fruit-grapes",
    ) || starts_with_str(b, "fruit-orange") || starts_with_str(b, "fruit-pear")
        || starts_with_str(b, "fruit-apple-overlay") || starts_with_str(b, "fruit-bananas-overlay")
        || starts_with_str(b, "fruit-grapes-overlay") || starts_with_str(
        b,
        "fruit-orange-overlay",
    ) || starts_with_str(b, "fruit-pear-overlay") || starts_with_str(b, "fruit-drop")
        || starts_with_str(b, "fruit-drop-overlay") || starts_with_str(b, "fruit-catcher-idle")
        || starts_with_str(b, "fruit-catcher-kiai") || starts_with_str(b, "fruit-catcher-fail")
        || starts_with_str(b, "fruit-ryuuta") || starts_with_str(b, "lighting")
}

pub open spec fn spec_mania_family(b: Seq<char>) -> bool {
    starts_with(b, "mania-stage-left"@) || starts_with(b, "mania-stage-right"@) || starts_with(
        b,
        "mania-stage-bottom"@,
    ) || starts_with(b, "mania-stage-light"@) || starts_with(b, "mania-stage-hint"@)
        || starts_with(b, "mania-note1"@) || starts_with(b, "mania-note2"@) || starts_with(
        b,
        "mania-note3"@,
    ) || starts_with(b, "mania-key1"@) || starts_with(b, "mania-key2"@) || starts_with(
        b,
        "mania-key3"@,
    ) || starts_with(b, "mania-hit0"@) || starts_with(b, "mania-hit50"@) || starts_with(
        b,
        "mania-hit100"@,
    ) || starts_with(b, "mania-hit200"@) || starts_with(b, "mania-hit300"@) || starts_with(
        b,
        "mania-hit300g"@,
    ) || starts_with(b, "lightingn"@) || starts_with(b, "lightingl"@)
}

fn mania_family(b: &str) -> (r: bool)
    ensures
        r == spec_mania_family(b@),
{
    starts_with_str(b, "mania-stage-left") || starts_with_str(b, "mania-stage-right")
        || starts_with_str(b, "mania-stage-bottom") || starts_with_str(b, "mania-stage-light")
        || starts_with_str(b, "mania-stage-hint") || starts_with_str(b, "mania-note1")
        || starts_with_str(b, "mania-note2") || starts_with_str(b, "mania-note3")
        || starts_with_str(b, "mania-key1") || starts_with_str(b, "mania-key2")
        || starts_with_str(b, "mania-key3") || starts_with_str(b, "mania-hit0")
        || starts_with_str(b, "mania-hit50") || starts_with_str(b, "mania-hit100")
        || starts_with_str(b, "mania-hit200") || starts_with_str(b, "mania-hit300")
        || starts_with_str(b, "mania-hit300g") || starts_with_str(b, "lightingn")
        || starts_with_str(b, "lightingl")
}

pub open spec fn spec_interface_family(b: Seq<char>) -> bool {
    starts_with(b, "menu-back"@) || starts_with(b, "menu-button"@) || starts_with(b, "selection-"@)
        || starts_with(b, "button-"@) || starts_with(b, "mode-"@) || starts_with(b, "mode-osu"@)
        || starts_with(b, "mode-taiko"@) || starts_with(b, "mode-catch"@) || starts_with(
        b,
        "mode-mania"@,
    ) || starts_with(b, "cursor"@) || starts_with(b, "cursortrail"@) || starts_with(
        b,
        "cursormiddle"@,
    ) || starts_with(b, "star"@) || starts_with(b, "star2"@) || starts_with(b, "scorebar-"@)
        || starts_with(b, "score-"@) || starts_with(b, "ranking-"@) || starts_with(b, "pause-"@)
        || starts_with(b, "fail-"@) || starts_with(b, "ready"@) || starts_with(b, "section-"@)
        || starts_with(b, "multi-"@) || starts_with(b, "play-"@) || starts_with(b, "count"@)
        || starts_with(b, "go"@) || starts_with(b, "inputoverlay-"@) || starts_with(b, "arrow-"@)
        || starts_with(b, "hitcircle-"@) || starts_with(b, "reversearrow"@) || starts_with(
        b,
        "selection-mode"@,
    ) || starts_with(b, "selection-mods"@) || starts_with(b, "selection-random"@) || starts_with(
        b,
        "selection-options"@,
    ) || starts_with(b, "options-offset-tick"@)
}

fn interface_family(b: &str) -> (r: bool)
    ensures
        r == spec_interface_family(b@),
{
    starts_with_str(b, "menu-back") || starts_with_str(b, "menu-button") || starts_with_str(
        b,
        "selection-",
    ) || starts_with_str(b, "button-") || starts_with_str(b, "mode-") || starts_with_str(
        b,
        "mode-osu",
    ) || starts_with_str(b, "mode-taiko") || starts_with_str(b, "mode-catch") || starts_with_str(
        b,
        "mode-mania",
    ) || starts_with_str(b, "cursor") || starts_with_str(b, "cursortrail") || starts_with_str(
        b,
        "cursormiddle",
    ) || starts_with_str(b, "star") || starts_with_str(b, "star2") || starts_with_str(
        b,
        "scorebar-",
    ) || starts_with_str(b, "score-") || starts_with_str(b, "ranking-") || starts_with_str(
        b,
        "pause-",
    ) || starts_with_str(b, "fail-") || starts_with_str(b, "ready") || starts_with_str(
        b,
        "section-",
    ) || starts_with_str(b, "multi-") || starts_with_str(b, "play-") || starts_with_str(
        b,
        "count",
    ) || starts_with_str(b, "go") || starts_with_str(b, "inputoverlay-") || starts_with_str(
        b,
        "arrow-",
    ) || starts_with_str(b, "hitcircle-") || starts_with_str(b, "reversearrow")
        || starts_with_str(b, "selection-mode") || starts_with_str(b, "selection-mods")
        || starts_with_str(b, "selection-random") || starts_with_str(b, "selection-options")
        || starts_with_str(b, "options-offset-tick")
}

/// A hitsound name: one of the sample-set prefixes followed by a
/// `hit`- or `slider`-sound name.
pub open spec fn spec_hitsound_with(b: Seq<char>, p: Seq<char>) -> bool {
    starts_with(b, p) && {
        let rem = b.subrange(p.len() as int, b.len() as int);
        starts_with(rem, "hit"@) || starts_with(rem, "slider"@) || rem == "hitnormal"@ || rem
            == "hitclap"@ || rem == "hitfinish"@ || rem == "hitwhistle"@ || rem == "slidertick"@
            || rem == "sliderslide"@ || rem == "sliderwhistle"@
    }
}

fn hitsound_with(b: &str, p: &str) -> (r: bool)
    ensures
        r == spec_hitsound_with(b@, p@),
{
    if !starts_with_str(b, p) {
        return false;
    }
    let bn = b.unicode_len();
    let pn = p.unicode_len();
    let rem = b.substring_char(pn, bn);
    starts_with_str(rem, "hit") || starts_with_str(rem, "slider") || eq_str(rem, "hitnormal")
        || eq_str(rem, "hitclap") || eq_str(rem, "hitfinish") || eq_str(rem, "hitwhistle")
        || eq_str(rem, "slidertick") || eq_str(rem, "sliderslide") || eq_str(rem, "sliderwhistle")
}

pub open spec fn spec_hitsound_family(b: Seq<char>) -> bool {
    spec_hitsound_with(b, "normal-"@) || spec_hitsound_with(b, "soft-"@) || spec_hitsound_with(
        b,
        "drum-"@,
    ) || spec_hitsound_with(b, "taiko-"@)
}

fn hitsound_family(b: &str) -> (r: bool)
    ensures
        r == spec_hitsound_family(b@),
{
    hitsound_with(b, "normal-") || hitsound_with(b, "soft-") || hitsound_with(b, "drum-")
        || hitsound_with(b, "taiko-")
}

pub open spec fn spec_gameplay_sounds(b: Seq<char>) -> bool {
    starts_with(b, "comboburst"@) || starts_with(b, "combobreak"@) || starts_with(b, "failsound"@)
        || starts_with(b, "sectionpass"@) || starts_with(b, "sectionfail"@) || starts_with(
        b,
        "applause"@,
    ) || starts_with(b, "pause-loop"@) || starts_with(b, "metronomelow"@) || starts_with(
        b,
        "nightcore-kick"@,
    ) || starts_with(b, "nightcore-clap"@) || starts_with(b, "nightcore-hat"@) || starts_with(
        b,
        "nightcore-finish"@,
    )
}

fn gameplay_sounds(b: &str) -> (r: bool)
    ensures
        r == spec_gameplay_sounds(b@),
{
    starts_with_str(b, "comboburst") || starts_with_str(b, "combobreak") || starts_with_str(
        b,
        "failsound",
    ) || starts_with_str(b, "sectionpass") || starts_with_str(b, "sectionfail")
        || starts_with_str(b, "applause") || starts_with_str(b, "pause-loop") || starts_with_str(
        b,
        "metronomelow",
    ) || starts_with_str(b, "nightcore-kick") || starts_with_str(b, "nightcore-clap")
        || starts_with_str(b, "nightcore-hat") || starts_with_str(b, "nightcore-finish")
}

pub open spec fn spec_interface_sounds(b: Seq<char>) -> bool {
    starts_with(b, "heartbeat"@) || starts_with(b, "seeya"@) || starts_with(b, "welcome"@)
        || starts_with(b, "key-"@) || starts_with(b, "back-button-"@) || starts_with(b, "check-"@)
        || starts_with(b, "click-"@) || starts_with(b, "menuback"@) || starts_with(b, "menuhit"@)
        || starts_with(b, "menu-"@) || starts_with(b, "pause-"@) || starts_with(b, "select-"@)
        || starts_with(b, "shutter"@) || starts_with(b, "sliderbar"@) || starts_with(b, "whoosh"@)
        || starts_with(b, "match-"@)
}

fn interface_sounds(b: &str) -> (r: bool)
    ensures
        r == spec_interface_sounds(b@),
{
    starts_with_str(b, "heartbeat") || starts_with_str(b, "seeya") || starts_with_str(b, "welcome")
        || starts_with_str(b, "key-") || starts_with_str(b, "back-button-") || starts_with_str(
        b,
        "check-",
    ) || starts_with_str(b, "click-") || starts_with_str(b, "menuback") || starts_with_str(
        b,
        "menuhit",
    ) || starts_with_str(b, "menu-") || starts_with_str(b, "pause-") || starts_with_str(
        b,
        "select-",
    ) || starts_with_str(b, "shutter") || starts_with_str(b, "sliderbar") || starts_with_str(
        b,
        "whoosh",
    ) || starts_with_str(b, "match-")
}

/// The classification of a lower-cased, extension-stripped name.
pub open spec fn is_skin_base(b: Seq<char>) -> bool {
    starts_with(b, "comboburst"@) || starts_with(b, "default-"@) || spec_hitcircle_family(b)
        || spec_slider_family(b) || spec_spinner_family(b) || starts_with(b, "particle"@) || b
        == "sliderendmiss"@ || b == "slidertickmiss"@ || spec_taiko_family(b) || spec_catch_family(
        b,
    ) || spec_mania_family(b) || spec_interface_family(b) || spec_hitsound_family(b)
        || starts_with(b, "spinner"@) || spec_gameplay_sounds(b) || spec_interface_sounds(b)
}

/// The verdict for one filename: its name is folded to lower case and
/// stripped of its extension, then held against the skin tables.
pub open spec fn spec_is_skin_file(name: Seq<char>) -> bool {
    is_skin_base(strip_ext(lower(name)))
}

/// Decides whether `filename` names a cosmetic skin asset.
pub fn is_skin_file(filename: &str) -> (r: bool)
    ensures
        r == spec_is_skin_file(filename@),
{
    let lowered = to_lower_ascii(filename);
    let base: &str = match rfind_char_str(lowered.as_str(), '.') {
        None => lowered.as_str(),
        Some(i) => {
            proof {
                lemma_rfind_some(lowered@, '.');
            }
            lowered.as_str().substring_char(0, i)
        },
    };
    is_skin_base_exec(base)
}

fn is_skin_base_exec(b: &str) -> (r: bool)
    ensures
        r == is_skin_base(b@),
{
    starts_with_str(b, "comboburst") || starts_with_str(b, "default-") || hitcircle_family(b)
        || slider_family(b) || spinner_family(b) || starts_with_str(b, "particle") || eq_str(
        b,
        "sliderendmiss",
    ) || eq_str(b, "slidertickmiss") || taiko_family(b) || catch_family(b) || mania_family(b)
        || interface_family(b) || hitsound_family(b) || starts_with_str(b, "spinner")
        || gameplay_sounds(b) || interface_sounds(b)
}

} // verus!
