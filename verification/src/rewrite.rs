//! The section rewriter: one forward pass over a chart's lines that
//! retitles the Metadata section, retargets the game mode, drops the
//! Editor and HitObjects sections (and optionally Colours), replaces
//! the Events background, optionally resets the Difficulty section,
//! and hands a buffered TimingPoints section to the compressor.  The
//! output joins the surviving lines with the line terminator detected
//! on the input.

use vstd::prelude::*;
use vstd::string::*;

use crate::model::{BeatmapMetadata, MetadataView};
use crate::num::{dec_nat, is_digit, lemma_dec_nat_digits, u32_to_string};
use crate::text::{
    append_all, contains_str, contains_sub, eq_str, join_spec, join_strings,
    lemma_concat_no_char, lemma_find_from_complete, lemma_find_from_first, lemma_find_from_some,
    lemma_join_crlf_no_bare_nl, no_char, split_spec, split_str, starts_with, starts_with_str,
    trim_end_spec, trim_spec, trim_start_spec, trim_str, white,
};
use crate::timing::{
    lemma_tp_run_no_nl, process_timing_points, spec_process_timing_points, tp_run, TpState,
};

verus! {

/// The rewriter's running state: the trimmed header of the current
/// section (empty before the first header), whether the section is
/// being dropped, whether a TimingPoints section is open, and the
/// timing lines buffered for the compressor.
#[verifier::ext_equal]
pub struct RwState {
    pub section: Seq<char>,
    pub skip: bool,
    pub in_timing: bool,
    pub buf: Seq<Seq<char>>,
}

/// One step's outcome: the new state and the lines emitted.
#[verifier::ext_equal]
pub struct RwStep {
    pub st: RwState,
    pub out: Seq<Seq<char>>,
}

/// The knobs of one rewrite: target metadata, game mode, difficulty
/// name, the section options, and the background file to substitute.
#[verifier::ext_equal]
pub struct RwParams {
    pub md: MetadataView,
    pub game_mode: u8,
    pub difficulty: Seq<char>,
    pub keep_timing_points: bool,
    pub reset_sample_set: bool,
    pub reset_difficulty: bool,
    pub remove_colours: bool,
    pub background: Option<Seq<char>>,
}

/// A trimmed line of the form `[Name]`.
pub open spec fn is_header(t: Seq<char>) -> bool {
    t.len() >= 1 && t[0] == '[' && t[t.len() - 1] == ']'
}

/// The state before the first line of a document.
pub open spec fn rw_init() -> RwState {
    RwState { section: Seq::empty(), skip: false, in_timing: false, buf: seq![] }
}

/// What one Events-section line becomes: comments and blank lines
/// pass through, a background declaration is replaced when a
/// background was supplied, every other event is dropped.
pub open spec fn events_out(t: Seq<char>, line: Seq<char>, bg: Option<Seq<char>>) -> Seq<
    Seq<char>,
> {
    if starts_with(t, "//"@) || t.len() == 0 {
        seq![line]
    } else if starts_with(t, "0,0,"@) || starts_with(t, "Background,"@) {
        match bg {
            Some(b) => seq!["0,0,\""@ + b + "\",0,0"@],
            None => seq![line],
        }
    } else {
        seq![]
    }
}

/// What one General-section line becomes: the mode is retargeted and
/// the sample set optionally reset.
pub open spec fn general_out(t: Seq<char>, line: Seq<char>, p: RwParams) -> Seq<Seq<char>> {
    if starts_with(t, "Mode:"@) {
        seq!["Mode: "@ + dec_nat(p.game_mode as nat)]
    } else if p.reset_sample_set && starts_with(t, "SampleSet:"@) {
        seq!["SampleSet: Normal"@]
    } else {
        seq![line]
    }
}

/// What one Metadata-section line becomes: the known fields are
/// rewritten from the supplied metadata, the identifiers are cleared
/// to -1, everything else passes through.
pub open spec fn metadata_out(t: Seq<char>, line: Seq<char>, p: RwParams) -> Seq<Seq<char>> {
    if starts_with(t, "Title:"@) {
        seq!["Title:"@ + p.md.title]
    } else if starts_with(t, "TitleUnicode:"@) {
        seq!["TitleUnicode:"@ + p.md.title_unicode]
    } else if starts_with(t, "Artist:"@) {
        seq!["Artist:"@ + p.md.artist]
    } else if starts_with(t, "ArtistUnicode:"@) {
        seq!["ArtistUnicode:"@ + p.md.artist_unicode]
    } else if starts_with(t, "Creator:"@) {
        seq!["Creator:"@ + p.md.creator]
    } else if starts_with(t, "Version:"@) {
        seq!["Version:"@ + p.difficulty]
    } else if starts_with(t, "Source:"@) {
        seq!["Source:"@ + p.md.source]
    } else if starts_with(t, "Tags:"@) {
        seq!["Tags:"@ + p.md.tags]
    } else if starts_with(t, "BeatmapID:"@) {
        seq!["BeatmapID:-1"@]
    } else if starts_with(t, "BeatmapSetID:"@) {
        seq!["BeatmapSetID:-1"@]
    } else {
        seq![line]
    }
}

/// What one Difficulty-section line becomes when the difficulty is
/// being reset.
pub open spec fn difficulty_out(t: Seq<char>, line: Seq<char>) -> Seq<Seq<char>> {
    if starts_with(t, "HPDrainRate:"@) {
        seq!["HPDrainRate: 5"@]
    } else if starts_with(t, "CircleSize:"@) {
        seq!["CircleSize: 2"@]
    } else if starts_with(t, "OverallDifficulty:"@) {
        seq!["OverallDifficulty: 5"@]
    } else if starts_with(t, "ApproachRate:"@) {
        seq!["ApproachRate: 5"@]
    } else if starts_with(t, "SliderMultiplier:"@) {
        seq!["SliderMultiplier: 1.4"@]
    } else if starts_with(t, "SliderTickRate:"@) {
        seq!["SliderTickRate: 1"@]
    } else {
        seq![line]
    }
}

/// The lines flushed when a buffered TimingPoints section closes.
pub open spec fn flush_out(st: RwState, p: RwParams) -> Seq<Seq<char>> {
    if st.section == "[TimingPoints]"@ && st.in_timing && p.keep_timing_points {
        spec_process_timing_points(st.buf)
    } else {
        seq![]
    }
}

/// How one line advances the rewriter.
pub open spec fn rw_line(st: RwState, line: Seq<char>, p: RwParams) -> RwStep {
    let t = trim_spec(line);
    if is_header(t) {
        let flushed = flush_out(st, p);
        if t == "[Editor]"@ || t == "[HitObjects]"@ || (t == "[Colours]"@ && p.remove_colours) {
            RwStep {
                st: RwState { section: t, skip: true, in_timing: false, buf: seq![] },
                out: flushed,
            }
        } else {
            RwStep {
                st: RwState {
                    section: t,
                    skip: false,
                    in_timing: t == "[TimingPoints]"@,
                    buf: seq![],
                },
                out: flushed + seq![line],
            }
        }
    } else if st.skip {
        RwStep { st, out: seq![] }
    } else if st.in_timing && p.keep_timing_points {
        RwStep {
            st: RwState {
                section: st.section,
                skip: st.skip,
                in_timing: st.in_timing,
                buf: st.buf + seq![line],
            },
            out: seq![],
        }
    } else if st.in_timing {
        RwStep { st, out: seq![] }
    } else if st.section == "[Events]"@ {
        RwStep { st, out: events_out(t, line, p.background) }
    } else if st.section == "[General]"@ {
        RwStep { st, out: general_out(t, line, p) }
    } else if st.section == "[Metadata]"@ {
        RwStep { st, out: metadata_out(t, line, p) }
    } else if st.section == "[Difficulty]"@ && p.reset_difficulty {
        RwStep { st, out: difficulty_out(t, line) }
    } else {
        RwStep { st, out: seq![line] }
    }
}

/// The rewriter run over a whole list of lines from a given state.
pub open spec fn rw_run(lines: Seq<Seq<char>>, st: RwState, p: RwParams) -> RwStep
    decreases lines.len(),
{
    if lines.len() == 0 {
        RwStep { st, out: seq![] }
    } else {
        let first = rw_line(st, lines[0], p);
        let rest = rw_run(lines.subrange(1, lines.len() as int), first.st, p);
        RwStep { st: rest.st, out: first.out + rest.out }
    }
}

/// The line terminator a document uses: two-character when it occurs
/// anywhere in the document, else single-character.
pub open spec fn spec_eol(content: Seq<char>) -> Seq<char> {
    if contains_sub(content, "\r\n"@) {
        "\r\n"@
    } else {
        "\n"@
    }
}

/// The surviving lines of a rewritten document, including the final
/// flush of a still-open TimingPoints section.
pub open spec fn spec_output_lines(content: Seq<char>, p: RwParams) -> Seq<Seq<char>> {
    let run = rw_run(split_spec(content, spec_eol(content)), rw_init(), p);
    if run.st.in_timing && p.keep_timing_points && run.st.buf.len() > 0 {
        run.out + spec_process_timing_points(run.st.buf)
    } else {
        run.out
    }
}

/// What the rewriter yields: the surviving lines joined with the line
/// terminator detected on the input.
pub open spec fn spec_process_osu_content(content: Seq<char>, p: RwParams) -> Seq<char> {
    join_spec(spec_output_lines(content, p), spec_eol(content))
}

/// No line of the output opens a dropped section: none trims to
/// `[Editor]` or `[HitObjects]`.
pub open spec fn no_dropped_headers(out: Seq<Seq<char>>) -> bool {
    forall|i: int|
        0 <= i < out.len() ==> trim_spec(#[trigger] out[i]) != "[Editor]"@ && trim_spec(out[i])
            != "[HitObjects]"@
}

/// Every TimingPoints section left in the output is empty: its header
/// is the last line or is followed directly by another section header.
pub open spec fn timing_sections_empty(out: Seq<Seq<char>>) -> bool {
    forall|i: int|
        0 <= i < out.len() - 1 && trim_spec(#[trigger] out[i]) == "[TimingPoints]"@ ==> is_header(
            trim_spec(out[i + 1]),
        )
}

/// The first character survives trimming a line that does not start
/// with whitespace.
proof fn lemma_trim_first_char(s: Seq<char>)
    requires
        s.len() > 0,
        !white(s[0]),
    ensures
        trim_spec(s).len() == 0 || trim_spec(s)[0] == s[0],
    decreases s.len(),
{
    assert(trim_start_spec(s) == s);
    lemma_trim_end_first_char(s);
}

proof fn lemma_trim_end_first_char(s: Seq<char>)
    requires
        s.len() > 0,
    ensures
        trim_end_spec(s).len() == 0 || trim_end_spec(s)[0] == s[0],
    decreases s.len(),
{
    if s.len() > 0 && white(s[s.len() - 1]) {
        let s1 = s.subrange(0, s.len() - 1);
        if s1.len() > 0 {
            lemma_trim_end_first_char(s1);
        } else {
            assert(trim_end_spec(s1) == s1);
        }
    }
}

proof fn lemma_rw_line_strips(st: RwState, line: Seq<char>, p: RwParams)
    requires
        !p.keep_timing_points,
    ensures
        rw_line(st, line, p).out.len() <= 1,
        no_dropped_headers(rw_line(st, line, p).out),
        (rw_line(st, line, p).out.len() > 0 && trim_spec(rw_line(st, line, p).out[0])
            == "[TimingPoints]"@) ==> rw_line(st, line, p).st.in_timing,
        ((st.in_timing || st.skip) && rw_line(st, line, p).out.len() > 0) ==> is_header(
            trim_spec(rw_line(st, line, p).out[0]),
        ),
        ((st.in_timing || st.skip) && rw_line(st, line, p).out.len() == 0) ==> (rw_line(
            st,
            line,
            p,
        ).st.in_timing || rw_line(st, line, p).st.skip),
{
    reveal_strlit("[Editor]");
    reveal_strlit("[HitObjects]");
    reveal_strlit("[TimingPoints]");
    let t = trim_spec(line);
    let stepped = rw_line(st, line, p);
    assert(is_header("[Editor]"@));
    assert(is_header("[HitObjects]"@));
    assert(is_header("[TimingPoints]"@));
    if is_header(t) {
        assert(flush_out(st, p) =~~= Seq::<Seq<char>>::empty());
        assert(stepped.out.len() <= 1);
        if stepped.out.len() > 0 {
            assert(stepped.out[0] == line);
        }
    } else {
        if st.skip || st.in_timing {
        } else if st.section == "[Events]"@ {
            lemma_events_line_shape(t, line, p.background);
        } else if st.section == "[General]"@ {
            lemma_general_line_shape(t, line, p);
        } else if st.section == "[Metadata]"@ {
            lemma_metadata_line_shape(t, line, p);
        } else if st.section == "[Difficulty]"@ && p.reset_difficulty {
            lemma_difficulty_line_shape(t, line);
        } else {
        }
    }
}

/// A non-header line emitted in a content section never trims to a
/// section header: either it is the source line itself, whose trim is
/// no header, or it is a rewritten line whose first character is not
/// `[`.
proof fn lemma_nonheader_emit(t: Seq<char>, line: Seq<char>, out: Seq<Seq<char>>)
    requires
        !is_header(t),
        t == trim_spec(line),
        forall|i: int|
            0 <= i < out.len() ==> (#[trigger] out[i]) == line || (out[i].len() > 0 && !white(
                out[i][0],
            ) && out[i][0] != '['),
    ensures
        forall|i: int| 0 <= i < out.len() ==> !is_header(trim_spec(#[trigger] out[i])),
{
    assert forall|i: int| 0 <= i < out.len() implies !is_header(
        trim_spec(#[trigger] out[i]),
    ) by {
        if out[i] == line {
        } else {
            lemma_trim_first_char(out[i]);
            let tr = trim_spec(out[i]);
            if tr.len() > 0 {
                assert(tr[0] != '[');
            }
        }
    }
}

proof fn lemma_events_line_shape(t: Seq<char>, line: Seq<char>, bg: Option<Seq<char>>)
    requires
        !is_header(t),
        t == trim_spec(line),
    ensures
        events_out(t, line, bg).len() <= 1,
        forall|i: int|
            0 <= i < events_out(t, line, bg).len() ==> !is_header(
                trim_spec(#[trigger] events_out(t, line, bg)[i]),
            ),
{
    reveal_strlit("0,0,\"");
    lemma_nonheader_emit(t, line, events_out(t, line, bg));
}

proof fn lemma_general_line_shape(t: Seq<char>, line: Seq<char>, p: RwParams)
    requires
        !is_header(t),
        t == trim_spec(line),
    ensures
        general_out(t, line, p).len() <= 1,
        forall|i: int|
            0 <= i < general_out(t, line, p).len() ==> !is_header(
                trim_spec(#[trigger] general_out(t, line, p)[i]),
            ),
{
    reveal_strlit("Mode: ");
    reveal_strlit("SampleSet: Normal");
    lemma_nonheader_emit(t, line, general_out(t, line, p));
}

proof fn lemma_metadata_line_shape(t: Seq<char>, line: Seq<char>, p: RwParams)
    requires
        !is_header(t),
        t == trim_spec(line),
    ensures
        metadata_out(t, line, p).len() <= 1,
        forall|i: int|
            0 <= i < metadata_out(t, line, p).len() ==> !is_header(
                trim_spec(#[trigger] metadata_out(t, line, p)[i]),
            ),
{
    reveal_strlit("Title:");
    reveal_strlit("TitleUnicode:");
    reveal_strlit("Artist:");
    reveal_strlit("ArtistUnicode:");
    reveal_strlit("Creator:");
    reveal_strlit("Version:");
    reveal_strlit("Source:");
    reveal_strlit("Tags:");
    reveal_strlit("BeatmapID:-1");
    reveal_strlit("BeatmapSetID:-1");
    lemma_nonheader_emit(t, line, metadata_out(t, line, p));
}

proof fn lemma_difficulty_line_shape(t: Seq<char>, line: Seq<char>)
    requires
        !is_header(t),
        t == trim_spec(line),
    ensures
        difficulty_out(t, line).len() <= 1,
        forall|i: int|
            0 <= i < difficulty_out(t, line).len() ==> !is_header(
                trim_spec(#[trigger] difficulty_out(t, line)[i]),
            ),
{
    reveal_strlit("HPDrainRate: 5");
    reveal_strlit("CircleSize: 2");
    reveal_strlit("OverallDifficulty: 5");
    reveal_strlit("ApproachRate: 5");
    reveal_strlit("SliderMultiplier: 1.4");
    reveal_strlit("SliderTickRate: 1");
    lemma_nonheader_emit(t, line, difficulty_out(t, line));
}

proof fn lemma_rw_run_strips(lines: Seq<Seq<char>>, st: RwState, p: RwParams)
    requires
        !p.keep_timing_points,
    ensures
        no_dropped_headers(rw_run(lines, st, p).out),
        timing_sections_empty(rw_run(lines, st, p).out),
        ((st.in_timing || st.skip) && rw_run(lines, st, p).out.len() > 0) ==> is_header(
            trim_spec(rw_run(lines, st, p).out[0]),
        ),
    decreases lines.len(),
{
    reveal_strlit("[Editor]");
    reveal_strlit("[HitObjects]");
    reveal_strlit("[TimingPoints]");
    if lines.len() == 0 {
    } else {
        let first = rw_line(st, lines[0], p);
        let rest_lines = lines.subrange(1, lines.len() as int);
        let r = rw_run(rest_lines, first.st, p);
        let out = rw_run(lines, st, p).out;
        lemma_rw_line_strips(st, lines[0], p);
        lemma_rw_run_strips(rest_lines, first.st, p);
        assert(out == first.out + r.out);
        assert forall|i: int| 0 <= i < out.len() implies trim_spec(#[trigger] out[i])
            != "[Editor]"@ && trim_spec(out[i]) != "[HitObjects]"@ by {
            if i < first.out.len() {
                assert(out[i] == first.out[i]);
            } else {
                assert(out[i] == r.out[i - first.out.len()]);
            }
        }
        assert forall|i: int|
            0 <= i < out.len() - 1 && trim_spec(#[trigger] out[i])
                == "[TimingPoints]"@ implies is_header(trim_spec(out[i + 1])) by {
            if i < first.out.len() {
                assert(out[i] == first.out[i]);
                assert(first.st.in_timing);
                assert(i == 0 && first.out.len() == 1);
                assert(out[i + 1] == r.out[0]);
            } else {
                assert(out[i] == r.out[i - first.out.len()]);
                assert(out[i + 1] == r.out[i + 1 - first.out.len()]);
            }
        }
        if (st.in_timing || st.skip) && out.len() > 0 {
            if first.out.len() > 0 {
                assert(out[0] == first.out[0]);
            } else {
                assert(out[0] == r.out[0]);
            }
        }
    }
}

/// With `keepTimingPoints` off, a rewritten document keeps no Editor
/// or HitObjects content, and every TimingPoints section left in the
/// output is empty: no timing-point record survives inside it.
pub proof fn lemma_rewrite_strips_timing_and_objects(content: Seq<char>, p: RwParams)
    requires
        !p.keep_timing_points,
    ensures
        no_dropped_headers(spec_output_lines(content, p)),
        timing_sections_empty(spec_output_lines(content, p)),
{
    lemma_rw_run_strips(split_spec(content, spec_eol(content)), rw_init(), p);
}

/// The rewrite knobs hold no line feed: metadata fields, the
/// difficulty name and the background filename are single-line text.
pub open spec fn params_newline_free(p: RwParams) -> bool {
    no_char(p.md.title, '\n') && no_char(p.md.title_unicode, '\n') && no_char(p.md.artist, '\n')
        && no_char(p.md.artist_unicode, '\n') && no_char(p.md.creator, '\n') && no_char(
        p.md.source,
        '\n',
    ) && no_char(p.md.tags, '\n') && no_char(p.difficulty, '\n') && (match p.background {
        Some(b) => no_char(b, '\n'),
        None => true,
    })
}

pub open spec fn rw_state_no_nl(st: RwState) -> bool {
    forall|k: int| 0 <= k < st.buf.len() ==> no_char(#[trigger] st.buf[k], '\n')
}

/// Splitting on the two-character terminator leaves no line feed in
/// any piece, when every line feed in the text follows a carriage
/// return.
proof fn lemma_crlf_pieces(s: Seq<char>)
    requires
        forall|i: int| 0 <= i < s.len() && #[trigger] s[i] == '\n' ==> i > 0 && s[i - 1] == '\r',
    ensures
        forall|k: int|
            0 <= k < split_spec(s, "\r\n"@).len() ==> no_char(
                #[trigger] split_spec(s, "\r\n"@)[k],
                '\n',
            ),
    decreases s.len(),
{
    reveal_strlit("\r\n");
    let sep = "\r\n"@;
    match crate::text::find(s, sep) {
        None => {
            assert forall|k: int| 0 <= k < split_spec(s, sep).len() implies no_char(
                #[trigger] split_spec(s, sep)[k],
                '\n',
            ) by {
                assert(split_spec(s, sep)[k] == s);
                assert forall|j: int| 0 <= j < s.len() implies s[j] != '\n' by {
                    if s[j] == '\n' {
                        assert(s.subrange(j - 1, j + 1) =~= sep);
                        lemma_find_from_complete(s, sep, 0, j - 1);
                        assert(false);
                    }
                }
            }
        },
        Some(i) => {
            lemma_find_from_some(s, sep, 0);
            let s2 = s.subrange(i + 2, s.len() as int);
            assert(s.subrange(i as int, i + 2)[0] == s[i as int]);
            assert(s.subrange(i as int, i + 2)[1] == s[i + 1]);
            assert forall|j: int| 0 <= j < s2.len() && #[trigger] s2[j] == '\n' implies j > 0
                && s2[j - 1] == '\r' by {
                assert(s2[j] == s[i + 2 + j]);
                if j == 0 {
                    assert(s[i + 1] == '\n');
                    assert(false);
                } else {
                    assert(s2[j - 1] == s[i + 1 + j]);
                }
            }
            lemma_crlf_pieces(s2);
            assert forall|k: int| 0 <= k < split_spec(s, sep).len() implies no_char(
                #[trigger] split_spec(s, sep)[k],
                '\n',
            ) by {
                if k == 0 {
                    let piece = s.subrange(0, i as int);
                    assert(split_spec(s, sep)[0] == piece);
                    assert forall|j: int| 0 <= j < piece.len() implies piece[j] != '\n' by {
                        if piece[j] == '\n' {
                            assert(s[j] == '\n');
                            assert(s.subrange(j - 1, j + 1) =~= sep);
                            lemma_find_from_first(s, sep, 0, j - 1);
                            assert(false);
                        }
                    }
                } else {
                    assert(split_spec(s, sep)[k] == split_spec(s2, sep)[k - 1]);
                }
            }
        },
    }
}

/// The rewriter never introduces a line feed: on newline-free lines,
/// with newline-free knobs, it emits newline-free lines.
proof fn lemma_rw_run_no_nl(lines: Seq<Seq<char>>, st: RwState, p: RwParams)
    requires
        forall|k: int| 0 <= k < lines.len() ==> no_char(#[trigger] lines[k], '\n'),
        rw_state_no_nl(st),
        params_newline_free(p),
    ensures
        forall|k: int|
            0 <= k < rw_run(lines, st, p).out.len() ==> no_char(
                #[trigger] rw_run(lines, st, p).out[k],
                '\n',
            ),
        rw_state_no_nl(rw_run(lines, st, p).st),
    decreases lines.len(),
{
    if lines.len() > 0 {
        reveal_strlit("Mode: ");
        reveal_strlit("SampleSet: Normal");
        reveal_strlit("Title:");
        reveal_strlit("TitleUnicode:");
        reveal_strlit("Artist:");
        reveal_strlit("ArtistUnicode:");
        reveal_strlit("Creator:");
        reveal_strlit("Version:");
        reveal_strlit("Source:");
        reveal_strlit("Tags:");
        reveal_strlit("BeatmapID:-1");
        reveal_strlit("BeatmapSetID:-1");
        reveal_strlit("HPDrainRate: 5");
        reveal_strlit("CircleSize: 2");
        reveal_strlit("OverallDifficulty: 5");
        reveal_strlit("ApproachRate: 5");
        reveal_strlit("SliderMultiplier: 1.4");
        reveal_strlit("SliderTickRate: 1");
        reveal_strlit("0,0,\"");
        reveal_strlit("\",0,0");
        let line = lines[0];
        let first = rw_line(st, line, p);
        let t = trim_spec(line);
        if is_header(t) {
            lemma_tp_run_no_nl(st.buf, TpState { in_kiai: false, last: None });
        } else if st.skip {
        } else if st.in_timing && p.keep_timing_points {
            assert forall|k: int| 0 <= k < first.st.buf.len() implies no_char(
                #[trigger] first.st.buf[k],
                '\n',
            ) by {
                if k < st.buf.len() {
                    assert(first.st.buf[k] == st.buf[k]);
                } else {
                    assert(first.st.buf[k] == line);
                }
            }
        } else if st.in_timing {
        } else if st.section == "[Events]"@ {
            match p.background {
                Some(b) => {
                    lemma_concat_no_char("0,0,\""@, b, '\n');
                    lemma_concat_no_char("0,0,\""@ + b, "\",0,0"@, '\n');
                },
                None => {},
            }
        } else if st.section == "[General]"@ {
            lemma_dec_nat_digits(p.game_mode as nat);
            let digits = dec_nat(p.game_mode as nat);
            assert forall|j: int| 0 <= j < digits.len() implies digits[j] != '\n' by {
                assert(is_digit(digits[j]));
            }
            lemma_concat_no_char("Mode: "@, digits, '\n');
        } else if st.section == "[Metadata]"@ {
            lemma_concat_no_char("Title:"@, p.md.title, '\n');
            lemma_concat_no_char("TitleUnicode:"@, p.md.title_unicode, '\n');
            lemma_concat_no_char("Artist:"@, p.md.artist, '\n');
            lemma_concat_no_char("ArtistUnicode:"@, p.md.artist_unicode, '\n');
            lemma_concat_no_char("Creator:"@, p.md.creator, '\n');
            lemma_concat_no_char("Version:"@, p.difficulty, '\n');
            lemma_concat_no_char("Source:"@, p.md.source, '\n');
            lemma_concat_no_char("Tags:"@, p.md.tags, '\n');
        } else {
        }
        let rest_lines = lines.subrange(1, lines.len() as int);
        assert forall|k: int| 0 <= k < rest_lines.len() implies no_char(
            #[trigger] rest_lines[k],
            '\n',
        ) by {
            assert(rest_lines[k] == lines[k + 1]);
        }
        lemma_rw_run_no_nl(rest_lines, first.st, p);
        let r = rw_run(rest_lines, first.st, p);
        assert forall|k: int| 0 <= k < rw_run(lines, st, p).out.len() implies no_char(
            #[trigger] rw_run(lines, st, p).out[k],
            '\n',
        ) by {
            if k < first.out.len() {
                assert(rw_run(lines, st, p).out[k] == first.out[k]);
            } else {
                assert(rw_run(lines, st, p).out[k] == r.out[k - first.out.len()]);
            }
        }
    }
}

/// A document that uses the two-character line terminator throughout
/// rewrites to a document of the same convention: the output is the
/// surviving lines joined with that terminator, and every line feed
/// in it directly follows a carriage return.
pub proof fn lemma_line_ending_preserved(content: Seq<char>, p: RwParams)
    requires
        contains_sub(content, "\r\n"@),
        forall|i: int| 0 <= i < content.len() && #[trigger] content[i] == '\n' ==> i > 0 && content[i - 1] == '\r',
        params_newline_free(p),
    ensures
        spec_eol(content) == "\r\n"@,
        forall|q: int|
            0 <= q < spec_process_osu_content(content, p).len() && #[trigger] spec_process_osu_content(content, p)[q] == '\n'
                ==> q > 0 && spec_process_osu_content(content, p)[q - 1] == '\r',
{
    lemma_crlf_pieces(content);
    let pieces = split_spec(content, "\r\n"@);
    lemma_rw_run_no_nl(pieces, rw_init(), p);
    let run = rw_run(pieces, rw_init(), p);
    let out = spec_output_lines(content, p);
    if run.st.in_timing && p.keep_timing_points && run.st.buf.len() > 0 {
        lemma_tp_run_no_nl(run.st.buf, TpState { in_kiai: false, last: None });
        let flushed = tp_run(run.st.buf, TpState { in_kiai: false, last: None }).out;
        assert forall|k: int| 0 <= k < out.len() implies no_char(#[trigger] out[k], '\n') by {
            if k < run.out.len() {
                assert(out[k] == run.out[k]);
            } else {
                assert(out[k] == flushed[k - run.out.len()]);
            }
        }
    }
    lemma_join_crlf_no_bare_nl(out);
}

/// The ghost image of the rewriter's arguments.
pub open spec fn params_of(
    metadata: &BeatmapMetadata,
    game_mode: u8,
    difficulty: &str,
    keep_timing_points: bool,
    reset_sample_set: bool,
    reset_difficulty: bool,
    remove_colours: bool,
    background_file: Option<&str>,
) -> RwParams {
    RwParams {
        md: metadata@,
        game_mode: game_mode,
        difficulty: difficulty@,
        keep_timing_points: keep_timing_points,
        reset_sample_set: reset_sample_set,
        reset_difficulty: reset_difficulty,
        remove_colours: remove_colours,
        background: (match background_file {
            Some(b) => Some(b@),
            None => None,
        }),
    }
}

fn is_header_exec(t: &str) -> (r: bool)
    ensures
        r == is_header(t@),
{
    let tn = t.unicode_len();
    tn >= 1 && t.get_char(0) == '[' && t.get_char(tn - 1) == ']'
}

/// Rewrites one chart's full text for one target difficulty.
#[verifier::rlimit(100)]
pub fn process_osu_content(
    content: &str,
    metadata: &BeatmapMetadata,
    game_mode: u8,
    difficulty: &str,
    keep_timing_points: bool,
    reset_sample_set: bool,
    reset_difficulty: bool,
    remove_colours: bool,
    background_file: Option<&str>,
) -> (r: String)
    ensures
        r@ == spec_process_osu_content(
            content@,
            params_of(
                metadata,
                game_mode,
                difficulty,
                keep_timing_points,
                reset_sample_set,
                reset_difficulty,
                remove_colours,
                background_file,
            ),
        ),
{
    let ghost p = params_of(
        metadata,
        game_mode,
        difficulty,
        keep_timing_points,
        reset_sample_set,
        reset_difficulty,
        remove_colours,
        background_file,
    );
    let eol: &str = if contains_str(content, "\r\n") {
        "\r\n"
    } else {
        "\n"
    };
    proof {
        reveal_strlit("\r\n");
        reveal_strlit("\n");
        assert(eol@ == spec_eol(content@));
    }
    let lines = split_str(content, eol);
    let ghost ldv = lines.deep_view();
    let mut out: Vec<String> = Vec::new();
    let mut section = String::new();
    let mut skip = false;
    let mut in_timing = false;
    let mut buf: Vec<String> = Vec::new();
    let mut k: usize = 0;
    proof {
        assert(ldv.subrange(0 as int, ldv.len() as int) =~~= ldv);
        assert(rw_init() =~~= (RwState {
            section: section@,
            skip: skip,
            in_timing: in_timing,
            buf: buf.deep_view(),
        }));
    }
    while k < lines.len()
        invariant
            k <= lines.len(),
            ldv == lines.deep_view(),
            ldv.len() == lines@.len(),
            p == params_of(
                metadata,
                game_mode,
                difficulty,
                keep_timing_points,
                reset_sample_set,
                reset_difficulty,
                remove_colours,
                background_file,
            ),
            (rw_run(ldv, rw_init(), p).out == out.deep_view() + rw_run(
                ldv.subrange(k as int, ldv.len() as int),
                RwState { section: section@, skip: skip, in_timing: in_timing, buf: buf.deep_view() },
                p,
            ).out),
            (rw_run(ldv, rw_init(), p).st == rw_run(
                ldv.subrange(k as int, ldv.len() as int),
                RwState { section: section@, skip: skip, in_timing: in_timing, buf: buf.deep_view() },
                p,
            ).st),
        decreases lines.len() - k,
    {
        let ghost rest = ldv.subrange(k as int, ldv.len() as int);
        let ghost cur = RwState {
            section: section@,
            skip: skip,
            in_timing: in_timing,
            buf: buf.deep_view(),
        };
        let ghost prev_out = out.deep_view();
        proof {
            assert(rest[0] == ldv[k as int]);
            assert(ldv[k as int] == lines@[k as int]@);
            assert(rest.subrange(1, rest.len() as int) =~~= ldv.subrange(
                k + 1,
                ldv.len() as int,
            ));
        }
        let line: &String = &lines[k];
        let t = trim_str(line.as_str());
        let tn = t.unicode_len();
        let ghost lv = ldv[k as int];
        if is_header_exec(t) {
            if eq_str(section.as_str(), "[TimingPoints]") && in_timing && keep_timing_points {
                let processed = process_timing_points(&buf);
                append_all(&mut out, &processed);
            }
            proof {
                assert(out.deep_view() =~~= prev_out + flush_out(cur, p));
            }
            buf = Vec::new();
            section = t.to_owned();
            in_timing = false;
            if eq_str(t, "[Editor]") || eq_str(t, "[HitObjects]") || (eq_str(t, "[Colours]")
                && remove_colours) {
                skip = true;
            } else {
                skip = false;
                out.push(line.clone());
                proof {
                    assert(out.deep_view() =~~= prev_out + flush_out(cur, p) + seq![lv]);
                }
                if eq_str(t, "[TimingPoints]") {
                    in_timing = true;
                }
            }
        } else if skip {
        } else if in_timing && keep_timing_points {
            buf.push(line.clone());
        } else if in_timing {
        } else if eq_str(section.as_str(), "[Events]") {
            if tn == 0 || starts_with_str(t, "//") {
                out.push(line.clone());
            } else if starts_with_str(t, "0,0,") || starts_with_str(t, "Background,") {
                match background_file {
                    Some(bg) => {
                        let mut nl = "0,0,\"".to_owned();
                        nl.append(bg);
                        nl.append("\",0,0");
                        out.push(nl);
                    },
                    None => {
                        out.push(line.clone());
                    },
                }
            } else {
            }
        } else if eq_str(section.as_str(), "[General]") {
            if starts_with_str(t, "Mode:") {
                let mut nl = "Mode: ".to_owned();
                let digits = u32_to_string(game_mode as u32);
                nl.append(digits.as_str());
                out.push(nl);
            } else if reset_sample_set && starts_with_str(t, "SampleSet:") {
                out.push("SampleSet: Normal".to_owned());
            } else {
                out.push(line.clone());
            }
        } else if eq_str(section.as_str(), "[Metadata]") {
            if starts_with_str(t, "Title:") {
                let mut nl = "Title:".to_owned();
                nl.append(metadata.title.as_str());
                out.push(nl);
            } else if starts_with_str(t, "TitleUnicode:") {
                let mut nl = "TitleUnicode:".to_owned();
                nl.append(metadata.title_unicode.as_str());
                out.push(nl);
            } else if starts_with_str(t, "Artist:") {
                let mut nl = "Artist:".to_owned();
                nl.append(metadata.artist.as_str());
                out.push(nl);
            } else if starts_with_str(t, "ArtistUnicode:") {
                let mut nl = "ArtistUnicode:".to_owned();
                nl.append(metadata.artist_unicode.as_str());
                out.push(nl);
            } else if starts_with_str(t, "Creator:") {
                let mut nl = "Creator:".to_owned();
                nl.append(metadata.creator.as_str());
                out.push(nl);
            } else if starts_with_str(t, "Version:") {
                let mut nl = "Version:".to_owned();
                nl.append(difficulty);
                out.push(nl);
            } else if starts_with_str(t, "Source:") {
                let mut nl = "Source:".to_owned();
                nl.append(metadata.source.as_str());
                out.push(nl);
            } else if starts_with_str(t, "Tags:") {
                let mut nl = "Tags:".to_owned();
                nl.append(metadata.tags.as_str());
                out.push(nl);
            } else if starts_with_str(t, "BeatmapID:") {
                out.push("BeatmapID:-1".to_owned());
            } else if starts_with_str(t, "BeatmapSetID:") {
                out.push("BeatmapSetID:-1".to_owned());
            } else {
                out.push(line.clone());
            }
        } else if eq_str(section.as_str(), "[Difficulty]") && reset_difficulty {
            if starts_with_str(t, "HPDrainRate:") {
                out.push("HPDrainRate: 5".to_owned());
            } else if starts_with_str(t, "CircleSize:") {
                out.push("CircleSize: 2".to_owned());
            } else if starts_with_str(t, "OverallDifficulty:") {
                out.push("OverallDifficulty: 5".to_owned());
            } else if starts_with_str(t, "ApproachRate:") {
                out.push("ApproachRate: 5".to_owned());
            } else if starts_with_str(t, "SliderMultiplier:") {
                out.push("SliderMultiplier: 1.4".to_owned());
            } else if starts_with_str(t, "SliderTickRate:") {
                out.push("SliderTickRate: 1".to_owned());
            } else {
                out.push(line.clone());
            }
        } else {
            out.push(line.clone());
        }
        proof {
            let stepped = rw_line(cur, lv, p);
            assert(out.deep_view() =~~= prev_out + stepped.out);
            assert((RwState {
                section: section@,
                skip: skip,
                in_timing: in_timing,
                buf: buf.deep_view(),
            }) =~~= stepped.st);
            assert(rw_run(rest, cur, p).out == stepped.out + rw_run(
                rest.subrange(1, rest.len() as int),
                stepped.st,
                p,
            ).out);
        }
        k += 1;
    }
    proof {
        assert(ldv.subrange(k as int, ldv.len() as int).len() == 0);
        assert(rw_run(ldv, rw_init(), p).out == out.deep_view());
        assert(rw_run(ldv, rw_init(), p).st == (RwState {
            section: section@,
            skip: skip,
            in_timing: in_timing,
            buf: buf.deep_view(),
        }));
    }
    if in_timing && keep_timing_points && buf.len() > 0 {
        let processed = process_timing_points(&buf);
        append_all(&mut out, &processed);
    }
    proof {
        assert(out.deep_view() =~~= spec_output_lines(content@, p));
    }
    join_strings(&out, eol)
}

} // verus!
