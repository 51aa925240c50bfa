//! The timing-point compressor: turns the raw lines of a TimingPoints
//! section into a minimal list of normalized 8-field records that
//! keeps every BPM change and every kiai (light-show) on/off edge and
//! drops everything else.

use vstd::prelude::*;
use vstd::string::*;

use crate::num::{is_odd_i32, parse_i32_or_zero, parse_i32_or_zero_str};
use crate::text::{
    lemma_concat_no_char, lemma_split_no_char, lemma_split_prepend, lemma_split_sep_free,
    lemma_split_whole, lemma_trim_no_char, no_char, split_spec, split_str, starts_with,
    starts_with_str, trim_spec, trim_str,
};

verus! {

/// The compressor's running state: whether kiai is currently on, and
/// the beat length and meter of the last emitted BPM-defining record.
pub struct TpState {
    pub in_kiai: bool,
    pub last: Option<(Seq<char>, Seq<char>)>,
}

/// One step's outcome: the new state and the lines emitted.
pub struct TpStep {
    pub st: TpState,
    pub out: Seq<Seq<char>>,
}

/// The kiai flag of an effects field: bit 0 of the parsed value, with
/// unparsable text read as 0.
pub open spec fn kiai_of(effects_field: Seq<char>) -> bool {
    parse_i32_or_zero(trim_spec(effects_field)) % 2 == 1
}

/// A normalized BPM-defining record: sample set, sample index and
/// volume are reset to `0,100,1`, the rest is preserved.
pub open spec fn bpm_line(time: Seq<char>, beat: Seq<char>, meter: Seq<char>, kiai: bool) -> Seq<
    char,
> {
    time + ","@ + beat + ","@ + meter + ",1,0,100,1,"@ + (if kiai {
        "1"@
    } else {
        "0"@
    })
}

/// A synthesized inherited record marking a kiai edge, reusing the
/// beat length and meter of the last BPM-defining record.
pub open spec fn inherited_line(
    time: Seq<char>,
    beat: Seq<char>,
    meter: Seq<char>,
    kiai: bool,
) -> Seq<char> {
    time + ","@ + beat + ","@ + meter + ",1,0,100,0,"@ + (if kiai {
        "1"@
    } else {
        "0"@
    })
}

/// How one raw line advances the compressor: blank lines, comments and
/// records with fewer than 8 fields are dropped; an uninherited record
/// is re-emitted normalized; an inherited record is emitted only when
/// its kiai bit flips the current state and a BPM-defining record has
/// been seen.
pub open spec fn tp_line_step(st: TpState, line: Seq<char>) -> TpStep {
    let t = trim_spec(line);
    if t.len() == 0 || starts_with(t, "//"@) {
        TpStep { st, out: seq![] }
    } else {
        let parts = split_spec(t, ","@);
        if parts.len() < 8 {
            TpStep { st, out: seq![] }
        } else {
            let time = trim_spec(parts[0]);
            let beat = trim_spec(parts[1]);
            let meter = trim_spec(parts[2]);
            let uninherited = trim_spec(parts[6]);
            let has_kiai = kiai_of(parts[7]);
            if uninherited == "1"@ {
                TpStep {
                    st: TpState { in_kiai: has_kiai, last: Some((beat, meter)) },
                    out: seq![bpm_line(time, beat, meter, has_kiai)],
                }
            } else if has_kiai != st.in_kiai {
                match st.last {
                    Some(bm) => TpStep {
                        st: TpState { in_kiai: has_kiai, last: st.last },
                        out: seq![inherited_line(time, bm.0, bm.1, has_kiai)],
                    },
                    None => TpStep { st: TpState { in_kiai: has_kiai, last: None }, out: seq![] },
                }
            } else {
                TpStep { st, out: seq![] }
            }
        }
    }
}

/// The compressor run over a whole list of lines from a given state.
pub open spec fn tp_run(lines: Seq<Seq<char>>, st: TpState) -> TpStep
    decreases lines.len(),
{
    if lines.len() == 0 {
        TpStep { st, out: seq![] }
    } else {
        let first = tp_line_step(st, lines[0]);
        let rest = tp_run(lines.subrange(1, lines.len() as int), first.st);
        TpStep { st: rest.st, out: first.out + rest.out }
    }
}

/// What the compressor yields on a fresh section: kiai starts off and
/// no BPM-defining record has been seen.
pub open spec fn spec_process_timing_points(lines: Seq<Seq<char>>) -> Seq<Seq<char>> {
    tp_run(lines, TpState { in_kiai: false, last: None }).out
}

/// A compliant record: exactly 8 comma-separated fields.
pub open spec fn eight_fields(line: Seq<char>) -> bool {
    split_spec(line, ","@).len() == 8
}

/// The remembered beat length and meter are single fields: they hold
/// no comma.
pub open spec fn tp_state_field_like(st: TpState) -> bool {
    match st.last {
        Some(bm) => no_char(bm.0, ',') && no_char(bm.1, ','),
        None => true,
    }
}

proof fn lemma_record_eight(
    time: Seq<char>,
    beat: Seq<char>,
    meter: Seq<char>,
    x: char,
    bit: Seq<char>,
)
    requires
        no_char(time, ','),
        no_char(beat, ','),
        no_char(meter, ','),
        no_char(bit, ','),
        x != ',',
    ensures
        split_spec(
            time + ","@ + beat + ","@ + meter + (","@ + seq!['1'] + ","@ + seq!['0'] + ","@
                + seq!['1', '0', '0'] + ","@ + seq![x] + ","@) + bit,
            ","@,
        ).len() == 8,
{
    reveal_strlit(",");
    let sep = ","@;
    let t7 = bit;
    let t6 = seq![x] + sep + t7;
    let t5 = seq!['1', '0', '0'] + sep + t6;
    let t4 = seq!['0'] + sep + t5;
    let t3 = seq!['1'] + sep + t4;
    let t2 = meter + sep + t3;
    let t1 = beat + sep + t2;
    let t0 = time + sep + t1;
    lemma_split_whole(t7, sep);
    lemma_split_prepend(seq![x], sep, t7);
    lemma_split_prepend(seq!['1', '0', '0'], sep, t6);
    lemma_split_prepend(seq!['0'], sep, t5);
    lemma_split_prepend(seq!['1'], sep, t4);
    lemma_split_prepend(meter, sep, t3);
    lemma_split_prepend(beat, sep, t2);
    lemma_split_prepend(time, sep, t1);
    assert(time + ","@ + beat + ","@ + meter + (","@ + seq!['1'] + ","@ + seq!['0'] + ","@
        + seq!['1', '0', '0'] + ","@ + seq![x] + ","@) + bit =~= t0);
}

/// Every record the compressor emits has exactly 8 comma-separated
/// fields.
pub proof fn lemma_tp_run_eight_fields(lines: Seq<Seq<char>>, st: TpState)
    requires
        tp_state_field_like(st),
    ensures
        forall|k: int|
            0 <= k < tp_run(lines, st).out.len() ==> eight_fields(
                #[trigger] tp_run(lines, st).out[k],
            ),
        tp_state_field_like(tp_run(lines, st).st),
    decreases lines.len(),
{
    if lines.len() > 0 {
        reveal_strlit(",");
        reveal_strlit(",1,0,100,1,");
        reveal_strlit(",1,0,100,0,");
        reveal_strlit("1");
        reveal_strlit("0");
        let line = lines[0];
        let first = tp_line_step(st, line);
        let t = trim_spec(line);
        if !(t.len() == 0 || starts_with(t, "//"@)) {
            lemma_split_sep_free(t, ","@);
            let parts = split_spec(t, ","@);
            if parts.len() >= 8 {
                lemma_trim_no_char(parts[0], ',');
                lemma_trim_no_char(parts[1], ',');
                lemma_trim_no_char(parts[2], ',');
                let time = trim_spec(parts[0]);
                let beat = trim_spec(parts[1]);
                let meter = trim_spec(parts[2]);
                let bit = if kiai_of(parts[7]) {
                    "1"@
                } else {
                    "0"@
                };
                assert(",1,0,100,1,"@ =~= ","@ + seq!['1'] + ","@ + seq!['0'] + ","@
                    + seq!['1', '0', '0'] + ","@ + seq!['1'] + ","@);
                assert(",1,0,100,0,"@ =~= ","@ + seq!['1'] + ","@ + seq!['0'] + ","@
                    + seq!['1', '0', '0'] + ","@ + seq!['0'] + ","@);
                if trim_spec(parts[6]) == "1"@ {
                    lemma_record_eight(time, beat, meter, '1', bit);
                    assert(eight_fields(bpm_line(time, beat, meter, kiai_of(parts[7]))));
                } else {
                    match st.last {
                        Some(bm) => {
                            lemma_record_eight(time, bm.0, bm.1, '0', bit);
                            assert(eight_fields(
                                inherited_line(time, bm.0, bm.1, kiai_of(parts[7])),
                            ));
                        },
                        None => {},
                    }
                }
            }
        }
        let rest_lines = lines.subrange(1, lines.len() as int);
        lemma_tp_run_eight_fields(rest_lines, first.st);
        let r = tp_run(rest_lines, first.st);
        assert forall|k: int| 0 <= k < tp_run(lines, st).out.len() implies eight_fields(
            #[trigger] tp_run(lines, st).out[k],
        ) by {
            if k < first.out.len() {
                assert(tp_run(lines, st).out[k] == first.out[k]);
            } else {
                assert(tp_run(lines, st).out[k] == r.out[k - first.out.len()]);
            }
        }
    }
}

/// Every line the compressor yields is a compliant 8-field record.
pub proof fn lemma_compressor_eight_fields(lines: Seq<Seq<char>>)
    ensures
        forall|k: int|
            0 <= k < spec_process_timing_points(lines).len() ==> eight_fields(
                #[trigger] spec_process_timing_points(lines)[k],
            ),
{
    lemma_tp_run_eight_fields(lines, TpState { in_kiai: false, last: None });
}

/// The bookkeeping carried through the newline lemma: the remembered
/// beat length and meter hold no line feed.
pub open spec fn tp_state_no_nl(st: TpState) -> bool {
    match st.last {
        Some(bm) => no_char(bm.0, '\n') && no_char(bm.1, '\n'),
        None => true,
    }
}

/// The compressor never introduces a line feed: on newline-free lines
/// it emits newline-free lines.
pub proof fn lemma_tp_run_no_nl(lines: Seq<Seq<char>>, st: TpState)
    requires
        forall|k: int| 0 <= k < lines.len() ==> no_char(#[trigger] lines[k], '\n'),
        tp_state_no_nl(st),
    ensures
        forall|k: int|
            0 <= k < tp_run(lines, st).out.len() ==> no_char(
                #[trigger] tp_run(lines, st).out[k],
                '\n',
            ),
        tp_state_no_nl(tp_run(lines, st).st),
    decreases lines.len(),
{
    if lines.len() > 0 {
        reveal_strlit(",");
        reveal_strlit(",1,0,100,1,");
        reveal_strlit(",1,0,100,0,");
        reveal_strlit("1");
        reveal_strlit("0");
        assert(no_char(","@, '\n'));
        assert(no_char(",1,0,100,1,"@, '\n'));
        assert(no_char(",1,0,100,0,"@, '\n'));
        assert(no_char("1"@, '\n'));
        assert(no_char("0"@, '\n'));
        let line = lines[0];
        let first = tp_line_step(st, line);
        lemma_trim_no_char(line, '\n');
        let t = trim_spec(line);
        if !(t.len() == 0 || starts_with(t, "//"@)) {
            lemma_split_no_char(t, ","@, '\n');
            let parts = split_spec(t, ","@);
            if parts.len() >= 8 {
                lemma_trim_no_char(parts[0], '\n');
                lemma_trim_no_char(parts[1], '\n');
                lemma_trim_no_char(parts[2], '\n');
                let time = trim_spec(parts[0]);
                let beat = trim_spec(parts[1]);
                let meter = trim_spec(parts[2]);
                let bit1 = if kiai_of(parts[7]) {
                    "1"@
                } else {
                    "0"@
                };
                lemma_concat_no_char(time, ","@, '\n');
                lemma_concat_no_char(time + ","@, beat, '\n');
                lemma_concat_no_char(time + ","@ + beat, ","@, '\n');
                lemma_concat_no_char(time + ","@ + beat + ","@, meter, '\n');
                lemma_concat_no_char(time + ","@ + beat + ","@ + meter, ",1,0,100,1,"@, '\n');
                lemma_concat_no_char(
                    time + ","@ + beat + ","@ + meter + ",1,0,100,1,"@,
                    bit1,
                    '\n',
                );
                match st.last {
                    Some(bm) => {
                        lemma_concat_no_char(time + ","@, bm.0, '\n');
                        lemma_concat_no_char(time + ","@ + bm.0, ","@, '\n');
                        lemma_concat_no_char(time + ","@ + bm.0 + ","@, bm.1, '\n');
                        lemma_concat_no_char(
                            time + ","@ + bm.0 + ","@ + bm.1,
                            ",1,0,100,0,"@,
                            '\n',
                        );
                        lemma_concat_no_char(
                            time + ","@ + bm.0 + ","@ + bm.1 + ",1,0,100,0,"@,
                            bit1,
                            '\n',
                        );
                    },
                    None => {},
                }
            }
        }
        let rest_lines = lines.subrange(1, lines.len() as int);
        assert forall|k: int| 0 <= k < rest_lines.len() implies no_char(
            #[trigger] rest_lines[k],
            '\n',
        ) by {
            assert(rest_lines[k] == lines[k + 1]);
        }
        lemma_tp_run_no_nl(rest_lines, first.st);
        let r = tp_run(rest_lines, first.st);
        assert forall|k: int| 0 <= k < tp_run(lines, st).out.len() implies no_char(
            #[trigger] tp_run(lines, st).out[k],
            '\n',
        ) by {
            if k < first.out.len() {
                assert(tp_run(lines, st).out[k] == first.out[k]);
            } else {
                assert(tp_run(lines, st).out[k] == r.out[k - first.out.len()]);
            }
        }
    }
}

/// The view of the compressor's executable bookkeeping.
pub open spec fn last_view(l: Option<(String, String)>) -> Option<(Seq<char>, Seq<char>)> {
    match l {
        None => None,
        Some(p) => Some((p.0@, p.1@)),
    }
}

/// Compresses the raw lines of one TimingPoints section, keeping only
/// normalized BPM-defining records and synthesized kiai edges.
pub fn process_timing_points(lines: &Vec<String>) -> (r: Vec<String>)
    ensures
        r.deep_view() == spec_process_timing_points(lines.deep_view()),
{
    let mut result: Vec<String> = Vec::new();
    let mut in_kiai = false;
    let mut last: Option<(String, String)> = None;
    let mut k: usize = 0;
    proof {
        assert(lines.deep_view().subrange(0 as int, lines.deep_view().len() as int) =~~= lines.deep_view());
    }
    while k < lines.len()
        invariant
            k <= lines.len(),
            lines.deep_view().len() == lines@.len(),
            (spec_process_timing_points(lines.deep_view()) == result.deep_view() + tp_run(
                lines.deep_view().subrange(k as int, lines.deep_view().len() as int),
                TpState { in_kiai: in_kiai, last: last_view(last) },
            ).out),
        decreases lines.len() - k,
    {
        let ghost rest = lines.deep_view().subrange(k as int, lines.deep_view().len() as int);
        let ghost cur = TpState { in_kiai: in_kiai, last: last_view(last) };
        proof {
            reveal_strlit(",");
            assert(rest[0] == lines.deep_view()[k as int]);
            assert(rest.subrange(1, rest.len() as int) =~~= lines.deep_view().subrange(
                k + 1,
                lines.deep_view().len() as int,
            ));
        }
        let ghost prev_dv = result.deep_view();
        let line: &String = &lines[k];
        let t = trim_str(line.as_str());
        let tn = t.unicode_len();
        if tn == 0 || starts_with_str(t, "//") {
        } else {
            let parts = split_str(t, ",");
            if parts.len() < 8 {
            } else {
                let time = trim_str((&parts[0]).as_str());
                let beat = trim_str((&parts[1]).as_str());
                let meter = trim_str((&parts[2]).as_str());
                let uninherited = trim_str((&parts[6]).as_str());
                let effects = parse_i32_or_zero_str(trim_str((&parts[7]).as_str()));
                let has_kiai = is_odd_i32(effects);
                proof {
                    assert(parts.deep_view()[0] == split_spec(t@, ","@)[0]);
                    assert(parts.deep_view()[1] == split_spec(t@, ","@)[1]);
                    assert(parts.deep_view()[2] == split_spec(t@, ","@)[2]);
                    assert(parts.deep_view()[6] == split_spec(t@, ","@)[6]);
                    assert(parts.deep_view()[7] == split_spec(t@, ","@)[7]);
                }
                if crate::text::eq_str(uninherited, "1") {
                    let mut nl = time.to_owned();
                    nl.append(",");
                    nl.append(beat);
                    nl.append(",");
                    nl.append(meter);
                    nl.append(",1,0,100,1,");
                    nl.append(if has_kiai {
                        "1"
                    } else {
                        "0"
                    });
                    result.push(nl);
                    last = Some((beat.to_owned(), meter.to_owned()));
                    in_kiai = has_kiai;
                    proof {
                        assert(result.deep_view() =~~= prev_dv + tp_line_step(cur, rest[0]).out);
                    }
                } else if has_kiai != in_kiai {
                    match &last {
                        Some(bm) => {
                            let mut nl = time.to_owned();
                            nl.append(",");
                            nl.append((&bm.0).as_str());
                            nl.append(",");
                            nl.append((&bm.1).as_str());
                            nl.append(",1,0,100,0,");
                            nl.append(if has_kiai {
                                "1"
                            } else {
                                "0"
                            });
                            result.push(nl);
                            proof {
                                assert(result.deep_view() =~~= prev_dv + tp_line_step(
                                    cur,
                                    rest[0],
                                ).out);
                            }
                        },
                        None => {},
                    }
                    in_kiai = has_kiai;
                }
            }
        }
        proof {
            let stepped = tp_line_step(cur, rest[0]);
            assert(stepped.st == (TpState { in_kiai: in_kiai, last: last_view(last) }));
            assert(result.deep_view() =~~= prev_dv + stepped.out);
            assert(tp_run(rest, cur).out == stepped.out + tp_run(
                rest.subrange(1, rest.len() as int),
                stepped.st,
            ).out);
        }
        k += 1;
    }
    proof {
        assert(lines.deep_view().subrange(k as int, lines.deep_view().len() as int).len() == 0);
    }
    result
}

} // verus!
