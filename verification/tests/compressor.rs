use beatmap_clone::timing::process_timing_points;

fn lines(xs: &[&str]) -> Vec<String> {
    xs.iter().map(|s| s.to_string()).collect()
}

#[test]
fn kiai_edges_are_kept_and_redundant_records_dropped() {
    let input = lines(&[
        "0,500,4,2,0,60,1,0",
        "1000,-100,4,2,0,60,0,1",
        "2000,-100,4,2,0,60,0,1",
        "3000,-100,4,2,0,60,0,0",
    ]);
    let out = process_timing_points(&input);
    assert_eq!(
        out,
        vec![
            "0,500,4,1,0,100,1,0".to_string(),
            "1000,500,4,1,0,100,0,1".to_string(),
            "3000,500,4,1,0,100,0,0".to_string(),
        ]
    );
}

#[test]
fn bpm_line_is_normalized() {
    let input = lines(&["250,300.5,3,1,2,80,1,1"]);
    let out = process_timing_points(&input);
    assert_eq!(out, vec!["250,300.5,3,1,0,100,1,1".to_string()]);
}

#[test]
fn malformed_short_lines_are_dropped() {
    let input = lines(&["100,200,4,0,0,60,1", "junk", ""]);
    let out = process_timing_points(&input);
    assert!(out.is_empty());
}

#[test]
fn comment_lines_are_dropped() {
    let input = lines(&["// a comment", "0,500,4,2,0,60,1,0"]);
    let out = process_timing_points(&input);
    assert_eq!(out, vec!["0,500,4,1,0,100,1,0".to_string()]);
}

#[test]
fn kiai_edge_before_any_bpm_line_is_dropped() {
    let input = lines(&["1000,-100,4,2,0,60,0,1"]);
    let out = process_timing_points(&input);
    assert!(out.is_empty());
}

#[test]
fn fields_are_trimmed() {
    let input = lines(&[" 0 , 500 , 4 ,2,0,60, 1 , 1 "]);
    let out = process_timing_points(&input);
    assert_eq!(out, vec!["0,500,4,1,0,100,1,1".to_string()]);
}

#[test]
fn unparsable_effects_read_as_kiai_off() {
    let input = lines(&["0,500,4,2,0,60,1,abc", "1000,-100,4,2,0,60,0,abc"]);
    let out = process_timing_points(&input);
    assert_eq!(out, vec!["0,500,4,1,0,100,1,0".to_string()]);
}

#[test]
fn overflowing_effects_read_as_kiai_off() {
    let input = lines(&["0,500,4,2,0,60,1,99999999999999999999"]);
    let out = process_timing_points(&input);
    assert_eq!(out, vec!["0,500,4,1,0,100,1,0".to_string()]);
}

#[test]
fn odd_effects_bitmask_means_kiai() {
    let input = lines(&["0,500,4,2,0,60,1,3"]);
    let out = process_timing_points(&input);
    assert_eq!(out, vec!["0,500,4,1,0,100,1,1".to_string()]);
}

#[test]
fn negative_odd_effects_means_kiai() {
    let input = lines(&["0,500,4,2,0,60,1,-1"]);
    let out = process_timing_points(&input);
    assert_eq!(out, vec!["0,500,4,1,0,100,1,1".to_string()]);
}

#[test]
fn every_emitted_record_has_eight_fields() {
    let input = lines(&[
        "0,500,4,2,0,60,1,0",
        "1000,-100,4,2,0,60,0,1",
        "2500,320,3,1,2,80,1,1",
        "4000,-100,4,2,0,60,0,0",
    ]);
    for line in process_timing_points(&input) {
        assert_eq!(line.split(',').count(), 8);
    }
}

#[test]
fn inherited_edge_reuses_last_bpm_beat_and_meter() {
    let input = lines(&[
        "0,500,4,2,0,60,1,0",
        "500,320,3,2,0,60,1,0",
        "1000,-100,4,2,0,60,0,1",
    ]);
    let out = process_timing_points(&input);
    assert_eq!(
        out,
        vec![
            "0,500,4,1,0,100,1,0".to_string(),
            "500,320,3,1,0,100,1,0".to_string(),
            "1000,320,3,1,0,100,0,1".to_string(),
        ]
    );
}
