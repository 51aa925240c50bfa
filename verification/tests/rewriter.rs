use beatmap_clone::model::BeatmapMetadata;
use beatmap_clone::rewrite::process_osu_content;

fn metadata() -> BeatmapMetadata {
    BeatmapMetadata {
        title: "Bar".to_string(),
        title_unicode: "BarU".to_string(),
        artist: "Baz".to_string(),
        artist_unicode: "BazU".to_string(),
        creator: "creator".to_string(),
        source: "src".to_string(),
        tags: "tag1 tag2".to_string(),
    }
}

fn rewrite(content: &str, keep_timing: bool, remove_colours: bool, bg: Option<&str>) -> String {
    process_osu_content(content, &metadata(), 1, "Easy", keep_timing, false, false, remove_colours, bg)
}

#[test]
fn metadata_and_mode_are_rewritten() {
    let content = "osu file format v14\n\n[General]\nMode: 0\n\n[Metadata]\nTitle:Foo\nTitleUnicode:FooU\nArtist:Old\nArtistUnicode:OldU\nCreator:someone\nVersion:Hard\nSource:osrc\nTags:old\nBeatmapID:42\nBeatmapSetID:77\n";
    let out = rewrite(content, true, false, None);
    assert!(out.contains("Mode: 1"));
    assert!(out.contains("Title:Bar"));
    assert!(out.contains("TitleUnicode:BarU"));
    assert!(out.contains("Artist:Baz"));
    assert!(out.contains("ArtistUnicode:BazU"));
    assert!(out.contains("Creator:creator"));
    assert!(out.contains("Version:Easy"));
    assert!(out.contains("Source:src"));
    assert!(out.contains("Tags:tag1 tag2"));
    assert!(out.contains("BeatmapID:-1"));
    assert!(out.contains("BeatmapSetID:-1"));
    assert!(!out.contains("Foo"));
    assert!(!out.contains("42"));
}

#[test]
fn dropped_sections_leave_no_content() {
    let content = "[Editor]\nDistanceSpacing: 0.8\n\n[Metadata]\nTitle:Foo\n\n[TimingPoints]\n0,500,4,2,0,60,1,0\n\n[HitObjects]\n256,192,1000,1,0\n";
    let out = rewrite(content, false, false, None);
    assert!(!out.contains("[Editor]"));
    assert!(!out.contains("DistanceSpacing"));
    assert!(!out.contains("[HitObjects]"));
    assert!(!out.contains("256,192"));
    assert!(out.contains("[TimingPoints]"));
    assert!(!out.contains("0,500,4"));
}

#[test]
fn kept_timing_points_are_compressed_on_section_close() {
    let content = "[TimingPoints]\n0,500,4,2,0,60,1,0\n1000,-100,4,2,0,60,0,1\n1500,-100,4,2,0,60,0,1\n\n[Colours]\nCombo1 : 1,2,3\n";
    let out = rewrite(content, true, false, None);
    assert!(out.contains("0,500,4,1,0,100,1,0"));
    assert!(out.contains("1000,500,4,1,0,100,0,1"));
    assert!(!out.contains("1500"));
    assert!(out.contains("[Colours]"));
    assert!(out.contains("Combo1 : 1,2,3"));
}

#[test]
fn open_timing_section_is_flushed_at_end_of_document() {
    let content = "[TimingPoints]\n0,500,4,2,0,60,1,1";
    let out = rewrite(content, true, false, None);
    assert!(out.contains("0,500,4,1,0,100,1,1"));
}

#[test]
fn colours_section_is_dropped_when_asked() {
    let content = "[Colours]\nCombo1 : 1,2,3\n\n[Metadata]\nTitle:Foo\n";
    let out = rewrite(content, true, true, None);
    assert!(!out.contains("[Colours]"));
    assert!(!out.contains("Combo1"));
    assert!(out.contains("Title:Bar"));
}

#[test]
fn events_background_is_replaced_when_supplied() {
    let content = "[Events]\n//Background and Video events\n0,0,\"old.jpg\",0,0\nVideo,0,\"v.mp4\"\n";
    let out = rewrite(content, true, false, Some("new.png"));
    assert!(out.contains("//Background and Video events"));
    assert!(out.contains("0,0,\"new.png\",0,0"));
    assert!(!out.contains("old.jpg"));
    assert!(!out.contains("v.mp4"));
}

#[test]
fn events_background_kept_without_replacement() {
    let content = "[Events]\n0,0,\"old.jpg\",0,0\n";
    let out = rewrite(content, true, false, None);
    assert!(out.contains("0,0,\"old.jpg\",0,0"));
}

#[test]
fn sample_set_reset_only_when_asked() {
    let content = "[General]\nSampleSet: Soft\nMode: 0\n";
    let with_reset =
        process_osu_content(content, &metadata(), 3, "X", true, true, false, false, None);
    assert!(with_reset.contains("SampleSet: Normal"));
    assert!(with_reset.contains("Mode: 3"));
    let without =
        process_osu_content(content, &metadata(), 3, "X", true, false, false, false, None);
    assert!(without.contains("SampleSet: Soft"));
}

#[test]
fn difficulty_reset_rewrites_known_keys() {
    let content = "[Difficulty]\nHPDrainRate:7\nCircleSize:4\nOverallDifficulty:9\nApproachRate:9.4\nSliderMultiplier:1.8\nSliderTickRate:2\nOther:3\n";
    let out = process_osu_content(content, &metadata(), 0, "X", true, false, true, false, None);
    assert!(out.contains("HPDrainRate: 5"));
    assert!(out.contains("CircleSize: 2"));
    assert!(out.contains("OverallDifficulty: 5"));
    assert!(out.contains("ApproachRate: 5"));
    assert!(out.contains("SliderMultiplier: 1.4"));
    assert!(out.contains("SliderTickRate: 1"));
    assert!(out.contains("Other:3"));
    let kept = process_osu_content(content, &metadata(), 0, "X", true, false, false, false, None);
    assert!(kept.contains("HPDrainRate:7"));
}

#[test]
fn unknown_sections_pass_through() {
    let content = "preamble\n[Custom]\nanything: 1\n";
    let out = rewrite(content, true, false, None);
    assert!(out.contains("preamble"));
    assert!(out.contains("[Custom]"));
    assert!(out.contains("anything: 1"));
}

#[test]
fn crlf_line_endings_are_preserved() {
    let content = "[General]\r\nMode: 0\r\n\r\n[Metadata]\r\nTitle:Foo\r\n";
    let out = rewrite(content, true, false, None);
    let bytes: Vec<char> = out.chars().collect();
    for (i, c) in bytes.iter().enumerate() {
        if *c == '\n' {
            assert!(i > 0 && bytes[i - 1] == '\r');
        }
    }
    assert!(out.contains("Mode: 1"));
    assert!(out.contains("\r\n"));
}

#[test]
fn lf_document_stays_lf() {
    let content = "[General]\nMode: 0\n";
    let out = rewrite(content, true, false, None);
    assert!(!out.contains('\r'));
    assert_eq!(out, "[General]\nMode: 1\n");
}

#[test]
fn two_digit_mode_is_rendered_in_full() {
    let content = "[General]\nMode: 0\n";
    let out = process_osu_content(content, &metadata(), 10, "X", true, false, false, false, None);
    assert!(out.contains("Mode: 10"));
}
