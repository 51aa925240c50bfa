use beatmap_clone::model::BeatmapMetadata;
use beatmap_clone::plan::{
    get_background_from_osu, is_media_file, new_folder_name, next_beatmap_number, osu_file_name,
    sanitize_title, should_copy_asset,
};
use beatmap_clone::rewrite::process_osu_content;

fn names(xs: &[&str]) -> Vec<String> {
    xs.iter().map(|s| s.to_string()).collect()
}

#[test]
fn numbering_starts_at_one() {
    assert_eq!(next_beatmap_number(&names(&[])), 1);
}

#[test]
fn numbering_takes_max_plus_one() {
    let folders = names(&[
        "beatmap-3-Foo",
        "beatmap-10-Bar",
        "somebody else",
        "beatmap-x-Broken",
        "beatmap-5",
    ]);
    assert_eq!(next_beatmap_number(&folders), 11);
}

#[test]
fn numbering_ignores_foreign_folders() {
    let folders = names(&["123456 Artist - Song", "downloads"]);
    assert_eq!(next_beatmap_number(&folders), 1);
}

#[test]
fn sanitize_keeps_alphanumerics_and_replaces_the_rest() {
    assert_eq!(sanitize_title("Foo Bar!"), "Foo_Bar_");
    assert_eq!(sanitize_title("a.b/c"), "a_b_c");
    assert_eq!(sanitize_title("Song2"), "Song2");
}

#[test]
fn sanitize_keeps_unicode_letters() {
    assert_eq!(sanitize_title("日本 x"), "日本_x");
}

#[test]
fn folder_name_is_numbered_and_titled() {
    assert_eq!(new_folder_name(1, "Bar"), "beatmap-1-Bar");
    assert_eq!(new_folder_name(12, "A_B"), "beatmap-12-A_B");
}

#[test]
fn chart_file_name_carries_all_fields() {
    let md = BeatmapMetadata {
        title: "Bar".to_string(),
        title_unicode: String::new(),
        artist: "Baz".to_string(),
        artist_unicode: String::new(),
        creator: "creator".to_string(),
        source: String::new(),
        tags: String::new(),
    };
    assert_eq!(osu_file_name(&md, "Easy"), "Baz - Bar (creator) [Easy].osu");
}

#[test]
fn background_is_read_from_events() {
    let content = "[Events]\n//comment\n0,0,\"bg file.jpg\",0,0\n";
    assert_eq!(get_background_from_osu(content), Some("bg file.jpg".to_string()));
}

#[test]
fn background_accepts_background_prefix() {
    let content = "Background,0,\"b.png\"\n";
    assert_eq!(get_background_from_osu(content), Some("b.png".to_string()));
}

#[test]
fn background_missing_yields_none() {
    assert_eq!(get_background_from_osu("[Events]\n1,0,x\n"), None);
    assert_eq!(get_background_from_osu("0,0,no quotes here\n"), None);
}

#[test]
fn media_extensions_are_recognized_case_insensitively() {
    assert!(is_media_file("song.mp3"));
    assert!(is_media_file("song.OGG"));
    assert!(is_media_file("a.wav"));
    assert!(is_media_file("bg.JPG"));
    assert!(is_media_file("bg.jpeg"));
    assert!(is_media_file("bg.png"));
    assert!(!is_media_file("chart.osu"));
    assert!(!is_media_file("noext"));
    assert!(!is_media_file(".png"));
}

#[test]
fn skin_assets_are_excluded_only_when_asked() {
    assert!(!should_copy_asset("hitcircle.png", true));
    assert!(should_copy_asset("hitcircle.png", false));
    assert!(should_copy_asset("song.mp3", true));
    assert!(!should_copy_asset("storyboard.osb", false));
}

#[test]
fn clone_plan_end_to_end() {
    let template = "osu file format v14\n\n[General]\nMode: 0\n\n[Metadata]\nTitle:Foo\nArtist:Old\nCreator:someone\nBeatmapID:42\n\n[TimingPoints]\n0,500,4,2,0,60,1,0\n\n[HitObjects]\n256,192,1000,1,0\n";
    let md = BeatmapMetadata {
        title: "Bar".to_string(),
        title_unicode: "Bar".to_string(),
        artist: "Baz".to_string(),
        artist_unicode: "Baz".to_string(),
        creator: "creator".to_string(),
        source: String::new(),
        tags: String::new(),
    };

    let number = next_beatmap_number(&names(&[]));
    assert_eq!(number, 1);
    let folder = new_folder_name(number, &sanitize_title(&md.title));
    assert_eq!(folder, "beatmap-1-Bar");

    let file = osu_file_name(&md, "Easy");
    assert_eq!(file, "Baz - Bar (creator) [Easy].osu");

    let background = get_background_from_osu(template);
    assert_eq!(background, None);

    let out = process_osu_content(template, &md, 1, "Easy", true, false, false, false, None);
    assert!(out.contains("Mode: 1"));
    assert!(out.contains("Title:Bar"));
    assert!(out.contains("BeatmapID:-1"));
    assert!(out.contains("0,500,4,1,0,100,1,0"));
    assert!(!out.contains("[HitObjects]"));
}
