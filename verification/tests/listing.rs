use beatmap_clone::listing::beatmap_summary;

const CHART: &str = "osu file format v14\n[Metadata]\nTitle:Song\nArtist:Band\nCreator:Me\nBeatmapID:11\nBeatmapSetID:22\n[Events]\n0,0,\"bg.png\",0,0\n";

#[test]
fn summary_scrapes_display_fields() {
    let b = beatmap_summary("/songs/folder", "folder", CHART, "").unwrap();
    assert_eq!(b.folder_name, "folder");
    assert_eq!(b.title, "Band - Song");
    assert_eq!(b.artist, "Band");
    assert_eq!(b.creator, "Me");
    assert_eq!(b.beatmap_id, "11");
    assert_eq!(b.beatmap_set_id, "22");
    assert_eq!(b.background_path, Some("/songs/folder/bg.png".to_string()));
}

#[test]
fn summary_query_is_case_insensitive() {
    assert!(beatmap_summary("/s/f", "f", CHART, "band").is_some());
    assert!(beatmap_summary("/s/f", "f", CHART, "SONG").is_some());
    assert!(beatmap_summary("/s/f", "f", CHART, "zzz").is_none());
}

#[test]
fn summary_falls_back_to_folder_name() {
    let bare = "no metadata here\n";
    let b = beatmap_summary("/s/123 Artist - Song", "123 Artist - Song", bare, "").unwrap();
    assert_eq!(b.title, "Artist - Song");
    assert_eq!(b.artist, "Unknown");
    assert_eq!(b.creator, "Unknown");
    assert_eq!(b.background_path, None);
}

#[test]
fn summary_query_matches_ids() {
    assert!(beatmap_summary("/s/f", "f", CHART, "22").is_some());
}
