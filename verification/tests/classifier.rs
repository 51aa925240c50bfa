use beatmap_clone::skin::is_skin_file;

#[test]
fn hitcircle_asset_is_skin() {
    assert!(is_skin_file("hitcircle@2x.png"));
}

#[test]
fn plain_song_is_not_skin() {
    assert!(!is_skin_file("song.mp3"));
}

#[test]
fn classification_is_case_insensitive() {
    assert!(is_skin_file("DEFAULT-0.png"));
    assert!(is_skin_file("HitCircle.PNG"));
}

#[test]
fn hitsound_sample_is_skin() {
    assert!(is_skin_file("normal-hitnormal.wav"));
    assert!(is_skin_file("soft-hitclap.ogg"));
    assert!(is_skin_file("drum-sliderslide.wav"));
}

#[test]
fn hitsound_prefix_needs_hit_or_slider_remainder() {
    assert!(!is_skin_file("soft-x.wav"));
}

#[test]
fn applause_is_skin() {
    assert!(is_skin_file("applause.mp3"));
}

#[test]
fn spinner_and_slider_families_are_skin() {
    assert!(is_skin_file("spinner-circle.png"));
    assert!(is_skin_file("spinnerwhatever.png"));
    assert!(is_skin_file("sliderb.png"));
    assert!(is_skin_file("reversearrow@2x.png"));
}

#[test]
fn mode_specific_elements_are_skin() {
    assert!(is_skin_file("taiko-hit100.png"));
    assert!(is_skin_file("fruit-apple.png"));
    assert!(is_skin_file("mania-key1.png"));
    assert!(is_skin_file("pippidon-clear.png"));
}

#[test]
fn interface_elements_are_skin() {
    assert!(is_skin_file("cursor.png"));
    assert!(is_skin_file("menu-back.png"));
    assert!(is_skin_file("star2.png"));
    assert!(is_skin_file("selection-mods.png"));
    assert!(is_skin_file("scorebar-colour.png"));
}

#[test]
fn interface_sounds_are_skin() {
    assert!(is_skin_file("heartbeat.wav"));
    assert!(is_skin_file("key-press.wav"));
    assert!(is_skin_file("menuhit.wav"));
}

#[test]
fn miss_indicators_match_exactly() {
    assert!(is_skin_file("sliderendmiss.wav"));
    assert!(is_skin_file("slidertickmiss.wav"));
    assert!(!is_skin_file("sliderendmissx.wav"));
}

#[test]
fn chart_media_is_not_skin() {
    assert!(!is_skin_file("background.jpg"));
    assert!(!is_skin_file("audio.ogg"));
    assert!(!is_skin_file("video.mp4"));
}

#[test]
fn comboburst_is_skin() {
    assert!(is_skin_file("comboburst-5.png"));
}
