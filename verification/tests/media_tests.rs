use winisland::lyrics::LyricLine;
use winisland::media::{
    lyric_at, playback_position, shown_artist, shown_title, MediaState, PlaybackSnapshot,
    SourceChange,
};

fn line(t: u64, s: &str) -> LyricLine {
    LyricLine { time_ms: t, text: s.to_string() }
}

fn snap(title: &str, artist: &str, playing: bool, pos: u64) -> PlaybackSnapshot {
    PlaybackSnapshot {
        title: title.to_string(),
        artist: artist.to_string(),
        album: "Album".to_string(),
        is_playing: playing,
        position_ms: pos,
        duration_secs: 200,
    }
}

#[test]
fn line_shown_at_a_position() {
    let lines = vec![line(1000, "a"), line(2000, "b"), line(5000, "c")];
    assert_eq!(lyric_at(&lines, 999), None);
    assert_eq!(lyric_at(&lines, 1000), Some("a".to_string()));
    assert_eq!(lyric_at(&lines, 1999), Some("a".to_string()));
    assert_eq!(lyric_at(&lines, 2000), Some("b".to_string()));
    assert_eq!(lyric_at(&lines, 99999), Some("c".to_string()));
    assert_eq!(lyric_at(&Vec::new(), 5), None);
}

#[test]
fn position_advances_only_while_playing() {
    assert_eq!(playback_position(1000, true, 250), 1250);
    assert_eq!(playback_position(1000, false, 250), 1000);
}

#[test]
fn current_lyric_follows_the_clock() {
    let mut m = MediaState::new();
    assert_eq!(m.current_lyric(0), None);
    m.lyrics = Some(vec![line(1000, "a"), line(3000, "b")]);
    m.position_ms = 2500;
    m.is_playing = true;
    assert_eq!(m.current_lyric(0), Some("a".to_string()));
    assert_eq!(m.current_lyric(600), Some("b".to_string()));
    m.is_playing = false;
    assert_eq!(m.current_lyric(600), Some("a".to_string()));
    m.lyrics = Some(Vec::new());
    assert_eq!(m.current_lyric(0), None);
}

#[test]
fn new_song_resets_and_asks_for_lyrics() {
    let mut m = MediaState::new();
    let s = snap("Title", "Artist", true, 4000);
    assert!(m.snapshot_in_range(&s, 0));
    let out = m.apply_snapshot(&s, 0);
    assert!(out.restart_clock && out.fetch_lyrics && out.fetch_thumbnail);
    assert_eq!(m.song_id, "Title - Artist");
    assert_eq!(m.position_ms, 4000);
    assert_eq!(m.last_smtc_pos, 4000);
    assert!(m.is_playing);
    assert_eq!(m.album, "Album");
    assert_eq!(m.duration_secs, 200);
    m.lyrics = Some(vec![line(0, "x")]);
    m.thumbnail = Some(vec![1, 2, 3]);
    let out = m.apply_snapshot(&snap("Other", "Artist", true, 0), 100);
    assert!(out.fetch_lyrics);
    assert!(m.lyrics.is_none() && m.thumbnail.is_none());
}

#[test]
fn small_drift_is_not_corrected() {
    let mut m = MediaState::new();
    m.apply_snapshot(&snap("T", "A", true, 10_000), 0);
    // 500 ms later the system reports 10_400: 100 ms off the clock.
    let out = m.apply_snapshot(&snap("T", "A", true, 10_400), 500);
    assert!(!out.restart_clock && !out.fetch_lyrics);
    assert_eq!(m.position_ms, 10_000);
    assert_eq!(m.last_smtc_pos, 10_400);
}

#[test]
fn a_seek_is_followed() {
    let mut m = MediaState::new();
    m.apply_snapshot(&snap("T", "A", true, 10_000), 0);
    let out = m.apply_snapshot(&snap("T", "A", true, 60_000), 500);
    assert!(out.restart_clock);
    assert_eq!(m.position_ms, 60_000);
}

#[test]
fn unchanged_reported_position_is_not_a_seek() {
    let mut m = MediaState::new();
    m.apply_snapshot(&snap("T", "A", true, 10_000), 0);
    let out = m.apply_snapshot(&snap("T", "A", true, 10_000), 5_000);
    assert!(!out.restart_clock);
    assert_eq!(m.position_ms, 10_000);
}

#[test]
fn pause_and_resume_restart_the_clock() {
    let mut m = MediaState::new();
    m.apply_snapshot(&snap("T", "A", true, 1_000), 0);
    let out = m.apply_snapshot(&snap("T", "A", false, 1_200), 200);
    assert!(out.restart_clock);
    assert!(!m.is_playing);
    assert_eq!(m.position_ms, 1_200);
}

#[test]
fn playing_from_zero_takes_the_reported_position() {
    let mut m = MediaState::new();
    m.apply_snapshot(&snap("T", "A", true, 0), 0);
    let out = m.apply_snapshot(&snap("T", "A", true, 300), 0);
    assert!(out.restart_clock);
    assert_eq!(m.position_ms, 300);
}

#[test]
fn stale_lyrics_are_dropped() {
    let mut m = MediaState::new();
    m.apply_snapshot(&snap("New", "Artist", true, 0), 0);
    m.attach_lyrics("Old - Artist", vec![line(0, "old")]);
    assert!(m.lyrics.is_none());
    m.attach_lyrics("New - Artist", vec![line(0, "new")]);
    assert_eq!(m.lyrics.as_ref().unwrap()[0].text, "new");
    m.attach_lyrics_for_track("New", "Other", vec![]);
    assert_eq!(m.lyrics.as_ref().unwrap().len(), 1);
    m.attach_thumbnail("Old - Artist", vec![9]);
    assert!(m.thumbnail.is_none());
    m.attach_thumbnail("New - Artist", vec![9]);
    assert_eq!(m.thumbnail, Some(vec![9]));
}

#[test]
fn losing_the_session_forgets_the_track() {
    let mut m = MediaState::new();
    m.clear_session();
    assert!(m.title.is_empty());
    m.apply_snapshot(&snap("T", "A", true, 500), 0);
    m.clear_session();
    assert!(m.title.is_empty() && m.song_id.is_empty() && !m.is_playing && m.position_ms == 0);
}

#[test]
fn changing_the_lyric_source() {
    let mut m = MediaState::new();
    assert_eq!(m.change_lyrics_source("163", "163"), SourceChange::Unchanged);
    assert_eq!(m.change_lyrics_source("163", "qq"), SourceChange::Store);
    m.apply_snapshot(&snap("T", "A", true, 0), 0);
    m.lyrics = Some(vec![line(0, "x")]);
    assert_eq!(m.change_lyrics_source("163", "qq"), SourceChange::StoreAndRefetch);
    assert!(m.lyrics.is_none());
}

#[test]
fn readings_out_of_range_are_detected() {
    let mut m = MediaState::new();
    m.apply_snapshot(&snap("T", "A", true, 10), 0);
    assert!(!m.snapshot_in_range(&snap("T", "A", true, 10), u64::MAX));
    assert!(m.snapshot_in_range(&snap("T", "A", true, u64::MAX), 0));
}

#[test]
fn shown_names_fall_back_to_notices() {
    assert_eq!(shown_title("Song", true), "Song");
    assert_eq!(shown_title("Song", false), "No Music playing");
    assert_eq!(shown_title("", true), "No Music playing");
    assert_eq!(shown_artist("Band", true), "Band");
    assert_eq!(shown_artist("", true), "Unknown Artist");
    assert_eq!(shown_artist("Band", false), "Unknown Artist");
}
