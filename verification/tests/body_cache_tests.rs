use zoid::body_cache::{BodyCacheKey, BodyKey, RefreshKind, Zoom};

fn key(width: usize, question_rev: u64) -> BodyKey {
    BodyKey { zoom: Zoom::Normal, width, streaming: false, caret: false, tz: 0, question_rev }
}

#[test]
fn question_keystroke_takes_incremental_path_not_full_rebuild() {
    // A transcript of three messages, ending in an open question card.
    let msgs = 3;
    let mut cache = BodyCacheKey::new();
    // Cold cache → full rebuild; identical inputs → pure hit.
    assert_eq!(cache.refresh(key(80, 11), msgs), RefreshKind::Full);
    assert_eq!(cache.refresh(key(80, 11), msgs), RefreshKind::Hit);
    // A keystroke changes only the question's revision: last message only.
    assert_eq!(cache.refresh(key(80, 12), msgs), RefreshKind::Incremental);
    // Backspace is likewise incremental.
    assert_eq!(cache.refresh(key(80, 13), msgs), RefreshKind::Incremental);
    // A structural change (width) still forces a full rebuild.
    assert_eq!(cache.refresh(key(100, 13), msgs), RefreshKind::Full);
}

#[test]
fn streaming_frames_rerender_the_last_message() {
    let mut cache = BodyCacheKey::new();
    let streaming = BodyKey { streaming: true, ..key(80, 0) };
    assert_eq!(cache.refresh(streaming, 2), RefreshKind::Full);
    // Same inputs while streaming: the reply grew, so never a hit.
    assert_eq!(cache.refresh(streaming, 2), RefreshKind::Incremental);
    // A new message arrives: full rebuild.
    assert_eq!(cache.refresh(streaming, 3), RefreshKind::Full);
    // Streaming ends: the streaming flag is structural.
    assert_eq!(cache.refresh(key(80, 0), 3), RefreshKind::Full);
    assert_eq!(cache.refresh(key(80, 0), 3), RefreshKind::Hit);
}

#[test]
fn empty_transcript_never_takes_the_incremental_path() {
    let mut cache = BodyCacheKey::new();
    assert_eq!(cache.refresh(key(80, 1), 0), RefreshKind::Full);
    assert_eq!(cache.refresh(key(80, 2), 0), RefreshKind::Full);
}

#[test]
fn structure_ignores_only_the_question_revision() {
    let a = key(80, 1);
    assert!(a.matches_structure(&key(80, 99)));
    assert!(!a.matches_structure(&key(81, 1)));
    assert!(!a.matches_structure(&BodyKey { zoom: Zoom::Detail, ..a }));
    assert!(!a.matches_structure(&BodyKey { tz: 3600, ..a }));
    assert!(!a.matches_structure(&BodyKey { caret: true, ..a }));
}
