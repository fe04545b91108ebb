use playerctl::{get_active_player, score, wants_metadata, HandleReport, PlaybackStatus};

fn rep(status: Option<PlaybackStatus>, metadata_ok: bool) -> HandleReport {
    HandleReport { status, metadata_ok }
}

fn playing(ok: bool) -> HandleReport {
    rep(Some(PlaybackStatus::Playing), ok)
}

fn paused(ok: bool) -> HandleReport {
    rep(Some(PlaybackStatus::Paused), ok)
}

#[test]
fn scores_follow_the_policy() {
    assert_eq!(score(&playing(true)), 101);
    assert_eq!(score(&playing(false)), 100);
    assert_eq!(score(&paused(true)), 11);
    assert_eq!(score(&paused(false)), 10);
    assert_eq!(score(&rep(Some(PlaybackStatus::Stopped), true)), 0);
    assert_eq!(score(&rep(Some(PlaybackStatus::Unknown), true)), 0);
    assert_eq!(score(&rep(None, true)), 0);
}

#[test]
fn metadata_is_asked_only_of_playing_or_paused() {
    assert!(wants_metadata(Some(PlaybackStatus::Playing)));
    assert!(wants_metadata(Some(PlaybackStatus::Paused)));
    assert!(!wants_metadata(Some(PlaybackStatus::Stopped)));
    assert!(!wants_metadata(Some(PlaybackStatus::Unknown)));
    assert!(!wants_metadata(None));
}

#[test]
fn paused_then_playing_selects_playing() {
    let reports = vec![paused(true), playing(false)];
    let chosen = get_active_player(&reports);
    assert_eq!(chosen, Some(1));
    let s = score(&reports[1]);
    assert!(s == 100 || s == 101);
}

#[test]
fn two_playing_with_metadata_selects_first() {
    let reports = vec![playing(true), playing(true)];
    assert_eq!(get_active_player(&reports), Some(0));
    assert_eq!(score(&reports[0]), 101);
}

#[test]
fn single_playing_is_selected_anywhere() {
    let others = vec![
        paused(true),
        rep(Some(PlaybackStatus::Stopped), true),
        rep(None, false),
    ];
    for pos in 0..=others.len() {
        let mut reports = others.clone();
        reports.insert(pos, playing(false));
        assert_eq!(get_active_player(&reports), Some(pos));
    }
}

#[test]
fn first_of_several_playing_is_selected() {
    let reports = vec![paused(true), playing(true), playing(true), playing(false)];
    assert_eq!(get_active_player(&reports), Some(1));
}

#[test]
fn metadata_breaks_ties_between_playing() {
    let reports = vec![playing(false), playing(true)];
    assert_eq!(get_active_player(&reports), Some(1));
}

#[test]
fn nothing_playing_selects_none() {
    let reports = vec![
        rep(Some(PlaybackStatus::Stopped), true),
        rep(Some(PlaybackStatus::Unknown), true),
        rep(None, false),
    ];
    assert_eq!(get_active_player(&reports), None);
    assert_eq!(get_active_player(&Vec::new()), None);
}

#[test]
fn paused_alone_is_selected() {
    let reports = vec![rep(Some(PlaybackStatus::Stopped), true), paused(false)];
    assert_eq!(get_active_player(&reports), Some(1));
}

#[test]
fn selecting_twice_gives_the_same_handle() {
    let reports = vec![paused(false), paused(true), playing(false), playing(false)];
    let first = get_active_player(&reports);
    let second = get_active_player(&reports);
    assert_eq!(first, second);
    assert_eq!(first, Some(2));
}
