use playerctl::status::title_from_path;
use playerctl::{PlayerStatus, TrackMetadata};

fn meta(title: Option<&str>, path: Option<&str>, artists: Option<Vec<&str>>) -> TrackMetadata {
    TrackMetadata {
        title: title.map(|t| t.to_string()),
        path: path.map(|p| p.to_string()),
        artists: artists.map(|a| a.into_iter().map(|s| s.to_string()).collect()),
    }
}

#[test]
fn failed_query_gives_no_snapshot() {
    assert!(PlayerStatus::new(None).is_none());
}

#[test]
fn no_title_and_no_path_gives_no_title() {
    let st = PlayerStatus::new(Some(meta(None, None, None))).unwrap();
    assert_eq!(st.title, None);
    assert_eq!(st.artists, None);
}

#[test]
fn no_title_and_empty_segment_gives_no_title() {
    let st = PlayerStatus::new(Some(meta(None, Some("/music/"), None))).unwrap();
    assert_eq!(st.title, None);
    let st = PlayerStatus::new(Some(meta(None, Some(""), None))).unwrap();
    assert_eq!(st.title, None);
}

#[test]
fn explicit_title_is_used_verbatim() {
    let st = PlayerStatus::new(Some(meta(Some("Song %41"), Some("/music/Other.mp3"), None))).unwrap();
    assert_eq!(st.title, Some("Song %41".to_string()));
}

#[test]
fn title_falls_back_to_decoded_final_segment() {
    let st =
        PlayerStatus::new(Some(meta(None, Some("file:///music/My%20Song.mp3"), None))).unwrap();
    assert_eq!(st.title, Some("My Song.mp3".to_string()));
}

#[test]
fn segment_without_slash_is_the_whole_path() {
    assert_eq!(title_from_path("track.ogg"), Some("track.ogg".to_string()));
}

#[test]
fn segment_that_is_not_utf8_gives_none() {
    assert_eq!(title_from_path("/a/%FF"), None);
}

#[test]
fn percent_decoding_changes_the_segment() {
    assert_eq!(title_from_path("/a/b%2Fc%C3%A9"), Some("b/cé".to_string()));
}

#[test]
fn artists_keep_their_order() {
    let st = PlayerStatus::new(Some(meta(Some("T"), None, Some(vec!["A", "B"])))).unwrap();
    assert_eq!(st.artists, Some(vec!["A".to_string(), "B".to_string()]));
    let st = PlayerStatus::new(Some(meta(Some("T"), None, Some(vec!["B", "A"])))).unwrap();
    assert_eq!(st.artists, Some(vec!["B".to_string(), "A".to_string()]));
}

#[test]
fn formatted_runs_artists_together() {
    let st = PlayerStatus {
        artists: Some(vec!["A".to_string(), "B".to_string()]),
        title: Some("T".to_string()),
    };
    assert_eq!(st.formatted(), "AB - T");
    let empty = PlayerStatus { artists: None, title: None };
    assert_eq!(empty.formatted(), " - ");
}
