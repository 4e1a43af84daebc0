use presence_reporter::media::{
    artist_text, is_media_player, media_from_properties, next_player, same_text, ArtistValue,
    MediaMetadata,
};

fn text(s: &str) -> Option<String> {
    Some(s.to_string())
}

#[test]
fn by_default_nothing_is_playing() {
    let media = MediaMetadata::default();
    assert_eq!(media.title, None);
    assert_eq!(media.artist, None);
}

#[test]
fn media_are_equal_when_title_and_artist_are() {
    let a = MediaMetadata { title: text("Song"), artist: text("Band") };
    let b = MediaMetadata { title: text("Song"), artist: text("Band") };
    assert_eq!(a, b);
    assert_eq!(a, a.clone());
    assert_ne!(a, MediaMetadata { title: text("Song"), artist: None });
    assert_ne!(a, MediaMetadata { title: None, artist: text("Band") });
    assert_ne!(a, MediaMetadata { title: text("Song"), artist: text("band") });
    assert_ne!(a, MediaMetadata { title: text("Band"), artist: text("Song") });
    assert_ne!(a, MediaMetadata::default());
    assert_eq!(MediaMetadata::default(), MediaMetadata { title: None, artist: None });
    assert_ne!(MediaMetadata::default(), MediaMetadata { title: text(""), artist: None });
}

#[test]
fn texts_that_may_be_missing_are_compared() {
    assert!(same_text(&None, &None));
    assert!(same_text(&text("a"), &text("a")));
    assert!(!same_text(&text("a"), &text("b")));
    assert!(!same_text(&text(""), &None));
    assert!(!same_text(&None, &text("")));
}

#[test]
fn a_single_artist_is_taken_as_it_is() {
    assert_eq!(artist_text(&ArtistValue::Text("Nina Simone".to_string())), text("Nina Simone"));
    assert_eq!(artist_text(&ArtistValue::Text(String::new())), text(""));
}

#[test]
fn several_artists_are_joined_by_comma_and_space() {
    let list = ArtistValue::List(vec![text("A"), text("B"), text("C")]);
    assert_eq!(artist_text(&list), text("A, B, C"));
    let list = ArtistValue::List(vec![text("Only One")]);
    assert_eq!(artist_text(&list), text("Only One"));
    let list = ArtistValue::List(vec![text(""), text("")]);
    assert_eq!(artist_text(&list), text(", "));
}

#[test]
fn items_that_are_no_text_are_left_out_of_the_artists() {
    let list = ArtistValue::List(vec![None, text("A"), None, None, text("B"), None]);
    assert_eq!(artist_text(&list), text("A, B"));
    let list = ArtistValue::List(vec![None, text("A")]);
    assert_eq!(artist_text(&list), text("A"));
}

#[test]
fn a_list_without_a_text_names_no_artist() {
    assert_eq!(artist_text(&ArtistValue::List(vec![])), None);
    assert_eq!(artist_text(&ArtistValue::List(vec![None, None])), None);
    assert_eq!(artist_text(&ArtistValue::Other), None);
}

#[test]
fn joining_agrees_with_the_standard_library() {
    let cases: [Vec<&str>; 5] =
        [vec!["a"], vec!["a", "b"], vec!["", "x", ""], vec!["x, y", "z"], vec!["1", "2", "3", "4"]];
    for names in cases {
        let list = ArtistValue::List(names.iter().map(|s| text(s)).collect());
        assert_eq!(artist_text(&list), Some(names.join(", ")));
    }
}

#[test]
fn a_player_with_a_title_or_an_artist_is_playing() {
    let media = media_from_properties(text("Song"), Some(ArtistValue::Text("Band".to_string())));
    assert_eq!(media, Some(MediaMetadata { title: text("Song"), artist: text("Band") }));
    let media = media_from_properties(text("Song"), None);
    assert_eq!(media, Some(MediaMetadata { title: text("Song"), artist: None }));
    let media = media_from_properties(None, Some(ArtistValue::List(vec![text("A"), text("B")])));
    assert_eq!(media, Some(MediaMetadata { title: None, artist: text("A, B") }));
    let media = media_from_properties(text("Song"), Some(ArtistValue::Other));
    assert_eq!(media, Some(MediaMetadata { title: text("Song"), artist: None }));
    let media = media_from_properties(text(""), None);
    assert_eq!(media, Some(MediaMetadata { title: text(""), artist: None }));
}

#[test]
fn a_player_with_neither_is_not_playing() {
    assert_eq!(media_from_properties(None, None), None);
    assert_eq!(media_from_properties(None, Some(ArtistValue::Other)), None);
    assert_eq!(media_from_properties(None, Some(ArtistValue::List(vec![]))), None);
    assert_eq!(media_from_properties(None, Some(ArtistValue::List(vec![None]))), None);
}

#[test]
fn media_players_are_known_by_the_start_of_their_bus_name() {
    assert!(is_media_player("org.mpris.MediaPlayer2.vlc"));
    assert!(is_media_player("org.mpris.MediaPlayer2.firefox.instance_1_23"));
    assert!(is_media_player("org.mpris.MediaPlayer2."));
    assert!(!is_media_player("org.mpris.MediaPlayer2"));
    assert!(!is_media_player("org.mpris.mediaplayer2.vlc"));
    assert!(!is_media_player(" org.mpris.MediaPlayer2.vlc"));
    assert!(!is_media_player("org.freedesktop.DBus"));
    assert!(!is_media_player(":1.42"));
    assert!(!is_media_player(""));
}

#[test]
fn the_next_player_is_the_first_from_the_position_on() {
    let names: Vec<String> = [
        "org.freedesktop.DBus",
        ":1.7",
        "org.mpris.MediaPlayer2.vlc",
        "org.kde.KWin",
        "org.mpris.MediaPlayer2.spotify",
        ":1.9",
    ]
    .iter()
    .map(|s| s.to_string())
    .collect();
    assert_eq!(next_player(&names, 0), Some(2));
    assert_eq!(next_player(&names, 2), Some(2));
    assert_eq!(next_player(&names, 3), Some(4));
    assert_eq!(next_player(&names, 5), None);
    assert_eq!(next_player(&names, 6), None);
    assert_eq!(next_player(&names, 100), None);
    assert_eq!(next_player(&Vec::new(), 0), None);
}
