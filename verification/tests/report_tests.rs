use presence_reporter::report::build_report;

#[test]
fn a_report_without_title_and_artist_holds_no_media() {
    let report = build_report("firefox", "", "", "secret", 1_700_000_000);
    assert_eq!(report.key, "secret");
    assert_eq!(report.process, "firefox");
    assert_eq!(report.timestamp, 1_700_000_000);
    assert!(report.media.is_none());
}

#[test]
fn a_report_with_a_title_holds_both_fields() {
    let report = build_report("vlc", "Song", "", "k", 5);
    let media = report.media.unwrap();
    assert_eq!(media.title, "Song");
    assert_eq!(media.artist, "");
}

#[test]
fn a_report_with_an_artist_holds_both_fields() {
    let report = build_report("vlc", "", "Band", "k", 5);
    let media = report.media.unwrap();
    assert_eq!(media.title, "");
    assert_eq!(media.artist, "Band");
}

#[test]
fn a_report_with_title_and_artist_holds_them_as_they_are() {
    let report = build_report("None", " Song ", "A, B", "", -1);
    assert_eq!(report.key, "");
    assert_eq!(report.process, "None");
    assert_eq!(report.timestamp, -1);
    let media = report.media.unwrap();
    assert_eq!(media.title, " Song ");
    assert_eq!(media.artist, "A, B");
}

#[test]
fn white_space_is_not_empty() {
    let report = build_report("p", " ", "", "k", 0);
    let media = report.media.unwrap();
    assert_eq!(media.title, " ");
    assert_eq!(media.artist, "");
}
