use presence_reporter::media::MediaMetadata;
use presence_reporter::status::{config_path_or_default, Snapshot, TaskSlot};
use presence_reporter::window::SessionKind;

fn reported() -> Snapshot {
    let mut status = Snapshot::default();
    let media = MediaMetadata { title: Some("Song".to_string()), artist: None };
    status.record_report(
        SessionKind::X11,
        "/tmp/reporter.env",
        "firefox",
        &media,
        Some("2024-01-02 03:04:05".to_string()),
    );
    status
}

fn assert_same_but_running(a: &Snapshot, b: &Snapshot) {
    assert_eq!(a.session, b.session);
    assert_eq!(a.last_process, b.last_process);
    assert_eq!(a.last_media_title, b.last_media_title);
    assert_eq!(a.last_media_artist, b.last_media_artist);
    assert_eq!(a.last_report_at, b.last_report_at);
    assert_eq!(a.config_path, b.config_path);
}

#[test]
fn the_status_starts_empty() {
    let status = Snapshot::default();
    assert!(!status.running);
    assert_eq!(status.session, SessionKind::Unknown);
    assert_eq!(status.last_process, None);
    assert_eq!(status.last_media_title, None);
    assert_eq!(status.last_media_artist, None);
    assert_eq!(status.last_report_at, None);
    assert_eq!(status.config_path, None);
}

#[test]
fn a_start_sets_running_session_and_path_only() {
    let mut status = reported();
    status.running = false;
    let shown = status.mark_started(SessionKind::WaylandKde, "other.env".to_string());
    assert!(status.running);
    assert_eq!(status.session, SessionKind::WaylandKde);
    assert_eq!(status.config_path, Some("other.env".to_string()));
    assert_eq!(status.last_process, Some("firefox".to_string()));
    assert_eq!(status.last_media_title, Some("Song".to_string()));
    assert_eq!(status.last_media_artist, None);
    assert_eq!(status.last_report_at, Some("2024-01-02 03:04:05".to_string()));
    assert!(shown.running);
    assert_same_but_running(&shown, &status);
}

#[test]
fn a_stop_clears_the_running_flag_only() {
    let mut status = reported();
    let before = status.clone();
    status.mark_stopped();
    assert!(!status.running);
    assert_same_but_running(&before, &status);
}

#[test]
fn a_report_overwrites_every_field() {
    let status = reported();
    assert!(status.running);
    assert_eq!(status.session, SessionKind::X11);
    assert_eq!(status.last_process, Some("firefox".to_string()));
    assert_eq!(status.last_media_title, Some("Song".to_string()));
    assert_eq!(status.last_media_artist, None);
    assert_eq!(status.last_report_at, Some("2024-01-02 03:04:05".to_string()));
    assert_eq!(status.config_path, Some("/tmp/reporter.env".to_string()));
}

#[test]
fn asking_for_the_status_twice_gives_the_same_values() {
    let mut status = reported();
    let first = status.get_status(true);
    let second = status.get_status(true);
    assert_eq!(first.running, second.running);
    assert_same_but_running(&first, &second);
    let third = status.get_status(false);
    assert!(!third.running);
    assert!(!status.running);
    assert_same_but_running(&first, &third);
}

#[test]
fn the_status_shows_the_running_flag_it_is_given() {
    let mut status = Snapshot::default();
    assert!(status.get_status(true).running);
    assert!(status.running);
    assert!(!status.get_status(false).running);
    assert!(!status.running);
}

#[test]
fn the_settings_file_is_the_given_one_or_the_default() {
    assert_eq!(config_path_or_default(None), ".env.process");
    assert_eq!(config_path_or_default(Some("my.env".to_string())), "my.env");
    assert_eq!(config_path_or_default(Some(String::new())), "");
}

#[test]
fn a_new_slot_is_empty() {
    let mut slot = TaskSlot::new();
    assert!(!slot.is_running());
    assert_eq!(slot.stop(), None);
    assert!(!slot.is_running());
}

#[test]
fn a_start_spawns_a_task_and_cancels_none_at_first() {
    let mut slot = TaskSlot::new();
    let plan = slot.start();
    assert_eq!(plan.cancel, None);
    assert!(slot.is_running());
}

#[test]
fn two_starts_in_a_row_leave_one_task() {
    let mut slot = TaskSlot::new();
    let mut alive: Vec<u64> = Vec::new();
    let first = slot.start();
    alive.retain(|t| Some(*t) != first.cancel);
    alive.push(first.spawn);
    let second = slot.start();
    alive.retain(|t| Some(*t) != second.cancel);
    alive.push(second.spawn);
    assert_eq!(second.cancel, Some(first.spawn));
    assert_ne!(second.spawn, first.spawn);
    assert_eq!(alive, vec![second.spawn]);
    assert!(slot.is_running());
}

#[test]
fn a_stop_cancels_the_running_task() {
    let mut slot = TaskSlot::new();
    let plan = slot.start();
    assert_eq!(slot.stop(), Some(plan.spawn));
    assert!(!slot.is_running());
    assert_eq!(slot.stop(), None);
}

#[test]
fn a_start_after_a_stop_spawns_a_fresh_task() {
    let mut slot = TaskSlot::new();
    let first = slot.start();
    slot.stop();
    let second = slot.start();
    assert_eq!(second.cancel, None);
    assert_ne!(second.spawn, first.spawn);
    assert!(slot.is_running());
}

#[test]
fn many_starts_never_leave_more_than_one_task() {
    let mut slot = TaskSlot::new();
    let mut alive: Vec<u64> = Vec::new();
    for round in 0..1000 {
        if round % 7 == 3 {
            let cancel = slot.stop();
            alive.retain(|t| Some(*t) != cancel);
            assert!(alive.is_empty());
        } else {
            let plan = slot.start();
            alive.retain(|t| Some(*t) != plan.cancel);
            assert!(!alive.contains(&plan.spawn));
            alive.push(plan.spawn);
            assert_eq!(alive.len(), 1);
        }
        assert_eq!(slot.is_running(), !alive.is_empty());
    }
}
