//! The poller: what one tick observes, whether it has to be reported, and
//! what is kept once a report has been sent.

use crate::config::{Config, ConfigView};
use crate::media::{no_media, MediaMetadata, MediaView};
use crate::report::{build_report, report_of, ReportPayload};
use crate::status::{status_reported, Snapshot};
use crate::text::text_of;
use crate::time::{utc_text, Timestamp};
use crate::window::{SessionKind, WindowError};
use vstd::prelude::*;

verus! {

/// A report is due when more than this many whole seconds have passed since
/// the last one, even if nothing has changed.
pub const HEARTBEAT_SECONDS: i128 = 20;

/// The poller never sleeps less than this many seconds between two ticks.
pub const MIN_WATCH_SECONDS: u64 = 3;

/// What the poller knows of the last report: the focused application, what
/// was playing, and when the report was sent.
#[derive(Debug)]
pub struct Poller {
    pub last_process: String,
    pub last_media: MediaMetadata,
    pub last_time: Timestamp,
}

/// The poller's knowledge as mathematical values.
pub struct PollerView {
    pub last_process: Seq<char>,
    pub last_media: MediaView,
    pub last_time: Timestamp,
}

impl View for Poller {
    type V = PollerView;

    open spec fn view(&self) -> PollerView {
        PollerView {
            last_process: self.last_process@,
            last_media: self.last_media@,
            last_time: self.last_time,
        }
    }
}

/// What one tick has found and decided.
#[derive(Debug)]
pub struct Tick {
    /// The focused application, or `None` spelled out where none was found.
    pub process: String,
    /// What is playing; nothing where media detection is off or found none.
    pub media: MediaMetadata,
    /// Whether a report has to be sent.
    pub changed: bool,
    /// How many seconds to sleep before the next tick.
    pub sleep_seconds: u64,
}

/// A tick as mathematical values.
pub struct TickView {
    pub process: Seq<char>,
    pub media: MediaView,
    pub changed: bool,
    pub sleep_seconds: u64,
}

impl View for Tick {
    type V = TickView;

    open spec fn view(&self) -> TickView {
        TickView {
            process: self.process@,
            media: self.media@,
            changed: self.changed,
            sleep_seconds: self.sleep_seconds,
        }
    }
}

/// The name that is reported for the focused application: the one found, or
/// the word `None` where the detection failed.
pub open spec fn process_of(focus: Result<String, WindowError>) -> Seq<char> {
    match focus {
        Ok(name) => name@,
        Err(_) => "None"@,
    }
}

/// What counts as playing: what the probe found if media detection is on and
/// it found something, else nothing.
pub open spec fn media_seen(enabled: bool, probe: Option<MediaMetadata>) -> MediaView {
    match probe {
        Some(m) => if enabled {
            m@
        } else {
            no_media()
        },
        None => no_media(),
    }
}

/// Whether a report is due: the focused application or what is playing
/// differs from what was reported last, or more than twenty whole seconds
/// have passed since.
pub open spec fn report_due(
    last: PollerView,
    process: Seq<char>,
    media: MediaView,
    now: Timestamp,
) -> bool {
    process != last.last_process || media != last.last_media || now.seconds_since(last.last_time)
        > HEARTBEAT_SECONDS
}

/// How long the poller sleeps between two ticks: the watch interval of the
/// settings, but three seconds at least.
pub open spec fn sleep_of(watch_time: u64) -> u64 {
    if watch_time < MIN_WATCH_SECONDS {
        MIN_WATCH_SECONDS
    } else {
        watch_time
    }
}

/// What a tick finds and decides.
pub open spec fn tick_of(
    last: PollerView,
    cfg: ConfigView,
    focus: Result<String, WindowError>,
    probe: Option<MediaMetadata>,
    now: Timestamp,
) -> TickView {
    let process = process_of(focus);
    let media = media_seen(cfg.media_enable, probe);
    TickView {
        process,
        media,
        changed: report_due(last, process, media, now),
        sleep_seconds: sleep_of(cfg.watch_time),
    }
}

/// The text of `o`, or the empty text where there is none.
pub open spec fn text_or_empty(o: Option<Seq<char>>) -> Seq<char> {
    match o {
        Some(s) => s,
        None => Seq::empty(),
    }
}

/// The text of `o`, or the empty text where there is none.
fn or_empty(o: &Option<String>) -> (r: &str)
    ensures
        r@ == text_or_empty(text_of(*o)),
{
    match o {
        Some(s) => s.as_str(),
        None => {
            proof {
                reveal_strlit("");
                assert(""@ =~= Seq::<char>::empty());
            }
            ""
        },
    }
}

impl Poller {
    /// The poller at the start of its loop: nothing has been reported yet,
    /// and the heartbeat counts from `now`.
    pub fn new(now: Timestamp) -> (r: Poller)
        ensures
            r@ == (PollerView {
                last_process: Seq::empty(),
                last_media: no_media(),
                last_time: now,
            }),
    {
        Poller { last_process: String::new(), last_media: MediaMetadata::default(), last_time: now }
    }

    /// Decides one tick from what was sampled at `now`: the reply of the
    /// focus detection, and what the media probe found (`None` where it was
    /// not asked or found nothing). A failed focus detection is not an error
    /// here: the word `None` stands for the application.
    pub fn tick(
        &self,
        cfg: &Config,
        focus: Result<String, WindowError>,
        probe: Option<MediaMetadata>,
        now: Timestamp,
    ) -> (t: Tick)
        ensures
            t@ == tick_of(self@, cfg@, focus, probe, now),
    {
        let process = match focus {
            Ok(name) => name,
            Err(_) => "None".to_owned(),
        };
        let media = match probe {
            Some(m) => if cfg.media_enable {
                m
            } else {
                MediaMetadata::default()
            },
            None => MediaMetadata::default(),
        };
        let changed = process != self.last_process || media != self.last_media
            || now.whole_seconds_since(self.last_time) > HEARTBEAT_SECONDS;
        let sleep_seconds = if cfg.watch_time < MIN_WATCH_SECONDS {
            MIN_WATCH_SECONDS
        } else {
            cfg.watch_time
        };
        Tick { process, media, changed, sleep_seconds }
    }

    /// Keeps what has just been reported, and notes it in the status: the
    /// tick becomes the last known state, and `at`, the time after the report
    /// was sent, the time from which the heartbeat counts.
    pub fn commit(
        &mut self,
        status: &mut Snapshot,
        tick: &Tick,
        session: SessionKind,
        config_path: &str,
        at: Timestamp,
    )
        ensures
            final(self)@ == (PollerView {
                last_process: tick.process@,
                last_media: tick.media@,
                last_time: at,
            }),
            final(status)@ == status_reported(
                old(status)@,
                session,
                config_path@,
                tick.process@,
                tick.media@,
                utc_text(at.secs),
            ),
    {
        self.last_process = tick.process.clone();
        self.last_media = tick.media.clone();
        self.last_time = at;
        status.record_report(session, config_path, tick.process.as_str(), &tick.media, at.text());
    }
}

impl Tick {
    /// The report on this tick, sent at `timestamp` with the key `api_key`.
    /// A title or an artist that is not known is reported as empty.
    pub fn report(&self, api_key: &str, timestamp: i64) -> (r: ReportPayload)
        ensures
            r@ == report_of(
                self.process@,
                text_or_empty(self@.media.title),
                text_or_empty(self@.media.artist),
                api_key@,
                timestamp,
            ),
    {
        build_report(
            self.process.as_str(),
            or_empty(&self.media.title),
            or_empty(&self.media.artist),
            api_key,
            timestamp,
        )
    }
}

/// With the same application and the same media as reported last, a report
/// is due exactly when more than twenty whole seconds have passed.
pub proof fn lemma_heartbeat(last: PollerView, now: Timestamp)
    ensures
        report_due(last, last.last_process, last.last_media, now) <==> now.seconds_since(
            last.last_time,
        ) > 20,
        now.nanoseconds() - last.last_time.nanoseconds() >= 21_000_000_000 <==> report_due(
            last,
            last.last_process,
            last.last_media,
            now,
        ),
{
}

/// Any change of the application or of the media is reported at once.
pub proof fn lemma_change_is_reported(
    last: PollerView,
    process: Seq<char>,
    media: MediaView,
    now: Timestamp,
)
    requires
        process != last.last_process || media != last.last_media,
    ensures
        report_due(last, process, media, now),
{
}

} // verus!
