//! The report that is sent to the endpoint.

use vstd::prelude::*;

verus! {

/// What is playing, as it stands in a report.
#[derive(Debug)]
pub struct MediaPayload {
    pub title: String,
    pub artist: String,
}

/// One report: the key, the focused application, the time in seconds since
/// the Unix epoch, and what is playing, if anything is.
#[derive(Debug)]
pub struct ReportPayload {
    pub key: String,
    pub process: String,
    pub timestamp: i64,
    pub media: Option<MediaPayload>,
}

/// A report as mathematical values. `media` is the title and the artist.
pub struct ReportView {
    pub key: Seq<char>,
    pub process: Seq<char>,
    pub timestamp: i64,
    pub media: Option<(Seq<char>, Seq<char>)>,
}

impl View for ReportPayload {
    type V = ReportView;

    open spec fn view(&self) -> ReportView {
        ReportView {
            key: self.key@,
            process: self.process@,
            timestamp: self.timestamp,
            media: match self.media {
                Some(m) => Some((m.title@, m.artist@)),
                None => None,
            },
        }
    }
}

/// The report on a focused application and on what is playing. It holds no
/// media at all when both the title and the artist are empty; else it holds
/// both, as they are.
pub open spec fn report_of(
    process: Seq<char>,
    title: Seq<char>,
    artist: Seq<char>,
    key: Seq<char>,
    timestamp: i64,
) -> ReportView {
    ReportView {
        key,
        process,
        timestamp,
        media: if title.len() == 0 && artist.len() == 0 {
            None
        } else {
            Some((title, artist))
        },
    }
}

/// Builds the report that is sent at `timestamp` on the focused application
/// `process_name` and on the title and the artist of what is playing, each
/// empty if not known.
pub fn build_report(
    process_name: &str,
    media_title: &str,
    media_artist: &str,
    api_key: &str,
    timestamp: i64,
) -> (r: ReportPayload)
    ensures
        r@ == report_of(process_name@, media_title@, media_artist@, api_key@, timestamp),
{
    let media = if media_title.is_empty() && media_artist.is_empty() {
        None
    } else {
        Some(MediaPayload { title: media_title.to_owned(), artist: media_artist.to_owned() })
    };
    ReportPayload { key: api_key.to_owned(), process: process_name.to_owned(), timestamp, media }
}

/// A report holds no media exactly when the title and the artist are both
/// empty. Where it holds media, it holds both fields as they were given, an
/// empty one too.
pub proof fn lemma_media_is_left_out_only_when_empty(
    process: Seq<char>,
    title: Seq<char>,
    artist: Seq<char>,
    key: Seq<char>,
    timestamp: i64,
)
    ensures
        report_of(process, title, artist, key, timestamp).media is None <==> title.len() == 0
            && artist.len() == 0,
        report_of(process, title, artist, key, timestamp).media is Some ==> report_of(
            process,
            title,
            artist,
            key,
            timestamp,
        ).media == Some((title, artist)),
{
}

} // verus!
