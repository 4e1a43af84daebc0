//! The desktop session and the application that has the focus in it.

use crate::text::{
    chars_of, contains, contains_word, find_char, index_of, range_equals, range_starts_with,
    substring, text_of, trim, trim_range,
};
use vstd::prelude::*;

verus! {

/// The kinds of desktop session that are told apart.
#[derive(Clone, Copy, Debug, PartialEq, Eq, Structural)]
pub enum SessionKind {
    /// An X11 session.
    X11,
    /// A Wayland session under KDE.
    WaylandKde,
    /// Any other session; no focus can be detected in it.
    Unknown,
}

impl Default for SessionKind {
    fn default() -> (r: Self)
        ensures
            r == SessionKind::Unknown,
    {
        SessionKind::Unknown
    }
}

/// Why no focused application could be named.
#[derive(Debug)]
pub enum WindowError {
    /// The X server could not be asked; the detail says why.
    X11(String),
    /// The KDE compositor could not be asked; the detail says why.
    Wayland(String),
    /// No window has the focus, or the session is of an unknown kind.
    NoActiveWindow,
}

impl WindowError {
    /// The text that `message` returns.
    pub open spec fn message_text(self) -> Seq<char> {
        match self {
            WindowError::X11(detail) => "X11 query failed: "@ + detail@,
            WindowError::Wayland(detail) => "KDE Wayland query failed: "@ + detail@,
            WindowError::NoActiveWindow => "No active window detected"@,
        }
    }

    /// A sentence for the user.
    pub fn message(&self) -> (r: String)
        ensures
            r@ == self.message_text(),
    {
        match self {
            WindowError::X11(detail) => {
                let mut r = "X11 query failed: ".to_owned();
                r.append(detail.as_str());
                r
            },
            WindowError::Wayland(detail) => {
                let mut r = "KDE Wayland query failed: ".to_owned();
                r.append(detail.as_str());
                r
            },
            WindowError::NoActiveWindow => "No active window detected".to_owned(),
        }
    }
}

/// The lowercase form of a text, as Unicode defines it.
pub uninterp spec fn lowercase(s: Seq<char>) -> Seq<char>;

/// The text that a sequence of bytes decodes to as UTF-8, each invalid part
/// replaced by U+FFFD.
pub uninterp spec fn utf8_lossy(bytes: Seq<u8>) -> Seq<char>;

/// `str::to_lowercase` of the standard library: the result is the lowercase
/// form of the argument, a function of its characters alone. Nothing more is
/// claimed of it.
#[verifier::external_body]
fn to_lowercase(s: &str) -> (r: String)
    ensures
        r@ == lowercase(s@),
{
    s.to_lowercase()
}

/// `String::from_utf8_lossy` of the standard library, made an owned `String`:
/// the result is the lossy decoding of the bytes, a function of the bytes
/// alone. Nothing more is claimed of it.
#[verifier::external_body]
fn decode_lossy(bytes: &[u8]) -> (r: String)
    ensures
        r@ == utf8_lossy(bytes@),
{
    String::from_utf8_lossy(bytes).into_owned()
}

/// The session that lowercase values of the session type and of the desktop
/// session stand for. `kde_marker` says whether the explicit KDE marker is set.
pub open spec fn session_of(
    session_type: Seq<char>,
    kde_marker: bool,
    desktop_session: Seq<char>,
) -> SessionKind {
    if session_type == "x11"@ || session_type == "xorg"@ {
        SessionKind::X11
    } else if session_type == "wayland"@ && (kde_marker || contains(desktop_session, "kde"@)) {
        SessionKind::WaylandKde
    } else {
        SessionKind::Unknown
    }
}

/// The characters of a variable of the environment, none if it is not set.
pub open spec fn value_of(variable: Option<&str>) -> Seq<char> {
    match variable {
        Some(s) => s@,
        None => Seq::empty(),
    }
}

/// The session that the values of the three variables stand for, whatever
/// their case.
pub open spec fn detected_session(
    session_type: Option<&str>,
    kde_full_session: Option<&str>,
    desktop_session: Option<&str>,
) -> SessionKind {
    session_of(
        lowercase(value_of(session_type)),
        kde_full_session is Some,
        lowercase(value_of(desktop_session)),
    )
}

/// Tells the session from values that are in lowercase already.
pub fn classify_session(session_type: &str, kde_marker: bool, desktop_session: &str) -> (r:
    SessionKind)
    ensures
        r == session_of(session_type@, kde_marker, desktop_session@),
{
    let kind = chars_of(session_type);
    let n = kind.len();
    proof {
        assert(kind@.subrange(0, n as int) =~= kind@);
    }
    if range_equals(&kind, 0, n, &chars_of("x11")) || range_equals(
        &kind,
        0,
        n,
        &chars_of("xorg"),
    ) {
        SessionKind::X11
    } else if range_equals(&kind, 0, n, &chars_of("wayland")) && (kde_marker
        || contains_word(&chars_of(desktop_session), &chars_of("kde"))) {
        SessionKind::WaylandKde
    } else {
        SessionKind::Unknown
    }
}

/// Tells the session from the variables `XDG_SESSION_TYPE`, `KDE_FULL_SESSION`
/// and `DESKTOP_SESSION` of the environment, each `None` if it is not set. A
/// session type of `x11` or `xorg` is an X11 session. A session type of
/// `wayland` is a KDE session when `KDE_FULL_SESSION` is set or
/// `DESKTOP_SESSION` holds `kde`. Case does not count.
pub fn detect_session(
    session_type: Option<&str>,
    kde_full_session: Option<&str>,
    desktop_session: Option<&str>,
) -> (r: SessionKind)
    ensures
        r == detected_session(session_type, kde_full_session, desktop_session),
{
    let kind = to_lowercase(
        match session_type {
            Some(s) => s,
            None => "",
        },
    );
    let desktop = to_lowercase(
        match desktop_session {
            Some(s) => s,
            None => "",
        },
    );
    proof {
        reveal_strlit("");
        assert(""@ =~= Seq::<char>::empty());
    }
    classify_session(kind.as_str(), kde_full_session.is_some(), desktop.as_str())
}

/// Every input gives exactly one of the three kinds, and which one is fixed
/// by the lowercase session type and by whether KDE shows.
pub proof fn lemma_session_kinds(
    session_type: Option<&str>,
    kde_full_session: Option<&str>,
    desktop_session: Option<&str>,
)
    ensures
        ({
            let kind = lowercase(value_of(session_type));
            let kde = kde_full_session is Some || contains(
                lowercase(value_of(desktop_session)),
                "kde"@,
            );
            let r = detected_session(session_type, kde_full_session, desktop_session);
            &&& r == SessionKind::X11 <==> kind == "x11"@ || kind == "xorg"@
            &&& r == SessionKind::WaylandKde <==> kind == "wayland"@ && kde
            &&& r == SessionKind::Unknown <==> !(kind == "x11"@ || kind == "xorg"@) && !(kind
                == "wayland"@ && kde)
        }),
{
    reveal_strlit("x11");
    reveal_strlit("xorg");
    reveal_strlit("wayland");
    assert("x11"@.len() == 3 && "xorg"@.len() == 4 && "wayland"@.len() == 7);
}

/// What has to be asked to learn which window has the focus.
#[derive(Clone, Copy, Debug, PartialEq, Eq, Structural)]
pub enum FocusQuery {
    /// The active-window property of the root window of the X server.
    ActiveWindowProperty,
    /// The support report of the KDE compositor.
    CompositorReport,
    /// Nothing: the session has no mechanism that is known.
    Nothing,
}

/// The query that belongs to a session.
pub open spec fn query_for(session: SessionKind) -> FocusQuery {
    match session {
        SessionKind::X11 => FocusQuery::ActiveWindowProperty,
        SessionKind::WaylandKde => FocusQuery::CompositorReport,
        SessionKind::Unknown => FocusQuery::Nothing,
    }
}

/// Says what has to be asked in this session. In an unknown session nothing
/// is asked.
pub fn focus_query(session: SessionKind) -> (q: FocusQuery)
    ensures
        q == query_for(session),
{
    match session {
        SessionKind::X11 => FocusQuery::ActiveWindowProperty,
        SessionKind::WaylandKde => FocusQuery::CompositorReport,
        SessionKind::Unknown => FocusQuery::Nothing,
    }
}

/// The focused application that a session and the reply to its query give.
pub open spec fn focus_outcome(session: SessionKind, reply: Result<Option<String>, String>) -> Result<
    String,
    WindowError,
> {
    match session {
        SessionKind::Unknown => Err(WindowError::NoActiveWindow),
        SessionKind::X11 => match reply {
            Ok(Some(name)) => Ok(name),
            Ok(None) => Err(WindowError::NoActiveWindow),
            Err(detail) => Err(WindowError::X11(detail)),
        },
        SessionKind::WaylandKde => match reply {
            Ok(Some(name)) => Ok(name),
            Ok(None) => Err(WindowError::NoActiveWindow),
            Err(detail) => Err(WindowError::Wayland(detail)),
        },
    }
}

/// Names the focused application from the reply to the query of the session:
/// the name that the reply holds; no active window when it holds none; the
/// failure of the query under the mechanism of the session. In an unknown
/// session there is no active window, whatever the reply.
pub fn active_window_process(session: SessionKind, reply: Result<Option<String>, String>) -> (r:
    Result<String, WindowError>)
    ensures
        r == focus_outcome(session, reply),
{
    match session {
        SessionKind::Unknown => Err(WindowError::NoActiveWindow),
        SessionKind::X11 => match reply {
            Ok(Some(name)) => Ok(name),
            Ok(None) => Err(WindowError::NoActiveWindow),
            Err(detail) => Err(WindowError::X11(detail)),
        },
        SessionKind::WaylandKde => match reply {
            Ok(Some(name)) => Ok(name),
            Ok(None) => Err(WindowError::NoActiveWindow),
            Err(detail) => Err(WindowError::Wayland(detail)),
        },
    }
}

/// The number that the first four bytes of `bytes` spell, least significant
/// byte first.
pub open spec fn little_endian(bytes: Seq<u8>) -> int {
    bytes[0] + bytes[1] * 0x100 + bytes[2] * 0x1_0000 + bytes[3] * 0x100_0000
}

/// The number that the first four bytes of `bytes` spell, most significant
/// byte first.
pub open spec fn big_endian(bytes: Seq<u8>) -> int {
    bytes[3] + bytes[2] * 0x100 + bytes[1] * 0x1_0000 + bytes[0] * 0x100_0000
}

/// True when a property of this format and these bytes names a window: its
/// items have 32 bits, and the first of them is there and is not zero.
pub open spec fn names_window(format: u8, value: Seq<u8>) -> bool {
    &&& format == 32
    &&& value.len() >= 4
    &&& (value[0] != 0 || value[1] != 0 || value[2] != 0 || value[3] != 0)
}

/// `GetPropertyReply::value32` of x11rb, and the first item of what it
/// returns: there is one exactly when the format is 32 and the value holds
/// four bytes or more, and it is the number that the first four bytes spell
/// in the byte order of the machine, which is one of the two there are.
#[verifier::external_body]
fn first_value32(format: u8, value: &[u8]) -> (r: Option<u32>)
    ensures
        match r {
            Some(item) => format == 32 && value@.len() >= 4 && (item == little_endian(value@)
                || item == big_endian(value@)),
            None => !(format == 32 && value@.len() >= 4),
        },
{
    let reply = x11rb::protocol::xproto::GetPropertyReply {
        format,
        value: value.to_vec(),
        ..Default::default()
    };
    let first = match reply.value32() {
        Some(mut items) => items.next(),
        None => None,
    };
    first
}

/// Reads the identifier of the focused window from the format and the bytes
/// of the active-window property of the root window. No window has the focus
/// where the property has no 32-bit item, or its first item is zero.
pub fn x11_focused_window(format: u8, value: &[u8]) -> (r: Option<u32>)
    ensures
        r is Some <==> names_window(format, value@),
        r matches Some(id) ==> id != 0 && (id == little_endian(value@) || id == big_endian(
            value@,
        )),
{
    match first_value32(format, value) {
        Some(id) => if id != 0 {
            Some(id)
        } else {
            None
        },
        None => None,
    }
}

/// The later of two findings, where there is one.
pub open spec fn or_earlier(later: Option<Seq<char>>, earlier: Option<Seq<char>>) -> Option<
    Seq<char>,
> {
    match later {
        Some(t) => Some(t),
        None => earlier,
    }
}

/// The last of the parts of `s` between separators that is not empty.
pub open spec fn last_segment(s: Seq<char>, sep: char) -> Option<Seq<char>>
    decreases s.len(),
{
    let n = index_of(s, sep);
    let head = s.subrange(0, n);
    let here = if head.len() > 0 {
        Some(head)
    } else {
        None
    };
    if 0 <= n < s.len() {
        or_earlier(last_segment(s.subrange(n + 1, s.len() as int), sep), here)
    } else {
        here
    }
}

/// The class of a window from the text of its class hint: the last of its
/// parts between NUL characters that is not empty.
pub fn window_class(hint: &str) -> (r: Option<String>)
    ensures
        text_of(r) == last_segment(hint@, '\0'),
{
    let chars = chars_of(hint);
    let n = chars.len();
    let mut pos: usize = 0;
    let mut best: Option<(usize, usize)> = None;
    proof {
        assert(chars@.subrange(0, n as int) =~= hint@);
    }
    loop
        invariant_except_break
            pos <= n,
            last_segment(hint@, '\0') == or_earlier(
                last_segment(chars@.subrange(pos as int, n as int), '\0'),
                match best {
                    Some((a, b)) => Some(chars@.subrange(a as int, b as int)),
                    None => None,
                },
            ),
        invariant
            chars@ == hint@,
            n == chars.len(),
            best matches Some((a, b)) ==> a <= b <= n,
        ensures
            last_segment(hint@, '\0') == match best {
                Some((a, b)) => Some(chars@.subrange(a as int, b as int)),
                None => None,
            },
        decreases n - pos,
    {
        let e = find_char(&chars, pos, n, '\0');
        let ghost rest = chars@.subrange(pos as int, n as int);
        proof {
            assert(rest.subrange(0, e - pos) =~= chars@.subrange(pos as int, e as int));
        }
        if e > pos {
            best = Some((pos, e));
        }
        if e >= n {
            break ;
        }
        proof {
            assert(rest.subrange(e - pos + 1, rest.len() as int) =~= chars@.subrange(
                e + 1,
                n as int,
            ));
        }
        pos = e + 1;
    }
    match best {
        Some((a, b)) => Some(substring(hint, a, b)),
        None => None,
    }
}

/// The class of a window from the bytes of its class hint: none for an empty
/// hint, else the class in the text that the bytes decode to.
pub fn x11_window_class(value: &[u8]) -> (r: Option<String>)
    ensures
        text_of(r) == if value@.len() == 0 {
            None
        } else {
            last_segment(utf8_lossy(value@), '\0')
        },
{
    if value.len() == 0 {
        return None;
    }
    let hint = decode_lossy(value);
    window_class(hint.as_str())
}

/// What follows `label` in `t`, trimmed, if `t` starts with `label`.
pub open spec fn after_label(t: Seq<char>, label: Seq<char>) -> Option<Seq<char>> {
    if label.is_prefix_of(t) {
        Some(trim(t.subrange(label.len() as int, t.len() as int)))
    } else {
        None
    }
}

/// The value of a line of the report, if the line, trimmed, starts with one
/// of the three labels of the active window.
pub open spec fn labelled_value(line: Seq<char>) -> Option<Seq<char>> {
    let t = trim(line);
    if after_label(t, "Active window class:"@) is Some {
        after_label(t, "Active window class:"@)
    } else if after_label(t, "Active window resource class:"@) is Some {
        after_label(t, "Active window resource class:"@)
    } else {
        after_label(t, "Active window resource name:"@)
    }
}

/// The value of the first line of `text` that has one.
pub open spec fn focus_in_report(text: Seq<char>) -> Option<Seq<char>>
    decreases text.len(),
{
    let n = index_of(text, '\n');
    let here = labelled_value(text.subrange(0, n));
    if here is Some {
        here
    } else if 0 <= n < text.len() {
        focus_in_report(text.subrange(n + 1, text.len() as int))
    } else {
        None
    }
}

/// What follows `label` in `chars[from..to]`, trimmed, if that range starts
/// with `label`.
fn read_after_label(text: &str, chars: &Vec<char>, from: usize, to: usize, label: &str) -> (r:
    Option<String>)
    requires
        chars@ == text@,
        from <= to <= chars.len(),
    ensures
        text_of(r) == after_label(chars@.subrange(from as int, to as int), label@),
{
    let word = chars_of(label);
    if range_starts_with(chars, from, to, &word) {
        let (a, b) = trim_range(chars, from + word.len(), to);
        proof {
            let t = chars@.subrange(from as int, to as int);
            assert(t.subrange(label@.len() as int, t.len() as int) =~= chars@.subrange(
                from + word.len(),
                to as int,
            ));
        }
        Some(substring(text, a, b))
    } else {
        None
    }
}

/// The value of the line `chars[from..to]`, if it has one.
fn read_labelled_value(text: &str, chars: &Vec<char>, from: usize, to: usize) -> (r: Option<
    String,
>)
    requires
        chars@ == text@,
        from <= to <= chars.len(),
    ensures
        text_of(r) == labelled_value(chars@.subrange(from as int, to as int)),
{
    let (a, b) = trim_range(chars, from, to);
    let first = read_after_label(text, chars, a, b, "Active window class:");
    if first.is_some() {
        return first;
    }
    let second = read_after_label(text, chars, a, b, "Active window resource class:");
    if second.is_some() {
        return second;
    }
    read_after_label(text, chars, a, b, "Active window resource name:")
}

/// Finds the focused application in the support report of the KDE compositor:
/// the value of the first line that starts with `Active window class:`,
/// `Active window resource class:` or `Active window resource name:`.
pub fn active_window_in_report(report: &str) -> (r: Option<String>)
    ensures
        text_of(r) == focus_in_report(report@),
{
    let chars = chars_of(report);
    let n = chars.len();
    let mut pos: usize = 0;
    proof {
        assert(chars@.subrange(0, n as int) =~= report@);
    }
    loop
        invariant
            pos <= n,
            chars@ == report@,
            n == chars.len(),
            focus_in_report(report@) == focus_in_report(chars@.subrange(pos as int, n as int)),
        decreases n - pos,
    {
        let e = find_char(&chars, pos, n, '\n');
        let ghost rest = chars@.subrange(pos as int, n as int);
        proof {
            assert(rest.subrange(0, e - pos) =~= chars@.subrange(pos as int, e as int));
        }
        let here = read_labelled_value(report, &chars, pos, e);
        if here.is_some() {
            return here;
        }
        if e >= n {
            return None;
        }
        proof {
            assert(rest.subrange(e - pos + 1, rest.len() as int) =~= chars@.subrange(
                e + 1,
                n as int,
            ));
        }
        pos = e + 1;
    }
}

/// The text of the failure when the compositor's tool did not end well.
pub open spec fn exit_failure(status: Seq<char>) -> Seq<char> {
    "qdbus returned status "@ + status
}

/// Reads what the query tool of the KDE compositor gave. `success` says
/// whether it ended with status zero, `status` is its exit status as text,
/// `stdout` what it printed. A tool that did not end well is a failure that
/// names the status; else the focused application is looked up in what was
/// printed, decoded as text.
pub fn kde_wayland_active_window(success: bool, status: &str, stdout: &[u8]) -> (r: Result<
    Option<String>,
    String,
>)
    ensures
        match r {
            Ok(found) => success && text_of(found) == focus_in_report(utf8_lossy(stdout@)),
            Err(detail) => !success && detail@ == exit_failure(status@),
        },
{
    if !success {
        let mut detail = "qdbus returned status ".to_owned();
        detail.append(status);
        return Err(detail);
    }
    let report = decode_lossy(stdout);
    Ok(active_window_in_report(report.as_str()))
}

} // verus!
