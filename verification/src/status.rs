//! The status that callers see, and the single slot that holds the running
//! poller task.

use crate::media::{MediaMetadata, MediaView};
use crate::text::text_of;
use crate::window::SessionKind;
use vstd::prelude::*;

verus! {

/// The status of the reporter as callers see it.
#[derive(Debug)]
pub struct Snapshot {
    pub running: bool,
    pub session: SessionKind,
    pub last_process: Option<String>,
    pub last_media_title: Option<String>,
    pub last_media_artist: Option<String>,
    pub last_report_at: Option<String>,
    pub config_path: Option<String>,
}

/// The status as mathematical values.
pub struct SnapshotView {
    pub running: bool,
    pub session: SessionKind,
    pub last_process: Option<Seq<char>>,
    pub last_media_title: Option<Seq<char>>,
    pub last_media_artist: Option<Seq<char>>,
    pub last_report_at: Option<Seq<char>>,
    pub config_path: Option<Seq<char>>,
}

impl View for Snapshot {
    type V = SnapshotView;

    open spec fn view(&self) -> SnapshotView {
        SnapshotView {
            running: self.running,
            session: self.session,
            last_process: text_of(self.last_process),
            last_media_title: text_of(self.last_media_title),
            last_media_artist: text_of(self.last_media_artist),
            last_report_at: text_of(self.last_report_at),
            config_path: text_of(self.config_path),
        }
    }
}

/// The status at the start of the process: nothing runs, nothing is known.
pub open spec fn initial_status() -> SnapshotView {
    SnapshotView {
        running: false,
        session: SessionKind::Unknown,
        last_process: None,
        last_media_title: None,
        last_media_artist: None,
        last_report_at: None,
        config_path: None,
    }
}

/// The status once a poller has been started in `session` with the settings
/// at `config_path`.
pub open spec fn status_started(s: SnapshotView, session: SessionKind, config_path: Seq<char>) -> SnapshotView {
    SnapshotView { running: true, session, config_path: Some(config_path), ..s }
}

/// The status with the running flag set anew.
pub open spec fn status_with_running(s: SnapshotView, running: bool) -> SnapshotView {
    SnapshotView { running, ..s }
}

/// The status once a report on `process` and `media` has been sent by the
/// poller of `session` and `config_path`, at a time shown as `at`.
pub open spec fn status_reported(
    s: SnapshotView,
    session: SessionKind,
    config_path: Seq<char>,
    process: Seq<char>,
    media: MediaView,
    at: Option<Seq<char>>,
) -> SnapshotView {
    SnapshotView {
        running: true,
        session,
        last_process: Some(process),
        last_media_title: media.title,
        last_media_artist: media.artist,
        last_report_at: at,
        config_path: Some(config_path),
    }
}

impl Default for Snapshot {
    fn default() -> (r: Self)
        ensures
            r@ == initial_status(),
    {
        Snapshot {
            running: false,
            session: SessionKind::Unknown,
            last_process: None,
            last_media_title: None,
            last_media_artist: None,
            last_report_at: None,
            config_path: None,
        }
    }
}

impl Clone for Snapshot {
    fn clone(&self) -> (r: Self)
        ensures
            r@ == self@,
    {
        Snapshot {
            running: self.running,
            session: self.session,
            last_process: self.last_process.clone(),
            last_media_title: self.last_media_title.clone(),
            last_media_artist: self.last_media_artist.clone(),
            last_report_at: self.last_report_at.clone(),
            config_path: self.config_path.clone(),
        }
    }
}

impl Snapshot {
    /// Notes that a poller has been started, and returns the status as it is
    /// then.
    pub fn mark_started(&mut self, session: SessionKind, config_path: String) -> (r: Snapshot)
        ensures
            final(self)@ == status_started(old(self)@, session, config_path@),
            r@ == final(self)@,
    {
        self.running = true;
        self.session = session;
        self.config_path = Some(config_path);
        self.clone()
    }

    /// Notes that the poller has been stopped.
    pub fn mark_stopped(&mut self)
        ensures
            final(self)@ == status_with_running(old(self)@, false),
    {
        self.running = false;
    }

    /// Sets the running flag to what the task slot says now, and returns the
    /// status.
    pub fn get_status(&mut self, running: bool) -> (r: Snapshot)
        ensures
            final(self)@ == status_with_running(old(self)@, running),
            r@ == final(self)@,
    {
        self.running = running;
        self.clone()
    }

    /// Notes a report that the poller has just sent: every field is written
    /// anew.
    pub fn record_report(
        &mut self,
        session: SessionKind,
        config_path: &str,
        process: &str,
        media: &MediaMetadata,
        at: Option<String>,
    )
        ensures
            final(self)@ == status_reported(
                old(self)@,
                session,
                config_path@,
                process@,
                media@,
                text_of(at),
            ),
    {
        self.running = true;
        self.session = session;
        self.config_path = Some(config_path.to_owned());
        self.last_process = Some(process.to_owned());
        self.last_media_title = media.title.clone();
        self.last_media_artist = media.artist.clone();
        self.last_report_at = at;
    }
}

/// Asking for the status twice in a row gives the same values twice, but for
/// the running flag, which is what the task slot says at each call.
pub proof fn lemma_status_is_idempotent(s: SnapshotView, first: bool, second: bool)
    ensures
        status_with_running(status_with_running(s, first), second) == status_with_running(
            s,
            second,
        ),
        status_with_running(s, second) == (SnapshotView {
            running: second,
            ..status_with_running(s, first)
        }),
        first == second ==> status_with_running(status_with_running(s, first), second)
            == status_with_running(s, first),
{
}

/// The path of the settings file: the one given, or `.env.process`.
pub open spec fn path_or_default(config_path: Option<String>) -> Seq<char> {
    match config_path {
        Some(path) => path@,
        None => ".env.process"@,
    }
}

/// The path of the settings file to start with.
pub fn config_path_or_default(config_path: Option<String>) -> (r: String)
    ensures
        r@ == path_or_default(config_path),
{
    match config_path {
        Some(path) => path,
        None => ".env.process".to_owned(),
    }
}

/// The slot that holds the poller task, if one runs. Tasks are told apart by
/// a number; the slot hands out a fresh one at each start.
#[derive(Debug)]
pub struct TaskSlot {
    current: Option<u64>,
    next: u64,
}

/// What has to be done to start a poller: cancel the task that ran, if one
/// did, then spawn the new one.
#[derive(Clone, Copy, Debug, PartialEq, Eq, Structural)]
pub struct StartPlan {
    pub cancel: Option<u64>,
    pub spawn: u64,
}

/// The number that follows `n`.
pub open spec fn following(n: u64) -> u64 {
    if n == u64::MAX {
        0
    } else {
        (n + 1) as u64
    }
}

impl TaskSlot {
    /// The task in the slot is the one handed out last.
    #[verifier::type_invariant]
    pub closed spec fn wf(self) -> bool {
        self.current matches Some(t) ==> self.next == following(t)
    }

    /// The task that runs, if any.
    pub closed spec fn live(self) -> Option<u64> {
        self.current
    }

    /// The slot after a start, and what the start asks for.
    pub closed spec fn after_start(self) -> (TaskSlot, StartPlan) {
        (
            TaskSlot { current: Some(self.next), next: following(self.next) },
            StartPlan { cancel: self.current, spawn: self.next },
        )
    }

    /// The slot after a stop.
    pub closed spec fn after_stop(self) -> TaskSlot {
        TaskSlot { current: None, next: self.next }
    }

    /// An empty slot.
    pub fn new() -> (r: TaskSlot)
        ensures
            r.wf(),
            r.live() is None,
    {
        TaskSlot { current: None, next: 0 }
    }

    /// Tells whether a poller runs.
    pub fn is_running(&self) -> (r: bool)
        ensures
            r == (self.live() is Some),
    {
        self.current.is_some()
    }

    /// Puts a new task into the slot. The task that was there, if any, is to
    /// be cancelled before the new one is spawned.
    pub fn start(&mut self) -> (plan: StartPlan)
        ensures
            (*final(self), plan) == old(self).after_start(),
            final(self).wf(),
            final(self).live() == Some(plan.spawn),
            plan.cancel == old(self).live(),
            plan.cancel != Some(plan.spawn),
    {
        proof {
            use_type_invariant(&*self);
        }
        let id = self.next;
        let plan = StartPlan { cancel: self.current, spawn: id };
        let after = if id == u64::MAX {
            0
        } else {
            id + 1
        };
        *self = TaskSlot { current: Some(id), next: after };
        plan
    }

    /// Empties the slot, and returns the task that is to be cancelled, if one
    /// ran.
    pub fn stop(&mut self) -> (cancel: Option<u64>)
        ensures
            *final(self) == old(self).after_stop(),
            final(self).wf(),
            final(self).live() is None,
            cancel == old(self).live(),
    {
        let cancel = self.current;
        *self = TaskSlot { current: None, next: self.next };
        cancel
    }
}

/// The tasks that are alive once a start plan has been carried out.
pub open spec fn alive_after_start(alive: Set<u64>, plan: StartPlan) -> Set<u64> {
    match plan.cancel {
        Some(t) => alive.remove(t).insert(plan.spawn),
        None => alive.insert(plan.spawn),
    }
}

/// The tasks that are alive once a stop has been carried out.
pub open spec fn alive_after_stop(alive: Set<u64>, cancel: Option<u64>) -> Set<u64> {
    match cancel {
        Some(t) => alive.remove(t),
        None => alive,
    }
}

/// The tasks that a slot stands for: the one in it, or none.
pub open spec fn tasks_of(slot: TaskSlot) -> Set<u64> {
    match slot.live() {
        Some(t) => set![t],
        None => Set::empty(),
    }
}

/// A start leaves exactly one task alive, the new one, where the tasks alive
/// before it were those of the slot.
pub proof fn lemma_start_leaves_one_task(slot: TaskSlot)
    requires
        slot.wf(),
    ensures
        slot.after_start().0.wf(),
        alive_after_start(tasks_of(slot), slot.after_start().1) == set![slot.after_start().1.spawn],
        tasks_of(slot.after_start().0) == set![slot.after_start().1.spawn],
        !tasks_of(slot).contains(slot.after_start().1.spawn),
{
    let (after, plan) = slot.after_start();
    assert(alive_after_start(tasks_of(slot), plan) =~= set![plan.spawn]);
}

/// Two starts in a row leave exactly one task alive: the second. The first is
/// cancelled by the second start, and the two are not the same task.
pub proof fn lemma_start_twice_leaves_one_task(slot: TaskSlot)
    requires
        slot.wf(),
    ensures
        ({
            let (first_slot, first) = slot.after_start();
            let (second_slot, second) = first_slot.after_start();
            let alive = alive_after_start(alive_after_start(tasks_of(slot), first), second);
            &&& second.cancel == Some(first.spawn)
            &&& second.spawn != first.spawn
            &&& alive == set![second.spawn]
            &&& alive.len() == 1
            &&& tasks_of(second_slot) == alive
        }),
{
    let (first_slot, first) = slot.after_start();
    lemma_start_leaves_one_task(slot);
    lemma_start_leaves_one_task(first_slot);
}

/// A stop leaves no task alive, where the tasks alive before it were those of
/// the slot.
pub proof fn lemma_stop_leaves_no_task(slot: TaskSlot)
    requires
        slot.wf(),
    ensures
        slot.after_stop().wf(),
        alive_after_stop(tasks_of(slot), slot.live()) == Set::<u64>::empty(),
        tasks_of(slot.after_stop()) == Set::<u64>::empty(),
{
    assert(alive_after_stop(tasks_of(slot), slot.live()) =~= Set::<u64>::empty());
}

} // verus!
