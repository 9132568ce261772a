use vstd::prelude::*;

verus! {

/// A request to the backup worker. `archive_name` is a file name inside the
/// backup directory, not a path.
#[derive(Debug)]
pub enum BackupRequest {
    CreateBackup { archive_name: String },
    RestoreBackup { archive_name: String },
}

/// The engine's lifecycle. It only moves forward.
#[derive(Clone, Copy, Debug, PartialEq, Eq, Structural)]
pub enum EngineState {
    Starting,
    Running,
    ShuttingDown,
    ShutDown,
}

pub open spec fn state_rank(s: EngineState) -> nat {
    match s {
        EngineState::Starting => 0,
        EngineState::Running => 1,
        EngineState::ShuttingDown => 2,
        EngineState::ShutDown => 3,
    }
}

impl EngineState {
    /// The position of the state in the lifecycle.
    pub fn rank(&self) -> (r: u8)
        ensures
            r as nat == state_rank(*self),
    {
        match self {
            EngineState::Starting => 0,
            EngineState::Running => 1,
            EngineState::ShuttingDown => 2,
            EngineState::ShutDown => 3,
        }
    }

    /// The state at a position of the lifecycle, if there is one.
    pub fn from_rank(n: u8) -> (r: Option<EngineState>)
        ensures
            r matches Some(s) ==> state_rank(s) == n as nat,
            r is None <==> n > 3,
    {
        match n {
            0 => Some(EngineState::Starting),
            1 => Some(EngineState::Running),
            2 => Some(EngineState::ShuttingDown),
            3 => Some(EngineState::ShutDown),
            _ => None,
        }
    }
}

/// Where an engine finds its game and keeps its data.
#[derive(Clone, Debug)]
pub struct EngineArgs {
    pub name: String,
    pub game_config_path: String,
    pub data_path: String,
}

pub ghost struct ControlView {
    pub shutdown: bool,
    pub state: EngineState,
    pub autobackup: bool,
    pub open: bool,
    pub pending: Seq<BackupRequest>,
    pub ongoing: bool,
}

/// The engine's shared control state: the shutdown latch, the lifecycle
/// state, the auto-backup switch, and the worker's request queue with its
/// "a request is in flight" flag. Every thread reaches it under one lock,
/// so each method is one atomic step.
pub struct EngineControl {
    shutdown: bool,
    state: EngineState,
    autobackup: bool,
    open: bool,
    pending: Vec<BackupRequest>,
    ongoing: bool,
}

impl View for EngineControl {
    type V = ControlView;

    closed spec fn view(&self) -> ControlView {
        ControlView {
            shutdown: self.shutdown,
            state: self.state,
            autobackup: self.autobackup,
            open: self.open,
            pending: self.pending@,
            ongoing: self.ongoing,
        }
    }
}

impl EngineControl {
    pub fn new(autobackup: bool) -> (r: EngineControl)
        ensures
            r@ == (ControlView {
                shutdown: false,
                state: EngineState::Starting,
                autobackup,
                open: true,
                pending: Seq::empty(),
                ongoing: false,
            }),
    {
        EngineControl {
            shutdown: false,
            state: EngineState::Starting,
            autobackup,
            open: true,
            pending: Vec::new(),
            ongoing: false,
        }
    }

    /// Requests shutdown. The latch never resets.
    pub fn shutdown(&mut self)
        ensures
            final(self)@ == (ControlView { shutdown: true, ..old(self)@ }),
    {
        self.shutdown = true;
    }

    pub fn shutdown_requested(&self) -> (r: bool)
        ensures
            r == self@.shutdown,
    {
        self.shutdown
    }

    pub fn state(&self) -> (r: EngineState)
        ensures
            r == self@.state,
    {
        self.state
    }

    /// Moves the lifecycle to `next`, unless it is already further on.
    pub fn advance_state(&mut self, next: EngineState)
        ensures
            final(self)@ == (ControlView {
                state: if state_rank(next) > state_rank(old(self)@.state) {
                    next
                } else {
                    old(self)@.state
                },
                ..old(self)@
            }),
            state_rank(final(self)@.state) >= state_rank(old(self)@.state),
    {
        if next.rank() > self.state.rank() {
            self.state = next;
        }
    }

    pub fn get_autobackup(&self) -> (r: bool)
        ensures
            r == self@.autobackup,
    {
        self.autobackup
    }

    pub fn set_autobackup(&mut self, val: bool)
        ensures
            final(self)@ == (ControlView { autobackup: val, ..old(self)@ }),
    {
        self.autobackup = val;
    }

    /// Enqueues a request; does nothing once the queue is closed.
    pub fn send(&mut self, req: BackupRequest)
        ensures
            old(self)@.open ==> final(self)@ == (ControlView {
                pending: old(self)@.pending.push(req),
                ..old(self)@
            }),
            !old(self)@.open ==> final(self)@ == old(self)@,
            final(self)@ == apply_event(old(self)@, QueueEvent::Send(req)),
    {
        if self.open {
            self.pending.push(req);
        }
    }

    /// Closes the queue to new requests; those already in it are still
    /// handed out.
    pub fn close(&mut self)
        ensures
            final(self)@ == (ControlView { open: false, ..old(self)@ }),
            final(self)@ == apply_event(old(self)@, QueueEvent::Close),
    {
        self.open = false;
    }

    /// Whether a request is in flight.
    pub fn is_ongoing(&self) -> (r: bool)
        ensures
            r == self@.ongoing,
    {
        self.ongoing
    }

    /// Hands the worker the oldest request and marks it in flight. Nothing
    /// is handed out while another request is in flight, so at most one
    /// backup or restore runs at a time, in the order they were sent.
    pub fn next_request(&mut self) -> (r: Option<BackupRequest>)
        ensures
            old(self)@.ongoing || old(self)@.pending.len() == 0 ==> r is None && final(self)@ == old(
                self,
            )@,
            !old(self)@.ongoing && old(self)@.pending.len() > 0 ==> r == Some(old(self)@.pending[0])
                && final(self)@ == (ControlView {
                pending: old(self)@.pending.drop_first(),
                ongoing: true,
                ..old(self)@
            }),
            final(self)@.ongoing == (old(self)@.ongoing || r is Some),
            final(self)@ == apply_event(old(self)@, QueueEvent::Take),
    {
        if self.ongoing || self.pending.len() == 0 {
            return None;
        }
        let req = self.pending.remove(0);
        self.ongoing = true;
        assert(self.pending@ =~= old(self)@.pending.drop_first());
        Some(req)
    }

    /// The worker is done with the request in flight.
    pub fn finish_request(&mut self)
        ensures
            final(self)@ == (ControlView { ongoing: false, ..old(self)@ }),
            final(self)@ == apply_event(old(self)@, QueueEvent::Finish),
    {
        self.ongoing = false;
    }

    /// The worker may stop: the queue is closed and drained and nothing is
    /// in flight.
    pub fn worker_may_stop(&self) -> (r: bool)
        ensures
            r == (!self@.open && self@.pending.len() == 0 && !self@.ongoing),
    {
        !self.open && self.pending.len() == 0 && !self.ongoing
    }
}

/// An operation on the request queue, from whichever thread makes it.
pub ghost enum QueueEvent {
    Send(BackupRequest),
    Take,
    Finish,
    Close,
}

/// What one queue operation does to the control state.
pub open spec fn apply_event(s: ControlView, e: QueueEvent) -> ControlView {
    match e {
        QueueEvent::Send(r) => if s.open {
            ControlView { pending: s.pending.push(r), ..s }
        } else {
            s
        },
        QueueEvent::Take => if !s.ongoing && s.pending.len() > 0 {
            ControlView { pending: s.pending.drop_first(), ongoing: true, ..s }
        } else {
            s
        },
        QueueEvent::Finish => ControlView { ongoing: false, ..s },
        QueueEvent::Close => ControlView { open: false, ..s },
    }
}

/// A run of queue operations: the state reached, the requests the queue
/// accepted and those it handed to the worker (each in order), and how
/// many in-flight requests were finished.
pub ghost struct QueueHistory {
    pub state: ControlView,
    pub accepted: Seq<BackupRequest>,
    pub handed: Seq<BackupRequest>,
    pub ended: nat,
}

pub open spec fn replay(s0: ControlView, events: Seq<QueueEvent>) -> QueueHistory
    decreases events.len(),
{
    if events.len() == 0 {
        QueueHistory { state: s0, accepted: Seq::empty(), handed: Seq::empty(), ended: 0 }
    } else {
        let h = replay(s0, events.drop_last());
        let e = events.last();
        QueueHistory {
            state: apply_event(h.state, e),
            accepted: if e is Send && h.state.open {
                h.accepted.push(e->Send_0)
            } else {
                h.accepted
            },
            handed: if e is Take && !h.state.ongoing && h.state.pending.len() > 0 {
                h.handed.push(h.state.pending[0])
            } else {
                h.handed
            },
            ended: if e is Finish && h.state.ongoing {
                h.ended + 1
            } else {
                h.ended
            },
        }
    }
}

/// Requests run one at a time and in order, however the threads' queue
/// operations interleave: starting from an idle, empty queue, the worker
/// is handed exactly the accepted requests in the order they were sent
/// (those not yet handed still wait, in order), at most one handed request
/// is unfinished at any point, and the in-flight flag is set exactly when
/// one is.
pub proof fn lemma_serial_fifo(s0: ControlView, events: Seq<QueueEvent>)
    requires
        !s0.ongoing,
        s0.pending.len() == 0,
    ensures
        replay(s0, events).handed + replay(s0, events).state.pending == replay(s0, events).accepted,
        replay(s0, events).handed.len() == replay(s0, events).ended || replay(s0, events).handed.len()
            == replay(s0, events).ended + 1,
        replay(s0, events).state.ongoing <==> replay(s0, events).handed.len() == replay(s0, events).ended + 1,
    decreases events.len(),
{
    if events.len() == 0 {
        assert(Seq::<BackupRequest>::empty() + s0.pending =~= Seq::<BackupRequest>::empty());
    } else {
        lemma_serial_fifo(s0, events.drop_last());
        let h = replay(s0, events.drop_last());
        let e = events.last();
        let h2 = replay(s0, events);
        match e {
            QueueEvent::Send(r) => {
                if h.state.open {
                    assert(h2.handed + h2.state.pending =~= (h.handed + h.state.pending).push(r));
                }
            },
            QueueEvent::Take => {
                if !h.state.ongoing && h.state.pending.len() > 0 {
                    assert(h2.handed + h2.state.pending =~= h.handed + h.state.pending);
                }
            },
            _ => {},
        }
    }
}

/// Instants are milliseconds on a monotonic clock.
pub type Millis = u64;

/// The engine's shared timestamps.
#[derive(Debug)]
pub struct Timeline {
    /// The last change the watcher saw and no backup has taken in yet.
    pub last_change_at: Option<Millis>,
    /// When the last backup began, or the last restore ended.
    pub last_backup_at: Option<Millis>,
    /// The archive the last successful backup wrote.
    pub latest_backup_path: Option<String>,
}

/// How long a backup that starts at `now` must still wait for the tree to
/// settle: `grace` after the last change. A change stamped after `now`
/// counts as happening at `now`.
pub open spec fn grace_remaining(last_change_at: Option<Millis>, now: Millis, grace: Millis) -> int {
    match last_change_at {
        None => 0,
        Some(c) => {
            let elapsed: int = if now >= c {
                now - c
            } else {
                0
            };
            if elapsed < grace {
                grace - elapsed
            } else {
                0
            }
        },
    }
}

impl Timeline {
    pub fn new() -> (r: Timeline)
        ensures
            r.last_change_at is None,
            r.last_backup_at is None,
            r.latest_backup_path is None,
    {
        Timeline { last_change_at: None, last_backup_at: None, latest_backup_path: None }
    }

    /// The watcher saw a change at `now`.
    pub fn record_change(&mut self, now: Millis)
        ensures
            final(self).last_change_at == Some(now),
            final(self).last_backup_at == old(self).last_backup_at,
            final(self).latest_backup_path == old(self).latest_backup_path,
    {
        self.last_change_at = Some(now);
    }

    /// One step of the grace-time wait. Returns how long to sleep before
    /// asking again; 0 means the backup may proceed, and then the pending
    /// change is taken in (cleared).
    pub fn grace_check(&mut self, now: Millis, grace: Millis) -> (r: Millis)
        ensures
            r as int == grace_remaining(old(self).last_change_at, now, grace),
            r == 0 ==> final(self).last_change_at is None,
            r > 0 ==> final(self).last_change_at == old(self).last_change_at,
            final(self).last_backup_at == old(self).last_backup_at,
            final(self).latest_backup_path == old(self).latest_backup_path,
    {
        match self.last_change_at {
            Some(c) => {
                let elapsed: u64 = if now >= c {
                    now - c
                } else {
                    0
                };
                if elapsed < grace {
                    return grace - elapsed;
                }
            },
            None => {},
        }
        self.last_change_at = None;
        0
    }

    /// A backup begins staging at `now`.
    pub fn begin_backup(&mut self, now: Millis)
        ensures
            final(self).last_backup_at == Some(now),
            final(self).last_change_at == old(self).last_change_at,
            final(self).latest_backup_path == old(self).latest_backup_path,
    {
        self.last_backup_at = Some(now);
    }

    /// A backup wrote `archive_path`.
    pub fn finish_backup(&mut self, archive_path: String)
        ensures
            final(self).latest_backup_path == Some(archive_path),
            final(self).last_change_at == old(self).last_change_at,
            final(self).last_backup_at == old(self).last_backup_at,
    {
        self.latest_backup_path = Some(archive_path);
    }

    /// A restore ended at `now`: what it wrote is no change to back up, and
    /// it counts as a backup for the rate limit.
    pub fn finish_restore(&mut self, now: Millis)
        ensures
            final(self).last_change_at is None,
            final(self).last_backup_at == Some(now),
            final(self).latest_backup_path == old(self).latest_backup_path,
    {
        self.last_change_at = None;
        self.last_backup_at = Some(now);
    }
}

/// A backup that proceeds leaves a full grace time after the change it
/// waited on: once the wait reports nothing left, at least `grace` has
/// passed since that change.
pub proof fn lemma_grace_respected(change_at: Millis, now: Millis, grace: Millis)
    requires
        change_at <= now,
        grace_remaining(Some(change_at), now, grace) == 0,
    ensures
        now >= change_at + grace,
{
}

/// The conditions under which the scheduler asks for an auto-backup at
/// `now`, given when it last asked (`last_auto`).
pub open spec fn autobackup_due(
    last_auto: Option<Millis>,
    last_change_at: Option<Millis>,
    last_backup_at: Option<Millis>,
    now: Millis,
    min_interval: Millis,
) -> bool {
    // a previous auto-backup has not begun yet (it is waiting for grace)
    &&& !(last_auto matches Some(a) && (last_backup_at is None || last_backup_at->0 < a))
    // there is a change to back up
    &&& last_change_at is Some
    // that change is newer than the last auto-backup request
    &&& !(last_auto matches Some(a) && a >= last_change_at->0)
    // the rate limit has run out
    &&& !(last_backup_at matches Some(b) && now < b + min_interval)
}

/// The auto-backup timer's own state.
#[derive(Debug)]
pub struct AutoBackupScheduler {
    pub last_autobackup_at: Option<Millis>,
    pub min_interval: Millis,
}

impl AutoBackupScheduler {
    pub fn new(min_interval: Millis) -> (r: AutoBackupScheduler)
        ensures
            r.last_autobackup_at is None,
            r.min_interval == min_interval,
    {
        AutoBackupScheduler { last_autobackup_at: None, min_interval }
    }

    /// One tick of the timer. Returns whether to enqueue an auto-backup now;
    /// if so, the request time is recorded.
    pub fn tick(&mut self, now: Millis, enabled: bool, ongoing: bool, timeline: &Timeline) -> (r: bool)
        ensures
            r == (enabled && !ongoing && autobackup_due(
                old(self).last_autobackup_at,
                timeline.last_change_at,
                timeline.last_backup_at,
                now,
                old(self).min_interval,
            )),
            r ==> final(self).last_autobackup_at == Some(now),
            !r ==> final(self).last_autobackup_at == old(self).last_autobackup_at,
            final(self).min_interval == old(self).min_interval,
    {
        if !enabled || ongoing {
            return false;
        }
        if let Some(a) = self.last_autobackup_at {
            match timeline.last_backup_at {
                None => return false,
                Some(b) => {
                    if b < a {
                        return false;
                    }
                },
            }
        }
        let c = match timeline.last_change_at {
            None => return false,
            Some(c) => c,
        };
        if let Some(a) = self.last_autobackup_at {
            if a >= c {
                return false;
            }
        }
        if let Some(b) = timeline.last_backup_at {
            if now < b || now - b < self.min_interval {
                return false;
            }
        }
        self.last_autobackup_at = Some(now);
        true
    }
}

/// Auto-backups are rate limited: the scheduler asks for one no sooner
/// than `min_interval` after it last asked.
pub proof fn lemma_autobackup_spacing(
    last_auto: Millis,
    last_change_at: Option<Millis>,
    last_backup_at: Option<Millis>,
    now: Millis,
    min_interval: Millis,
)
    requires
        autobackup_due(Some(last_auto), last_change_at, last_backup_at, now, min_interval),
    ensures
        now >= last_auto + min_interval,
{
}

/// One auto-backup per burst of changes: after the scheduler asked at
/// `asked_at`, it does not ask again while the last change is one it had
/// already seen then (stamped no later than `asked_at`), whatever the time.
pub proof fn lemma_one_autobackup_per_change(
    asked_at: Millis,
    last_change_at: Millis,
    last_backup_at: Option<Millis>,
    now: Millis,
    min_interval: Millis,
)
    requires
        last_change_at <= asked_at,
    ensures
        !autobackup_due(Some(asked_at), Some(last_change_at), last_backup_at, now, min_interval),
{
}

/// Whether shutdown should enqueue a final backup: nothing is in flight
/// and a change has been seen that no backup began after.
pub open spec fn exit_backup_due(ongoing: bool, last_change_at: Option<Millis>, last_backup_at: Option<Millis>) -> bool {
    !ongoing && last_change_at is Some && !(last_backup_at matches Some(b) && b > last_change_at->0)
}

pub fn should_exit_backup(ongoing: bool, timeline: &Timeline) -> (r: bool)
    ensures
        r == exit_backup_due(ongoing, timeline.last_change_at, timeline.last_backup_at),
{
    if ongoing {
        return false;
    }
    match timeline.last_change_at {
        None => false,
        Some(c) => match timeline.last_backup_at {
            Some(b) => !(b > c),
            None => true,
        },
    }
}

/// No exit backup follows a backup that began after the last change.
pub proof fn lemma_no_exit_backup_when_saved(ongoing: bool, last_change_at: Millis, last_backup_at: Millis)
    requires
        last_backup_at > last_change_at,
    ensures
        !exit_backup_due(ongoing, Some(last_change_at), Some(last_backup_at)),
{
}

} // verus!
