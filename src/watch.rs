use vstd::prelude::*;
use vstd::string::StringExecFns;
use crate::entry::FileChangeEvent;
use crate::error::{ErrorKind, Failure};

verus! {

/// The window over which the watcher coalesces raw events, in milliseconds.
pub const DEBOUNCE_MILLIS: u64 = 500;

/// The kinds of debounced event that the watcher reports.
#[derive(PartialEq, Eq, Structural, Clone, Copy, Debug)]
pub enum ChangeKind {
    Any,
    AnyContinuous,
}

/// One debounced event: the path it concerns and its kind.
#[derive(Debug)]
pub struct RawChange {
    pub path: String,
    pub kind: ChangeKind,
}

/// The tag under which every change is published.
pub open spec fn change_tag_spec() -> Seq<char> {
    seq!['c', 'h', 'a', 'n', 'g', 'e']
}

/// The tag of a debounced event: every kind is published as one generic change.
pub fn change_tag(kind: ChangeKind) -> (r: String)
    ensures
        r@ == change_tag_spec(),
{
    let r = match kind {
        ChangeKind::Any => String::from_str("change"),
        ChangeKind::AnyContinuous => String::from_str("change"),
    };
    proof {
        reveal_strlit("change");
        assert(r@ =~= change_tag_spec());
    }
    r
}

/// The notification published for a debounced event.
pub open spec fn notified(c: RawChange, n: FileChangeEvent) -> bool {
    n.path@ == c.path@ && n.kind@ == change_tag_spec()
}

/// The notifications for one batch of debounced events, one for each, in the
/// order of the batch.
pub fn notifications_of(batch: &Vec<RawChange>) -> (r: Vec<FileChangeEvent>)
    ensures
        r@.len() == batch@.len(),
        forall|i: int| 0 <= i < r@.len() ==> notified(batch@[i], #[trigger] r@[i]),
{
    let mut r: Vec<FileChangeEvent> = Vec::new();
    let mut i: usize = 0;
    while i < batch.len()
        invariant
            i <= batch@.len(),
            r@.len() == i,
            forall|k: int| 0 <= k < i ==> notified(batch@[k], #[trigger] r@[k]),
        decreases batch@.len() - i,
    {
        let c = &batch[i];
        let n = FileChangeEvent { path: c.path.clone(), kind: change_tag(c.kind) };
        r.push(n);
        i = i + 1;
    }
    r
}

/// What to do with one delivery of the watcher.
pub enum Delivery {
    /// Publish these notifications, in this order.
    Publish(Vec<FileChangeEvent>),
    /// The watcher itself failed: report the description and keep watching.
    Report(String),
}

/// An active session as the contracts see it.
pub struct SessionView {
    pub id: u64,
    pub root: Seq<char>,
}

/// The session slot as its contracts see it: the active session's number and
/// root, and the number that the next session gets.
pub struct SlotView {
    pub active: Option<SessionView>,
    pub next_id: u64,
}

/// Every session that was ever started has a number below `next_id`.
pub open spec fn slot_wf(s: SlotView) -> bool {
    s.active is Some ==> s.active->0.id < s.next_id
}

/// The slot once its session, if any, is torn down.
pub open spec fn stopped(s: SlotView) -> SlotView {
    SlotView { active: None, next_id: s.next_id }
}

/// The slot once a session on `root` is installed in it.
pub open spec fn started(s: SlotView, root: Seq<char>) -> SlotView {
    SlotView { active: Some(SessionView { id: s.next_id, root }), next_id: (s.next_id + 1) as u64 }
}

/// Whether events of session `id` reach the sink.
pub open spec fn delivers(s: SlotView, id: u64) -> bool {
    s.active is Some && s.active->0.id == id
}

/// Once the watch is stopped, no session's events reach the sink.
pub proof fn law_unwatch_silences(s: SlotView, id: u64)
    ensures
        !delivers(stopped(s), id),
{
}

/// Watching a new directory retires every earlier session: whether the new
/// watch starts or fails, no session numbered before the call delivers again,
/// the one that was active included.
pub proof fn law_rewatch_retires_earlier(s: SlotView, root: Seq<char>, id: u64)
    requires
        slot_wf(s),
        s.next_id < u64::MAX,
        id < s.next_id,
    ensures
        !delivers(stopped(s), id),
        !delivers(started(stopped(s), root), id),
        s.active is Some ==> !delivers(started(stopped(s), root), s.active->0.id),
        slot_wf(started(stopped(s), root)),
{
}

/// Once a new watch is installed, only its own session delivers.
pub proof fn law_rewatch_only_new_delivers(s: SlotView, root: Seq<char>, id: u64)
    requires
        s.next_id < u64::MAX,
    ensures
        delivers(started(stopped(s), root), id) <==> id == s.next_id,
{
}

/// One active watch: its root, its number, and the handle that keeps the
/// watcher running; dropping the handle stops it.
struct WatchSession<H> {
    root: String,
    id: u64,
    handle: H,
}

/// The slot that holds at most one watch session.
pub struct WatchSlot<H> {
    session: Option<WatchSession<H>>,
    next_id: u64,
}

impl<H> View for WatchSlot<H> {
    type V = SlotView;

    closed spec fn view(&self) -> SlotView {
        SlotView {
            active: match self.session {
                Some(s) => Some(SessionView { id: s.id, root: s.root@ }),
                None => None,
            },
            next_id: self.next_id,
        }
    }
}

impl<H> WatchSlot<H> {
    /// An empty slot.
    pub fn new() -> (r: Self)
        ensures
            r@ == (SlotView { active: None, next_id: 0 }),
    {
        WatchSlot { session: None, next_id: 0 }
    }

    /// The root of the active session, if any.
    pub fn watched_path(&self) -> (r: Option<String>)
        ensures
            r is None <==> self@.active is None,
            r is Some ==> r->Some_0@ == self@.active->0.root,
    {
        match &self.session {
            Some(s) => Some(s.root.clone()),
            None => None,
        }
    }

    /// Whether another session can still be numbered.
    pub fn can_start(&self) -> (r: bool)
        ensures
            r == (self@.next_id < u64::MAX),
    {
        self.next_id < u64::MAX
    }

    /// Tears down the active session, if any; its handle is dropped before
    /// this returns.
    pub fn unwatch(&mut self)
        ensures
            final(self)@ == stopped(old(self)@),
    {
        self.session = None;
    }

    /// Installs the outcome of starting a watcher on `root` in an empty slot:
    /// a handle becomes the active session, a failure leaves the slot empty.
    pub fn install(&mut self, root: String, outcome: Result<H, String>) -> (r: Result<u64, Failure>)
        requires
            old(self)@.active is None,
            old(self)@.next_id < u64::MAX,
        ensures
            outcome is Ok ==> r == Ok::<u64, Failure>(old(self)@.next_id) && final(self)@ == started(old(self)@, root@),
            outcome is Err ==> r is Err && r->Err_0@ == (ErrorKind::WatcherInitFailure, outcome->Err_0@)
                && final(self)@ == old(self)@,
    {
        match outcome {
            Ok(handle) => {
                let id = self.next_id;
                self.session = Some(WatchSession { root, id, handle });
                self.next_id = id + 1;
                Ok(id)
            },
            Err(message) => Err(Failure { kind: ErrorKind::WatcherInitFailure, message }),
        }
    }

    /// Watches directory `root` in place of the active session. A root that is
    /// not a directory is refused and the slot is left as it was. Otherwise
    /// the active session is torn down first, then `start` is given the new
    /// session's number and makes the watcher; its outcome is installed.
    pub fn watch<F: FnOnce(u64) -> Result<H, String>>(&mut self, root: String, is_dir: bool, start: F) -> (r: Result<u64, Failure>)
        requires
            old(self)@.next_id < u64::MAX,
            start.requires((old(self)@.next_id,)),
        ensures
            !is_dir ==> r is Err && r->Err_0@ == (ErrorKind::InvalidPath, "Invalid directory path"@)
                && final(self)@ == old(self)@,
            is_dir && r is Ok ==> r->Ok_0 == old(self)@.next_id
                && final(self)@ == started(stopped(old(self)@), root@),
            is_dir && r is Err ==> r->Err_0@.0 == ErrorKind::WatcherInitFailure
                && final(self)@ == stopped(old(self)@),
            is_dir ==> exists|o: Result<H, String>| #[trigger] start.ensures((old(self)@.next_id,), o)
                && (o is Ok <==> r is Ok)
                && (o is Err ==> r->Err_0@ == (ErrorKind::WatcherInitFailure, o->Err_0@)),
    {
        if !is_dir {
            let message = String::from_str("Invalid directory path");
            return Err(Failure { kind: ErrorKind::InvalidPath, message });
        }
        self.unwatch();
        let outcome = start(self.next_id);
        self.install(root, outcome)
    }

    /// The notifications that a batch of session `id` yields: none unless
    /// that session is the active one.
    pub fn forward(&self, id: u64, batch: &Vec<RawChange>) -> (r: Vec<FileChangeEvent>)
        ensures
            r@.len() == (if delivers(self@, id) { batch@.len() } else { 0 }),
            forall|i: int| 0 <= i < r@.len() ==> notified(batch@[i], #[trigger] r@[i]),
    {
        let live = match &self.session {
            Some(s) => s.id == id,
            None => false,
        };
        if live {
            notifications_of(batch)
        } else {
            Vec::new()
        }
    }

    /// Decides what becomes of one delivery of session `id`'s watcher: the
    /// notifications of a batch are published, none unless the session is
    /// the active one; a watcher failure is reported and the session goes on.
    pub fn route(&self, id: u64, delivery: Result<Vec<RawChange>, String>) -> (r: Delivery)
        ensures
            delivery is Ok ==> (r matches Delivery::Publish(ns)
                && ns@.len() == (if delivers(self@, id) { delivery->Ok_0@.len() } else { 0 })
                && forall|i: int| 0 <= i < ns@.len() ==> notified(delivery->Ok_0@[i], #[trigger] ns@[i])),
            delivery is Err ==> (r matches Delivery::Report(m) && m@ == delivery->Err_0@),
    {
        match delivery {
            Ok(batch) => Delivery::Publish(self.forward(id, &batch)),
            Err(e) => Delivery::Report(e),
        }
    }
}

} // verus!
