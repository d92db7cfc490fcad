//! The sync session as a state machine.
//!
//! A session runs a fixed script of steps for its role. The application asks
//! for the next action (send a message, receive one, import records, close
//! the channel), performs it on its transport or store, and reports the
//! outcome; the session decides everything else: what to send, what it
//! expects to receive, what to import, and when to stop.

use vstd::prelude::*;
use crate::sync::archive::LocalArchive;
use crate::sync::import::{first_occurrences, plan_import, ImportPlan};
use crate::sync::protocol::{
    spec_key, ExpectedMessage, RecordKey, SyncConfig, SyncError, SyncMessage, SyncRecord, SyncStats,
    PROTOCOL_VERSION,
};

verus! {

/// Which side of the exchange a session plays.
#[derive(Debug, Clone, Copy, PartialEq, Eq, Structural)]
pub enum SyncRole {
    /// The peer that opened the connection; it speaks first.
    Initiator,
    /// The peer that accepted the connection; it answers.
    Responder,
}

/// One step of a session's script.
#[derive(Debug, Clone, Copy, PartialEq, Eq, Structural)]
pub enum SyncStep {
    SendHello,
    ReceiveHello,
    SendManifest,
    ReceiveManifest,
    SendNeed,
    ReceiveNeed,
    SendRecords,
    ReceiveRecords,
    Apply,
    SendDone,
    ReceiveDone,
    Close,
}

/// Number of steps in a script.
pub const SCRIPT_LEN: usize = 12;

/// The steps that a session of `role` takes, in order.
pub open spec fn script(role: SyncRole) -> Seq<SyncStep> {
    match role {
        SyncRole::Initiator => seq![
            SyncStep::SendHello,
            SyncStep::ReceiveHello,
            SyncStep::SendManifest,
            SyncStep::ReceiveManifest,
            SyncStep::SendNeed,
            SyncStep::ReceiveNeed,
            SyncStep::SendRecords,
            SyncStep::ReceiveRecords,
            SyncStep::Apply,
            SyncStep::SendDone,
            SyncStep::ReceiveDone,
            SyncStep::Close,
        ],
        SyncRole::Responder => seq![
            SyncStep::ReceiveHello,
            SyncStep::SendHello,
            SyncStep::ReceiveManifest,
            SyncStep::SendManifest,
            SyncStep::ReceiveNeed,
            SyncStep::SendNeed,
            SyncStep::ReceiveRecords,
            SyncStep::SendRecords,
            SyncStep::Apply,
            SyncStep::ReceiveDone,
            SyncStep::SendDone,
            SyncStep::Close,
        ],
    }
}

/// The step that the other peer takes at the same point of the exchange:
/// a send is met by the matching receive and the other way round.
pub open spec fn counterpart(s: SyncStep) -> SyncStep {
    match s {
        SyncStep::SendHello => SyncStep::ReceiveHello,
        SyncStep::ReceiveHello => SyncStep::SendHello,
        SyncStep::SendManifest => SyncStep::ReceiveManifest,
        SyncStep::ReceiveManifest => SyncStep::SendManifest,
        SyncStep::SendNeed => SyncStep::ReceiveNeed,
        SyncStep::ReceiveNeed => SyncStep::SendNeed,
        SyncStep::SendRecords => SyncStep::ReceiveRecords,
        SyncStep::ReceiveRecords => SyncStep::SendRecords,
        SyncStep::Apply => SyncStep::Apply,
        SyncStep::SendDone => SyncStep::ReceiveDone,
        SyncStep::ReceiveDone => SyncStep::SendDone,
        SyncStep::Close => SyncStep::Close,
    }
}

/// Whether a step writes to the channel.
pub open spec fn is_send(s: SyncStep) -> bool {
    s == SyncStep::SendHello || s == SyncStep::SendManifest || s == SyncStep::SendNeed
        || s == SyncStep::SendRecords || s == SyncStep::SendDone
}

/// Whether a step reads from the channel.
pub open spec fn is_receive(s: SyncStep) -> bool {
    s == SyncStep::ReceiveHello || s == SyncStep::ReceiveManifest || s == SyncStep::ReceiveNeed
        || s == SyncStep::ReceiveRecords || s == SyncStep::ReceiveDone
}

/// Turn-taking law: at every point of the exchange the two roles take
/// matching steps, so whenever one peer writes the other reads, and the two
/// never both wait to read or both write at once.
pub proof fn lemma_scripts_mirror()
    ensures
        script(SyncRole::Initiator).len() == SCRIPT_LEN,
        script(SyncRole::Responder).len() == SCRIPT_LEN,
        forall|k: int| 0 <= k < SCRIPT_LEN ==> #[trigger] script(SyncRole::Initiator)[k] == counterpart(script(SyncRole::Responder)[k]),
        forall|k: int| 0 <= k < SCRIPT_LEN ==> (is_send(#[trigger] script(SyncRole::Initiator)[k]) <==> is_receive(script(SyncRole::Responder)[k])),
        forall|k: int| 0 <= k < SCRIPT_LEN ==> (is_receive(#[trigger] script(SyncRole::Initiator)[k]) <==> is_send(script(SyncRole::Responder)[k])),
{
    let a = script(SyncRole::Initiator);
    let b = script(SyncRole::Responder);
    assert forall|k: int| 0 <= k < SCRIPT_LEN implies #[trigger] a[k] == counterpart(b[k]) by {
        if k == 0 {} else if k == 1 {} else if k == 2 {} else if k == 3 {} else if k == 4 {} else if k == 5 {}
        else if k == 6 {} else if k == 7 {} else if k == 8 {} else if k == 9 {} else if k == 10 {} else {}
    }
}

/// The step at position `pos` of the script of `role`.
pub fn step_at(role: SyncRole, pos: usize) -> (s: SyncStep)
    requires
        pos < SCRIPT_LEN,
    ensures
        s == script(role)[pos as int],
{
    match role {
        SyncRole::Initiator => {
            if pos == 0 { SyncStep::SendHello }
            else if pos == 1 { SyncStep::ReceiveHello }
            else if pos == 2 { SyncStep::SendManifest }
            else if pos == 3 { SyncStep::ReceiveManifest }
            else if pos == 4 { SyncStep::SendNeed }
            else if pos == 5 { SyncStep::ReceiveNeed }
            else if pos == 6 { SyncStep::SendRecords }
            else if pos == 7 { SyncStep::ReceiveRecords }
            else if pos == 8 { SyncStep::Apply }
            else if pos == 9 { SyncStep::SendDone }
            else if pos == 10 { SyncStep::ReceiveDone }
            else { SyncStep::Close }
        },
        SyncRole::Responder => {
            if pos == 0 { SyncStep::ReceiveHello }
            else if pos == 1 { SyncStep::SendHello }
            else if pos == 2 { SyncStep::ReceiveManifest }
            else if pos == 3 { SyncStep::SendManifest }
            else if pos == 4 { SyncStep::ReceiveNeed }
            else if pos == 5 { SyncStep::SendNeed }
            else if pos == 6 { SyncStep::ReceiveRecords }
            else if pos == 7 { SyncStep::SendRecords }
            else if pos == 8 { SyncStep::Apply }
            else if pos == 9 { SyncStep::ReceiveDone }
            else if pos == 10 { SyncStep::SendDone }
            else { SyncStep::Close }
        },
    }
}

/// What the session asks the application to do next.
pub enum SyncAction {
    /// Write this message to the channel and report `Sent`.
    Send(SyncMessage),
    /// Read one message from the channel and report `Received`.
    Receive,
    /// Write these records into the local ledger and report `Applied`.
    Apply(ImportPlan),
    /// Close the channel and report `Closed`.
    Close,
    /// The session is over; these are its statistics.
    Finish(SyncStats),
}

/// What happened when the application performed an action.
pub enum StepOutcome {
    /// The message went out in a frame of `bytes` bytes.
    Sent { bytes: usize },
    /// This message came in, in a frame of `bytes` bytes.
    Received { message: SyncMessage, bytes: usize },
    /// The records of the import plan are in the ledger.
    Applied,
    /// The channel is closed; the session took `duration_ms` milliseconds.
    Closed { duration_ms: u64 },
}

/// What the session waits for.
#[derive(Debug, Clone, Copy, PartialEq, Eq, Structural)]
pub enum Awaiting {
    /// A call of `next_action`.
    Action,
    /// The outcome of a `Send`.
    Sent,
    /// The outcome of a `Receive`.
    Received,
    /// The outcome of an `Apply`.
    Applied,
    /// The outcome of a `Close`.
    Closed,
    /// Nothing: the session finished or failed.
    Ended,
}

/// Whether `outcome` is the kind of report that `awaiting` expects.
pub open spec fn fits(awaiting: Awaiting, outcome: StepOutcome) -> bool {
    match outcome {
        StepOutcome::Sent { .. } => awaiting == Awaiting::Sent,
        StepOutcome::Received { .. } => awaiting == Awaiting::Received,
        StepOutcome::Applied => awaiting == Awaiting::Applied,
        StepOutcome::Closed { .. } => awaiting == Awaiting::Closed,
    }
}

/// Number of records per `Records` message under `config` (at least one).
pub open spec fn batch_size(config: SyncConfig) -> nat {
    if config.max_records_per_message == 0 {
        1
    } else {
        config.max_records_per_message as nat
    }
}

/// `a + b`, held at `usize::MAX`.
pub open spec fn sat_add(a: usize, b: nat) -> usize {
    if a + b > usize::MAX {
        usize::MAX
    } else {
        (a + b) as usize
    }
}

/// A sync session in progress.
pub struct SyncSession {
    pub role: SyncRole,
    pub config: SyncConfig,
    /// Position of the current step in the script (`SCRIPT_LEN` once closed).
    pub pos: usize,
    pub awaiting: Awaiting,
    /// The local records and their keys.
    pub archive: LocalArchive,
    /// The keys that the peer holds and this side lacks.
    pub need: Vec<RecordKey>,
    /// The keys that the peer asked for.
    pub remote_need: Vec<RecordKey>,
    /// Whether the records asked for were taken out of the archive.
    pub prepared: bool,
    /// The asked-for records not sent yet.
    pub outgoing: Vec<SyncRecord>,
    /// Whether the last message sent was `RecordsDone`.
    pub records_done_sent: bool,
    /// The records received so far.
    pub incoming: Vec<SyncRecord>,
    /// Distinct and repeated record counts of the import in progress.
    pub pending_unique: usize,
    pub pending_skipped: usize,
    pub stats: SyncStats,
}

/// `b` is `a` with at most its step position, its wait state and its
/// statistics changed: every record list, key list and flag is kept.
pub open spec fn only_progress(a: SyncSession, b: SyncSession) -> bool {
    b == (SyncSession { pos: b.pos, awaiting: b.awaiting, stats: b.stats, ..a })
}

impl SyncSession {
    /// The invariant of a session.
    pub open spec fn wf(&self) -> bool {
        &&& self.archive.wf()
        &&& self.pos <= SCRIPT_LEN
        &&& (self.awaiting == Awaiting::Sent || self.awaiting == Awaiting::Received
            || self.awaiting == Awaiting::Applied || self.awaiting == Awaiting::Closed) ==> self.pos < SCRIPT_LEN
    }

    /// The step the session is at, when the script is not over.
    pub open spec fn step(&self) -> SyncStep {
        script(self.role)[self.pos as int]
    }

    /// The records that the session sends: those of the archive whose key
    /// the peer asked for, in archive order.
    pub open spec fn requested(&self) -> Seq<SyncRecord> {
        self.archive.records@.filter(|r: SyncRecord| self.remote_need@.contains(spec_key(r)))
    }

    /// A fresh session of `role` over the local `archive`.
    pub fn new(role: SyncRole, archive: LocalArchive, config: SyncConfig) -> (s: SyncSession)
        requires
            archive.wf(),
        ensures
            s.wf(),
            s.role == role,
            s.config == config,
            s.pos == 0,
            s.awaiting == Awaiting::Action,
            s.archive == archive,
            s.need@.len() == 0,
            s.remote_need@.len() == 0,
            !s.prepared,
            s.outgoing@.len() == 0,
            !s.records_done_sent,
            s.incoming@.len() == 0,
            s.stats == SyncStats::zero(),
    {
        SyncSession {
            role,
            config,
            pos: 0,
            awaiting: Awaiting::Action,
            archive,
            need: Vec::new(),
            remote_need: Vec::new(),
            prepared: false,
            outgoing: Vec::new(),
            records_done_sent: false,
            incoming: Vec::new(),
            pending_unique: 0,
            pending_skipped: 0,
            stats: SyncStats::new(),
        }
    }

    /// Takes the records asked for out of the archive, once.
    fn prepare_outgoing(&mut self)
        requires
            old(self).wf(),
        ensures
            final(self).wf(),
            final(self).prepared,
            final(self).outgoing@ == if old(self).prepared { old(self).outgoing@ } else { old(self).requested() },
            final(self).role == old(self).role,
            final(self).config == old(self).config,
            final(self).pos == old(self).pos,
            final(self).awaiting == old(self).awaiting,
            final(self).need == old(self).need,
            final(self).remote_need == old(self).remote_need,
            final(self).records_done_sent == old(self).records_done_sent,
            final(self).incoming == old(self).incoming,
            final(self).stats == old(self).stats,
            old(self).prepared ==> final(self).archive == old(self).archive,
            !old(self).prepared ==> final(self).archive.records@.len() == 0 && final(self).archive.keys@.len() == 0,
            *final(self) == (SyncSession {
                prepared: true,
                outgoing: final(self).outgoing,
                archive: final(self).archive,
                ..*old(self)
            }),
    {
        if !self.prepared {
            let mut taken = LocalArchive { records: Vec::new(), keys: Vec::new() };
            std::mem::swap(&mut taken, &mut self.archive);
            self.outgoing = taken.take_records_for(&self.remote_need);
            self.prepared = true;
        }
    }

    /// The next action the application must perform.
    pub fn next_action(&mut self) -> (act: SyncAction)
        requires
            old(self).wf(),
            old(self).awaiting == Awaiting::Action,
        ensures
            final(self).wf(),
            final(self).role == old(self).role,
            final(self).config == old(self).config,
            final(self).remote_need == old(self).remote_need,
            old(self).pos == SCRIPT_LEN ==> act == SyncAction::Finish(old(self).stats)
                && final(self).awaiting == Awaiting::Ended,
            old(self).pos < SCRIPT_LEN && is_receive(old(self).step()) ==> act == SyncAction::Receive
                && final(self).awaiting == Awaiting::Received && final(self).pos == old(self).pos
                && final(self).stats == old(self).stats && final(self).incoming == old(self).incoming
                && final(self).archive == old(self).archive,
            old(self).pos < SCRIPT_LEN && old(self).step() == SyncStep::SendHello ==> act
                == SyncAction::Send(SyncMessage::Hello { version: PROTOCOL_VERSION })
                && final(self).awaiting == Awaiting::Sent && final(self).pos == old(self).pos
                && final(self).stats == old(self).stats && final(self).archive == old(self).archive,
            old(self).pos < SCRIPT_LEN && old(self).step() == SyncStep::SendManifest ==> (
            match act {
                SyncAction::Send(SyncMessage::Manifest { keys }) => keys@ == old(self).archive.keys@,
                _ => false,
            }) && final(self).awaiting == Awaiting::Sent && final(self).pos == old(self).pos
                && final(self).stats == old(self).stats && final(self).archive == old(self).archive,
            old(self).pos < SCRIPT_LEN && old(self).step() == SyncStep::SendNeed ==> (match act {
                SyncAction::Send(SyncMessage::Need { keys }) => keys@ == old(self).need@,
                _ => false,
            }) && final(self).awaiting == Awaiting::Sent && final(self).pos == old(self).pos
                && final(self).stats == old(self).stats && final(self).archive == old(self).archive,
            old(self).pos < SCRIPT_LEN && old(self).step() == SyncStep::SendRecords ==> {
                let out = if old(self).prepared { old(self).outgoing@ } else { old(self).requested() };
                let n = if out.len() < batch_size(old(self).config) { out.len() } else { batch_size(old(self).config) };
                &&& final(self).prepared
                &&& final(self).awaiting == Awaiting::Sent
                &&& final(self).pos == old(self).pos
                &&& out.len() > 0 ==> (match act {
                    SyncAction::Send(SyncMessage::Records { records }) => records@ == out.take(n as int),
                    _ => false,
                }) && final(self).outgoing@ == out.skip(n as int) && !final(self).records_done_sent
                    && final(self).stats == (SyncStats { records_sent: sat_add(old(self).stats.records_sent, n), ..old(self).stats })
                &&& out.len() == 0 ==> act == SyncAction::Send(SyncMessage::RecordsDone)
                    && final(self).outgoing@.len() == 0 && final(self).records_done_sent
                    && final(self).stats == old(self).stats
            },
            old(self).pos < SCRIPT_LEN && old(self).step() == SyncStep::Apply ==> {
                let firsts = first_occurrences(old(self).incoming@);
                let skipped = old(self).incoming@.len() - firsts.len();
                &&& final(self).incoming@.len() == 0
                &&& firsts.len() > 0 ==> (match act {
                    SyncAction::Apply(plan) => plan.plans(old(self).incoming@),
                    _ => false,
                }) && final(self).awaiting == Awaiting::Applied && final(self).pos == old(self).pos
                    && final(self).pending_unique == firsts.len() && final(self).pending_skipped == skipped
                    && final(self).stats == old(self).stats
                &&& firsts.len() == 0 ==> final(self).pos == old(self).pos + 1
                    && final(self).stats == (SyncStats { records_skipped: sat_add(old(self).stats.records_skipped, skipped as nat), ..old(self).stats })
                    && (final(self).step() == SyncStep::SendDone ==> act == SyncAction::Send(SyncMessage::Done) && final(self).awaiting == Awaiting::Sent)
                    && (final(self).step() == SyncStep::ReceiveDone ==> act == SyncAction::Receive && final(self).awaiting == Awaiting::Received)
            },
            old(self).pos < SCRIPT_LEN && old(self).step() == SyncStep::SendDone ==> act
                == SyncAction::Send(SyncMessage::Done) && final(self).awaiting == Awaiting::Sent
                && final(self).pos == old(self).pos && final(self).stats == old(self).stats,
            old(self).pos < SCRIPT_LEN && old(self).step() == SyncStep::Close ==> act == SyncAction::Close
                && final(self).awaiting == Awaiting::Closed && final(self).pos == old(self).pos
                && final(self).stats == old(self).stats,
            old(self).pos == SCRIPT_LEN ==> only_progress(*old(self), *final(self)),
            old(self).pos < SCRIPT_LEN && old(self).step() != SyncStep::SendRecords && old(self).step()
                != SyncStep::Apply ==> only_progress(*old(self), *final(self)),
            old(self).pos < SCRIPT_LEN && old(self).step() == SyncStep::SendRecords ==> {
                &&& *final(self) == (SyncSession {
                    prepared: true,
                    outgoing: final(self).outgoing,
                    archive: final(self).archive,
                    records_done_sent: final(self).records_done_sent,
                    stats: final(self).stats,
                    awaiting: final(self).awaiting,
                    ..*old(self)
                })
                &&& old(self).prepared ==> final(self).archive == old(self).archive
                &&& !old(self).prepared ==> final(self).archive.records@.len() == 0 && final(self).archive.keys@.len() == 0
            },
            old(self).pos < SCRIPT_LEN && old(self).step() == SyncStep::Apply ==> *final(self) == (SyncSession {
                incoming: final(self).incoming,
                pending_unique: final(self).pending_unique,
                pending_skipped: final(self).pending_skipped,
                stats: final(self).stats,
                pos: final(self).pos,
                awaiting: final(self).awaiting,
                ..*old(self)
            }),
    {
        if self.pos >= SCRIPT_LEN {
            self.awaiting = Awaiting::Ended;
            return SyncAction::Finish(self.stats);
        }
        let step = step_at(self.role, self.pos);
        match step {
            SyncStep::SendHello => {
                self.awaiting = Awaiting::Sent;
                SyncAction::Send(SyncMessage::Hello { version: PROTOCOL_VERSION })
            },
            SyncStep::SendManifest => {
                let mut keys: Vec<RecordKey> = Vec::new();
                let mut i: usize = 0;
                while i < self.archive.keys.len()
                    invariant
                        i <= self.archive.keys@.len(),
                        keys@ == self.archive.keys@.take(i as int),
                    decreases self.archive.keys@.len() - i,
                {
                    keys.push(self.archive.keys[i]);
                    i = i + 1;
                    proof {
                        assert(keys@ =~= self.archive.keys@.take(i as int));
                    }
                }
                proof {
                    assert(self.archive.keys@.take(i as int) =~= self.archive.keys@);
                }
                self.awaiting = Awaiting::Sent;
                SyncAction::Send(SyncMessage::Manifest { keys })
            },
            SyncStep::SendNeed => {
                let mut keys: Vec<RecordKey> = Vec::new();
                let mut i: usize = 0;
                while i < self.need.len()
                    invariant
                        i <= self.need@.len(),
                        keys@ == self.need@.take(i as int),
                    decreases self.need@.len() - i,
                {
                    keys.push(self.need[i]);
                    i = i + 1;
                    proof {
                        assert(keys@ =~= self.need@.take(i as int));
                    }
                }
                proof {
                    assert(self.need@.take(i as int) =~= self.need@);
                }
                self.awaiting = Awaiting::Sent;
                SyncAction::Send(SyncMessage::Need { keys })
            },
            SyncStep::SendRecords => {
                self.prepare_outgoing();
                self.awaiting = Awaiting::Sent;
                if self.outgoing.len() > 0 {
                    let size: usize = if self.config.max_records_per_message == 0 {
                        1
                    } else {
                        self.config.max_records_per_message
                    };
                    let n: usize = if self.outgoing.len() < size { self.outgoing.len() } else { size };
                    let rest = self.outgoing.split_off(n);
                    let mut batch = rest;
                    std::mem::swap(&mut batch, &mut self.outgoing);
                    self.records_done_sent = false;
                    self.stats.records_sent = self.stats.records_sent.saturating_add(batch.len());
                    SyncAction::Send(SyncMessage::Records { records: batch })
                } else {
                    self.records_done_sent = true;
                    SyncAction::Send(SyncMessage::RecordsDone)
                }
            },
            SyncStep::Apply => {
                let mut incoming: Vec<SyncRecord> = Vec::new();
                std::mem::swap(&mut incoming, &mut self.incoming);
                let plan = plan_import(incoming);
                if plan.is_empty() {
                    self.stats.records_skipped = self.stats.records_skipped.saturating_add(plan.skipped);
                    self.pos = self.pos + 1;
                    let next = step_at(self.role, self.pos);
                    if next == SyncStep::SendDone {
                        self.awaiting = Awaiting::Sent;
                        SyncAction::Send(SyncMessage::Done)
                    } else {
                        self.awaiting = Awaiting::Received;
                        SyncAction::Receive
                    }
                } else {
                    self.pending_unique = plan.unique;
                    self.pending_skipped = plan.skipped;
                    self.awaiting = Awaiting::Applied;
                    SyncAction::Apply(plan)
                }
            },
            SyncStep::SendDone => {
                self.awaiting = Awaiting::Sent;
                SyncAction::Send(SyncMessage::Done)
            },
            SyncStep::Close => {
                self.awaiting = Awaiting::Closed;
                SyncAction::Close
            },
            _ => {
                self.awaiting = Awaiting::Received;
                SyncAction::Receive
            },
        }
    }

    /// Reports the outcome of the last action. A message out of turn, or a
    /// `Hello` of another protocol version, ends the session with an error.
    pub fn record_outcome(&mut self, outcome: StepOutcome) -> (r: Result<(), SyncError>)
        requires
            old(self).wf(),
            fits(old(self).awaiting, outcome),
        ensures
            final(self).wf(),
            final(self).role == old(self).role,
            final(self).config == old(self).config,
            r is Ok ==> final(self).awaiting == Awaiting::Action,
            r is Err ==> final(self).awaiting == Awaiting::Ended,
            *final(self) == (SyncSession {
                pos: final(self).pos,
                awaiting: final(self).awaiting,
                stats: final(self).stats,
                need: final(self).need,
                remote_need: final(self).remote_need,
                incoming: final(self).incoming,
                ..*old(self)
            }),
            !(outcome is Received && old(self).pos < SCRIPT_LEN && old(self).step() == SyncStep::ReceiveManifest && r is Ok)
                ==> final(self).need == old(self).need,
            !(outcome is Received && old(self).pos < SCRIPT_LEN && old(self).step() == SyncStep::ReceiveNeed && r is Ok)
                ==> final(self).remote_need == old(self).remote_need,
            !(outcome is Received && old(self).pos < SCRIPT_LEN && old(self).step() == SyncStep::ReceiveRecords && r is Ok)
                ==> final(self).incoming == old(self).incoming,
            match outcome {
                StepOutcome::Sent { bytes } => {
                    &&& r is Ok
                    &&& final(self).stats == (SyncStats { bytes_sent: sat_add(old(self).stats.bytes_sent, bytes as nat), ..old(self).stats })
                    &&& final(self).archive == old(self).archive
                    &&& final(self).outgoing == old(self).outgoing
                    &&& final(self).pos == if old(self).pos < SCRIPT_LEN && old(self).step() == SyncStep::SendRecords
                        && !old(self).records_done_sent { old(self).pos } else { (old(self).pos + 1) as usize }
                },
                StepOutcome::Received { message, bytes } => {
                    let received = sat_add(old(self).stats.bytes_received, bytes as nat);
                    let step = if old(self).pos < SCRIPT_LEN { old(self).step() } else { SyncStep::Close };
                    &&& final(self).archive == old(self).archive
                    &&& step == SyncStep::ReceiveHello ==> match message {
                        SyncMessage::Hello { version } => if version == PROTOCOL_VERSION {
                            r is Ok && final(self).pos == old(self).pos + 1
                        } else {
                            r == Err::<(), SyncError>(SyncError::ProtocolVersionMismatch { local: PROTOCOL_VERSION, remote: version })
                        },
                        _ => r == Err::<(), SyncError>(SyncError::UnexpectedMessage { expected: ExpectedMessage::Hello, got: message }),
                    } && final(self).stats == (SyncStats { bytes_received: received, ..old(self).stats })
                    &&& step == SyncStep::ReceiveManifest ==> match message {
                        SyncMessage::Manifest { keys } => r is Ok && final(self).pos == old(self).pos + 1
                            && final(self).need@ == keys@.filter(|k: RecordKey| !old(self).archive.keys@.contains(k)),
                        _ => r == Err::<(), SyncError>(SyncError::UnexpectedMessage { expected: ExpectedMessage::Manifest, got: message }),
                    } && final(self).stats == (SyncStats { bytes_received: received, ..old(self).stats })
                    &&& step == SyncStep::ReceiveNeed ==> match message {
                        SyncMessage::Need { keys } => r is Ok && final(self).pos == old(self).pos + 1
                            && final(self).remote_need@ == keys@,
                        _ => r == Err::<(), SyncError>(SyncError::UnexpectedMessage { expected: ExpectedMessage::Need, got: message }),
                    } && final(self).stats == (SyncStats { bytes_received: received, ..old(self).stats })
                    &&& step == SyncStep::ReceiveRecords ==> match message {
                        SyncMessage::Records { records } => r is Ok && final(self).pos == old(self).pos
                            && final(self).incoming@ == old(self).incoming@ + records@
                            && final(self).stats == (SyncStats {
                                bytes_received: received,
                                records_received: sat_add(old(self).stats.records_received, records@.len()),
                                ..old(self).stats
                            }),
                        SyncMessage::RecordsDone => r is Ok && final(self).pos == old(self).pos + 1
                            && final(self).incoming == old(self).incoming
                            && final(self).stats == (SyncStats { bytes_received: received, ..old(self).stats }),
                        _ => r == Err::<(), SyncError>(SyncError::UnexpectedMessage { expected: ExpectedMessage::RecordsOrRecordsDone, got: message })
                            && final(self).stats == (SyncStats { bytes_received: received, ..old(self).stats }),
                    }
                    &&& step == SyncStep::ReceiveDone ==> match message {
                        SyncMessage::Done => r is Ok && final(self).pos == old(self).pos + 1,
                        _ => r == Err::<(), SyncError>(SyncError::UnexpectedMessage { expected: ExpectedMessage::Done, got: message }),
                    } && final(self).stats == (SyncStats { bytes_received: received, ..old(self).stats })
                },
                StepOutcome::Applied => {
                    &&& r is Ok
                    &&& final(self).pos == old(self).pos + 1
                    &&& final(self).stats == (SyncStats {
                        records_applied: sat_add(old(self).stats.records_applied, old(self).pending_unique as nat),
                        records_skipped: sat_add(old(self).stats.records_skipped, old(self).pending_skipped as nat),
                        ..old(self).stats
                    })
                },
                StepOutcome::Closed { duration_ms } => {
                    &&& r is Ok
                    &&& final(self).pos == SCRIPT_LEN
                    &&& final(self).stats == (SyncStats { duration_ms, ..old(self).stats })
                },
            },
    {
        match outcome {
            StepOutcome::Sent { bytes } => {
                self.stats.bytes_sent = self.stats.bytes_sent.saturating_add(bytes);
                let stay = self.pos < SCRIPT_LEN && step_at(self.role, self.pos) == SyncStep::SendRecords
                    && !self.records_done_sent;
                if !stay && self.pos < SCRIPT_LEN {
                    self.pos = self.pos + 1;
                }
                self.awaiting = Awaiting::Action;
                Ok(())
            },
            StepOutcome::Received { message, bytes } => {
                self.stats.bytes_received = self.stats.bytes_received.saturating_add(bytes);
                let step = if self.pos < SCRIPT_LEN { step_at(self.role, self.pos) } else { SyncStep::Close };
                let result = match step {
                    SyncStep::ReceiveHello => match message {
                        SyncMessage::Hello { version } => {
                            if version == PROTOCOL_VERSION {
                                Ok(())
                            } else {
                                Err(SyncError::ProtocolVersionMismatch { local: PROTOCOL_VERSION, remote: version })
                            }
                        },
                        other => Err(SyncError::UnexpectedMessage { expected: ExpectedMessage::Hello, got: other }),
                    },
                    SyncStep::ReceiveManifest => match message {
                        SyncMessage::Manifest { keys } => {
                            self.need = self.archive.missing_from(&keys);
                            Ok(())
                        },
                        other => Err(SyncError::UnexpectedMessage { expected: ExpectedMessage::Manifest, got: other }),
                    },
                    SyncStep::ReceiveNeed => match message {
                        SyncMessage::Need { keys } => {
                            self.remote_need = keys;
                            Ok(())
                        },
                        other => Err(SyncError::UnexpectedMessage { expected: ExpectedMessage::Need, got: other }),
                    },
                    SyncStep::ReceiveRecords => match message {
                        SyncMessage::Records { records } => {
                            let mut batch = records;
                            self.stats.records_received = self.stats.records_received.saturating_add(batch.len());
                            self.incoming.append(&mut batch);
                            self.awaiting = Awaiting::Action;
                            return Ok(());
                        },
                        SyncMessage::RecordsDone => Ok(()),
                        other => Err(SyncError::UnexpectedMessage { expected: ExpectedMessage::RecordsOrRecordsDone, got: other }),
                    },
                    SyncStep::ReceiveDone => match message {
                        SyncMessage::Done => Ok(()),
                        other => Err(SyncError::UnexpectedMessage { expected: ExpectedMessage::Done, got: other }),
                    },
                    _ => Ok(()),
                };
                match result {
                    Ok(()) => {
                        if self.pos < SCRIPT_LEN {
                            self.pos = self.pos + 1;
                        }
                        self.awaiting = Awaiting::Action;
                        Ok(())
                    },
                    Err(e) => {
                        self.awaiting = Awaiting::Ended;
                        Err(e)
                    },
                }
            },
            StepOutcome::Applied => {
                self.stats.records_applied = self.stats.records_applied.saturating_add(self.pending_unique);
                self.stats.records_skipped = self.stats.records_skipped.saturating_add(self.pending_skipped);
                if self.pos < SCRIPT_LEN {
                    self.pos = self.pos + 1;
                }
                self.awaiting = Awaiting::Action;
                Ok(())
            },
            StepOutcome::Closed { duration_ms } => {
                self.stats.duration_ms = duration_ms;
                self.pos = SCRIPT_LEN;
                self.awaiting = Awaiting::Action;
                Ok(())
            },
        }
    }
}

} // verus!
