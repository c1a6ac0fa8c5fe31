//! What the state machines ask of the server they run in, and what it replies.

use crate::guc::Settings;
use crate::remote::RemoteSlot;
use vstd::prelude::*;

verus! {

/// A replication slot of this server.
#[derive(Debug)]
pub struct LocalSlot {
    pub name: String,
    pub in_use: bool,
    /// The process that has the slot acquired, 0 if none has.
    pub active_pid: i32,
    /// The database of a logical slot; a physical slot has none.
    pub database: u32,
    pub restart_lsn: u64,
    pub confirmed_flush: u64,
}

/// The log and the catalog rows that a local slot holds on to.
#[derive(Debug, Clone, Copy, PartialEq, Eq, Structural)]
pub struct SlotPosition {
    pub restart_lsn: u64,
    pub catalog_xmin: u32,
}

/// How the synchronization of one slot ended.
#[derive(Debug, Clone, Copy, PartialEq, Eq, Structural)]
pub enum SlotOutcome {
    /// The server is no standby.
    NotInRecovery,
    /// The slot exists and is already ahead of the primary's.
    WouldMoveBackward,
    /// The slot is new and the primary's did not reach what could be reserved for it.
    NotCaughtUp,
    /// The slot existed and was moved forward.
    Updated,
    /// The slot is new.
    Created,
}

/// How a synchronization cycle ended.
#[derive(Debug, Clone, Copy, PartialEq, Eq, Structural)]
pub enum CycleEnd {
    /// There is no WAL receiver, or no slot is asked for.
    Skipped,
    /// `hot_standby_feedback` is off.
    FeedbackOff,
    /// `primary_slot_name` is not set.
    NoPrimarySlotName,
    /// The primary could not be reached.
    CannotConnect,
    /// The primary did not answer the query for its slots.
    FetchFailed,
    /// The primary has no slot that matches.
    NothingToDo,
    /// The primary does not know yet what this standby needs.
    FeedbackNotSent,
    /// The oldest position asked for is ahead of this standby.
    AheadOfStandby { oldest: u64, wal_end: u64 },
    /// All slots were gone through; for the first time since a cycle could not, if `resumed`.
    Synchronized { resumed: bool },
}

/// How a wait for the primary's slot ended.
#[derive(Debug, Clone, Copy, PartialEq, Eq, Structural)]
pub enum CatchupResult {
    /// The primary's slot reached the position of the local one.
    CaughtUp,
    /// The primary could not be reached.
    CannotConnect,
    /// The server was promoted.
    Promoted,
    /// The primary did not answer the query for the slot.
    FetchFailed,
    /// The primary has no slot of that name any more.
    SlotGone,
}

/// What the WAL receiver and the configuration of a standby say.
#[derive(Debug)]
pub struct StandbyStatus {
    /// The name of the slot on the primary that the WAL receiver streams from, empty where it
    /// uses none; nothing where there is no WAL receiver.
    pub wal_receiver_slot: Option<String>,
    pub hot_standby_feedback: bool,
}

/// What a state machine needs done before it can go on.
pub enum Request<'a> {
    /// Act on pending interrupts.
    CheckInterrupts,
    /// Tell whether the server is in recovery.
    CheckRecovery,
    /// Tell the values of the parameters.
    ReadSettings,
    /// Tell whether the configuration is to be read again.
    CheckReload,
    /// Read the configuration again.
    ReloadConfig,
    /// Tell about the WAL receiver.
    ReadStandbyStatus,
    /// Connect to the maintenance database of the primary.
    ConnectMaintenance { settings: &'a Settings },
    /// Connect to a database of the primary.
    ConnectDatabase { database: &'a String },
    /// Fetch the primary's slots that match the configured filters.
    FetchConfiguredSlots { settings: &'a Settings },
    /// Fetch the primary's slot of the given name.
    FetchNamedSlot { name: &'a String },
    /// Fetch the names of all logical slots of the primary, whatever the filters.
    FetchSlotNames,
    /// Fetch the position of the primary's slot of the given name.
    FetchSlotLsn { name: &'a String },
    /// Close the connection to the primary.
    Disconnect,
    /// List the replication slots of this server.
    ListLocalSlots,
    /// Drop a replication slot of this server.
    DropLocalSlot { name: &'a String },
    /// Tell the latest end of the log that the primary reported.
    ReadLatestWalEnd,
    /// Tell up to where the received log is flushed.
    ReadReceivedLsn,
    /// Start a transaction with a snapshot.
    BeginTransaction,
    /// Acquire a local slot and tell its position.
    AcquireSlot { name: &'a String },
    /// Create an ephemeral local slot, reserve log and catalog rows for it, and tell its
    /// position.
    CreateSlot { slot: &'a RemoteSlot },
    /// Move the slot in hand to the position of the given one.
    AdvanceSlot { slot: &'a RemoteSlot },
    /// Write the slot in hand to disk.
    SaveSlot,
    /// Make the slot in hand persistent.
    PersistSlot,
    /// Release the slot in hand.
    ReleaseSlot { slot: &'a RemoteSlot, outcome: SlotOutcome },
    /// Commit the transaction.
    CommitTransaction,
    /// Sleep for the interval at which the log is retrieved again. The primary's slot was
    /// found behind the position.
    WaitForRetry { found: &'a RemoteSlot, position: SlotPosition },
    /// Sleep until there is work again. Outside recovery there was no cycle. How the cycle ended
    /// is to be logged with `report`.
    SleepUntilNextCycle { ms: i64, end: Option<CycleEnd>, report: bool },
    /// Tell the name of the slot that this process streams from.
    ReadOwnSlot,
    /// Tell the current time.
    ReadClock,
    /// Sleep before the slots are looked at again.
    WaitForConfirmation { ms: i64 },
    /// Tell the time and the limit on how long a walsender may wait.
    ReadTimeout,
    /// End the process. With `timed_out`, because the standbys did not confirm in time.
    Exit { code: i32, timed_out: bool },
    /// Nothing: the machine has ended.
    Nothing,
}

/// The reply to a [`Request`].
#[derive(Debug)]
pub enum Reply {
    /// What was requested is done.
    Done,
    InRecovery(bool),
    Settings(Settings),
    ReloadPending(bool),
    StandbyStatus(StandbyStatus),
    Connected(bool),
    /// Nothing where the query failed: that shows nothing of the primary's slots.
    RemoteSlots(Option<Vec<RemoteSlot>>),
    /// Nothing where the query failed.
    SlotNames(Option<Vec<String>>),
    SlotLsn(u64),
    LocalSlots(Vec<LocalSlot>),
    LatestWalEnd(u64),
    ReceivedLsn(u64),
    Position(SlotPosition),
    Woken { postmaster_died: bool },
    OwnSlot(Option<String>),
    Time(i64),
    /// A limit of 0 or less is none. In milliseconds; the time is in microseconds.
    Timeout { limit: i32, now: i64 },
}

} // verus!
