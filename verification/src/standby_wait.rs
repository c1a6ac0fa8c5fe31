//! Physical-before-logical ordering: logical replication data is held back until the named
//! standby slots have confirmed it.

use crate::guc::{
    contains_name, get_standby_slot_names, get_standby_slots_min_confirmed, name_views, Settings,
    CONFIRM_ALL,
};
use crate::pg_compat::{
    lowest_lsn, timestamp_tz_plus_milliseconds, INVALID_OID, INVALID_XLOG_REC_PTR,
};
use crate::server::{LocalSlot, Reply, Request};
use vstd::arithmetic::power::{lemma_pow_increases, pow};
use vstd::prelude::*;

verus! {

// ---------------------------------------------------------------------------
// Messages to the subscriber
// ---------------------------------------------------------------------------

/// The shortest message with log data: its type, two positions.
pub const WAL_DATA_MIN_LEN: usize = 17;

/// The number that some bytes stand for, the most significant byte first.
pub open spec fn big_endian(bytes: Seq<u8>) -> int
    decreases bytes.len(),
{
    if bytes.len() == 0 {
        0
    } else {
        big_endian(bytes.drop_last()) * 256 + bytes.last()
    }
}

/// A copy-data message (`d`) that carries log data (`w`).
pub open spec fn is_wal_data(msgtype: u8, payload: Seq<u8>) -> bool {
    &&& msgtype == 0x64
    &&& payload.len() >= WAL_DATA_MIN_LEN
    &&& payload[0] == 0x77
}

/// A number of so many bytes is below that power of 256.
proof fn lemma_big_endian_bound(bytes: Seq<u8>)
    ensures
        0 <= big_endian(bytes) < pow(256, bytes.len()),
    decreases bytes.len(),
{
    reveal(pow);
    if bytes.len() > 0 {
        lemma_big_endian_bound(bytes.drop_last());
    }
}

/// The position of the log data in a message, if the message carries any.
pub fn wal_data_lsn(msgtype: u8, payload: &[u8]) -> (lsn: Option<u64>)
    ensures
        match lsn {
            Some(lsn) => is_wal_data(msgtype, payload@) && lsn == big_endian(
                payload@.subrange(1, 9),
            ),
            None => !is_wal_data(msgtype, payload@),
        },
{
    if msgtype != 0x64 || payload.len() < WAL_DATA_MIN_LEN || payload[0] != 0x77 {
        return None;
    }
    let mut lsn: u64 = 0;
    let mut i: usize = 1;
    while i < 9
        invariant
            1 <= i <= 9,
            payload@.len() >= 17,
            lsn == big_endian(payload@.subrange(1, i as int)),
        decreases 9 - i,
    {
        proof {
            let head = payload@.subrange(1, i as int);
            let longer = payload@.subrange(1, i + 1);
            assert(longer.drop_last() =~= head);
            assert(longer.last() == payload@[i as int]);
            lemma_big_endian_bound(head);
            lemma_pow_increases(256, head.len(), 7);
            assert(pow(256, 7) == 0x100_0000_0000_0000) by {
                reveal_with_fuel(pow, 8);
            }
        }
        lsn = lsn * 256 + payload[i] as u64;
        i = i + 1;
    }
    Some(lsn)
}

// ---------------------------------------------------------------------------
// Confirmation by the standby slots
// ---------------------------------------------------------------------------

/// How many of so many named slots must confirm, with the least number as configured.
pub open spec fn required_of(total: int, min: int) -> int {
    if min == CONFIRM_ALL {
        total
    } else if min < 0 {
        0
    } else if min < total {
        min
    } else {
        total
    }
}

/// How many of so many named slots must confirm.
fn count_required(total: usize, min: i32) -> (required: usize)
    ensures
        required == required_of(total as int, min as int),
{
    if min == CONFIRM_ALL {
        total
    } else if min < 0 {
        0
    } else if (min as usize) < total {
        min as usize
    } else {
        total
    }
}

/// How many of the named slots must confirm.
pub open spec fn required_confirmations(settings: Settings) -> int {
    required_of(
        settings.standby_names().len() as int,
        settings.standby_slots_min_confirmed as int,
    )
}

/// A slot in use that is one of the named ones.
pub open spec fn is_named(slot: LocalSlot, names: Seq<Seq<char>>) -> bool {
    slot.in_use && names.contains(slot.name@)
}

/// Up to where the client of a slot has the log: a physical slot holds on to what is not
/// flushed, a logical slot knows what was confirmed.
pub open spec fn flush_position(slot: LocalSlot) -> u64 {
    if slot.database == INVALID_OID {
        slot.restart_lsn
    } else {
        slot.confirmed_flush
    }
}

/// The flush positions of the named slots, in the order of the slots.
pub open spec fn named_positions(slots: Seq<LocalSlot>, names: Seq<Seq<char>>) -> Seq<u64>
    decreases slots.len(),
{
    if slots.len() == 0 {
        Seq::empty()
    } else {
        let before = named_positions(slots.drop_last(), names);
        if is_named(slots.last(), names) {
            before.push(flush_position(slots.last()))
        } else {
            before
        }
    }
}

/// How many positions are at or past the given one.
pub open spec fn count_reached(positions: Seq<u64>, lsn: u64) -> int
    decreases positions.len(),
{
    if positions.len() == 0 {
        0
    } else {
        count_reached(positions.drop_last(), lsn) + if positions.last() >= lsn {
            1int
        } else {
            0
        }
    }
}

/// There are no more confirmations than positions.
pub proof fn lemma_count_reached_bound(positions: Seq<u64>, lsn: u64)
    ensures
        0 <= count_reached(positions, lsn) <= positions.len(),
    decreases positions.len(),
{
    if positions.len() > 0 {
        lemma_count_reached_bound(positions.drop_last(), lsn);
    }
}

/// What the named slots have confirmed.
pub struct Tally {
    /// How many of them are at or past the position asked for.
    pub confirmed: usize,
    /// The lowest of their positions, invalid where there is no such slot.
    pub lowest: u64,
}

/// Look at all slots for what the named ones have confirmed.
pub fn tally_confirmations(slots: &Vec<LocalSlot>, names: &Vec<String>, commit_lsn: u64) -> (tally:
    Tally)
    ensures
        tally.confirmed == count_reached(
            named_positions(slots@, name_views(names@)),
            commit_lsn,
        ),
        tally.lowest == lowest_lsn(named_positions(slots@, name_views(names@))),
{
    let ghost wanted = name_views(names@);
    let mut confirmed: usize = 0;
    let mut found: bool = false;
    let mut lowest: u64 = INVALID_XLOG_REC_PTR;
    let mut i: usize = 0;
    while i < slots.len()
        invariant
            i <= slots@.len(),
            wanted == name_views(names@),
            confirmed <= i,
            confirmed == count_reached(
                named_positions(slots@.take(i as int), wanted),
                commit_lsn,
            ),
            found == (named_positions(slots@.take(i as int), wanted).len() > 0),
            lowest == lowest_lsn(named_positions(slots@.take(i as int), wanted)),
        decreases slots@.len() - i,
    {
        let ghost before = named_positions(slots@.take(i as int), wanted);
        let s: &LocalSlot = &slots[i];
        proof {
            assert(slots@.take(i + 1).drop_last() =~= slots@.take(i as int));
            assert(slots@.take(i + 1).last() == *s);
            assert(before.push(flush_position(*s)).drop_last() =~= before);
        }
        if s.in_use && contains_name(names, &s.name) {
            let flush_pos: u64 = if s.database == INVALID_OID {
                s.restart_lsn
            } else {
                s.confirmed_flush
            };
            if !found || flush_pos < lowest {
                lowest = flush_pos;
            }
            found = true;
            if flush_pos >= commit_lsn {
                confirmed = confirmed + 1;
            }
        }
        i = i + 1;
    }
    assert(slots@.take(slots@.len() as int) =~= slots@);
    Tally { confirmed, lowest }
}

/// A slot in use of that name has flushed past a position.
pub open spec fn has_flushed(slots: Seq<LocalSlot>, name: Seq<char>, lsn: u64) -> bool {
    exists|i: int|
        0 <= i < slots.len() && (#[trigger] slots[i]).in_use && slots[i].name@ == name
            && flush_position(slots[i]) >= lsn
}

/// Whether a slot in use of that name has flushed past a position.
fn flushed(slots: &Vec<LocalSlot>, name: &String, lsn: u64) -> (flushed: bool)
    ensures
        flushed == has_flushed(slots@, name@, lsn),
{
    let mut i: usize = 0;
    while i < slots.len()
        invariant
            i <= slots@.len(),
            forall|j: int|
                0 <= j < i ==> !((#[trigger] slots@[j]).in_use && slots@[j].name@ == name@
                    && flush_position(slots@[j]) >= lsn),
        decreases slots@.len() - i,
    {
        let s: &LocalSlot = &slots[i];
        let flush_pos: u64 = if s.database == INVALID_OID {
            s.restart_lsn
        } else {
            s.confirmed_flush
        };
        if s.in_use && s.name == *name && flush_pos >= lsn {
            return true;
        }
        i = i + 1;
    }
    false
}

/// Every one of the named slots is there and has flushed past a position.
pub open spec fn all_flushed(slots: Seq<LocalSlot>, names: Seq<Seq<char>>, lsn: u64) -> bool {
    forall|n: Seq<char>| #[trigger] names.contains(n) ==> has_flushed(slots, n, lsn)
}

/// Whether every one of the named slots has flushed past a position.
fn have_all_flushed(slots: &Vec<LocalSlot>, names: &Vec<String>, lsn: u64) -> (all: bool)
    ensures
        all == all_flushed(slots@, name_views(names@), lsn),
{
    let mut i: usize = 0;
    while i < names.len()
        invariant
            i <= names@.len(),
            forall|j: int| 0 <= j < i ==> has_flushed(slots@, (#[trigger] names@[j])@, lsn),
        decreases names@.len() - i,
    {
        if !flushed(slots, &names[i], lsn) {
            assert(name_views(names@)[i as int] == names@[i as int]@);
            assert(name_views(names@).contains(names@[i as int]@));
            return false;
        }
        i = i + 1;
    }
    assert forall|n: Seq<char>| #[trigger] name_views(names@).contains(n) implies has_flushed(
        slots@,
        n,
        lsn,
    ) by {
        let j = choose|j: int| 0 <= j < name_views(names@).len() && name_views(names@)[j] == n;
        assert(names@[j]@ == n);
    }
    true
}

/// The slots show what is asked of them for a position: as many of the named ones as must have
/// flushed past it, or all of them.
pub open spec fn enough_flushed(
    slots: Seq<LocalSlot>,
    names: Seq<Seq<char>>,
    required: int,
    lsn: u64,
) -> bool {
    ||| count_reached(named_positions(slots, names), lsn) >= required
    ||| all_flushed(slots, names, lsn)
}

// ---------------------------------------------------------------------------
// What is known from earlier messages
// ---------------------------------------------------------------------------

/// What is known of the slots from the messages that they confirmed.
#[derive(Debug)]
pub struct KnownFlush {
    /// The highest position that all the slots named at one time had flushed past.
    pub lsn: u64,
    /// All slots as they were seen when the last message was confirmed.
    pub slots: Vec<LocalSlot>,
}

impl KnownFlush {
    /// Nothing is known yet.
    pub open spec fn is_nothing(self) -> bool {
        self.lsn == INVALID_XLOG_REC_PTR && self.slots@.len() == 0
    }

    /// Nothing is known yet.
    pub fn nothing() -> (known: KnownFlush)
        ensures
            known.is_nothing(),
    {
        KnownFlush { lsn: INVALID_XLOG_REC_PTR, slots: Vec::new() }
    }

    /// The slots showed for a position what is asked of those that are named now.
    pub open spec fn shows(self, settings: Settings, lsn: u64) -> bool {
        enough_flushed(
            self.slots@,
            settings.standby_names(),
            required_confirmations(settings),
            lsn,
        )
    }

    /// Whether the slots showed for a position what is asked of those that are named now.
    pub fn covers(&self, settings: &Settings, lsn: u64) -> (covers: bool)
        ensures
            covers == self.shows(*settings, lsn),
    {
        let names: Vec<String> = get_standby_slot_names(settings);
        assert(name_views(names@).len() == names@.len());
        let required: usize = count_required(
            names.len(),
            get_standby_slots_min_confirmed(settings),
        );
        tally_confirmations(&self.slots, &names, lsn).confirmed >= required || have_all_flushed(
            &self.slots,
            &names,
            lsn,
        )
    }

    /// What is known once the slots were seen to confirm a message, with `lowest` as the lowest
    /// position of the named ones.
    pub open spec fn learned(self, slots: Vec<LocalSlot>, lowest: u64) -> KnownFlush {
        KnownFlush {
            lsn: if self.lsn < lowest {
                lowest
            } else {
                self.lsn
            },
            slots,
        }
    }
}

/// There is no need to wait: this process streams from one of the named slots itself, no
/// confirmation is asked for, there is no position to confirm, or the known position is past it
/// and the slots showed what is asked of those that are named now.
pub open spec fn can_skip(
    settings: Settings,
    own_slot: Option<String>,
    known: KnownFlush,
    commit_lsn: u64,
) -> bool {
    ||| (own_slot matches Some(name) && settings.standby_names().contains(name@))
    ||| settings.standby_slots_min_confirmed == 0
    ||| settings.standby_names().len() == 0
    ||| commit_lsn == INVALID_XLOG_REC_PTR
    ||| known.lsn >= commit_lsn && known.shows(settings, commit_lsn)
}

/// Check if we can skip waiting for standby slot confirmation.
pub fn skip_standby_slot_names(
    settings: &Settings,
    own_slot: &Option<String>,
    known: &KnownFlush,
    commit_lsn: u64,
) -> (skip: bool)
    ensures
        skip == can_skip(*settings, *own_slot, *known, commit_lsn),
{
    let names: Vec<String> = get_standby_slot_names(settings);
    let min_confirmed: i32 = get_standby_slots_min_confirmed(settings);
    assert(name_views(names@).len() == names@.len());
    match own_slot {
        Some(name) => {
            if contains_name(&names, name) {
                return true;
            }
        },
        None => {},
    }
    min_confirmed == 0 || names.len() == 0 || commit_lsn == INVALID_XLOG_REC_PTR || (known.lsn
        >= commit_lsn && known.covers(settings, commit_lsn))
}

// ---------------------------------------------------------------------------
// The wait before a message is sent
// ---------------------------------------------------------------------------

/// Milliseconds between two looks at the slots.
pub const CONFIRMATION_POLL_MS: i64 = 100;

/// Why a message may be sent.
#[derive(Debug, Clone, Copy, PartialEq, Eq, Structural)]
pub enum WaitEnd {
    /// There was no need to wait.
    Skipped,
    /// No confirmation is asked for any more.
    NothingRequired,
    /// Enough of the named slots have confirmed.
    Confirmed,
}

/// Where a [`ConfirmationWait`] stands. With `again`, the configuration was read again while
/// waiting.
pub enum ConfirmationPhase {
    ReadSettings { again: bool },
    ReadOwnSlot { again: bool, settings: Settings },
    ReadClock,
    /// How many slots must confirm?
    Configure,
    /// Have they confirmed?
    Scan { settings: Settings },
    Sleep,
    CheckInterrupts,
    ReadTimeout,
    CheckReload,
    Reload,
    Finished { end: WaitEnd },
    Exit { code: i32, timed_out: bool },
}

/// Waits until the named standby slots have flushed past a position.
pub struct ConfirmationWait {
    /// The position.
    pub commit_lsn: u64,
    /// What is known of the standbys, from earlier waits too.
    pub known: KnownFlush,
    /// When the wait began, once the clock was read.
    pub wait_start: i64,
    pub phase: ConfirmationPhase,
}

/// A wait that began at `start` has gone on for longer than `limit` milliseconds. A limit of 0
/// or less is none.
pub open spec fn is_timed_out(start: i64, limit: i32, now: i64) -> bool {
    limit > 0 && now > start + limit * 1000
}

/// Whether a wait has gone on for too long.
pub fn timed_out(start: i64, limit: i32, now: i64) -> (timed_out: bool)
    ensures
        timed_out == is_timed_out(start, limit, now),
{
    if limit <= 0 {
        return false;
    }
    let limit_us: i64 = limit as i64 * 1000;
    if start > i64::MAX - limit_us {
        return false;
    }
    now > timestamp_tz_plus_milliseconds(start, limit as i64)
}

impl ConfirmationWait {
    /// Start to wait for a position.
    pub open spec fn starting(commit_lsn: u64, known: KnownFlush) -> ConfirmationWait {
        ConfirmationWait {
            commit_lsn,
            known,
            wait_start: 0,
            phase: ConfirmationPhase::ReadSettings { again: false },
        }
    }

    /// Start to wait for a position.
    pub fn start(commit_lsn: u64, known: KnownFlush) -> (wait: ConfirmationWait)
        ensures
            wait == ConfirmationWait::starting(commit_lsn, known),
    {
        ConfirmationWait {
            commit_lsn,
            known,
            wait_start: 0,
            phase: ConfirmationPhase::ReadSettings { again: false },
        }
    }

    /// What the wait needs next.
    pub open spec fn pending(&self) -> Request<'_> {
        match self.phase {
            ConfirmationPhase::ReadSettings { .. } => Request::ReadSettings,
            ConfirmationPhase::ReadOwnSlot { .. } => Request::ReadOwnSlot,
            ConfirmationPhase::ReadClock => Request::ReadClock,
            ConfirmationPhase::Configure => Request::ReadSettings,
            ConfirmationPhase::Scan { .. } => Request::ListLocalSlots,
            ConfirmationPhase::Sleep => Request::WaitForConfirmation { ms: CONFIRMATION_POLL_MS },
            ConfirmationPhase::CheckInterrupts => Request::CheckInterrupts,
            ConfirmationPhase::ReadTimeout => Request::ReadTimeout,
            ConfirmationPhase::CheckReload => Request::CheckReload,
            ConfirmationPhase::Reload => Request::ReloadConfig,
            ConfirmationPhase::Finished { .. } => Request::Nothing,
            ConfirmationPhase::Exit { code, timed_out } => Request::Exit { code, timed_out },
        }
    }

    /// What the wait needs next.
    pub fn request(&self) -> (request: Request<'_>)
        ensures
            request == self.pending(),
    {
        match &self.phase {
            ConfirmationPhase::ReadSettings { .. } => Request::ReadSettings,
            ConfirmationPhase::ReadOwnSlot { .. } => Request::ReadOwnSlot,
            ConfirmationPhase::ReadClock => Request::ReadClock,
            ConfirmationPhase::Configure => Request::ReadSettings,
            ConfirmationPhase::Scan { .. } => Request::ListLocalSlots,
            ConfirmationPhase::Sleep => Request::WaitForConfirmation { ms: CONFIRMATION_POLL_MS },
            ConfirmationPhase::CheckInterrupts => Request::CheckInterrupts,
            ConfirmationPhase::ReadTimeout => Request::ReadTimeout,
            ConfirmationPhase::CheckReload => Request::CheckReload,
            ConfirmationPhase::Reload => Request::ReloadConfig,
            ConfirmationPhase::Finished { .. } => Request::Nothing,
            ConfirmationPhase::Exit { code, timed_out } => Request::Exit {
                code: *code,
                timed_out: *timed_out,
            },
        }
    }

    /// The wait when it is known what the slots have confirmed: over once enough of them have,
    /// which is remembered for later messages.
    pub open spec fn tallied(self, settings: Settings, slots: Vec<LocalSlot>) -> ConfirmationWait {
        let positions = named_positions(slots@, settings.standby_names());
        if count_reached(positions, self.commit_lsn) >= required_confirmations(settings) {
            ConfirmationWait {
                known: self.known.learned(slots, lowest_lsn(positions)),
                phase: ConfirmationPhase::Finished { end: WaitEnd::Confirmed },
                ..self
            }
        } else {
            ConfirmationWait { phase: ConfirmationPhase::Sleep, ..self }
        }
    }

    /// The wait after a reply. A reply that does not answer what is pending changes nothing.
    pub open spec fn next(self, reply: Reply) -> ConfirmationWait {
        match (self.phase, reply) {
            (ConfirmationPhase::ReadSettings { again }, Reply::Settings(settings)) =>
            ConfirmationWait { phase: ConfirmationPhase::ReadOwnSlot { again, settings }, ..self },
            (
                ConfirmationPhase::ReadOwnSlot { again, settings },
                Reply::OwnSlot(own_slot),
            ) => ConfirmationWait {
                phase: if can_skip(settings, own_slot, self.known, self.commit_lsn) {
                    ConfirmationPhase::Finished { end: WaitEnd::Skipped }
                } else if again {
                    ConfirmationPhase::Configure
                } else {
                    ConfirmationPhase::ReadClock
                },
                ..self
            },
            (ConfirmationPhase::ReadClock, Reply::Time(now)) => ConfirmationWait {
                wait_start: now,
                phase: ConfirmationPhase::Configure,
                ..self
            },
            (ConfirmationPhase::Configure, Reply::Settings(settings)) => ConfirmationWait {
                phase: if required_confirmations(settings) == 0 {
                    ConfirmationPhase::Finished { end: WaitEnd::NothingRequired }
                } else {
                    ConfirmationPhase::Scan { settings }
                },
                ..self
            },
            (ConfirmationPhase::Scan { settings }, Reply::LocalSlots(slots)) => self.tallied(
                settings,
                slots,
            ),
            (ConfirmationPhase::Sleep, Reply::Woken { postmaster_died }) => ConfirmationWait {
                phase: if postmaster_died {
                    ConfirmationPhase::Exit { code: 1, timed_out: false }
                } else {
                    ConfirmationPhase::CheckInterrupts
                },
                ..self
            },
            (ConfirmationPhase::CheckInterrupts, Reply::Done) => ConfirmationWait {
                phase: ConfirmationPhase::ReadTimeout,
                ..self
            },
            (ConfirmationPhase::ReadTimeout, Reply::Timeout { limit, now }) => ConfirmationWait {
                phase: if is_timed_out(self.wait_start, limit, now) {
                    ConfirmationPhase::Exit { code: 0, timed_out: true }
                } else {
                    ConfirmationPhase::CheckReload
                },
                ..self
            },
            (ConfirmationPhase::CheckReload, Reply::ReloadPending(pending)) => ConfirmationWait {
                phase: if pending {
                    ConfirmationPhase::Reload
                } else {
                    ConfirmationPhase::Configure
                },
                ..self
            },
            (ConfirmationPhase::Reload, Reply::Done) => ConfirmationWait {
                phase: ConfirmationPhase::ReadSettings { again: true },
                ..self
            },
            _ => self,
        }
    }
}

/// Go on with a wait for the standby slots.
pub fn wait_for_standby_confirmation(wait: ConfirmationWait, reply: Reply) -> (after:
    ConfirmationWait)
    ensures
        after == wait.next(reply),
{
    let ConfirmationWait { commit_lsn, mut known, mut wait_start, phase } = wait;
    let phase: ConfirmationPhase = match (phase, reply) {
        (ConfirmationPhase::ReadSettings { again }, Reply::Settings(settings)) =>
        ConfirmationPhase::ReadOwnSlot { again, settings },
        (ConfirmationPhase::ReadOwnSlot { again, settings }, Reply::OwnSlot(own_slot)) => {
            if skip_standby_slot_names(&settings, &own_slot, &known, commit_lsn) {
                ConfirmationPhase::Finished { end: WaitEnd::Skipped }
            } else if again {
                ConfirmationPhase::Configure
            } else {
                ConfirmationPhase::ReadClock
            }
        },
        (ConfirmationPhase::ReadClock, Reply::Time(now)) => {
            wait_start = now;
            ConfirmationPhase::Configure
        },
        (ConfirmationPhase::Configure, Reply::Settings(settings)) => {
            let names: Vec<String> = get_standby_slot_names(&settings);
            assert(name_views(names@).len() == names@.len());
            if count_required(names.len(), get_standby_slots_min_confirmed(&settings)) == 0 {
                ConfirmationPhase::Finished { end: WaitEnd::NothingRequired }
            } else {
                ConfirmationPhase::Scan { settings }
            }
        },
        (ConfirmationPhase::Scan { settings }, Reply::LocalSlots(slots)) => {
            let names: Vec<String> = get_standby_slot_names(&settings);
            assert(name_views(names@).len() == names@.len());
            let required: usize = count_required(
                names.len(),
                get_standby_slots_min_confirmed(&settings),
            );
            let tally: Tally = tally_confirmations(&slots, &names, commit_lsn);
            if tally.confirmed >= required {
                let lsn: u64 = if known.lsn < tally.lowest {
                    tally.lowest
                } else {
                    known.lsn
                };
                known = KnownFlush { lsn, slots };
                ConfirmationPhase::Finished { end: WaitEnd::Confirmed }
            } else {
                ConfirmationPhase::Sleep
            }
        },
        (ConfirmationPhase::Sleep, Reply::Woken { postmaster_died }) => if postmaster_died {
            ConfirmationPhase::Exit { code: 1, timed_out: false }
        } else {
            ConfirmationPhase::CheckInterrupts
        },
        (ConfirmationPhase::CheckInterrupts, Reply::Done) => ConfirmationPhase::ReadTimeout,
        (ConfirmationPhase::ReadTimeout, Reply::Timeout { limit, now }) => if timed_out(
            wait_start,
            limit,
            now,
        ) {
            ConfirmationPhase::Exit { code: 0, timed_out: true }
        } else {
            ConfirmationPhase::CheckReload
        },
        (ConfirmationPhase::CheckReload, Reply::ReloadPending(pending)) => if pending {
            ConfirmationPhase::Reload
        } else {
            ConfirmationPhase::Configure
        },
        (ConfirmationPhase::Reload, Reply::Done) => ConfirmationPhase::ReadSettings {
            again: true,
        },
        (phase, _) => phase,
    };
    ConfirmationWait { commit_lsn, known, wait_start, phase }
}

/// What becomes of a message.
pub enum Outgoing {
    /// It is held back until the wait is over.
    Hold(ConfirmationWait),
    /// It is sent at once, and what is known stays.
    Send(KnownFlush),
}

/// Decide what becomes of a message: it is held back exactly if it carries log data.
pub fn shim_putmessage_noblock(msgtype: u8, payload: &[u8], known: KnownFlush) -> (outgoing:
    Outgoing)
    ensures
        match outgoing {
            Outgoing::Hold(wait) => {
                &&& is_wal_data(msgtype, payload@)
                &&& wait.commit_lsn == big_endian(payload@.subrange(1, 9))
                &&& wait == ConfirmationWait::starting(wait.commit_lsn, known)
            },
            Outgoing::Send(same) => !is_wal_data(msgtype, payload@) && same == known,
        },
{
    match wal_data_lsn(msgtype, payload) {
        Some(lsn) => Outgoing::Hold(ConfirmationWait::start(lsn, known)),
        None => Outgoing::Send(known),
    }
}

} // verus!
