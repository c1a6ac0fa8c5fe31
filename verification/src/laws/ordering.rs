//! Physical-before-logical ordering.

use crate::guc::{Settings, CONFIRM_ALL};
use crate::laws::slots::names_are_unique;
use crate::pg_compat::{lowest_lsn, lowest_lsn_is_minimum, INVALID_XLOG_REC_PTR};
use crate::server::{LocalSlot, Reply, Request};
use crate::standby_wait::{
    all_flushed, can_skip, count_reached, enough_flushed, flush_position, has_flushed, is_named,
    lemma_count_reached_bound, named_positions, required_confirmations, ConfirmationPhase,
    ConfirmationWait, KnownFlush, WaitEnd,
};
use vstd::prelude::*;
use vstd::seq_lib::seq_to_set_is_finite;
use vstd::set_lib::{lemma_len_subset, lemma_subset_equality};

verus! {

/// A wait after a series of replies.
pub open spec fn confirmation_run(wait: ConfirmationWait, replies: Seq<Reply>) -> ConfirmationWait
    decreases replies.len(),
{
    if replies.len() == 0 {
        wait
    } else {
        confirmation_run(wait, replies.drop_last()).next(replies.last())
    }
}

// ---------------------------------------------------------------------------
// When a message may be sent
// ---------------------------------------------------------------------------

/// The reply gives a reason to send the message.
pub open spec fn may_send(wait: ConfirmationWait, reply: Reply) -> bool {
    match (wait.phase, reply) {
        (ConfirmationPhase::ReadOwnSlot { settings, .. }, Reply::OwnSlot(own_slot)) => can_skip(
            settings,
            own_slot,
            wait.known,
            wait.commit_lsn,
        ),
        (ConfirmationPhase::Configure, Reply::Settings(settings)) => required_confirmations(
            settings,
        ) == 0,
        (ConfirmationPhase::Scan { settings }, Reply::LocalSlots(slots)) => count_reached(
            named_positions(slots@, settings.standby_names()),
            wait.commit_lsn,
        ) >= required_confirmations(settings),
        _ => false,
    }
}

/// A message is sent exactly when there is a reason: there is no need to wait, no confirmation
/// is asked for any more, or as many of the named slots as must have flushed past its position.
pub proof fn message_is_sent_only_with_reason(wait: ConfirmationWait, reply: Reply)
    requires
        wait.phase !is Finished,
    ensures
        wait.next(reply).phase is Finished <==> may_send(wait, reply),
{
}

/// A wait stays at its position, and the known position never shrinks.
pub proof fn known_flush_never_shrinks(wait: ConfirmationWait, replies: Seq<Reply>)
    ensures
        confirmation_run(wait, replies).commit_lsn == wait.commit_lsn,
        confirmation_run(wait, replies).known.lsn >= wait.known.lsn,
    decreases replies.len(),
{
    if replies.len() > 0 {
        known_flush_never_shrinks(wait, replies.drop_last());
    }
}

/// Where no slot is named, or none must confirm, messages are never held back.
pub proof fn nothing_is_held_back_where_disabled(
    wait: ConfirmationWait,
    settings: Settings,
    again: bool,
    own_slot: Option<String>,
)
    requires
        wait.phase == (ConfirmationPhase::ReadOwnSlot { again, settings }),
        settings.standby_slots_min_confirmed == 0 || settings.standby_names().len() == 0,
    ensures
        wait.next(Reply::OwnSlot(own_slot)).phase == (ConfirmationPhase::Finished {
            end: WaitEnd::Skipped,
        }),
{
}

/// A process that streams from one of the named slots does not wait, for it would wait for
/// itself.
pub proof fn own_slot_is_not_waited_for(
    wait: ConfirmationWait,
    settings: Settings,
    again: bool,
    own_slot: String,
)
    requires
        wait.phase == (ConfirmationPhase::ReadOwnSlot { again, settings }),
        settings.standby_names().contains(own_slot@),
    ensures
        wait.next(Reply::OwnSlot(Some(own_slot))).phase == (ConfirmationPhase::Finished {
            end: WaitEnd::Skipped,
        }),
{
}

/// The process gives up only if there is a limit and the wait has gone on for longer.
pub proof fn wait_times_out_only_past_limit(wait: ConfirmationWait, reply: Reply)
    requires
        wait.phase !is Exit,
    ensures
        wait.next(reply).pending() == (Request::Exit { code: 0, timed_out: true }) <==> {
            &&& wait.phase is ReadTimeout
            &&& reply matches Reply::Timeout { limit, now } && limit > 0 && now > wait.wait_start
                + limit * 1000
        },
{
}

// ---------------------------------------------------------------------------
// What a confirmation means
// ---------------------------------------------------------------------------

/// The names of the named slots that have flushed past a position.
spec fn confirmed_names(slots: Seq<LocalSlot>, names: Seq<Seq<char>>, lsn: u64) -> Set<Seq<char>>
    decreases slots.len(),
{
    if slots.len() == 0 {
        Set::empty()
    } else {
        let before = confirmed_names(slots.drop_last(), names, lsn);
        if is_named(slots.last(), names) && flush_position(slots.last()) >= lsn {
            before.insert(slots.last().name@)
        } else {
            before
        }
    }
}

proof fn lemma_confirmed_names(slots: Seq<LocalSlot>, names: Seq<Seq<char>>, lsn: u64)
    requires
        names_are_unique(slots),
    ensures
        confirmed_names(slots, names, lsn).finite(),
        confirmed_names(slots, names, lsn).len() == count_reached(
            named_positions(slots, names),
            lsn,
        ),
        forall|n: Seq<char>| #[trigger]
            confirmed_names(slots, names, lsn).contains(n) ==> names.contains(n) && has_flushed(
                slots,
                n,
                lsn,
            ),
    decreases slots.len(),
{
    if slots.len() > 0 {
        let head = slots.drop_last();
        let last = slots.last();
        assert(names_are_unique(head)) by {
            assert forall|i: int, j: int|
                0 <= i < j < head.len() && (#[trigger] head[i]).in_use && (
                #[trigger] head[j]).in_use implies head[i].name@ != head[j].name@ by {
                assert(head[i] == slots[i] && head[j] == slots[j]);
            }
        }
        lemma_confirmed_names(head, names, lsn);
        let before = confirmed_names(head, names, lsn);
        let positions = named_positions(head, names);
        assert(positions.push(flush_position(last)).drop_last() =~= positions);
        if is_named(last, names) {
            assert(!before.contains(last.name@)) by {
                if before.contains(last.name@) {
                    let i = choose|i: int|
                        0 <= i < head.len() && (#[trigger] head[i]).in_use && head[i].name@
                            == last.name@ && flush_position(head[i]) >= lsn;
                    assert(slots[i] == head[i] && slots[slots.len() - 1] == last);
                }
            }
        }
        assert forall|n: Seq<char>| #[trigger]
            confirmed_names(slots, names, lsn).contains(n) implies names.contains(n) && has_flushed(
            slots,
            n,
            lsn,
        ) by {
            if before.contains(n) {
                let i = choose|i: int|
                    0 <= i < head.len() && (#[trigger] head[i]).in_use && head[i].name@ == n
                        && flush_position(head[i]) >= lsn;
                assert(slots[i] == head[i]);
            } else {
                assert(slots[slots.len() - 1] == last);
            }
        }
    }
}

/// As many confirmations as there are names come from all of the named slots: each one is there
/// and has flushed past the position.
pub proof fn all_confirmations_mean_all_flushed(
    slots: Seq<LocalSlot>,
    names: Seq<Seq<char>>,
    lsn: u64,
)
    requires
        names_are_unique(slots),
        count_reached(named_positions(slots, names), lsn) >= names.len(),
    ensures
        all_flushed(slots, names, lsn),
{
    lemma_confirmed_names(slots, names, lsn);
    let confirmed = confirmed_names(slots, names, lsn);
    seq_to_set_is_finite(names);
    names.lemma_cardinality_of_set();
    assert(confirmed.subset_of(names.to_set()));
    lemma_len_subset(confirmed, names.to_set());
    lemma_subset_equality(confirmed, names.to_set());
    assert forall|n: Seq<char>| #[trigger] names.contains(n) implies has_flushed(slots, n, lsn) by {
        assert(names.to_set().contains(n));
    }
}

/// So many confirmations come from so many different named slots, each of which is there and has
/// flushed past the position.
pub proof fn confirmations_are_of_different_standbys(
    slots: Seq<LocalSlot>,
    names: Seq<Seq<char>>,
    lsn: u64,
) -> (confirmed: Set<Seq<char>>)
    requires
        names_are_unique(slots),
    ensures
        confirmed.finite(),
        confirmed.len() == count_reached(named_positions(slots, names), lsn),
        forall|n: Seq<char>| #[trigger]
            confirmed.contains(n) ==> names.contains(n) && has_flushed(slots, n, lsn),
{
    lemma_confirmed_names(slots, names, lsn);
    confirmed_names(slots, names, lsn)
}

/// Where all named slots must confirm, a message that is sent because they did is sent only
/// when every one of them has flushed past its position: the standbys have the log before the
/// subscriber sees it.
pub proof fn confirmed_message_is_on_all_standbys(
    wait: ConfirmationWait,
    settings: Settings,
    slots: Vec<LocalSlot>,
)
    requires
        wait.phase == (ConfirmationPhase::Scan { settings }),
        settings.standby_slots_min_confirmed == CONFIRM_ALL,
        names_are_unique(slots@),
        wait.next(Reply::LocalSlots(slots)).phase is Finished,
    ensures
        all_flushed(slots@, settings.standby_names(), wait.commit_lsn),
{
    all_confirmations_mean_all_flushed(slots@, settings.standby_names(), wait.commit_lsn);
}

// ---------------------------------------------------------------------------
// What is remembered for later messages
// ---------------------------------------------------------------------------

proof fn lemma_named_positions_sources(slots: Seq<LocalSlot>, names: Seq<Seq<char>>)
    ensures
        forall|i: int|
            0 <= i < slots.len() && is_named(#[trigger] slots[i], names) ==> named_positions(
                slots,
                names,
            ).contains(flush_position(slots[i])),
    decreases slots.len(),
{
    if slots.len() > 0 {
        let head = slots.drop_last();
        lemma_named_positions_sources(head, names);
        let before = named_positions(head, names);
        let all = named_positions(slots, names);
        assert forall|i: int|
            0 <= i < slots.len() && is_named(#[trigger] slots[i], names) implies all.contains(
            flush_position(slots[i]),
        ) by {
            if i < head.len() {
                assert(head[i] == slots[i]);
                let j = choose|j: int|
                    0 <= j < before.len() && before[j] == flush_position(slots[i]);
                assert(all[j] == before[j]);
            } else {
                assert(all[all.len() - 1] == flush_position(slots[i]));
            }
        }
    }
}

/// Every named slot has flushed past the lowest of their positions.
pub proof fn lowest_position_is_flushed_by_all(slots: Seq<LocalSlot>, names: Seq<Seq<char>>)
    ensures
        forall|i: int|
            0 <= i < slots.len() && is_named(#[trigger] slots[i], names) ==> flush_position(
                slots[i],
            ) >= lowest_lsn(named_positions(slots, names)),
{
    let positions = named_positions(slots, names);
    lemma_named_positions_sources(slots, names);
    assert forall|i: int|
        0 <= i < slots.len() && is_named(#[trigger] slots[i], names) implies flush_position(
        slots[i],
    ) >= lowest_lsn(positions) by {
        let j = choose|j: int| 0 <= j < positions.len() && positions[j] == flush_position(slots[i]);
        lowest_lsn_is_minimum(positions);
        assert(lowest_lsn(positions) <= positions[j]);
    }
}

proof fn lemma_count_all(positions: Seq<u64>)
    ensures
        count_reached(positions, 0) == positions.len(),
    decreases positions.len(),
{
    if positions.len() > 0 {
        lemma_count_all(positions.drop_last());
    }
}

proof fn lemma_count_full(positions: Seq<u64>, lsn: u64)
    requires
        count_reached(positions, lsn) >= positions.len(),
    ensures
        forall|i: int| 0 <= i < positions.len() ==> positions[i] >= lsn,
    decreases positions.len(),
{
    if positions.len() > 0 {
        let head = positions.drop_last();
        lemma_count_reached_bound(head, lsn);
        lemma_count_full(head, lsn);
        assert forall|i: int| 0 <= i < positions.len() implies positions[i] >= lsn by {
            if i < head.len() {
                assert(head[i] == positions[i]);
            }
        }
    }
}

/// With as many confirmations as names, there is no named slot that has not confirmed.
proof fn lemma_all_positions_reached(slots: Seq<LocalSlot>, names: Seq<Seq<char>>, lsn: u64)
    requires
        names_are_unique(slots),
        count_reached(named_positions(slots, names), lsn) >= names.len(),
    ensures
        forall|i: int|
            0 <= i < named_positions(slots, names).len() ==> named_positions(slots, names)[i]
                >= lsn,
{
    let positions = named_positions(slots, names);
    lemma_confirmed_names(slots, names, 0);
    lemma_count_all(positions);
    seq_to_set_is_finite(names);
    names.lemma_cardinality_of_set();
    assert(confirmed_names(slots, names, 0).subset_of(names.to_set()));
    lemma_len_subset(confirmed_names(slots, names, 0), names.to_set());
    lemma_count_full(positions, lsn);
}

proof fn lemma_count_weaker(positions: Seq<u64>, lsn: u64, earlier: u64)
    requires
        earlier <= lsn,
    ensures
        count_reached(positions, lsn) <= count_reached(positions, earlier),
    decreases positions.len(),
{
    if positions.len() > 0 {
        lemma_count_weaker(positions.drop_last(), lsn, earlier);
    }
}

proof fn lemma_count_minimum(positions: Seq<u64>, lsn: u64)
    requires
        forall|i: int| 0 <= i < positions.len() ==> positions[i] >= lsn,
    ensures
        count_reached(positions, lsn) == positions.len(),
    decreases positions.len(),
{
    if positions.len() > 0 {
        let head = positions.drop_last();
        assert forall|i: int| 0 <= i < head.len() implies head[i] >= lsn by {
            assert(head[i] == positions[i]);
        }
        lemma_count_minimum(head, lsn);
    }
}

proof fn lemma_all_flushed_weaker(
    slots: Seq<LocalSlot>,
    names: Seq<Seq<char>>,
    lsn: u64,
    fewer: Seq<Seq<char>>,
    earlier: u64,
)
    requires
        all_flushed(slots, names, lsn),
        forall|n: Seq<char>| #[trigger] fewer.contains(n) ==> names.contains(n),
        earlier <= lsn,
    ensures
        all_flushed(slots, fewer, earlier),
{
    assert forall|n: Seq<char>| #[trigger] fewer.contains(n) implies has_flushed(
        slots,
        n,
        earlier,
    ) by {
        assert(names.contains(n));
        assert(has_flushed(slots, n, lsn));
        let i = choose|i: int|
            0 <= i < slots.len() && (#[trigger] slots[i]).in_use && slots[i].name@ == n
                && flush_position(slots[i]) >= lsn;
        assert(slots[i].in_use);
    }
}

/// Slots that show what is asked of them for a position show it for every earlier one.
pub proof fn enough_flushed_for_earlier(
    slots: Seq<LocalSlot>,
    names: Seq<Seq<char>>,
    required: int,
    lsn: u64,
    earlier: u64,
)
    requires
        enough_flushed(slots, names, required, lsn),
        earlier <= lsn,
    ensures
        enough_flushed(slots, names, required, earlier),
{
    lemma_count_weaker(named_positions(slots, names), lsn, earlier);
    if all_flushed(slots, names, lsn) {
        lemma_all_flushed_weaker(slots, names, lsn, names, earlier);
    }
}

/// Slots of which enough have flushed past a position show what is asked of them for the lowest
/// of their positions, too, unless that is none.
proof fn lemma_lowest_is_shown(
    slots: Seq<LocalSlot>,
    names: Seq<Seq<char>>,
    required: int,
    lsn: u64,
)
    requires
        count_reached(named_positions(slots, names), lsn) >= required,
    ensures
        enough_flushed(slots, names, required, lowest_lsn(named_positions(slots, names))),
{
    let positions = named_positions(slots, names);
    lemma_count_reached_bound(positions, lsn);
    if positions.len() > 0 {
        lowest_lsn_is_minimum(positions);
    }
    lemma_count_minimum(positions, lowest_lsn(positions));
}

/// Once enough slots have confirmed a message, no message up to there or up to the known position
/// is held back again, as long as the configuration stays. Where the known position was already
/// past the message, it was not held back but for a new configuration, and this is so up to the
/// message.
pub proof fn known_position_is_remembered(
    wait: ConfirmationWait,
    settings: Settings,
    slots: Vec<LocalSlot>,
    own_slot: Option<String>,
    lsn: u64,
)
    requires
        wait.phase == (ConfirmationPhase::Scan { settings }),
        wait.next(Reply::LocalSlots(slots)).phase is Finished,
        lsn <= wait.next(Reply::LocalSlots(slots)).known.lsn,
        wait.known.lsn < wait.commit_lsn || lsn <= wait.commit_lsn,
    ensures
        can_skip(settings, own_slot, wait.next(Reply::LocalSlots(slots)).known, lsn),
{
    let names = settings.standby_names();
    let required = required_confirmations(settings);
    let lowest = lowest_lsn(named_positions(slots@, names));
    if lsn <= wait.commit_lsn {
        enough_flushed_for_earlier(slots@, names, required, wait.commit_lsn, lsn);
    } else {
        lemma_lowest_is_shown(slots@, names, required, wait.commit_lsn);
        enough_flushed_for_earlier(slots@, names, required, lowest, lsn);
    }
}

/// Once all named slots have confirmed a position, no message up to there is held back again, as
/// long as no other slot is named: in whatever order they are, and also if some are left out.
pub proof fn confirmed_position_is_remembered(
    wait: ConfirmationWait,
    settings: Settings,
    slots: Vec<LocalSlot>,
    later: Settings,
    own_slot: Option<String>,
    lsn: u64,
)
    requires
        wait.phase == (ConfirmationPhase::Scan { settings }),
        settings.standby_slots_min_confirmed == CONFIRM_ALL,
        settings.standby_names().len() > 0,
        names_are_unique(slots@),
        wait.next(Reply::LocalSlots(slots)).phase is Finished,
        forall|n: Seq<char>| #[trigger]
            later.standby_names().contains(n) ==> settings.standby_names().contains(n),
        lsn <= wait.commit_lsn,
    ensures
        wait.next(Reply::LocalSlots(slots)).known.lsn >= wait.commit_lsn,
        can_skip(later, own_slot, wait.next(Reply::LocalSlots(slots)).known, lsn),
{
    let names = settings.standby_names();
    let positions = named_positions(slots@, names);
    lemma_all_positions_reached(slots@, names, wait.commit_lsn);
    lemma_count_reached_bound(positions, wait.commit_lsn);
    lowest_lsn_is_minimum(positions);
    all_confirmations_mean_all_flushed(slots@, names, wait.commit_lsn);
    lemma_all_flushed_weaker(slots@, names, wait.commit_lsn, later.standby_names(), lsn);
}

/// What is known does not hold for a configuration whose slots were not seen that far: where it
/// names other slots, or asks for more of them to confirm, a message with a position is held
/// back until they have.
pub proof fn new_configuration_is_in_effect(
    wait: ConfirmationWait,
    settings: Settings,
    again: bool,
    own_slot: Option<String>,
)
    requires
        wait.phase == (ConfirmationPhase::ReadOwnSlot { again, settings }),
        wait.commit_lsn != INVALID_XLOG_REC_PTR,
        required_confirmations(settings) > 0,
        own_slot matches Some(name) ==> !settings.standby_names().contains(name@),
        !wait.known.shows(settings, wait.commit_lsn),
    ensures
        wait.next(Reply::OwnSlot(own_slot)).phase !is Finished,
{
}

// ---------------------------------------------------------------------------
// A series of messages
// ---------------------------------------------------------------------------

/// In the reply, the slots show what is asked of them for a position.
pub open spec fn shows_enough(reply: Reply, settings: Settings, lsn: u64) -> bool {
    reply matches Reply::LocalSlots(slots) && enough_flushed(
        slots@,
        settings.standby_names(),
        required_confirmations(settings),
        lsn,
    )
}

/// The slots were once seen with what is asked of them for a position, unless it is none.
pub open spec fn seen_enough(replies: Seq<Reply>, settings: Settings, lsn: u64) -> bool {
    lsn == INVALID_XLOG_REC_PTR || exists|k: int|
        0 <= k < replies.len() && shows_enough(#[trigger] replies[k], settings, lsn)
}

/// What is known was seen of the slots, unless it is nothing.
pub open spec fn known_was_seen(replies: Seq<Reply>, known: KnownFlush) -> bool {
    known.lsn == INVALID_XLOG_REC_PTR || replies.contains(Reply::LocalSlots(known.slots))
}

/// The configuration that a wait goes by after a reply.
pub open spec fn settings_after(
    wait: ConfirmationWait,
    reply: Reply,
    settings: Option<Settings>,
) -> Option<Settings> {
    match (wait.phase, reply) {
        (ConfirmationPhase::ReadSettings { .. }, Reply::Settings(settings)) => Some(settings),
        (ConfirmationPhase::Configure, Reply::Settings(settings)) => Some(settings),
        _ => settings,
    }
}

/// The configuration that a wait goes by: the one that was read last.
pub open spec fn settings_in_effect(wait: ConfirmationWait, replies: Seq<Reply>) -> Option<
    Settings,
>
    decreases replies.len(),
{
    if replies.len() == 0 {
        None
    } else {
        let head = replies.drop_last();
        settings_after(
            confirmation_run(wait, head),
            replies.last(),
            settings_in_effect(wait, head),
        )
    }
}

/// The slot that the process streams from as it is known after a reply.
pub open spec fn own_slot_after(
    wait: ConfirmationWait,
    reply: Reply,
    own_slot: Option<String>,
) -> Option<String> {
    match (wait.phase, reply) {
        (ConfirmationPhase::ReadOwnSlot { .. }, Reply::OwnSlot(own_slot)) => own_slot,
        _ => own_slot,
    }
}

/// The slot that the process streams from, as it was told last.
pub open spec fn own_slot_told(wait: ConfirmationWait, replies: Seq<Reply>) -> Option<String>
    decreases replies.len(),
{
    if replies.len() == 0 {
        None
    } else {
        let head = replies.drop_last();
        own_slot_after(confirmation_run(wait, head), replies.last(), own_slot_told(wait, head))
    }
}

/// With this configuration, a process that streams from this slot waits for no standby.
pub open spec fn waits_for_none(settings: Settings, own_slot: Option<String>) -> bool {
    ||| required_confirmations(settings) == 0
    ||| (own_slot matches Some(name) && settings.standby_names().contains(name@))
}

/// A message may be sent with this configuration: no standby is waited for, or as many of the
/// slots that it names as must, or all of them, were seen past its position.
pub open spec fn is_due(
    settings: Settings,
    own_slot: Option<String>,
    replies: Seq<Reply>,
    lsn: u64,
) -> bool {
    ||| waits_for_none(settings, own_slot)
    ||| seen_enough(replies, settings, lsn)
}

proof fn lemma_seen_longer(replies: Seq<Reply>, reply: Reply, settings: Settings, lsn: u64)
    requires
        seen_enough(replies, settings, lsn),
    ensures
        seen_enough(replies.push(reply), settings, lsn),
{
    if lsn != INVALID_XLOG_REC_PTR {
        let k = choose|k: int|
            0 <= k < replies.len() && shows_enough(#[trigger] replies[k], settings, lsn);
        assert(replies.push(reply)[k] == replies[k]);
    }
}

spec fn wait_ok(
    wait: ConfirmationWait,
    seen: Seq<Reply>,
    settings: Option<Settings>,
    own_slot: Option<String>,
) -> bool {
    &&& known_was_seen(seen, wait.known)
    &&& match wait.phase {
        ConfirmationPhase::ReadOwnSlot { settings: s, .. } => settings == Some(s),
        ConfirmationPhase::Scan { settings: s } => settings == Some(s),
        ConfirmationPhase::Finished { .. } => settings is Some && is_due(
            settings->0,
            own_slot,
            seen,
            wait.commit_lsn,
        ),
        _ => true,
    }
}

proof fn lemma_wait_step(
    wait: ConfirmationWait,
    reply: Reply,
    seen: Seq<Reply>,
    settings: Option<Settings>,
    own_slot: Option<String>,
)
    requires
        wait_ok(wait, seen, settings, own_slot),
    ensures
        wait_ok(
            wait.next(reply),
            seen.push(reply),
            settings_after(wait, reply, settings),
            own_slot_after(wait, reply, own_slot),
        ),
{
    let longer = seen.push(reply);
    assert(longer[seen.len() as int] == reply);
    assert(known_was_seen(longer, wait.known)) by {
        let listing = Reply::LocalSlots(wait.known.slots);
        if seen.contains(listing) {
            let k = choose|k: int| 0 <= k < seen.len() && seen[k] == listing;
            assert(longer[k] == listing);
        }
    }
    match (wait.phase, reply) {
        (ConfirmationPhase::ReadOwnSlot { settings: s, .. }, Reply::OwnSlot(own)) => {
            if wait.commit_lsn != INVALID_XLOG_REC_PTR && wait.known.lsn >= wait.commit_lsn
                && wait.known.shows(s, wait.commit_lsn) {
                let listing = Reply::LocalSlots(wait.known.slots);
                let k = choose|k: int| 0 <= k < longer.len() && longer[k] == listing;
                assert(shows_enough(longer[k], s, wait.commit_lsn));
            }
        },
        (ConfirmationPhase::Scan { settings: s }, Reply::LocalSlots(slots)) => {
            if wait.next(reply).phase is Finished {
                assert(shows_enough(longer[seen.len() as int], s, wait.commit_lsn));
                assert(longer.contains(reply));
            }
        },
        (ConfirmationPhase::Finished { .. }, _) => {
            if !waits_for_none(settings->0, own_slot) {
                lemma_seen_longer(seen, reply, settings->0, wait.commit_lsn);
            }
        },
        _ => {},
    }
}

proof fn lemma_wait_run(lsn: u64, known: KnownFlush, earlier: Seq<Reply>, replies: Seq<Reply>)
    requires
        known_was_seen(earlier, known),
    ensures
        ({
            let wait = ConfirmationWait::starting(lsn, known);
            wait_ok(
                confirmation_run(wait, replies),
                earlier + replies,
                settings_in_effect(wait, replies),
                own_slot_told(wait, replies),
            )
        }),
    decreases replies.len(),
{
    let wait = ConfirmationWait::starting(lsn, known);
    if replies.len() == 0 {
        assert(earlier + replies =~= earlier);
    } else {
        let head = replies.drop_last();
        lemma_wait_run(lsn, known, earlier, head);
        lemma_wait_step(
            confirmation_run(wait, head),
            replies.last(),
            earlier + head,
            settings_in_effect(wait, head),
            own_slot_told(wait, head),
        );
        assert((earlier + head).push(replies.last()) =~= earlier + replies);
    }
}

/// A message with log data, and the replies while it was held back.
pub struct HeldMessage {
    pub lsn: u64,
    pub replies: Seq<Reply>,
}

/// What is known of the standbys after some messages, handed on from one wait to the next;
/// `start` is what was known before the first.
pub open spec fn known_after(start: KnownFlush, messages: Seq<HeldMessage>) -> KnownFlush
    decreases messages.len(),
{
    if messages.len() == 0 {
        start
    } else {
        confirmation_run(
            ConfirmationWait::starting(
                messages.last().lsn,
                known_after(start, messages.drop_last()),
            ),
            messages.last().replies,
        ).known
    }
}

/// The wait of the last of some messages at its start, with what was learned before.
pub open spec fn last_start(start: KnownFlush, messages: Seq<HeldMessage>) -> ConfirmationWait {
    ConfirmationWait::starting(messages.last().lsn, known_after(start, messages.drop_last()))
}

/// The last of some messages was sent.
pub open spec fn last_is_sent(start: KnownFlush, messages: Seq<HeldMessage>) -> bool {
    confirmation_run(last_start(start, messages), messages.last().replies).phase is Finished
}

/// All replies in the course of some messages.
pub open spec fn replies_to(messages: Seq<HeldMessage>) -> Seq<Reply>
    decreases messages.len(),
{
    if messages.len() == 0 {
        Seq::empty()
    } else {
        replies_to(messages.drop_last()) + messages.last().replies
    }
}

/// The subscriber is never ahead of the standbys: whatever messages went before, and however the
/// configuration changed between them or while they were held back, a message is sent only with
/// a configuration that was read for it, and only if no standby is waited for with that, or as
/// many of the slots that it names as must were seen to have flushed past the message, while it
/// or an earlier one was held back. What is remembered from one message to the next was seen,
/// too.
pub proof fn subscriber_is_never_ahead_of_enough_standbys(
    start: KnownFlush,
    messages: Seq<HeldMessage>,
)
    requires
        start.is_nothing(),
    ensures
        known_was_seen(replies_to(messages), known_after(start, messages)),
        messages.len() > 0 && last_is_sent(start, messages) ==> {
            let last = messages.last();
            &&& settings_in_effect(last_start(start, messages), last.replies) is Some
            &&& is_due(
                settings_in_effect(last_start(start, messages), last.replies)->0,
                own_slot_told(last_start(start, messages), last.replies),
                replies_to(messages),
                last.lsn,
            )
        },
    decreases messages.len(),
{
    if messages.len() > 0 {
        let head = messages.drop_last();
        let last = messages.last();
        subscriber_is_never_ahead_of_enough_standbys(start, head);
        lemma_wait_run(last.lsn, known_after(start, head), replies_to(head), last.replies);
        known_flush_never_shrinks(last_start(start, messages), last.replies);
    }
}

/// The slots were once seen with every named one past a position, unless it is none.
pub open spec fn seen_on_all(replies: Seq<Reply>, names: Seq<Seq<char>>, lsn: u64) -> bool {
    lsn == INVALID_XLOG_REC_PTR || exists|k: int|
        0 <= k < replies.len() && shows_all_flushed(#[trigger] replies[k], names, lsn)
}

/// In the reply, every named slot has flushed past a position.
pub open spec fn shows_all_flushed(reply: Reply, names: Seq<Seq<char>>, lsn: u64) -> bool {
    reply matches Reply::LocalSlots(slots) && all_flushed(slots@, names, lsn)
}

/// Whenever the slots are listed, no two in use have the same name.
pub open spec fn listings_are_unique(replies: Seq<Reply>) -> bool {
    forall|i: int|
        0 <= i < replies.len() ==> (#[trigger] replies[i] matches Reply::LocalSlots(slots)
            ==> names_are_unique(slots@))
}

/// Where all named slots must confirm, a message is sent only when every single one of them was
/// seen to have flushed past it, or no standby is waited for.
pub proof fn subscriber_is_never_ahead_of_standbys(
    start: KnownFlush,
    messages: Seq<HeldMessage>,
)
    requires
        start.is_nothing(),
        messages.len() > 0,
        last_is_sent(start, messages),
        listings_are_unique(replies_to(messages)),
    ensures
        ({
            let last = messages.last();
            let settings = settings_in_effect(last_start(start, messages), last.replies);
            &&& settings is Some
            &&& settings->0.standby_slots_min_confirmed == CONFIRM_ALL ==> waits_for_none(
                settings->0,
                own_slot_told(last_start(start, messages), last.replies),
            ) || seen_on_all(replies_to(messages), settings->0.standby_names(), last.lsn)
        }),
{
    subscriber_is_never_ahead_of_enough_standbys(start, messages);
    let last = messages.last();
    let replies = replies_to(messages);
    let settings = settings_in_effect(last_start(start, messages), last.replies)->0;
    let names = settings.standby_names();
    if settings.standby_slots_min_confirmed == CONFIRM_ALL && !waits_for_none(
        settings,
        own_slot_told(last_start(start, messages), last.replies),
    ) && last.lsn != INVALID_XLOG_REC_PTR {
        let k = choose|k: int|
            0 <= k < replies.len() && shows_enough(#[trigger] replies[k], settings, last.lsn);
        if let Reply::LocalSlots(slots) = replies[k] {
            if !all_flushed(slots@, names, last.lsn) {
                all_confirmations_mean_all_flushed(slots@, names, last.lsn);
            }
        }
        assert(shows_all_flushed(replies[k], names, last.lsn));
    }
}

} // verus!
