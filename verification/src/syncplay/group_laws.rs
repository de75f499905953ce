//! What a SyncPlay group computes of itself, and how it waits.
use vstd::prelude::*;
use crate::clock;
use crate::syncplay::group;
use crate::syncplay::message_laws;
use crate::syncplay::models::{
    GroupStateType, GroupUpdateType, GroupView, ParticipantView, PayloadView, SendCommandType,
    UpdateDataView,
};
use crate::syncplay::service;
use crate::syncplay::state;
use crate::syncplay::state::{Members, Outboxes};
use crate::table;

verus! {

/// A group waits for exactly those members who are connected, are buffering and
/// are not to be ignored: it is ready where there are none.
pub proof fn law_ready_means_nobody_holds_it_up(group: GroupView)
    ensures
        group::ready(group) <==> !(exists|i: int|
            0 <= i < group.participants.len() && {
                let member = (#[trigger] group.participants[i]).1;
                member.is_connected && member.is_buffering && !member.ignore_wait
            }),
{
    if !group::ready(group) {
        let i = choose|i: int|
            0 <= i < group.participants.len() && !group::member_ready(
                (#[trigger] group.participants[i]).1,
            );
        let member = group.participants[i].1;
        assert(member.is_connected && member.is_buffering && !member.ignore_wait);
    }
    if group::ready(group) {
        assert forall|i: int| 0 <= i < group.participants.len() implies !({
            let member = (#[trigger] group.participants[i]).1;
            member.is_connected && member.is_buffering && !member.ignore_wait
        }) by {
            assert(group::member_ready(group.participants[i].1));
        }
    }
}

proof fn lemma_highest_ping(members: Members)
    ensures
        group::highest_ping(members) >= 0,
        forall|i: int|
            0 <= i < members.len() ==> group::highest_ping(members) >= (
            #[trigger] members[i]).1.ping,
        group::highest_ping(members) > 0 ==> exists|i: int|
            0 <= i < members.len() && (#[trigger] members[i]).1.ping == group::highest_ping(
                members,
            ),
    decreases members.len(),
{
    if members.len() > 0 {
        let fewer = members.drop_last();
        lemma_highest_ping(fewer);
        assert forall|i: int| 0 <= i < members.len() implies group::highest_ping(members) >= (
        #[trigger] members[i]).1.ping by {
            if i < fewer.len() {
                assert(fewer[i] == members[i]);
            }
        }
        if group::highest_ping(members) > 0 {
            if members.last().1.ping as int > group::highest_ping(fewer) {
                assert(members[members.len() - 1].1.ping == group::highest_ping(members));
            } else {
                let i = choose|i: int|
                    0 <= i < fewer.len() && (#[trigger] fewer[i]).1.ping == group::highest_ping(
                        fewer,
                    );
                assert(members[i].1.ping == group::highest_ping(members));
            }
        }
    }
}

/// A group that plays on gives every member time for two of its pings, and half a
/// second at least; it waits no longer than its slowest member needs.
pub proof fn law_delay_covers_every_ping(group: GroupView)
    ensures
        group::ping_delay(group) >= 500,
        forall|i: int|
            0 <= i < group.participants.len() && 2 * (#[trigger] group.participants[i]).1.ping
                <= i64::MAX ==> group::ping_delay(group) >= 2 * group.participants[i].1.ping,
        group::ping_delay(group) > 500 ==> exists|i: int|
            0 <= i < group.participants.len() && 2 * (#[trigger] group.participants[i]).1.ping
                >= group::ping_delay(group),
{
    lemma_highest_ping(group.participants);
}

/// The item that plays is the queue's at the group's place, nil where there is
/// none.
pub proof fn law_current_item_is_the_queues(group: GroupView)
    ensures
        match group.playing_item_index {
            Some(i) => if i < group.playlist.len() {
                group::current_item(group) == group.playlist[i as int].playlist_item_id
            } else {
                group::current_item(group) == 0
            },
            None => group::current_item(group) == 0,
        },
{
}

/// A group that does not play stays where it is. One that plays is where it was
/// put, from then on one tick further with every hundred nanoseconds.
pub proof fn law_position_runs_with_the_clock(group: GroupView, now: nat, ticks: nat, part: nat)
    requires
        part < 100,
        now == group.position_base_when + 100 * ticks + part,
    ensures
        !group.is_playing ==> group::estimated_position(group, now) == group.start_position_ticks,
        group.is_playing && group.start_position_ticks + ticks <= i64::MAX
            ==> group::estimated_position(group, now) == group.start_position_ticks + ticks,
        group.is_playing && group.start_position_ticks + ticks > i64::MAX
            ==> group::estimated_position(group, now) == i64::MAX,
{
    assert((100 * ticks + part) / 100 == ticks);
}

/// Before the time for which it was put somewhere a group is there already.
pub proof fn law_position_does_not_run_back(group: GroupView, now: nat)
    requires
        now <= group.position_base_when,
    ensures
        group::estimated_position(group, now) == group.start_position_ticks,
{
}

/// All that does not change while a group waits, stops waiting or is touched: who
/// it is, who its members are and what its queue is.
pub open spec fn same_group(a: GroupView, b: GroupView) -> bool {
    &&& a.group_id == b.group_id
    &&& a.group_name == b.group_name
    &&& a.participants == b.participants
    &&& a.playlist == b.playlist
    &&& a.playing_item_index == b.playing_item_index
    &&& a.shuffle_mode == b.shuffle_mode
    &&& a.repeat_mode == b.repeat_mode
}

/// Putting a group somewhere, stopping it and noting a change do that and
/// nothing else.
pub proof fn law_small_changes_change_little(group: GroupView, ticks: i64, now: nat)
    ensures
        ({
            let put = group::positioned(group, ticks, now);
            let frozen = group::frozen(group, now);
            let touched = group::touched(group, now);
            &&& same_group(put, group) && put.start_position_ticks == ticks
                && put.position_base_when == now && put.is_playing == group.is_playing && put.state
                == group.state && put.pending_position_ticks == group.pending_position_ticks
                && put.waiting_resume_playing == group.waiting_resume_playing
                && put.last_updated_at == group.last_updated_at
            &&& same_group(frozen, group) && frozen.start_position_ticks
                == group::estimated_position(group, now) && frozen.position_base_when == now
                && !frozen.is_playing && frozen.state == group.state
                && frozen.pending_position_ticks == group.pending_position_ticks
                && frozen.waiting_resume_playing == group.waiting_resume_playing
                && frozen.last_updated_at == group.last_updated_at
            &&& same_group(touched, group) && touched.last_updated_at == now
                && touched.start_position_ticks == group.start_position_ticks
                && touched.position_base_when == group.position_base_when && touched.is_playing
                == group.is_playing && touched.state == group.state
                && touched.pending_position_ticks == group.pending_position_ticks
                && touched.waiting_resume_playing == group.waiting_resume_playing
        }),
{
}

/// A group without a queue has nothing to wait with. One that has a queue stops
/// where it is, notes that place and whether it was playing, and waits.
pub proof fn law_waiting_holds_the_group(group: GroupView, now: nat)
    ensures
        ({
            let after = service::waiting_for(group, now);
            &&& same_group(after, group) && after.last_updated_at == group.last_updated_at
            &&& group.playlist.len() == 0 ==> after == group
            &&& group.playlist.len() > 0 ==> {
                let place = group::estimated_position(group, now);
                &&& after.state == GroupStateType::Waiting
                &&& !after.is_playing
                &&& after.waiting_resume_playing == group.is_playing
                &&& after.start_position_ticks == place
                &&& after.pending_position_ticks == Some(place)
                &&& after.position_base_when == now
            }
        }),
{
}

/// A group stops waiting exactly where it waits and no member holds it up. It
/// then plays on where it was playing before, else it is paused, at the place
/// that was pending; otherwise it does not change.
pub proof fn law_group_stops_waiting_when_all_are_ready(group: GroupView, now: nat)
    requires
        now + i64::MAX * 1_000_000 <= u128::MAX,
    ensures
        ({
            let after = state::resolved(group, now);
            let held_up = exists|i: int|
                0 <= i < group.participants.len() && {
                    let member = (#[trigger] group.participants[i]).1;
                    member.is_connected && member.is_buffering && !member.ignore_wait
                };
            &&& same_group(after, group)
            &&& after.waiting_resume_playing == group.waiting_resume_playing
            &&& group.state != GroupStateType::Waiting || held_up ==> after == group
            &&& group.state == GroupStateType::Waiting && !held_up ==> {
                &&& after.is_playing == group.waiting_resume_playing
                &&& group.waiting_resume_playing ==> after.state == GroupStateType::Playing
                &&& !group.waiting_resume_playing ==> after.state == GroupStateType::Paused
                &&& after.pending_position_ticks is None
                &&& match group.pending_position_ticks {
                    Some(ticks) => after.start_position_ticks == ticks,
                    None => after.start_position_ticks == group.start_position_ticks,
                }
                &&& after.last_updated_at == now
                &&& group.waiting_resume_playing ==> after.position_base_when == now
                    + group::ping_delay(group) * 1_000_000
                &&& !group.waiting_resume_playing ==> after.position_base_when == now
            }
        }),
{
    law_ready_means_nobody_holds_it_up(group);
    law_delay_covers_every_ping(group);
    let delay = group::ping_delay(group);
    assert(clock::NANOS_PER_MILLI == 1_000_000);
    assert(delay * 1_000_000 <= i64::MAX * 1_000_000) by (nonlinear_arith)
        requires
            delay <= i64::MAX,
    ;
}

/// A member of a group that stops waiting is told to play on or to pause, at the
/// place where the group goes on, and then what the group is doing; a member of a
/// group that does not is told nothing, and nobody else is either way.
pub proof fn law_members_are_told_that_the_wait_is_over(
    outboxes: Outboxes,
    group: GroupView,
    why: Seq<char>,
    now: nat,
)
    requires
        now + i64::MAX * 1_000_000 <= u128::MAX,
    ensures
        ({
            let after = state::resolved_outboxes(outboxes, group, why, now);
            let on = state::resolved(group, now);
            let over = group.state == GroupStateType::Waiting && group::ready(group);
            &&& forall|s: Seq<char>| #[trigger]
                after.contains_key(s) <==> outboxes.contains_key(s)
            &&& !over ==> after == outboxes
            &&& forall|s: Seq<char>|
                outboxes.contains_key(s) && !message_laws::among(group.participants, s)
                    ==> #[trigger] after[s] == outboxes[s]
            &&& over ==> forall|s: Seq<char>|
                outboxes.contains_key(s) && message_laws::among(group.participants, s) ==> {
                    let old_len = outboxes[s].len() as int;
                    &&& (#[trigger] after[s]).len() == old_len + 2
                    &&& after[s].take(old_len) == outboxes[s]
                    &&& match after[s][old_len] {
                        PayloadView::Command {
                            group_id,
                            playlist_item_id,
                            when,
                            position_ticks,
                            command,
                            emitted_at,
                        } => {
                            &&& group_id == group.group_id
                            &&& playlist_item_id == group::current_item(group)
                            &&& position_ticks == Some(on.start_position_ticks)
                            &&& emitted_at == now
                            &&& group.waiting_resume_playing ==> command
                                == SendCommandType::Unpause && when == now + group::ping_delay(
                                group,
                            ) * 1_000_000
                            &&& !group.waiting_resume_playing ==> command
                                == SendCommandType::Pause && when == now
                        },
                        _ => false,
                    }
                    &&& match after[s][old_len + 1] {
                        PayloadView::GroupUpdate {
                            group_id,
                            update_type,
                            data: UpdateDataView::State(doing, reason),
                        } => {
                            &&& group_id == group.group_id
                            &&& update_type == GroupUpdateType::StateUpdate
                            &&& reason == why
                            &&& group.waiting_resume_playing ==> doing == GroupStateType::Playing
                            &&& !group.waiting_resume_playing ==> doing == GroupStateType::Paused
                        },
                        _ => false,
                    }
                }
        }),
{
    let after = state::resolved_outboxes(outboxes, group, why, now);
    let on = state::resolved(group, now);
    law_group_stops_waiting_when_all_are_ready(group, now);
    let delay = group::ping_delay(group);
    assert(clock::NANOS_PER_MILLI == 1_000_000);
    law_delay_covers_every_ping(group);
    assert(delay * 1_000_000 <= i64::MAX * 1_000_000) by (nonlinear_arith)
        requires
            delay <= i64::MAX,
    ;
    assert forall|s: Seq<char>|
        outboxes.contains_key(s) && !message_laws::among(group.participants, s) implies #[trigger] after[s]
        == outboxes[s] by {
        message_laws::lemma_among(group.participants, s);
    }
    if group.state == GroupStateType::Waiting && group::ready(group) {
        assert forall|s: Seq<char>|
            outboxes.contains_key(s) && message_laws::among(group.participants, s) implies (
        #[trigger] after[s]).len() == outboxes[s].len() + 2 && after[s].take(
            outboxes[s].len() as int,
        ) == outboxes[s] by {
            message_laws::lemma_among(group.participants, s);
            assert(after[s].take(outboxes[s].len() as int) =~= outboxes[s]);
        }
        assert forall|s: Seq<char>|
            outboxes.contains_key(s) && message_laws::among(
                group.participants,
                s,
            ) implies state::has_member(group.participants, s) by {
            message_laws::lemma_among(group.participants, s);
        }
    }
}

proof fn lemma_filter_keeps_all(members: Members, session: Seq<char>)
    requires
        forall|i: int| 0 <= i < members.len() ==> (#[trigger] members[i]).0 != session,
    ensures
        members.filter(|row: (Seq<char>, ParticipantView)| row.0 != session) == members,
    decreases members.len(),
{
    reveal(Seq::filter);
    if members.len() > 0 {
        assert forall|i: int| 0 <= i < members.drop_last().len() implies (
        #[trigger] members.drop_last()[i]).0 != session by {
            assert(members.drop_last()[i] == members[i]);
        }
        lemma_filter_keeps_all(members.drop_last(), session);
        assert(members.last().0 != session);
        assert(members.drop_last().push(members.last()) =~= members);
    } else {
        assert(members.filter(|row: (Seq<char>, ParticipantView)| row.0 != session) =~= members);
    }
}

/// Taking a member's row out leaves the other rows, in their order.
pub proof fn lemma_cut_is_filter(members: Members, session: Seq<char>)
    requires
        table::keys_distinct(members),
    ensures
        table::cut(members, session) == members.filter(
            |row: (Seq<char>, ParticipantView)| row.0 != session,
        ),
    decreases members.len(),
{
    reveal(Seq::filter);
    let others = |row: (Seq<char>, ParticipantView)| row.0 != session;
    if state::has_member(members, session) {
        let at = choose|i: int| table::row_of(members, session, i);
        assert(table::row_of(members, session, at));
        let fewer = members.drop_last();
        let last = members.last();
        assert(table::keys_distinct(fewer)) by {
            assert forall|i: int, j: int|
                0 <= i < fewer.len() && 0 <= j < fewer.len() && i != j implies (
            #[trigger] fewer[i]).0 != (#[trigger] fewer[j]).0 by {
                assert(fewer[i] == members[i] && fewer[j] == members[j]);
            }
        }
        if at == members.len() - 1 {
            assert forall|i: int| 0 <= i < fewer.len() implies (#[trigger] fewer[i]).0
                != session by {
                assert(fewer[i] == members[i] && members[i].0 != members[at].0);
            }
            lemma_filter_keeps_all(fewer, session);
            assert(members.remove(at) =~= fewer);
        } else {
            assert(table::row_of(fewer, session, at));
            assert(state::has_member(fewer, session));
            let same = choose|i: int| table::row_of(fewer, session, i);
            assert(table::row_of(fewer, session, same));
            assert(same == at) by {
                if same != at {
                    assert(fewer[same].0 != fewer[at].0);
                }
            }
            lemma_cut_is_filter(fewer, session);
            assert(last.0 != session) by {
                assert(members[members.len() - 1].0 != members[at].0);
            }
            assert(members.remove(at) =~= fewer.remove(at).push(last));
        }
    } else {
        assert forall|i: int| 0 <= i < members.len() implies (#[trigger] members[i]).0
            != session by {
            if members[i].0 == session {
                assert(table::row_of(members, session, i));
            }
        }
        lemma_filter_keeps_all(members, session);
    }
}

/// Giving a member a new entry changes that member's row, in its place, and no
/// other.
pub proof fn lemma_put_in_place(members: Members, session: Seq<char>, member: ParticipantView)
    requires
        table::keys_distinct(members),
        message_laws::among(members, session),
    ensures
        table::put(members, session, member).len() == members.len(),
        forall|i: int|
            0 <= i < members.len() ==> #[trigger] table::put(members, session, member)[i]
                == if members[i].0 == session {
                (session, member)
            } else {
                members[i]
            },
{
    message_laws::lemma_among(members, session);
    let at = choose|i: int| table::row_of(members, session, i);
    assert(table::row_of(members, session, at));
    assert forall|i: int| 0 <= i < members.len() implies #[trigger] table::put(
        members,
        session,
        member,
    )[i] == if members[i].0 == session {
        (session, member)
    } else {
        members[i]
    } by {
        if i != at {
            assert(members[i].0 != members[at].0);
        }
    }
}

} // verus!
