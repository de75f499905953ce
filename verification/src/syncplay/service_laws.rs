//! What creating, joining, leaving, connecting and disconnecting do to the
//! groups, and what they tell to whom.
use vstd::prelude::*;
use crate::ids;
use crate::syncplay::group;
use crate::syncplay::group_laws;
use crate::syncplay::laws;
use crate::syncplay::message_laws;
use crate::syncplay::models::{
    GroupRepeatMode, GroupShuffleMode, GroupStateType, GroupUpdateType, GroupView,
    ParticipantView, PayloadView, PlayQueueUpdateReason, SendCommandType, UpdateDataView,
};
use crate::syncplay::service;
use crate::syncplay::state;
use crate::syncplay::state::{Outboxes, StateView};
use crate::table;

verus! {

/// A message shows a group: who it is, what it is doing and the names of its
/// members.
pub open spec fn shows_group(payload: PayloadView, group: GroupView) -> bool {
    match payload {
        PayloadView::GroupUpdate { group_id, update_type, data: UpdateDataView::Info(shown) } => {
            &&& group_id == group.group_id
            &&& update_type == GroupUpdateType::GroupJoined
            &&& shown.group_id == group.group_id
            &&& shown.group_name == group.group_name
            &&& shown.state == group.state
            &&& shown.last_updated_at == group.last_updated_at
            &&& shown.participants.len() == group.participants.len()
            &&& forall|i: int|
                0 <= i < group.participants.len() ==> #[trigger] shown.participants[i]
                    == group.participants[i].1.user_name
        },
        _ => false,
    }
}

/// A message shows a group's new queue: every item of it, and where the group is
/// in it.
pub open spec fn shows_queue(payload: PayloadView, group: GroupView) -> bool {
    match payload {
        PayloadView::GroupUpdate { group_id, update_type, data: UpdateDataView::Queue(q) } => {
            &&& group_id == group.group_id
            &&& update_type == GroupUpdateType::PlayQueue
            &&& q.reason == PlayQueueUpdateReason::NewPlaylist
            &&& q.last_update == group.last_updated_at
            &&& q.playlist == group.playlist
            &&& match group.playing_item_index {
                Some(at) => if at < group.playlist.len() {
                    q.playing_item_index == at as i64
                } else {
                    q.playing_item_index == -1
                },
                None => q.playing_item_index == -1,
            }
            &&& q.start_position_ticks == group.start_position_ticks
            &&& q.is_playing == group.is_playing
            &&& q.shuffle_mode == group.shuffle_mode
            &&& q.repeat_mode == group.repeat_mode
        },
        _ => false,
    }
}

/// A message tells a group to pause, at once and where it is.
pub open spec fn says_pause(payload: PayloadView, group: GroupView, now: nat) -> bool {
    match payload {
        PayloadView::Command {
            group_id,
            playlist_item_id,
            when,
            position_ticks,
            command,
            emitted_at,
        } => {
            &&& group_id == group.group_id
            &&& playlist_item_id == group::current_item(group)
            &&& when == now
            &&& position_ticks == Some(group.start_position_ticks)
            &&& command == SendCommandType::Pause
            &&& emitted_at == now
        },
        _ => false,
    }
}

/// A message says that a group waits because somebody is buffering.
pub open spec fn says_waiting(payload: PayloadView, group: GroupView) -> bool {
    match payload {
        PayloadView::GroupUpdate {
            group_id,
            update_type,
            data: UpdateDataView::State(doing, reason),
        } => group_id == group.group_id && update_type == GroupUpdateType::StateUpdate && doing
            == GroupStateType::Waiting && reason == "Buffer"@,
        _ => false,
    }
}

/// What is new in a session's outbox.
pub open spec fn news(before: Outboxes, after: Outboxes, session: Seq<char>) -> Seq<PayloadView> {
    after[session].skip(before[session].len() as int)
}

/// A session that is welcomed is shown the group and then its queue. Where the
/// group waits, every member is told so, behind an order to pause where the group
/// was playing; where it does not, nobody else is told anything.
pub proof fn law_welcome_shows_group_and_queue(
    outboxes: Outboxes,
    group: GroupView,
    session: Seq<char>,
    now: nat,
)
    requires
        now <= u128::MAX,
        outboxes.contains_key(session),
        message_laws::among(group.participants, session),
    ensures
        ({
            let after = service::welcomed(outboxes, group.group_id, group, session, now);
            let waits = group.state == GroupStateType::Waiting;
            &&& after.dom() == outboxes.dom()
            &&& forall|s: Seq<char>| #[trigger]
                outboxes.contains_key(s) ==> after[s].take(outboxes[s].len() as int) == outboxes[s]
            &&& shows_group(news(outboxes, after, session)[0], group)
            &&& shows_queue(news(outboxes, after, session)[1], group)
            &&& !waits ==> news(outboxes, after, session).len() == 2
            &&& waits && !group.waiting_resume_playing ==> {
                &&& news(outboxes, after, session).len() == 3
                &&& says_waiting(news(outboxes, after, session)[2], group)
            }
            &&& waits && group.waiting_resume_playing ==> {
                &&& news(outboxes, after, session).len() == 4
                &&& says_pause(news(outboxes, after, session)[2], group, now)
                &&& says_waiting(news(outboxes, after, session)[3], group)
            }
            &&& forall|s: Seq<char>|
                #![trigger outboxes.contains_key(s)]
                outboxes.contains_key(s) && s != session && message_laws::among(
                    group.participants,
                    s,
                ) ==> {
                    &&& !waits ==> after[s] == outboxes[s]
                    &&& waits && !group.waiting_resume_playing ==> {
                        &&& news(outboxes, after, s).len() == 1
                        &&& says_waiting(news(outboxes, after, s)[0], group)
                    }
                    &&& waits && group.waiting_resume_playing ==> {
                        &&& news(outboxes, after, s).len() == 2
                        &&& says_pause(news(outboxes, after, s)[0], group, now)
                        &&& says_waiting(news(outboxes, after, s)[1], group)
                    }
                }
            &&& forall|s: Seq<char>|
                #![trigger outboxes.contains_key(s)]
                outboxes.contains_key(s) && !message_laws::among(group.participants, s)
                    ==> after[s] == outboxes[s]
        }),
{
    let after = service::welcomed(outboxes, group.group_id, group, session, now);
    assert(after.dom() =~= outboxes.dom());
    assert forall|s: Seq<char>|
        #![trigger outboxes.contains_key(s)]
        message_laws::among(group.participants, s) <==> state::has_member(
            group.participants,
            s,
        ) by {
        message_laws::lemma_among(group.participants, s);
    }
    assert(outboxes.contains_key(session));
    assert forall|s: Seq<char>| #[trigger] outboxes.contains_key(s) implies after[s].take(
        outboxes[s].len() as int,
    ) == outboxes[s] by {
        assert(after[s].take(outboxes[s].len() as int) =~= outboxes[s]);
    }
}

/// A session that leaves is told so, and the members who stay are told who has
/// left; the rest of the group stays as it is, in its order, and so does every
/// other group and everybody outside.
pub proof fn law_leaving_is_told_and_changes_nothing_else(
    st: StateView,
    session: Seq<char>,
    now: nat,
)
    requires
        laws::sound(st),
        st.session_to_group.contains_key(session),
        now + i64::MAX * 1_000_000 <= u128::MAX,
    ensures
        ({
            let gid = st.session_to_group[session];
            let group = st.groups[gid];
            let after = service::left(st, session, now);
            let rest = group.participants.filter(
                |row: (Seq<char>, ParticipantView)| row.0 != session,
            );
            &&& after.groups.contains_key(gid) <==> rest.len() > 0
            &&& rest.len() > 0 ==> {
                let kept = after.groups[gid];
                &&& kept.participants == rest
                &&& kept.group_id == gid && kept.group_name == group.group_name
                &&& kept.playlist == group.playlist && kept.playing_item_index
                    == group.playing_item_index
                &&& kept.shuffle_mode == group.shuffle_mode && kept.repeat_mode
                    == group.repeat_mode
                &&& kept.last_updated_at == now
                &&& group.state != GroupStateType::Waiting ==> kept.state == group.state
                    && kept.is_playing == group.is_playing && kept.start_position_ticks
                    == group.start_position_ticks && kept.position_base_when
                    == group.position_base_when
            }
            &&& forall|g: u128|
                #![trigger after.groups.contains_key(g)]
                g != gid ==> (after.groups.contains_key(g) <==> st.groups.contains_key(g)) && (
                st.groups.contains_key(g) ==> after.groups[g] == st.groups[g])
            &&& forall|s: Seq<char>|
                #![trigger after.session_to_group.contains_key(s)]
                (after.session_to_group.contains_key(s) <==> s != session
                    && st.session_to_group.contains_key(s)) && (
                after.session_to_group.contains_key(s) ==> after.session_to_group[s]
                    == st.session_to_group[s])
            &&& after.outboxes.dom() == st.outboxes.dom()
            &&& st.outboxes.contains_key(session) ==> after.outboxes[session]
                == st.outboxes[session].push(
                PayloadView::GroupUpdate {
                    group_id: gid,
                    update_type: GroupUpdateType::GroupLeft,
                    data: UpdateDataView::Text(ids::hyphenated_text(gid)),
                },
            )
            &&& forall|s: Seq<char>, i: int|
                #![trigger st.outboxes.contains_key(s), group.participants[i]]
                st.outboxes.contains_key(s) && s != session && message_laws::among(
                    group.participants,
                    s,
                ) && 0 <= i < group.participants.len() && group.participants[i].0 == session ==> {
                    &&& after.outboxes[s].len() > st.outboxes[s].len()
                    &&& after.outboxes[s].take(st.outboxes[s].len() as int) == st.outboxes[s]
                    &&& after.outboxes[s][st.outboxes[s].len() as int]
                        == PayloadView::GroupUpdate {
                        group_id: gid,
                        update_type: GroupUpdateType::UserLeft,
                        data: UpdateDataView::Text(group.participants[i].1.user_name),
                    }
                    &&& group.state != GroupStateType::Waiting ==> after.outboxes[s].len()
                        == st.outboxes[s].len() + 1
                }
            &&& forall|s: Seq<char>|
                #![trigger st.outboxes.contains_key(s)]
                st.outboxes.contains_key(s) && !message_laws::among(group.participants, s)
                    ==> after.outboxes[s] == st.outboxes[s]
        }),
{
    let gid = st.session_to_group[session];
    let group = st.groups[gid];
    let after = service::left(st, session, now);
    assert(laws::group_sound(group, gid));
    let gone = service::departed(group, session, now);
    group_laws::lemma_cut_is_filter(group.participants, session);
    let rest = gone.participants;
    laws::law_leaving_keeps_the_state_sound(st, session, now);
    assert(state::has_member(group.participants, session));
    let told = state::sent(
        state::broadcast(
            st.outboxes,
            rest,
            state::update(
                gid,
                GroupUpdateType::UserLeft,
                UpdateDataView::Text(service::name_of(group.participants, session)),
            ),
        ),
        session,
        state::update(
            gid,
            GroupUpdateType::GroupLeft,
            UpdateDataView::Text(ids::hyphenated_text(gid)),
        ),
    );
    laws::lemma_cut_members(group.participants, session);
    assert forall|s: Seq<char>|
        #![trigger st.outboxes.contains_key(s)]
        {
            &&& message_laws::among(group.participants, s) <==> state::has_member(
                group.participants,
                s,
            )
            &&& message_laws::among(rest, s) <==> state::has_member(rest, s)
            &&& state::has_member(rest, s) <==> state::has_member(group.participants, s) && s
                != session
        } by {
        message_laws::lemma_among(group.participants, s);
        message_laws::lemma_among(rest, s);
    }
    group_laws::law_members_are_told_that_the_wait_is_over(told, gone, "Leave"@, now);
    group_laws::law_group_stops_waiting_when_all_are_ready(gone, now);
    assert(told.dom() =~= st.outboxes.dom());
    if st.outboxes.contains_key(session) {
        assert(told.contains_key(session));
        assert(!message_laws::among(rest, session));
    }
    assert forall|s: Seq<char>, i: int|
        #![trigger st.outboxes.contains_key(s), group.participants[i]]
        st.outboxes.contains_key(s) && s != session && message_laws::among(group.participants, s)
            && 0 <= i < group.participants.len() && group.participants[i].0
            == session implies {
        &&& after.outboxes[s].len() > st.outboxes[s].len()
        &&& after.outboxes[s].take(st.outboxes[s].len() as int) == st.outboxes[s]
        &&& after.outboxes[s][st.outboxes[s].len() as int] == PayloadView::GroupUpdate {
            group_id: gid,
            update_type: GroupUpdateType::UserLeft,
            data: UpdateDataView::Text(group.participants[i].1.user_name),
        }
        &&& group.state != GroupStateType::Waiting ==> after.outboxes[s].len()
            == st.outboxes[s].len() + 1
    } by {
        table::lemma_row_is_entry(group.participants, i);
        let n = st.outboxes[s].len() as int;
        assert(told.contains_key(s));
        assert(state::has_member(rest, s));
        let k = choose|k: int| table::row_of(rest, s, k);
        assert(rest.len() > 0);
        assert(told[s].len() == n + 1);
        assert(told[s].take(n) =~= st.outboxes[s]);
        if state::resolves(gone) {
            assert(after.outboxes[s].take(n + 1) == told[s]);
            assert(after.outboxes[s].take(n) =~= told[s].take(n));
            assert(after.outboxes[s][n] == after.outboxes[s].take(n + 1)[n]);
        } else {
            assert(after.outboxes[s] == told[s]);
        }
    }
    assert forall|s: Seq<char>|
        #![trigger st.outboxes.contains_key(s)]
        st.outboxes.contains_key(s) && !message_laws::among(
            group.participants,
            s,
        ) implies after.outboxes[s] == st.outboxes[s] by {
        assert(told.contains_key(s));
        assert(!message_laws::among(rest, s));
        assert(s != session);
    }
}

/// A group that waited goes on when the last member who held it up leaves: the
/// members who stay are told so behind the news of who left. One that somebody else
/// holds up waits on, and hears nothing more.
pub proof fn law_leaving_ends_the_wait(st: StateView, session: Seq<char>, now: nat)
    requires
        laws::sound(st),
        st.session_to_group.contains_key(session),
        st.groups[st.session_to_group[session]].state == GroupStateType::Waiting,
        now + i64::MAX * 1_000_000 <= u128::MAX,
    ensures
        ({
            let gid = st.session_to_group[session];
            let group = st.groups[gid];
            let after = service::left(st, session, now);
            let held_up = exists|i: int|
                0 <= i < group.participants.len() && group.participants[i].0 != session && {
                    let member = (#[trigger] group.participants[i]).1;
                    member.is_connected && member.is_buffering && !member.ignore_wait
                };
            &&& after.groups.contains_key(gid) && held_up ==> after.groups[gid].state
                == GroupStateType::Waiting
            &&& after.groups.contains_key(gid) && !held_up ==> {
                &&& after.groups[gid].is_playing == group.waiting_resume_playing
                &&& after.groups[gid].state == if group.waiting_resume_playing {
                    GroupStateType::Playing
                } else {
                    GroupStateType::Paused
                }
                &&& after.groups[gid].pending_position_ticks is None
                &&& after.groups[gid].start_position_ticks == match group.pending_position_ticks {
                    Some(ticks) => ticks,
                    None => group.start_position_ticks,
                }
            }
            &&& forall|s: Seq<char>|
                #![trigger st.outboxes.contains_key(s)]
                st.outboxes.contains_key(s) && s != session && message_laws::among(
                    group.participants,
                    s,
                ) ==> {
                    let heard = news(st.outboxes, after.outboxes, s);
                    &&& held_up ==> heard.len() == 1
                    &&& !held_up ==> tells_to_go_on(heard.skip(1), group, "Leave"@)
                }
        }),
{
    let gid = st.session_to_group[session];
    let group = st.groups[gid];
    let after = service::left(st, session, now);
    assert(laws::group_sound(group, gid));
    let gone = service::departed(group, session, now);
    let rest = gone.participants;
    laws::lemma_cut_members(group.participants, session);
    assert(state::has_member(group.participants, session));
    group_laws::law_members_are_told_that_the_wait_is_over(
        state::sent(
            state::broadcast(
                st.outboxes,
                rest,
                state::update(
                    gid,
                    GroupUpdateType::UserLeft,
                    UpdateDataView::Text(service::name_of(group.participants, session)),
                ),
            ),
            session,
            state::update(
                gid,
                GroupUpdateType::GroupLeft,
                UpdateDataView::Text(ids::hyphenated_text(gid)),
            ),
        ),
        gone,
        "Leave"@,
        now,
    );
    group_laws::law_group_stops_waiting_when_all_are_ready(gone, now);
    group_laws::law_ready_means_nobody_holds_it_up(gone);
    let held_up = exists|i: int|
        0 <= i < group.participants.len() && group.participants[i].0 != session && {
            let member = (#[trigger] group.participants[i]).1;
            member.is_connected && member.is_buffering && !member.ignore_wait
        };
    assert(held_up <==> !group::ready(gone)) by {
        if held_up {
            let i = choose|i: int|
                0 <= i < group.participants.len() && group.participants[i].0 != session && {
                    let member = (#[trigger] group.participants[i]).1;
                    member.is_connected && member.is_buffering && !member.ignore_wait
                };
            let s = group.participants[i].0;
            table::lemma_row_is_entry(group.participants, i);
            assert(table::row_of(group.participants, s, i));
            assert(state::has_member(group.participants, s));
            assert(state::has_member(rest, s));
            let k = table::lemma_entry_is_row(rest, s);
            assert(rest[k].1 == group.participants[i].1);
            assert(!group::member_ready(rest[k].1));
        }
        if !group::ready(gone) {
            let k = choose|k: int|
                0 <= k < rest.len() && !group::member_ready((#[trigger] rest[k]).1);
            let s = rest[k].0;
            assert(table::row_of(rest, s, k));
            assert(state::has_member(rest, s));
            table::lemma_row_is_entry(rest, k);
            assert(state::has_member(group.participants, s) && s != session);
            let i = table::lemma_entry_is_row(group.participants, s);
            let member = group.participants[i].1;
            assert(member == rest[k].1);
            assert(member.is_connected && member.is_buffering && !member.ignore_wait);
            assert(group.participants[i].0 != session);
        }
    }
    assert forall|s: Seq<char>|
        #![trigger st.outboxes.contains_key(s)]
        st.outboxes.contains_key(s) && s != session && message_laws::among(
            group.participants,
            s,
        ) implies {
        let heard = news(st.outboxes, after.outboxes, s);
        &&& held_up ==> heard.len() == 1
        &&& !held_up ==> tells_to_go_on(heard.skip(1), group, "Leave"@)
    } by {
        message_laws::lemma_among(group.participants, s);
        message_laws::lemma_among(rest, s);
        assert(state::has_member(rest, s));
        let k = choose|k: int| table::row_of(rest, s, k);
        assert(rest.len() > 0);
    }
}

/// A session that is in no group has nothing to leave: only a grace period that
/// runs for it ends.
pub proof fn law_leaving_no_group_changes_little(st: StateView, session: Seq<char>, now: nat)
    requires
        !st.session_to_group.contains_key(session),
    ensures
        ({
            let after = service::left(st, session, now);
            &&& after.groups == st.groups
            &&& after.session_to_group == st.session_to_group
            &&& after.outboxes == st.outboxes
            &&& after.connection_ids == st.connection_ids
            &&& !after.grace_ids.contains_key(session)
            &&& forall|s: Seq<char>|
                #![trigger after.grace_ids.contains_key(s)]
                s != session && st.grace_ids.contains_key(s) ==> after.grace_ids.contains_key(s)
                    && after.grace_ids[s] == st.grace_ids[s]
        }),
{
}

/// What leaving does not touch in another group than the session's own.
proof fn lemma_leaving_keeps_other_groups(
    st: StateView,
    session: Seq<char>,
    group_id: u128,
    now: nat,
)
    requires
        laws::sound(st),
        now + i64::MAX * 1_000_000 <= u128::MAX,
    ensures
        ({
            let away = service::left(st, session, now);
            &&& away.groups.contains_key(group_id) ==> {
                &&& st.groups.contains_key(group_id)
                &&& away.groups[group_id].playlist == st.groups[group_id].playlist
                &&& away.groups[group_id].playing_item_index
                    == st.groups[group_id].playing_item_index
                &&& away.groups[group_id].group_name == st.groups[group_id].group_name
            }
            &&& !message_laws::among(st.groups[group_id].participants, session)
                && st.groups.contains_key(group_id) ==> away.groups.contains_key(group_id)
                && away.groups[group_id] == st.groups[group_id]
            &&& away.outboxes.dom() == st.outboxes.dom()
            &&& laws::sound(away)
        }),
{
    laws::law_leaving_keeps_the_state_sound(st, session, now);
    let away = service::left(st, session, now);
    if st.session_to_group.contains_key(session) {
        law_leaving_is_told_and_changes_nothing_else(st, session, now);
        let gid = st.session_to_group[session];
        message_laws::lemma_among(st.groups[gid].participants, session);
        assert(away.groups.contains_key(group_id) || !away.groups.contains_key(group_id));
    }
}

/// A session that creates a group is its one member, under its own name, in a
/// group of the name and identifier that were given, which is idle and has no
/// queue; the session is shown the group, last of all, and is in it from then on.
pub proof fn law_created_group_has_its_creator(
    st: StateView,
    session: Seq<char>,
    user_name: Seq<char>,
    group_name: Seq<char>,
    group_id: u128,
    now: nat,
)
    requires
        laws::sound(st),
        !st.groups.contains_key(group_id),
        st.outboxes.contains_key(session),
        now + i64::MAX * 1_000_000 <= u128::MAX,
    ensures
        ({
            let away = service::left(st, session, now);
            let after = service::created(st, session, user_name, group_name, group_id, now);
            &&& after.groups.contains_key(group_id)
            &&& {
                let group = after.groups[group_id];
                &&& group.group_id == group_id && group.group_name == group_name
                &&& group.state == GroupStateType::Idle && !group.is_playing
                &&& group.playlist.len() == 0 && group.playing_item_index is None
                &&& group.start_position_ticks == 0 && group.pending_position_ticks is None
                &&& !group.waiting_resume_playing
                &&& group.shuffle_mode == GroupShuffleMode::Sorted
                &&& group.repeat_mode == GroupRepeatMode::RepeatNone
                &&& group.position_base_when == now && group.last_updated_at == now
                &&& group.participants.len() == 1
                &&& group.participants[0].0 == session
                &&& is_newcomer(group.participants[0].1, user_name, false)
                &&& after.outboxes[session].len() == away.outboxes[session].len() + 1
                &&& after.outboxes[session].drop_last() == away.outboxes[session]
                &&& shows_group(after.outboxes[session].last(), group)
            }
            &&& after.session_to_group.contains_key(session)
                && after.session_to_group[session] == group_id
            &&& forall|g: u128|
                #![trigger after.groups.contains_key(g)]
                g != group_id ==> (after.groups.contains_key(g) <==> away.groups.contains_key(g))
                    && (after.groups.contains_key(g) ==> after.groups[g] == away.groups[g])
            &&& forall|s: Seq<char>|
                #![trigger after.session_to_group.contains_key(s)]
                s != session ==> (after.session_to_group.contains_key(s)
                    <==> st.session_to_group.contains_key(s)) && (
                after.session_to_group.contains_key(s) ==> after.session_to_group[s]
                    == st.session_to_group[s])
            &&& forall|s: Seq<char>|
                #![trigger after.outboxes.contains_key(s)]
                (after.outboxes.contains_key(s) <==> st.outboxes.contains_key(s)) && (s != session
                    && after.outboxes.contains_key(s) ==> after.outboxes[s] == away.outboxes[s])
            &&& after.connection_ids == st.connection_ids
        }),
{
    let away = service::left(st, session, now);
    let after = service::created(st, session, user_name, group_name, group_id, now);
    laws::law_leaving_keeps_the_state_sound(st, session, now);
    assert(away.outboxes.dom().contains(session));
    assert(after.outboxes[session].drop_last() =~= away.outboxes[session]);
    if st.session_to_group.contains_key(session) {
        law_leaving_is_told_and_changes_nothing_else(st, session, now);
        assert forall|s: Seq<char>|
            #![trigger after.session_to_group.contains_key(s)]
            s != session implies (after.session_to_group.contains_key(s)
            <==> st.session_to_group.contains_key(s)) && (after.session_to_group.contains_key(s)
            ==> after.session_to_group[s] == st.session_to_group[s]) by {
            assert(away.session_to_group.contains_key(s) <==> st.session_to_group.contains_key(s));
        }
    }
    assert forall|s: Seq<char>|
        #![trigger after.outboxes.contains_key(s)]
        (after.outboxes.contains_key(s) <==> st.outboxes.contains_key(s)) && (s != session
            && after.outboxes.contains_key(s) ==> after.outboxes[s] == away.outboxes[s]) by {
        assert(away.outboxes.dom().contains(s) <==> st.outboxes.dom().contains(s));
    }
}

/// A member who has just come in: connected, under the user's name, with the ping
/// that is assumed of everybody, not to be ignored, and buffering as said.
pub open spec fn is_newcomer(
    member: ParticipantView,
    user_name: Seq<char>,
    is_buffering: bool,
) -> bool {
    &&& member.user_name == user_name
    &&& member.ping == 500
    &&& member.is_buffering == is_buffering
    &&& !member.ignore_wait
    &&& member.is_connected
    &&& member.last_client_when is None
}

/// A session that asks to join is let in exactly where the group is there, once
/// the session has left its own, and has the items that were expected, in their
/// order; nothing expected is nothing demanded. One that is not let in is told why,
/// and no group changes.
pub proof fn law_joining_needs_the_group_and_the_expected_queue(
    st: StateView,
    session: Seq<char>,
    user_name: Seq<char>,
    group_id: u128,
    expected: Option<Seq<Seq<char>>>,
    now: nat,
)
    requires
        laws::sound(st),
        st.outboxes.contains_key(session),
        now + i64::MAX * 1_000_000 <= u128::MAX,
    ensures
        ({
            let away = service::left(st, session, now);
            let after = service::joined(st, session, user_name, group_id, expected, now);
            let queue = away.groups[group_id].playlist;
            let fits = match expected {
                None => true,
                Some(items) => items.len() == queue.len() && forall|i: int|
                    0 <= i < items.len() ==> #[trigger] items[i] == queue[i].item_id,
            };
            &&& after.session_to_group.contains_key(session) <==> away.groups.contains_key(group_id)
                && fits
            &&& after.session_to_group.contains_key(session) ==> after.session_to_group[session]
                == group_id
            &&& !away.groups.contains_key(group_id) ==> {
                &&& after.groups == away.groups
                &&& refused(away.outboxes, after.outboxes, session)
                &&& after.outboxes[session].last() == PayloadView::GroupUpdate {
                    group_id: 0,
                    update_type: GroupUpdateType::GroupDoesNotExist,
                    data: UpdateDataView::Text(Seq::empty()),
                }
            }
            &&& away.groups.contains_key(group_id) && !fits ==> {
                &&& after.groups == away.groups
                &&& refused(away.outboxes, after.outboxes, session)
                &&& after.outboxes[session].last() == PayloadView::GroupUpdate {
                    group_id: 0,
                    update_type: GroupUpdateType::LibraryAccessDenied,
                    data: UpdateDataView::Text(Seq::empty()),
                }
            }
        }),
{
    let away = service::left(st, session, now);
    let after = service::joined(st, session, user_name, group_id, expected, now);
    lemma_leaving_keeps_other_groups(st, session, group_id, now);
    laws::law_leaving_keeps_the_state_sound(st, session, now);
    assert(away.outboxes.dom().contains(session));
    let queue = away.groups[group_id].playlist;
    let ids = group::item_ids(queue);
    if let Some(items) = expected {
        if items.len() == queue.len() && (forall|i: int|
            0 <= i < items.len() ==> #[trigger] items[i] == queue[i].item_id) {
            assert(items =~= ids);
        }
        if items == ids {
            assert forall|i: int| 0 <= i < items.len() implies #[trigger] items[i]
                == queue[i].item_id by {
                assert(items[i] == ids[i]);
            }
        }
    }
    if !after.session_to_group.contains_key(session) {
        assert(after.outboxes[session].drop_last() =~= away.outboxes[session]);
    }
}

/// One session was told one thing, and nobody else anything.
pub open spec fn refused(before: Outboxes, after: Outboxes, session: Seq<char>) -> bool {
    &&& after[session].len() == before[session].len() + 1
    &&& after[session].drop_last() == before[session]
    &&& forall|s: Seq<char>|
        #![trigger after.contains_key(s)]
        (after.contains_key(s) <==> before.contains_key(s)) && (s != session
            && before.contains_key(s) ==> after[s] == before[s])
}

/// A session that joins is the last of the group's members; the members who were
/// there stay as they are, and so does the queue. A group that has a queue stops
/// where it is and waits, for the session too.
pub proof fn law_joining_adds_a_member_and_keeps_the_queue(
    st: StateView,
    session: Seq<char>,
    user_name: Seq<char>,
    group_id: u128,
    expected: Option<Seq<Seq<char>>>,
    now: nat,
)
    requires
        laws::sound(st),
        laws::admitted(st, session, group_id, expected, now),
        now + i64::MAX * 1_000_000 <= u128::MAX,
    ensures
        ({
            let away = service::left(st, session, now);
            let before = away.groups[group_id];
            let after = service::joined(st, session, user_name, group_id, expected, now);
            let group = after.groups[group_id];
            let n = before.participants.len() as int;
            &&& group.participants.len() == n + 1
            &&& group.participants.drop_last() == before.participants
            &&& group.participants[n].0 == session
            &&& is_newcomer(group.participants[n].1, user_name, before.playlist.len() > 0)
            &&& group.group_id == group_id && group.group_name == before.group_name
            &&& group.playlist == before.playlist && before.playlist
                == st.groups[group_id].playlist
            &&& group.playing_item_index == before.playing_item_index
            &&& group.shuffle_mode == before.shuffle_mode && group.repeat_mode
                == before.repeat_mode
            &&& group.last_updated_at == now
            &&& before.playlist.len() == 0 ==> {
                &&& group.state == before.state && group.is_playing == before.is_playing
                &&& group.start_position_ticks == before.start_position_ticks
                &&& group.pending_position_ticks == before.pending_position_ticks
                &&& group.position_base_when == before.position_base_when
                &&& group.waiting_resume_playing == before.waiting_resume_playing
            }
            &&& before.playlist.len() > 0 ==> {
                let place = group::estimated_position(before, now);
                &&& group.state == GroupStateType::Waiting && !group.is_playing
                &&& group.waiting_resume_playing == before.is_playing
                &&& group.start_position_ticks == place && group.pending_position_ticks == Some(
                    place,
                )
                &&& group.position_base_when == now
            }
            &&& forall|g: u128|
                #![trigger after.groups.contains_key(g)]
                g != group_id ==> (after.groups.contains_key(g) <==> away.groups.contains_key(g))
                    && (away.groups.contains_key(g) ==> after.groups[g] == away.groups[g])
        }),
{
    let away = service::left(st, session, now);
    let before = away.groups[group_id];
    laws::law_leaving_keeps_the_state_sound(st, session, now);
    let after = service::joined(st, session, user_name, group_id, expected, now);
    lemma_leaving_keeps_other_groups(st, session, group_id, now);
    assert(laws::group_sound(before, group_id));
    message_laws::lemma_among(before.participants, session);
    let group = after.groups[group_id];
    assert(group.participants.drop_last() =~= before.participants);
}

/// A session that joins is shown the group as it is from then on, with the names
/// of all its members, and next the group's queue, every item of it. The members
/// who were there are told last of all who has joined.
pub proof fn law_joining_shows_group_and_queue(
    st: StateView,
    session: Seq<char>,
    user_name: Seq<char>,
    group_id: u128,
    expected: Option<Seq<Seq<char>>>,
    now: nat,
)
    requires
        laws::sound(st),
        laws::admitted(st, session, group_id, expected, now),
        now + i64::MAX * 1_000_000 <= u128::MAX,
    ensures
        ({
            let away = service::left(st, session, now);
            let before = away.groups[group_id];
            let after = service::joined(st, session, user_name, group_id, expected, now);
            let group = after.groups[group_id];
            let told = news(away.outboxes, after.outboxes, session);
            &&& after.outboxes.dom() == st.outboxes.dom()
            &&& after.outboxes[session].take(away.outboxes[session].len() as int)
                == away.outboxes[session]
            &&& shows_group(told[0], group)
            &&& shows_queue(told[1], group)
            &&& told[1] matches PayloadView::GroupUpdate { data: UpdateDataView::Queue(q), .. }
                && q.playlist == st.groups[group_id].playlist
            &&& before.playlist.len() == 0 && before.state != GroupStateType::Waiting
                ==> told.len() == 2
            &&& before.playlist.len() > 0 ==> {
                &&& told.len() == if before.is_playing {
                    4int
                } else {
                    3int
                }
                &&& before.is_playing ==> says_pause(told[2], group, now)
                &&& says_waiting(told.last(), group)
            }
            &&& forall|s: Seq<char>|
                #![trigger st.outboxes.contains_key(s)]
                st.outboxes.contains_key(s) && message_laws::among(before.participants, s) ==> {
                    let heard = news(away.outboxes, after.outboxes, s);
                    &&& after.outboxes[s].take(away.outboxes[s].len() as int) == away.outboxes[s]
                    &&& heard.len() > 0
                    &&& heard.last() == PayloadView::GroupUpdate {
                        group_id,
                        update_type: GroupUpdateType::UserJoined,
                        data: UpdateDataView::Text(user_name),
                    }
                    &&& before.playlist.len() == 0 && before.state != GroupStateType::Waiting
                        ==> heard.len() == 1
                    &&& before.playlist.len() > 0 ==> {
                        &&& heard.len() == if before.is_playing {
                            3int
                        } else {
                            2int
                        }
                        &&& before.is_playing ==> says_pause(heard[0], group, now)
                        &&& says_waiting(heard[heard.len() - 2], group)
                    }
                }
            &&& forall|s: Seq<char>|
                #![trigger st.outboxes.contains_key(s)]
                st.outboxes.contains_key(s) && s != session && !message_laws::among(
                    before.participants,
                    s,
                ) ==> after.outboxes[s] == away.outboxes[s]
        }),
{
    let away = service::left(st, session, now);
    let before = away.groups[group_id];
    laws::law_leaving_keeps_the_state_sound(st, session, now);
    let after = service::joined(st, session, user_name, group_id, expected, now);
    let group = after.groups[group_id];
    lemma_leaving_keeps_other_groups(st, session, group_id, now);
    law_joining_adds_a_member_and_keeps_the_queue(
        st,
        session,
        user_name,
        group_id,
        expected,
        now,
    );
    message_laws::lemma_among(before.participants, session);
    assert(!message_laws::among(before.participants, session));
    let n = before.participants.len() as int;
    assert forall|s: Seq<char>|
        message_laws::among(group.participants, s) <==> message_laws::among(
            before.participants,
            s,
        ) || s == session by {
        if message_laws::among(before.participants, s) {
            let i = choose|i: int|
                0 <= i < n && (#[trigger] before.participants[i]).0 == s;
            assert(group.participants.drop_last()[i] == group.participants[i]);
            assert(group.participants[i].0 == s);
        }
        if message_laws::among(group.participants, s) && s != session {
            let i = choose|i: int|
                0 <= i < n + 1 && (#[trigger] group.participants[i]).0 == s;
            assert(group.participants.drop_last()[i] == group.participants[i]);
            assert(before.participants[i].0 == s);
        }
        assert(group.participants[n].0 == session);
    }
    assert(away.outboxes.dom().contains(session));
    law_welcome_shows_group_and_queue(away.outboxes, group, session, now);
    let shown = service::welcomed(away.outboxes, group_id, group, session, now);
    let joined = state::update(
        group_id,
        GroupUpdateType::UserJoined,
        UpdateDataView::Text(user_name),
    );
    assert(shown.dom().contains(session));
    message_laws::law_others_are_told_once(shown, group.participants, session, joined);
    assert(after.outboxes.dom() =~= st.outboxes.dom());
    assert forall|s: Seq<char>|
        #![trigger st.outboxes.contains_key(s)]
        st.outboxes.contains_key(s) implies away.outboxes.contains_key(s) && shown.contains_key(
        s,
    ) by {
        assert(st.outboxes.dom().contains(s));
        assert(away.outboxes.dom().contains(s));
        assert(shown.dom().contains(s));
    }
    assert forall|s: Seq<char>|
        #![trigger st.outboxes.contains_key(s)]
        st.outboxes.contains_key(s) && message_laws::among(
            before.participants,
            s,
        ) implies after.outboxes[s] == shown[s].push(joined) && after.outboxes[s].take(
        away.outboxes[s].len() as int,
    ) == away.outboxes[s] && news(away.outboxes, after.outboxes, s) == news(
        away.outboxes,
        shown,
        s,
    ).push(joined) by {
        let i = choose|i: int| 0 <= i < n && (#[trigger] before.participants[i]).0 == s;
        assert(group.participants.drop_last()[i] == group.participants[i]);
        assert(group.participants[i].0 == s);
        assert(message_laws::among(group.participants, s));
        assert(away.outboxes.contains_key(s));
        let k = away.outboxes[s].len() as int;
        assert(shown[s].take(k) == away.outboxes[s]);
        assert(shown[s].len() >= k);
        assert(after.outboxes[s].take(k) =~= shown[s].take(k));
        assert(news(away.outboxes, after.outboxes, s) =~= news(away.outboxes, shown, s).push(
            joined,
        ));
    }
}

/// A session that connects has that connection and no other, and no grace period
/// runs for it. Its outbox begins with a sign of life, every fifteen seconds of
/// which are asked for. Where it is in no group that is all, and nobody else
/// notices anything.
pub proof fn law_connecting_starts_an_outbox(
    st: StateView,
    session: Seq<char>,
    connection_id: u128,
    now: nat,
)
    requires
        laws::sound(st),
        now <= u128::MAX,
    ensures
        ({
            let after = service::registered(st, session, connection_id, now);
            &&& after.outboxes.contains_key(session)
            &&& after.outboxes[session].len() > 0
            &&& after.outboxes[session][0] == PayloadView::ForceKeepAlive(15)
            &&& after.connection_ids.contains_key(session) && after.connection_ids[session]
                == connection_id
            &&& !after.grace_ids.contains_key(session)
            &&& after.session_to_group == st.session_to_group
            &&& forall|s: Seq<char>|
                #![trigger after.connection_ids.contains_key(s)]
                #![trigger after.outboxes.contains_key(s)]
                #![trigger after.grace_ids.contains_key(s)]
                s != session ==> {
                    &&& after.connection_ids.contains_key(s) <==> st.connection_ids.contains_key(s)
                    &&& st.connection_ids.contains_key(s) ==> after.connection_ids[s]
                        == st.connection_ids[s]
                    &&& after.outboxes.contains_key(s) <==> st.outboxes.contains_key(s)
                    &&& after.grace_ids.contains_key(s) <==> st.grace_ids.contains_key(s)
                    &&& st.grace_ids.contains_key(s) ==> after.grace_ids[s] == st.grace_ids[s]
                }
            &&& !st.session_to_group.contains_key(session) ==> {
                &&& after.outboxes[session].len() == 1
                &&& after.groups == st.groups
                &&& forall|s: Seq<char>|
                    s != session && st.outboxes.contains_key(s) ==> #[trigger] after.outboxes[s]
                        == st.outboxes[s]
            }
        }),
{
    let after = service::registered(st, session, connection_id, now);
    let first = st.outboxes.insert(
        session,
        seq![PayloadView::ForceKeepAlive(service::KEEP_ALIVE_SECS)],
    );
    if service::in_group(st, session) {
        let gid = st.session_to_group[session];
        law_returning_session_finds_its_group(st, session, connection_id, now);
        let group = after.groups[gid];
        law_welcome_shows_group_and_queue(first, group, session, now);
        assert(after.outboxes.dom() == first.dom());
        assert forall|s: Seq<char>|
            after.outboxes.contains_key(s) <==> #[trigger] first.contains_key(s) by {
            assert(after.outboxes.dom().contains(s) <==> first.dom().contains(s));
        }
        assert(first.contains_key(session));
        assert(after.outboxes[session].take(1) == first[session]);
        assert(after.outboxes[session].take(1)[0] == first[session][0]);
    }
}

/// A session that comes back to its group counts as connected there again, and as
/// buffering where there is a queue; the other members and the queue stay as they
/// are. A group that has a queue stops where it is and waits.
pub proof fn law_returning_session_finds_its_group(
    st: StateView,
    session: Seq<char>,
    connection_id: u128,
    now: nat,
)
    requires
        laws::sound(st),
        st.session_to_group.contains_key(session),
    ensures
        ({
            let gid = st.session_to_group[session];
            let before = st.groups[gid];
            let after = service::registered(st, session, connection_id, now);
            let group = after.groups[gid];
            &&& after.groups.dom() == st.groups.dom()
            &&& forall|g: u128|
                g != gid && st.groups.contains_key(g) ==> #[trigger] after.groups[g]
                    == st.groups[g]
            &&& group.group_id == gid && group.group_name == before.group_name
            &&& group.playlist == before.playlist && group.playing_item_index
                == before.playing_item_index
            &&& group.shuffle_mode == before.shuffle_mode && group.repeat_mode
                == before.repeat_mode
            &&& group.last_updated_at == now
            &&& message_laws::among(group.participants, session)
            &&& group.participants.len() == before.participants.len()
            &&& forall|i: int|
                0 <= i < before.participants.len() ==> {
                    let was = before.participants[i];
                    let row = #[trigger] group.participants[i];
                    &&& row.0 == was.0
                    &&& was.0 != session ==> row.1 == was.1
                    &&& was.0 == session ==> {
                        &&& row.1.is_connected && row.1.last_client_when is None
                        &&& row.1.is_buffering == (before.playlist.len() > 0)
                        &&& row.1.user_name == was.1.user_name && row.1.ping == was.1.ping
                        &&& row.1.ignore_wait == was.1.ignore_wait
                    }
                }
            &&& before.playlist.len() == 0 ==> {
                &&& group.state == before.state && group.is_playing == before.is_playing
                &&& group.start_position_ticks == before.start_position_ticks
                &&& group.pending_position_ticks == before.pending_position_ticks
                &&& group.position_base_when == before.position_base_when
                &&& group.waiting_resume_playing == before.waiting_resume_playing
            }
            &&& before.playlist.len() > 0 ==> {
                let place = group::estimated_position(before, now);
                &&& group.state == GroupStateType::Waiting && !group.is_playing
                &&& group.waiting_resume_playing == before.is_playing
                &&& group.start_position_ticks == place && group.pending_position_ticks == Some(
                    place,
                )
                &&& group.position_base_when == now
            }
        }),
{
    let gid = st.session_to_group[session];
    let before = st.groups[gid];
    let after = service::registered(st, session, connection_id, now);
    let group = after.groups[gid];
    assert(laws::group_sound(before, gid));
    assert(after.groups.dom() =~= st.groups.dom());
    message_laws::lemma_among(before.participants, session);
    let member = ParticipantView {
        is_connected: true,
        is_buffering: before.playlist.len() > 0,
        last_client_when: None,
        ..table::rows_map(before.participants)[session]
    };
    group_laws::lemma_put_in_place(before.participants, session, member);
    assert forall|i: int| 0 <= i < before.participants.len() implies {
        let was = before.participants[i];
        let row = #[trigger] group.participants[i];
        &&& row.0 == was.0
        &&& was.0 != session ==> row.1 == was.1
        &&& was.0 == session ==> {
            &&& row.1.is_connected && row.1.last_client_when is None
            &&& row.1.is_buffering == (before.playlist.len() > 0)
            &&& row.1.user_name == was.1.user_name && row.1.ping == was.1.ping
            &&& row.1.ignore_wait == was.1.ignore_wait
        }
    } by {
        table::lemma_row_is_entry(before.participants, i);
    }
    let i = choose|i: int|
        0 <= i < before.participants.len() && (#[trigger] before.participants[i]).0 == session;
    assert(group.participants[i].0 == session);
}

/// A session that comes back to its group is shown the group and its queue, every
/// item of it, right behind the first sign of life; a group that waits tells its
/// members, and nobody outside hears anything.
pub proof fn law_returning_shows_group_and_queue(
    st: StateView,
    session: Seq<char>,
    connection_id: u128,
    now: nat,
)
    requires
        laws::sound(st),
        st.session_to_group.contains_key(session),
        now <= u128::MAX,
    ensures
        ({
            let gid = st.session_to_group[session];
            let before = st.groups[gid];
            let after = service::registered(st, session, connection_id, now);
            let group = after.groups[gid];
            let told = after.outboxes[session];
            &&& shows_group(told[1], group)
            &&& shows_queue(told[2], group)
            &&& told[2] matches PayloadView::GroupUpdate { data: UpdateDataView::Queue(q), .. }
                && q.playlist == before.playlist
            &&& before.playlist.len() == 0 && before.state != GroupStateType::Waiting
                ==> told.len() == 3
            &&& before.playlist.len() > 0 ==> {
                &&& told.len() == if before.is_playing {
                    5int
                } else {
                    4int
                }
                &&& before.is_playing ==> says_pause(told[3], group, now)
                &&& says_waiting(told.last(), group)
            }
            &&& forall|s: Seq<char>|
                #![trigger st.outboxes.contains_key(s)]
                st.outboxes.contains_key(s) && s != session && message_laws::among(
                    before.participants,
                    s,
                ) ==> {
                    let heard = news(st.outboxes, after.outboxes, s);
                    &&& after.outboxes[s].take(st.outboxes[s].len() as int) == st.outboxes[s]
                    &&& before.playlist.len() == 0 && before.state != GroupStateType::Waiting
                        ==> heard.len() == 0
                    &&& before.playlist.len() > 0 ==> {
                        &&& heard.len() == if before.is_playing {
                            2int
                        } else {
                            1int
                        }
                        &&& before.is_playing ==> says_pause(heard[0], group, now)
                        &&& says_waiting(heard.last(), group)
                    }
                }
            &&& forall|s: Seq<char>|
                #![trigger st.outboxes.contains_key(s)]
                st.outboxes.contains_key(s) && !message_laws::among(before.participants, s)
                    ==> after.outboxes[s] == st.outboxes[s]
        }),
{
    let gid = st.session_to_group[session];
    let before = st.groups[gid];
    let after = service::registered(st, session, connection_id, now);
    let group = after.groups[gid];
    let first = st.outboxes.insert(
        session,
        seq![PayloadView::ForceKeepAlive(service::KEEP_ALIVE_SECS)],
    );
    law_returning_session_finds_its_group(st, session, connection_id, now);
    law_welcome_shows_group_and_queue(first, group, session, now);
    assert(laws::group_sound(before, gid));
    assert forall|s: Seq<char>|
        message_laws::among(group.participants, s) <==> message_laws::among(
            before.participants,
            s,
        ) by {
        if message_laws::among(before.participants, s) {
            let i = choose|i: int|
                0 <= i < before.participants.len() && (#[trigger] before.participants[i]).0 == s;
            assert(group.participants[i].0 == s);
        }
        if message_laws::among(group.participants, s) {
            let i = choose|i: int|
                0 <= i < group.participants.len() && (#[trigger] group.participants[i]).0 == s;
            assert(before.participants[i].0 == s);
        }
    }
    message_laws::lemma_among(before.participants, session);
    assert(first.contains_key(session));
    let told = after.outboxes[session];
    let new = news(first, after.outboxes, session);
    assert(told.take(1) == first[session]);
    assert(told.len() >= 1);
    assert(told =~= told.take(1) + new);
    assert forall|s: Seq<char>|
        #![trigger st.outboxes.contains_key(s)]
        st.outboxes.contains_key(s) && s != session implies first.contains_key(s) && first[s]
        == st.outboxes[s] by {}
}

/// A connection that closes is gone, its grace period runs, and in its group the
/// session counts as not connected while everything else of the members stays; the
/// group stops waiting where nobody else holds it up.
pub proof fn law_closing_marks_the_member_as_gone(
    st: StateView,
    session: Seq<char>,
    connection_id: u128,
    grace_id: u128,
    now: nat,
)
    requires
        laws::sound(st),
        st.connection_ids.contains_key(session) && st.connection_ids[session] == connection_id,
        now + i64::MAX * 1_000_000 <= u128::MAX,
    ensures
        ({
            let after = service::unregistered(st, session, connection_id, grace_id, now);
            &&& !after.outboxes.contains_key(session)
            &&& !after.connection_ids.contains_key(session)
            &&& after.grace_ids.contains_key(session) && after.grace_ids[session] == grace_id
            &&& after.session_to_group == st.session_to_group
            &&& forall|s: Seq<char>|
                #![trigger after.connection_ids.contains_key(s)]
                #![trigger after.outboxes.contains_key(s)]
                #![trigger after.grace_ids.contains_key(s)]
                s != session ==> {
                    &&& after.connection_ids.contains_key(s) <==> st.connection_ids.contains_key(s)
                    &&& st.connection_ids.contains_key(s) ==> after.connection_ids[s]
                        == st.connection_ids[s]
                    &&& after.outboxes.contains_key(s) <==> st.outboxes.contains_key(s)
                    &&& after.grace_ids.contains_key(s) <==> st.grace_ids.contains_key(s)
                    &&& st.grace_ids.contains_key(s) ==> after.grace_ids[s] == st.grace_ids[s]
                }
            &&& !st.session_to_group.contains_key(session) ==> {
                &&& after.groups == st.groups
                &&& forall|s: Seq<char>|
                    s != session && st.outboxes.contains_key(s) ==> #[trigger] after.outboxes[s]
                        == st.outboxes[s]
            }
            &&& st.session_to_group.contains_key(session) ==> {
                let gid = st.session_to_group[session];
                let before = st.groups[gid];
                let group = after.groups[gid];
                let held_up = exists|i: int|
                    0 <= i < before.participants.len() && before.participants[i].0 != session && {
                        let member = (#[trigger] before.participants[i]).1;
                        member.is_connected && member.is_buffering && !member.ignore_wait
                    };
                let goes_on = before.state == GroupStateType::Waiting && !held_up;
                &&& after.groups.dom() == st.groups.dom()
                &&& forall|g: u128|
                    g != gid && st.groups.contains_key(g) ==> #[trigger] after.groups[g]
                        == st.groups[g]
                &&& group.group_id == gid && group.group_name == before.group_name
                &&& group.playlist == before.playlist && group.playing_item_index
                    == before.playing_item_index
                &&& group.participants.len() == before.participants.len()
                &&& forall|i: int|
                    0 <= i < before.participants.len() ==> {
                        let was = before.participants[i];
                        let row = #[trigger] group.participants[i];
                        &&& row.0 == was.0
                        &&& was.0 != session ==> row.1 == was.1
                        &&& was.0 == session ==> {
                            &&& !row.1.is_connected && row.1.is_buffering == was.1.is_buffering
                            &&& row.1.user_name == was.1.user_name && row.1.ping == was.1.ping
                            &&& row.1.ignore_wait == was.1.ignore_wait
                            &&& row.1.last_client_when == was.1.last_client_when
                        }
                    }
                &&& !goes_on ==> group.state == before.state && group.is_playing
                    == before.is_playing && group.start_position_ticks
                    == before.start_position_ticks
                &&& goes_on ==> group.state == if before.waiting_resume_playing {
                    GroupStateType::Playing
                } else {
                    GroupStateType::Paused
                }
                &&& forall|s: Seq<char>|
                    #![trigger st.outboxes.contains_key(s)]
                    st.outboxes.contains_key(s) && s != session ==> {
                        &&& after.outboxes[s].take(st.outboxes[s].len() as int) == st.outboxes[s]
                        &&& !goes_on || !message_laws::among(before.participants, s)
                            ==> after.outboxes[s] == st.outboxes[s]
                        &&& goes_on && message_laws::among(before.participants, s)
                            ==> tells_to_go_on(
                            news(st.outboxes, after.outboxes, s),
                            before,
                            "Disconnect"@,
                        )
                    }
            }
        }),
{
    let after = service::unregistered(st, session, connection_id, grace_id, now);
    let closed = st.outboxes.remove(session);
    if st.session_to_group.contains_key(session) {
        let gid = st.session_to_group[session];
        let before = st.groups[gid];
        let off = service::disconnected(before, session);
        let group = after.groups[gid];
        assert(laws::group_sound(before, gid));
        assert(after.groups.dom() =~= st.groups.dom());
        message_laws::lemma_among(before.participants, session);
        let member = ParticipantView {
            is_connected: false,
            ..table::rows_map(before.participants)[session]
        };
        group_laws::lemma_put_in_place(before.participants, session, member);
        assert forall|i: int| 0 <= i < before.participants.len() implies {
            let was = before.participants[i];
            let row = #[trigger] off.participants[i];
            &&& row.0 == was.0
            &&& was.0 != session ==> row.1 == was.1
            &&& was.0 == session ==> {
                &&& !row.1.is_connected && row.1.is_buffering == was.1.is_buffering
                &&& row.1.user_name == was.1.user_name && row.1.ping == was.1.ping
                &&& row.1.ignore_wait == was.1.ignore_wait
                &&& row.1.last_client_when == was.1.last_client_when
            }
        } by {
            table::lemma_row_is_entry(before.participants, i);
        }
        group_laws::law_group_stops_waiting_when_all_are_ready(off, now);
        group_laws::law_members_are_told_that_the_wait_is_over(closed, off, "Disconnect"@, now);
        group_laws::law_ready_means_nobody_holds_it_up(off);
        let held_up = exists|i: int|
            0 <= i < before.participants.len() && before.participants[i].0 != session && {
                let member = (#[trigger] before.participants[i]).1;
                member.is_connected && member.is_buffering && !member.ignore_wait
            };
        assert(held_up <==> !group::ready(off)) by {
            if held_up {
                let i = choose|i: int|
                    0 <= i < before.participants.len() && before.participants[i].0 != session && {
                        let member = (#[trigger] before.participants[i]).1;
                        member.is_connected && member.is_buffering && !member.ignore_wait
                    };
                assert(off.participants[i].1 == before.participants[i].1);
                assert(!group::member_ready(off.participants[i].1));
            }
            if !group::ready(off) {
                let i = choose|i: int|
                    0 <= i < off.participants.len() && !group::member_ready(
                        (#[trigger] off.participants[i]).1,
                    );
                assert(before.participants[i].0 != session);
                let member = before.participants[i].1;
                assert(member.is_connected && member.is_buffering && !member.ignore_wait);
            }
        }
        assert forall|s: Seq<char>|
            message_laws::among(off.participants, s) <==> message_laws::among(
                before.participants,
                s,
            ) by {
            if message_laws::among(before.participants, s) {
                let i = choose|i: int|
                    0 <= i < before.participants.len() && (#[trigger] before.participants[i]).0
                        == s;
                assert(off.participants[i].0 == s);
            }
            if message_laws::among(off.participants, s) {
                let i = choose|i: int|
                    0 <= i < off.participants.len() && (#[trigger] off.participants[i]).0 == s;
                assert(before.participants[i].0 == s);
            }
        }
        assert forall|s: Seq<char>|
            #![trigger st.outboxes.contains_key(s)]
            st.outboxes.contains_key(s) && s != session implies after.outboxes[s].take(
            st.outboxes[s].len() as int,
        ) == st.outboxes[s] by {
            assert(closed.contains_key(s) && closed[s] == st.outboxes[s]);
            if after.outboxes[s] == closed[s] {
                assert(closed[s].take(closed[s].len() as int) =~= closed[s]);
            }
        }
    }
}

/// Two messages tell a member that a group which waited goes on: to play or to
/// pause, at the place that was pending, and what the group is doing now.
pub open spec fn tells_to_go_on(
    messages: Seq<PayloadView>,
    waiting: GroupView,
    why: Seq<char>,
) -> bool {
    let resumes = waiting.waiting_resume_playing;
    &&& messages.len() == 2
    &&& messages[0] matches PayloadView::Command { group_id, position_ticks, command, .. } && {
        &&& group_id == waiting.group_id
        &&& command == if resumes {
            SendCommandType::Unpause
        } else {
            SendCommandType::Pause
        }
        &&& position_ticks == match waiting.pending_position_ticks {
            Some(ticks) => Some(ticks),
            None => Some(waiting.start_position_ticks),
        }
    }
    &&& messages[1] matches PayloadView::GroupUpdate {
        group_id,
        update_type,
        data: UpdateDataView::State(doing, reason),
    } && {
        &&& group_id == waiting.group_id
        &&& update_type == GroupUpdateType::StateUpdate
        &&& doing == if resumes {
            GroupStateType::Playing
        } else {
            GroupStateType::Paused
        }
        &&& reason == why
    }
}

/// A connection that is not the session's current one closes without effect, and
/// so does a grace period end that is not the running one or whose session is
/// back; the running one ends with the session out of its group.
pub proof fn law_only_the_current_counts(
    st: StateView,
    session: Seq<char>,
    connection_id: u128,
    grace_id: u128,
    now: nat,
)
    requires
        laws::sound(st),
    ensures
        !(st.connection_ids.contains_key(session) && st.connection_ids[session]
            == connection_id) ==> service::unregistered(
            st,
            session,
            connection_id,
            grace_id,
            now,
        ) == st,
        st.outboxes.contains_key(session) ==> service::grace_expired(st, session, grace_id, now)
            == st,
        !(st.grace_ids.contains_key(session) && st.grace_ids[session] == grace_id)
            ==> service::grace_expired(st, session, grace_id, now) == st,
        st.grace_ids.contains_key(session) && st.grace_ids[session] == grace_id
            && !st.outboxes.contains_key(session) ==> {
            let after = service::grace_expired(st, session, grace_id, now);
            &&& !after.session_to_group.contains_key(session)
            &&& !after.grace_ids.contains_key(session)
            &&& forall|g: u128|
                #![trigger after.groups.contains_key(g)]
                after.groups.contains_key(g) ==> !message_laws::among(
                    after.groups[g].participants,
                    session,
                )
        },
{
    if st.grace_ids.contains_key(session) && st.grace_ids[session] == grace_id
        && !st.outboxes.contains_key(session) {
        laws::law_leaving_keeps_the_state_sound(st, session, now);
        let after = service::grace_expired(st, session, grace_id, now);
        assert forall|g: u128|
            #![trigger after.groups.contains_key(g)]
            after.groups.contains_key(g) implies !message_laws::among(
            after.groups[g].participants,
            session,
        ) by {
            message_laws::lemma_among(after.groups[g].participants, session);
        }
    }
}

/// A connection that turns out to be gone takes its session's outbox with it, and
/// nothing else.
pub proof fn law_lost_connection_takes_its_outbox(st: StateView, session: Seq<char>)
    ensures
        ({
            let after = service::lost(st, session);
            &&& !after.outboxes.contains_key(session) && !after.connection_ids.contains_key(
                session,
            )
            &&& after.groups == st.groups && after.session_to_group == st.session_to_group
                && after.grace_ids == st.grace_ids
            &&& forall|s: Seq<char>|
                #![trigger after.outboxes.contains_key(s)]
                #![trigger after.connection_ids.contains_key(s)]
                s != session ==> {
                    &&& after.outboxes.contains_key(s) <==> st.outboxes.contains_key(s)
                    &&& st.outboxes.contains_key(s) ==> after.outboxes[s] == st.outboxes[s]
                    &&& after.connection_ids.contains_key(s) <==> st.connection_ids.contains_key(s)
                    &&& st.connection_ids.contains_key(s) ==> after.connection_ids[s]
                        == st.connection_ids[s]
                }
        }),
{
}

/// A session is in a group where it is listed under one that is there, and its
/// group is that one.
pub proof fn law_group_of_a_session_is_the_listed_one(st: StateView, session: Seq<char>)
    ensures
        service::in_group(st, session) <==> st.session_to_group.contains_key(session)
            && st.groups.contains_key(st.session_to_group[session]),
        service::in_group(st, session) ==> service::group_of(st, session)
            == st.groups[st.session_to_group[session]],
        forall|outboxes: Outboxes|
            {
                let after = #[trigger] state::with_outboxes(st, outboxes);
                &&& after.outboxes == outboxes
                &&& after.groups == st.groups && after.session_to_group == st.session_to_group
                &&& after.connection_ids == st.connection_ids && after.grace_ids == st.grace_ids
            },
{
}

} // verus!
