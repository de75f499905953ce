//! What the members of a SyncPlay group are sent, message by message.
use vstd::prelude::*;
use crate::clock;
use crate::syncplay::group;
use crate::syncplay::models;
use crate::syncplay::models::{
    GroupInfoDto, GroupParticipant, GroupUpdateType, GroupView, OutboundWebSocketMessage, Payload,
    PayloadView, PlayQueueUpdateReason, SendCommandType, SyncPlayGroup, UpdateData,
    UpdateDataView,
};
use crate::syncplay::service;
use crate::syncplay::service::SyncPlayService;
use crate::syncplay::state;
use crate::syncplay::state::{Members, Outboxes, SyncPlayState};
use crate::table;

verus! {

/// A session stands in one of the rows.
pub open spec fn among(members: Members, session: Seq<char>) -> bool {
    exists|i: int| 0 <= i < members.len() && (#[trigger] members[i]).0 == session
}

/// Being a member is standing in one of the rows.
pub proof fn lemma_among(members: Members, session: Seq<char>)
    ensures
        state::has_member(members, session) <==> among(members, session),
{
    if state::has_member(members, session) {
        let i = choose|i: int| table::row_of(members, session, i);
        assert(members[i].0 == session);
    }
    if among(members, session) {
        let i = choose|i: int| 0 <= i < members.len() && (#[trigger] members[i]).0 == session;
        assert(table::row_of(members, session, i));
    }
}

/// What is sent to one session is the last message of that session's outbox, and
/// of nobody else's. A session without a connection gets nothing.
pub proof fn law_sending_reaches_one_session(
    outboxes: Outboxes,
    session: Seq<char>,
    payload: PayloadView,
)
    ensures
        ({
            let after = state::sent(outboxes, session, payload);
            &&& forall|s: Seq<char>| #[trigger]
                after.contains_key(s) <==> outboxes.contains_key(s)
            &&& outboxes.contains_key(session) ==> {
                &&& after[session].len() == outboxes[session].len() + 1
                &&& after[session].last() == payload
                &&& after[session].drop_last() == outboxes[session]
            }
            &&& forall|s: Seq<char>|
                s != session && outboxes.contains_key(s) ==> #[trigger] after[s] == outboxes[s]
        }),
{
    let after = state::sent(outboxes, session, payload);
    if outboxes.contains_key(session) {
        assert(after[session].drop_last() =~= outboxes[session]);
    }
}

/// What is sent to a list of different sessions is the last message of each of
/// their outboxes, and of nobody else's.
pub proof fn law_sending_reaches_the_listed(
    outboxes: Outboxes,
    sessions: Seq<Seq<char>>,
    payload: PayloadView,
)
    requires
        sessions.no_duplicates(),
    ensures
        ({
            let after = state::sent_all(outboxes, sessions, payload);
            &&& forall|s: Seq<char>| #[trigger]
                after.contains_key(s) <==> outboxes.contains_key(s)
            &&& forall|i: int|
                0 <= i < sessions.len() && outboxes.contains_key(#[trigger] sessions[i])
                    ==> after[sessions[i]] == outboxes[sessions[i]].push(payload)
            &&& forall|s: Seq<char>|
                !sessions.contains(s) && outboxes.contains_key(s) ==> #[trigger] after[s]
                    == outboxes[s]
        }),
{
    state::lemma_sent_all(outboxes, sessions, payload);
    assert forall|i: int|
        0 <= i < sessions.len() && outboxes.contains_key(#[trigger] sessions[i]) implies state::sent_all(
        outboxes,
        sessions,
        payload,
    )[sessions[i]] == outboxes[sessions[i]].push(payload) by {
        assert(sessions.contains(sessions[i]));
    }
}

/// What is sent to the members of a group is the last message of every member's
/// outbox, once, and of nobody else's.
pub proof fn law_broadcast_reaches_every_member(
    outboxes: Outboxes,
    members: Members,
    payload: PayloadView,
)
    ensures
        ({
            let after = state::broadcast(outboxes, members, payload);
            &&& forall|s: Seq<char>| #[trigger]
                after.contains_key(s) <==> outboxes.contains_key(s)
            &&& forall|i: int|
                0 <= i < members.len() && outboxes.contains_key((#[trigger] members[i]).0)
                    ==> after[members[i].0] == outboxes[members[i].0].push(payload)
            &&& forall|s: Seq<char>|
                outboxes.contains_key(s) && !among(members, s) ==> #[trigger] after[s]
                    == outboxes[s]
        }),
{
    let after = state::broadcast(outboxes, members, payload);
    assert forall|i: int|
        0 <= i < members.len() && outboxes.contains_key((#[trigger] members[i]).0) implies after[members[i].0]
        == outboxes[members[i].0].push(payload) by {
        assert(table::row_of(members, members[i].0, i));
        assert(state::has_member(members, members[i].0));
    }
    assert forall|s: Seq<char>| outboxes.contains_key(s) && !among(members, s) implies #[trigger] after[s]
        == outboxes[s] by {
        lemma_among(members, s);
    }
}

/// The others are told, the session itself is not, and nobody outside the group
/// is.
pub proof fn law_others_are_told_once(
    outboxes: Outboxes,
    members: Members,
    session: Seq<char>,
    payload: PayloadView,
)
    ensures
        ({
            let after = service::told_others(outboxes, members, session, payload);
            &&& forall|s: Seq<char>| #[trigger]
                after.contains_key(s) <==> outboxes.contains_key(s)
            &&& forall|i: int|
                0 <= i < members.len() && (#[trigger] members[i]).0 != session
                    && outboxes.contains_key(members[i].0) ==> after[members[i].0]
                    == outboxes[members[i].0].push(payload)
            &&& outboxes.contains_key(session) ==> after[session] == outboxes[session]
            &&& forall|s: Seq<char>|
                outboxes.contains_key(s) && !among(members, s) ==> #[trigger] after[s]
                    == outboxes[s]
        }),
{
    let after = service::told_others(outboxes, members, session, payload);
    assert forall|i: int|
        0 <= i < members.len() && (#[trigger] members[i]).0 != session && outboxes.contains_key(
            members[i].0,
        ) implies after[members[i].0] == outboxes[members[i].0].push(payload) by {
        assert(table::row_of(members, members[i].0, i));
        assert(state::has_member(members, members[i].0));
    }
    assert forall|s: Seq<char>| outboxes.contains_key(s) && !among(members, s) implies #[trigger] after[s]
        == outboxes[s] by {
        lemma_among(members, s);
    }
}

/// A command says what was asked for, of the group that it was asked for, and
/// names the item that the group plays; nil where it plays none of its queue. It
/// is to be followed as many milliseconds from now as was asked, at once where
/// that is a negative number.
pub proof fn law_command_names_what_plays(
    group: GroupView,
    asked: SendCommandType,
    position: Option<i64>,
    delay: i64,
    now: nat,
)
    requires
        now <= u128::MAX,
    ensures
        match state::command(group, asked, position, delay, now) {
            PayloadView::Command {
                group_id,
                playlist_item_id,
                when,
                position_ticks,
                command,
                emitted_at,
            } => {
                &&& group_id == group.group_id
                &&& command == asked
                &&& position_ticks == position
                &&& emitted_at == now
                &&& match group.playing_item_index {
                    Some(i) => if i < group.playlist.len() {
                        playlist_item_id == group.playlist[i as int].playlist_item_id
                    } else {
                        playlist_item_id == 0
                    },
                    None => playlist_item_id == 0,
                }
                &&& delay <= 0 ==> when == now
                &&& delay > 0 && now + delay * 1_000_000 <= u128::MAX ==> when == now + delay
                    * 1_000_000
            },
            _ => false,
        },
{
    assert(clock::NANOS_PER_MILLI == 1_000_000);
}

/// Every member of a group is sent the command, as the group is: a command of
/// the group's, with the item that plays in it.
pub proof fn law_members_are_commanded(
    outboxes: Outboxes,
    group: GroupView,
    asked: SendCommandType,
    position: Option<i64>,
    delay: i64,
    now: nat,
    i: int,
)
    requires
        now <= u128::MAX,
        0 <= i < group.participants.len(),
        outboxes.contains_key(group.participants[i].0),
    ensures
        ({
            let session = group.participants[i].0;
            let after = state::broadcast(
                outboxes,
                group.participants,
                state::command(group, asked, position, delay, now),
            );
            &&& after[session].len() == outboxes[session].len() + 1
            &&& match after[session].last() {
                PayloadView::Command {
                    group_id,
                    playlist_item_id,
                    position_ticks,
                    command,
                    ..
                } => {
                    &&& group_id == group.group_id && command == asked && position_ticks
                        == position
                    &&& match group.playing_item_index {
                        Some(at) => at < group.playlist.len() ==> playlist_item_id
                            == group.playlist[at as int].playlist_item_id,
                        None => true,
                    }
                },
                _ => false,
            }
        }),
{
    law_command_names_what_plays(group, asked, position, delay, now);
    law_broadcast_reaches_every_member(
        outboxes,
        group.participants,
        state::command(group, asked, position, delay, now),
    );
}

/// The queue that is sent is the group's, item by item, with the group's place in
/// it, its position, whether it plays, and its modes. Where the group plays none
/// of its queue the place is -1.
pub proof fn law_sent_queue_is_the_groups(group: GroupView, why: PlayQueueUpdateReason)
    requires
        group.playlist.len() <= i64::MAX,
    ensures
        match state::queue_update(group, why) {
            PayloadView::GroupUpdate { group_id, update_type, data: UpdateDataView::Queue(q) } => {
                &&& group_id == group.group_id
                &&& update_type == GroupUpdateType::PlayQueue
                &&& q.reason == why
                &&& q.playlist.len() == group.playlist.len()
                &&& forall|i: int|
                    0 <= i < group.playlist.len() ==> {
                        &&& (#[trigger] q.playlist[i]).item_id == group.playlist[i].item_id
                        &&& q.playlist[i].playlist_item_id == group.playlist[i].playlist_item_id
                    }
                &&& match group.playing_item_index {
                    Some(at) => if at < group.playlist.len() {
                        q.playing_item_index == at
                    } else {
                        q.playing_item_index == -1
                    },
                    None => q.playing_item_index == -1,
                }
                &&& q.start_position_ticks == group.start_position_ticks
                &&& q.is_playing == group.is_playing
                &&& q.shuffle_mode == group.shuffle_mode
                &&& q.repeat_mode == group.repeat_mode
                &&& q.last_update == group.last_updated_at
            },
            _ => false,
        },
{
}

/// A state update says what the group is doing and why.
pub proof fn law_state_update_tells_the_state(group: GroupView, why: Seq<char>)
    ensures
        match state::state_update(group, why) {
            PayloadView::GroupUpdate {
                group_id,
                update_type,
                data: UpdateDataView::State(doing, reason),
            } => group_id == group.group_id && update_type == GroupUpdateType::StateUpdate && doing
                == group.state && reason == why,
            _ => false,
        },
{
}

/// An update is of the group, of the kind and with the data that were given, and
/// a notice carries an empty text.
pub proof fn law_updates_carry_what_they_are_given(
    of: u128,
    kind: GroupUpdateType,
    what: UpdateDataView,
)
    ensures
        match state::update(of, kind, what) {
            PayloadView::GroupUpdate { group_id, update_type, data } => group_id == of
                && update_type == kind && data == what,
            _ => false,
        },
        match state::notice(of, kind) {
            PayloadView::GroupUpdate { group_id, update_type, data: UpdateDataView::Text(text) } =>
                group_id == of && update_type == kind && text.len() == 0,
            _ => false,
        },
{
}

/// A group is shown under its own identifier, name and state, with the name of
/// every member, in the members' order.
pub proof fn law_group_is_shown_as_it_is(group: GroupView)
    ensures
        ({
            let shown = group::info(group);
            &&& shown.group_id == group.group_id
            &&& shown.group_name == group.group_name
            &&& shown.state == group.state
            &&& shown.last_updated_at == group.last_updated_at
            &&& shown.participants.len() == group.participants.len()
            &&& forall|i: int|
                0 <= i < group.participants.len() ==> #[trigger] shown.participants[i]
                    == group.participants[i].1.user_name
        }),
{
}

/// The item identifiers of a queue are those of its items, in their order.
pub proof fn law_item_ids_are_the_items(group: GroupView)
    ensures
        group::item_ids(group.playlist).len() == group.playlist.len(),
        forall|i: int|
            0 <= i < group.playlist.len() ==> #[trigger] group::item_ids(group.playlist)[i]
                == group.playlist[i].item_id,
{
}

/// The view of a group shows every field of it, and of its queue every item.
pub proof fn law_group_view_shows_the_group(group: SyncPlayGroup)
    ensures
        group@.group_id == group.group_id,
        group@.group_name == group.group_name@,
        group@.state == group.state,
        group@.participants == group.participants.items(),
        group@.playlist.len() == group.playlist@.len(),
        forall|i: int|
            0 <= i < group.playlist@.len() ==> {
                &&& (#[trigger] group@.playlist[i]).item_id == group.playlist@[i].item_id@
                &&& group@.playlist[i].playlist_item_id == group.playlist@[i].playlist_item_id
            },
        group@.playing_item_index == group.playing_item_index,
        group@.start_position_ticks == group.start_position_ticks,
        group@.pending_position_ticks == group.pending_position_ticks,
        group@.position_base_when == group.position_base_when.nanos,
        group@.is_playing == group.is_playing,
        group@.shuffle_mode == group.shuffle_mode,
        group@.repeat_mode == group.repeat_mode,
        group@.waiting_resume_playing == group.waiting_resume_playing,
        group@.last_updated_at == group.last_updated_at.nanos,
{
}

/// The view of a member shows every field.
pub proof fn law_member_view_shows_the_member(member: GroupParticipant)
    ensures
        member@.user_name == member.user_name@,
        member@.ping == member.ping,
        member@.is_buffering == member.is_buffering,
        member@.ignore_wait == member.ignore_wait,
        member@.is_connected == member.is_connected,
        member@.last_client_when is Some <==> member.last_client_when is Some,
        member.last_client_when matches Some(at) ==> member@.last_client_when == Some(
            at.nanos as nat,
        ),
{
}

/// The view of what a message carries shows every field of it.
pub proof fn law_payload_view_shows_the_payload(payload: Payload)
    ensures
        match payload {
            Payload::ForceKeepAlive(n) => payload@ matches PayloadView::ForceKeepAlive(m) && m == n,
            Payload::KeepAlive => payload@ is KeepAlive,
            Payload::Command(c) => payload@ matches PayloadView::Command {
                group_id,
                playlist_item_id,
                when,
                position_ticks,
                command,
                emitted_at,
            } && group_id == c.group_id && playlist_item_id == c.playlist_item_id && when
                == c.when.nanos && position_ticks == c.position_ticks && command == c.command
                && emitted_at == c.emitted_at.nanos,
            Payload::GroupUpdate(u) => payload@ matches PayloadView::GroupUpdate {
                group_id,
                update_type,
                data,
            } && group_id == u.group_id && update_type == u.update_type && match u.data {
                UpdateData::Text(t) => data matches UpdateDataView::Text(shown) && shown == t@,
                UpdateData::State(st, why) => data matches UpdateDataView::State(doing, reason)
                    && doing == st && reason == why@,
                UpdateData::Info(i) => data matches UpdateDataView::Info(shown) && {
                    &&& shown.group_id == i.group_id
                    &&& shown.group_name == i.group_name@
                    &&& shown.state == i.state
                    &&& shown.last_updated_at == i.last_updated_at.nanos
                    &&& shown.participants.len() == i.participants@.len()
                    &&& forall|k: int|
                        0 <= k < i.participants@.len() ==> #[trigger] shown.participants[k]
                            == i.participants@[k]@
                },
                UpdateData::Queue(q) => data matches UpdateDataView::Queue(shown) && {
                    &&& shown.reason == q.reason
                    &&& shown.last_update == q.last_update.nanos
                    &&& shown.playlist.len() == q.playlist@.len()
                    &&& forall|k: int|
                        0 <= k < q.playlist@.len() ==> {
                            &&& (#[trigger] shown.playlist[k]).item_id == q.playlist@[k].item_id@
                            &&& shown.playlist[k].playlist_item_id
                                == q.playlist@[k].playlist_item_id
                        }
                    &&& shown.playing_item_index == q.playing_item_index
                    &&& shown.start_position_ticks == q.start_position_ticks
                    &&& shown.is_playing == q.is_playing
                    &&& shown.shuffle_mode == q.shuffle_mode
                    &&& shown.repeat_mode == q.repeat_mode
                },
            },
        },
{
}

/// The kinds of message go by their names.
pub proof fn law_messages_are_named_by_what_they_carry(payload: PayloadView)
    ensures
        payload is ForceKeepAlive ==> models::message_kind(payload) == "ForceKeepAlive"@,
        payload is KeepAlive ==> models::message_kind(payload) == "KeepAlive"@,
        payload is GroupUpdate ==> models::message_kind(payload) == "SyncPlayGroupUpdate"@,
        payload is Command ==> models::message_kind(payload) == "SyncPlayCommand"@,
{
}

/// Sending to a list goes session by session: one more session in the list is one
/// more message, to that session.
pub proof fn law_sending_goes_session_by_session(
    outboxes: Outboxes,
    sessions: Seq<Seq<char>>,
    session: Seq<char>,
    payload: PayloadView,
)
    ensures
        state::sent_all(outboxes, Seq::empty(), payload) == outboxes,
        ({
            let before = state::sent_all(outboxes, sessions, payload);
            let after = state::sent_all(outboxes, sessions.push(session), payload);
            &&& after.dom() == before.dom()
            &&& before.contains_key(session) ==> after[session] == before[session].push(payload)
            &&& forall|s: Seq<char>|
                s != session && before.contains_key(s) ==> #[trigger] after[s] == before[s]
        }),
{
    assert(sessions.push(session).drop_last() =~= sessions);
    let before = state::sent_all(outboxes, sessions, payload);
    let after = state::sent_all(outboxes, sessions.push(session), payload);
    assert(after.dom() =~= before.dom());
}

/// The views of a list are its items' views, one by one, and a list that is missing
/// has none.
pub proof fn law_views_of_texts_are_the_texts(texts: Vec<String>)
    ensures
        models::views(texts@).len() == texts@.len(),
        forall|i: int|
            0 <= i < texts@.len() ==> #[trigger] models::views(texts@)[i] == texts@[i]@,
        service::opt_views(None) is None,
        service::opt_views(Some(texts)) matches Some(list) && list.len() == texts@.len()
            && forall|i: int| 0 <= i < texts@.len() ==> #[trigger] list[i] == texts@[i]@,
{
}

/// The views of a list of messages are what they carry, one by one.
pub proof fn law_views_of_messages_are_what_they_carry(messages: Vec<OutboundWebSocketMessage>)
    ensures
        models::views(messages@).len() == messages@.len(),
        forall|i: int|
            0 <= i < messages@.len() ==> #[trigger] models::views(messages@)[i]
                == messages@[i].payload@,
{
}

/// The view of what a group is shown as shows every field, and every name.
pub proof fn law_info_view_shows_the_info(info: GroupInfoDto)
    ensures
        info@.group_id == info.group_id,
        info@.group_name == info.group_name@,
        info@.state == info.state,
        info@.last_updated_at == info.last_updated_at.nanos,
        info@.participants.len() == info.participants@.len(),
        forall|i: int|
            0 <= i < info.participants@.len() ==> #[trigger] info@.participants[i]
                == info.participants@[i]@,
{
}

/// The view of the state shows its five tables.
pub proof fn law_state_view_shows_the_tables(st: SyncPlayState)
    ensures
        st@.groups == st.groups@,
        st@.session_to_group == st.session_to_group@,
        st@.outboxes == st.ws_connections@,
        st@.connection_ids == st.ws_connection_ids@,
        st@.grace_ids == st.disconnect_grace_ids@,
        forall|s: SyncPlayService| (#[trigger] s@) == s.state@,
{
}

/// The state that a service begins with holds nothing.
pub proof fn law_beginning_is_empty(g: u128, s: Seq<char>)
    ensures
        !state::no_state().groups.contains_key(g),
        !state::no_state().session_to_group.contains_key(s),
        !state::no_state().outboxes.contains_key(s),
        !state::no_state().connection_ids.contains_key(s),
        !state::no_state().grace_ids.contains_key(s),
{
}

} // verus!
