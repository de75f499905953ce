//! The SyncPlay service: connections come and go, sessions create, join and
//! leave groups.
//!
//! A function that ends in `_at` takes the time, and the identifiers that are
//! new, as arguments; its namesake reads the clock and draws them.
use vstd::prelude::*;
use crate::clock;
use crate::clock::Timestamp;
use crate::ids;
use crate::ids::{id_text, new_id};
use crate::syncplay::group;
use crate::syncplay::models;
use crate::syncplay::models::{
    GroupInfoDto, GroupParticipant, GroupRepeatMode, GroupShuffleMode, GroupStateType,
    GroupUpdateType, GroupView, OutboundWebSocketMessage, ParticipantView, Payload, PayloadView,
    PlayQueueUpdateReason, SendCommandType, SyncPlayGroup, UpdateData, UpdateDataView,
    DEFAULT_PING_MS,
};
use crate::syncplay::state;
use crate::syncplay::state::{Members, Outbox, Outboxes, StateView, SyncPlayState};
use crate::table;
use crate::table::Table;
use crate::text::same_text;
use crate::users::User;

verus! {

/// How many seconds a client may stay silent.
pub const KEEP_ALIVE_SECS: u64 = 15;

/// A session of a user.
#[derive(Debug)]
pub struct SessionContext {
    pub user: User,
    pub session_id: String,
}

/// The name of the member with a session, empty where there is none.
pub open spec fn name_of(members: Members, session: Seq<char>) -> Seq<char> {
    if state::has_member(members, session) {
        table::rows_map(members)[session].user_name
    } else {
        Seq::empty()
    }
}

/// A group that a session has left.
pub open spec fn departed(group: GroupView, session: Seq<char>, now: nat) -> GroupView {
    group::touched(
        GroupView { participants: table::cut(group.participants, session), ..group },
        now,
    )
}

/// The state once a session has left its group, where it is in one: the members
/// who stay and the session itself are told, the group stops waiting where it
/// waited for nobody else, and a group without members is gone.
pub open spec fn left(st: StateView, session: Seq<char>, now: nat) -> StateView {
    let graceless = StateView { grace_ids: st.grace_ids.remove(session), ..st };
    if !st.session_to_group.contains_key(session) {
        graceless
    } else {
        let group_id = st.session_to_group[session];
        let unlisted = StateView {
            session_to_group: st.session_to_group.remove(session),
            ..graceless
        };
        if !st.groups.contains_key(group_id) {
            unlisted
        } else {
            let group = st.groups[group_id];
            let after = departed(group, session, now);
            let told = state::sent(
                state::broadcast(
                    st.outboxes,
                    after.participants,
                    state::update(
                        after.group_id,
                        GroupUpdateType::UserLeft,
                        UpdateDataView::Text(name_of(group.participants, session)),
                    ),
                ),
                session,
                state::update(
                    group_id,
                    GroupUpdateType::GroupLeft,
                    UpdateDataView::Text(ids::hyphenated_text(group_id)),
                ),
            );
            if after.participants.len() > 0 {
                StateView {
                    groups: st.groups.insert(group_id, state::resolved(after, now)),
                    outboxes: state::resolved_outboxes(told, after, "Leave"@, now),
                    ..unlisted
                }
            } else {
                StateView { groups: st.groups.remove(group_id), outboxes: told, ..unlisted }
            }
        }
    }
}

fn leave_locked_at(state: &mut SyncPlayState, session_id: &str, now: Timestamp)
    ensures
        final(state)@ == left(old(state)@, session_id@, now@),
{
    let key = session_id.to_owned();
    let _ = state.disconnect_grace_ids.remove(&key);
    let found = state.session_to_group.remove(&key);
    let group_id = match found {
        Some(group_id) => group_id,
        None => {
            assert(state@ =~= left(old(state)@, session_id@, now@));
            return;
        },
    };
    if let Some(group) = state.groups.remove(&group_id) {
        let mut group = group;
        let user_name = match group.participants.get(&key) {
            Some(member) => member.user_name.clone(),
            None => String::new(),
        };
        assert(user_name@ == name_of(group@.participants, session_id@));
        let _ = group.participants.remove(&key);
        group.touch_at(now);
        state.broadcast_group_update(
            &group,
            GroupUpdateType::UserLeft,
            UpdateData::Text(user_name),
        );
        state.send_to_session(
            session_id,
            Payload::GroupUpdate(
                models::GroupUpdateEnvelope {
                    group_id,
                    update_type: GroupUpdateType::GroupLeft,
                    data: UpdateData::Text(id_text(group_id)),
                },
            ),
        );
        if group.participants.len() > 0 {
            state.resolve_waiting_at(&mut group, "Leave", now);
            state.groups.insert(group_id, group);
        }
    }
    assert(state@ =~= left(old(state)@, session_id@, now@));
}

/// A group that has a queue stops and waits for a member who comes in; it plays
/// on afterwards where it was playing.
pub open spec fn waiting_for(group: GroupView, now: nat) -> GroupView {
    if group.playlist.len() > 0 {
        GroupView {
            pending_position_ticks: Some(group::estimated_position(group, now)),
            state: GroupStateType::Waiting,
            waiting_resume_playing: group.is_playing,
            ..group::frozen(group, now)
        }
    } else {
        group
    }
}

/// The outboxes once a session has been welcomed to a group: the session gets
/// the group and its queue, and a group that waits tells its members so.
pub open spec fn welcomed(
    outboxes: Outboxes,
    group_id: u128,
    group: GroupView,
    session: Seq<char>,
    now: nat,
) -> Outboxes {
    let joined = state::sent(
        outboxes,
        session,
        state::update(
            group_id,
            GroupUpdateType::GroupJoined,
            UpdateDataView::Info(group::info(group)),
        ),
    );
    let queued = state::sent(
        joined,
        session,
        state::queue_update(group, PlayQueueUpdateReason::NewPlaylist),
    );
    if group.state == GroupStateType::Waiting {
        let paused = if group.waiting_resume_playing {
            state::broadcast(
                queued,
                group.participants,
                state::command(
                    group,
                    SendCommandType::Pause,
                    Some(group.start_position_ticks),
                    0,
                    now,
                ),
            )
        } else {
            queued
        };
        state::broadcast(paused, group.participants, state::state_update(group, "Buffer"@))
    } else {
        queued
    }
}

/// A group whose member has come back: buffering where there is a queue.
pub open spec fn reconnected(group: GroupView, session: Seq<char>) -> GroupView {
    if state::has_member(group.participants, session) {
        GroupView {
            participants: table::put(
                group.participants,
                session,
                ParticipantView {
                    is_connected: true,
                    is_buffering: group.playlist.len() > 0,
                    last_client_when: None,
                    ..table::rows_map(group.participants)[session]
                },
            ),
            ..group
        }
    } else {
        group
    }
}

/// A group whose member has lost the connection.
pub open spec fn disconnected(group: GroupView, session: Seq<char>) -> GroupView {
    if state::has_member(group.participants, session) {
        GroupView {
            participants: table::put(
                group.participants,
                session,
                ParticipantView {
                    is_connected: false,
                    ..table::rows_map(group.participants)[session]
                },
            ),
            ..group
        }
    } else {
        group
    }
}

/// The session is in a group, and the group is there.
pub open spec fn in_group(st: StateView, session: Seq<char>) -> bool {
    st.session_to_group.contains_key(session) && st.groups.contains_key(
        st.session_to_group[session],
    )
}

/// The group of a session.
pub open spec fn group_of(st: StateView, session: Seq<char>) -> GroupView {
    st.groups[st.session_to_group[session]]
}

/// The state once a session has connected: an earlier connection and a running
/// grace period are gone, and the session's group waits for it.
pub open spec fn registered(
    st: StateView,
    session: Seq<char>,
    connection_id: u128,
    now: nat,
) -> StateView {
    let connected = StateView {
        outboxes: st.outboxes.insert(
            session,
            seq![PayloadView::ForceKeepAlive(KEEP_ALIVE_SECS)],
        ),
        connection_ids: st.connection_ids.insert(session, connection_id),
        grace_ids: st.grace_ids.remove(session),
        ..st
    };
    if in_group(st, session) {
        let group_id = st.session_to_group[session];
        let group = group::touched(
            waiting_for(reconnected(st.groups[group_id], session), now),
            now,
        );
        StateView {
            groups: st.groups.insert(group_id, group),
            outboxes: welcomed(connected.outboxes, group_id, group, session, now),
            ..connected
        }
    } else {
        connected
    }
}

/// A connection is the session's current one.
pub open spec fn is_current(st: StateView, session: Seq<char>, connection_id: u128) -> bool {
    st.connection_ids.contains_key(session) && st.connection_ids[session] == connection_id
}

/// The state once a connection has closed: where it is the session's current
/// one the grace period `grace_id` runs, and the session's group need not wait
/// for it.
pub open spec fn unregistered(
    st: StateView,
    session: Seq<char>,
    connection_id: u128,
    grace_id: u128,
    now: nat,
) -> StateView {
    if !is_current(st, session, connection_id) {
        st
    } else {
        let closed = StateView {
            outboxes: st.outboxes.remove(session),
            connection_ids: st.connection_ids.remove(session),
            grace_ids: st.grace_ids.insert(session, grace_id),
            ..st
        };
        if in_group(st, session) {
            let group_id = st.session_to_group[session];
            let group = disconnected(st.groups[group_id], session);
            StateView {
                groups: st.groups.insert(group_id, state::resolved(group, now)),
                outboxes: state::resolved_outboxes(
                    closed.outboxes,
                    group,
                    "Disconnect"@,
                    now,
                ),
                ..closed
            }
        } else {
            closed
        }
    }
}

/// The grace period is over and the session has not come back.
pub open spec fn grace_over(st: StateView, session: Seq<char>, grace_id: u128) -> bool {
    !st.outboxes.contains_key(session) && st.grace_ids.contains_key(session)
        && st.grace_ids[session] == grace_id
}

/// The state once a grace period has run out.
pub open spec fn grace_expired(
    st: StateView,
    session: Seq<char>,
    grace_id: u128,
    now: nat,
) -> StateView {
    if grace_over(st, session, grace_id) {
        left(st, session, now)
    } else {
        st
    }
}

/// A member who has just come in.
pub open spec fn newcomer(user_name: Seq<char>, is_buffering: bool) -> ParticipantView {
    ParticipantView {
        user_name,
        ping: DEFAULT_PING_MS as u64,
        is_buffering,
        ignore_wait: false,
        is_connected: true,
        last_client_when: None,
    }
}

/// A group that a session has just created.
pub open spec fn new_group(
    group_id: u128,
    group_name: Seq<char>,
    session: Seq<char>,
    user_name: Seq<char>,
    now: nat,
) -> GroupView {
    GroupView {
        group_id,
        group_name,
        state: GroupStateType::Idle,
        participants: seq![(session, newcomer(user_name, false))],
        playlist: Seq::empty(),
        playing_item_index: None,
        start_position_ticks: 0,
        pending_position_ticks: None,
        position_base_when: now,
        is_playing: false,
        shuffle_mode: GroupShuffleMode::Sorted,
        repeat_mode: GroupRepeatMode::RepeatNone,
        waiting_resume_playing: false,
        last_updated_at: now,
    }
}

/// The state once a session has created a group: it has left the one that it
/// was in. Without a connection nothing happens.
pub open spec fn created(
    st: StateView,
    session: Seq<char>,
    user_name: Seq<char>,
    group_name: Seq<char>,
    group_id: u128,
    now: nat,
) -> StateView {
    if !st.outboxes.contains_key(session) {
        st
    } else {
        let away = left(st, session, now);
        let group = new_group(group_id, group_name, session, user_name, now);
        StateView {
            groups: away.groups.insert(group_id, group),
            session_to_group: away.session_to_group.insert(session, group_id),
            outboxes: state::sent(
                away.outboxes,
                session,
                state::update(
                    group_id,
                    GroupUpdateType::GroupJoined,
                    UpdateDataView::Info(group::info(group)),
                ),
            ),
            ..away
        }
    }
}

/// A group that a session has joined.
pub open spec fn joined_group(
    group: GroupView,
    session: Seq<char>,
    user_name: Seq<char>,
    now: nat,
) -> GroupView {
    group::touched(
        waiting_for(
            GroupView {
                participants: table::put(
                    group.participants,
                    session,
                    newcomer(user_name, group.playlist.len() > 0),
                ),
                ..group
            },
            now,
        ),
        now,
    )
}

/// The outboxes once `payload` has been sent to every member but one session.
pub open spec fn told_others(
    outboxes: Outboxes,
    members: Members,
    session: Seq<char>,
    payload: PayloadView,
) -> Outboxes {
    Map::new(
        |s: Seq<char>| outboxes.contains_key(s),
        |s: Seq<char>|
            if state::has_member(members, s) && s != session {
                outboxes[s].push(payload)
            } else {
                outboxes[s]
            },
    )
}

/// The state once a session has asked to join a group: it has left the one that
/// it was in, and is told where the group does not exist or has another queue
/// than was expected. Without a connection nothing happens.
pub open spec fn joined(
    st: StateView,
    session: Seq<char>,
    user_name: Seq<char>,
    group_id: u128,
    expected: Option<Seq<Seq<char>>>,
    now: nat,
) -> StateView {
    if !st.outboxes.contains_key(session) {
        st
    } else {
        let away = left(st, session, now);
        if !away.groups.contains_key(group_id) {
            state::with_outboxes(
                away,
                state::sent(
                    away.outboxes,
                    session,
                    state::notice(0, GroupUpdateType::GroupDoesNotExist),
                ),
            )
        } else if expected is Some && expected.unwrap() != group::item_ids(
            away.groups[group_id].playlist,
        ) {
            state::with_outboxes(
                away,
                state::sent(
                    away.outboxes,
                    session,
                    state::notice(0, GroupUpdateType::LibraryAccessDenied),
                ),
            )
        } else {
            let group = joined_group(away.groups[group_id], session, user_name, now);
            StateView {
                groups: away.groups.insert(group_id, group),
                session_to_group: away.session_to_group.insert(session, group_id),
                outboxes: told_others(
                    welcomed(away.outboxes, group_id, group, session, now),
                    group.participants,
                    session,
                    state::update(
                        group_id,
                        GroupUpdateType::UserJoined,
                        UpdateDataView::Text(user_name),
                    ),
                ),
                ..away
            }
        }
    }
}

fn wait_for(group: &mut SyncPlayGroup, now: Timestamp)
    ensures
        final(group)@ == waiting_for(old(group)@, now@),
{
    if group.playlist.len() > 0 {
        let resume_playing = group.is_playing;
        let ticks = group.freeze_at_estimated_position(now);
        group.pending_position_ticks = Some(ticks);
        group.state = GroupStateType::Waiting;
        group.waiting_resume_playing = resume_playing;
    }
}

fn welcome(
    state: &mut SyncPlayState,
    group_id: u128,
    group: &SyncPlayGroup,
    session_id: &str,
    now: Timestamp,
)
    ensures
        final(state)@ == state::with_outboxes(
            old(state)@,
            welcomed(old(state)@.outboxes, group_id, group@, session_id@, now@),
        ),
{
    state.send_to_session(
        session_id,
        Payload::GroupUpdate(
            models::GroupUpdateEnvelope {
                group_id,
                update_type: GroupUpdateType::GroupJoined,
                data: UpdateData::Info(group.to_group_info()),
            },
        ),
    );
    let mut only: Vec<String> = Vec::new();
    only.push(session_id.to_owned());
    proof {
        assert(models::views(only@) =~= seq![session_id@]);
        state::lemma_sent_to_one(
            state@.outboxes,
            session_id@,
            state::queue_update(group@, PlayQueueUpdateReason::NewPlaylist),
        );
    }
    state.send_queue_update_to(group, PlayQueueUpdateReason::NewPlaylist, only);
    if group.state == GroupStateType::Waiting {
        if group.waiting_resume_playing {
            state.broadcast_command_at(
                group,
                SendCommandType::Pause,
                Some(group.start_position_ticks),
                0,
                now,
            );
        }
        state.broadcast_state_update(group, "Buffer");
    }
}

fn set_reconnected(group: &mut SyncPlayGroup, session_id: &str)
    ensures
        final(group)@ == reconnected(old(group)@, session_id@),
{
    let key = session_id.to_owned();
    let found = match group.participants.get(&key) {
        Some(member) => Some(member.clone()),
        None => None,
    };
    if let Some(member) = found {
        let mut member = member;
        member.is_connected = true;
        member.is_buffering = group.playlist.len() > 0;
        member.last_client_when = None;
        group.participants.insert(key, member);
    }
}

fn set_disconnected(group: &mut SyncPlayGroup, session_id: &str)
    ensures
        final(group)@ == disconnected(old(group)@, session_id@),
{
    let key = session_id.to_owned();
    let found = match group.participants.get(&key) {
        Some(member) => Some(member.clone()),
        None => None,
    };
    if let Some(member) = found {
        let mut member = member;
        member.is_connected = false;
        group.participants.insert(key, member);
    }
}

fn other_sessions(group: &SyncPlayGroup, session_id: &str) -> (sessions: Vec<String>)
    ensures
        models::views(sessions@).no_duplicates(),
        forall|s: Seq<char>|
            models::views(sessions@).contains(s) <==> state::has_member(group@.participants, s) && s
                != session_id@,
{
    let ghost rows = group@.participants;
    let n: usize = group.participants.len();
    let mut sessions: Vec<String> = Vec::new();
    let mut i: usize = 0;
    while i < n
        invariant
            i <= n,
            n == rows.len(),
            rows == group@.participants,
            table::keys_distinct(rows),
            models::views(sessions@).no_duplicates(),
            forall|s: Seq<char>|
                models::views(sessions@).contains(s) ==> s != session_id@ && exists|j: int|
                    j < i && #[trigger] table::row_of(rows, s, j),
            forall|j: int|
                0 <= j < i && (#[trigger] rows[j]).0 != session_id@ ==> models::views(
                    sessions@,
                ).contains(rows[j].0),
        decreases n - i,
    {
        let ghost had = models::views(sessions@);
        let session = group.participants.key_at(i);
        if !same_text(session.as_str(), session_id) {
            proof {
                if had.contains(session@) {
                    let j = choose|j: int| j < i && #[trigger] table::row_of(rows, session@, j);
                    assert(rows[j].0 != rows[i as int].0);
                }
            }
            sessions.push(session.clone());
            proof {
                let now_has = models::views(sessions@);
                assert(now_has =~= had.push(session@));
                assert(table::row_of(rows, session@, i as int));
                assert forall|s: Seq<char>| now_has.contains(s) implies s != session_id@ && exists|
                    j: int,
                | j < i + 1 && #[trigger] table::row_of(rows, s, j) by {
                    let k = choose|k: int| 0 <= k < now_has.len() && now_has[k] == s;
                    if k < had.len() {
                        assert(had[k] == s);
                        assert(had.contains(s));
                        let j = choose|j: int| j < i && #[trigger] table::row_of(rows, s, j);
                        assert(j < i + 1 && table::row_of(rows, s, j));
                    }
                }
                assert forall|j: int| 0 <= j < i + 1 && (#[trigger] rows[j]).0
                    != session_id@ implies now_has.contains(rows[j].0) by {
                    if j < i {
                        let k = choose|k: int| 0 <= k < had.len() && had[k] == rows[j].0;
                        assert(now_has[k] == rows[j].0);
                    } else {
                        assert(now_has[had.len() as int] == session@);
                    }
                }
            }
        }
        i = i + 1;
    }
    proof {
        assert forall|s: Seq<char>|
            models::views(sessions@).contains(s) <==> state::has_member(rows, s) && s
                != session_id@ by {
            if models::views(sessions@).contains(s) {
                let j = choose|j: int| j < n && #[trigger] table::row_of(rows, s, j);
                assert(table::row_of(rows, s, j));
            }
            if state::has_member(rows, s) && s != session_id@ {
                let j = choose|j: int| table::row_of(rows, s, j);
                assert(rows[j].0 == s);
            }
        }
    }
    sessions
}

fn tell_others(
    state: &mut SyncPlayState,
    group_id: u128,
    group: &SyncPlayGroup,
    session_id: &str,
    user_name: String,
)
    ensures
        final(state)@ == state::with_outboxes(
            old(state)@,
            told_others(
                old(state)@.outboxes,
                group@.participants,
                session_id@,
                state::update(
                    group_id,
                    GroupUpdateType::UserJoined,
                    UpdateDataView::Text(user_name@),
                ),
            ),
        ),
{
    let sessions = other_sessions(group, session_id);
    proof {
        let payload = state::update(
            group_id,
            GroupUpdateType::UserJoined,
            UpdateDataView::Text(user_name@),
        );
        state::lemma_sent_all(state@.outboxes, models::views(sessions@), payload);
        assert(state::sent_all(state@.outboxes, models::views(sessions@), payload) =~= told_others(
            state@.outboxes,
            group@.participants,
            session_id@,
            payload,
        ));
    }
    state.send_group_update(
        sessions,
        group_id,
        GroupUpdateType::UserJoined,
        UpdateData::Text(user_name),
    );
}

/// The view of an optional list of texts.
pub open spec fn opt_views(list: Option<Vec<String>>) -> Option<Seq<Seq<char>>> {
    match list {
        Some(l) => Some(models::views(l@)),
        None => None,
    }
}

/// Whether two lists hold the same texts.
fn same_texts(a: &Vec<String>, b: &Vec<String>) -> (same: bool)
    ensures
        same == (models::views(a@) == models::views(b@)),
{
    if a.len() != b.len() {
        assert(models::views(a@).len() != models::views(b@).len());
        return false;
    }
    let mut i: usize = 0;
    while i < a.len()
        invariant
            i <= a@.len(),
            a@.len() == b@.len(),
            forall|j: int| 0 <= j < i ==> (#[trigger] a@[j])@ == b@[j]@,
        decreases a@.len() - i,
    {
        if a[i] != b[i] {
            assert(models::views(a@)[i as int] != models::views(b@)[i as int]);
            return false;
        }
        i = i + 1;
    }
    assert(models::views(a@) =~= models::views(b@));
    true
}

/// A member who has just come in.
pub fn make_participant(session: &SessionContext, is_buffering: bool) -> (member: GroupParticipant)
    ensures
        member@ == newcomer(session.user.original_username@, is_buffering),
{
    GroupParticipant {
        user_name: session.user.original_username.clone(),
        ping: DEFAULT_PING_MS as u64,
        is_buffering,
        ignore_wait: false,
        is_connected: true,
        last_client_when: None,
    }
}

/// The service.
pub struct SyncPlayService {
    pub state: SyncPlayState,
}

impl View for SyncPlayService {
    type V = StateView;

    open spec fn view(&self) -> StateView {
        self.state@
    }
}

impl Default for SyncPlayService {
    fn default() -> (service: Self)
        ensures
            service@ == state::no_state(),
    {
        SyncPlayService::new()
    }
}

impl SyncPlayService {
    /// A service without groups and connections.
    pub fn new() -> (service: Self)
        ensures
            service@ == state::no_state(),
    {
        SyncPlayService { state: SyncPlayState::default() }
    }

    /// Connects a session at `now`.
    pub fn register_websocket_at(&mut self, session_id: &str, connection_id: u128, now: Timestamp)
        ensures
            final(self)@ == registered(old(self)@, session_id@, connection_id, now@),
    {
        let key = session_id.to_owned();
        let _ = self.state.ws_connections.remove(&key);
        let _ = self.state.ws_connection_ids.remove(&key);
        let _ = self.state.disconnect_grace_ids.remove(&key);
        self.state.ws_connections.insert(session_id.to_owned(), Outbox::new());
        self.state.ws_connection_ids.insert(session_id.to_owned(), connection_id);
        self.state.send_to_session(session_id, Payload::ForceKeepAlive(KEEP_ALIVE_SECS));
        assert(self.state@.outboxes =~= old(self)@.outboxes.insert(
            session_id@,
            seq![PayloadView::ForceKeepAlive(KEEP_ALIVE_SECS)],
        ));
        assert(self.state@.connection_ids =~= old(self)@.connection_ids.insert(
            session_id@,
            connection_id,
        ));
        let found = match self.state.session_to_group.get(&key) {
            Some(group_id) => Some(*group_id),
            None => None,
        };
        if let Some(group_id) = found {
            if let Some(group) = self.state.groups.remove(&group_id) {
                let mut group = group;
                set_reconnected(&mut group, session_id);
                wait_for(&mut group, now);
                group.touch_at(now);
                welcome(&mut self.state, group_id, &group, session_id, now);
                self.state.groups.insert(group_id, group);
            }
        }
        assert(self@ =~= registered(old(self)@, session_id@, connection_id, now@));
    }

    /// Connects a session under a random identifier, by the clock.
    pub fn register_websocket(&mut self, session_id: &str) -> (connection_id: u128)
        ensures
            ids::is_random_id(connection_id),
            exists|now: nat|
                clock::is_reading(now) && final(self)@ == #[trigger] registered(
                    old(self)@,
                    session_id@,
                    connection_id,
                    now,
                ),
    {
        let connection_id = new_id();
        let now = Timestamp::now();
        self.register_websocket_at(session_id, connection_id, now);
        assert(self@ == registered(old(self)@, session_id@, connection_id, now@));
        connection_id
    }

    /// A connection closes at `now`; tells whether it was the session's current
    /// one, whose grace period then runs under `grace_id`.
    pub fn unregister_websocket_with_grace_at(
        &mut self,
        session_id: &str,
        connection_id: u128,
        grace_id: u128,
        now: Timestamp,
    ) -> (closed: bool)
        ensures
            closed == is_current(old(self)@, session_id@, connection_id),
            final(self)@ == unregistered(
                old(self)@,
                session_id@,
                connection_id,
                grace_id,
                now@,
            ),
    {
        let key = session_id.to_owned();
        let current = match self.state.ws_connection_ids.get(&key) {
            Some(id) => *id == connection_id,
            None => false,
        };
        if !current {
            return false;
        }
        let _ = self.state.ws_connection_ids.remove(&key);
        let _ = self.state.ws_connections.remove(&key);
        self.state.disconnect_grace_ids.insert(session_id.to_owned(), grace_id);
        let found = match self.state.session_to_group.get(&key) {
            Some(group_id) => Some(*group_id),
            None => None,
        };
        if let Some(group_id) = found {
            if let Some(group) = self.state.groups.remove(&group_id) {
                let mut group = group;
                set_disconnected(&mut group, session_id);
                self.state.resolve_waiting_at(&mut group, "Disconnect", now);
                self.state.groups.insert(group_id, group);
            }
        }
        assert(self@ =~= unregistered(old(self)@, session_id@, connection_id, grace_id, now@));
        true
    }

    /// A connection closes, by the clock. Where it was the session's current one
    /// the identifier of the grace period comes back: when that is over the
    /// caller calls [`SyncPlayService::leave_if_still_disconnected`] with it.
    pub fn unregister_websocket_with_grace(&mut self, session_id: &str, connection_id: u128) -> (
    grace: Option<u128>)
        ensures
            grace is Some <==> is_current(old(self)@, session_id@, connection_id),
            match grace {
                Some(grace_id) => ids::is_random_id(grace_id) && exists|now: nat|
                    clock::is_reading(now) && final(self)@ == #[trigger] unregistered(
                        old(self)@,
                        session_id@,
                        connection_id,
                        grace_id,
                        now,
                    ),
                None => final(self)@ == old(self)@,
            },
    {
        let grace_id = new_id();
        let now = Timestamp::now();
        let closed = self.unregister_websocket_with_grace_at(
            session_id,
            connection_id,
            grace_id,
            now,
        );
        assert(self@ == unregistered(old(self)@, session_id@, connection_id, grace_id, now@));
        if closed {
            Some(grace_id)
        } else {
            None
        }
    }

    /// A grace period is over at `now`: a session that has not come back since
    /// leaves its group.
    pub fn leave_if_still_disconnected_at(
        &mut self,
        session_id: &str,
        grace_id: u128,
        now: Timestamp,
    )
        ensures
            final(self)@ == grace_expired(old(self)@, session_id@, grace_id, now@),
    {
        let key = session_id.to_owned();
        if self.state.ws_connections.contains_key(&key) {
            return;
        }
        let running = match self.state.disconnect_grace_ids.get(&key) {
            Some(id) => *id == grace_id,
            None => false,
        };
        if !running {
            return;
        }
        leave_locked_at(&mut self.state, session_id, now);
    }

    /// A grace period is over, by the clock.
    pub fn leave_if_still_disconnected(&mut self, session_id: &str, grace_id: u128)
        ensures
            exists|now: nat|
                clock::is_reading(now) && final(self)@ == #[trigger] grace_expired(
                    old(self)@,
                    session_id@,
                    grace_id,
                    now,
                ),
    {
        let now = Timestamp::now();
        self.leave_if_still_disconnected_at(session_id, grace_id, now);
        assert(self@ == grace_expired(old(self)@, session_id@, grace_id, now@));
    }

    /// Sends a session a sign of life.
    pub fn send_keepalive(&mut self, session_id: &str)
        ensures
            final(self)@ == state::with_outboxes(
                old(self)@,
                state::sent(old(self)@.outboxes, session_id@, PayloadView::KeepAlive),
            ),
    {
        self.state.send_to_session(session_id, Payload::KeepAlive);
    }

    /// A session creates a group at `now`.
    pub fn create_group_at(
        &mut self,
        session: &SessionContext,
        group_name: String,
        group_id: u128,
        now: Timestamp,
    ) -> (shown: Option<GroupInfoDto>)
        ensures
            final(self)@ == created(
                old(self)@,
                session.session_id@,
                session.user.original_username@,
                group_name@,
                group_id,
                now@,
            ),
            match shown {
                Some(info) => old(self)@.outboxes.contains_key(session.session_id@) && info@
                    == group::info(
                    new_group(
                        group_id,
                        group_name@,
                        session.session_id@,
                        session.user.original_username@,
                        now@,
                    ),
                ),
                None => !old(self)@.outboxes.contains_key(session.session_id@),
            },
    {
        if !self.state.ws_connections.contains_key(&session.session_id) {
            return None;
        }
        leave_locked_at(&mut self.state, session.session_id.as_str(), now);
        let ghost away = self@;
        let mut participants: Table<String, GroupParticipant> = Table::new();
        participants.insert(session.session_id.clone(), make_participant(session, false));
        let group = SyncPlayGroup {
            group_id,
            group_name,
            state: GroupStateType::Idle,
            participants,
            playlist: Vec::new(),
            playing_item_index: None,
            start_position_ticks: 0,
            pending_position_ticks: None,
            position_base_when: now,
            is_playing: false,
            shuffle_mode: GroupShuffleMode::Sorted,
            repeat_mode: GroupRepeatMode::RepeatNone,
            waiting_resume_playing: false,
            last_updated_at: now,
        };
        proof {
            let fresh = new_group(
                group_id,
                group_name@,
                session.session_id@,
                session.user.original_username@,
                now@,
            );
            let none = Seq::<(Seq<char>, ParticipantView)>::empty();
            assert(!table::rows_map(none).contains_key(session.session_id@)) by {
                assert forall|i: int| !table::row_of(none, session.session_id@, i) by {}
            }
            assert(group@.participants =~= fresh.participants);
            assert(group@.playlist =~= fresh.playlist);
            assert(group@ == fresh);
        }
        self.state.session_to_group.insert(session.session_id.clone(), group_id);
        let shown = group.to_group_info();
        self.state.groups.insert(group_id, group);
        self.state.send_to_session(
            session.session_id.as_str(),
            Payload::GroupUpdate(
                models::GroupUpdateEnvelope {
                    group_id,
                    update_type: GroupUpdateType::GroupJoined,
                    data: UpdateData::Info(shown.clone()),
                },
            ),
        );
        Some(shown)
    }

    /// A session creates a group under a random identifier, by the clock.
    pub fn create_group(&mut self, session: &SessionContext, group_name: String) -> (shown: Option<
        GroupInfoDto,
    >)
        ensures
            match shown {
                Some(info) => old(self)@.outboxes.contains_key(session.session_id@)
                    && ids::is_random_id(info.group_id) && clock::is_reading(
                    info.last_updated_at@,
                ) && info@ == group::info(
                    new_group(
                        info.group_id,
                        group_name@,
                        session.session_id@,
                        session.user.original_username@,
                        info.last_updated_at@,
                    ),
                ) && final(self)@ == created(
                    old(self)@,
                    session.session_id@,
                    session.user.original_username@,
                    group_name@,
                    info.group_id,
                    info.last_updated_at@,
                ),
                None => !old(self)@.outboxes.contains_key(session.session_id@) && final(self)@
                    == old(self)@,
            },
    {
        self.create_group_at(session, group_name, new_id(), Timestamp::now())
    }

    /// A session asks to join a group at `now`; tells whether it has a
    /// connection to be answered over. Where `expected_queue_item_ids` are given
    /// the group's queue must hold just these.
    pub fn join_group_at(
        &mut self,
        session: &SessionContext,
        group_id: u128,
        expected_queue_item_ids: Option<Vec<String>>,
        now: Timestamp,
    ) -> (heard: bool)
        ensures
            heard == old(self)@.outboxes.contains_key(session.session_id@),
            final(self)@ == joined(
                old(self)@,
                session.session_id@,
                session.user.original_username@,
                group_id,
                opt_views(expected_queue_item_ids),
                now@,
            ),
    {
        if !self.state.ws_connections.contains_key(&session.session_id) {
            return false;
        }
        let session_id: &str = session.session_id.as_str();
        leave_locked_at(&mut self.state, session_id, now);
        let ghost away = self@;
        match self.state.groups.remove(&group_id) {
            None => {
                assert(self@.groups =~= away.groups);
                self.state.notify_session(session_id, GroupUpdateType::GroupDoesNotExist);
            },
            Some(group) => {
                let mut group = group;
                let fits = match &expected_queue_item_ids {
                    Some(list) => same_texts(list, &group.queue_item_ids()),
                    None => true,
                };
                if !fits {
                    self.state.groups.insert(group_id, group);
                    assert(self@.groups =~= away.groups);
                    self.state.notify_session(session_id, GroupUpdateType::LibraryAccessDenied);
                    return true;
                }
                let member = make_participant(session, group.playlist.len() > 0);
                group.participants.insert(session.session_id.clone(), member);
                wait_for(&mut group, now);
                group.touch_at(now);
                self.state.session_to_group.insert(session.session_id.clone(), group_id);
                welcome(&mut self.state, group_id, &group, session_id, now);
                tell_others(
                    &mut self.state,
                    group_id,
                    &group,
                    session_id,
                    session.user.original_username.clone(),
                );
                self.state.groups.insert(group_id, group);
                assert(self@ =~= joined(
                    old(self)@,
                    session.session_id@,
                    session.user.original_username@,
                    group_id,
                    opt_views(expected_queue_item_ids),
                    now@,
                ));
            },
        }
        true
    }

    /// A session asks to join a group, by the clock.
    pub fn join_group(
        &mut self,
        session: &SessionContext,
        group_id: u128,
        expected_queue_item_ids: Option<Vec<String>>,
    ) -> (heard: bool)
        ensures
            heard == old(self)@.outboxes.contains_key(session.session_id@),
            exists|now: nat|
                clock::is_reading(now) && final(self)@ == #[trigger] joined(
                    old(self)@,
                    session.session_id@,
                    session.user.original_username@,
                    group_id,
                    opt_views(expected_queue_item_ids),
                    now,
                ),
    {
        let now = Timestamp::now();
        let ghost expected = opt_views(expected_queue_item_ids);
        let heard = self.join_group_at(session, group_id, expected_queue_item_ids, now);
        assert(self@ == joined(
            old(self)@,
            session.session_id@,
            session.user.original_username@,
            group_id,
            expected,
            now@,
        ));
        heard
    }

    /// A session leaves its group at `now`.
    pub fn leave_group_at(&mut self, session: &SessionContext, now: Timestamp)
        ensures
            final(self)@ == left(old(self)@, session.session_id@, now@),
    {
        leave_locked_at(&mut self.state, session.session_id.as_str(), now);
    }

    /// A session leaves its group, by the clock.
    pub fn leave_group(&mut self, session: &SessionContext)
        ensures
            exists|now: nat|
                clock::is_reading(now) && final(self)@ == #[trigger] left(old(self)@, session.session_id@, now),
    {
        let now = Timestamp::now();
        self.leave_group_at(session, now);
        assert(self@ == left(old(self)@, session.session_id@, now@));
    }

    /// The groups as they are, in no particular order.
    pub fn list_group_snapshots(&self) -> (groups: Vec<SyncPlayGroup>)
        ensures
            exists|rows: Seq<(u128, GroupView)>|
                {
                    &&& #[trigger] table::keys_distinct(rows)
                    &&& table::rows_map(rows) == self@.groups
                    &&& models::views(groups@) == rows.map_values(|row: (u128, GroupView)| row.1)
                },
    {
        let ghost rows = self.state.groups.items();
        let ghost values = rows.map_values(|row: (u128, GroupView)| row.1);
        let n: usize = self.state.groups.len();
        let mut groups: Vec<SyncPlayGroup> = Vec::new();
        let mut i: usize = 0;
        while i < n
            invariant
                i <= n,
                n == rows.len(),
                rows == self.state.groups.items(),
                values == rows.map_values(|row: (u128, GroupView)| row.1),
                models::views(groups@) == values.take(i as int),
            decreases n - i,
        {
            let ghost had = groups@;
            let group = self.state.groups.value_at(i);
            groups.push(group.clone());
            assert(models::views(groups@) =~= models::views(had).push(group@));
            assert(values.take(i + 1) =~= values.take(i as int).push(group@));
            i = i + 1;
        }
        assert(values.take(n as int) =~= values);
        assert(table::keys_distinct(rows));
        groups
    }

    /// Lets `f` change the group of a session, and the state without that group;
    /// tells whether the session is in a group. One that is not is told so.
    pub fn with_group_for_session<F: FnOnce(&mut SyncPlayGroup, &mut SyncPlayState)>(
        &mut self,
        session: &SessionContext,
        f: F,
    ) -> (found: bool)
        requires
            forall|g: &mut SyncPlayGroup, s: &mut SyncPlayState| #[trigger] call_requires(f, (g, s)),
        ensures
            found == in_group(old(self)@, session.session_id@),
            found ==> exists|g: &mut SyncPlayGroup, s: &mut SyncPlayState|
                {
                    let group_id = old(self)@.session_to_group[session.session_id@];
                    &&& (*g)@ == old(self)@.groups[group_id]
                    &&& (*s)@ == (StateView { groups: old(self)@.groups.remove(group_id), ..old(self)@ })
                    &&& #[trigger] call_ensures(f, (g, s), ())
                    &&& final(self)@ == (StateView {
                        groups: (*final(s))@.groups.insert(group_id, (*final(g))@),
                        ..(*final(s))@
                    })
                },
            !found ==> final(self)@ == state::with_outboxes(
                old(self)@,
                state::sent(
                    old(self)@.outboxes,
                    session.session_id@,
                    state::notice(0, GroupUpdateType::NotInGroup),
                ),
            ),
    {
        let found = match self.state.session_to_group.get(&session.session_id) {
            Some(group_id) => Some(*group_id),
            None => None,
        };
        let group_id = match found {
            Some(group_id) => group_id,
            None => {
                self.state.notify_session(
                    session.session_id.as_str(),
                    GroupUpdateType::NotInGroup,
                );
                return false;
            },
        };
        match self.state.groups.remove(&group_id) {
            Some(group) => {
                let mut group = group;
                f(&mut group, &mut self.state);
                self.state.groups.insert(group_id, group);
                true
            },
            None => {
                assert(self@.groups =~= old(self)@.groups);
                self.state.notify_session(
                    session.session_id.as_str(),
                    GroupUpdateType::NotInGroup,
                );
                false
            },
        }
    }

    /// A group as it is.
    pub fn get_group_snapshot_by_id(&self, group_id: u128) -> (group: Option<SyncPlayGroup>)
        ensures
            match group {
                Some(g) => self@.groups.contains_key(group_id) && g@ == self@.groups[group_id],
                None => !self@.groups.contains_key(group_id),
            },
    {
        match self.state.groups.get(&group_id) {
            Some(group) => Some(group.clone()),
            None => None,
        }
    }

    /// The group of a session as it is.
    pub fn get_group_snapshot_for_session(&self, session_id: &str) -> (group: Option<SyncPlayGroup>)
        ensures
            match group {
                Some(g) => in_group(self@, session_id@) && g@ == group_of(self@, session_id@),
                None => !in_group(self@, session_id@),
            },
    {
        match self.state.session_to_group.get(&session_id.to_owned()) {
            Some(group_id) => self.get_group_snapshot_by_id(*group_id),
            None => None,
        }
    }

    /// Tells a session that it has no access to a library.
    pub fn send_library_access_denied_to_session(&mut self, session_id: &str)
        ensures
            final(self)@ == state::with_outboxes(
                old(self)@,
                state::sent(
                    old(self)@.outboxes,
                    session_id@,
                    state::notice(0, GroupUpdateType::LibraryAccessDenied),
                ),
            ),
    {
        self.state.notify_session(session_id, GroupUpdateType::LibraryAccessDenied);
    }

    /// Takes out the messages that wait to be sent to a session, oldest first.
    /// Each was given a random identifier when it was sent.
    pub fn take_messages(&mut self, session_id: &str) -> (messages: Vec<OutboundWebSocketMessage>)
        ensures
            forall|i: int|
                0 <= i < messages@.len() ==> ids::is_random_id(
                    (#[trigger] messages@[i]).message_id,
                ),
            models::views(messages@) == if old(self)@.outboxes.contains_key(session_id@) {
                old(self)@.outboxes[session_id@]
            } else {
                Seq::empty()
            },
            final(self)@ == state::with_outboxes(
                old(self)@,
                if old(self)@.outboxes.contains_key(session_id@) {
                    old(self)@.outboxes.insert(session_id@, Seq::empty())
                } else {
                    old(self)@.outboxes
                },
            ),
    {
        let key = session_id.to_owned();
        match self.state.ws_connections.remove(&key) {
            Some(outbox) => {
                self.state.ws_connections.insert(key, Outbox::new());
                assert(self@.outboxes =~= old(self)@.outboxes.insert(session_id@, Seq::empty()));
                outbox.into_messages()
            },
            None => {
                assert(self@.outboxes =~= old(self)@.outboxes);
                let none: Vec<OutboundWebSocketMessage> = Vec::new();
                assert(models::views(none@) =~= Seq::empty());
                none
            },
        }
    }

    /// A message could not be sent: the session's connection is gone.
    pub fn connection_lost(&mut self, session_id: &str)
        ensures
            final(self)@ == lost(old(self)@, session_id@),
    {
        let key = session_id.to_owned();
        let _ = self.state.ws_connections.remove(&key);
        let _ = self.state.ws_connection_ids.remove(&key);
    }
}

/// The state once a session's connection has turned out to be gone.
pub open spec fn lost(st: StateView, session: Seq<char>) -> StateView {
    StateView {
        outboxes: st.outboxes.remove(session),
        connection_ids: st.connection_ids.remove(session),
        ..st
    }
}

} // verus!
