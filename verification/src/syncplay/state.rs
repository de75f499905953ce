//! The groups, the sessions' connections, and what waits to be sent.
//!
//! A connection is its outbox: the messages that wait to be sent to the session,
//! oldest first. What is sent to a session without a connection is lost.
use vstd::prelude::*;
use crate::clock;
use crate::clock::{Timestamp, NANOS_PER_MILLI};
use crate::ids;
use crate::syncplay::group;
use crate::syncplay::models;
use crate::syncplay::models::{
    GroupStateType, GroupUpdateEnvelope, GroupUpdateType, GroupView, OutboundWebSocketMessage,
    ParticipantView, Payload, PayloadView, PlayQueueUpdate, PlayQueueUpdateReason, QueueUpdateView,
    SendCommandEnvelope, SendCommandType, SyncPlayGroup, UpdateData, UpdateDataView,
    copy_playlist,
};
use crate::table;
use crate::table::Table;

verus! {

/// The messages that wait to be sent to one session. Each has a random
/// identifier: that is the type's invariant. The view is what they carry.
#[derive(Debug)]
pub struct Outbox {
    messages: Vec<OutboundWebSocketMessage>,
}

impl View for Outbox {
    type V = Seq<PayloadView>;

    closed spec fn view(&self) -> Seq<PayloadView> {
        models::views(self.messages@)
    }
}

impl Outbox {
    #[verifier::type_invariant]
    spec fn inv(self) -> bool {
        forall|i: int|
            0 <= i < self.messages@.len() ==> ids::is_random_id(
                (#[trigger] self.messages@[i]).message_id,
            )
    }

    /// An outbox without messages.
    pub fn new() -> (outbox: Self)
        ensures
            outbox@ == Seq::<PayloadView>::empty(),
    {
        let outbox = Outbox { messages: Vec::new() };
        assert(outbox@ =~= Seq::<PayloadView>::empty());
        outbox
    }

    /// Adds a message that carries `payload`, under a random identifier of its
    /// own.
    pub fn push(&mut self, payload: Payload)
        ensures
            final(self)@ == old(self)@.push(payload@),
    {
        proof {
            use_type_invariant(&*self);
        }
        let mut messages: Vec<OutboundWebSocketMessage> = Vec::new();
        core::mem::swap(&mut messages, &mut self.messages);
        let ghost had = messages@;
        let message = OutboundWebSocketMessage::new(payload);
        messages.push(message);
        assert(models::views(messages@) =~= models::views(had).push(message@));
        self.messages = messages;
    }

    /// The messages, oldest first.
    pub fn into_messages(self) -> (messages: Vec<OutboundWebSocketMessage>)
        ensures
            models::views(messages@) == self@,
            forall|i: int|
                0 <= i < messages@.len() ==> ids::is_random_id(
                    (#[trigger] messages@[i]).message_id,
                ),
    {
        proof {
            use_type_invariant(&self);
        }
        self.messages
    }
}

/// The groups by identifier; the group, the connection, the connection's
/// identifier and the running grace period of each session.
pub struct SyncPlayState {
    pub groups: Table<u128, SyncPlayGroup>,
    pub session_to_group: Table<String, u128>,
    pub ws_connections: Table<String, Outbox>,
    pub ws_connection_ids: Table<String, u128>,
    pub disconnect_grace_ids: Table<String, u128>,
}

/// The outboxes by session.
pub type Outboxes = Map<Seq<char>, Seq<PayloadView>>;

/// The members of a group, by session, in the order of their rows.
pub type Members = Seq<(Seq<char>, ParticipantView)>;

/// The view of a [`SyncPlayState`].
#[verifier::ext_equal]
pub struct StateView {
    pub groups: Map<u128, GroupView>,
    pub session_to_group: Map<Seq<char>, u128>,
    pub outboxes: Outboxes,
    pub connection_ids: Map<Seq<char>, u128>,
    pub grace_ids: Map<Seq<char>, u128>,
}

impl View for SyncPlayState {
    type V = StateView;

    open spec fn view(&self) -> StateView {
        StateView {
            groups: self.groups@,
            session_to_group: self.session_to_group@,
            outboxes: self.ws_connections@,
            connection_ids: self.ws_connection_ids@,
            grace_ids: self.disconnect_grace_ids@,
        }
    }
}

/// The state without groups and connections.
pub open spec fn no_state() -> StateView {
    StateView {
        groups: Map::empty(),
        session_to_group: Map::empty(),
        outboxes: Map::empty(),
        connection_ids: Map::empty(),
        grace_ids: Map::empty(),
    }
}

/// The state with these outboxes.
pub open spec fn with_outboxes(state: StateView, outboxes: Outboxes) -> StateView {
    StateView { outboxes, ..state }
}

/// The outboxes once `payload` has been sent to a session.
pub open spec fn sent(outboxes: Outboxes, session: Seq<char>, payload: PayloadView) -> Outboxes {
    if outboxes.contains_key(session) {
        outboxes.insert(session, outboxes[session].push(payload))
    } else {
        outboxes
    }
}

/// The outboxes once `payload` has been sent to each session of a list.
pub open spec fn sent_all(
    outboxes: Outboxes,
    sessions: Seq<Seq<char>>,
    payload: PayloadView,
) -> Outboxes
    decreases sessions.len(),
{
    if sessions.len() == 0 {
        outboxes
    } else {
        sent(sent_all(outboxes, sessions.drop_last(), payload), sessions.last(), payload)
    }
}

/// A session is one of the members'.
pub open spec fn has_member(members: Members, session: Seq<char>) -> bool {
    exists|i: int| table::row_of(members, session, i)
}

/// The outboxes once `payload` has been sent to every member.
pub open spec fn broadcast(outboxes: Outboxes, members: Members, payload: PayloadView) -> Outboxes {
    Map::new(
        |session: Seq<char>| outboxes.contains_key(session),
        |session: Seq<char>|
            if has_member(members, session) {
                outboxes[session].push(payload)
            } else {
                outboxes[session]
            },
    )
}

/// The sessions of members.
pub open spec fn sessions_of(members: Members) -> Seq<Seq<char>> {
    members.map_values(|row: (Seq<char>, ParticipantView)| row.0)
}

/// A group update.
pub open spec fn update(
    group_id: u128,
    update_type: GroupUpdateType,
    data: UpdateDataView,
) -> PayloadView {
    PayloadView::GroupUpdate { group_id, update_type, data }
}

/// A group update that carries nothing.
pub open spec fn notice(group_id: u128, update_type: GroupUpdateType) -> PayloadView {
    update(group_id, update_type, UpdateDataView::Text(Seq::empty()))
}

/// The point in time `millis` milliseconds later, a negative number counting as
/// none.
pub open spec fn after_millis(now: nat, millis: i64) -> nat {
    clock::later(
        now,
        if millis > 0 {
            (millis * NANOS_PER_MILLI) as nat
        } else {
            0
        },
    )
}

/// A command to a group, to be followed `delay` milliseconds from now.
pub open spec fn command(
    group: GroupView,
    command: SendCommandType,
    position_ticks: Option<i64>,
    delay: i64,
    now: nat,
) -> PayloadView {
    PayloadView::Command {
        group_id: group.group_id,
        playlist_item_id: group::current_item(group),
        when: after_millis(now, delay),
        position_ticks,
        command,
        emitted_at: now,
    }
}

/// What a group is doing, and why it changed.
pub open spec fn state_update(group: GroupView, reason: Seq<char>) -> PayloadView {
    update(
        group.group_id,
        GroupUpdateType::StateUpdate,
        UpdateDataView::State(group.state, reason),
    )
}

/// A group's queue; without a playing item its index is -1.
pub open spec fn queue_update(group: GroupView, reason: PlayQueueUpdateReason) -> PayloadView {
    update(
        group.group_id,
        GroupUpdateType::PlayQueue,
        UpdateDataView::Queue(
            QueueUpdateView {
                reason,
                last_update: group.last_updated_at,
                playlist: group.playlist,
                playing_item_index: if group::plays_from_queue(group) {
                    group.playing_item_index.unwrap() as i64
                } else {
                    -1i64
                },
                start_position_ticks: group.start_position_ticks,
                is_playing: group.is_playing,
                shuffle_mode: group.shuffle_mode,
                repeat_mode: group.repeat_mode,
            },
        ),
    )
}

/// A group stops waiting: it waits, and for nobody.
pub open spec fn resolves(group: GroupView) -> bool {
    group.state == GroupStateType::Waiting && group::ready(group)
}

/// How many milliseconds a group that stops waiting still holds on.
pub open spec fn resume_delay(group: GroupView) -> i64 {
    if group.waiting_resume_playing {
        group::ping_delay(group)
    } else {
        0
    }
}

/// A group once it has stopped waiting where it can: it plays on or is paused,
/// at the position that was pending.
pub open spec fn resolved(group: GroupView, now: nat) -> GroupView {
    if resolves(group) {
        let playing = group.waiting_resume_playing;
        GroupView {
            state: if playing {
                GroupStateType::Playing
            } else {
                GroupStateType::Paused
            },
            is_playing: playing,
            start_position_ticks: match group.pending_position_ticks {
                Some(ticks) => ticks,
                None => group.start_position_ticks,
            },
            pending_position_ticks: None,
            position_base_when: after_millis(now, resume_delay(group)),
            last_updated_at: now,
            ..group
        }
    } else {
        group
    }
}

/// The outboxes once a group has stopped waiting where it can: its members are
/// told to play on or to pause, and what the group is doing.
pub open spec fn resolved_outboxes(
    outboxes: Outboxes,
    group: GroupView,
    reason: Seq<char>,
    now: nat,
) -> Outboxes {
    if resolves(group) {
        let after = resolved(group, now);
        let told = command(
            after,
            if group.waiting_resume_playing {
                SendCommandType::Unpause
            } else {
                SendCommandType::Pause
            },
            Some(after.start_position_ticks),
            resume_delay(group),
            now,
        );
        broadcast(
            broadcast(outboxes, after.participants, told),
            after.participants,
            state_update(after, reason),
        )
    } else {
        outboxes
    }
}

/// Sending to each of a list of different sessions is sending to those that are
/// in the list.
pub proof fn lemma_sent_all(outboxes: Outboxes, sessions: Seq<Seq<char>>, payload: PayloadView)
    requires
        sessions.no_duplicates(),
    ensures
        sent_all(outboxes, sessions, payload) == Map::new(
            |session: Seq<char>| outboxes.contains_key(session),
            |session: Seq<char>|
                if sessions.contains(session) {
                    outboxes[session].push(payload)
                } else {
                    outboxes[session]
                },
        ),
    decreases sessions.len(),
{
    let all = Map::new(
        |session: Seq<char>| outboxes.contains_key(session),
        |session: Seq<char>|
            if sessions.contains(session) {
                outboxes[session].push(payload)
            } else {
                outboxes[session]
            },
    );
    if sessions.len() == 0 {
        assert(all =~= outboxes);
    } else {
        let fewer = sessions.drop_last();
        let last = sessions.last();
        lemma_sent_all(outboxes, fewer, payload);
        assert(!fewer.contains(last));
        assert forall|s: Seq<char>| sessions.contains(s) <==> fewer.contains(s) || s == last by {
            if sessions.contains(s) && s != last {
                let i = choose|i: int| 0 <= i < sessions.len() && sessions[i] == s;
                assert(fewer[i] == s);
            }
            if fewer.contains(s) {
                let i = choose|i: int| 0 <= i < fewer.len() && fewer[i] == s;
                assert(sessions[i] == s);
            }
            assert(sessions[sessions.len() - 1] == last);
        }
        assert(sent_all(outboxes, sessions, payload) =~= all);
    }
}

/// Sending to a list of one session is sending to that session.
pub proof fn lemma_sent_to_one(outboxes: Outboxes, session: Seq<char>, payload: PayloadView)
    ensures
        sent_all(outboxes, seq![session], payload) == sent(outboxes, session, payload),
{
    assert(seq![session].drop_last() =~= Seq::empty());
    reveal_with_fuel(sent_all, 2);
}

proof fn lemma_sent_to_members(outboxes: Outboxes, members: Members, payload: PayloadView)
    requires
        table::keys_distinct(members),
    ensures
        sent_all(outboxes, sessions_of(members), payload) == broadcast(outboxes, members, payload),
{
    let sessions = sessions_of(members);
    assert(sessions.no_duplicates()) by {
        assert forall|i: int, j: int|
            0 <= i < sessions.len() && 0 <= j < sessions.len() && i != j implies sessions[i]
            != sessions[j] by {
            assert(members[i].0 != members[j].0);
        }
    }
    lemma_sent_all(outboxes, sessions, payload);
    assert forall|s: Seq<char>| sessions.contains(s) <==> has_member(members, s) by {
        if sessions.contains(s) {
            let i = choose|i: int| 0 <= i < sessions.len() && sessions[i] == s;
            assert(table::row_of(members, s, i));
        }
        if has_member(members, s) {
            let i = choose|i: int| table::row_of(members, s, i);
            assert(sessions[i] == s);
        }
    }
    assert(sent_all(outboxes, sessions, payload) =~= broadcast(outboxes, members, payload));
}

fn member_sessions(group: &SyncPlayGroup) -> (sessions: Vec<String>)
    ensures
        models::views(sessions@) == sessions_of(group@.participants),
        table::keys_distinct(group@.participants),
{
    let n: usize = group.participants.len();
    let ghost all = sessions_of(group@.participants);
    let mut sessions: Vec<String> = Vec::new();
    let mut i: usize = 0;
    while i < n
        invariant
            i <= n,
            n == group@.participants.len(),
            all == sessions_of(group@.participants),
            models::views(sessions@) == all.take(i as int),
        decreases n - i,
    {
        let ghost had = sessions@;
        let session = group.participants.key_at(i);
        sessions.push(session.clone());
        assert(models::views(sessions@) =~= models::views(had).push(session@));
        assert(all.take(i + 1) =~= all.take(i as int).push(session@));
        i = i + 1;
    }
    assert(all.take(n as int) =~= all);
    sessions
}

fn millis_after(now: Timestamp, millis: i64) -> (at: Timestamp)
    ensures
        at@ == after_millis(now@, millis),
{
    if millis > 0 {
        now.plus(millis as u128 * NANOS_PER_MILLI)
    } else {
        now.plus(0)
    }
}

impl Default for SyncPlayState {
    fn default() -> (state: Self)
        ensures
            state@ == no_state(),
    {
        SyncPlayState {
            groups: Table::new(),
            session_to_group: Table::new(),
            ws_connections: Table::new(),
            ws_connection_ids: Table::new(),
            disconnect_grace_ids: Table::new(),
        }
    }
}

impl SyncPlayState {
    /// Sends a message to a session: it goes into the session's [`Outbox`], which
    /// gives it a random identifier.
    pub fn send_to_session(&mut self, session_id: &str, payload: Payload)
        ensures
            final(self)@ == with_outboxes(
                old(self)@,
                sent(old(self)@.outboxes, session_id@, payload@),
            ),
    {
        let key = session_id.to_owned();
        match self.ws_connections.remove(&key) {
            Some(outbox) => {
                let mut outbox = outbox;
                outbox.push(payload);
                self.ws_connections.insert(key, outbox);
                assert(self@.outboxes =~= sent(old(self)@.outboxes, session_id@, payload@));
            },
            None => {
                assert(self@.outboxes =~= old(self)@.outboxes);
            },
        }
    }

    /// Sends a group update to each of a list of sessions.
    pub fn send_group_update(
        &mut self,
        sessions: Vec<String>,
        group_id: u128,
        update_type: GroupUpdateType,
        data: UpdateData,
    )
        ensures
            final(self)@ == with_outboxes(
                old(self)@,
                sent_all(
                    old(self)@.outboxes,
                    models::views(sessions@),
                    update(group_id, update_type, data@),
                ),
            ),
    {
        let payload = Payload::GroupUpdate(GroupUpdateEnvelope { group_id, update_type, data });
        self.send_to_all(&sessions, &payload);
    }

    fn send_to_all(&mut self, sessions: &Vec<String>, payload: &Payload)
        ensures
            final(self)@ == with_outboxes(
                old(self)@,
                sent_all(old(self)@.outboxes, models::views(sessions@), payload@),
            ),
    {
        let ghost all = models::views(sessions@);
        let mut i: usize = 0;
        assert(all.take(0) =~= Seq::empty());
        while i < sessions.len()
            invariant
                i <= sessions@.len(),
                all == models::views(sessions@),
                self@ == with_outboxes(
                    old(self)@,
                    sent_all(old(self)@.outboxes, all.take(i as int), payload@),
                ),
            decreases sessions@.len() - i,
        {
            self.send_to_session(sessions[i].as_str(), payload.clone());
            assert(all.take(i + 1).drop_last() =~= all.take(i as int));
            assert(all.take(i + 1).last() == sessions@[i as int]@);
            i = i + 1;
        }
        assert(all.take(sessions@.len() as int) =~= all);
    }

    fn send_to_members(&mut self, group: &SyncPlayGroup, payload: &Payload)
        ensures
            final(self)@ == with_outboxes(
                old(self)@,
                broadcast(old(self)@.outboxes, group@.participants, payload@),
            ),
    {
        let sessions = member_sessions(group);
        proof {
            lemma_sent_to_members(self@.outboxes, group@.participants, payload@);
        }
        self.send_to_all(&sessions, payload);
    }

    /// Sends a group update to every member of a group.
    pub fn broadcast_group_update(
        &mut self,
        group: &SyncPlayGroup,
        update_type: GroupUpdateType,
        data: UpdateData,
    )
        ensures
            final(self)@ == with_outboxes(
                old(self)@,
                broadcast(
                    old(self)@.outboxes,
                    group@.participants,
                    update(group.group_id, update_type, data@),
                ),
            ),
    {
        let payload = Payload::GroupUpdate(
            GroupUpdateEnvelope { group_id: group.group_id, update_type, data },
        );
        self.send_to_members(group, &payload);
    }

    /// Sends a session a notice that concerns no group.
    pub fn notify_session(&mut self, session_id: &str, update_type: GroupUpdateType)
        ensures
            final(self)@ == with_outboxes(
                old(self)@,
                sent(old(self)@.outboxes, session_id@, notice(0, update_type)),
            ),
    {
        self.notify_session_for_group(session_id, 0, update_type);
    }

    /// Sends a session a notice that concerns a group.
    pub fn notify_session_for_group(
        &mut self,
        session_id: &str,
        group_id: u128,
        update_type: GroupUpdateType,
    )
        ensures
            final(self)@ == with_outboxes(
                old(self)@,
                sent(old(self)@.outboxes, session_id@, notice(group_id, update_type)),
            ),
    {
        let data = UpdateData::Text(String::new());
        assert(data@ == UpdateDataView::Text(Seq::empty()));
        let payload = Payload::GroupUpdate(GroupUpdateEnvelope { group_id, update_type, data });
        self.send_to_session(session_id, payload);
    }

    /// Sends every member of a group a command at `now`.
    pub fn broadcast_command_at(
        &mut self,
        group: &SyncPlayGroup,
        command: SendCommandType,
        position_ticks: Option<i64>,
        delay_ms: i64,
        now: Timestamp,
    )
        ensures
            final(self)@ == with_outboxes(
                old(self)@,
                broadcast(
                    old(self)@.outboxes,
                    group@.participants,
                    self::command(group@, command, position_ticks, delay_ms, now@),
                ),
            ),
    {
        let envelope = SendCommandEnvelope {
            group_id: group.group_id,
            playlist_item_id: group.current_playlist_item_id(),
            when: millis_after(now, delay_ms),
            position_ticks,
            command,
            emitted_at: now,
        };
        self.send_to_members(group, &Payload::Command(envelope));
    }

    /// Sends every member of a group a command, by the clock.
    pub fn broadcast_command(
        &mut self,
        group: &SyncPlayGroup,
        command: SendCommandType,
        position_ticks: Option<i64>,
        delay_ms: i64,
    )
        ensures
            exists|now: nat|
                clock::is_reading(now) && final(self)@ == with_outboxes(
                    old(self)@,
                    broadcast(
                        old(self)@.outboxes,
                        group@.participants,
                        #[trigger] self::command(group@, command, position_ticks, delay_ms, now),
                    ),
                ),
    {
        let now = Timestamp::now();
        let ghost told = self::command(group@, command, position_ticks, delay_ms, now@);
        self.broadcast_command_at(group, command, position_ticks, delay_ms, now);
        assert(self@ == with_outboxes(
            old(self)@,
            broadcast(old(self)@.outboxes, group@.participants, told),
        ));
    }

    /// Tells every member of a group what the group is doing.
    pub fn broadcast_state_update(&mut self, group: &SyncPlayGroup, reason: &str)
        ensures
            final(self)@ == with_outboxes(
                old(self)@,
                broadcast(
                    old(self)@.outboxes,
                    group@.participants,
                    state_update(group@, reason@),
                ),
            ),
    {
        self.broadcast_group_update(
            group,
            GroupUpdateType::StateUpdate,
            UpdateData::State(group.state, reason.to_owned()),
        );
    }

    /// Sends every member of a group its queue.
    pub fn broadcast_queue_update(&mut self, group: &SyncPlayGroup, reason: PlayQueueUpdateReason)
        ensures
            final(self)@ == with_outboxes(
                old(self)@,
                broadcast(
                    old(self)@.outboxes,
                    group@.participants,
                    queue_update(group@, reason),
                ),
            ),
    {
        let sessions = member_sessions(group);
        proof {
            lemma_sent_to_members(
                self@.outboxes,
                group@.participants,
                queue_update(group@, reason),
            );
        }
        self.send_queue_update_to(group, reason, sessions);
    }

    /// Sends each of a list of sessions a group's queue.
    pub fn send_queue_update_to(
        &mut self,
        group: &SyncPlayGroup,
        reason: PlayQueueUpdateReason,
        sessions: Vec<String>,
    )
        ensures
            final(self)@ == with_outboxes(
                old(self)@,
                sent_all(
                    old(self)@.outboxes,
                    models::views(sessions@),
                    queue_update(group@, reason),
                ),
            ),
    {
        let playing_item_index: i64 = match group.playing_item_index {
            Some(index) => if index < group.playlist.len() {
                index as i64
            } else {
                -1
            },
            None => -1,
        };
        let queue = PlayQueueUpdate {
            reason,
            last_update: group.last_updated_at,
            playlist: copy_playlist(&group.playlist),
            playing_item_index,
            start_position_ticks: group.start_position_ticks,
            is_playing: group.is_playing,
            shuffle_mode: group.shuffle_mode,
            repeat_mode: group.repeat_mode,
        };
        self.send_group_update(
            sessions,
            group.group_id,
            GroupUpdateType::PlayQueue,
            UpdateData::Queue(queue),
        );
    }

    /// Lets a group stop waiting at `now` where it waits for nobody.
    pub fn resolve_waiting_at(&mut self, group: &mut SyncPlayGroup, reason: &str, now: Timestamp)
        ensures
            final(group)@ == resolved(old(group)@, now@),
            final(self)@ == with_outboxes(
                old(self)@,
                resolved_outboxes(old(self)@.outboxes, old(group)@, reason@, now@),
            ),
    {
        if group.state != GroupStateType::Waiting || !group.all_ready() {
            return;
        }
        let command: SendCommandType;
        let delay_ms: i64;
        if group.waiting_resume_playing {
            command = SendCommandType::Unpause;
            delay_ms = group.ping_delay_ms();
            group.state = GroupStateType::Playing;
            group.is_playing = true;
        } else {
            command = SendCommandType::Pause;
            delay_ms = 0;
            group.state = GroupStateType::Paused;
            group.is_playing = false;
        }
        if let Some(ticks) = group.pending_position_ticks {
            group.set_position(ticks, now);
        }
        group.pending_position_ticks = None;
        group.position_base_when = millis_after(now, delay_ms);
        group.touch_at(now);
        assert(group@ == resolved(old(group)@, now@));
        let position: i64 = group.start_position_ticks;
        self.broadcast_command_at(group, command, Some(position), delay_ms, now);
        self.broadcast_state_update(group, reason);
    }

    /// Lets a group stop waiting where it waits for nobody, by the clock.
    pub fn resolve_waiting(&mut self, group: &mut SyncPlayGroup, reason: &str)
        ensures
            exists|now: nat|
                {
                    &&& clock::is_reading(now)
                    &&& final(group)@ == #[trigger] resolved(old(group)@, now)
                    &&& final(self)@ == with_outboxes(
                        old(self)@,
                        resolved_outboxes(old(self)@.outboxes, old(group)@, reason@, now),
                    )
                },
    {
        let now = Timestamp::now();
        self.resolve_waiting_at(group, reason, now);
        assert(group@ == resolved(old(group)@, now@));
    }
}

} // verus!
