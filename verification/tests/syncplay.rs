use jellyswarrm::clock::{Timestamp, NANOS_PER_MILLI};
use jellyswarrm::ids::{id_text, new_id};
use jellyswarrm::syncplay::models::{
    GroupParticipant, GroupRepeatMode, GroupShuffleMode, GroupStateType, GroupUpdateType,
    OutboundWebSocketMessage, Payload, PlayQueueUpdateReason, SendCommandEnvelope,
    SendCommandType, SyncPlayGroup, SyncPlayQueueItem, UpdateData, DEFAULT_PING_MS,
    WEBSOCKET_DISCONNECT_GRACE_SECS,
};
use jellyswarrm::syncplay::service::{
    make_participant, SessionContext, SyncPlayService, KEEP_ALIVE_SECS,
};
use jellyswarrm::table::Table;
use jellyswarrm::users::User;

fn make_user(id: &str, name: &str) -> User {
    User {
        id: id.to_string(),
        virtual_key: format!("vk-{id}"),
        original_username: name.to_string(),
    }
}

fn make_session(user: User, device: &str) -> SessionContext {
    SessionContext {
        session_id: format!("{}:{}", user.id, device),
        user,
    }
}

fn alice() -> SessionContext {
    make_session(make_user("u1", "alice"), "web")
}

fn bob() -> SessionContext {
    make_session(make_user("u2", "bob"), "tv")
}

fn at(seconds: u64) -> Timestamp {
    Timestamp::from_parts(seconds, 0)
}

fn update_type(message: &OutboundWebSocketMessage) -> Option<GroupUpdateType> {
    match &message.payload {
        Payload::GroupUpdate(update) => Some(update.update_type),
        _ => None,
    }
}

fn command(message: &OutboundWebSocketMessage) -> Option<SendCommandEnvelope> {
    match &message.payload {
        Payload::Command(command) => Some(*command),
        _ => None,
    }
}

fn has_update(messages: &[OutboundWebSocketMessage], kind: GroupUpdateType) -> bool {
    messages.iter().any(|m| {
        m.message_type() == "SyncPlayGroupUpdate" && update_type(m) == Some(kind)
    })
}

fn queue_item(item_id: &str) -> SyncPlayQueueItem {
    SyncPlayQueueItem {
        item_id: item_id.to_string(),
        playlist_item_id: new_id(),
    }
}

fn change_member(
    group: &mut SyncPlayGroup,
    session_id: &str,
    change: impl Fn(&mut GroupParticipant),
) {
    let key = session_id.to_string();
    let mut member = group.participants.get(&key).expect("member missing").clone();
    change(&mut member);
    group.participants.insert(key, member);
}

fn change_members(group: &mut SyncPlayGroup, change: impl Fn(&mut GroupParticipant)) {
    let keys: Vec<String> = (0..group.participants.len())
        .map(|i| group.participants.key_at(i).clone())
        .collect();
    for key in keys {
        change_member(group, &key, &change);
    }
}

#[test]
fn test_re_registering_websocket_clears_stale_disconnect_state() {
    let mut service = SyncPlayService::new();
    let s1 = alice();

    let first_connection_id = service.register_websocket(&s1.session_id);
    assert_eq!(service.take_messages(&s1.session_id).len(), 1);

    let _ = service.unregister_websocket_with_grace(&s1.session_id, first_connection_id);
    assert!(service
        .state
        .disconnect_grace_ids
        .contains_key(&s1.session_id));

    let second_connection_id = service.register_websocket(&s1.session_id);
    assert_eq!(service.take_messages(&s1.session_id).len(), 1);

    assert_eq!(
        service.state.ws_connection_ids.get(&s1.session_id),
        Some(&second_connection_id)
    );
    assert!(!service
        .state
        .disconnect_grace_ids
        .contains_key(&s1.session_id));
}

#[test]
fn test_group_lifecycle_uses_jellyswarrm_users() {
    let mut service = SyncPlayService::new();
    let s1 = alice();
    let s2 = bob();
    service.register_websocket(&s1.session_id);
    service.register_websocket(&s2.session_id);

    let group = service
        .create_group(&s1, "party".to_string())
        .expect("group creation should succeed");
    assert_eq!(group.participants, vec!["alice".to_string()]);

    service.join_group(&s2, group.group_id, None);
    let joined = service
        .get_group_snapshot_by_id(group.group_id)
        .expect("group missing")
        .to_group_info();
    assert!(joined.participants.contains(&"alice".to_string()));
    assert!(joined.participants.contains(&"bob".to_string()));

    service.leave_group(&s1);
    let after_leave = service
        .get_group_snapshot_by_id(group.group_id)
        .expect("group missing")
        .to_group_info();
    assert_eq!(after_leave.participants, vec!["bob".to_string()]);

    service.leave_group(&s2);
    assert!(service.get_group_snapshot_by_id(group.group_id).is_none());
}

#[test]
fn test_queue_media_ids_and_playlist_ids() {
    let mut service = SyncPlayService::new();
    let s1 = alice();
    service.register_websocket(&s1.session_id);
    let group = service
        .create_group(&s1, "party".to_string())
        .expect("group creation should succeed");

    let ok = service.with_group_for_session(&s1, |g, _| {
        g.playlist = vec![queue_item("virtual-media-a"), queue_item("virtual-media-b")];
        g.playing_item_index = Some(0);
    });
    assert!(ok);

    let g = service
        .state
        .groups
        .get(&group.group_id)
        .expect("group missing");
    assert_eq!(g.playlist[0].item_id, "virtual-media-a");
    assert_eq!(g.playlist[1].item_id, "virtual-media-b");
    assert_ne!(g.playlist[0].playlist_item_id, 0);
    assert_ne!(g.playlist[1].playlist_item_id, 0);
    assert_ne!(
        g.playlist[0].playlist_item_id,
        g.playlist[1].playlist_item_id
    );
}

#[test]
fn test_websocket_envelopes_for_commands_and_updates() {
    let mut service = SyncPlayService::new();
    let s1 = alice();

    service.register_websocket(&s1.session_id);
    let keepalive = service.take_messages(&s1.session_id);
    assert_eq!(keepalive[0].message_type(), "ForceKeepAlive");

    let group = service
        .create_group(&s1, "party".to_string())
        .expect("group creation should succeed");
    let joined = service.take_messages(&s1.session_id);
    assert_eq!(joined[0].message_type(), "SyncPlayGroupUpdate");
    assert_eq!(update_type(&joined[0]), Some(GroupUpdateType::GroupJoined));

    let ok = service.with_group_for_session(&s1, |g, sync_state| {
        g.playlist = vec![queue_item("virtual-media-a")];
        g.playing_item_index = Some(0);
        g.start_position_ticks = 123;
        g.state = GroupStateType::Paused;
        g.touch();
        sync_state.broadcast_command(g, SendCommandType::Pause, Some(123), 0);
        sync_state.broadcast_state_update(g, "Pause");
    });
    assert!(ok);

    let messages = service.take_messages(&s1.session_id);
    assert_eq!(messages.len(), 2);
    assert!(messages
        .iter()
        .any(|m| m.message_type() == "SyncPlayCommand"
            && command(m).is_some_and(
                |c| c.command == SendCommandType::Pause && c.position_ticks == Some(123)
            )));
    assert!(has_update(&messages, GroupUpdateType::StateUpdate));
    assert_ne!(messages[0].message_id, messages[1].message_id);
    for message in &messages {
        assert_eq!((message.message_id >> 76) & 0xf, 4);
        assert_eq!((message.message_id >> 62) & 3, 2);
    }

    assert!(service.get_group_snapshot_by_id(group.group_id).is_some());
}

#[test]
fn test_not_in_group_update_is_emitted() {
    let mut service = SyncPlayService::new();
    let s1 = alice();

    service.register_websocket(&s1.session_id);
    let _ = service.take_messages(&s1.session_id);

    let ok = service.with_group_for_session(&s1, |_g, _| {});
    assert!(!ok);

    let not_in_group = service.take_messages(&s1.session_id);
    assert_eq!(not_in_group[0].message_type(), "SyncPlayGroupUpdate");
    assert_eq!(
        update_type(&not_in_group[0]),
        Some(GroupUpdateType::NotInGroup)
    );
}

#[test]
fn test_group_scoped_notification_uses_current_group_id() {
    let mut service = SyncPlayService::new();
    let s1 = alice();

    service.register_websocket(&s1.session_id);
    let group = service
        .create_group(&s1, "party".to_string())
        .expect("group creation should succeed");
    let _ = service.take_messages(&s1.session_id);

    let session_id = s1.session_id.clone();
    let ok = service.with_group_for_session(&s1, move |g, sync_state| {
        sync_state.notify_session_for_group(
            &session_id,
            g.group_id,
            GroupUpdateType::LibraryAccessDenied,
        );
    });
    assert!(ok);

    let access_denied = service.take_messages(&s1.session_id);
    assert_eq!(access_denied[0].message_type(), "SyncPlayGroupUpdate");
    match &access_denied[0].payload {
        Payload::GroupUpdate(update) => {
            assert_eq!(update.update_type, GroupUpdateType::LibraryAccessDenied);
            assert_eq!(id_text(update.group_id), id_text(group.group_id));
        }
        other => panic!("unexpected {other:?}"),
    }
}

#[test]
fn test_websocket_disconnect_keeps_group_during_grace() {
    let mut service = SyncPlayService::new();
    let s1 = alice();

    let connection_id = service.register_websocket(&s1.session_id);
    let group = service
        .create_group(&s1, "party".to_string())
        .expect("group creation should succeed");

    let _ = service.unregister_websocket_with_grace(&s1.session_id, connection_id);
    assert!(service.get_group_snapshot_by_id(group.group_id).is_some());
}

#[test]
fn test_stale_websocket_close_does_not_unregister_reconnect() {
    let mut service = SyncPlayService::new();
    let s1 = alice();

    let old_connection_id = service.register_websocket(&s1.session_id);
    let group = service
        .create_group(&s1, "party".to_string())
        .expect("group creation should succeed");
    let _ = service.take_messages(&s1.session_id);

    service.register_websocket(&s1.session_id);
    assert!(service
        .unregister_websocket_with_grace(&s1.session_id, old_connection_id)
        .is_none());
    service.send_keepalive(&s1.session_id);

    let messages = service.take_messages(&s1.session_id);
    assert!(messages.iter().any(|m| m.message_type() == "KeepAlive"));
    assert!(service.get_group_snapshot_by_id(group.group_id).is_some());
}

#[test]
fn test_stale_disconnect_grace_does_not_remove_later_disconnect() {
    let mut service = SyncPlayService::new();
    let s1 = alice();

    let first_connection_id = service.register_websocket(&s1.session_id);
    let group = service
        .create_group(&s1, "party".to_string())
        .expect("group creation should succeed");

    let _ = service.unregister_websocket_with_grace(&s1.session_id, first_connection_id);
    let first_grace_id = *service
        .state
        .disconnect_grace_ids
        .get(&s1.session_id)
        .expect("disconnect grace missing");

    let second_connection_id = service.register_websocket(&s1.session_id);
    let _ = service.unregister_websocket_with_grace(&s1.session_id, second_connection_id);

    service.leave_if_still_disconnected(&s1.session_id, first_grace_id);

    assert!(service.get_group_snapshot_by_id(group.group_id).is_some());
}

#[test]
fn test_reconnect_receives_group_and_queue_snapshot() {
    let mut service = SyncPlayService::new();
    let s1 = alice();

    service.register_websocket(&s1.session_id);
    service
        .create_group(&s1, "party".to_string())
        .expect("group creation should succeed");
    let _ = service.with_group_for_session(&s1, |g, _| {
        g.playlist = vec![queue_item("virtual-media-a")];
        g.playing_item_index = Some(0);
    });

    service.register_websocket(&s1.session_id);

    let messages = service.take_messages(&s1.session_id);
    assert!(has_update(&messages, GroupUpdateType::GroupJoined));
    assert!(has_update(&messages, GroupUpdateType::PlayQueue));
}

#[test]
fn test_disconnect_resolves_waiting_when_remaining_members_ready() {
    let mut service = SyncPlayService::new();
    let s1 = alice();
    let s2 = bob();

    let s1_connection_id = service.register_websocket(&s1.session_id);
    service.register_websocket(&s2.session_id);
    let group = service
        .create_group(&s1, "party".to_string())
        .expect("group creation should succeed");
    service.join_group(&s2, group.group_id, None);

    let _ = service.with_group_for_session(&s1, |g, _| {
        g.playlist = vec![queue_item("virtual-media-a")];
        g.playing_item_index = Some(0);
        g.state = GroupStateType::Waiting;
        g.waiting_resume_playing = true;
        g.pending_position_ticks = Some(500);
        change_members(g, |p| p.is_buffering = true);
        change_member(g, &s2.session_id, |p| p.is_buffering = false);
    });

    let _ = service.unregister_websocket_with_grace(&s1.session_id, s1_connection_id);

    let snapshot = service
        .get_group_snapshot_by_id(group.group_id)
        .expect("group missing");
    assert_eq!(snapshot.state, GroupStateType::Playing);
    assert_eq!(snapshot.start_position_ticks, 500);
    assert!(snapshot.pending_position_ticks.is_none());
}

#[test]
fn test_leave_resolves_waiting_when_remaining_members_ready() {
    let mut service = SyncPlayService::new();
    let s1 = alice();
    let s2 = bob();

    service.register_websocket(&s1.session_id);
    service.register_websocket(&s2.session_id);
    let group = service
        .create_group(&s1, "party".to_string())
        .expect("group creation should succeed");
    service.join_group(&s2, group.group_id, None);

    let _ = service.with_group_for_session(&s1, |g, _| {
        g.playlist = vec![queue_item("virtual-media-a")];
        g.playing_item_index = Some(0);
        g.state = GroupStateType::Waiting;
        g.waiting_resume_playing = true;
        g.pending_position_ticks = Some(500);
        change_members(g, |p| p.is_buffering = true);
        change_member(g, &s2.session_id, |p| p.is_buffering = false);
    });

    service.leave_group(&s1);

    let snapshot = service
        .get_group_snapshot_by_id(group.group_id)
        .expect("group missing");
    assert_eq!(snapshot.state, GroupStateType::Playing);
}

#[test]
fn test_waiting_ready_all_ready_emits_delayed_unpause() {
    let mut service = SyncPlayService::new();
    let s1 = alice();
    let s2 = bob();

    service.register_websocket(&s1.session_id);
    service.register_websocket(&s2.session_id);
    let group = service
        .create_group(&s1, "party".to_string())
        .expect("group creation should succeed");
    service.join_group(&s2, group.group_id, None);
    let _ = service.take_messages(&s1.session_id);

    let _ = service.with_group_for_session(&s1, |g, _| {
        g.playlist = vec![queue_item("virtual-media-a")];
        g.playing_item_index = Some(0);
        g.state = GroupStateType::Waiting;
        g.waiting_resume_playing = true;
        g.start_position_ticks = 777;
        change_members(g, |p| p.is_buffering = true);
        change_member(g, &s1.session_id, |p| p.ping = 50);
        change_member(g, &s2.session_id, |p| p.ping = 300);
    });

    let _ = service.with_group_for_session(&s1, |g, sync_state| {
        change_member(g, &s1.session_id, |p| p.is_buffering = false);
        sync_state.resolve_waiting(g, "Ready");
    });
    assert!(service.take_messages(&s1.session_id).is_empty());

    let _ = service.with_group_for_session(&s2, |g, sync_state| {
        change_member(g, &s2.session_id, |p| p.is_buffering = false);
        sync_state.resolve_waiting(g, "Ready");
    });

    let msgs = service.take_messages(&s1.session_id);
    let cmd = msgs
        .iter()
        .filter_map(command)
        .find(|c| c.command == SendCommandType::Unpause)
        .expect("expected unpause command");
    let delay_ms = (cmd.when.nanos - cmd.emitted_at.nanos) / NANOS_PER_MILLI;
    assert!(
        delay_ms >= 500,
        "expected delayed unpause, got {delay_ms}ms"
    );
    // Twice the highest ping.
    assert_eq!(delay_ms, 600);
    assert_eq!(cmd.position_ticks, Some(777));
}

#[test]
fn test_join_sends_queue_snapshot_to_joiner() {
    let mut service = SyncPlayService::new();
    let s1 = alice();
    let s2 = bob();

    service.register_websocket(&s1.session_id);
    service.register_websocket(&s2.session_id);
    let _ = service.take_messages(&s2.session_id);

    let group = service
        .create_group(&s1, "party".to_string())
        .expect("group creation should succeed");

    let _ = service.with_group_for_session(&s1, |g, _| {
        g.playlist = vec![queue_item("virtual-media-a")];
        g.playing_item_index = Some(0);
    });

    service.join_group(&s2, group.group_id, None);
    let msgs = service.take_messages(&s2.session_id);
    assert!(msgs.iter().any(|m| match &m.payload {
        Payload::GroupUpdate(update) => {
            update.update_type == GroupUpdateType::PlayQueue
                && matches!(
                    &update.data,
                    UpdateData::Queue(queue) if queue.reason == PlayQueueUpdateReason::NewPlaylist
                )
        }
        _ => false,
    }));
}

#[test]
fn test_joiner_does_not_receive_user_joined_before_group_joined() {
    let mut service = SyncPlayService::new();
    let s1 = alice();
    let s2 = bob();

    service.register_websocket(&s1.session_id);
    service.register_websocket(&s2.session_id);
    let _ = service.take_messages(&s2.session_id);

    let group = service
        .create_group(&s1, "party".to_string())
        .expect("group creation should succeed");
    let _ = service.take_messages(&s1.session_id);

    service.join_group(&s2, group.group_id, None);

    let joiner_messages = service.take_messages(&s2.session_id);
    assert!(has_update(&joiner_messages, GroupUpdateType::GroupJoined));
    assert!(!has_update(&joiner_messages, GroupUpdateType::UserJoined));

    let existing_member_messages = service.take_messages(&s1.session_id);
    assert!(existing_member_messages.iter().any(|m| match &m.payload {
        Payload::GroupUpdate(update) => {
            update.update_type == GroupUpdateType::UserJoined
                && matches!(&update.data, UpdateData::Text(text) if text == "bob")
        }
        _ => false,
    }));
}

#[test]
fn test_empty_queue_snapshot_uses_minus_one_playing_item_index() {
    let mut service = SyncPlayService::new();
    let s1 = alice();

    service.register_websocket(&s1.session_id);
    let group = service
        .create_group(&s1, "party".to_string())
        .expect("group creation should succeed");
    let _ = service.take_messages(&s1.session_id);

    let _ = service.with_group_for_session(&s1, |g, sync_state| {
        g.playlist.clear();
        g.playing_item_index = None;
        g.touch();
        sync_state.send_queue_update_to(
            g,
            PlayQueueUpdateReason::NewPlaylist,
            vec![s1.session_id.clone()],
        );
    });

    let queue_update = service.take_messages(&s1.session_id);
    assert_eq!(queue_update[0].message_type(), "SyncPlayGroupUpdate");
    match &queue_update[0].payload {
        Payload::GroupUpdate(update) => {
            assert_eq!(update.update_type, GroupUpdateType::PlayQueue);
            match &update.data {
                UpdateData::Queue(queue) => {
                    assert!(queue.playlist.is_empty());
                    assert_eq!(queue.playing_item_index, -1);
                }
                other => panic!("unexpected {other:?}"),
            }
        }
        other => panic!("unexpected {other:?}"),
    }

    assert!(service.get_group_snapshot_by_id(group.group_id).is_some());
}

#[test]
fn test_create_group_requires_websocket_connection() {
    let mut service = SyncPlayService::new();
    let s1 = alice();

    let group = service.create_group(&s1, "party".to_string());
    assert!(group.is_none());
}

#[test]
fn test_join_group_requires_websocket_connection() {
    let mut service = SyncPlayService::new();
    let s1 = alice();
    let s2 = bob();

    service.register_websocket(&s1.session_id);

    let group = service
        .create_group(&s1, "party".to_string())
        .expect("group creation should succeed");

    let joined = service.join_group(&s2, group.group_id, None);
    assert!(!joined);

    let snapshot = service
        .get_group_snapshot_by_id(group.group_id)
        .expect("group missing");
    assert_eq!(snapshot.participants.len(), 1);
}

fn group_of(members: Vec<(&str, GroupParticipant)>) -> SyncPlayGroup {
    let mut participants = Table::new();
    for (session, member) in members {
        participants.insert(session.to_string(), member);
    }
    SyncPlayGroup {
        group_id: 7,
        group_name: "party".to_string(),
        state: GroupStateType::Idle,
        participants,
        playlist: Vec::new(),
        playing_item_index: None,
        start_position_ticks: 0,
        pending_position_ticks: None,
        position_base_when: at(100),
        is_playing: false,
        shuffle_mode: GroupShuffleMode::Sorted,
        repeat_mode: GroupRepeatMode::RepeatNone,
        waiting_resume_playing: false,
        last_updated_at: at(100),
    }
}

#[test]
fn a_group_waits_for_connected_members_who_buffer() {
    let mut group = group_of(vec![
        ("s1", make_participant(&alice(), true)),
        ("s2", make_participant(&bob(), false)),
    ]);
    assert!(!group.all_ready());
    change_member(&mut group, "s1", |p| p.ignore_wait = true);
    assert!(group.all_ready());
    change_member(&mut group, "s1", |p| {
        p.ignore_wait = false;
        p.is_connected = false;
    });
    assert!(group.all_ready());
    assert!(group_of(Vec::new()).all_ready());
}

#[test]
fn the_delay_goes_by_the_highest_ping() {
    let mut group = group_of(vec![
        ("s1", make_participant(&alice(), false)),
        ("s2", make_participant(&bob(), false)),
    ]);
    assert_eq!(group.ping_delay_ms(), 2 * DEFAULT_PING_MS);
    change_members(&mut group, |p| p.ping = 10);
    assert_eq!(group.ping_delay_ms(), 500);
    change_member(&mut group, "s2", |p| p.ping = u64::MAX);
    assert_eq!(group.ping_delay_ms(), i64::MAX);
    assert_eq!(group_of(Vec::new()).ping_delay_ms(), 500);
}

#[test]
fn a_playing_group_moves_on_with_the_time() {
    let mut group = group_of(Vec::new());
    group.start_position_ticks = 1000;
    // A tick is a hundred nanoseconds.
    assert_eq!(group.clone().freeze_at_estimated_position(at(101)), 1000);
    group.is_playing = true;
    assert_eq!(
        group.clone().freeze_at_estimated_position(at(101)),
        10_001_000
    );
    assert_eq!(group.clone().freeze_at_estimated_position(at(99)), 1000);
    group.start_position_ticks = i64::MAX - 5;
    assert_eq!(
        group.clone().freeze_at_estimated_position(at(101)),
        i64::MAX
    );
    let ticks = group.freeze_at_estimated_position(at(101));
    assert_eq!(group.start_position_ticks, ticks);
    assert_eq!(group.position_base_when, at(101));
    assert!(!group.is_playing);
    group.set_position(42, at(200));
    assert_eq!(group.start_position_ticks, 42);
    assert_eq!(group.position_base_when, at(200));
    group.touch_at(at(300));
    assert_eq!(group.last_updated_at, at(300));
}

#[test]
fn the_playing_item_is_one_of_the_queue_or_nil() {
    let mut group = group_of(Vec::new());
    assert_eq!(group.current_playlist_item_id(), 0);
    group.playlist = vec![queue_item("a"), queue_item("b")];
    assert_eq!(group.queue_item_ids(), vec!["a".to_string(), "b".to_string()]);
    group.playing_item_index = Some(1);
    assert_eq!(
        group.current_playlist_item_id(),
        group.playlist[1].playlist_item_id
    );
    group.playing_item_index = Some(2);
    assert_eq!(group.current_playlist_item_id(), 0);
}

#[test]
fn joining_a_playing_group_pauses_it_where_it_is() {
    let mut service = SyncPlayService::new();
    let s1 = alice();
    let s2 = bob();
    service.register_websocket_at(&s1.session_id, 11, at(0));
    service.register_websocket_at(&s2.session_id, 12, at(0));
    let group = service
        .create_group_at(&s1, "party".to_string(), 77, at(1))
        .expect("group creation should succeed");
    assert_eq!(group.group_id, 77);
    assert_eq!(group.group_name, "party");
    assert_eq!(group.state, GroupStateType::Idle);
    assert_eq!(group.last_updated_at, at(1));
    let _ = service.with_group_for_session(&s1, |g, _| {
        g.playlist = vec![queue_item("a")];
        g.playing_item_index = Some(0);
        g.state = GroupStateType::Playing;
        g.is_playing = true;
        g.position_base_when = at(2);
    });
    let _ = service.take_messages(&s1.session_id);
    let _ = service.take_messages(&s2.session_id);
    assert!(service.join_group_at(&s2, 77, Some(vec!["a".to_string()]), at(5)));
    let snapshot = service.get_group_snapshot_for_session(&s2.session_id).unwrap();
    assert_eq!(snapshot.state, GroupStateType::Waiting);
    assert!(snapshot.waiting_resume_playing);
    assert!(!snapshot.is_playing);
    assert_eq!(snapshot.pending_position_ticks, Some(30_000_000));
    let kinds: Vec<&str> = service
        .take_messages(&s2.session_id)
        .iter()
        .map(|m| m.message_type())
        .collect();
    assert_eq!(
        kinds,
        vec![
            "SyncPlayGroupUpdate",
            "SyncPlayGroupUpdate",
            "SyncPlayCommand",
            "SyncPlayGroupUpdate"
        ]
    );
    let told = service.take_messages(&s1.session_id);
    assert_eq!(told.len(), 3);
    let pause = command(&told[0]).unwrap();
    assert_eq!(pause.command, SendCommandType::Pause);
    assert_eq!(pause.when, at(5));
    assert_eq!(pause.position_ticks, Some(30_000_000));
    assert_eq!(update_type(&told[2]), Some(GroupUpdateType::UserJoined));
}

#[test]
fn joining_is_refused_over_the_connection() {
    let mut service = SyncPlayService::new();
    let s1 = alice();
    let s2 = bob();
    service.register_websocket_at(&s1.session_id, 11, at(0));
    service.register_websocket_at(&s2.session_id, 12, at(0));
    let _ = service.create_group_at(&s1, "party".to_string(), 77, at(1));
    let _ = service.take_messages(&s2.session_id);
    assert!(service.join_group_at(&s2, 5, None, at(2)));
    assert!(has_update(
        &service.take_messages(&s2.session_id),
        GroupUpdateType::GroupDoesNotExist
    ));
    assert!(service.join_group_at(&s2, 77, Some(vec!["x".to_string()]), at(2)));
    assert!(has_update(
        &service.take_messages(&s2.session_id),
        GroupUpdateType::LibraryAccessDenied
    ));
    assert!(service
        .get_group_snapshot_for_session(&s2.session_id)
        .is_none());
    assert_eq!(
        service
            .get_group_snapshot_by_id(77)
            .unwrap()
            .participants
            .len(),
        1
    );
    service.send_library_access_denied_to_session(&s2.session_id);
    assert!(has_update(
        &service.take_messages(&s2.session_id),
        GroupUpdateType::LibraryAccessDenied
    ));
}

#[test]
fn a_session_is_in_one_group_at_a_time() {
    let mut service = SyncPlayService::default();
    let s1 = alice();
    let s2 = bob();
    service.register_websocket_at(&s1.session_id, 11, at(0));
    service.register_websocket_at(&s2.session_id, 12, at(0));
    let _ = service.create_group_at(&s1, "one".to_string(), 71, at(1));
    assert!(service.join_group_at(&s2, 71, None, at(2)));
    let _ = service.take_messages(&s1.session_id);
    let _ = service.take_messages(&s2.session_id);
    let _ = service.create_group_at(&s2, "two".to_string(), 72, at(3));
    let mut ids: Vec<u128> = service
        .list_group_snapshots()
        .iter()
        .map(|g| g.group_id)
        .collect();
    ids.sort();
    assert_eq!(ids, vec![71, 72]);
    assert_eq!(
        service
            .get_group_snapshot_by_id(71)
            .unwrap()
            .to_group_info()
            .participants,
        vec!["alice".to_string()]
    );
    let told = service.take_messages(&s1.session_id);
    assert_eq!(update_type(&told[0]), Some(GroupUpdateType::UserLeft));
    match &told[0].payload {
        Payload::GroupUpdate(update) => {
            assert!(matches!(&update.data, UpdateData::Text(name) if name == "bob"))
        }
        other => panic!("unexpected {other:?}"),
    }
    let told = service.take_messages(&s2.session_id);
    assert_eq!(update_type(&told[0]), Some(GroupUpdateType::GroupLeft));
    match &told[0].payload {
        Payload::GroupUpdate(update) => assert!(matches!(
            &update.data,
            UpdateData::Text(id) if id == "00000000-0000-0000-0000-000000000047"
        )),
        other => panic!("unexpected {other:?}"),
    }
    assert_eq!(update_type(&told[1]), Some(GroupUpdateType::GroupJoined));
    // Joining one's own group again when alone in it ends the group.
    assert!(service.join_group_at(&s2, 72, None, at(4)));
    assert!(service.get_group_snapshot_by_id(72).is_none());
}

#[test]
fn a_grace_period_ends_the_membership_of_the_absent() {
    let mut service = SyncPlayService::new();
    let s1 = alice();
    service.register_websocket_at(&s1.session_id, 11, at(0));
    let _ = service.create_group_at(&s1, "one".to_string(), 71, at(1));
    assert!(!service.unregister_websocket_with_grace_at(&s1.session_id, 10, 21, at(2)));
    assert!(service.unregister_websocket_with_grace_at(&s1.session_id, 11, 21, at(2)));
    assert!(service.take_messages(&s1.session_id).is_empty());
    let member = service.get_group_snapshot_by_id(71).unwrap();
    assert!(
        !member
            .participants
            .get(&s1.session_id)
            .unwrap()
            .is_connected
    );
    service.leave_if_still_disconnected_at(&s1.session_id, 20, at(40));
    assert!(service.get_group_snapshot_by_id(71).is_some());
    service.leave_if_still_disconnected_at(&s1.session_id, 21, at(40));
    assert!(service.get_group_snapshot_by_id(71).is_none());
    assert_eq!(WEBSOCKET_DISCONNECT_GRACE_SECS, 30);
}

#[test]
fn a_session_that_comes_back_in_time_stays() {
    let mut service = SyncPlayService::new();
    let s1 = alice();
    service.register_websocket_at(&s1.session_id, 11, at(0));
    let _ = service.create_group_at(&s1, "one".to_string(), 71, at(1));
    assert!(service.unregister_websocket_with_grace_at(&s1.session_id, 11, 21, at(2)));
    service.register_websocket_at(&s1.session_id, 12, at(3));
    service.leave_if_still_disconnected_at(&s1.session_id, 21, at(40));
    let group = service.get_group_snapshot_by_id(71).unwrap();
    assert!(group.participants.get(&s1.session_id).unwrap().is_connected);
    let messages = service.take_messages(&s1.session_id);
    assert!(matches!(
        messages[0].payload,
        Payload::ForceKeepAlive(KEEP_ALIVE_SECS)
    ));
}

#[test]
fn a_lost_connection_gets_no_messages() {
    let mut service = SyncPlayService::new();
    let s1 = alice();
    service.register_websocket_at(&s1.session_id, 11, at(0));
    service.connection_lost(&s1.session_id);
    service.send_keepalive(&s1.session_id);
    assert!(service.take_messages(&s1.session_id).is_empty());
    assert!(!service.state.ws_connection_ids.contains_key(&s1.session_id));
    assert!(service.create_group(&s1, "one".to_string()).is_none());
}

#[test]
fn a_group_that_was_paused_stays_paused() {
    let mut service = SyncPlayService::new();
    let s1 = alice();
    service.register_websocket_at(&s1.session_id, 11, at(0));
    let _ = service.create_group_at(&s1, "one".to_string(), 71, at(1));
    let _ = service.take_messages(&s1.session_id);
    let _ = service.with_group_for_session(&s1, |g, sync_state| {
        g.state = GroupStateType::Waiting;
        g.pending_position_ticks = Some(9);
        sync_state.resolve_waiting_at(g, "Ready", at(6));
        // Nothing is left to resolve.
        sync_state.resolve_waiting_at(g, "Ready", at(7));
        sync_state.broadcast_queue_update(g, PlayQueueUpdateReason::Queue);
        sync_state.broadcast_command_at(g, SendCommandType::Seek, None, -5, at(8));
    });
    let group = service.get_group_snapshot_by_id(71).unwrap();
    assert_eq!(group.state, GroupStateType::Paused);
    assert_eq!(group.start_position_ticks, 9);
    assert_eq!(group.position_base_when, at(6));
    assert_eq!(group.last_updated_at, at(6));
    let messages = service.take_messages(&s1.session_id);
    assert_eq!(messages.len(), 4);
    let pause = command(&messages[0]).unwrap();
    assert_eq!(pause.command, SendCommandType::Pause);
    assert_eq!(pause.when, at(6));
    match &messages[1].payload {
        Payload::GroupUpdate(update) => assert!(matches!(
            &update.data,
            UpdateData::State(GroupStateType::Paused, reason) if reason == "Ready"
        )),
        other => panic!("unexpected {other:?}"),
    }
    assert_eq!(update_type(&messages[2]), Some(GroupUpdateType::PlayQueue));
    assert_eq!(command(&messages[3]).unwrap().when, at(8));
}

#[test]
fn a_group_with_a_queue_waits_for_who_comes_in() {
    let mut service = SyncPlayService::new();
    let s1 = alice();
    let s2 = bob();
    service.register_websocket_at(&s1.session_id, 11, at(0));
    service.register_websocket_at(&s2.session_id, 12, at(0));
    let _ = service.create_group_at(&s1, "party".to_string(), 77, at(1));
    let _ = service.with_group_for_session(&s1, |g, _| {
        g.playlist = vec![queue_item("a")];
        g.playing_item_index = Some(0);
        g.state = GroupStateType::Playing;
        g.is_playing = true;
        g.position_base_when = at(2);
    });
    assert!(service.join_group_at(&s2, 77, None, at(4)));
    let group = service.get_group_snapshot_by_id(77).unwrap();
    assert_eq!(group.state, GroupStateType::Waiting);
    assert!(!group.all_ready());
    // Once bob is ready the group goes on where it was.
    let _ = service.with_group_for_session(&s2, |g, sync_state| {
        change_member(g, &s2.session_id, |p| p.is_buffering = false);
        sync_state.resolve_waiting_at(g, "Ready", at(9));
    });
    let group = service.get_group_snapshot_by_id(77).unwrap();
    assert_eq!(group.state, GroupStateType::Playing);
    assert!(group.is_playing);
    assert_eq!(group.start_position_ticks, 20_000_000);
    assert_eq!(group.position_base_when, at(10));
    // It waits again for alice, who comes back.
    service.register_websocket_at(&s1.session_id, 13, at(12));
    let group = service.get_group_snapshot_by_id(77).unwrap();
    assert_eq!(group.state, GroupStateType::Waiting);
    assert!(!group.all_ready());
    assert_eq!(group.pending_position_ticks, Some(40_000_000));
}

#[test]
fn leaving_twice_is_leaving_once() {
    let mut service = SyncPlayService::new();
    let s1 = alice();
    let s2 = bob();
    service.register_websocket_at(&s1.session_id, 11, at(0));
    service.register_websocket_at(&s2.session_id, 12, at(0));
    let _ = service.create_group_at(&s1, "party".to_string(), 77, at(1));
    assert!(service.join_group_at(&s2, 77, None, at(2)));
    service.leave_group_at(&s1, at(3));
    let _ = service.take_messages(&s1.session_id);
    let _ = service.take_messages(&s2.session_id);
    service.leave_group_at(&s1, at(4));
    assert!(service.take_messages(&s1.session_id).is_empty());
    assert!(service.take_messages(&s2.session_id).is_empty());
    let group = service.get_group_snapshot_by_id(77).unwrap();
    assert_eq!(group.participants.len(), 1);
    assert_eq!(group.last_updated_at, at(3));
}
