//! What a SyncPlay group is, and what its members are sent.
use vstd::prelude::*;
use crate::clock::Timestamp;
use crate::ids;
use crate::ids::new_id;
use crate::table;
use crate::table::Table;

verus! {

/// The ping that is assumed of a member, in milliseconds, and the least delay
/// before a group plays on.
pub const DEFAULT_PING_MS: i64 = 500;

/// How many seconds a session that has lost its connection stays in its group.
pub const WEBSOCKET_DISCONNECT_GRACE_SECS: u64 = 30;

/// The nanoseconds of a tick, in which positions are counted.
pub const NANOS_PER_TICK: u128 = 100;

/// The views of a list.
pub open spec fn views<T: View>(list: Seq<T>) -> Seq<T::V> {
    list.map_values(|item: T| item@)
}

/// What a group is doing.
#[derive(Clone, Copy, Debug, PartialEq, Eq, Structural)]
pub enum GroupStateType {
    Idle,
    Waiting,
    Paused,
    Playing,
}

/// In which order a group plays its queue.
#[derive(Clone, Copy, Debug, PartialEq, Eq, Structural)]
pub enum GroupShuffleMode {
    Sorted,
    Shuffle,
}

/// What a group repeats.
#[derive(Clone, Copy, Debug, PartialEq, Eq, Structural)]
pub enum GroupRepeatMode {
    RepeatOne,
    RepeatAll,
    RepeatNone,
}

/// What a group update is about.
#[derive(Clone, Copy, Debug, PartialEq, Eq, Structural)]
pub enum GroupUpdateType {
    UserJoined,
    UserLeft,
    GroupJoined,
    GroupLeft,
    StateUpdate,
    PlayQueue,
    NotInGroup,
    GroupDoesNotExist,
    LibraryAccessDenied,
}

/// Why a group's queue is sent.
#[derive(Clone, Copy, Debug, PartialEq, Eq, Structural)]
pub enum PlayQueueUpdateReason {
    NewPlaylist,
    SetCurrentItem,
    RemoveItems,
    MoveItem,
    Queue,
    QueueNext,
    NextItem,
    PreviousItem,
    RepeatMode,
    ShuffleMode,
}

/// What the members of a group are told to do.
#[derive(Clone, Copy, Debug, PartialEq, Eq, Structural)]
pub enum SendCommandType {
    Unpause,
    Pause,
    Stop,
    Seek,
}

/// A member of a group.
#[derive(Debug)]
pub struct GroupParticipant {
    pub user_name: String,
    pub ping: u64,
    pub is_buffering: bool,
    pub ignore_wait: bool,
    pub is_connected: bool,
    pub last_client_when: Option<Timestamp>,
}

/// The view of a [`GroupParticipant`].
pub struct ParticipantView {
    pub user_name: Seq<char>,
    pub ping: u64,
    pub is_buffering: bool,
    pub ignore_wait: bool,
    pub is_connected: bool,
    pub last_client_when: Option<nat>,
}

impl View for GroupParticipant {
    type V = ParticipantView;

    open spec fn view(&self) -> ParticipantView {
        ParticipantView {
            user_name: self.user_name@,
            ping: self.ping,
            is_buffering: self.is_buffering,
            ignore_wait: self.ignore_wait,
            is_connected: self.is_connected,
            last_client_when: match self.last_client_when {
                Some(at) => Some(at@),
                None => None,
            },
        }
    }
}

impl Clone for GroupParticipant {
    fn clone(&self) -> (copy: Self)
        ensures
            copy@ == self@,
    {
        GroupParticipant {
            user_name: self.user_name.clone(),
            ping: self.ping,
            is_buffering: self.is_buffering,
            ignore_wait: self.ignore_wait,
            is_connected: self.is_connected,
            last_client_when: self.last_client_when,
        }
    }
}

/// An item of a group's queue.
#[derive(Debug)]
pub struct SyncPlayQueueItem {
    pub item_id: String,
    pub playlist_item_id: u128,
}

/// The view of a [`SyncPlayQueueItem`].
pub struct QueueItemView {
    pub item_id: Seq<char>,
    pub playlist_item_id: u128,
}

impl View for SyncPlayQueueItem {
    type V = QueueItemView;

    open spec fn view(&self) -> QueueItemView {
        QueueItemView { item_id: self.item_id@, playlist_item_id: self.playlist_item_id }
    }
}

impl Clone for SyncPlayQueueItem {
    fn clone(&self) -> (copy: Self)
        ensures
            copy@ == self@,
    {
        SyncPlayQueueItem {
            item_id: self.item_id.clone(),
            playlist_item_id: self.playlist_item_id,
        }
    }
}

/// A second copy of a queue.
pub fn copy_playlist(playlist: &Vec<SyncPlayQueueItem>) -> (copy: Vec<SyncPlayQueueItem>)
    ensures
        views(copy@) == views(playlist@),
{
    let mut copy: Vec<SyncPlayQueueItem> = Vec::new();
    let mut i: usize = 0;
    while i < playlist.len()
        invariant
            i <= playlist@.len(),
            views(copy@) == views(playlist@).take(i as int),
        decreases playlist@.len() - i,
    {
        let ghost had = copy@;
        copy.push(playlist[i].clone());
        assert(views(copy@) =~= views(had).push(playlist@[i as int]@));
        assert(views(playlist@).take(i + 1) =~= views(playlist@).take(i as int).push(playlist@[i as int]@));
        i = i + 1;
    }
    assert(views(playlist@).take(playlist@.len() as int) =~= views(playlist@));
    copy
}

/// A second copy of a list of texts.
pub fn copy_texts(texts: &Vec<String>) -> (copy: Vec<String>)
    ensures
        views(copy@) == views(texts@),
{
    let mut copy: Vec<String> = Vec::new();
    let mut i: usize = 0;
    while i < texts.len()
        invariant
            i <= texts@.len(),
            views(copy@) == views(texts@).take(i as int),
        decreases texts@.len() - i,
    {
        let ghost had = copy@;
        copy.push(texts[i].clone());
        assert(views(copy@) =~= views(had).push(texts@[i as int]@));
        assert(views(texts@).take(i + 1) =~= views(texts@).take(i as int).push(texts@[i as int]@));
        i = i + 1;
    }
    assert(views(texts@).take(texts@.len() as int) =~= views(texts@));
    copy
}

/// A group. Its members are the rows of a table, under their sessions.
pub struct SyncPlayGroup {
    pub group_id: u128,
    pub group_name: String,
    pub state: GroupStateType,
    pub participants: Table<String, GroupParticipant>,
    pub playlist: Vec<SyncPlayQueueItem>,
    pub playing_item_index: Option<usize>,
    pub start_position_ticks: i64,
    pub pending_position_ticks: Option<i64>,
    pub position_base_when: Timestamp,
    pub is_playing: bool,
    pub shuffle_mode: GroupShuffleMode,
    pub repeat_mode: GroupRepeatMode,
    pub waiting_resume_playing: bool,
    pub last_updated_at: Timestamp,
}

/// The view of a [`SyncPlayGroup`].
pub struct GroupView {
    pub group_id: u128,
    pub group_name: Seq<char>,
    pub state: GroupStateType,
    pub participants: Seq<(Seq<char>, ParticipantView)>,
    pub playlist: Seq<QueueItemView>,
    pub playing_item_index: Option<usize>,
    pub start_position_ticks: i64,
    pub pending_position_ticks: Option<i64>,
    pub position_base_when: nat,
    pub is_playing: bool,
    pub shuffle_mode: GroupShuffleMode,
    pub repeat_mode: GroupRepeatMode,
    pub waiting_resume_playing: bool,
    pub last_updated_at: nat,
}

impl View for SyncPlayGroup {
    type V = GroupView;

    open spec fn view(&self) -> GroupView {
        GroupView {
            group_id: self.group_id,
            group_name: self.group_name@,
            state: self.state,
            participants: self.participants.items(),
            playlist: views(self.playlist@),
            playing_item_index: self.playing_item_index,
            start_position_ticks: self.start_position_ticks,
            pending_position_ticks: self.pending_position_ticks,
            position_base_when: self.position_base_when@,
            is_playing: self.is_playing,
            shuffle_mode: self.shuffle_mode,
            repeat_mode: self.repeat_mode,
            waiting_resume_playing: self.waiting_resume_playing,
            last_updated_at: self.last_updated_at@,
        }
    }
}

impl Clone for SyncPlayGroup {
    fn clone(&self) -> (copy: Self)
        ensures
            copy@ == self@,
    {
        assert(table::clone_keeps_view::<GroupParticipant>());
        SyncPlayGroup {
            group_id: self.group_id,
            group_name: self.group_name.clone(),
            state: self.state,
            participants: self.participants.clone(),
            playlist: copy_playlist(&self.playlist),
            playing_item_index: self.playing_item_index,
            start_position_ticks: self.start_position_ticks,
            pending_position_ticks: self.pending_position_ticks,
            position_base_when: self.position_base_when,
            is_playing: self.is_playing,
            shuffle_mode: self.shuffle_mode,
            repeat_mode: self.repeat_mode,
            waiting_resume_playing: self.waiting_resume_playing,
            last_updated_at: self.last_updated_at,
        }
    }
}

/// What a group is shown as.
#[derive(Debug)]
pub struct GroupInfoDto {
    pub group_id: u128,
    pub group_name: String,
    pub state: GroupStateType,
    pub participants: Vec<String>,
    pub last_updated_at: Timestamp,
}

/// The view of a [`GroupInfoDto`].
pub struct GroupInfoView {
    pub group_id: u128,
    pub group_name: Seq<char>,
    pub state: GroupStateType,
    pub participants: Seq<Seq<char>>,
    pub last_updated_at: nat,
}

impl View for GroupInfoDto {
    type V = GroupInfoView;

    open spec fn view(&self) -> GroupInfoView {
        GroupInfoView {
            group_id: self.group_id,
            group_name: self.group_name@,
            state: self.state,
            participants: views(self.participants@),
            last_updated_at: self.last_updated_at@,
        }
    }
}

impl Clone for GroupInfoDto {
    fn clone(&self) -> (copy: Self)
        ensures
            copy@ == self@,
    {
        GroupInfoDto {
            group_id: self.group_id,
            group_name: self.group_name.clone(),
            state: self.state,
            participants: copy_texts(&self.participants),
            last_updated_at: self.last_updated_at,
        }
    }
}

/// A group's queue, as it is sent.
#[derive(Debug)]
pub struct PlayQueueUpdate {
    pub reason: PlayQueueUpdateReason,
    pub last_update: Timestamp,
    pub playlist: Vec<SyncPlayQueueItem>,
    pub playing_item_index: i64,
    pub start_position_ticks: i64,
    pub is_playing: bool,
    pub shuffle_mode: GroupShuffleMode,
    pub repeat_mode: GroupRepeatMode,
}

/// The view of a [`PlayQueueUpdate`].
pub struct QueueUpdateView {
    pub reason: PlayQueueUpdateReason,
    pub last_update: nat,
    pub playlist: Seq<QueueItemView>,
    pub playing_item_index: i64,
    pub start_position_ticks: i64,
    pub is_playing: bool,
    pub shuffle_mode: GroupShuffleMode,
    pub repeat_mode: GroupRepeatMode,
}

impl View for PlayQueueUpdate {
    type V = QueueUpdateView;

    open spec fn view(&self) -> QueueUpdateView {
        QueueUpdateView {
            reason: self.reason,
            last_update: self.last_update@,
            playlist: views(self.playlist@),
            playing_item_index: self.playing_item_index,
            start_position_ticks: self.start_position_ticks,
            is_playing: self.is_playing,
            shuffle_mode: self.shuffle_mode,
            repeat_mode: self.repeat_mode,
        }
    }
}

/// What a group update carries.
#[derive(Debug)]
pub enum UpdateData {
    Info(GroupInfoDto),
    Queue(PlayQueueUpdate),
    State(GroupStateType, String),
    Text(String),
}

/// The view of an [`UpdateData`].
pub enum UpdateDataView {
    Info(GroupInfoView),
    Queue(QueueUpdateView),
    State(GroupStateType, Seq<char>),
    Text(Seq<char>),
}

impl View for UpdateData {
    type V = UpdateDataView;

    open spec fn view(&self) -> UpdateDataView {
        match *self {
            UpdateData::Info(info) => UpdateDataView::Info(info@),
            UpdateData::Queue(queue) => UpdateDataView::Queue(queue@),
            UpdateData::State(state, reason) => UpdateDataView::State(state, reason@),
            UpdateData::Text(text) => UpdateDataView::Text(text@),
        }
    }
}

impl Clone for UpdateData {
    fn clone(&self) -> (copy: Self)
        ensures
            copy@ == self@,
    {
        match self {
            UpdateData::Info(info) => UpdateData::Info(info.clone()),
            UpdateData::Queue(queue) => UpdateData::Queue(
                PlayQueueUpdate {
                    reason: queue.reason,
                    last_update: queue.last_update,
                    playlist: copy_playlist(&queue.playlist),
                    playing_item_index: queue.playing_item_index,
                    start_position_ticks: queue.start_position_ticks,
                    is_playing: queue.is_playing,
                    shuffle_mode: queue.shuffle_mode,
                    repeat_mode: queue.repeat_mode,
                },
            ),
            UpdateData::State(state, reason) => UpdateData::State(*state, reason.clone()),
            UpdateData::Text(text) => UpdateData::Text(text.clone()),
        }
    }
}

/// A group update.
#[derive(Debug)]
pub struct GroupUpdateEnvelope {
    pub group_id: u128,
    pub update_type: GroupUpdateType,
    pub data: UpdateData,
}

/// A command to a group's members.
#[derive(Clone, Copy, Debug)]
pub struct SendCommandEnvelope {
    pub group_id: u128,
    pub playlist_item_id: u128,
    pub when: Timestamp,
    pub position_ticks: Option<i64>,
    pub command: SendCommandType,
    pub emitted_at: Timestamp,
}

/// What a message carries.
#[derive(Debug)]
pub enum Payload {
    ForceKeepAlive(u64),
    KeepAlive,
    GroupUpdate(GroupUpdateEnvelope),
    Command(SendCommandEnvelope),
}

/// The view of a [`Payload`].
pub enum PayloadView {
    ForceKeepAlive(u64),
    KeepAlive,
    GroupUpdate { group_id: u128, update_type: GroupUpdateType, data: UpdateDataView },
    Command {
        group_id: u128,
        playlist_item_id: u128,
        when: nat,
        position_ticks: Option<i64>,
        command: SendCommandType,
        emitted_at: nat,
    },
}

impl View for Payload {
    type V = PayloadView;

    open spec fn view(&self) -> PayloadView {
        match *self {
            Payload::ForceKeepAlive(seconds) => PayloadView::ForceKeepAlive(seconds),
            Payload::KeepAlive => PayloadView::KeepAlive,
            Payload::GroupUpdate(update) => PayloadView::GroupUpdate {
                group_id: update.group_id,
                update_type: update.update_type,
                data: update.data@,
            },
            Payload::Command(command) => PayloadView::Command {
                group_id: command.group_id,
                playlist_item_id: command.playlist_item_id,
                when: command.when@,
                position_ticks: command.position_ticks,
                command: command.command,
                emitted_at: command.emitted_at@,
            },
        }
    }
}

impl Clone for Payload {
    fn clone(&self) -> (copy: Self)
        ensures
            copy@ == self@,
    {
        match self {
            Payload::ForceKeepAlive(seconds) => Payload::ForceKeepAlive(*seconds),
            Payload::KeepAlive => Payload::KeepAlive,
            Payload::GroupUpdate(update) => Payload::GroupUpdate(
                GroupUpdateEnvelope {
                    group_id: update.group_id,
                    update_type: update.update_type,
                    data: update.data.clone(),
                },
            ),
            Payload::Command(command) => Payload::Command(*command),
        }
    }
}

/// A message for one session, under a random identifier. Its view is what it
/// carries.
#[derive(Debug)]
pub struct OutboundWebSocketMessage {
    pub message_id: u128,
    pub payload: Payload,
}

impl View for OutboundWebSocketMessage {
    type V = PayloadView;

    open spec fn view(&self) -> PayloadView {
        self.payload@
    }
}

/// The name of a message's type.
pub open spec fn message_kind(payload: PayloadView) -> Seq<char> {
    match payload {
        PayloadView::ForceKeepAlive(_) => "ForceKeepAlive"@,
        PayloadView::KeepAlive => "KeepAlive"@,
        PayloadView::GroupUpdate { .. } => "SyncPlayGroupUpdate"@,
        PayloadView::Command { .. } => "SyncPlayCommand"@,
    }
}

impl OutboundWebSocketMessage {
    /// A message that carries `payload`.
    pub fn new(payload: Payload) -> (message: Self)
        ensures
            message@ == payload@,
            ids::is_random_id(message.message_id),
    {
        OutboundWebSocketMessage { message_id: new_id(), payload }
    }

    /// The name of the message's type.
    pub fn message_type(&self) -> (name: &'static str)
        ensures
            name@ == message_kind(self@),
    {
        match &self.payload {
            Payload::ForceKeepAlive(_) => "ForceKeepAlive",
            Payload::KeepAlive => "KeepAlive",
            Payload::GroupUpdate(_) => "SyncPlayGroupUpdate",
            Payload::Command(_) => "SyncPlayCommand",
        }
    }
}

} // verus!
