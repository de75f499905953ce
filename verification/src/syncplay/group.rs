//! What a SyncPlay group computes of itself.
use vstd::prelude::*;
use crate::clock;
use crate::clock::Timestamp;
use crate::syncplay::models;
use crate::syncplay::models::{
    GroupInfoDto, GroupInfoView, GroupView, ParticipantView, QueueItemView, SyncPlayGroup,
    DEFAULT_PING_MS, NANOS_PER_TICK,
};

verus! {

/// Whether a group need not wait for a member: one who has lost the connection,
/// is not buffering or is not to be waited for.
pub open spec fn member_ready(member: ParticipantView) -> bool {
    !member.is_connected || !member.is_buffering || member.ignore_wait
}

/// Whether a group need not wait for any of its members.
pub open spec fn ready(group: GroupView) -> bool {
    forall|i: int|
        0 <= i < group.participants.len() ==> member_ready((#[trigger] group.participants[i]).1)
}

/// The highest ping among members, nothing where there are none.
pub open spec fn highest_ping(members: Seq<(Seq<char>, ParticipantView)>) -> int
    decreases members.len(),
{
    if members.len() == 0 {
        0
    } else {
        let rest = highest_ping(members.drop_last());
        let ping = members.last().1.ping as int;
        if ping > rest {
            ping
        } else {
            rest
        }
    }
}

/// How many milliseconds a group waits before it plays on: twice the highest
/// ping, the default ping at least, and no more than can be counted.
pub open spec fn ping_delay(group: GroupView) -> i64 {
    let delay = 2 * highest_ping(group.participants);
    if delay < DEFAULT_PING_MS {
        DEFAULT_PING_MS
    } else if delay > i64::MAX {
        i64::MAX
    } else {
        delay as i64
    }
}

/// The names of members.
pub open spec fn names(members: Seq<(Seq<char>, ParticipantView)>) -> Seq<Seq<char>> {
    members.map_values(|row: (Seq<char>, ParticipantView)| row.1.user_name)
}

/// What a group is shown as.
pub open spec fn info(group: GroupView) -> GroupInfoView {
    GroupInfoView {
        group_id: group.group_id,
        group_name: group.group_name,
        state: group.state,
        participants: names(group.participants),
        last_updated_at: group.last_updated_at,
    }
}

/// The identifiers of the items in a queue.
pub open spec fn item_ids(playlist: Seq<QueueItemView>) -> Seq<Seq<char>> {
    playlist.map_values(|item: QueueItemView| item.item_id)
}

/// Whether the playing item is one of the queue's.
pub open spec fn plays_from_queue(group: GroupView) -> bool {
    match group.playing_item_index {
        Some(index) => index < group.playlist.len(),
        None => false,
    }
}

/// The queue identifier of the playing item, nil where there is none.
pub open spec fn current_item(group: GroupView) -> u128 {
    match group.playing_item_index {
        Some(index) => if index < group.playlist.len() {
            group.playlist[index as int].playlist_item_id
        } else {
            0
        },
        None => 0,
    }
}

/// Where a group is in what it plays: where it last was, and further by the
/// time that has passed since where it is playing.
pub open spec fn estimated_position(group: GroupView, now: nat) -> i64 {
    let passed = if group.is_playing && now > group.position_base_when {
        (now - group.position_base_when) / NANOS_PER_TICK as int
    } else {
        0
    };
    if group.start_position_ticks + passed > i64::MAX {
        i64::MAX
    } else {
        (group.start_position_ticks + passed) as i64
    }
}

/// A group that is put at a position.
pub open spec fn positioned(group: GroupView, ticks: i64, now: nat) -> GroupView {
    GroupView { start_position_ticks: ticks, position_base_when: now, ..group }
}

/// A group that stops where it is.
pub open spec fn frozen(group: GroupView, now: nat) -> GroupView {
    GroupView {
        is_playing: false,
        ..positioned(group, estimated_position(group, now), now)
    }
}

/// A group that has changed.
pub open spec fn touched(group: GroupView, now: nat) -> GroupView {
    GroupView { last_updated_at: now, ..group }
}

impl SyncPlayGroup {
    /// Whether the group need not wait for any of its members.
    pub fn all_ready(&self) -> (all: bool)
        ensures
            all == ready(self@),
    {
        let n: usize = self.participants.len();
        let mut i: usize = 0;
        while i < n
            invariant
                i <= n,
                n == self@.participants.len(),
                forall|j: int|
                    0 <= j < i ==> member_ready((#[trigger] self@.participants[j]).1),
            decreases n - i,
        {
            let member = self.participants.value_at(i);
            if member.is_connected && member.is_buffering && !member.ignore_wait {
                assert(!member_ready(self@.participants[i as int].1));
                return false;
            }
            i = i + 1;
        }
        true
    }

    fn highest_ping(&self) -> (highest: u64)
        ensures
            highest == highest_ping(self@.participants),
    {
        let n: usize = self.participants.len();
        let mut highest: u64 = 0;
        let mut i: usize = 0;
        assert(self@.participants.take(0) =~= Seq::empty());
        while i < n
            invariant
                i <= n,
                n == self@.participants.len(),
                highest == highest_ping(self@.participants.take(i as int)),
            decreases n - i,
        {
            let ping: u64 = self.participants.value_at(i).ping;
            assert(self@.participants.take(i + 1).drop_last() =~= self@.participants.take(
                i as int,
            ));
            if ping > highest {
                highest = ping;
            }
            i = i + 1;
        }
        assert(self@.participants.take(n as int) =~= self@.participants);
        highest
    }

    /// How many milliseconds the group waits before it plays on.
    pub fn ping_delay_ms(&self) -> (delay: i64)
        ensures
            delay == ping_delay(self@),
            delay >= DEFAULT_PING_MS,
    {
        let delay: u128 = 2 * (self.highest_ping() as u128);
        if delay < DEFAULT_PING_MS as u128 {
            DEFAULT_PING_MS
        } else if delay > i64::MAX as u128 {
            i64::MAX
        } else {
            delay as i64
        }
    }

    /// What the group is shown as.
    pub fn to_group_info(&self) -> (shown: GroupInfoDto)
        ensures
            shown@ == info(self@),
    {
        let n: usize = self.participants.len();
        let mut participants: Vec<String> = Vec::new();
        let mut i: usize = 0;
        while i < n
            invariant
                i <= n,
                n == self@.participants.len(),
                models::views(participants@) == names(self@.participants).take(i as int),
            decreases n - i,
        {
            let ghost had = participants@;
            let member = self.participants.value_at(i);
            participants.push(member.user_name.clone());
            assert(models::views(participants@) =~= models::views(had).push(member@.user_name));
            assert(names(self@.participants).take(i + 1) =~= names(self@.participants).take(
                i as int,
            ).push(member@.user_name));
            i = i + 1;
        }
        assert(names(self@.participants).take(n as int) =~= names(self@.participants));
        GroupInfoDto {
            group_id: self.group_id,
            group_name: self.group_name.clone(),
            state: self.state,
            participants,
            last_updated_at: self.last_updated_at,
        }
    }

    /// The identifiers of the items in the group's queue.
    pub fn queue_item_ids(&self) -> (queued: Vec<String>)
        ensures
            models::views(queued@) == item_ids(self@.playlist),
    {
        let mut queued: Vec<String> = Vec::new();
        let mut i: usize = 0;
        while i < self.playlist.len()
            invariant
                i <= self.playlist@.len(),
                models::views(queued@) == item_ids(self@.playlist).take(i as int),
            decreases self.playlist@.len() - i,
        {
            let ghost had = queued@;
            queued.push(self.playlist[i].item_id.clone());
            assert(models::views(queued@) =~= models::views(had).push(
                self.playlist@[i as int].item_id@,
            ));
            assert(item_ids(self@.playlist).take(i + 1) =~= item_ids(self@.playlist).take(
                i as int,
            ).push(self.playlist@[i as int].item_id@));
            i = i + 1;
        }
        assert(item_ids(self@.playlist).take(self.playlist@.len() as int) =~= item_ids(
            self@.playlist,
        ));
        queued
    }

    /// The queue identifier of the playing item, nil where there is none.
    pub fn current_playlist_item_id(&self) -> (id: u128)
        ensures
            id == current_item(self@),
    {
        match self.playing_item_index {
            Some(index) => if index < self.playlist.len() {
                self.playlist[index].playlist_item_id
            } else {
                0
            },
            None => 0,
        }
    }

    /// Puts the group at a position.
    pub fn set_position(&mut self, ticks: i64, now: Timestamp)
        ensures
            final(self)@ == positioned(old(self)@, ticks, now@),
    {
        self.start_position_ticks = ticks;
        self.position_base_when = now;
    }

    fn estimate_position(&self, now: Timestamp) -> (ticks: i64)
        ensures
            ticks == estimated_position(self@, now@),
    {
        if self.is_playing && now.nanos > self.position_base_when.nanos {
            let passed: u128 = (now.nanos - self.position_base_when.nanos) / NANOS_PER_TICK;
            let room: u128 = (i64::MAX as i128 - self.start_position_ticks as i128) as u128;
            if passed > room {
                i64::MAX
            } else {
                (self.start_position_ticks as i128 + passed as i128) as i64
            }
        } else {
            self.start_position_ticks
        }
    }

    /// Stops the group where it is, and says where that is.
    pub fn freeze_at_estimated_position(&mut self, now: Timestamp) -> (ticks: i64)
        ensures
            final(self)@ == frozen(old(self)@, now@),
            ticks == estimated_position(old(self)@, now@),
    {
        let ticks = self.estimate_position(now);
        self.set_position(ticks, now);
        self.is_playing = false;
        ticks
    }

    /// Notes that the group changed at `now`.
    pub fn touch_at(&mut self, now: Timestamp)
        ensures
            final(self)@ == touched(old(self)@, now@),
    {
        self.last_updated_at = now;
    }

    /// Notes that the group has changed, by the clock.
    pub fn touch(&mut self)
        ensures
            exists|now: nat|
                clock::is_reading(now) && final(self)@ == #[trigger] touched(old(self)@, now),
    {
        let now = Timestamp::now();
        self.touch_at(now);
        assert(self@ == touched(old(self)@, now@));
    }
}

} // verus!
