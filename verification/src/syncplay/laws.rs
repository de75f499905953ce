//! What holds of SyncPlay whatever the sessions do.
use vstd::prelude::*;
use crate::syncplay::group;
use crate::syncplay::models::{
    GroupStateType, GroupUpdateType, GroupView, ParticipantView, PayloadView,
    PlayQueueUpdateReason, SendCommandType, UpdateDataView,
};
use crate::syncplay::service;
use crate::syncplay::state;
use crate::syncplay::state::{Members, Outboxes, StateView};
use crate::table;

verus! {

/// Every session that is listed is a member of the group it is listed under.
pub open spec fn listed_are_members(st: StateView) -> bool {
    forall|s: Seq<char>| #[trigger]
        st.session_to_group.contains_key(s) ==> st.groups.contains_key(st.session_to_group[s])
            && state::has_member(st.groups[st.session_to_group[s]].participants, s)
}

/// Every member of a group is listed under it, so a session is in one group at
/// most.
pub open spec fn members_are_listed(st: StateView) -> bool {
    forall|g: u128, s: Seq<char>|
        st.groups.contains_key(g) && #[trigger] state::has_member(st.groups[g].participants, s)
            ==> st.session_to_group.contains_key(s) && st.session_to_group[s] == g
}

/// A group knows its identifier, has members, and none of them twice.
pub open spec fn group_sound(group: GroupView, group_id: u128) -> bool {
    &&& group.group_id == group_id
    &&& group.participants.len() > 0
    &&& table::keys_distinct(group.participants)
}

/// Every group is sound.
pub open spec fn groups_sound(st: StateView) -> bool {
    forall|g: u128| #[trigger] st.groups.contains_key(g) ==> group_sound(st.groups[g], g)
}

/// A session has a connection exactly where the connection has an identifier,
/// and no grace period runs for a session that has one.
pub open spec fn connections_sound(st: StateView) -> bool {
    &&& st.outboxes.dom() == st.connection_ids.dom()
    &&& forall|s: Seq<char>| #[trigger]
        st.grace_ids.contains_key(s) ==> !st.connection_ids.contains_key(s)
}

/// The state is sound.
pub open spec fn sound(st: StateView) -> bool {
    &&& listed_are_members(st)
    &&& members_are_listed(st)
    &&& groups_sound(st)
    &&& connections_sound(st)
}

/// A member counts as connected exactly where its session has a connection.
pub open spec fn flags_true(st: StateView) -> bool {
    forall|g: u128, s: Seq<char>|
        st.groups.contains_key(g) && #[trigger] state::has_member(st.groups[g].participants, s)
            ==> table::rows_map(st.groups[g].participants)[s].is_connected
            == st.outboxes.contains_key(s)
}

proof fn lemma_resolved_outboxes_dom(
    outboxes: Outboxes,
    group: GroupView,
    reason: Seq<char>,
    now: nat,
)
    ensures
        state::resolved_outboxes(outboxes, group, reason, now).dom() == outboxes.dom(),
{
    assert(state::resolved_outboxes(outboxes, group, reason, now).dom() =~= outboxes.dom());
}

proof fn lemma_sent_dom(outboxes: Outboxes, session: Seq<char>, payload: PayloadView)
    ensures
        state::sent(outboxes, session, payload).dom() == outboxes.dom(),
{
    assert(state::sent(outboxes, session, payload).dom() =~= outboxes.dom());
}

proof fn lemma_broadcast_dom(outboxes: Outboxes, members: Members, payload: PayloadView)
    ensures
        state::broadcast(outboxes, members, payload).dom() == outboxes.dom(),
{
    assert(state::broadcast(outboxes, members, payload).dom() =~= outboxes.dom());
}

/// Giving a session an entry makes it a member and leaves the others as they are.
pub proof fn lemma_put_members(members: Members, session: Seq<char>, member: ParticipantView)
    requires
        table::keys_distinct(members),
    ensures
        table::keys_distinct(table::put(members, session, member)),
        table::put(members, session, member).len() > 0,
        forall|s: Seq<char>| #[trigger]
            state::has_member(table::put(members, session, member), s) <==> state::has_member(
                members,
                s,
            ) || s == session,
        forall|s: Seq<char>| #[trigger]
            state::has_member(table::put(members, session, member), s) ==> table::rows_map(
                table::put(members, session, member),
            )[s] == if s == session {
                member
            } else {
                table::rows_map(members)[s]
            },
{
    let after = table::put(members, session, member);
    table::lemma_put(members, session, member);
    assert(table::rows_map(after).contains_key(session));
    let i = table::lemma_entry_is_row(after, session);
    assert forall|s: Seq<char>| #[trigger]
        state::has_member(after, s) <==> state::has_member(members, s) || s == session by {
        assert(table::rows_map(after).contains_key(s) <==> table::rows_map(members).insert(
            session,
            member,
        ).contains_key(s));
    }
}

/// Taking a session out leaves the other members as they are.
pub proof fn lemma_cut_members(members: Members, session: Seq<char>)
    requires
        table::keys_distinct(members),
    ensures
        table::keys_distinct(table::cut(members, session)),
        forall|s: Seq<char>| #[trigger]
            state::has_member(table::cut(members, session), s) <==> state::has_member(members, s)
                && s != session,
        forall|s: Seq<char>| #[trigger]
            state::has_member(table::cut(members, session), s) ==> table::rows_map(
                table::cut(members, session),
            )[s] == table::rows_map(members)[s],
{
    let after = table::cut(members, session);
    table::lemma_cut(members, session);
    assert forall|s: Seq<char>| #[trigger]
        state::has_member(after, s) <==> state::has_member(members, s) && s != session by {
        assert(table::rows_map(after).contains_key(s) <==> table::rows_map(members).remove(
            session,
        ).contains_key(s));
    }
}

/// The state without groups and connections is sound.
pub proof fn law_beginning_is_sound()
    ensures
        sound(state::no_state()),
        flags_true(state::no_state()),
{
    assert(state::no_state().outboxes.dom() =~= state::no_state().connection_ids.dom());
}

/// A session that leaves leaves the state sound, is in no group afterwards, and
/// is no member of any. Nobody's connection changes.
pub proof fn law_leaving_keeps_the_state_sound(st: StateView, session: Seq<char>, now: nat)
    requires
        sound(st),
    ensures
        sound(service::left(st, session, now)),
        flags_true(st) ==> flags_true(service::left(st, session, now)),
        !service::left(st, session, now).session_to_group.contains_key(session),
        forall|g: u128|
            service::left(st, session, now).groups.contains_key(g) ==> !#[trigger] state::has_member(
                service::left(st, session, now).groups[g].participants,
                session,
            ),
        service::left(st, session, now).outboxes.dom() == st.outboxes.dom(),
        service::left(st, session, now).connection_ids == st.connection_ids,
{
    let after = service::left(st, session, now);
    if st.session_to_group.contains_key(session) {
        let gid = st.session_to_group[session];
        let group = st.groups[gid];
        let gone = service::departed(group, session, now);
        lemma_cut_members(group.participants, session);
        assert(group_sound(group, gid));
        let payload = state::update(
            gone.group_id,
            GroupUpdateType::UserLeft,
            UpdateDataView::Text(service::name_of(group.participants, session)),
        );
        let told = state::broadcast(st.outboxes, gone.participants, payload);
        lemma_broadcast_dom(st.outboxes, gone.participants, payload);
        let bye = state::update(
            gid,
            GroupUpdateType::GroupLeft,
            UpdateDataView::Text(crate::ids::hyphenated_text(gid)),
        );
        lemma_sent_dom(told, session, bye);
        lemma_resolved_outboxes_dom(state::sent(told, session, bye), gone, "Leave"@, now);
        assert forall|s: Seq<char>| #[trigger] after.session_to_group.contains_key(s) implies
            after.groups.contains_key(after.session_to_group[s]) && state::has_member(
            after.groups[after.session_to_group[s]].participants,
            s,
        ) by {
            assert(st.session_to_group.contains_key(s) && s != session);
            if st.session_to_group[s] == gid {
                assert(state::has_member(group.participants, s));
                assert(state::has_member(gone.participants, s));
                let i = choose|i: int| table::row_of(gone.participants, s, i);
                assert(gone.participants.len() > 0);
            }
        }
        assert forall|g: u128, s: Seq<char>|
            after.groups.contains_key(g) && #[trigger] state::has_member(
                after.groups[g].participants,
                s,
            ) implies after.session_to_group.contains_key(s) && after.session_to_group[s]
            == g by {
            if g == gid {
                assert(state::has_member(gone.participants, s));
                assert(state::has_member(st.groups[gid].participants, s));
            } else {
                assert(state::has_member(st.groups[g].participants, s));
                if s == session {
                    assert(st.session_to_group[s] == gid);
                }
            }
        }
        if flags_true(st) {
            assert forall|g: u128, s: Seq<char>|
                after.groups.contains_key(g) && #[trigger] state::has_member(
                    after.groups[g].participants,
                    s,
                ) implies table::rows_map(after.groups[g].participants)[s].is_connected
                == after.outboxes.contains_key(s) by {
                if g == gid {
                    assert(state::has_member(gone.participants, s));
                    assert(state::has_member(st.groups[gid].participants, s));
                } else {
                    assert(state::has_member(st.groups[g].participants, s));
                }
                assert(after.outboxes.dom().contains(s) <==> st.outboxes.dom().contains(s));
            }
        }
        assert forall|g: u128| #[trigger] after.groups.contains_key(g) implies group_sound(
            after.groups[g],
            g,
        ) by {
            assert(st.groups.contains_key(g));
        }
    } else {
        assert forall|g: u128|
            after.groups.contains_key(g) implies !#[trigger] state::has_member(
            after.groups[g].participants,
            session,
        ) by {
            if state::has_member(st.groups[g].participants, session) {
                assert(st.session_to_group.contains_key(session));
            }
        }
    }
}

/// A group may change in anything but its identifier and who its members are,
/// and messages may be sent meanwhile: the state stays sound.
pub proof fn law_changing_a_group_keeps_the_state_sound(
    st: StateView,
    group_id: u128,
    group: GroupView,
    outboxes: Outboxes,
)
    requires
        sound(st),
        st.groups.contains_key(group_id),
        group_sound(group, group_id),
        forall|s: Seq<char>| #[trigger]
            state::has_member(group.participants, s) <==> state::has_member(
                st.groups[group_id].participants,
                s,
            ),
        outboxes.dom() == st.outboxes.dom(),
    ensures
        sound(
            StateView { groups: st.groups.insert(group_id, group), outboxes, ..st },
        ),
{
    let after = StateView { groups: st.groups.insert(group_id, group), outboxes, ..st };
    assert forall|s: Seq<char>| #[trigger] after.session_to_group.contains_key(s) implies
        after.groups.contains_key(after.session_to_group[s]) && state::has_member(
        after.groups[after.session_to_group[s]].participants,
        s,
    ) by {
        assert(st.session_to_group.contains_key(s));
        assert(state::has_member(st.groups[st.session_to_group[s]].participants, s));
        if st.session_to_group[s] == group_id {
            assert(state::has_member(group.participants, s));
        }
    }
    assert forall|g: u128, s: Seq<char>|
        after.groups.contains_key(g) && #[trigger] state::has_member(
            after.groups[g].participants,
            s,
        ) implies after.session_to_group.contains_key(s) && after.session_to_group[s] == g by {
        if g == group_id {
            assert(state::has_member(group.participants, s));
        }
        assert(state::has_member(st.groups[g].participants, s));
    }
    assert forall|g: u128| #[trigger] after.groups.contains_key(g) implies group_sound(
        after.groups[g],
        g,
    ) by {
        if g != group_id {
            assert(st.groups.contains_key(g));
        }
    }
}

/// A session that creates a group leaves the state sound, and is in that group
/// alone. The group's identifier must be new.
pub proof fn law_creating_keeps_the_state_sound(
    st: StateView,
    session: Seq<char>,
    user_name: Seq<char>,
    group_name: Seq<char>,
    group_id: u128,
    now: nat,
)
    requires
        sound(st),
        !st.groups.contains_key(group_id),
        st.outboxes.contains_key(session),
    ensures
        ({
            let after = service::created(st, session, user_name, group_name, group_id, now);
            &&& sound(after)
            &&& flags_true(st) ==> flags_true(after)
            &&& service::in_group(after, session)
            &&& after.session_to_group[session] == group_id
            &&& group::names(after.groups[group_id].participants) == seq![user_name]
            &&& after.outboxes.dom() == st.outboxes.dom()
        }),
{
    let away = service::left(st, session, now);
    let group = service::new_group(group_id, group_name, session, user_name, now);
    let after = service::created(st, session, user_name, group_name, group_id, now);
    law_leaving_keeps_the_state_sound(st, session, now);
    let welcome = state::update(
        group_id,
        GroupUpdateType::GroupJoined,
        UpdateDataView::Info(group::info(group)),
    );
    lemma_sent_dom(away.outboxes, session, welcome);
    assert(table::row_of(group.participants, session, 0));
    assert(state::has_member(group.participants, session));
    assert forall|s: Seq<char>| #[trigger] state::has_member(group.participants, s) implies s
        == session by {
        let i = choose|i: int| table::row_of(group.participants, s, i);
    }
    assert(group::names(group.participants) =~= seq![user_name]);
    table::lemma_row_is_entry(group.participants, 0);
    assert(!away.groups.contains_key(group_id));
    assert forall|s: Seq<char>| #[trigger] after.session_to_group.contains_key(s) implies
        after.groups.contains_key(after.session_to_group[s]) && state::has_member(
        after.groups[after.session_to_group[s]].participants,
        s,
    ) by {
        if s != session {
            assert(away.session_to_group.contains_key(s));
        }
    }
    assert forall|g: u128, s: Seq<char>|
        after.groups.contains_key(g) && #[trigger] state::has_member(
            after.groups[g].participants,
            s,
        ) implies after.session_to_group.contains_key(s) && after.session_to_group[s] == g by {
        if g != group_id {
            assert(state::has_member(away.groups[g].participants, s));
        }
    }
    assert forall|g: u128| #[trigger] after.groups.contains_key(g) implies group_sound(
        after.groups[g],
        g,
    ) by {
        if g != group_id {
            assert(away.groups.contains_key(g));
        }
    }
    assert(away.outboxes.dom().contains(session));
    if flags_true(st) {
        assert forall|g: u128, s: Seq<char>|
            after.groups.contains_key(g) && #[trigger] state::has_member(
                after.groups[g].participants,
                s,
            ) implies table::rows_map(after.groups[g].participants)[s].is_connected
            == after.outboxes.contains_key(s) by {
            assert(after.outboxes.dom().contains(s) <==> away.outboxes.dom().contains(s));
            if g != group_id {
                assert(state::has_member(away.groups[g].participants, s));
            }
        }
    }
}

/// Without a connection a session can neither create nor join a group: nothing
/// changes at all.
pub proof fn law_sessions_without_connection_are_refused(
    st: StateView,
    session: Seq<char>,
    user_name: Seq<char>,
    group_name: Seq<char>,
    group_id: u128,
    expected: Option<Seq<Seq<char>>>,
    now: nat,
)
    requires
        !st.outboxes.contains_key(session),
    ensures
        service::created(st, session, user_name, group_name, group_id, now) == st,
        service::joined(st, session, user_name, group_id, expected, now) == st,
{
}

proof fn lemma_welcomed_dom(
    outboxes: Outboxes,
    group_id: u128,
    group: GroupView,
    session: Seq<char>,
    now: nat,
)
    ensures
        service::welcomed(outboxes, group_id, group, session, now).dom() == outboxes.dom(),
{
    assert(service::welcomed(outboxes, group_id, group, session, now).dom() =~= outboxes.dom());
}

/// A session joins: it has a connection, and the group is there once the session
/// has left the one that it was in and has the queue that was expected.
pub open spec fn admitted(
    st: StateView,
    session: Seq<char>,
    group_id: u128,
    expected: Option<Seq<Seq<char>>>,
    now: nat,
) -> bool {
    let away = service::left(st, session, now);
    &&& st.outboxes.contains_key(session)
    &&& away.groups.contains_key(group_id)
    &&& expected is Some ==> expected.unwrap() == group::item_ids(away.groups[group_id].playlist)
}

/// A session that asks to join leaves the state sound. Where it is admitted it
/// is in the group afterwards, where it is not it is in none.
pub proof fn law_joining_keeps_the_state_sound(
    st: StateView,
    session: Seq<char>,
    user_name: Seq<char>,
    group_id: u128,
    expected: Option<Seq<Seq<char>>>,
    now: nat,
)
    requires
        sound(st),
        st.outboxes.contains_key(session),
    ensures
        ({
            let after = service::joined(st, session, user_name, group_id, expected, now);
            &&& sound(after)
            &&& flags_true(st) ==> flags_true(after)
            &&& service::in_group(after, session) <==> admitted(
                st,
                session,
                group_id,
                expected,
                now,
            )
            &&& admitted(st, session, group_id, expected, now) ==> after.session_to_group[session]
                == group_id
            &&& after.outboxes.dom() == st.outboxes.dom()
        }),
{
    let away = service::left(st, session, now);
    let after = service::joined(st, session, user_name, group_id, expected, now);
    law_leaving_keeps_the_state_sound(st, session, now);
    assert(away.outboxes.dom().contains(session));
    if admitted(st, session, group_id, expected, now) {
        let before = away.groups[group_id];
        let member = service::newcomer(user_name, before.playlist.len() > 0);
        let group = service::joined_group(before, session, user_name, now);
        assert(group_sound(before, group_id));
        lemma_put_members(before.participants, session, member);
        assert(group.participants == table::put(before.participants, session, member));
        lemma_welcomed_dom(away.outboxes, group_id, group, session, now);
        assert(after.outboxes.dom() =~= away.outboxes.dom());
        assert(state::has_member(group.participants, session));
        assert forall|s: Seq<char>| #[trigger] after.session_to_group.contains_key(s) implies
            after.groups.contains_key(after.session_to_group[s]) && state::has_member(
            after.groups[after.session_to_group[s]].participants,
            s,
        ) by {
            if s != session {
                assert(away.session_to_group.contains_key(s));
                if away.session_to_group[s] == group_id {
                    assert(state::has_member(before.participants, s));
                    assert(state::has_member(group.participants, s));
                }
            }
        }
        assert forall|g: u128, s: Seq<char>|
            after.groups.contains_key(g) && #[trigger] state::has_member(
                after.groups[g].participants,
                s,
            ) implies after.session_to_group.contains_key(s) && after.session_to_group[s]
            == g by {
            if g == group_id {
                assert(state::has_member(group.participants, s));
                if s != session {
                    assert(state::has_member(away.groups[group_id].participants, s));
                }
            } else {
                assert(state::has_member(away.groups[g].participants, s));
            }
        }
        assert forall|g: u128| #[trigger] after.groups.contains_key(g) implies group_sound(
            after.groups[g],
            g,
        ) by {
            if g != group_id {
                assert(away.groups.contains_key(g));
            }
        }
        if flags_true(st) {
            assert forall|g: u128, s: Seq<char>|
                after.groups.contains_key(g) && #[trigger] state::has_member(
                    after.groups[g].participants,
                    s,
                ) implies table::rows_map(after.groups[g].participants)[s].is_connected
                == after.outboxes.contains_key(s) by {
                assert(after.outboxes.dom().contains(s) <==> away.outboxes.dom().contains(s));
                if g == group_id {
                    assert(state::has_member(group.participants, s));
                    if s != session {
                        assert(state::has_member(away.groups[group_id].participants, s));
                    }
                } else {
                    assert(state::has_member(away.groups[g].participants, s));
                }
            }
        }
    } else {
        let kind = if !away.groups.contains_key(group_id) {
            GroupUpdateType::GroupDoesNotExist
        } else {
            GroupUpdateType::LibraryAccessDenied
        };
        lemma_sent_dom(away.outboxes, session, state::notice(0, kind));
        assert(after == state::with_outboxes(
            away,
            state::sent(away.outboxes, session, state::notice(0, kind)),
        ));
        if flags_true(st) {
            assert forall|g: u128, s: Seq<char>|
                after.groups.contains_key(g) && #[trigger] state::has_member(
                    after.groups[g].participants,
                    s,
                ) implies table::rows_map(after.groups[g].participants)[s].is_connected
                == after.outboxes.contains_key(s) by {
                assert(after.outboxes.dom().contains(s) <==> away.outboxes.dom().contains(s));
                assert(state::has_member(away.groups[g].participants, s));
            }
        }
    }
}

/// A session that connects leaves the state sound, and stays in its group.
pub proof fn law_connecting_keeps_the_state_sound(
    st: StateView,
    session: Seq<char>,
    connection_id: u128,
    now: nat,
)
    requires
        sound(st),
    ensures
        ({
            let after = service::registered(st, session, connection_id, now);
            &&& sound(after)
            &&& flags_true(st) ==> flags_true(after)
            &&& after.session_to_group == st.session_to_group
            &&& after.groups.dom() == st.groups.dom()
            &&& service::is_current(after, session, connection_id)
            &&& !after.grace_ids.contains_key(session)
        }),
{
    let after = service::registered(st, session, connection_id, now);
    let connected = StateView {
        outboxes: st.outboxes.insert(
            session,
            seq![PayloadView::ForceKeepAlive(service::KEEP_ALIVE_SECS)],
        ),
        connection_ids: st.connection_ids.insert(session, connection_id),
        grace_ids: st.grace_ids.remove(session),
        ..st
    };
    assert(connected.outboxes.dom() =~= connected.connection_ids.dom());
    assert(sound(connected)) by {
        assert forall|s: Seq<char>| #[trigger] connected.grace_ids.contains_key(s) implies
            !connected.connection_ids.contains_key(s) by {
            assert(st.grace_ids.contains_key(s));
        }
        assert(connected.groups == st.groups);
        assert(forall|s: Seq<char>| #[trigger] connected.session_to_group.contains_key(s)
            ==> st.session_to_group.contains_key(s));
    }
    if service::in_group(st, session) {
        let gid = st.session_to_group[session];
        let before = st.groups[gid];
        let back = service::reconnected(before, session);
        let group = group::touched(service::waiting_for(back, now), now);
        assert(group_sound(before, gid));
        assert(state::has_member(before.participants, session));
        let member = ParticipantView {
            is_connected: true,
            is_buffering: before.playlist.len() > 0,
            last_client_when: None,
            ..table::rows_map(before.participants)[session]
        };
        lemma_put_members(before.participants, session, member);
        lemma_welcomed_dom(connected.outboxes, gid, group, session, now);
        law_changing_a_group_keeps_the_state_sound(connected, gid, group, after.outboxes);
        assert(after.groups.dom() =~= st.groups.dom());
        if flags_true(st) {
            assert forall|g: u128, s: Seq<char>|
                after.groups.contains_key(g) && #[trigger] state::has_member(
                    after.groups[g].participants,
                    s,
                ) implies table::rows_map(after.groups[g].participants)[s].is_connected
                == after.outboxes.contains_key(s) by {
                assert(after.outboxes.dom().contains(s) <==> connected.outboxes.dom().contains(s));
                if g == gid {
                    assert(state::has_member(group.participants, s));
                    assert(state::has_member(st.groups[gid].participants, s));
                } else {
                    assert(state::has_member(st.groups[g].participants, s));
                    assert(st.session_to_group[s] == g);
                }
            }
        }
    } else {
        if flags_true(st) {
            assert forall|g: u128, s: Seq<char>|
                after.groups.contains_key(g) && #[trigger] state::has_member(
                    after.groups[g].participants,
                    s,
                ) implies table::rows_map(after.groups[g].participants)[s].is_connected
                == after.outboxes.contains_key(s) by {
                assert(state::has_member(st.groups[g].participants, s));
                assert(st.session_to_group.contains_key(s));
                assert(s != session);
            }
        }
    }
}

/// A connection that closes leaves the state sound, and its session in its
/// group.
pub proof fn law_closing_keeps_the_state_sound(
    st: StateView,
    session: Seq<char>,
    connection_id: u128,
    grace_id: u128,
    now: nat,
)
    requires
        sound(st),
    ensures
        ({
            let after = service::unregistered(st, session, connection_id, grace_id, now);
            &&& sound(after)
            &&& flags_true(st) ==> flags_true(after)
            &&& after.session_to_group == st.session_to_group
            &&& after.groups.dom() == st.groups.dom()
            &&& service::is_current(st, session, connection_id) ==> service::grace_over(
                after,
                session,
                grace_id,
            )
        }),
{
    let after = service::unregistered(st, session, connection_id, grace_id, now);
    if service::is_current(st, session, connection_id) {
        let closed = StateView {
            outboxes: st.outboxes.remove(session),
            connection_ids: st.connection_ids.remove(session),
            grace_ids: st.grace_ids.insert(session, grace_id),
            ..st
        };
        assert(closed.outboxes.dom() =~= closed.connection_ids.dom());
        assert(sound(closed)) by {
            assert forall|s: Seq<char>| #[trigger] closed.grace_ids.contains_key(s) implies
                !closed.connection_ids.contains_key(s) by {
                if s != session {
                    assert(st.grace_ids.contains_key(s));
                }
            }
            assert(closed.groups == st.groups);
            assert(forall|s: Seq<char>| #[trigger] closed.session_to_group.contains_key(s)
                ==> st.session_to_group.contains_key(s));
        }
        if service::in_group(st, session) {
            let gid = st.session_to_group[session];
            let before = st.groups[gid];
            let off = service::disconnected(before, session);
            let group = state::resolved(off, now);
            assert(group_sound(before, gid));
            assert(state::has_member(before.participants, session));
            let member = ParticipantView {
                is_connected: false,
                ..table::rows_map(before.participants)[session]
            };
            lemma_put_members(before.participants, session, member);
            lemma_resolved_outboxes_dom(closed.outboxes, off, "Disconnect"@, now);
            law_changing_a_group_keeps_the_state_sound(closed, gid, group, after.outboxes);
            assert(after.groups.dom() =~= st.groups.dom());
            assert(!after.outboxes.dom().contains(session));
            if flags_true(st) {
                assert forall|g: u128, s: Seq<char>|
                    after.groups.contains_key(g) && #[trigger] state::has_member(
                        after.groups[g].participants,
                        s,
                    ) implies table::rows_map(after.groups[g].participants)[s].is_connected
                    == after.outboxes.contains_key(s) by {
                    assert(after.outboxes.dom().contains(s) <==> closed.outboxes.dom().contains(
                        s,
                    ));
                    if g == gid {
                        assert(state::has_member(group.participants, s));
                        assert(state::has_member(st.groups[gid].participants, s));
                    } else {
                        assert(state::has_member(st.groups[g].participants, s));
                        assert(st.session_to_group[s] == g);
                    }
                }
            }
        } else {
            if flags_true(st) {
                assert forall|g: u128, s: Seq<char>|
                    after.groups.contains_key(g) && #[trigger] state::has_member(
                        after.groups[g].participants,
                        s,
                    ) implies table::rows_map(after.groups[g].participants)[s].is_connected
                    == after.outboxes.contains_key(s) by {
                    assert(state::has_member(st.groups[g].participants, s));
                    assert(st.session_to_group.contains_key(s));
                    assert(s != session);
                }
            }
        }
    }
}

/// A connection that turns out to be gone leaves the state sound.
pub proof fn law_losing_a_connection_keeps_the_state_sound(st: StateView, session: Seq<char>)
    requires
        sound(st),
    ensures
        sound(service::lost(st, session)),
{
    let after = service::lost(st, session);
    assert(after.outboxes.dom() =~= after.connection_ids.dom());
    assert forall|s: Seq<char>| #[trigger] after.grace_ids.contains_key(s) implies
        !after.connection_ids.contains_key(s) by {
        assert(st.grace_ids.contains_key(s));
    }
    assert(after.groups == st.groups);
    assert(forall|s: Seq<char>| #[trigger] after.session_to_group.contains_key(s)
        ==> st.session_to_group.contains_key(s));
}

/// A grace period that runs out leaves the state sound.
pub proof fn law_grace_expiry_keeps_the_state_sound(
    st: StateView,
    session: Seq<char>,
    grace_id: u128,
    now: nat,
)
    requires
        sound(st),
    ensures
        sound(service::grace_expired(st, session, grace_id, now)),
        flags_true(st) ==> flags_true(service::grace_expired(st, session, grace_id, now)),
{
    law_leaving_keeps_the_state_sound(st, session, now);
}

/// A connection that was replaced closes without effect.
pub proof fn law_stale_close_changes_nothing(
    st: StateView,
    session: Seq<char>,
    old_id: u128,
    new_id: u128,
    grace_id: u128,
    now: nat,
    later: nat,
)
    requires
        old_id != new_id,
    ensures
        ({
            let after = service::registered(st, session, new_id, now);
            service::unregistered(after, session, old_id, grace_id, later) == after
        }),
{
}

/// A session that comes back within its grace period stays in its group when the
/// period would have run out.
pub proof fn law_reconnecting_ends_the_grace_period(
    st: StateView,
    session: Seq<char>,
    new_id: u128,
    grace_id: u128,
    now: nat,
    later: nat,
)
    ensures
        ({
            let after = service::registered(st, session, new_id, now);
            service::grace_expired(after, session, grace_id, later) == after
        }),
{
    let after = service::registered(st, session, new_id, now);
    assert(!after.grace_ids.contains_key(session));
}

/// The end of an earlier grace period does not cut a later one short.
pub proof fn law_stale_grace_changes_nothing(
    st: StateView,
    session: Seq<char>,
    connection_id: u128,
    earlier: u128,
    grace_id: u128,
    now: nat,
    later: nat,
)
    requires
        service::is_current(st, session, connection_id),
        earlier != grace_id,
    ensures
        ({
            let after = service::unregistered(st, session, connection_id, grace_id, now);
            service::grace_expired(after, session, earlier, later) == after
        }),
{
    let after = service::unregistered(st, session, connection_id, grace_id, now);
    assert(after.grace_ids[session] == grace_id);
}

/// When the last member leaves, the group is gone; while others stay, it stays.
pub proof fn law_group_lasts_as_long_as_its_members(st: StateView, session: Seq<char>, now: nat)
    requires
        sound(st),
        st.session_to_group.contains_key(session),
    ensures
        service::left(st, session, now).groups.contains_key(st.session_to_group[session])
            <==> exists|s: Seq<char>|
            s != session && state::has_member(service::group_of(st, session).participants, s),
{
    let members = service::group_of(st, session).participants;
    let gid = st.session_to_group[session];
    assert(group_sound(st.groups[gid], gid));
    lemma_cut_members(members, session);
    let rest = table::cut(members, session);
    if rest.len() > 0 {
        let s = rest[0].0;
        assert(table::row_of(rest, s, 0));
        assert(state::has_member(rest, s));
        assert(s != session && state::has_member(members, s));
    }
    if exists|s: Seq<char>| s != session && state::has_member(members, s) {
        let s = choose|s: Seq<char>| s != session && state::has_member(members, s);
        assert(state::has_member(rest, s));
        let i = choose|i: int| table::row_of(rest, s, i);
    }
}

/// A group never goes on waiting for a member who has left or lost the
/// connection: it waits on only where it waits for somebody else.
pub proof fn law_nobody_waits_for_the_absent(
    st: StateView,
    session: Seq<char>,
    connection_id: u128,
    grace_id: u128,
    now: nat,
)
    requires
        sound(st),
        st.session_to_group.contains_key(session),
    ensures
        ({
            let gid = st.session_to_group[session];
            let gone = service::left(st, session, now);
            let closed = service::unregistered(st, session, connection_id, grace_id, now);
            &&& gone.groups.contains_key(gid) ==> !state::resolves(gone.groups[gid])
            &&& service::is_current(st, session, connection_id) ==> !state::resolves(
                closed.groups[gid],
            )
        }),
{
}

/// What a session is sent when a group welcomes it.
pub open spec fn welcome_messages(group_id: u128, group: GroupView, now: nat) -> Seq<PayloadView> {
    let first = seq![
        state::update(
            group_id,
            GroupUpdateType::GroupJoined,
            UpdateDataView::Info(group::info(group)),
        ),
        state::queue_update(group, PlayQueueUpdateReason::NewPlaylist),
    ];
    if group.state == GroupStateType::Waiting {
        let paused = if group.waiting_resume_playing {
            first.push(
                state::command(
                    group,
                    SendCommandType::Pause,
                    Some(group.start_position_ticks),
                    0,
                    now,
                ),
            )
        } else {
            first
        };
        paused.push(state::state_update(group, "Buffer"@))
    } else {
        first
    }
}

/// Whether a message says that a user has joined.
pub open spec fn says_user_joined(payload: PayloadView) -> bool {
    match payload {
        PayloadView::GroupUpdate { update_type, .. } => update_type == GroupUpdateType::UserJoined,
        _ => false,
    }
}

proof fn lemma_welcomed_session(
    outboxes: Outboxes,
    group_id: u128,
    group: GroupView,
    session: Seq<char>,
    now: nat,
)
    requires
        outboxes.contains_key(session),
        state::has_member(group.participants, session),
    ensures
        service::welcomed(outboxes, group_id, group, session, now)[session] == outboxes[session]
            + welcome_messages(group_id, group, now),
{
    assert(service::welcomed(outboxes, group_id, group, session, now)[session]
        =~= outboxes[session] + welcome_messages(group_id, group, now));
}

/// A session that connects again is sent the group it is in and its queue, right
/// after the first sign of life.
pub proof fn law_returning_session_gets_group_and_queue(
    st: StateView,
    session: Seq<char>,
    connection_id: u128,
    now: nat,
)
    requires
        sound(st),
        st.session_to_group.contains_key(session),
    ensures
        ({
            let after = service::registered(st, session, connection_id, now);
            let gid = st.session_to_group[session];
            after.outboxes[session] == seq![
                PayloadView::ForceKeepAlive(service::KEEP_ALIVE_SECS),
            ] + welcome_messages(gid, after.groups[gid], now)
        }),
{
    let gid = st.session_to_group[session];
    let before = st.groups[gid];
    let after = service::registered(st, session, connection_id, now);
    let connected = st.outboxes.insert(
        session,
        seq![PayloadView::ForceKeepAlive(service::KEEP_ALIVE_SECS)],
    );
    assert(group_sound(before, gid));
    let member = ParticipantView {
        is_connected: true,
        is_buffering: before.playlist.len() > 0,
        last_client_when: None,
        ..table::rows_map(before.participants)[session]
    };
    lemma_put_members(before.participants, session, member);
    assert(state::has_member(after.groups[gid].participants, session));
    lemma_welcomed_session(connected, gid, after.groups[gid], session, now);
}

/// A session that joins is sent the group and its queue and not that it has
/// joined; the members who were there and have a connection are told, last of
/// all, that it has.
pub proof fn law_joining_is_announced_to_the_others(
    st: StateView,
    session: Seq<char>,
    user_name: Seq<char>,
    group_id: u128,
    expected: Option<Seq<Seq<char>>>,
    now: nat,
)
    requires
        sound(st),
        admitted(st, session, group_id, expected, now),
    ensures
        ({
            let away = service::left(st, session, now);
            let after = service::joined(st, session, user_name, group_id, expected, now);
            let welcome = welcome_messages(group_id, after.groups[group_id], now);
            &&& after.outboxes[session] == away.outboxes[session] + welcome
            &&& forall|i: int| 0 <= i < welcome.len() ==> !says_user_joined(#[trigger] welcome[i])
            &&& forall|s: Seq<char>|
                s != session && #[trigger] state::has_member(away.groups[group_id].participants, s)
                    && st.outboxes.contains_key(s) ==> after.outboxes[s].len() > 0
                    && after.outboxes[s].last() == state::update(
                    group_id,
                    GroupUpdateType::UserJoined,
                    UpdateDataView::Text(user_name),
                )
        }),
{
    let away = service::left(st, session, now);
    let after = service::joined(st, session, user_name, group_id, expected, now);
    law_leaving_keeps_the_state_sound(st, session, now);
    let before = away.groups[group_id];
    let group = after.groups[group_id];
    let member = service::newcomer(user_name, before.playlist.len() > 0);
    assert(group_sound(before, group_id));
    lemma_put_members(before.participants, session, member);
    assert(group.participants == table::put(before.participants, session, member));
    assert(state::has_member(group.participants, session));
    assert(away.outboxes.dom().contains(session));
    lemma_welcomed_session(away.outboxes, group_id, group, session, now);
    lemma_welcomed_dom(away.outboxes, group_id, group, session, now);
    let told = service::welcomed(away.outboxes, group_id, group, session, now);
    assert(told.dom().contains(session));
    assert forall|s: Seq<char>|
        s != session && #[trigger] state::has_member(before.participants, s)
            && st.outboxes.contains_key(s) implies after.outboxes[s].len() > 0
        && after.outboxes[s].last() == state::update(
        group_id,
        GroupUpdateType::UserJoined,
        UpdateDataView::Text(user_name),
    ) by {
        assert(st.outboxes.dom().contains(s));
        assert(told.dom().contains(s));
        assert(state::has_member(group.participants, s));
    }
}

/// What is sent reaches sessions that have a connection and no others, and never
/// takes a message back.
pub proof fn law_sending_only_adds(
    outboxes: Outboxes,
    members: Members,
    session: Seq<char>,
    payload: PayloadView,
    s: Seq<char>,
)
    requires
        outboxes.contains_key(s),
    ensures
        state::sent(outboxes, session, payload).dom() == outboxes.dom(),
        state::broadcast(outboxes, members, payload).dom() == outboxes.dom(),
        outboxes[s].is_prefix_of(state::sent(outboxes, session, payload)[s]),
        outboxes[s].is_prefix_of(state::broadcast(outboxes, members, payload)[s]),
{
    lemma_sent_dom(outboxes, session, payload);
    lemma_broadcast_dom(outboxes, members, payload);
}

/// A group that stops waiting is told to play on only after the delay that its
/// members' pings ask for, half a second at least.
pub proof fn law_playing_on_is_delayed(group: GroupView, now: nat)
    requires
        state::resolves(group),
        group.waiting_resume_playing,
        now + i64::MAX * crate::clock::NANOS_PER_MILLI <= u128::MAX,
    ensures
        state::resolved(group, now).is_playing,
        state::resolved(group, now).state == GroupStateType::Playing,
        state::resolved(group, now).position_base_when >= now + 500
            * crate::clock::NANOS_PER_MILLI,
{
    let delay = group::ping_delay(group);
    assert(delay >= 500);
    assert(delay * 1_000_000 >= 500 * 1_000_000) by (nonlinear_arith)
        requires
            delay >= 500,
    ;
    assert(delay * 1_000_000 <= i64::MAX * 1_000_000) by (nonlinear_arith)
        requires
            delay <= i64::MAX,
    ;
}

/// A group that has a queue waits for a session that joins it, and does not stop
/// waiting before that session is ready.
pub proof fn law_group_waits_for_who_joins(
    st: StateView,
    session: Seq<char>,
    user_name: Seq<char>,
    group_id: u128,
    expected: Option<Seq<Seq<char>>>,
    now: nat,
)
    requires
        sound(st),
        admitted(st, session, group_id, expected, now),
        service::left(st, session, now).groups[group_id].playlist.len() > 0,
    ensures
        ({
            let after = service::joined(st, session, user_name, group_id, expected, now);
            let group = after.groups[group_id];
            &&& group.state == GroupStateType::Waiting
            &&& !group.is_playing
            &&& !group::ready(group)
        }),
{
    let away = service::left(st, session, now);
    let before = away.groups[group_id];
    law_leaving_keeps_the_state_sound(st, session, now);
    assert(group_sound(before, group_id));
    let member = service::newcomer(user_name, true);
    lemma_put_members(before.participants, session, member);
    let group = service::joined_group(before, session, user_name, now);
    assert(group.participants == table::put(before.participants, session, member));
    assert(state::has_member(group.participants, session));
    let i = table::lemma_entry_is_row(group.participants, session);
    assert(!group::member_ready(group.participants[i].1));
}

/// A group that has a queue waits for a member who connects again, unless it is
/// not to wait for that member.
pub proof fn law_group_waits_for_who_returns(
    st: StateView,
    session: Seq<char>,
    connection_id: u128,
    now: nat,
)
    requires
        sound(st),
        st.session_to_group.contains_key(session),
        service::group_of(st, session).playlist.len() > 0,
        !table::rows_map(service::group_of(st, session).participants)[session].ignore_wait,
    ensures
        ({
            let after = service::registered(st, session, connection_id, now);
            let group = service::group_of(after, session);
            &&& group.state == GroupStateType::Waiting
            &&& !group.is_playing
            &&& !group::ready(group)
        }),
{
    let gid = st.session_to_group[session];
    let before = st.groups[gid];
    assert(group_sound(before, gid));
    let member = ParticipantView {
        is_connected: true,
        is_buffering: true,
        last_client_when: None,
        ..table::rows_map(before.participants)[session]
    };
    lemma_put_members(before.participants, session, member);
    let after = service::registered(st, session, connection_id, now);
    let group = service::group_of(after, session);
    assert(group.participants == table::put(before.participants, session, member));
    assert(state::has_member(group.participants, session));
    let i = table::lemma_entry_is_row(group.participants, session);
    assert(!group::member_ready(group.participants[i].1));
}

/// A group that waited goes on where it was when it began to wait, and plays
/// afterwards exactly where it was playing before.
pub proof fn law_waiting_keeps_the_position(group: GroupView, now: nat, later: nat)
    requires
        group.playlist.len() > 0,
        group::ready(group),
    ensures
        ({
            let after = state::resolved(service::waiting_for(group, now), later);
            &&& after.start_position_ticks == group::estimated_position(group, now)
            &&& after.is_playing == group.is_playing
            &&& after.pending_position_ticks is None
            &&& after.state == if group.is_playing {
                GroupStateType::Playing
            } else {
                GroupStateType::Paused
            }
        }),
{
    let waiting = service::waiting_for(group, now);
    assert(waiting.participants == group.participants);
    assert(group::ready(waiting));
}

/// Leaving a second time changes nothing.
pub proof fn law_leaving_twice_is_leaving_once(
    st: StateView,
    session: Seq<char>,
    now: nat,
    later: nat,
)
    requires
        sound(st),
    ensures
        service::left(service::left(st, session, now), session, later) == service::left(
            st,
            session,
            now,
        ),
{
    let once = service::left(st, session, now);
    law_leaving_keeps_the_state_sound(st, session, now);
    assert(!once.grace_ids.contains_key(session));
    assert(once.grace_ids.remove(session) =~= once.grace_ids);
}

} // verus!
