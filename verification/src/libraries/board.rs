//! The board of virtual libraries: the groups with their members, and the
//! libraries with the groups that each could join.
use vstd::prelude::*;
use crate::libraries::discovery;
use crate::libraries::discovery::{AvailableLibrary, LibraryKey, normalize_library_id};
use crate::table::Table;
use crate::text;
use crate::text::{eq_ignore_ascii_case, to_ascii_lowercase, trim};

verus! {

/// What the board shows.
pub struct LibraryGroupsListTemplate {
    pub groups: Vec<LibraryGroupView>,
    pub discovered_libraries: Vec<DiscoveredLibraryView>,
    pub ui_route: String,
}

/// A group on the board.
pub struct LibraryGroupView {
    pub virtual_id: String,
    pub name: String,
    pub collection_type: Option<String>,
    pub members: Vec<LibraryGroupMemberView>,
}

/// A group that a library could join.
pub struct LibraryGroupOptionView {
    pub virtual_id: String,
    pub name: String,
}

/// A member of a group on the board.
pub struct LibraryGroupMemberView {
    pub server_id: i64,
    pub server_name: String,
    pub original_library_id: String,
    pub library_name: String,
}

/// A library on the board.
pub struct DiscoveredLibraryView {
    pub server_id: i64,
    pub server_name: String,
    pub library_id: String,
    pub library_name: String,
    pub collection_type: String,
    pub assigned_group: Option<String>,
    pub assignable_groups: Vec<LibraryGroupOptionView>,
}

/// A group as it is stored.
pub struct LibraryGroupRecord {
    pub virtual_id: String,
    pub name: String,
    pub collection_type: Option<String>,
}

/// A group's member as it is stored.
pub struct LibraryGroupMemberRecord {
    pub server_id: i64,
    pub original_library_id: String,
    pub library_name: String,
}

/// Whether a group accepts libraries of a type: a library needs a type, and a
/// group that has one accepts no other, letters of either case being equal.
pub open spec fn accepts(group_type: Option<Seq<char>>, library_type: Seq<char>) -> bool {
    &&& text::trimmed(library_type).len() > 0
    &&& match group_type {
        Some(t) => text::lowered(t) == text::lowered(library_type),
        None => true,
    }
}

/// Whether a group accepts libraries of a type.
pub fn accepts_collection_type(group_type: Option<&str>, library_type: &str) -> (accepted: bool)
    ensures
        accepted == accepts(
            match group_type {
                Some(t) => Some(t@),
                None => None,
            },
            library_type@,
        ),
{
    !trim(library_type).as_str().is_empty() && match group_type {
        Some(t) => eq_ignore_ascii_case(t, library_type),
        None => true,
    }
}

/// The groups were loaded, or could not be.
pub fn groups_loaded(groups: Result<Vec<LibraryGroupRecord>, String>) -> (result: Result<
    Vec<LibraryGroupRecord>,
    String,
>)
    ensures
        match groups {
            Ok(list) => result == Ok::<Vec<LibraryGroupRecord>, String>(list),
            Err(e) => result matches Err(message) && message@ == "Failed to load groups: "@ + e@,
        },
{
    match groups {
        Ok(list) => Ok(list),
        Err(e) => {
            let mut message = "Failed to load groups: ".to_owned();
            message.append(e.as_str());
            Err(message)
        },
    }
}

/// A stored member as the board shows it before its server's name is known.
pub open spec fn shows_member(
    view: LibraryGroupMemberView,
    member: LibraryGroupMemberRecord,
) -> bool {
    &&& view.server_id == member.server_id
    &&& view.server_name@ == Seq::<char>::empty()
    &&& view.original_library_id == member.original_library_id
    &&& view.library_name == member.library_name
}

/// A group's members were loaded, or could not be: the group as the board shows
/// it.
pub fn group_view(
    group: LibraryGroupRecord,
    members: Result<Vec<LibraryGroupMemberRecord>, String>,
) -> (result: Result<LibraryGroupView, String>)
    ensures
        match members {
            Ok(list) => result matches Ok(view) && {
                &&& view.virtual_id == group.virtual_id
                &&& view.name == group.name
                &&& view.collection_type == group.collection_type
                &&& view.members@.len() == list@.len()
                &&& forall|i: int|
                    0 <= i < list@.len() ==> shows_member(#[trigger] view.members@[i], list@[i])
            },
            Err(e) => result matches Err(message) && message@ == "Failed to load group members: "@
                + e@,
        },
{
    match members {
        Ok(list) => {
            let mut rest = list;
            let mut views: Vec<LibraryGroupMemberView> = Vec::new();
            while rest.len() > 0
                invariant
                    views@.len() <= list@.len(),
                    rest@ == list@.skip(views@.len() as int),
                    forall|i: int|
                        0 <= i < views@.len() ==> shows_member(#[trigger] views@[i], list@[i]),
                decreases rest@.len(),
            {
                let ghost n = views@.len() as int;
                let member = rest.remove(0);
                assert(list@.skip(n)[0] == list@[n]);
                assert(rest@ =~= list@.skip(n + 1));
                views.push(
                    LibraryGroupMemberView {
                        server_id: member.server_id,
                        server_name: String::new(),
                        original_library_id: member.original_library_id,
                        library_name: member.library_name,
                    },
                );
            }
            Ok(
                LibraryGroupView {
                    virtual_id: group.virtual_id,
                    name: group.name,
                    collection_type: group.collection_type,
                    members: views,
                },
            )
        },
        Err(e) => {
            let mut message = "Failed to load group members: ".to_owned();
            message.append(e.as_str());
            Err(message)
        },
    }
}

/// A member's server was looked up: where it was found the member shows its
/// name.
pub fn name_member(member: &mut LibraryGroupMemberView, server_name: Result<Option<String>, String>)
    ensures
        *final(member) == match server_name {
            Ok(Some(name)) => (LibraryGroupMemberView { server_name: name, ..*old(member) }),
            _ => *old(member),
        },
{
    if let Ok(Some(name)) = server_name {
        member.server_name = name;
    }
}

/// A library's type as the board compares it.
pub open spec fn shown_type(collection_type: Seq<char>) -> Seq<char> {
    text::lowered(text::trimmed(collection_type))
}

/// The groups that a library of a type could join.
pub open spec fn joinable(groups: Seq<LibraryGroupView>, library_type: Seq<char>) -> Seq<
    LibraryGroupView,
> {
    groups.filter(
        |group: LibraryGroupView|
            accepts(text::opt_text(group.collection_type), library_type),
    )
}

/// The options offer these groups, in this order.
pub open spec fn offers(
    options: Seq<LibraryGroupOptionView>,
    groups: Seq<LibraryGroupView>,
) -> bool {
    &&& options.len() == groups.len()
    &&& forall|i: int|
        0 <= i < options.len() ==> (#[trigger] options[i]).virtual_id == groups[i].virtual_id
            && options[i].name == groups[i].name
}

/// The board shows a library this way.
pub open spec fn shows_library(
    view: DiscoveredLibraryView,
    library: AvailableLibrary,
    groups: Seq<LibraryGroupView>,
    assignments: Map<(i64, Seq<char>), Seq<char>>,
) -> bool {
    let key = (library.server_id, discovery::normalized_library_id(library.library_id@));
    &&& view.server_id == library.server_id
    &&& view.server_name == library.server_name
    &&& view.library_id == library.library_id
    &&& view.library_name == library.library_name
    &&& view.collection_type@ == shown_type(library.collection_type@)
    &&& match view.assigned_group {
        Some(name) => assignments.contains_key(key) && name@ == assignments[key],
        None => !assignments.contains_key(key),
    }
    &&& offers(
        view.assignable_groups@,
        joinable(groups, shown_type(library.collection_type@)),
    )
}

fn joinable_options(groups: &Vec<LibraryGroupView>, library_type: &str) -> (options: Vec<
    LibraryGroupOptionView,
>)
    ensures
        offers(options@, joinable(groups@, library_type@)),
{
    let mut options: Vec<LibraryGroupOptionView> = Vec::new();
    let mut i: usize = 0;
    assert(joinable(groups@.take(0), library_type@) =~= Seq::empty()) by {
        reveal(Seq::filter);
    }
    while i < groups.len()
        invariant
            i <= groups@.len(),
            offers(options@, joinable(groups@.take(i as int), library_type@)),
        decreases groups@.len() - i,
    {
        proof {
            reveal(Seq::filter);
            assert(groups@.take(i + 1).drop_last() =~= groups@.take(i as int));
        }
        let group = &groups[i];
        let group_type: Option<&str> = match &group.collection_type {
            Some(t) => Some(t.as_str()),
            None => None,
        };
        if accepts_collection_type(group_type, library_type) {
            options.push(
                LibraryGroupOptionView {
                    virtual_id: group.virtual_id.clone(),
                    name: group.name.clone(),
                },
            );
        }
        i = i + 1;
    }
    assert(groups@.take(groups@.len() as int) =~= groups@);
    options
}

/// A library as the board shows it.
pub fn library_view(
    library: AvailableLibrary,
    groups: &Vec<LibraryGroupView>,
    assignments: &Table<LibraryKey, String>,
) -> (view: DiscoveredLibraryView)
    ensures
        shows_library(view, library, groups@, assignments@),
{
    let collection_type = to_ascii_lowercase(trim(library.collection_type.as_str()).as_str());
    let key = LibraryKey {
        server_id: library.server_id,
        library_id: normalize_library_id(library.library_id.as_str()),
    };
    let assigned_group = match assignments.get(&key) {
        Some(name) => Some(name.clone()),
        None => None,
    };
    let assignable_groups = joinable_options(groups, collection_type.as_str());
    DiscoveredLibraryView {
        server_id: library.server_id,
        server_name: library.server_name,
        library_id: library.library_id,
        library_name: library.library_name,
        collection_type,
        assigned_group,
        assignable_groups,
    }
}

/// The assignments that were loaded, none where they could not be.
pub open spec fn loaded_assignments(assignments: Result<Table<LibraryKey, String>, String>) -> Map<
    (i64, Seq<char>),
    Seq<char>,
> {
    match assignments {
        Ok(table) => table@,
        Err(_) => Map::empty(),
    }
}

/// The board: the groups, and each library that was found.
pub fn render_library_groups_list(
    groups: Vec<LibraryGroupView>,
    discovered: Vec<AvailableLibrary>,
    assignments: Result<Table<LibraryKey, String>, String>,
    ui_route: String,
) -> (board: LibraryGroupsListTemplate)
    ensures
        board.groups == groups,
        board.ui_route == ui_route,
        board.discovered_libraries@.len() == discovered@.len(),
        forall|i: int|
            0 <= i < discovered@.len() ==> shows_library(
                #[trigger] board.discovered_libraries@[i],
                discovered@[i],
                groups@,
                loaded_assignments(assignments),
            ),
{
    let ghost assigned = loaded_assignments(assignments);
    let table: Table<LibraryKey, String> = match assignments {
        Ok(table) => table,
        Err(_) => Table::new(),
    };
    let mut rest = discovered;
    let mut views: Vec<DiscoveredLibraryView> = Vec::new();
    while rest.len() > 0
        invariant
            table@ == assigned,
            views@.len() <= discovered@.len(),
            rest@ == discovered@.skip(views@.len() as int),
            forall|i: int|
                0 <= i < views@.len() ==> shows_library(
                    #[trigger] views@[i],
                    discovered@[i],
                    groups@,
                    assigned,
                ),
        decreases rest@.len(),
    {
        let ghost n = views@.len() as int;
        let library = rest.remove(0);
        assert(discovered@.skip(n)[0] == discovered@[n]);
        assert(rest@ =~= discovered@.skip(n + 1));
        views.push(library_view(library, &groups, &table));
    }
    LibraryGroupsListTemplate { groups, discovered_libraries: views, ui_route }
}

/// A library without a type can join no group.
pub proof fn law_library_without_type_joins_nothing(
    groups: Seq<LibraryGroupView>,
    library_type: Seq<char>,
)
    requires
        text::all_white(library_type),
    ensures
        joinable(groups, library_type) == Seq::<LibraryGroupView>::empty(),
    decreases groups.len(),
{
    reveal(Seq::filter);
    text::lemma_trimmed_empty(library_type);
    if groups.len() > 0 {
        law_library_without_type_joins_nothing(groups.drop_last(), library_type);
    }
}

/// Which groups a library can join does not go by the case of letters, in the
/// group's type or in the library's.
pub proof fn law_case_of_types_does_not_matter(
    group_type: Seq<char>,
    other_group_type: Seq<char>,
    library_type: Seq<char>,
)
    requires
        text::lowered(group_type) == text::lowered(other_group_type),
    ensures
        accepts(Some(group_type), library_type) == accepts(Some(other_group_type), library_type),
        accepts(Some(group_type), library_type) ==> text::lowered(group_type) == text::lowered(
            library_type,
        ),
        accepts(None, library_type) <==> !text::all_white(library_type),
{
    text::lemma_trimmed_empty(library_type);
}

} // verus!
