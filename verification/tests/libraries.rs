use jellyswarrm::libraries::board::{
    accepts_collection_type, group_view, groups_loaded, name_member, render_library_groups_list,
    DiscoveredLibraryView, LibraryGroupMemberRecord, LibraryGroupMemberView,
    LibraryGroupOptionView, LibraryGroupRecord, LibraryGroupView, LibraryGroupsListTemplate,
};
use jellyswarrm::libraries::discovery::{
    discover_libraries, normalize_library_id, store_folders, AskedServer, AvailableLibrary,
    LibraryKey, MediaFolder, ServerAnswer, ServerRecord, StoredLibrary,
};
use jellyswarrm::libraries::responses::{
    assign_library, board_drawn, create_group, delete_group, drawn, group_created, group_renamed,
    libraries_page, library_assigned, library_groups_list, remove_member, rename_group,
    show_board, update_merge_libraries, AssignLibraryError, AssignLibraryForm, CreateGroupForm,
    LibrariesPageTemplate, MergeLibrariesControlTemplate, Outcome, RenameGroupForm, UiResponse,
    UpdateMergeLibrariesForm,
};
use jellyswarrm::status::StatusCode;
use jellyswarrm::table::Table;

fn asked(id: i64, name: &str, answer: ServerAnswer) -> AskedServer {
    AskedServer {
        server: ServerRecord {
            id,
            name: name.to_string(),
        },
        answer,
    }
}

fn folder(id: &str, name: &str, collection_type: Option<&str>) -> MediaFolder {
    MediaFolder {
        id: id.to_string(),
        name: name.to_string(),
        collection_type: collection_type.map(|t| t.to_string()),
    }
}

fn seen(server_id: i64, id: &str, name: &str) -> StoredLibrary {
    StoredLibrary {
        server_id,
        original_library_id: id.to_string(),
        name: name.to_string(),
        collection_type: "movies".to_string(),
    }
}

fn names(libraries: &[AvailableLibrary]) -> Vec<(String, String)> {
    libraries
        .iter()
        .map(|l| (l.server_name.clone(), l.library_name.clone()))
        .collect()
}

fn alert(message: &str) -> String {
    format!("<div class=\"alert alert-error\">{message}</div>")
}

fn answer(outcome: Outcome) -> UiResponse {
    match outcome {
        Outcome::Respond(response) => response,
        Outcome::ShowBoard => panic!("expected an answer"),
    }
}

fn render_control(enabled: bool) -> String {
    MergeLibrariesControlTemplate {
        merge_libraries: enabled,
        has_merge_libraries_error: false,
        merge_libraries_error: String::new(),
        ui_route: "admin".to_string(),
    }
    .render()
    .unwrap()
}

fn render_library_board() -> String {
    LibraryGroupsListTemplate {
        groups: vec![LibraryGroupView {
            virtual_id: "group-id".to_string(),
            name: "Movies".to_string(),
            collection_type: Some("movies".to_string()),
            members: vec![LibraryGroupMemberView {
                server_id: 1,
                server_name: "Primary".to_string(),
                original_library_id: "library-id".to_string(),
                library_name: "Movies".to_string(),
            }],
        }],
        discovered_libraries: vec![DiscoveredLibraryView {
            server_id: 1,
            server_name: "Primary".to_string(),
            library_id: "library-id".to_string(),
            library_name: "Movies".to_string(),
            collection_type: "movies".to_string(),
            assigned_group: Some("Movies".to_string()),
            assignable_groups: vec![LibraryGroupOptionView {
                virtual_id: "group-id".to_string(),
                name: "Movies".to_string(),
            }],
        }],
        ui_route: "admin".to_string(),
    }
    .render()
    .unwrap()
}

#[test]
fn automatic_merge_control_is_checked_when_enabled() {
    let html = render_control(true);

    assert!(html.contains("name=\"merge_libraries\""));
    assert!(html.contains("checked"));
    assert!(html.contains("hx-patch=\"/admin/libraries/merge-libraries\""));
}

#[test]
fn automatic_merge_control_is_unchecked_when_disabled() {
    let html = render_control(false);

    assert!(html.contains("name=\"merge_libraries\""));
    assert!(!html.contains("checked"));
    assert!(html.contains("Disabled"));
}

#[test]
fn libraries_page_contains_one_automatic_merge_control() {
    let html = LibrariesPageTemplate {
        merge_libraries: true,
        has_merge_libraries_error: false,
        merge_libraries_error: String::new(),
        ui_route: "admin".to_string(),
    }
    .render()
    .unwrap();

    assert_eq!(html.matches("name=\"merge_libraries\"").count(), 1);
}

#[test]
fn configured_groups_do_not_offer_duplicate_policies() {
    let html = LibraryGroupsListTemplate {
        groups: vec![LibraryGroupView {
            virtual_id: "group-id".to_string(),
            name: "Movies".to_string(),
            collection_type: None,
            members: Vec::new(),
        }],
        discovered_libraries: Vec::new(),
        ui_route: "admin".to_string(),
    }
    .render()
    .unwrap();

    assert!(!html.contains("duplicate_policy"));
    assert!(!html.contains("Preferred server"));
}

#[test]
fn library_board_renders_draggable_libraries_and_drop_zones() {
    let html = render_library_board();

    assert!(html.contains("data-library-card"));
    assert!(html.contains("data-library-drag-handle"));
    assert!(html.contains("data-can-drag=\"true\""));
    assert!(html.contains("draggable=\"true\""));
    assert!(html.contains("data-library-dropzone"));
    assert!(html.contains("data-group-id=\"group-id\""));
    assert!(html.contains("title=\"Add to existing library\""));
    assert!(html.contains(">Add</button>"));
}

#[test]
fn library_board_keeps_an_accessible_assignment_form() {
    let html = render_library_board();

    assert!(html.contains("class=\"library-assignment-form\""));
    assert!(html.contains("name=\"group_virtual_id\""));
    assert!(html.contains("data-collection-type=\"movies\""));
    assert!(html.contains("hx-post=\"/admin/libraries/assign\""));
    assert!(html.contains("data-library-popover"));
    assert!(html.contains("aria-haspopup=\"true\""));
}

#[test]
fn texts_from_outside_are_escaped() {
    let html = LibraryGroupsListTemplate {
        groups: vec![LibraryGroupView {
            virtual_id: "\"id\"".to_string(),
            name: "<b>'A' & B</b>".to_string(),
            collection_type: None,
            members: vec![LibraryGroupMemberView {
                server_id: -12,
                server_name: "ü".to_string(),
                original_library_id: "1".to_string(),
                library_name: "2".to_string(),
            }],
        }],
        discovered_libraries: Vec::new(),
        ui_route: "admin".to_string(),
    }
    .render()
    .unwrap();
    assert_eq!(
        html,
        "<div class=\"library-board\"><section data-library-dropzone data-group-id=\"&#34;id&#34;\"><h3>&#60;b&#62;&#39;A&#39; &#38; B&#60;/b&#62;</h3><ul><li data-server-id=\"-12\" data-library-id=\"1\">2 (ü)</li></ul></section></div>"
    );
}

#[test]
fn a_library_that_can_join_nothing_stays_put() {
    let html = LibraryGroupsListTemplate {
        groups: Vec::new(),
        discovered_libraries: vec![DiscoveredLibraryView {
            server_id: i64::MIN,
            server_name: "Primary".to_string(),
            library_id: "library-id".to_string(),
            library_name: "Movies".to_string(),
            collection_type: String::new(),
            assigned_group: None,
            assignable_groups: Vec::new(),
        }],
        ui_route: "admin".to_string(),
    }
    .render()
    .unwrap();
    assert!(html.contains("draggable=\"false\""));
    assert!(html.contains("data-server-id=\"-9223372036854775808\""));
    assert!(!html.contains("<em>"));
    assert!(!html.contains("<option"));
}

#[test]
fn the_control_shows_its_error() {
    let html = MergeLibrariesControlTemplate {
        merge_libraries: false,
        has_merge_libraries_error: true,
        merge_libraries_error: "a < b".to_string(),
        ui_route: "ui".to_string(),
    }
    .render()
    .unwrap();
    assert!(html.ends_with(
        "> Disabled</label><div class=\"alert alert-error\">a &#60; b</div>"
    ));
}

#[test]
fn untyped_virtual_library_accepts_any_collection_type() {
    assert!(accepts_collection_type(None, "movies"));
}

#[test]
fn typed_virtual_library_rejects_different_collection_type() {
    assert!(!accepts_collection_type(Some("movies"), "tvshows"));
}

#[test]
fn virtual_library_rejects_library_without_collection_type() {
    assert!(!accepts_collection_type(None, ""));
}

#[test]
fn collection_types_go_by_letters_of_either_case() {
    assert!(accepts_collection_type(Some("Movies"), "mOVIES"));
    assert!(!accepts_collection_type(Some("movies"), " movies"));
    assert!(!accepts_collection_type(None, " \t\u{3000}"));
    assert!(!accepts_collection_type(Some(" "), " "));
}

#[test]
fn library_ids_are_normalized() {
    assert_eq!(
        normalize_library_id("F137A2DD-21BB-C1B9"),
        "f137a2dd21bbc1b9"
    );
    assert_eq!(normalize_library_id("--"), "");
}

#[test]
fn a_server_speaks_for_itself() {
    let libraries = discover_libraries(
        Ok(vec![
            asked(2, "Beta", ServerAnswer::NoAdmin),
            asked(
                1,
                "Alpha",
                ServerAnswer::Folders(vec![
                    folder("AA-1", "Shows", Some("tvshows")),
                    folder("bb2", "Channels", Some("LiveTV")),
                    folder("cc3", "Mixed", None),
                ]),
            ),
        ]),
        Ok(vec![
            seen(1, "old", "Old"),
            seen(2, "dd4", "Zoo"),
            seen(2, "ee5", "Art"),
            seen(9, "ff6", "Gone"),
            seen(2, "dd4", "Zebra"),
        ]),
    );
    assert_eq!(
        names(&libraries),
        vec![
            ("Alpha".to_string(), "Mixed".to_string()),
            ("Alpha".to_string(), "Shows".to_string()),
            ("Beta".to_string(), "Art".to_string()),
            ("Beta".to_string(), "Zebra".to_string()),
        ]
    );
    assert_eq!(libraries[0].collection_type, "");
    assert_eq!(libraries[1].library_id, "aa1");
    assert_eq!(libraries[1].server_id, 1);
    assert_eq!(libraries[3].library_id, "dd4");
}

#[test]
fn servers_that_cannot_be_asked_keep_what_was_seen() {
    let answers = vec![
        ServerAnswer::NoAdmin,
        ServerAnswer::PasswordUnreadable,
        ServerAnswer::NoClient,
        ServerAnswer::Refused,
        ServerAnswer::NoFolders,
    ];
    for answer in answers {
        let libraries =
            discover_libraries(Ok(vec![asked(1, "Alpha", answer)]), Ok(vec![seen(1, "x", "X")]));
        assert_eq!(names(&libraries), vec![("Alpha".to_string(), "X".to_string())]);
    }
}

#[test]
fn failed_lists_count_as_empty() {
    assert!(discover_libraries(Err("down".to_string()), Ok(vec![seen(1, "x", "X")])).is_empty());
    assert!(
        discover_libraries(
            Ok(vec![asked(1, "Alpha", ServerAnswer::NoAdmin)]),
            Err("down".to_string())
        )
        .is_empty()
    );
}

#[test]
fn listed_folders_are_remembered_as_they_are() {
    let stored = store_folders(
        4,
        &vec![
            folder("AA-1", "Shows", Some("tvshows")),
            folder("tv", "TV", Some("livetv")),
            folder("cc3", "Mixed", None),
        ],
    );
    assert_eq!(stored.len(), 2);
    assert_eq!(stored[0].server_id, 4);
    assert_eq!(stored[0].original_library_id, "AA-1");
    assert_eq!(stored[0].collection_type, "tvshows");
    assert_eq!(stored[1].name, "Mixed");
    assert_eq!(stored[1].collection_type, "");
}

fn group(id: &str, collection_type: Option<&str>) -> LibraryGroupView {
    group_view(
        LibraryGroupRecord {
            virtual_id: id.to_string(),
            name: format!("Group {id}"),
            collection_type: collection_type.map(|t| t.to_string()),
        },
        Ok(vec![LibraryGroupMemberRecord {
            server_id: 1,
            original_library_id: "lib".to_string(),
            library_name: "Films".to_string(),
        }]),
    )
    .unwrap_or_else(|_| panic!())
}

#[test]
fn members_show_their_servers_name_where_it_is_known() {
    let mut view = group("a", None);
    assert_eq!(view.members.len(), 1);
    assert_eq!(view.members[0].server_name, "");
    name_member(&mut view.members[0], Ok(None));
    name_member(&mut view.members[0], Err("down".to_string()));
    assert_eq!(view.members[0].server_name, "");
    name_member(&mut view.members[0], Ok(Some("Primary".to_string())));
    assert_eq!(view.members[0].server_name, "Primary");
    assert_eq!(view.members[0].library_name, "Films");
}

#[test]
fn failures_to_load_are_told() {
    assert_eq!(
        groups_loaded(Err("down".to_string())).err().unwrap(),
        "Failed to load groups: down"
    );
    assert_eq!(groups_loaded(Ok(Vec::new())).ok().unwrap().len(), 0);
    let record = LibraryGroupRecord {
        virtual_id: "a".to_string(),
        name: "A".to_string(),
        collection_type: None,
    };
    assert_eq!(
        group_view(record, Err("down".to_string())).err().unwrap(),
        "Failed to load group members: down"
    );
}

#[test]
fn the_board_offers_the_groups_that_fit() {
    let library = |id: &str, collection_type: &str| AvailableLibrary {
        server_id: 1,
        server_name: "Primary".to_string(),
        library_id: id.to_string(),
        library_name: "Films".to_string(),
        collection_type: collection_type.to_string(),
    };
    let mut assignments: Table<LibraryKey, String> = Table::new();
    assignments.insert(
        LibraryKey {
            server_id: 1,
            library_id: "aa1".to_string(),
        },
        "Group a".to_string(),
    );
    let board = render_library_groups_list(
        vec![group("a", Some("MOVIES")), group("b", None), group("c", Some("music"))],
        vec![library("AA-1", " Movies "), library("bb2", "")],
        Ok(assignments),
        "admin".to_string(),
    );
    assert_eq!(board.groups.len(), 3);
    assert_eq!(board.ui_route, "admin");
    let first = &board.discovered_libraries[0];
    assert_eq!(first.collection_type, "movies");
    assert_eq!(first.library_id, "AA-1");
    assert_eq!(first.assigned_group.as_deref(), Some("Group a"));
    let offered: Vec<&str> = first
        .assignable_groups
        .iter()
        .map(|option| option.virtual_id.as_str())
        .collect();
    assert_eq!(offered, vec!["a", "b"]);
    assert_eq!(first.assignable_groups[1].name, "Group b");
    let second = &board.discovered_libraries[1];
    assert!(second.assigned_group.is_none());
    assert!(second.assignable_groups.is_empty());
}

#[test]
fn unknown_assignments_count_as_none() {
    let board = render_library_groups_list(
        Vec::new(),
        vec![AvailableLibrary {
            server_id: 1,
            server_name: "Primary".to_string(),
            library_id: "a".to_string(),
            library_name: "Films".to_string(),
            collection_type: "movies".to_string(),
        }],
        Err("down".to_string()),
        "admin".to_string(),
    );
    assert!(board.discovered_libraries[0].assigned_group.is_none());
}

#[test]
fn a_setting_that_cannot_be_saved_stays() {
    let form = UpdateMergeLibrariesForm {
        merge_libraries: true,
    };
    let (value, control) = update_merge_libraries(&form, false, Ok(()), "admin".to_string());
    assert!(value);
    assert!(control.merge_libraries);
    assert!(!control.has_merge_libraries_error);
    assert_eq!(control.merge_libraries_error, "");
    let (value, control) =
        update_merge_libraries(&form, false, Err("full".to_string()), "admin".to_string());
    assert!(!value);
    assert!(!control.merge_libraries);
    assert!(control.has_merge_libraries_error);
    assert_eq!(
        control.merge_libraries_error,
        "Could not save this setting. The previous behavior is still active."
    );
    assert_eq!(control.ui_route, "admin");
}

#[test]
fn the_page_shows_no_error() {
    let page = libraries_page(true, "admin".to_string());
    assert!(page.merge_libraries);
    assert!(!page.has_merge_libraries_error);
    assert_eq!(page.ui_route, "admin");
}

#[test]
fn drawings_are_answered_as_html() {
    let response = drawn(Ok("<p>".to_string()));
    assert_eq!(response.status, StatusCode::OK);
    assert!(response.html);
    assert_eq!(response.body, "<p>");
    let response = drawn(Err("bad".to_string()));
    assert_eq!(response.status, StatusCode::INTERNAL_SERVER_ERROR);
    assert!(!response.html);
    assert_eq!(response.body, "Template error");
    assert_eq!(
        board_drawn(Err("bad".to_string())),
        Err("Template error: bad".to_string())
    );
    let response = library_groups_list(Err("bad".to_string()));
    assert!(response.html);
    assert_eq!(response.body, alert("bad"));
    let response = show_board(Err("bad".to_string()));
    assert!(!response.html);
    assert_eq!(response.status, StatusCode::INTERNAL_SERVER_ERROR);
    assert_eq!(response.body, "bad");
    assert_eq!(show_board(Ok("<p>".to_string())).status, StatusCode::OK);
    assert_eq!(library_groups_list(Ok("<p>".to_string())).body, "<p>");
}

#[test]
fn groups_are_named_without_the_white_space_around() {
    let form = CreateGroupForm {
        name: "  Movie night\n".to_string(),
    };
    assert_eq!(create_group(&form).ok().unwrap(), "Movie night");
    let refused = create_group(&CreateGroupForm {
        name: " \t".to_string(),
    })
    .err()
    .unwrap();
    assert_eq!(refused.status, StatusCode::BAD_REQUEST);
    assert_eq!(refused.body, alert("Group name is required"));
    let refused = rename_group(&RenameGroupForm {
        name: String::new(),
    })
    .err()
    .unwrap();
    assert_eq!(refused.status, StatusCode::BAD_REQUEST);
    assert_eq!(refused.body, alert("Display name is required"));
    let form = RenameGroupForm {
        name: "New ".to_string(),
    };
    assert_eq!(rename_group(&form).ok().unwrap(), "New");
}

#[test]
fn a_taken_group_name_is_told_apart() {
    assert!(matches!(group_created(Ok(())), Outcome::ShowBoard));
    let response = answer(group_created(Err(
        "error: UNIQUE constraint failed: groups.name".to_string()
    )));
    assert_eq!(response.status, StatusCode::BAD_REQUEST);
    assert_eq!(response.body, alert("A group with that name already exists"));
    let response = answer(group_created(Err("disk full".to_string())));
    assert_eq!(response.status, StatusCode::BAD_REQUEST);
    assert_eq!(response.body, alert("Failed to create library group"));
}

#[test]
fn changes_are_answered_by_what_came_of_them() {
    let cases: Vec<(fn(Result<bool, String>) -> Outcome, &str, &str)> = vec![
        (delete_group, "Group not found", "Failed to delete group"),
        (group_renamed, "Group not found", "Failed to rename group"),
        (
            remove_member,
            "Library assignment not found",
            "Failed to remove library",
        ),
    ];
    for (change, missing, failed) in cases {
        assert!(matches!(change(Ok(true)), Outcome::ShowBoard));
        let response = answer(change(Ok(false)));
        assert_eq!(response.status, StatusCode::NOT_FOUND);
        assert_eq!(response.body, alert(missing));
        let response = answer(change(Err("down".to_string())));
        assert_eq!(response.status, StatusCode::INTERNAL_SERVER_ERROR);
        assert_eq!(response.body, alert(failed));
        assert!(response.html);
    }
}

#[test]
fn a_library_is_assigned_as_it_was_found() {
    let form = || AssignLibraryForm {
        group_virtual_id: "group-id".to_string(),
        server_id: 1,
        library_id: "library-id".to_string(),
    };
    let member = assign_library(form(), Ok(Some(seen(1, "stored-id", "Movies"))))
        .ok()
        .unwrap();
    assert_eq!(member.group_virtual_id, "group-id");
    assert_eq!(member.server_id, 1);
    assert_eq!(member.library_id, "library-id");
    assert_eq!(member.library_name, "Movies");
    assert_eq!(member.collection_type, "movies");
    let response = assign_library(form(), Ok(None)).err().unwrap();
    assert_eq!(response.status, StatusCode::NOT_FOUND);
    assert_eq!(response.body, alert("Real library not found."));
    let response = assign_library(form(), Err("down".to_string())).err().unwrap();
    assert_eq!(response.status, StatusCode::INTERNAL_SERVER_ERROR);
    assert_eq!(response.body, alert("Failed to assign library."));
}

#[test]
fn failed_assignments_are_told_apart() {
    assert!(matches!(library_assigned(Ok(())), Outcome::ShowBoard));
    let response = answer(library_assigned(Err(
        AssignLibraryError::CollectionTypeMismatch {
            group_type: "movies".to_string(),
            library_type: "tvshows".to_string(),
        },
    )));
    assert_eq!(response.status, StatusCode::CONFLICT);
    assert_eq!(
        response.body,
        alert("This virtual library contains movies libraries, not tvshows libraries.")
    );
    let response = answer(library_assigned(Err(
        AssignLibraryError::MissingCollectionType,
    )));
    assert_eq!(response.status, StatusCode::BAD_REQUEST);
    assert_eq!(response.body, alert("The library type is required."));
    let response = answer(library_assigned(Err(AssignLibraryError::GroupNotFound)));
    assert_eq!(response.status, StatusCode::NOT_FOUND);
    assert_eq!(response.body, alert("Virtual library not found."));
    let response = answer(library_assigned(Err(AssignLibraryError::Database(
        "down".to_string(),
    ))));
    assert_eq!(response.status, StatusCode::INTERNAL_SERVER_ERROR);
    assert_eq!(response.body, alert("Failed to assign library."));
}
