//! What the board shows, and what the administrators' requests are answered.
use vstd::prelude::*;
use crate::libraries::board;
use crate::libraries::board::{
    DiscoveredLibraryView, LibraryGroupMemberRecord, LibraryGroupMemberView,
    LibraryGroupOptionView, LibraryGroupView,
};
use crate::libraries::discovery;
use crate::libraries::discovery::{AvailableLibrary, LibraryKey};
use crate::libraries::pages;
use crate::libraries::responses;
use crate::libraries::responses::{AssignLibraryError, Outcome};
use crate::status::StatusCode;
use crate::table::Table;
use crate::text;
use crate::text_laws;

verus! {

/// A group fits a library's type: the library has one, and the group has none or
/// the same, in letters of either case. What members the group has is no matter.
pub open spec fn fits(group: LibraryGroupView, library_type: Seq<char>) -> bool {
    &&& !text::all_white(library_type)
    &&& match group.collection_type {
        Some(t) => text::lowered(t@) == text::lowered(library_type),
        None => true,
    }
}

proof fn lemma_joinable_fits(groups: Seq<LibraryGroupView>, library_type: Seq<char>)
    ensures
        board::joinable(groups, library_type) == groups.filter(
            |group: LibraryGroupView| fits(group, library_type),
        ),
    decreases groups.len(),
{
    reveal(Seq::filter);
    text::lemma_trimmed_empty(library_type);
    if groups.len() > 0 {
        lemma_joinable_fits(groups.drop_last(), library_type);
    } else {
        assert(board::joinable(groups, library_type) =~= groups.filter(
            |group: LibraryGroupView| fits(group, library_type),
        ));
    }
}

/// Some option offers this group.
pub open spec fn is_offered(
    options: Seq<LibraryGroupOptionView>,
    group: LibraryGroupView,
) -> bool {
    exists|o: int|
        0 <= o < options.len() && (#[trigger] options[o]).virtual_id == group.virtual_id
            && options[o].name == group.name
}

/// Some fitting group is behind this option.
pub open spec fn offers_a_fitting_group(
    option: LibraryGroupOptionView,
    groups: Seq<LibraryGroupView>,
    library_type: Seq<char>,
) -> bool {
    exists|i: int|
        0 <= i < groups.len() && fits(#[trigger] groups[i], library_type) && option.virtual_id
            == groups[i].virtual_id && option.name == groups[i].name
}

/// A library is offered exactly the groups whose type fits its own, in the groups'
/// order, whatever members they have.
pub proof fn law_library_is_offered_the_fitting_groups(
    view: DiscoveredLibraryView,
    library: AvailableLibrary,
    groups: Seq<LibraryGroupView>,
    assignments: Map<(i64, Seq<char>), Seq<char>>,
)
    requires
        board::shows_library(view, library, groups, assignments),
    ensures
        ({
            let library_type = text::lowered(text::trimmed(library.collection_type@));
            let options = view.assignable_groups@;
            let fitting = groups.filter(|group: LibraryGroupView| fits(group, library_type));
            &&& options.len() == fitting.len()
            &&& forall|o: int|
                0 <= o < options.len() ==> (#[trigger] options[o]).virtual_id
                    == fitting[o].virtual_id && options[o].name == fitting[o].name
            &&& forall|i: int|
                0 <= i < groups.len() && fits(#[trigger] groups[i], library_type) ==> is_offered(
                    options,
                    groups[i],
                )
            &&& forall|o: int|
                0 <= o < options.len() ==> offers_a_fitting_group(
                    #[trigger] options[o],
                    groups,
                    library_type,
                )
        }),
{
    let library_type = text::lowered(text::trimmed(library.collection_type@));
    let options = view.assignable_groups@;
    let fitting = groups.filter(|group: LibraryGroupView| fits(group, library_type));
    lemma_joinable_fits(groups, library_type);
    assert(board::offers(options, fitting));
    assert forall|i: int| 0 <= i < groups.len() && fits(
        #[trigger] groups[i],
        library_type,
    ) implies is_offered(options, groups[i]) by {
        groups.lemma_filter_contains(|group: LibraryGroupView| fits(group, library_type), i);
        let o = choose|o: int| 0 <= o < fitting.len() && fitting[o] == groups[i];
        assert(options[o].virtual_id == fitting[o].virtual_id);
    }
    assert forall|o: int| 0 <= o < options.len() implies offers_a_fitting_group(
        #[trigger] options[o],
        groups,
        library_type,
    ) by {
        assert(options[o].virtual_id == fitting[o].virtual_id);
        lemma_filtered(groups, library_type, o);
        let i = choose|i: int|
            0 <= i < groups.len() && fits(#[trigger] groups[i], library_type) && groups[i]
                == fitting[o];
        assert(fits(groups[i], library_type));
    }
}

proof fn lemma_filtered(groups: Seq<LibraryGroupView>, library_type: Seq<char>, o: int)
    requires
        0 <= o < groups.filter(|group: LibraryGroupView| fits(group, library_type)).len(),
    ensures
        exists|i: int|
            0 <= i < groups.len() && fits(#[trigger] groups[i], library_type) && groups[i]
                == groups.filter(|group: LibraryGroupView| fits(group, library_type))[o],
    decreases groups.len(),
{
    reveal(Seq::filter);
    let p = |group: LibraryGroupView| fits(group, library_type);
    if groups.len() > 0 {
        let fewer = groups.drop_last();
        if o < fewer.filter(p).len() {
            lemma_filtered(fewer, library_type, o);
            let i = choose|i: int|
                0 <= i < fewer.len() && fits(#[trigger] fewer[i], library_type) && fewer[i]
                    == fewer.filter(p)[o];
            assert(groups[i] == fewer[i]);
        } else {
            assert(groups[groups.len() - 1] == groups.filter(p)[o]);
        }
    }
}

/// A library without a type is offered nothing, and one with a type is offered every
/// group that has none.
pub proof fn law_untyped_groups_take_any_typed_library(
    group: LibraryGroupView,
    library_type: Seq<char>,
)
    ensures
        group.collection_type is None ==> (board::accepts(
            text::opt_text(group.collection_type),
            library_type,
        ) <==> !text::all_white(library_type)),
        group.collection_type matches Some(t) ==> (board::accepts(
            text::opt_text(group.collection_type),
            library_type,
        ) <==> !text::all_white(library_type) && text::lowered(t@) == text::lowered(library_type)),
{
    text::lemma_trimmed_empty(library_type);
}

/// A library is shown as it was discovered, with its type trimmed and in small
/// letters, and with the group that it is assigned to, where there is one under its
/// server and its normalized identifier.
pub proof fn law_library_is_shown_as_discovered(
    view: DiscoveredLibraryView,
    library: AvailableLibrary,
    groups: Seq<LibraryGroupView>,
    assignments: Map<(i64, Seq<char>), Seq<char>>,
)
    requires
        board::shows_library(view, library, groups, assignments),
    ensures
        view.server_id == library.server_id,
        view.server_name@ == library.server_name@,
        view.library_id@ == library.library_id@,
        view.library_name@ == library.library_name@,
        view.collection_type@ == text::lowered(text::trimmed(library.collection_type@)),
        ({
            let key = (library.server_id, discovery::normalized_library_id(library.library_id@));
            &&& assignments.contains_key(key) <==> view.assigned_group is Some
            &&& view.assigned_group matches Some(name) ==> name@ == assignments[key]
        }),
{
}

/// The assignments that count are those that were loaded, none where they could not
/// be.
pub proof fn law_loaded_assignments_count(assignments: Result<Table<LibraryKey, String>, String>)
    ensures
        assignments matches Ok(table) ==> board::loaded_assignments(assignments) == table@,
        assignments is Err ==> board::loaded_assignments(assignments).dom() == Set::<
            (i64, Seq<char>),
        >::empty(),
{
    assert(Map::<(i64, Seq<char>), Seq<char>>::empty().dom() =~= Set::empty());
}

/// A member is shown as it is stored, under no server's name yet.
pub proof fn law_member_is_shown_as_stored(
    view: LibraryGroupMemberView,
    member: LibraryGroupMemberRecord,
)
    requires
        board::shows_member(view, member),
    ensures
        view.server_id == member.server_id,
        view.original_library_id@ == member.original_library_id@,
        view.library_name@ == member.library_name@,
        view.server_name@.len() == 0,
{
}

/// The name that a form asks for is what stands between the white space at its
/// ends; a form with nothing else asks for none.
pub proof fn law_asked_name_is_what_was_typed(name: Seq<char>) -> (ends: (int, int))
    ensures
        responses::asked_name(name) is None <==> forall|i: int|
            0 <= i < name.len() ==> text::is_white(#[trigger] name[i]),
        0 <= ends.0 <= ends.1 <= name.len(),
        responses::asked_name(name) matches Some(asked) ==> asked == name.subrange(
            ends.0,
            ends.1,
        ),
        forall|i: int| 0 <= i < ends.0 ==> text::is_white(#[trigger] name[i]),
        forall|i: int| ends.1 <= i < name.len() ==> text::is_white(#[trigger] name[i]),
{
    text_laws::law_trimming_takes_white_ends(name)
}

/// An error is shown as markup around its message, under its status.
pub proof fn law_errors_show_their_message(status: StatusCode, message: Seq<char>)
    ensures
        responses::alert_response(status, message).status == status,
        responses::alert_response(status, message).html,
        text::occurs(responses::alert_response(status, message).body, message),
        responses::alert_response(status, message).body.len() == message.len()
            + "<div class=\"alert alert-error\">"@.len() + "</div>"@.len(),
{
    let body = responses::alert(message);
    let a = "<div class=\"alert alert-error\">"@;
    let b = "</div>"@;
    assert(body == a + message + b);
    text_laws::law_occurring_is_standing_between(body, message);
}

/// A change that was made shows the board; one whose object was not there is not
/// found, and one that failed is an internal error.
pub proof fn law_changes_are_answered_by_what_happened(
    changed: Result<bool, String>,
    missing: Seq<char>,
    failed: Seq<char>,
)
    ensures
        responses::change_view(changed, missing, failed) is None <==> changed == Ok::<bool, String>(
            true,
        ),
        changed == Ok::<bool, String>(false) ==> responses::change_view(
            changed,
            missing,
            failed,
        ) == Some(
            responses::alert_response(StatusCode::NOT_FOUND, missing),
        ),
        changed is Err ==> responses::change_view(changed, missing, failed) == Some(
            responses::alert_response(StatusCode::INTERNAL_SERVER_ERROR, failed),
        ),
{
}

/// A library of the wrong type is a conflict that names both types, one without a
/// type a bad request; a missing group is not found, and a store that failed is an
/// internal error.
pub proof fn law_failed_assignments_say_why(error: AssignLibraryError)
    ensures
        responses::assign_error_view(error).html,
        match error {
            AssignLibraryError::CollectionTypeMismatch { group_type, library_type } => {
                &&& responses::assign_error_view(error).status == StatusCode::CONFLICT
                &&& text::occurs(responses::assign_error_view(error).body, group_type@)
                &&& text::occurs(responses::assign_error_view(error).body, library_type@)
            },
            AssignLibraryError::MissingCollectionType => responses::assign_error_view(error).status
                == StatusCode::BAD_REQUEST,
            AssignLibraryError::GroupNotFound => responses::assign_error_view(error).status
                == StatusCode::NOT_FOUND,
            AssignLibraryError::Database(_) => responses::assign_error_view(error).status
                == StatusCode::INTERNAL_SERVER_ERROR,
        },
{
    if let AssignLibraryError::CollectionTypeMismatch { group_type, library_type } = error {
        let body = responses::assign_error_view(error).body;
        let open = "<div class=\"alert alert-error\">"@;
        let close = "</div>"@;
        let a = "This virtual library contains "@;
        let b = " libraries, not "@;
        let c = " libraries."@;
        assert(body =~= (open + a) + group_type@ + (b + library_type@ + c + close));
        assert(body =~= (open + a + group_type@ + b) + library_type@ + (c + close));
        text_laws::law_occurring_is_standing_between(body, group_type@);
        text_laws::law_occurring_is_standing_between(body, library_type@);
    }
}

/// What follows a change is the board exactly where no answer is given.
pub proof fn law_outcomes_show_the_board_or_answer(outcome: Outcome)
    ensures
        outcome is ShowBoard <==> responses::outcome_view(outcome) is None,
        outcome matches Outcome::Respond(response) ==> (responses::outcome_view(
            outcome,
        ) matches Some(shown) && shown.status == response.status && shown.html == response.html
            && shown.body == response.body@),
{
}

/// What stands in a part of a text stands in the text.
pub proof fn lemma_occurs_inside(a: Seq<char>, b: Seq<char>, c: Seq<char>, d: Seq<char>, e: Seq<char>)
    requires
        text::occurs(b, d),
        e == a + b + c,
    ensures
        text::occurs(e, d),
{
    text_laws::law_occurring_is_standing_between(b, d);
    text_laws::law_occurring_is_standing_between(e, d);
    let (x, y) = choose|x: Seq<char>, y: Seq<char>| b == #[trigger] (x + d + y);
    assert(e =~= (a + x) + d + (y + c));
}

/// A part of a text stands in it.
pub proof fn lemma_occurs_itself(a: Seq<char>, b: Seq<char>, c: Seq<char>, e: Seq<char>)
    requires
        e == a + b + c,
    ensures
        text::occurs(e, b),
{
    text_laws::law_occurring_is_standing_between(e, b);
}

/// The board's markup holds the markup of every group and of every library.
pub proof fn law_board_shows_every_group_and_library(
    groups: Seq<LibraryGroupView>,
    libraries: Seq<DiscoveredLibraryView>,
    ui_route: Seq<char>,
)
    ensures
        forall|i: int|
            0 <= i < groups.len() ==> text::occurs(
                pages::board_html(groups, libraries, ui_route),
                pages::group_html(#[trigger] groups[i]),
            ),
        forall|i: int|
            0 <= i < libraries.len() ==> text::occurs(
                pages::board_html(groups, libraries, ui_route),
                pages::library_html(#[trigger] libraries[i], ui_route),
            ),
{
    let html = pages::board_html(groups, libraries, ui_route);
    let open = "<div class=\"library-board\">"@;
    let close = "</div>"@;
    let gs = pages::groups_html(groups);
    let ls = pages::libraries_html(libraries, ui_route);
    assert forall|i: int| 0 <= i < groups.len() implies text::occurs(
        html,
        pages::group_html(#[trigger] groups[i]),
    ) by {
        lemma_groups_shown(groups, i);
        assert(html =~= open + gs + (ls + close));
        lemma_occurs_inside(open, gs, ls + close, pages::group_html(groups[i]), html);
    }
    assert forall|i: int| 0 <= i < libraries.len() implies text::occurs(
        html,
        pages::library_html(#[trigger] libraries[i], ui_route),
    ) by {
        lemma_libraries_shown(libraries, ui_route, i);
        assert(html =~= (open + gs) + ls + close);
        lemma_occurs_inside(
            open + gs,
            ls,
            close,
            pages::library_html(libraries[i], ui_route),
            html,
        );
    }
}

proof fn lemma_groups_shown(groups: Seq<LibraryGroupView>, i: int)
    requires
        0 <= i < groups.len(),
    ensures
        text::occurs(pages::groups_html(groups), pages::group_html(groups[i])),
    decreases groups.len(),
{
    let fewer = groups.drop_last();
    let before = pages::groups_html(fewer);
    let last = pages::group_html(groups.last());
    let none = Seq::<char>::empty();
    if i < fewer.len() {
        lemma_groups_shown(fewer, i);
        assert(fewer[i] == groups[i]);
        assert(pages::groups_html(groups) =~= none + before + last);
        lemma_occurs_inside(
            none,
            before,
            last,
            pages::group_html(groups[i]),
            pages::groups_html(groups),
        );
    } else {
        assert(pages::groups_html(groups) =~= before + last + none);
        lemma_occurs_itself(before, last, none, pages::groups_html(groups));
    }
}

proof fn lemma_libraries_shown(
    libraries: Seq<DiscoveredLibraryView>,
    ui_route: Seq<char>,
    i: int,
)
    requires
        0 <= i < libraries.len(),
    ensures
        text::occurs(
            pages::libraries_html(libraries, ui_route),
            pages::library_html(libraries[i], ui_route),
        ),
    decreases libraries.len(),
{
    let fewer = libraries.drop_last();
    let before = pages::libraries_html(fewer, ui_route);
    let last = pages::library_html(libraries.last(), ui_route);
    let none = Seq::<char>::empty();
    let all = pages::libraries_html(libraries, ui_route);
    if i < fewer.len() {
        lemma_libraries_shown(fewer, ui_route, i);
        assert(fewer[i] == libraries[i]);
        assert(all =~= none + before + last);
        lemma_occurs_inside(none, before, last, pages::library_html(libraries[i], ui_route), all);
    } else {
        assert(all =~= before + last + none);
        lemma_occurs_itself(before, last, none, all);
    }
}

/// A group's markup shows its name, its identifier, its type where it has one, and
/// every member.
pub proof fn law_group_markup_shows_name_and_members(group: LibraryGroupView)
    ensures
        text::occurs(pages::group_html(group), pages::escaped(group.name@)),
        text::occurs(pages::group_html(group), pages::escaped(group.virtual_id@)),
        group.collection_type matches Some(t) ==> text::occurs(
            pages::group_html(group),
            " data-collection-type=\""@ + pages::escaped(t@) + "\""@,
        ),
        forall|i: int|
            0 <= i < group.members@.len() ==> text::occurs(
                pages::group_html(group),
                pages::member_html(#[trigger] group.members@[i]),
            ),
{
    let html = pages::group_html(group);
    let id = pages::escaped(group.virtual_id@);
    let name = pages::escaped(group.name@);
    let open = "<section data-library-dropzone data-group-id=\""@;
    let head = open + id + "\""@;
    let typed = match group.collection_type {
        Some(t) => head + " data-collection-type=\""@ + pages::escaped(t@) + "\""@,
        None => head,
    };
    let members = pages::members_html(group.members@);
    let mid = "</h3><ul>"@;
    let end = "</ul></section>"@;
    assert(html =~= (typed + "><h3>"@) + name + (mid + members + end));
    lemma_occurs_itself(typed + "><h3>"@, name, mid + members + end, html);
    let tail = "><h3>"@ + name + mid + members + end;
    match group.collection_type {
        Some(t) => {
            let kind = " data-collection-type=\""@ + pages::escaped(t@) + "\""@;
            assert(html =~= head + kind + tail);
            lemma_occurs_itself(head, kind, tail, html);
            assert(html =~= open + id + ("\""@ + kind + tail));
            lemma_occurs_itself(open, id, "\""@ + kind + tail, html);
        },
        None => {
            assert(html =~= open + id + ("\""@ + tail));
            lemma_occurs_itself(open, id, "\""@ + tail, html);
        },
    }
    let before = typed + "><h3>"@ + name + mid;
    assert forall|i: int| 0 <= i < group.members@.len() implies text::occurs(
        html,
        pages::member_html(#[trigger] group.members@[i]),
    ) by {
        lemma_members_shown(group.members@, i);
        assert(html =~= before + members + end);
        lemma_occurs_inside(before, members, end, pages::member_html(group.members@[i]), html);
    }
}

proof fn lemma_members_shown(members: Seq<LibraryGroupMemberView>, i: int)
    requires
        0 <= i < members.len(),
    ensures
        text::occurs(pages::members_html(members), pages::member_html(members[i])),
    decreases members.len(),
{
    let fewer = members.drop_last();
    let before = pages::members_html(fewer);
    let last = pages::member_html(members.last());
    let none = Seq::<char>::empty();
    let all = pages::members_html(members);
    if i < fewer.len() {
        lemma_members_shown(fewer, i);
        assert(fewer[i] == members[i]);
        assert(all =~= none + before + last);
        lemma_occurs_inside(none, before, last, pages::member_html(members[i]), all);
    } else {
        assert(all =~= before + last + none);
        lemma_occurs_itself(before, last, none, all);
    }
}

/// A member's markup shows its library's name, its server's name and its library's
/// identifier, under its server's number.
pub proof fn law_member_markup_shows_the_library(member: LibraryGroupMemberView)
    ensures
        text::occurs(pages::member_html(member), pages::escaped(member.library_name@)),
        text::occurs(pages::member_html(member), pages::escaped(member.server_name@)),
        text::occurs(pages::member_html(member), pages::escaped(member.original_library_id@)),
        text::occurs(pages::member_html(member), text::decimal(member.server_id as int)),
{
    let html = pages::member_html(member);
    let a = "<li data-server-id=\""@;
    let b = "\" data-library-id=\""@;
    let c = "\">"@;
    let d = " ("@;
    let e = ")</li>"@;
    let number = text::decimal(member.server_id as int);
    let id = pages::escaped(member.original_library_id@);
    let name = pages::escaped(member.library_name@);
    let server = pages::escaped(member.server_name@);
    assert(html =~= a + number + (b + id + c + name + d + server + e));
    lemma_occurs_itself(a, number, b + id + c + name + d + server + e, html);
    assert(html =~= (a + number + b) + id + (c + name + d + server + e));
    lemma_occurs_itself(a + number + b, id, c + name + d + server + e, html);
    assert(html =~= (a + number + b + id + c) + name + (d + server + e));
    lemma_occurs_itself(a + number + b + id + c, name, d + server + e, html);
    assert(html =~= (a + number + b + id + c + name + d) + server + e);
    lemma_occurs_itself(a + number + b + id + c + name + d, server, e, html);
}

} // verus!
