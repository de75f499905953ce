//! What stands in the markup of a library's card and of the page.
use vstd::prelude::*;
use crate::libraries::board::{
    DiscoveredLibraryView, LibraryGroupMemberView, LibraryGroupOptionView, LibraryGroupView,
};
use crate::libraries::board_laws;
use crate::libraries::pages;
use crate::text;

verus! {

/// An option's markup chooses the group by its identifier and shows its name.
pub proof fn law_option_markup_names_the_group(option: LibraryGroupOptionView)
    ensures
        text::occurs(
            pages::option_html(option),
            "value=\""@ + pages::escaped(option.virtual_id@) + "\""@,
        ),
        text::occurs(pages::option_html(option), ">"@ + pages::escaped(option.name@) + "<"@),
{
    reveal_strlit("<option value=\"");
    reveal_strlit("<option ");
    reveal_strlit("value=\"");
    reveal_strlit("\">");
    reveal_strlit("\"");
    reveal_strlit(">");
    reveal_strlit("<");
    reveal_strlit("</option>");
    reveal_strlit("/option>");
    let html = pages::option_html(option);
    let id = pages::escaped(option.virtual_id@);
    let name = pages::escaped(option.name@);
    assert("<option value=\""@ =~= "<option "@ + "value=\""@);
    assert("\">"@ =~= "\""@ + ">"@);
    assert("</option>"@ =~= "<"@ + "/option>"@);
    assert(html =~= "<option "@ + ("value=\""@ + id + "\""@) + (">"@ + name + "</option>"@));
    board_laws::lemma_occurs_itself(
        "<option "@,
        "value=\""@ + id + "\""@,
        ">"@ + name + "</option>"@,
        html,
    );
    assert(html =~= ("<option "@ + "value=\""@ + id + "\""@) + (">"@ + name + "<"@) + "/option>"@);
    board_laws::lemma_occurs_itself(
        "<option "@ + "value=\""@ + id + "\""@,
        ">"@ + name + "<"@,
        "/option>"@,
        html,
    );
}

proof fn lemma_options_shown(options: Seq<LibraryGroupOptionView>, i: int)
    requires
        0 <= i < options.len(),
    ensures
        text::occurs(pages::options_html(options), pages::option_html(options[i])),
    decreases options.len(),
{
    let fewer = options.drop_last();
    let before = pages::options_html(fewer);
    let last = pages::option_html(options.last());
    let none = Seq::<char>::empty();
    let all = pages::options_html(options);
    if i < fewer.len() {
        lemma_options_shown(fewer, i);
        assert(fewer[i] == options[i]);
        assert(all =~= none + before + last);
        board_laws::lemma_occurs_inside(
            none,
            before,
            last,
            pages::option_html(options[i]),
            all,
        );
    } else {
        assert(all =~= before + last + none);
        board_laws::lemma_occurs_itself(before, last, none, all);
    }
}

/// A library's card shows its name and its server's, its identifier and its type;
/// the group that it is assigned to, where there is one; and every group that it
/// can be assigned to. It can be dragged exactly where there is such a group.
pub proof fn law_card_shows_the_library(library: DiscoveredLibraryView, ui_route: Seq<char>)
    ensures
        ({
            let html = pages::library_html(library, ui_route);
            &&& text::occurs(
                html,
                "<strong>"@ + pages::escaped(library.library_name@) + "</strong> "@
                    + pages::escaped(library.server_name@),
            )
            &&& text::occurs(
                html,
                "name=\"server_id\" value=\""@ + text::decimal(library.server_id as int) + "\""@,
            )
            &&& text::occurs(
                html,
                "name=\"library_id\" value=\""@ + pages::escaped(library.library_id@) + "\""@,
            )
            &&& text::occurs(
                html,
                "data-collection-type=\""@ + pages::escaped(library.collection_type@) + "\""@,
            )
            &&& library.assigned_group matches Some(name) ==> text::occurs(
                html,
                "<em>"@ + pages::escaped(name@) + "</em>"@,
            )
            &&& forall|i: int|
                0 <= i < library.assignable_groups@.len() ==> text::occurs(
                    html,
                    pages::option_html(#[trigger] library.assignable_groups@[i]),
                )
            &&& library.assignable_groups@.len() > 0 ==> text::occurs(
                html,
                "draggable=\"true\""@,
            )
            &&& library.assignable_groups@.len() == 0 ==> text::occurs(
                html,
                "draggable=\"false\""@,
            )
            &&& text::occurs(html, "hx-post=\"/"@ + pages::escaped(ui_route) + "/libraries/assign\""@)
        }),
{
    let number = text::decimal(library.server_id as int);
    let id = pages::escaped(library.library_id@);
    let kind = pages::escaped(library.collection_type@);
    let name = pages::escaped(library.library_name@);
    let server = pages::escaped(library.server_name@);
    let route = pages::escaped(ui_route);
    let options = pages::options_html(library.assignable_groups@);
    let can = library.assignable_groups@.len() > 0;
    let front = "<article data-library-card data-server-id=\""@ + number
        + "\" data-library-id=\""@ + id;
    let dragged = front + "\" data-collection-type=\""@ + kind + drag_markup(can);
    let named = dragged + "<span data-library-drag-handle></span><strong>"@ + name
        + "</strong> "@ + server;
    let assigned = match library.assigned_group {
        Some(n) => named + " <em>"@ + pages::escaped(n@) + "</em>"@,
        None => named,
    };
    let form = FormParts { route, number, id, options };
    let html = form_markup(assigned, form);
    assert(html == pages::library_html(library, ui_route));
    lemma_top_shown(front, kind, can);
    lemma_names_shown(dragged, name, server);
    lemma_tail_kept(dragged, "<span data-library-drag-handle></span><strong>"@, name, "</strong> "@, server);
    let typed = "data-collection-type=\""@ + kind + "\""@;
    let drags = if can {
        "draggable=\"true\""@
    } else {
        "draggable=\"false\""@
    };
    let titled = "<strong>"@ + name + "</strong> "@ + server;
    assert(text::occurs(named, typed));
    assert(text::occurs(named, drags));
    match library.assigned_group {
        Some(n) => {
            lemma_assignment_shown(named, pages::escaped(n@));
            lemma_grown(named, " <em>"@, typed);
            lemma_grown(named + " <em>"@, pages::escaped(n@), typed);
            lemma_grown(named + " <em>"@ + pages::escaped(n@), "</em>"@, typed);
            lemma_grown(named, " <em>"@, drags);
            lemma_grown(named + " <em>"@, pages::escaped(n@), drags);
            lemma_grown(named + " <em>"@ + pages::escaped(n@), "</em>"@, drags);
            lemma_grown(named, " <em>"@, titled);
            lemma_grown(named + " <em>"@, pages::escaped(n@), titled);
            lemma_grown(named + " <em>"@ + pages::escaped(n@), "</em>"@, titled);
            lemma_form_kept(assigned, form, "<em>"@ + pages::escaped(n@) + "</em>"@);
        },
        None => {},
    }
    lemma_form_kept(assigned, form, typed);
    lemma_form_kept(assigned, form, drags);
    lemma_form_kept(assigned, form, titled);
    lemma_form_shown(assigned, form);
    assert forall|o: int| 0 <= o < library.assignable_groups@.len() implies text::occurs(
        html,
        pages::option_html(#[trigger] library.assignable_groups@[o]),
    ) by {
        lemma_options_shown(library.assignable_groups@, o);
        lemma_options_kept(assigned, form, pages::option_html(library.assignable_groups@[o]));
    }
}

/// How a card says whether it can be dragged.
spec fn drag_markup(can: bool) -> Seq<char> {
    if can {
        "\" data-can-drag=\"true\" draggable=\"true\">"@
    } else {
        "\" data-can-drag=\"false\" draggable=\"false\">"@
    }
}

/// What the form of a card is filled with.
ghost struct FormParts {
    route: Seq<char>,
    number: Seq<char>,
    id: Seq<char>,
    options: Seq<char>,
}

/// A card with its form behind what stands before it.
spec fn form_markup(before: Seq<char>, form: FormParts) -> Seq<char> {
    before
        + "<button type=\"button\" title=\"Add to existing library\" aria-haspopup=\"true\">+</button><div data-library-popover><form class=\"library-assignment-form\" hx-post=\"/"@
        + form.route + "/libraries/assign\"><input type=\"hidden\" name=\"server_id\" value=\""@
        + form.number + "\"><input type=\"hidden\" name=\"library_id\" value=\""@ + form.id
        + "\"><select name=\"group_virtual_id\">"@ + form.options
        + "</select><button type=\"submit\">Add</button></form></div></article>"@
}

proof fn lemma_grown(a: Seq<char>, b: Seq<char>, d: Seq<char>)
    requires
        text::occurs(a, d),
    ensures
        text::occurs(a + b, d),
{
    let none = Seq::<char>::empty();
    assert(a + b =~= none + a + b);
    board_laws::lemma_occurs_inside(none, a, b, d, a + b);
}

proof fn lemma_ended(a: Seq<char>, b: Seq<char>, d: Seq<char>)
    requires
        text::occurs(b, d),
    ensures
        text::occurs(a + b, d),
{
    let none = Seq::<char>::empty();
    assert(a + b =~= a + b + none);
    board_laws::lemma_occurs_inside(a, b, none, d, a + b);
}

proof fn lemma_spans(
    before: Seq<char>,
    x1: Seq<char>,
    x2: Seq<char>,
    y: Seq<char>,
    z1: Seq<char>,
    z2: Seq<char>,
)
    ensures
        text::occurs(before + (x1 + x2) + y + (z1 + z2), x2 + y + z1),
{
    let all = before + (x1 + x2) + y + (z1 + z2);
    assert(all =~= (before + x1) + (x2 + y + z1) + z2);
    board_laws::lemma_occurs_itself(before + x1, x2 + y + z1, z2, all);
}

proof fn lemma_top_shown(front: Seq<char>, kind: Seq<char>, can: bool)
    ensures
        ({
            let all = front + "\" data-collection-type=\""@ + kind + drag_markup(can);
            &&& text::occurs(all, "data-collection-type=\""@ + kind + "\""@)
            &&& can ==> text::occurs(all, "draggable=\"true\""@)
            &&& !can ==> text::occurs(all, "draggable=\"false\""@)
        }),
{
    reveal_strlit("\" data-collection-type=\"");
    reveal_strlit("\" ");
    reveal_strlit("data-collection-type=\"");
    reveal_strlit("\"");
    reveal_strlit(">");
    assert("\" data-collection-type=\""@ =~= "\" "@ + "data-collection-type=\""@);
    let so_far = front + "\" data-collection-type=\""@ + kind;
    if can {
        reveal_strlit("\" data-can-drag=\"true\" draggable=\"true\">");
        reveal_strlit(" data-can-drag=\"true\" draggable=\"true\">");
        reveal_strlit("\" data-can-drag=\"true\" ");
        reveal_strlit("draggable=\"true\"");
        let drag = "\" data-can-drag=\"true\" draggable=\"true\">"@;
        let rest = " data-can-drag=\"true\" draggable=\"true\">"@;
        assert(drag =~= "\""@ + rest);
        lemma_spans(front, "\" "@, "data-collection-type=\""@, kind, "\""@, rest);
        assert(drag =~= "\" data-can-drag=\"true\" "@ + "draggable=\"true\""@ + ">"@);
        board_laws::lemma_occurs_itself(
            "\" data-can-drag=\"true\" "@,
            "draggable=\"true\""@,
            ">"@,
            drag,
        );
        lemma_ended(so_far, drag, "draggable=\"true\""@);
    } else {
        reveal_strlit("\" data-can-drag=\"false\" draggable=\"false\">");
        reveal_strlit(" data-can-drag=\"false\" draggable=\"false\">");
        reveal_strlit("\" data-can-drag=\"false\" ");
        reveal_strlit("draggable=\"false\"");
        let drag = "\" data-can-drag=\"false\" draggable=\"false\">"@;
        let rest = " data-can-drag=\"false\" draggable=\"false\">"@;
        assert(drag =~= "\""@ + rest);
        lemma_spans(front, "\" "@, "data-collection-type=\""@, kind, "\""@, rest);
        assert(drag =~= "\" data-can-drag=\"false\" "@ + "draggable=\"false\""@ + ">"@);
        board_laws::lemma_occurs_itself(
            "\" data-can-drag=\"false\" "@,
            "draggable=\"false\""@,
            ">"@,
            drag,
        );
        lemma_ended(so_far, drag, "draggable=\"false\""@);
    }
}

proof fn lemma_names_shown(before: Seq<char>, name: Seq<char>, server: Seq<char>)
    ensures
        text::occurs(
            before + "<span data-library-drag-handle></span><strong>"@ + name + "</strong> "@
                + server,
            "<strong>"@ + name + "</strong> "@ + server,
        ),
{
    reveal_strlit("<span data-library-drag-handle></span><strong>");
    reveal_strlit("<span data-library-drag-handle></span>");
    reveal_strlit("<strong>");
    let span = "<span data-library-drag-handle></span>"@;
    let both = "<span data-library-drag-handle></span><strong>"@;
    let end = "</strong> "@;
    assert(both =~= span + "<strong>"@);
    let all = before + both + name + end + server;
    let shown = "<strong>"@ + name + end + server;
    let none = Seq::<char>::empty();
    assert(all =~= (before + span) + shown + none);
    board_laws::lemma_occurs_itself(before + span, shown, none, all);
}

proof fn lemma_tail_kept(
    a: Seq<char>,
    b: Seq<char>,
    c: Seq<char>,
    d: Seq<char>,
    e: Seq<char>,
)
    ensures
        forall|x: Seq<char>| #[trigger]
            text::occurs(a, x) ==> text::occurs(a + b + c + d + e, x),
{
    assert forall|x: Seq<char>| #[trigger] text::occurs(a, x) implies text::occurs(
        a + b + c + d + e,
        x,
    ) by {
        lemma_grown(a, b, x);
        lemma_grown(a + b, c, x);
        lemma_grown(a + b + c, d, x);
        lemma_grown(a + b + c + d, e, x);
    }
}

proof fn lemma_assignment_shown(named: Seq<char>, name: Seq<char>)
    ensures
        text::occurs(named + " <em>"@ + name + "</em>"@, "<em>"@ + name + "</em>"@),
{
    reveal_strlit(" <em>");
    reveal_strlit(" ");
    reveal_strlit("<em>");
    assert(" <em>"@ =~= " "@ + "<em>"@);
    let none = Seq::<char>::empty();
    lemma_spans(named, " "@, "<em>"@, name, "</em>"@, none);
    assert("</em>"@ + none =~= "</em>"@);
}

proof fn lemma_form_kept(before: Seq<char>, form: FormParts, x: Seq<char>)
    requires
        text::occurs(before, x),
    ensures
        text::occurs(form_markup(before, form), x),
{
    let g =
        "<button type=\"button\" title=\"Add to existing library\" aria-haspopup=\"true\">+</button><div data-library-popover><form class=\"library-assignment-form\" hx-post=\"/"@;
    let h = "/libraries/assign\"><input type=\"hidden\" name=\"server_id\" value=\""@;
    let i = "\"><input type=\"hidden\" name=\"library_id\" value=\""@;
    let j = "\"><select name=\"group_virtual_id\">"@;
    let k = "</select><button type=\"submit\">Add</button></form></div></article>"@;
    lemma_tail_kept(before, g, form.route, h, form.number);
    let s = before + g + form.route + h + form.number;
    assert(text::occurs(s, x));
    lemma_tail_kept(s, i, form.id, j, form.options);
    let t = s + i + form.id + j + form.options;
    assert(text::occurs(t, x));
    lemma_grown(t, k, x);
}

proof fn lemma_options_kept(before: Seq<char>, form: FormParts, x: Seq<char>)
    requires
        text::occurs(form.options, x),
    ensures
        text::occurs(form_markup(before, form), x),
{
    let g =
        "<button type=\"button\" title=\"Add to existing library\" aria-haspopup=\"true\">+</button><div data-library-popover><form class=\"library-assignment-form\" hx-post=\"/"@;
    let h = "/libraries/assign\"><input type=\"hidden\" name=\"server_id\" value=\""@;
    let i = "\"><input type=\"hidden\" name=\"library_id\" value=\""@;
    let j = "\"><select name=\"group_virtual_id\">"@;
    let k = "</select><button type=\"submit\">Add</button></form></div></article>"@;
    let s = before + g + form.route + h + form.number + i + form.id + j;
    lemma_ended(s, form.options, x);
    lemma_grown(s + form.options, k, x);
}

proof fn lemma_form_shown(before: Seq<char>, form: FormParts)
    ensures
        ({
            let html = form_markup(before, form);
            &&& text::occurs(html, "hx-post=\"/"@ + form.route + "/libraries/assign\""@)
            &&& text::occurs(html, "name=\"server_id\" value=\""@ + form.number + "\""@)
            &&& text::occurs(html, "name=\"library_id\" value=\""@ + form.id + "\""@)
        }),
{
    reveal_strlit(
        "<button type=\"button\" title=\"Add to existing library\" aria-haspopup=\"true\">+</button><div data-library-popover><form class=\"library-assignment-form\" hx-post=\"/",
    );
    reveal_strlit(
        "<button type=\"button\" title=\"Add to existing library\" aria-haspopup=\"true\">+</button><div data-library-popover><form class=\"library-assignment-form\" ",
    );
    reveal_strlit("hx-post=\"/");
    reveal_strlit("/libraries/assign\"><input type=\"hidden\" name=\"server_id\" value=\"");
    reveal_strlit("/libraries/assign\"");
    reveal_strlit("><input type=\"hidden\" name=\"server_id\" value=\"");
    reveal_strlit("/libraries/assign\"><input type=\"hidden\" ");
    reveal_strlit("name=\"server_id\" value=\"");
    reveal_strlit("\"><input type=\"hidden\" name=\"library_id\" value=\"");
    reveal_strlit("\"");
    reveal_strlit("><input type=\"hidden\" name=\"library_id\" value=\"");
    reveal_strlit("\"><input type=\"hidden\" ");
    reveal_strlit("name=\"library_id\" value=\"");
    reveal_strlit("\"><select name=\"group_virtual_id\">");
    reveal_strlit("><select name=\"group_virtual_id\">");
    let g1 =
        "<button type=\"button\" title=\"Add to existing library\" aria-haspopup=\"true\">+</button><div data-library-popover><form class=\"library-assignment-form\" "@;
    let post = "hx-post=\"/"@;
    let g =
        "<button type=\"button\" title=\"Add to existing library\" aria-haspopup=\"true\">+</button><div data-library-popover><form class=\"library-assignment-form\" hx-post=\"/"@;
    let assign = "/libraries/assign\""@;
    let h2 = "><input type=\"hidden\" name=\"server_id\" value=\""@;
    let h1 = "/libraries/assign\"><input type=\"hidden\" "@;
    let sid = "name=\"server_id\" value=\""@;
    let h = "/libraries/assign\"><input type=\"hidden\" name=\"server_id\" value=\""@;
    let quote = "\""@;
    let i2 = "><input type=\"hidden\" name=\"library_id\" value=\""@;
    let i1 = "\"><input type=\"hidden\" "@;
    let lid = "name=\"library_id\" value=\""@;
    let i = "\"><input type=\"hidden\" name=\"library_id\" value=\""@;
    let j2 = "><select name=\"group_virtual_id\">"@;
    let j = "\"><select name=\"group_virtual_id\">"@;
    let k = "</select><button type=\"submit\">Add</button></form></div></article>"@;
    assert(g =~= g1 + post);
    assert(h =~= assign + h2);
    assert(h =~= h1 + sid);
    assert(i =~= quote + i2);
    assert(i =~= i1 + lid);
    assert(j =~= quote + j2);
    let s3 = before + g + form.route + h;
    let s5 = s3 + form.number + i;
    let s7 = s5 + form.id + j;
    let p1 = post + form.route + assign;
    let p2 = sid + form.number + quote;
    let p3 = lid + form.id + quote;
    lemma_spans(before, g1, post, form.route, assign, h2);
    lemma_spans(before + g + form.route, h1, sid, form.number, quote, i2);
    lemma_spans(s3 + form.number, i1, lid, form.id, quote, j2);
    lemma_tail_kept(s3, form.number, i, form.id, j);
    lemma_grown(s5, form.id, p2);
    lemma_grown(s5 + form.id, j, p2);
    assert(text::occurs(s3, p1));
    assert(text::occurs(s7, p1));
    assert(text::occurs(s7, p2));
    assert(text::occurs(s7, p3));
    lemma_grown(s7, form.options, p1);
    lemma_grown(s7, form.options, p2);
    lemma_grown(s7, form.options, p3);
    lemma_grown(s7 + form.options, k, p1);
    lemma_grown(s7 + form.options, k, p2);
    lemma_grown(s7 + form.options, k, p3);
}

/// The control says whether merging is on, and shows an error exactly where there
/// is one; the page holds the control.
pub proof fn law_control_shows_setting_and_error(
    enabled: bool,
    has_error: bool,
    error: Seq<char>,
    ui_route: Seq<char>,
)
    ensures
        ({
            let html = pages::control_html(enabled, has_error, error, ui_route);
            &&& enabled ==> text::occurs(html, " checked> Enabled</label>"@)
            &&& !enabled ==> text::occurs(html, "> Disabled</label>"@)
            &&& has_error ==> text::occurs(html, pages::escaped(error))
            &&& !has_error ==> html == pages::control_html(enabled, false, Seq::empty(), ui_route)
            &&& text::occurs(html, pages::escaped(ui_route))
            &&& text::occurs(pages::page_html(enabled, has_error, error, ui_route), html)
        }),
{
    let html = pages::control_html(enabled, has_error, error, ui_route);
    let a =
        "<label><input type=\"checkbox\" name=\"merge_libraries\" value=\"true\" hx-patch=\"/"@;
    let b = "/libraries/merge-libraries\" hx-target=\"#merge-libraries-control\""@;
    let route = pages::escaped(ui_route);
    let setting = if enabled {
        " checked> Enabled</label>"@
    } else {
        "> Disabled</label>"@
    };
    let shown = if has_error {
        "<div class=\"alert alert-error\">"@ + pages::escaped(error) + "</div>"@
    } else {
        Seq::empty()
    };
    assert(html =~= (a + route + b) + setting + shown);
    board_laws::lemma_occurs_itself(a + route + b, setting, shown, html);
    assert(html =~= a + route + (b + setting + shown));
    board_laws::lemma_occurs_itself(a, route, b + setting + shown, html);
    if has_error {
        let front = a + route + b + setting + "<div class=\"alert alert-error\">"@;
        assert(html =~= front + pages::escaped(error) + "</div>"@);
        board_laws::lemma_occurs_itself(front, pages::escaped(error), "</div>"@, html);
    }
    let page = pages::page_html(enabled, has_error, error, ui_route);
    let open = "<section id=\"libraries\"><div id=\"merge-libraries-control\">"@;
    let end = "</div><div hx-get=\"/"@ + route
        + "/libraries/groups\" hx-trigger=\"load\"></div></section>"@;
    assert(page =~= open + html + end);
    board_laws::lemma_occurs_itself(open, html, end, page);
}

/// Escaping goes character by character.
pub proof fn law_escaping_goes_character_by_character(a: Seq<char>, b: Seq<char>)
    ensures
        pages::escaped(a + b) == pages::escaped(a) + pages::escaped(b),
    decreases a.len(),
{
    if a.len() > 0 {
        law_escaping_goes_character_by_character(a.skip(1), b);
        assert((a + b).skip(1) =~= a.skip(1) + b);
        assert((a + b)[0] == a[0]);
        assert(pages::escaped(a + b) =~= pages::escaped(a) + pages::escaped(b));
    } else {
        assert(a + b =~= b);
        assert(pages::escaped(a) + pages::escaped(b) =~= pages::escaped(b));
    }
}

/// Members, groups, options and libraries are drawn one after the other, in their
/// order, each once.
pub proof fn law_lists_are_drawn_in_order(
    members: Seq<LibraryGroupMemberView>,
    member: LibraryGroupMemberView,
    groups: Seq<LibraryGroupView>,
    group: LibraryGroupView,
    options: Seq<LibraryGroupOptionView>,
    option: LibraryGroupOptionView,
    libraries: Seq<DiscoveredLibraryView>,
    library: DiscoveredLibraryView,
    ui_route: Seq<char>,
)
    ensures
        pages::members_html(Seq::empty()).len() == 0,
        pages::members_html(members.push(member)) == pages::members_html(members)
            + pages::member_html(member),
        pages::groups_html(Seq::empty()).len() == 0,
        pages::groups_html(groups.push(group)) == pages::groups_html(groups) + pages::group_html(
            group,
        ),
        pages::options_html(Seq::empty()).len() == 0,
        pages::options_html(options.push(option)) == pages::options_html(options)
            + pages::option_html(option),
        pages::libraries_html(Seq::empty(), ui_route).len() == 0,
        pages::libraries_html(libraries.push(library), ui_route) == pages::libraries_html(
            libraries,
            ui_route,
        ) + pages::library_html(library, ui_route),
{
    assert(members.push(member).drop_last() =~= members);
    assert(groups.push(group).drop_last() =~= groups);
    assert(options.push(option).drop_last() =~= options);
    assert(libraries.push(library).drop_last() =~= libraries);
}

} // verus!
