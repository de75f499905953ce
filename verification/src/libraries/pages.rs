//! The markup of the pages on libraries.
//!
//! Every text that comes from outside is escaped, so that it stands in the
//! markup as text and as nothing else.
use vstd::prelude::*;
use crate::libraries::board::{
    DiscoveredLibraryView, LibraryGroupMemberView, LibraryGroupOptionView, LibraryGroupView,
    LibraryGroupsListTemplate,
};
use crate::libraries::responses::{LibrariesPageTemplate, MergeLibrariesControlTemplate};
use crate::text;
use crate::text::number_text;

verus! {

/// A character as it stands in markup.
pub open spec fn escaped_char(c: char) -> Seq<char> {
    if c == '"' {
        seq!['&', '#', '3', '4', ';']
    } else if c == '&' {
        seq!['&', '#', '3', '8', ';']
    } else if c == '\'' {
        seq!['&', '#', '3', '9', ';']
    } else if c == '<' {
        seq!['&', '#', '6', '0', ';']
    } else if c == '>' {
        seq!['&', '#', '6', '2', ';']
    } else {
        seq![c]
    }
}

/// A text as it stands in markup.
pub open spec fn escaped(s: Seq<char>) -> Seq<char>
    decreases s.len(),
{
    if s.len() == 0 {
        Seq::empty()
    } else {
        escaped_char(s[0]) + escaped(s.skip(1))
    }
}

/// `askama::filters::escape` with `askama::filters::Html`: the five characters
/// that mean something in markup become character references, every other one
/// stays.
#[verifier::external_body]
fn escape_html(text: &str) -> (safe: String)
    ensures
        safe@ == escaped(text@),
{
    askama::filters::escape(text, askama::filters::Html).unwrap().to_string()
}

/// Escaped text holds no quotation mark and no angle bracket.
pub proof fn law_escaped_text_is_inert(s: Seq<char>)
    ensures
        forall|i: int|
            0 <= i < escaped(s).len() ==> {
                let c = #[trigger] escaped(s)[i];
                c != '"' && c != '\'' && c != '<' && c != '>'
            },
    decreases s.len(),
{
    if s.len() > 0 {
        law_escaped_text_is_inert(s.skip(1));
        assert forall|i: int| 0 <= i < escaped(s).len() implies {
            let c = #[trigger] escaped(s)[i];
            c != '"' && c != '\'' && c != '<' && c != '>'
        } by {
            let n = escaped_char(s[0]).len();
            if i < n {
                assert(escaped(s)[i] == escaped_char(s[0])[i]);
            } else {
                assert(escaped(s)[i] == escaped(s.skip(1))[i - n]);
            }
        }
    }
}

/// Two texts that are the same in markup are the same.
pub proof fn law_escaping_loses_nothing(a: Seq<char>, b: Seq<char>)
    requires
        escaped(a) == escaped(b),
    ensures
        a == b,
    decreases a.len(),
{
    let x = escaped(a);
    if a.len() > 0 && b.len() > 0 {
        let ea = escaped_char(a[0]);
        let eb = escaped_char(b[0]);
        assert(x[0] == ea[0]);
        assert(x[0] == eb[0]);
        assert(ea.len() == eb.len());
        if ea.len() == 5 {
            assert(x[2] == ea[2] && x[3] == ea[3]);
            assert(x[2] == eb[2] && x[3] == eb[3]);
        }
        assert(a[0] == b[0]);
        assert(x.skip(ea.len() as int) =~= escaped(a.skip(1)));
        assert(x.skip(ea.len() as int) =~= escaped(b.skip(1)));
        law_escaping_loses_nothing(a.skip(1), b.skip(1));
        assert(a =~= seq![a[0]] + a.skip(1));
        assert(b =~= seq![b[0]] + b.skip(1));
    } else if a.len() > 0 {
        assert(x.len() >= escaped_char(a[0]).len());
    } else if b.len() > 0 {
        assert(x.len() >= escaped_char(b[0]).len());
    }
}

/// The control for automatic merging.
pub open spec fn control_html(
    enabled: bool,
    has_error: bool,
    error: Seq<char>,
    ui_route: Seq<char>,
) -> Seq<char> {
    let head = "<label><input type=\"checkbox\" name=\"merge_libraries\" value=\"true\" hx-patch=\"/"@
        + escaped(ui_route)
        + "/libraries/merge-libraries\" hx-target=\"#merge-libraries-control\""@;
    let labelled = if enabled {
        head + " checked> Enabled</label>"@
    } else {
        head + "> Disabled</label>"@
    };
    if has_error {
        labelled + "<div class=\"alert alert-error\">"@ + escaped(error) + "</div>"@
    } else {
        labelled
    }
}

fn control_markup(enabled: bool, has_error: bool, error: &str, ui_route: &str) -> (html: String)
    ensures
        html@ == control_html(enabled, has_error, error@, ui_route@),
{
    let mut html =
        "<label><input type=\"checkbox\" name=\"merge_libraries\" value=\"true\" hx-patch=\"/".to_owned();
    html.append(escape_html(ui_route).as_str());
    html.append("/libraries/merge-libraries\" hx-target=\"#merge-libraries-control\"");
    if enabled {
        html.append(" checked> Enabled</label>");
    } else {
        html.append("> Disabled</label>");
    }
    if has_error {
        html.append("<div class=\"alert alert-error\">");
        html.append(escape_html(error).as_str());
        html.append("</div>");
    }
    html
}

impl MergeLibrariesControlTemplate {
    /// The markup of the control.
    pub fn render(&self) -> (html: Result<String, String>)
        ensures
            html matches Ok(h) && h@ == control_html(
                self.merge_libraries,
                self.has_merge_libraries_error,
                self.merge_libraries_error@,
                self.ui_route@,
            ),
    {
        Ok(
            control_markup(
                self.merge_libraries,
                self.has_merge_libraries_error,
                self.merge_libraries_error.as_str(),
                self.ui_route.as_str(),
            ),
        )
    }
}

/// The page: the control, and a place for the board.
pub open spec fn page_html(
    enabled: bool,
    has_error: bool,
    error: Seq<char>,
    ui_route: Seq<char>,
) -> Seq<char> {
    "<section id=\"libraries\"><div id=\"merge-libraries-control\">"@ + control_html(
        enabled,
        has_error,
        error,
        ui_route,
    ) + "</div><div hx-get=\"/"@ + escaped(ui_route)
        + "/libraries/groups\" hx-trigger=\"load\"></div></section>"@
}

impl LibrariesPageTemplate {
    /// The markup of the page.
    pub fn render(&self) -> (html: Result<String, String>)
        ensures
            html matches Ok(h) && h@ == page_html(
                self.merge_libraries,
                self.has_merge_libraries_error,
                self.merge_libraries_error@,
                self.ui_route@,
            ),
    {
        let mut html = "<section id=\"libraries\"><div id=\"merge-libraries-control\">".to_owned();
        html.append(
            control_markup(
                self.merge_libraries,
                self.has_merge_libraries_error,
                self.merge_libraries_error.as_str(),
                self.ui_route.as_str(),
            ).as_str(),
        );
        html.append("</div><div hx-get=\"/");
        html.append(escape_html(self.ui_route.as_str()).as_str());
        html.append("/libraries/groups\" hx-trigger=\"load\"></div></section>");
        Ok(html)
    }
}

/// A member of a group.
pub open spec fn member_html(member: LibraryGroupMemberView) -> Seq<char> {
    "<li data-server-id=\""@ + text::decimal(member.server_id as int) + "\" data-library-id=\""@
        + escaped(member.original_library_id@) + "\">"@ + escaped(member.library_name@) + " ("@
        + escaped(member.server_name@) + ")</li>"@
}

/// The members of a group, one after the other.
pub open spec fn members_html(members: Seq<LibraryGroupMemberView>) -> Seq<char>
    decreases members.len(),
{
    if members.len() == 0 {
        Seq::empty()
    } else {
        members_html(members.drop_last()) + member_html(members.last())
    }
}

/// A group: a place that libraries can be dropped on, with its members.
pub open spec fn group_html(group: LibraryGroupView) -> Seq<char> {
    let head = "<section data-library-dropzone data-group-id=\""@ + escaped(group.virtual_id@)
        + "\""@;
    let typed = match group.collection_type {
        Some(t) => head + " data-collection-type=\""@ + escaped(t@) + "\""@,
        None => head,
    };
    typed + "><h3>"@ + escaped(group.name@) + "</h3><ul>"@ + members_html(group.members@)
        + "</ul></section>"@
}

/// The groups, one after the other.
pub open spec fn groups_html(groups: Seq<LibraryGroupView>) -> Seq<char>
    decreases groups.len(),
{
    if groups.len() == 0 {
        Seq::empty()
    } else {
        groups_html(groups.drop_last()) + group_html(groups.last())
    }
}

/// A group that a library could join.
pub open spec fn option_html(option: LibraryGroupOptionView) -> Seq<char> {
    "<option value=\""@ + escaped(option.virtual_id@) + "\">"@ + escaped(option.name@)
        + "</option>"@
}

/// The groups that a library could join, one after the other.
pub open spec fn options_html(options: Seq<LibraryGroupOptionView>) -> Seq<char>
    decreases options.len(),
{
    if options.len() == 0 {
        Seq::empty()
    } else {
        options_html(options.drop_last()) + option_html(options.last())
    }
}

/// A library: a card, which can be dragged where the library could join a group,
/// with a form that assigns it.
pub open spec fn library_html(library: DiscoveredLibraryView, ui_route: Seq<char>) -> Seq<char> {
    let head = "<article data-library-card data-server-id=\""@ + text::decimal(
        library.server_id as int,
    ) + "\" data-library-id=\""@ + escaped(library.library_id@) + "\" data-collection-type=\""@
        + escaped(library.collection_type@);
    let dragged = if library.assignable_groups@.len() > 0 {
        head + "\" data-can-drag=\"true\" draggable=\"true\">"@
    } else {
        head + "\" data-can-drag=\"false\" draggable=\"false\">"@
    };
    let named = dragged + "<span data-library-drag-handle></span><strong>"@ + escaped(
        library.library_name@,
    ) + "</strong> "@ + escaped(library.server_name@);
    let assigned = match library.assigned_group {
        Some(name) => named + " <em>"@ + escaped(name@) + "</em>"@,
        None => named,
    };
    assigned
        + "<button type=\"button\" title=\"Add to existing library\" aria-haspopup=\"true\">+</button><div data-library-popover><form class=\"library-assignment-form\" hx-post=\"/"@
        + escaped(ui_route)
        + "/libraries/assign\"><input type=\"hidden\" name=\"server_id\" value=\""@
        + text::decimal(library.server_id as int)
        + "\"><input type=\"hidden\" name=\"library_id\" value=\""@ + escaped(
        library.library_id@,
    ) + "\"><select name=\"group_virtual_id\">"@ + options_html(library.assignable_groups@)
        + "</select><button type=\"submit\">Add</button></form></div></article>"@
}

/// The libraries, one after the other.
pub open spec fn libraries_html(
    libraries: Seq<DiscoveredLibraryView>,
    ui_route: Seq<char>,
) -> Seq<char>
    decreases libraries.len(),
{
    if libraries.len() == 0 {
        Seq::empty()
    } else {
        libraries_html(libraries.drop_last(), ui_route) + library_html(libraries.last(), ui_route)
    }
}

/// The board: the groups, then the libraries.
pub open spec fn board_html(
    groups: Seq<LibraryGroupView>,
    libraries: Seq<DiscoveredLibraryView>,
    ui_route: Seq<char>,
) -> Seq<char> {
    "<div class=\"library-board\">"@ + groups_html(groups) + libraries_html(libraries, ui_route)
        + "</div>"@
}

fn member_markup(member: &LibraryGroupMemberView) -> (html: String)
    ensures
        html@ == member_html(*member),
{
    let mut html = "<li data-server-id=\"".to_owned();
    html.append(number_text(member.server_id).as_str());
    html.append("\" data-library-id=\"");
    html.append(escape_html(member.original_library_id.as_str()).as_str());
    html.append("\">");
    html.append(escape_html(member.library_name.as_str()).as_str());
    html.append(" (");
    html.append(escape_html(member.server_name.as_str()).as_str());
    html.append(")</li>");
    html
}

fn members_markup(members: &Vec<LibraryGroupMemberView>) -> (html: String)
    ensures
        html@ == members_html(members@),
{
    let mut html = String::new();
    let mut i: usize = 0;
    while i < members.len()
        invariant
            i <= members@.len(),
            html@ == members_html(members@.take(i as int)),
        decreases members@.len() - i,
    {
        html.append(member_markup(&members[i]).as_str());
        assert(members@.take(i + 1).drop_last() =~= members@.take(i as int));
        i = i + 1;
    }
    assert(members@.take(members@.len() as int) =~= members@);
    html
}

fn group_markup(group: &LibraryGroupView) -> (html: String)
    ensures
        html@ == group_html(*group),
{
    let mut html = "<section data-library-dropzone data-group-id=\"".to_owned();
    html.append(escape_html(group.virtual_id.as_str()).as_str());
    html.append("\"");
    if let Some(t) = &group.collection_type {
        html.append(" data-collection-type=\"");
        html.append(escape_html(t.as_str()).as_str());
        html.append("\"");
    }
    html.append("><h3>");
    html.append(escape_html(group.name.as_str()).as_str());
    html.append("</h3><ul>");
    html.append(members_markup(&group.members).as_str());
    html.append("</ul></section>");
    html
}

fn groups_markup(groups: &Vec<LibraryGroupView>) -> (html: String)
    ensures
        html@ == groups_html(groups@),
{
    let mut html = String::new();
    let mut i: usize = 0;
    while i < groups.len()
        invariant
            i <= groups@.len(),
            html@ == groups_html(groups@.take(i as int)),
        decreases groups@.len() - i,
    {
        html.append(group_markup(&groups[i]).as_str());
        assert(groups@.take(i + 1).drop_last() =~= groups@.take(i as int));
        i = i + 1;
    }
    assert(groups@.take(groups@.len() as int) =~= groups@);
    html
}

fn options_markup(options: &Vec<LibraryGroupOptionView>) -> (html: String)
    ensures
        html@ == options_html(options@),
{
    let mut html = String::new();
    let mut i: usize = 0;
    while i < options.len()
        invariant
            i <= options@.len(),
            html@ == options_html(options@.take(i as int)),
        decreases options@.len() - i,
    {
        let mut option = "<option value=\"".to_owned();
        option.append(escape_html(options[i].virtual_id.as_str()).as_str());
        option.append("\">");
        option.append(escape_html(options[i].name.as_str()).as_str());
        option.append("</option>");
        html.append(option.as_str());
        assert(options@.take(i + 1).drop_last() =~= options@.take(i as int));
        i = i + 1;
    }
    assert(options@.take(options@.len() as int) =~= options@);
    html
}

fn library_markup(library: &DiscoveredLibraryView, ui_route: &str) -> (html: String)
    ensures
        html@ == library_html(*library, ui_route@),
{
    let mut html = "<article data-library-card data-server-id=\"".to_owned();
    html.append(number_text(library.server_id).as_str());
    html.append("\" data-library-id=\"");
    html.append(escape_html(library.library_id.as_str()).as_str());
    html.append("\" data-collection-type=\"");
    html.append(escape_html(library.collection_type.as_str()).as_str());
    if library.assignable_groups.len() > 0 {
        html.append("\" data-can-drag=\"true\" draggable=\"true\">");
    } else {
        html.append("\" data-can-drag=\"false\" draggable=\"false\">");
    }
    html.append("<span data-library-drag-handle></span><strong>");
    html.append(escape_html(library.library_name.as_str()).as_str());
    html.append("</strong> ");
    html.append(escape_html(library.server_name.as_str()).as_str());
    if let Some(name) = &library.assigned_group {
        html.append(" <em>");
        html.append(escape_html(name.as_str()).as_str());
        html.append("</em>");
    }
    html.append(
        "<button type=\"button\" title=\"Add to existing library\" aria-haspopup=\"true\">+</button><div data-library-popover><form class=\"library-assignment-form\" hx-post=\"/",
    );
    html.append(escape_html(ui_route).as_str());
    html.append("/libraries/assign\"><input type=\"hidden\" name=\"server_id\" value=\"");
    html.append(number_text(library.server_id).as_str());
    html.append("\"><input type=\"hidden\" name=\"library_id\" value=\"");
    html.append(escape_html(library.library_id.as_str()).as_str());
    html.append("\"><select name=\"group_virtual_id\">");
    html.append(options_markup(&library.assignable_groups).as_str());
    html.append("</select><button type=\"submit\">Add</button></form></div></article>");
    html
}

fn libraries_markup(libraries: &Vec<DiscoveredLibraryView>, ui_route: &str) -> (html: String)
    ensures
        html@ == libraries_html(libraries@, ui_route@),
{
    let mut html = String::new();
    let mut i: usize = 0;
    while i < libraries.len()
        invariant
            i <= libraries@.len(),
            html@ == libraries_html(libraries@.take(i as int), ui_route@),
        decreases libraries@.len() - i,
    {
        html.append(library_markup(&libraries[i], ui_route).as_str());
        assert(libraries@.take(i + 1).drop_last() =~= libraries@.take(i as int));
        i = i + 1;
    }
    assert(libraries@.take(libraries@.len() as int) =~= libraries@);
    html
}

impl LibraryGroupsListTemplate {
    /// The markup of the board.
    pub fn render(&self) -> (html: Result<String, String>)
        ensures
            html matches Ok(h) && h@ == board_html(
                self.groups@,
                self.discovered_libraries@,
                self.ui_route@,
            ),
    {
        let mut html = "<div class=\"library-board\">".to_owned();
        html.append(groups_markup(&self.groups).as_str());
        html.append(
            libraries_markup(&self.discovered_libraries, self.ui_route.as_str()).as_str(),
        );
        html.append("</div>");
        Ok(html)
    }
}

} // verus!
