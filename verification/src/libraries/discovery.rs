//! Which libraries there are to assign.
//!
//! What users have been seen to use is the start. A server that an
//! administrator's account can ask then says for itself what it has, and that
//! takes the place of all that was known of it.
use vstd::prelude::*;
use crate::table;
use crate::table::{Key, Table};
use crate::text;
use crate::text::{chars_of, eq_ignore_ascii_case, same_text, text_before, to_ascii_lowercase};

verus! {

/// A media server, as far as discovery needs it.
#[derive(Debug)]
pub struct ServerRecord {
    pub id: i64,
    pub name: String,
}

/// A library that has been seen on a server.
#[derive(Debug)]
pub struct StoredLibrary {
    pub server_id: i64,
    pub original_library_id: String,
    pub name: String,
    pub collection_type: String,
}

/// A folder that a server lists.
#[derive(Debug)]
pub struct MediaFolder {
    pub id: String,
    pub name: String,
    pub collection_type: Option<String>,
}

/// What asking a server for its libraries came to.
#[derive(Debug)]
pub enum ServerAnswer {
    /// No administrator's account is known for the server.
    NoAdmin,
    /// The account's password could not be read.
    PasswordUnreadable,
    /// The server's address is no good.
    NoClient,
    /// The server turned the account away.
    Refused,
    /// The server did not list its folders.
    NoFolders,
    /// The server's folders.
    Folders(Vec<MediaFolder>),
}

/// A server, and what asking it came to.
#[derive(Debug)]
pub struct AskedServer {
    pub server: ServerRecord,
    pub answer: ServerAnswer,
}

/// A library that can be assigned.
#[derive(Debug)]
pub struct AvailableLibrary {
    pub server_id: i64,
    pub server_name: String,
    pub library_id: String,
    pub library_name: String,
    pub collection_type: String,
}

/// The view of an [`AvailableLibrary`].
pub struct AvailableView {
    pub server_id: i64,
    pub server_name: Seq<char>,
    pub library_id: Seq<char>,
    pub library_name: Seq<char>,
    pub collection_type: Seq<char>,
}

impl View for AvailableLibrary {
    type V = AvailableView;

    open spec fn view(&self) -> AvailableView {
        AvailableView {
            server_id: self.server_id,
            server_name: self.server_name@,
            library_id: self.library_id@,
            library_name: self.library_name@,
            collection_type: self.collection_type@,
        }
    }
}

/// What names a library: its server and its identifier there.
#[derive(Debug)]
pub struct LibraryKey {
    pub server_id: i64,
    pub library_id: String,
}

impl View for LibraryKey {
    type V = (i64, Seq<char>);

    open spec fn view(&self) -> (i64, Seq<char>) {
        (self.server_id, self.library_id@)
    }
}

impl Key for LibraryKey {
    fn same(&self, other: &Self) -> (same: bool) {
        self.server_id == other.server_id && self.library_id == other.library_id
    }

    fn copied(&self) -> (copy: Self) {
        LibraryKey { server_id: self.server_id, library_id: self.library_id.clone() }
    }
}

/// The libraries by key.
pub type Libraries = Map<(i64, Seq<char>), AvailableView>;

/// An identifier without its hyphens, in small letters.
pub open spec fn normalized_library_id(id: Seq<char>) -> Seq<char> {
    text::lowered(id.filter(|c: char| c != '-'))
}

/// An identifier without its hyphens, in small letters.
pub fn normalize_library_id(id: &str) -> (normalized: String)
    ensures
        normalized@ == normalized_library_id(id@),
{
    let chars = chars_of(id);
    let ghost keep = |c: char| c != '-';
    let mut kept = String::new();
    let mut i: usize = 0;
    while i < chars.len()
        invariant
            i <= chars@.len(),
            kept@ == chars@.take(i as int).filter(|c: char| c != '-'),
        decreases chars@.len() - i,
    {
        proof {
            reveal(Seq::filter);
            assert(chars@.take(i + 1).drop_last() =~= chars@.take(i as int));
        }
        if chars[i] != '-' {
            kept.push(chars[i]);
        }
        i = i + 1;
    }
    assert(chars@.take(chars@.len() as int) =~= chars@);
    to_ascii_lowercase(kept.as_str())
}

/// The name of the server with an identifier; of several, the last one's.
pub open spec fn server_name_of(servers: Seq<AskedServer>, id: i64) -> Option<Seq<char>>
    decreases servers.len(),
{
    if servers.len() == 0 {
        None
    } else if servers.last().server.id == id {
        Some(servers.last().server.name@)
    } else {
        server_name_of(servers.drop_last(), id)
    }
}

fn find_server_name(servers: &Vec<AskedServer>, id: i64) -> (name: Option<String>)
    ensures
        match name {
            Some(n) => server_name_of(servers@, id) == Some(n@),
            None => server_name_of(servers@, id) is None,
        },
{
    let mut i: usize = servers.len();
    assert(servers@.take(servers@.len() as int) =~= servers@);
    while i > 0
        invariant
            i <= servers@.len(),
            server_name_of(servers@, id) == server_name_of(servers@.take(i as int), id),
        decreases i,
    {
        i = i - 1;
        assert(servers@.take(i + 1).drop_last() =~= servers@.take(i as int));
        if servers[i].server.id == id {
            return Some(servers[i].server.name.clone());
        }
    }
    None
}

/// A library that has been seen on a server of this name.
pub open spec fn available(library: StoredLibrary, server_name: Seq<char>) -> AvailableView {
    AvailableView {
        server_id: library.server_id,
        server_name,
        library_id: library.original_library_id@,
        library_name: library.name@,
        collection_type: library.collection_type@,
    }
}

/// The libraries that have been seen on servers that are still there. Of two
/// with one key the later one stands.
pub open spec fn observed(servers: Seq<AskedServer>, seen: Seq<StoredLibrary>) -> Libraries
    decreases seen.len(),
{
    if seen.len() == 0 {
        Map::empty()
    } else {
        let before = observed(servers, seen.drop_last());
        let library = seen.last();
        match server_name_of(servers, library.server_id) {
            Some(name) => before.insert(
                (library.server_id, library.original_library_id@),
                available(library, name),
            ),
            None => before,
        }
    }
}

/// Whether a folder is no library: live television is none.
pub open spec fn is_live_tv(folder: MediaFolder) -> bool {
    match folder.collection_type {
        Some(t) => text::lowered(t@) == text::lowered("livetv"@),
        None => false,
    }
}

/// The collection type of a folder, empty where it has none.
pub open spec fn folder_type(folder: MediaFolder) -> Seq<char> {
    match folder.collection_type {
        Some(t) => t@,
        None => Seq::empty(),
    }
}

/// A stored library that says what a folder of a server says.
pub open spec fn stores(library: StoredLibrary, server_id: i64, folder: MediaFolder) -> bool {
    &&& library.server_id == server_id
    &&& library.original_library_id@ == folder.id@
    &&& library.name@ == folder.name@
    &&& library.collection_type@ == folder_type(folder)
}

/// The folders of a list that are libraries.
pub open spec fn library_folders(folders: Seq<MediaFolder>) -> Seq<MediaFolder> {
    folders.filter(|folder: MediaFolder| !is_live_tv(folder))
}

/// The libraries of the other servers.
pub open spec fn of_others(m: Libraries, server_id: i64) -> Libraries {
    Map::new(
        |k: (i64, Seq<char>)| m.contains_key(k) && k.0 != server_id,
        |k: (i64, Seq<char>)| m[k],
    )
}

/// A folder as a library of its server.
pub open spec fn folder_library(server: ServerRecord, folder: MediaFolder) -> AvailableView {
    AvailableView {
        server_id: server.id,
        server_name: server.name@,
        library_id: normalized_library_id(folder.id@),
        library_name: folder.name@,
        collection_type: folder_type(folder),
    }
}

/// The libraries with those of a server's folders added, each under its
/// normalized identifier. Of two with one key the later one stands.
pub open spec fn with_folders(
    m: Libraries,
    server: ServerRecord,
    folders: Seq<MediaFolder>,
) -> Libraries
    decreases folders.len(),
{
    if folders.len() == 0 {
        m
    } else {
        let folder = folders.last();
        with_folders(m, server, folders.drop_last()).insert(
            (server.id, normalized_library_id(folder.id@)),
            folder_library(server, folder),
        )
    }
}

/// The libraries once a server has listed its folders.
pub open spec fn listed(m: Libraries, server: ServerRecord, folders: Seq<MediaFolder>) -> Libraries {
    with_folders(of_others(m, server.id), server, library_folders(folders))
}

/// Whether one library stands before another: by the servers' names, then by
/// the libraries'.
pub open spec fn before(a: AvailableView, b: AvailableView) -> bool {
    text::text_lt(a.server_name, b.server_name) || (a.server_name == b.server_name
        && text::text_lt(a.library_name, b.library_name))
}

/// No library stands behind one that it should stand before.
pub open spec fn sorted(libraries: Seq<AvailableView>) -> bool {
    forall|i: int, j: int|
        0 <= i < j < libraries.len() ==> !before(#[trigger] libraries[j], #[trigger] libraries[i])
}

/// The views of a list of libraries.
pub open spec fn available_views(libraries: Seq<AvailableLibrary>) -> Seq<AvailableView> {
    libraries.map_values(|a: AvailableLibrary| a@)
}

/// `libraries` holds each entry's library once and nothing else.
pub open spec fn lists(libraries: Seq<AvailableView>, m: Libraries) -> bool {
    exists|items: Seq<((i64, Seq<char>), AvailableView)>|
        {
            &&& #[trigger] table::keys_distinct(items)
            &&& table::rows_map(items) == m
            &&& libraries.to_multiset() == items.map_values(
                |row: ((i64, Seq<char>), AvailableView)| row.1,
            ).to_multiset()
        }
}

/// The libraries once the servers have been asked: one that listed its folders
/// has those, one that did not has what it had.
pub open spec fn asked_all(m: Libraries, asked: Seq<AskedServer>) -> Libraries
    decreases asked.len(),
{
    if asked.len() == 0 {
        m
    } else {
        let so_far = asked_all(m, asked.drop_last());
        match asked.last().answer {
            ServerAnswer::Folders(folders) => listed(so_far, asked.last().server, folders@),
            _ => so_far,
        }
    }
}

/// The libraries there are to assign: none where the servers could not be
/// listed.
pub open spec fn discovered(
    asked: Result<Vec<AskedServer>, String>,
    seen: Result<Vec<StoredLibrary>, String>,
) -> Libraries {
    match asked {
        Ok(servers) => asked_all(
            observed(
                servers@,
                match seen {
                    Ok(libraries) => libraries@,
                    Err(_) => Seq::empty(),
                },
            ),
            servers@,
        ),
        Err(_) => Map::empty(),
    }
}

/// The libraries of a server, as it listed them, to be remembered.
pub fn store_folders(server_id: i64, folders: &Vec<MediaFolder>) -> (stored: Vec<StoredLibrary>)
    ensures
        stored@.len() == library_folders(folders@).len(),
        forall|i: int|
            0 <= i < stored@.len() ==> stores(
                #[trigger] stored@[i],
                server_id,
                library_folders(folders@)[i],
            ),
{
    let mut stored: Vec<StoredLibrary> = Vec::new();
    let mut i: usize = 0;
    assert(library_folders(folders@.take(0)) =~= Seq::empty()) by {
        reveal(Seq::filter);
    }
    while i < folders.len()
        invariant
            i <= folders@.len(),
            stored@.len() == library_folders(folders@.take(i as int)).len(),
            forall|j: int|
                0 <= j < stored@.len() ==> stores(
                    #[trigger] stored@[j],
                    server_id,
                    library_folders(folders@.take(i as int))[j],
                ),
        decreases folders@.len() - i,
    {
        proof {
            reveal(Seq::filter);
            assert(folders@.take(i + 1).drop_last() =~= folders@.take(i as int));
        }
        let folder = &folders[i];
        let live = match &folder.collection_type {
            Some(t) => eq_ignore_ascii_case(t.as_str(), "livetv"),
            None => false,
        };
        if !live {
            let collection_type = match &folder.collection_type {
                Some(t) => t.clone(),
                None => String::new(),
            };
            stored.push(
                StoredLibrary {
                    server_id,
                    original_library_id: folder.id.clone(),
                    name: folder.name.clone(),
                    collection_type,
                },
            );
        }
        i = i + 1;
    }
    assert(folders@.take(folders@.len() as int) =~= folders@);
    stored
}

fn observe(servers: &Vec<AskedServer>, seen: Vec<StoredLibrary>) -> (found: Table<
    LibraryKey,
    AvailableLibrary,
>)
    ensures
        found@ == observed(servers@, seen@),
{
    let mut found: Table<LibraryKey, AvailableLibrary> = Table::new();
    let mut rest = seen;
    let ghost mut done: Seq<StoredLibrary> = Seq::empty();
    while rest.len() > 0
        invariant
            done + rest@ == seen@,
            found@ == observed(servers@, done),
        decreases rest@.len(),
    {
        let ghost had = done;
        let ghost all = rest@;
        let library = rest.remove(0);
        proof {
            done = done.push(library);
            assert(done.drop_last() =~= had);
            assert(done + rest@ =~= had + all);
        }
        if let Some(server_name) = find_server_name(servers, library.server_id) {
            let key = LibraryKey {
                server_id: library.server_id,
                library_id: library.original_library_id.clone(),
            };
            found.insert(
                key,
                AvailableLibrary {
                    server_id: library.server_id,
                    server_name,
                    library_id: library.original_library_id,
                    library_name: library.name,
                    collection_type: library.collection_type,
                },
            );
        }
    }
    assert(done =~= seen@);
    found
}

fn keep_others(found: Table<LibraryKey, AvailableLibrary>, server_id: i64) -> (others: Table<
    LibraryKey,
    AvailableLibrary,
>)
    ensures
        others@ == of_others(found@, server_id),
{
    let ghost m = found@;
    let ghost items = found.items();
    let mut others: Table<LibraryKey, AvailableLibrary> = Table::new();
    let mut rest = found.into_rows();
    let ghost rows = rest@;
    let ghost mut i: int = 0;
    while rest.len() > 0
        invariant
            items == table::row_views(rows),
            table::keys_distinct(items),
            m == table::rows_map(items),
            0 <= i <= rows.len(),
            rest@ == rows.skip(i),
            forall|k: (i64, Seq<char>)| #[trigger]
                others@.contains_key(k) ==> m.contains_key(k) && k.0 != server_id && others@[k]
                    == m[k],
            forall|j: int|
                0 <= j < i && (#[trigger] items[j]).0.0 != server_id ==> others@.contains_key(
                    items[j].0,
                ),
        decreases rest@.len(),
    {
        let (key, library) = rest.remove(0);
        proof {
            assert(rows.skip(i)[0] == rows[i]);
            assert(rest@ =~= rows.skip(i + 1));
            table::lemma_row_is_entry(items, i);
            i = i + 1;
        }
        if key.server_id != server_id {
            others.insert(key, library);
        }
    }
    proof {
        assert forall|k: (i64, Seq<char>)| m.contains_key(k) && k.0 != server_id implies
            #[trigger] others@.contains_key(k) by {
            let j = table::lemma_entry_is_row(items, k);
            assert(items[j].0 == k);
        }
        assert(others@ =~= of_others(m, server_id));
    }
    others
}

fn list_server(
    found: Table<LibraryKey, AvailableLibrary>,
    server: &ServerRecord,
    folders: &Vec<MediaFolder>,
) -> (all: Table<LibraryKey, AvailableLibrary>)
    ensures
        all@ == listed(found@, *server, folders@),
{
    let stored = store_folders(server.id, folders);
    let ghost kept = library_folders(folders@);
    let mut all = keep_others(found, server.id);
    let ghost base = all@;
    let mut i: usize = 0;
    assert(kept.take(0) =~= Seq::empty());
    while i < stored.len()
        invariant
            i <= stored@.len(),
            stored@.len() == kept.len(),
            forall|j: int|
                0 <= j < stored@.len() ==> stores(#[trigger] stored@[j], server.id, kept[j]),
            all@ == with_folders(base, *server, kept.take(i as int)),
        decreases stored@.len() - i,
    {
        let library = &stored[i];
        assert(stores(stored@[i as int], server.id, kept[i as int]));
        let library_id = normalize_library_id(library.original_library_id.as_str());
        let key = LibraryKey { server_id: server.id, library_id: library_id.clone() };
        all.insert(
            key,
            AvailableLibrary {
                server_id: server.id,
                server_name: server.name.clone(),
                library_id,
                library_name: library.name.clone(),
                collection_type: library.collection_type.clone(),
            },
        );
        assert(kept.take(i + 1).drop_last() =~= kept.take(i as int));
        i = i + 1;
    }
    assert(kept.take(kept.len() as int) =~= kept);
    all
}

fn comes_before(a: &AvailableLibrary, b: &AvailableLibrary) -> (is: bool)
    ensures
        is == before(a@, b@),
{
    text_before(a.server_name.as_str(), b.server_name.as_str()) || (same_text(
        a.server_name.as_str(),
        b.server_name.as_str(),
    ) && text_before(a.library_name.as_str(), b.library_name.as_str()))
}

proof fn lemma_before_is_an_order(a: AvailableView, b: AvailableView, c: AvailableView)
    ensures
        !(before(a, b) && before(b, a)),
        !before(b, a) && !before(c, b) ==> !before(c, a),
{
    text::lemma_text_lt_total(a.server_name, b.server_name);
    text::lemma_text_lt_total(a.library_name, b.library_name);
    text::lemma_text_lt_total(b.server_name, c.server_name);
    text::lemma_text_lt_total(b.library_name, c.library_name);
    text::lemma_text_lt_total(a.server_name, c.server_name);
    text::lemma_text_lt_total(a.library_name, c.library_name);
    if text::text_lt(c.server_name, a.server_name) && text::text_lt(a.server_name, b.server_name) {
        text::lemma_text_lt_trans(c.server_name, a.server_name, b.server_name);
    }
    if text::text_lt(b.server_name, c.server_name) && text::text_lt(c.server_name, a.server_name) {
        text::lemma_text_lt_trans(b.server_name, c.server_name, a.server_name);
    }
    if text::text_lt(c.library_name, a.library_name) && text::text_lt(
        a.library_name,
        b.library_name,
    ) {
        text::lemma_text_lt_trans(c.library_name, a.library_name, b.library_name);
    }
    if text::text_lt(b.library_name, c.library_name) && text::text_lt(
        c.library_name,
        a.library_name,
    ) {
        text::lemma_text_lt_trans(b.library_name, c.library_name, a.library_name);
    }
}

proof fn lemma_insert_to_multiset(s: Seq<AvailableView>, at: int, a: AvailableView)
    requires
        0 <= at <= s.len(),
    ensures
        s.insert(at, a).to_multiset() == s.to_multiset().insert(a),
{
    broadcast use vstd::seq_lib::group_to_multiset_ensures;

    let after = s.insert(at, a);
    assert(after.remove(at) =~= s);
    assert(after[at] == a);
    assert(after.contains(a));
    assert(after.to_multiset() =~= after.to_multiset().remove(a).insert(a));
}

fn insert_sorted(sorted_so_far: &mut Vec<AvailableLibrary>, library: AvailableLibrary)
    requires
        sorted(available_views(old(sorted_so_far)@)),
    ensures
        sorted(available_views(final(sorted_so_far)@)),
        available_views(final(sorted_so_far)@).to_multiset() == available_views(
            old(sorted_so_far)@,
        ).to_multiset().insert(library@),
{
    let ghost had = available_views(sorted_so_far@);
    let mut at: usize = 0;
    while at < sorted_so_far.len() && !comes_before(&library, &sorted_so_far[at])
        invariant
            sorted_so_far@ == old(sorted_so_far)@,
            had == available_views(sorted_so_far@),
            at <= sorted_so_far@.len(),
            forall|i: int| 0 <= i < at ==> !before(library@, #[trigger] had[i]),
        decreases sorted_so_far@.len() - at,
    {
        at = at + 1;
    }
    proof {
        let after = had.insert(at as int, library@);
        lemma_insert_to_multiset(had, at as int, library@);
        assert forall|i: int, j: int| 0 <= i < j < after.len() implies !before(
            #[trigger] after[j],
            #[trigger] after[i],
        ) by {
            let i0 = if i < at { i } else { i - 1 };
            let j0 = if j < at { j } else { j - 1 };
            if i == at {
                assert(before(library@, had[at as int]));
                lemma_before_is_an_order(library@, had[at as int], had[j0]);
                assert(j0 > at ==> !before(had[j0], had[at as int]));
            } else if j == at {
                assert(!before(library@, had[i]));
            } else {
                assert(!before(had[j0], had[i0]));
            }
        }
    }
    sorted_so_far.insert(at, library);
    assert(available_views(sorted_so_far@) =~= had.insert(at as int, library@));
}

fn sort_libraries(found: Table<LibraryKey, AvailableLibrary>) -> (libraries: Vec<AvailableLibrary>)
    ensures
        sorted(available_views(libraries@)),
        lists(available_views(libraries@), found@),
{
    let ghost items = found.items();
    let ghost values = items.map_values(|row: ((i64, Seq<char>), AvailableView)| row.1);
    let mut rest = found.into_rows();
    let ghost rows = rest@;
    let mut libraries: Vec<AvailableLibrary> = Vec::new();
    let ghost mut i: int = 0;
    assert(available_views(libraries@) =~= values.take(0));
    while rest.len() > 0
        invariant
            items == table::row_views(rows),
            values == items.map_values(|row: ((i64, Seq<char>), AvailableView)| row.1),
            0 <= i <= rows.len(),
            rest@ == rows.skip(i),
            sorted(available_views(libraries@)),
            available_views(libraries@).to_multiset() == values.take(i).to_multiset(),
        decreases rest@.len(),
    {
        let (_key, library) = rest.remove(0);
        proof {
            assert(rows.skip(i)[0] == rows[i]);
            assert(rest@ =~= rows.skip(i + 1));
            assert(values.take(i + 1) =~= values.take(i).push(library@));
            vstd::seq_lib::to_multiset_build(values.take(i), library@);
            i = i + 1;
        }
        insert_sorted(&mut libraries, library);
    }
    proof {
        assert(values.take(values.len() as int) =~= values);
        assert(table::keys_distinct(items));
    }
    libraries
}

/// The libraries there are to assign, in the order of their servers' names and
/// then of their own; where two have the same names either may come first.
pub fn discover_libraries(
    asked: Result<Vec<AskedServer>, String>,
    seen: Result<Vec<StoredLibrary>, String>,
) -> (libraries: Vec<AvailableLibrary>)
    ensures
        sorted(available_views(libraries@)),
        lists(available_views(libraries@), discovered(asked, seen)),
{
    match asked {
        Ok(servers) => {
            let seen_libraries = match seen {
                Ok(libraries) => libraries,
                Err(_) => Vec::new(),
            };
            let mut found = observe(&servers, seen_libraries);
            let ghost start = found@;
            let mut i: usize = 0;
            assert(servers@.take(0) =~= Seq::empty());
            while i < servers.len()
                invariant
                    i <= servers@.len(),
                    found@ == asked_all(start, servers@.take(i as int)),
                decreases servers@.len() - i,
            {
                assert(servers@.take(i + 1).drop_last() =~= servers@.take(i as int));
                if let ServerAnswer::Folders(folders) = &servers[i].answer {
                    found = list_server(found, &servers[i].server, folders);
                }
                i = i + 1;
            }
            assert(servers@.take(servers@.len() as int) =~= servers@);
            sort_libraries(found)
        },
        Err(_) => sort_libraries(Table::new()),
    }
}

proof fn lemma_with_folders(m: Libraries, server: ServerRecord, folders: Seq<MediaFolder>)
    ensures
        forall|k: (i64, Seq<char>)|
            k.0 != server.id ==> (#[trigger] with_folders(m, server, folders).contains_key(k)
                <==> m.contains_key(k)),
        forall|k: (i64, Seq<char>)|
            k.0 != server.id && #[trigger] with_folders(m, server, folders).contains_key(k)
                ==> with_folders(m, server, folders)[k] == m[k],
        forall|k: (i64, Seq<char>)| #[trigger]
            with_folders(m, server, folders).contains_key(k) && k.0 == server.id ==> (
            m.contains_key(k) && with_folders(m, server, folders)[k] == m[k]) || exists|i: int|
                0 <= i < folders.len() && with_folders(m, server, folders)[k] == folder_library(
                    server,
                    #[trigger] folders[i],
                ),
        forall|i: int|
            0 <= i < folders.len() ==> with_folders(m, server, folders).contains_key(
                (server.id, normalized_library_id((#[trigger] folders[i]).id@)),
            ),
    decreases folders.len(),
{
    if folders.len() > 0 {
        let fewer = folders.drop_last();
        lemma_with_folders(m, server, fewer);
        let after = with_folders(m, server, folders);
        assert forall|k: (i64, Seq<char>)| #[trigger]
            after.contains_key(k) && k.0 == server.id implies (m.contains_key(k) && after[k]
            == m[k]) || exists|i: int|
            0 <= i < folders.len() && after[k] == folder_library(server, #[trigger] folders[i]) by {
            if k == (server.id, normalized_library_id(folders.last().id@)) {
                assert(after[k] == folder_library(server, folders[folders.len() - 1]));
            } else {
                assert(with_folders(m, server, fewer).contains_key(k));
                if !(m.contains_key(k) && after[k] == m[k]) {
                    let i = choose|i: int|
                        0 <= i < fewer.len() && with_folders(m, server, fewer)[k]
                            == folder_library(server, #[trigger] fewer[i]);
                    assert(folders[i] == fewer[i]);
                }
            }
        }
        assert forall|i: int| 0 <= i < folders.len() implies after.contains_key(
            (server.id, normalized_library_id((#[trigger] folders[i]).id@)),
        ) by {
            if i < fewer.len() {
                assert(folders[i] == fewer[i]);
            }
        }
        assert forall|k: (i64, Seq<char>)|
            k.0 != server.id && #[trigger] after.contains_key(k) implies after[k] == m[k] by {
            assert(with_folders(m, server, fewer).contains_key(k));
        }
        assert forall|k: (i64, Seq<char>)| k.0 != server.id implies (#[trigger] after.contains_key(
            k,
        ) <==> m.contains_key(k)) by {
            assert(with_folders(m, server, fewer).contains_key(k) <==> m.contains_key(k));
        }
    }
}

spec fn is_library_of(folders: Seq<MediaFolder>, folder: MediaFolder) -> bool {
    exists|i: int|
        0 <= i < folders.len() && #[trigger] folders[i] == folder && !is_live_tv(folders[i])
}

proof fn lemma_library_folders(folders: Seq<MediaFolder>)
    ensures
        forall|j: int|
            0 <= j < library_folders(folders).len() ==> is_library_of(
                folders,
                #[trigger] library_folders(folders)[j],
            ),
        forall|i: int|
            0 <= i < folders.len() && !is_live_tv(#[trigger] folders[i]) ==> library_folders(
                folders,
            ).contains(folders[i]),
    decreases folders.len(),
{
    reveal(Seq::filter);
    let kept = library_folders(folders);
    if folders.len() > 0 {
        let fewer = folders.drop_last();
        let had = library_folders(fewer);
        lemma_library_folders(fewer);
        assert forall|j: int| 0 <= j < kept.len() implies is_library_of(
            folders,
            #[trigger] kept[j],
        ) by {
            if j < had.len() {
                assert(is_library_of(fewer, had[j]));
                let i = choose|i: int|
                    0 <= i < fewer.len() && #[trigger] fewer[i] == had[j] && !is_live_tv(fewer[i]);
                assert(folders[i] == kept[j]);
            } else {
                assert(folders[folders.len() - 1] == kept[j]);
            }
        }
        assert forall|i: int| 0 <= i < folders.len() && !is_live_tv(#[trigger] folders[i]) implies
            kept.contains(folders[i]) by {
            if i < fewer.len() {
                assert(had.contains(fewer[i]));
                let j = choose|j: int| 0 <= j < had.len() && had[j] == fewer[i];
                assert(kept[j] == folders[i]);
            } else {
                assert(kept[kept.len() - 1] == folders[i]);
            }
        }
    }
}

/// A server that lists its folders speaks for itself: nothing else is left of
/// what was known of it, none of its libraries is live television, each of its
/// other folders is there, and the other servers' libraries stay as they were.
pub proof fn law_listing_replaces_the_servers_libraries(
    m: Libraries,
    server: ServerRecord,
    folders: Seq<MediaFolder>,
)
    ensures
        forall|k: (i64, Seq<char>)|
            k.0 != server.id ==> (#[trigger] listed(m, server, folders).contains_key(k)
                <==> m.contains_key(k)),
        forall|k: (i64, Seq<char>)|
            k.0 != server.id && #[trigger] listed(m, server, folders).contains_key(k) ==> listed(
                m,
                server,
                folders,
            )[k] == m[k],
        forall|k: (i64, Seq<char>)| #[trigger]
            listed(m, server, folders).contains_key(k) && k.0 == server.id ==> exists|i: int|
                0 <= i < folders.len() && !is_live_tv(#[trigger] folders[i]) && listed(
                    m,
                    server,
                    folders,
                )[k] == folder_library(server, folders[i]),
        forall|i: int|
            0 <= i < folders.len() && !is_live_tv(#[trigger] folders[i]) ==> listed(
                m,
                server,
                folders,
            ).contains_key((server.id, normalized_library_id(folders[i].id@))),
{
    let kept = library_folders(folders);
    let others = of_others(m, server.id);
    let after = listed(m, server, folders);
    lemma_with_folders(others, server, kept);
    lemma_library_folders(folders);
    assert forall|k: (i64, Seq<char>)| #[trigger]
        after.contains_key(k) && k.0 == server.id implies exists|i: int|
        0 <= i < folders.len() && !is_live_tv(#[trigger] folders[i]) && after[k] == folder_library(
            server,
            folders[i],
        ) by {
        let j = choose|j: int|
            0 <= j < kept.len() && after[k] == folder_library(server, #[trigger] kept[j]);
        assert(is_library_of(folders, kept[j]));
        let i = choose|i: int|
            0 <= i < folders.len() && #[trigger] folders[i] == kept[j] && !is_live_tv(folders[i]);
        assert(after[k] == folder_library(server, folders[i]));
    }
    assert forall|i: int| 0 <= i < folders.len() && !is_live_tv(#[trigger] folders[i]) implies
        after.contains_key((server.id, normalized_library_id(folders[i].id@))) by {
        let j = choose|j: int| 0 <= j < kept.len() && kept[j] == folders[i];
        assert(after.contains_key((server.id, normalized_library_id(kept[j].id@))));
    }
}

} // verus!
