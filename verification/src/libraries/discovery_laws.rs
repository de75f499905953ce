//! Which libraries are discovered, and what is said of each.
use vstd::prelude::*;
use crate::libraries::discovery;
use crate::libraries::discovery::{
    AskedServer, AvailableLibrary, AvailableView, Libraries, MediaFolder, ServerAnswer,
    ServerRecord, StoredLibrary,
};
use crate::table;
use crate::text;

verus! {

/// A folder is live television: its type says so, in letters of either case.
pub open spec fn is_television(folder: MediaFolder) -> bool {
    match folder.collection_type {
        Some(t) => text::lowered(t@) == text::lowered("livetv"@),
        None => false,
    }
}

/// Live television is told by the type, and by nothing else.
pub proof fn law_live_tv_is_told_by_type(folder: MediaFolder)
    ensures
        discovery::is_live_tv(folder) <==> is_television(folder),
{
}

/// A library says what a folder of a server says: its server's identifier and
/// name, the folder's name, and the folder's type, which is empty only where the
/// folder has none. Its identifier is the folder's, normalized.
pub open spec fn says_what_folder_says(
    library: AvailableView,
    server: ServerRecord,
    folder: MediaFolder,
) -> bool {
    &&& library.server_id == server.id
    &&& library.server_name == server.name@
    &&& library.library_id == discovery::normalized_library_id(folder.id@)
    &&& library.library_name == folder.name@
    &&& match folder.collection_type {
        Some(t) => library.collection_type == t@,
        None => library.collection_type.len() == 0,
    }
}

/// Normalizing an identifier goes character by character: a hyphen disappears, any
/// other character stays, in small letters.
pub proof fn law_normalizing_goes_character_by_character(a: Seq<char>, b: Seq<char>, c: char)
    ensures
        discovery::normalized_library_id(a + b) == discovery::normalized_library_id(a)
            + discovery::normalized_library_id(b),
        discovery::normalized_library_id(seq![c]) == if c == '-' {
            Seq::<char>::empty()
        } else {
            seq![text::ascii_lower(c)]
        },
        discovery::normalized_library_id(Seq::empty()) == Seq::<char>::empty(),
{
    let keep = |x: char| x != '-';
    Seq::filter_distributes_over_add(a, b, keep);
    assert(text::lowered(a.filter(keep) + b.filter(keep)) =~= text::lowered(a.filter(keep))
        + text::lowered(b.filter(keep)));
    assert(discovery::normalized_library_id(a + b) =~= discovery::normalized_library_id(a)
        + discovery::normalized_library_id(b));
    reveal(Seq::filter);
    let one = seq![c];
    assert(one.drop_last() =~= Seq::empty());
    assert(Seq::<char>::empty().filter(keep) =~= Seq::empty());
    assert(discovery::normalized_library_id(Seq::empty()) =~= Seq::<char>::empty());
    if c == '-' {
        assert(discovery::normalized_library_id(one) =~= Seq::empty());
    } else {
        assert(one.filter(keep) =~= one);
        assert(discovery::normalized_library_id(one) =~= seq![text::ascii_lower(c)]);
    }
}

proof fn lemma_last_folder_counts(
    m: Libraries,
    server: ServerRecord,
    folders: Seq<MediaFolder>,
    i: int,
)
    requires
        0 <= i < folders.len(),
        forall|j: int|
            i < j < folders.len() ==> discovery::normalized_library_id((#[trigger] folders[j]).id@)
                != discovery::normalized_library_id(folders[i].id@),
    ensures
        ({
            let after = discovery::with_folders(m, server, folders);
            let key = (server.id, discovery::normalized_library_id(folders[i].id@));
            after.contains_key(key) && says_what_folder_says(after[key], server, folders[i])
        }),
    decreases folders.len(),
{
    let n = folders.len() - 1;
    if i < n {
        let fewer = folders.drop_last();
        assert(fewer[i] == folders[i]);
        assert forall|j: int| i < j < fewer.len() implies discovery::normalized_library_id(
            (#[trigger] fewer[j]).id@,
        ) != discovery::normalized_library_id(fewer[i].id@) by {
            assert(fewer[j] == folders[j]);
        }
        lemma_last_folder_counts(m, server, fewer, i);
        assert(discovery::normalized_library_id(folders[n].id@)
            != discovery::normalized_library_id(folders[i].id@));
    }
}

proof fn lemma_kept_folder(folders: Seq<MediaFolder>, i: int) -> (k: int)
    requires
        0 <= i < folders.len(),
        !is_television(folders[i]),
    ensures
        0 <= k < discovery::library_folders(folders).len(),
        discovery::library_folders(folders)[k] == folders[i],
        forall|l: int|
            k < l < discovery::library_folders(folders).len() ==> exists|j: int|
                i < j < folders.len() && !is_television(folders[j]) && #[trigger] folders[j]
                    == #[trigger] discovery::library_folders(folders)[l],
    decreases folders.len(),
{
    reveal(Seq::filter);
    let n = folders.len() - 1;
    let fewer = folders.drop_last();
    let kept = discovery::library_folders(folders);
    let had = discovery::library_folders(fewer);
    if i == n {
        assert(kept[kept.len() - 1] == folders[i]);
        kept.len() - 1
    } else {
        assert(fewer[i] == folders[i]);
        let k = lemma_kept_folder(fewer, i);
        assert(kept[k] == had[k]);
        assert forall|l: int| k < l < kept.len() implies exists|j: int|
            i < j < folders.len() && !is_television(folders[j]) && #[trigger] folders[j]
                == #[trigger] kept[l] by {
            if l < had.len() {
                assert(kept[l] == had[l]);
                let j = choose|j: int|
                    i < j < fewer.len() && !is_television(fewer[j]) && #[trigger] fewer[j]
                        == had[l];
                assert(folders[j] == fewer[j]);
            } else {
                assert(folders[n] == kept[l]);
            }
        }
        k
    }
}

/// A library that is found on a server which lists its folders says what its folder
/// says. Every folder but live television is found, under its normalized identifier;
/// of two that share one the later counts.
pub proof fn law_listed_library_says_what_its_folder_says(
    m: Libraries,
    server: ServerRecord,
    folders: Seq<MediaFolder>,
    i: int,
)
    requires
        0 <= i < folders.len(),
        !is_television(folders[i]),
        forall|j: int|
            i < j < folders.len() && !is_television(#[trigger] folders[j])
                ==> discovery::normalized_library_id(folders[j].id@)
                != discovery::normalized_library_id(folders[i].id@),
    ensures
        ({
            let after = discovery::listed(m, server, folders);
            let key = (server.id, discovery::normalized_library_id(folders[i].id@));
            &&& after.contains_key(key)
            &&& after[key].server_id == server.id
            &&& after[key].server_name == server.name@
            &&& after[key].library_id == discovery::normalized_library_id(folders[i].id@)
            &&& after[key].library_name == folders[i].name@
            &&& match folders[i].collection_type {
                Some(t) => after[key].collection_type == t@,
                None => after[key].collection_type.len() == 0,
            }
        }),
{
    let kept = discovery::library_folders(folders);
    let k = lemma_kept_folder(folders, i);
    assert forall|l: int| k < l < kept.len() implies discovery::normalized_library_id(
        (#[trigger] kept[l]).id@,
    ) != discovery::normalized_library_id(kept[k].id@) by {
        let j = choose|j: int|
            i < j < folders.len() && !is_television(folders[j]) && #[trigger] folders[j]
                == kept[l];
        assert(!is_television(folders[j]));
    }
    lemma_last_folder_counts(discovery::of_others(m, server.id), server, kept, k);
}

/// A server that lists its folders has no library but these, whatever was known of
/// it before; the libraries of other servers stay as they were.
pub proof fn law_listing_leaves_nothing_else(
    m: Libraries,
    server: ServerRecord,
    folders: Seq<MediaFolder>,
    key: (i64, Seq<char>),
)
    ensures
        ({
            let after = discovery::listed(m, server, folders);
            &&& key.0 == server.id && after.contains_key(key) ==> exists|i: int|
                {
                    &&& 0 <= i < folders.len()
                    &&& !is_television(#[trigger] folders[i])
                    &&& discovery::normalized_library_id(folders[i].id@) == key.1
                    &&& says_what_folder_says(after[key], server, folders[i])
                }
            &&& key.0 != server.id ==> (after.contains_key(key) <==> m.contains_key(key)) && (
            m.contains_key(key) ==> after[key] == m[key])
        }),
{
    let after = discovery::listed(m, server, folders);
    discovery::law_listing_replaces_the_servers_libraries(m, server, folders);
    lemma_keys_are_identifiers(
        discovery::of_others(m, server.id),
        server,
        discovery::library_folders(folders),
        key,
    );
    if key.0 == server.id && after.contains_key(key) {
        let i = choose|i: int|
            0 <= i < folders.len() && !discovery::is_live_tv(#[trigger] folders[i]) && after[key]
                == discovery::folder_library(server, folders[i]);
        assert(after[key].library_id == discovery::normalized_library_id(folders[i].id@));
        assert(!is_television(folders[i]));
        assert(says_what_folder_says(after[key], server, folders[i]));
    }
}

proof fn lemma_keys_are_identifiers(
    m: Libraries,
    server: ServerRecord,
    folders: Seq<MediaFolder>,
    key: (i64, Seq<char>),
)
    requires
        forall|k: (i64, Seq<char>)| #[trigger] m.contains_key(k) ==> k.0 != server.id,
    ensures
        discovery::with_folders(m, server, folders).contains_key(key) && key.0 == server.id
            ==> discovery::with_folders(m, server, folders)[key].library_id == key.1,
    decreases folders.len(),
{
    if folders.len() > 0 {
        lemma_keys_are_identifiers(m, server, folders.drop_last(), key);
    }
}

/// What a server is known to have once it has listed its folders does not depend on
/// what was known before.
proof fn lemma_listing_forgets(
    a: Libraries,
    b: Libraries,
    server: ServerRecord,
    folders: Seq<MediaFolder>,
    key: (i64, Seq<char>),
)
    requires
        key.0 == server.id,
    ensures
        discovery::listed(a, server, folders).contains_key(key) <==> discovery::listed(
            b,
            server,
            folders,
        ).contains_key(key),
        discovery::listed(a, server, folders).contains_key(key) ==> discovery::listed(
            a,
            server,
            folders,
        )[key] == discovery::listed(b, server, folders)[key],
{
    lemma_adding_forgets(
        discovery::of_others(a, server.id),
        discovery::of_others(b, server.id),
        server,
        discovery::library_folders(folders),
        key,
    );
}

proof fn lemma_adding_forgets(
    a: Libraries,
    b: Libraries,
    server: ServerRecord,
    folders: Seq<MediaFolder>,
    key: (i64, Seq<char>),
)
    requires
        !a.contains_key(key),
        !b.contains_key(key),
    ensures
        discovery::with_folders(a, server, folders).contains_key(key) <==> discovery::with_folders(
            b,
            server,
            folders,
        ).contains_key(key),
        discovery::with_folders(a, server, folders).contains_key(key) ==> discovery::with_folders(
            a,
            server,
            folders,
        )[key] == discovery::with_folders(b, server, folders)[key],
    decreases folders.len(),
{
    if folders.len() > 0 {
        lemma_adding_forgets(a, b, server, folders.drop_last(), key);
    }
}

/// No two servers that are asked have one identifier.
pub open spec fn asked_distinct(asked: Seq<AskedServer>) -> bool {
    forall|i: int, j: int|
        0 <= i < j < asked.len() ==> (#[trigger] asked[i]).server.id != (
        #[trigger] asked[j]).server.id
}

/// The libraries of each server are those that it lists, where it lists its
/// folders, and those that were seen, where it does not; asking one server changes
/// nothing of another's.
pub proof fn law_each_server_speaks_for_itself(
    m: Libraries,
    asked: Seq<AskedServer>,
    j: int,
    key: (i64, Seq<char>),
)
    requires
        asked_distinct(asked),
        0 <= j < asked.len(),
        key.0 == asked[j].server.id,
    ensures
        ({
            let after = discovery::asked_all(m, asked);
            match asked[j].answer {
                ServerAnswer::Folders(folders) => {
                    let its = discovery::listed(Map::empty(), asked[j].server, folders@);
                    &&& after.contains_key(key) <==> its.contains_key(key)
                    &&& after.contains_key(key) ==> after[key] == its[key]
                },
                _ => {
                    &&& after.contains_key(key) <==> m.contains_key(key)
                    &&& after.contains_key(key) ==> after[key] == m[key]
                },
            }
        }),
    decreases asked.len(),
{
    let n = asked.len() - 1;
    let fewer = asked.drop_last();
    let so_far = discovery::asked_all(m, fewer);
    if j == n {
        lemma_unasked_stay(m, fewer, key);
        match asked[n].answer {
            ServerAnswer::Folders(folders) => {
                lemma_listing_forgets(
                    so_far,
                    Map::empty(),
                    asked[n].server,
                    folders@,
                    key,
                );
            },
            _ => {},
        }
    } else {
        assert(fewer[j] == asked[j]);
        assert(asked_distinct(fewer)) by {
            assert forall|a: int, b: int| 0 <= a < b < fewer.len() implies (
            #[trigger] fewer[a]).server.id != (#[trigger] fewer[b]).server.id by {
                assert(fewer[a] == asked[a] && fewer[b] == asked[b]);
            }
        }
        law_each_server_speaks_for_itself(m, fewer, j, key);
        assert(asked[j].server.id != asked[n].server.id);
        match asked[n].answer {
            ServerAnswer::Folders(folders) => {
                law_listing_leaves_nothing_else(so_far, asked[n].server, folders@, key);
            },
            _ => {},
        }
    }
}

proof fn lemma_unasked_stay(m: Libraries, asked: Seq<AskedServer>, key: (i64, Seq<char>))
    requires
        forall|i: int| 0 <= i < asked.len() ==> (#[trigger] asked[i]).server.id != key.0,
    ensures
        discovery::asked_all(m, asked).contains_key(key) <==> m.contains_key(key),
        m.contains_key(key) ==> discovery::asked_all(m, asked)[key] == m[key],
    decreases asked.len(),
{
    if asked.len() > 0 {
        let fewer = asked.drop_last();
        assert forall|i: int| 0 <= i < fewer.len() implies (#[trigger] fewer[i]).server.id
            != key.0 by {
            assert(fewer[i] == asked[i]);
        }
        lemma_unasked_stay(m, fewer, key);
        match asked.last().answer {
            ServerAnswer::Folders(folders) => {
                assert(asked[asked.len() - 1].server.id != key.0);
                law_listing_leaves_nothing_else(
                    discovery::asked_all(m, fewer),
                    asked.last().server,
                    folders@,
                    key,
                );
            },
            _ => {},
        }
    }
}

/// A server is named by the last of those with its identifier; one that is not
/// there has no name.
pub proof fn law_servers_are_named_by_their_id(servers: Seq<AskedServer>, id: i64)
    ensures
        match discovery::server_name_of(servers, id) {
            Some(name) => exists|i: int|
                {
                    &&& 0 <= i < servers.len()
                    &&& (#[trigger] servers[i]).server.id == id
                    &&& servers[i].server.name@ == name
                    &&& forall|j: int|
                        i < j < servers.len() ==> (#[trigger] servers[j]).server.id != id
                },
            None => forall|i: int|
                0 <= i < servers.len() ==> (#[trigger] servers[i]).server.id != id,
        },
    decreases servers.len(),
{
    if servers.len() > 0 {
        let n = servers.len() - 1;
        if servers[n].server.id != id {
            let fewer = servers.drop_last();
            law_servers_are_named_by_their_id(fewer, id);
            match discovery::server_name_of(fewer, id) {
                Some(name) => {
                    let i = choose|i: int|
                        {
                            &&& 0 <= i < fewer.len()
                            &&& (#[trigger] fewer[i]).server.id == id
                            &&& fewer[i].server.name@ == name
                            &&& forall|j: int|
                                i < j < fewer.len() ==> (#[trigger] fewer[j]).server.id != id
                        };
                    assert(servers[i] == fewer[i]);
                    assert forall|j: int| i < j < servers.len() implies (
                    #[trigger] servers[j]).server.id != id by {
                        if j < n {
                            assert(fewer[j] == servers[j]);
                        }
                    }
                },
                None => {
                    assert forall|i: int| 0 <= i < servers.len() implies (
                    #[trigger] servers[i]).server.id != id by {
                        if i < n {
                            assert(fewer[i] == servers[i]);
                        }
                    }
                },
            }
        } else {
            assert(servers[n].server.name@ == servers.last().server.name@);
        }
    }
}

/// A library that was seen on a server which is still there is known as it was
/// seen, under that server's name; of two with one identifier the later counts.
pub proof fn law_seen_library_is_known_as_seen(
    servers: Seq<AskedServer>,
    seen: Seq<StoredLibrary>,
    i: int,
)
    requires
        0 <= i < seen.len(),
        forall|j: int|
            i < j < seen.len() ==> (#[trigger] seen[j]).server_id != seen[i].server_id
                || seen[j].original_library_id@ != seen[i].original_library_id@,
    ensures
        ({
            let found = discovery::observed(servers, seen);
            let key = (seen[i].server_id, seen[i].original_library_id@);
            match discovery::server_name_of(servers, seen[i].server_id) {
                Some(name) => {
                    &&& found.contains_key(key)
                    &&& found[key].server_id == seen[i].server_id
                    &&& found[key].server_name == name
                    &&& found[key].library_id == seen[i].original_library_id@
                    &&& found[key].library_name == seen[i].name@
                    &&& found[key].collection_type == seen[i].collection_type@
                },
                None => !found.contains_key(key),
            }
        }),
    decreases seen.len(),
{
    let n = seen.len() - 1;
    let fewer = seen.drop_last();
    if i < n {
        assert(fewer[i] == seen[i]);
        assert forall|j: int| i < j < fewer.len() implies (#[trigger] fewer[j]).server_id
            != fewer[i].server_id || fewer[j].original_library_id@
            != fewer[i].original_library_id@ by {
            assert(fewer[j] == seen[j]);
        }
        law_seen_library_is_known_as_seen(servers, fewer, i);
        assert(seen[n].server_id != seen[i].server_id || seen[n].original_library_id@
            != seen[i].original_library_id@);
    } else {
        let key = (seen[i].server_id, seen[i].original_library_id@);
        if discovery::observed(servers, fewer).contains_key(key) {
            law_only_seen_libraries_are_known(servers, fewer, key);
        }
    }
}

/// Nothing is known that was not seen, and nothing of a server that is gone.
pub proof fn law_only_seen_libraries_are_known(
    servers: Seq<AskedServer>,
    seen: Seq<StoredLibrary>,
    key: (i64, Seq<char>),
)
    requires
        discovery::observed(servers, seen).contains_key(key),
    ensures
        exists|i: int|
            0 <= i < seen.len() && (#[trigger] seen[i]).server_id == key.0
                && seen[i].original_library_id@ == key.1,
        discovery::server_name_of(servers, key.0) is Some,
    decreases seen.len(),
{
    if seen.len() > 0 {
        let n = seen.len() - 1;
        let fewer = seen.drop_last();
        if key == (seen[n].server_id, seen[n].original_library_id@) && discovery::server_name_of(
            servers,
            seen[n].server_id,
        ) is Some {
            assert(seen[n].server_id == key.0);
        } else {
            law_only_seen_libraries_are_known(servers, fewer, key);
            let i = choose|i: int|
                0 <= i < fewer.len() && (#[trigger] fewer[i]).server_id == key.0
                    && fewer[i].original_library_id@ == key.1;
            assert(seen[i] == fewer[i]);
        }
    }
}

/// Without a list of servers nothing is discovered; with one, what was seen is the
/// start, nothing where it could not be loaded, and then the servers are asked.
pub proof fn law_discovery_starts_from_what_was_seen(
    asked: Result<Vec<AskedServer>, String>,
    seen: Result<Vec<StoredLibrary>, String>,
    key: (i64, Seq<char>),
)
    ensures
        asked is Err ==> !discovery::discovered(asked, seen).contains_key(key),
        asked matches Ok(servers) ==> match seen {
            Ok(libraries) => discovery::discovered(asked, seen) == discovery::asked_all(
                discovery::observed(servers@, libraries@),
                servers@,
            ),
            Err(_) => discovery::discovered(asked, seen) == discovery::asked_all(
                discovery::observed(servers@, Seq::empty()),
                servers@,
            ),
        },
{
}

/// Every folder that a server lists, but live television, is discovered, and says what
/// the folder says; what was seen earlier on that server, or is known of others, is no
/// matter.
pub proof fn law_listed_folders_are_discovered(
    servers: Vec<AskedServer>,
    seen: Result<Vec<StoredLibrary>, String>,
    j: int,
    folders: Vec<MediaFolder>,
    i: int,
)
    requires
        asked_distinct(servers@),
        0 <= j < servers@.len(),
        servers@[j].answer == ServerAnswer::Folders(folders),
        0 <= i < folders@.len(),
        !is_television(folders@[i]),
        forall|k: int|
            i < k < folders@.len() && !is_television(#[trigger] folders@[k])
                ==> discovery::normalized_library_id(folders@[k].id@)
                != discovery::normalized_library_id(folders@[i].id@),
    ensures
        ({
            let found = discovery::discovered(Ok(servers), seen);
            let key = (
                servers@[j].server.id,
                discovery::normalized_library_id(folders@[i].id@),
            );
            &&& found.contains_key(key)
            &&& found[key].server_id == servers@[j].server.id
            &&& found[key].server_name == servers@[j].server.name@
            &&& found[key].library_name == folders@[i].name@
            &&& match folders@[i].collection_type {
                Some(t) => found[key].collection_type == t@,
                None => found[key].collection_type.len() == 0,
            }
        }),
{
    let key = (servers@[j].server.id, discovery::normalized_library_id(folders@[i].id@));
    let start = discovery::observed(
        servers@,
        match seen {
            Ok(libraries) => libraries@,
            Err(_) => Seq::empty(),
        },
    );
    law_each_server_speaks_for_itself(start, servers@, j, key);
    law_listed_library_says_what_its_folder_says(
        Map::empty(),
        servers@[j].server,
        folders@,
        i,
    );
}

/// A library that was seen on a server which does not list its folders is discovered as
/// it was seen; one of a server that is gone is not.
pub proof fn law_seen_libraries_are_discovered(
    servers: Vec<AskedServer>,
    seen: Vec<StoredLibrary>,
    i: int,
)
    requires
        asked_distinct(servers@),
        0 <= i < seen@.len(),
        forall|k: int|
            i < k < seen@.len() ==> (#[trigger] seen@[k]).server_id != seen@[i].server_id
                || seen@[k].original_library_id@ != seen@[i].original_library_id@,
    ensures
        ({
            let found = discovery::discovered(Ok(servers), Ok(seen));
            let key = (seen@[i].server_id, seen@[i].original_library_id@);
            &&& forall|j: int|
                0 <= j < servers@.len() && (#[trigger] servers@[j]).server.id
                    == seen@[i].server_id && !(servers@[j].answer is Folders) ==> {
                    &&& found.contains_key(key)
                    &&& found[key].server_id == seen@[i].server_id
                    &&& found[key].server_name == servers@[j].server.name@
                    &&& found[key].library_id == seen@[i].original_library_id@
                    &&& found[key].library_name == seen@[i].name@
                    &&& found[key].collection_type == seen@[i].collection_type@
                }
            &&& (forall|j: int|
                0 <= j < servers@.len() ==> (#[trigger] servers@[j]).server.id
                    != seen@[i].server_id) ==> !found.contains_key(key)
        }),
{
    let found = discovery::discovered(Ok(servers), Ok(seen));
    let key = (seen@[i].server_id, seen@[i].original_library_id@);
    let start = discovery::observed(servers@, seen@);
    law_seen_library_is_known_as_seen(servers@, seen@, i);
    law_servers_are_named_by_their_id(servers@, seen@[i].server_id);
    assert forall|j: int|
        0 <= j < servers@.len() && (#[trigger] servers@[j]).server.id == seen@[i].server_id && !(
        servers@[j].answer is Folders) implies {
        &&& found.contains_key(key)
        &&& found[key].server_id == seen@[i].server_id
        &&& found[key].server_name == servers@[j].server.name@
        &&& found[key].library_id == seen@[i].original_library_id@
        &&& found[key].library_name == seen@[i].name@
        &&& found[key].collection_type == seen@[i].collection_type@
    } by {
        law_each_server_speaks_for_itself(start, servers@, j, key);
        let name = discovery::server_name_of(servers@, seen@[i].server_id).unwrap();
        let k = choose|k: int|
            {
                &&& 0 <= k < servers@.len()
                &&& (#[trigger] servers@[k]).server.id == seen@[i].server_id
                &&& servers@[k].server.name@ == name
                &&& forall|l: int|
                    k < l < servers@.len() ==> (#[trigger] servers@[l]).server.id
                        != seen@[i].server_id
            };
        assert(k == j) by {
            if k < j {
                assert(servers@[k].server.id != servers@[j].server.id);
            }
            if j < k {
                assert(servers@[j].server.id != servers@[k].server.id);
            }
        }
    }
    if forall|j: int|
        0 <= j < servers@.len() ==> (#[trigger] servers@[j]).server.id != seen@[i].server_id {
        lemma_unasked_stay(start, servers@, key);
    }
}

/// Libraries come in the order of their servers' names, those of one server in the
/// order of their own.
pub proof fn law_libraries_are_ordered_by_server_then_name(
    libraries: Seq<AvailableView>,
    i: int,
    j: int,
)
    requires
        discovery::sorted(libraries),
        0 <= i < j < libraries.len(),
    ensures
        !text::text_lt(libraries[j].server_name, libraries[i].server_name),
        libraries[i].server_name == libraries[j].server_name ==> !text::text_lt(
            libraries[j].library_name,
            libraries[i].library_name,
        ),
{
    assert(!discovery::before(libraries[j], libraries[i]));
}

/// A library stands under some key.
pub open spec fn is_entry(m: Libraries, library: AvailableView) -> bool {
    exists|k: (i64, Seq<char>)| #[trigger] m.contains_key(k) && m[k] == library
}

/// A list of the libraries holds every one of them, once, and nothing else.
pub proof fn law_every_library_is_listed_once(libraries: Seq<AvailableView>, m: Libraries)
    requires
        discovery::lists(libraries, m),
    ensures
        m.dom().finite(),
        libraries.len() == m.dom().len(),
        forall|k: (i64, Seq<char>)| #[trigger] m.contains_key(k) ==> libraries.contains(m[k]),
        forall|i: int|
            0 <= i < libraries.len() ==> is_entry(m, #[trigger] libraries[i]),
{
    broadcast use vstd::seq_lib::group_to_multiset_ensures;

    let items = choose|items: Seq<((i64, Seq<char>), AvailableView)>|
        {
            &&& #[trigger] table::keys_distinct(items)
            &&& table::rows_map(items) == m
            &&& libraries.to_multiset() == items.map_values(
                |row: ((i64, Seq<char>), AvailableView)| row.1,
            ).to_multiset()
        };
    let values = items.map_values(|row: ((i64, Seq<char>), AvailableView)| row.1);
    let keys = items.map_values(|row: ((i64, Seq<char>), AvailableView)| row.0);
    assert(libraries.len() == libraries.to_multiset().len());
    assert(values.len() == values.to_multiset().len());
    assert(keys.no_duplicates()) by {
        assert forall|a: int, b: int|
            0 <= a < keys.len() && 0 <= b < keys.len() && a != b implies keys[a] != keys[b] by {
            assert(items[a].0 != items[b].0);
        }
    }
    keys.unique_seq_to_set();
    assert(keys.to_set() =~= m.dom()) by {
        assert forall|k: (i64, Seq<char>)| keys.to_set().contains(k) <==> m.dom().contains(k) by {
            if keys.to_set().contains(k) {
                let a = choose|a: int| 0 <= a < keys.len() && keys[a] == k;
                table::lemma_row_is_entry(items, a);
            }
            if m.dom().contains(k) {
                let a = table::lemma_entry_is_row(items, k);
                assert(keys[a] == k);
            }
        }
    }
    vstd::seq_lib::seq_to_set_is_finite(keys);
    assert forall|k: (i64, Seq<char>)| #[trigger] m.contains_key(k) implies libraries.contains(
        m[k],
    ) by {
        let a = table::lemma_entry_is_row(items, k);
        assert(values[a] == m[k]);
        assert(values.contains(m[k]));
        assert(values.to_multiset().count(m[k]) > 0);
        assert(libraries.to_multiset().count(m[k]) > 0);
    }
    assert forall|i: int| 0 <= i < libraries.len() implies is_entry(
        m,
        #[trigger] libraries[i],
    ) by {
        assert(libraries.contains(libraries[i]));
        assert(libraries.to_multiset().count(libraries[i]) > 0);
        assert(values.to_multiset().count(libraries[i]) > 0);
        assert(values.contains(libraries[i]));
        let a = choose|a: int| 0 <= a < values.len() && values[a] == libraries[i];
        table::lemma_row_is_entry(items, a);
        assert(m.contains_key(items[a].0));
    }
}

/// The view of a library shows every field.
pub proof fn law_library_view_shows_the_library(library: AvailableLibrary)
    ensures
        library@.server_id == library.server_id,
        library@.server_name == library.server_name@,
        library@.library_id == library.library_id@,
        library@.library_name == library.library_name@,
        library@.collection_type == library.collection_type@,
{
}

/// The views of a list are its libraries' views, one by one.
pub proof fn law_views_of_a_list_are_its_libraries(libraries: Seq<AvailableLibrary>)
    ensures
        discovery::available_views(libraries).len() == libraries.len(),
        forall|i: int|
            0 <= i < libraries.len() ==> #[trigger] discovery::available_views(libraries)[i]
                == libraries[i]@,
{
}

/// What is remembered of a server's folders: each but live television, in their
/// order, under the folder's own identifier, with its name and its type.
pub proof fn law_remembered_folders_are_as_listed(
    folders: Seq<MediaFolder>,
    stored: Seq<StoredLibrary>,
    server_id: i64,
)
    requires
        stored.len() == discovery::library_folders(folders).len(),
        forall|i: int|
            0 <= i < stored.len() ==> discovery::stores(
                #[trigger] stored[i],
                server_id,
                discovery::library_folders(folders)[i],
            ),
    ensures
        ({
            let kept = folders.filter(|folder: MediaFolder| !is_television(folder));
            &&& stored.len() == kept.len()
            &&& forall|i: int|
                0 <= i < stored.len() ==> {
                    &&& (#[trigger] stored[i]).server_id == server_id
                    &&& stored[i].original_library_id@ == kept[i].id@
                    &&& stored[i].name@ == kept[i].name@
                    &&& match kept[i].collection_type {
                        Some(t) => stored[i].collection_type@ == t@,
                        None => stored[i].collection_type@.len() == 0,
                    }
                }
        }),
{
    lemma_kept_are_filtered(folders);
    assert forall|i: int| 0 <= i < stored.len() implies discovery::stores(
        #[trigger] stored[i],
        server_id,
        folders.filter(|folder: MediaFolder| !is_television(folder))[i],
    ) by {}
}

proof fn lemma_kept_are_filtered(folders: Seq<MediaFolder>)
    ensures
        discovery::library_folders(folders) == folders.filter(
            |folder: MediaFolder| !is_television(folder),
        ),
    decreases folders.len(),
{
    reveal(Seq::filter);
    if folders.len() > 0 {
        lemma_kept_are_filtered(folders.drop_last());
    } else {
        assert(discovery::library_folders(folders) =~= folders.filter(
            |folder: MediaFolder| !is_television(folder),
        ));
    }
}

} // verus!
