//! What a Quick Connect sign-in asks for, and what it answers.
use vstd::prelude::*;
use crate::quick_connect::login;
use crate::quick_connect::login::{
    AuthErrorView, AuthenticateResponse, JellyfinApiError, Login, LoginTask,
    QuickConnectAuthError, Server, ServerMapping, SyncPlayUserAccessType,
};
use crate::quick_connect::session::SessionView;
use crate::status::StatusCode;
use crate::users::User;

verus! {

/// One of the servers has this identifier.
pub open spec fn is_listed(servers: Seq<Server>, id: i64) -> bool {
    exists|k: int| 0 <= k < servers.len() && (#[trigger] servers[k]).id == id
}

/// No two mappings are for one server.
pub open spec fn mappings_distinct(mappings: Seq<ServerMapping>) -> bool {
    forall|i: int, j: int|
        0 <= i < j < mappings.len() ==> (#[trigger] mappings[i]).server_id != (
        #[trigger] mappings[j]).server_id
}

proof fn lemma_server_found(servers: Seq<Server>, id: i64)
    ensures
        ({
            let at = login::server_position(servers, id);
            &&& 0 <= at <= servers.len()
            &&& at < servers.len() <==> is_listed(servers, id)
            &&& at < servers.len() ==> servers[at].id == id
        }),
{
    login::lemma_server_position(servers, id);
    let at = login::server_position(servers, id);
    if is_listed(servers, id) {
        let k = choose|k: int| 0 <= k < servers.len() && (#[trigger] servers[k]).id == id;
        assert(k >= at);
    }
    if at < servers.len() {
        assert(servers[at].id == id);
    }
}

proof fn lemma_removed_servers(servers: Seq<Server>, at: int)
    requires
        0 <= at < servers.len(),
    ensures
        forall|k: int|
            0 <= k < servers.len() && k != at ==> servers.remove(at).contains(
                #[trigger] servers[k],
            ),
        forall|k: int|
            0 <= k < servers.len() - 1 ==> servers.contains(#[trigger] servers.remove(at)[k]),
        login::ids_distinct(servers) ==> login::ids_distinct(servers.remove(at)),
{
    let left = servers.remove(at);
    assert forall|k: int| 0 <= k < servers.len() && k != at implies left.contains(
        #[trigger] servers[k],
    ) by {
        let j = if k < at { k } else { k - 1 };
        assert(left[j] == servers[k]);
    }
    assert forall|k: int| 0 <= k < servers.len() - 1 implies servers.contains(
        #[trigger] left[k],
    ) by {
        let j = if k < at { k } else { k + 1 };
        assert(left[k] == servers[j]);
    }
    if login::ids_distinct(servers) {
        assert forall|i: int, j: int| 0 <= i < j < left.len() implies (#[trigger] left[i]).id != (
        #[trigger] left[j]).id by {
            let i0 = if i < at { i } else { i + 1 };
            let j0 = if j < at { j } else { j + 1 };
            assert(left[i] == servers[i0] && left[j] == servers[j0]);
        }
    }
}

/// A server that a mapping is for takes part in the sign-in, with the first
/// mapping that is for it.
pub proof fn law_first_mapping_of_a_server_signs_in(
    mappings: Seq<ServerMapping>,
    servers: Seq<Server>,
    i: int,
    k: int,
)
    requires
        login::ids_distinct(servers),
        0 <= i < mappings.len(),
        0 <= k < servers.len(),
        mappings[i].server_id == servers[k].id,
        forall|j: int| 0 <= j < i ==> (#[trigger] mappings[j]).server_id != servers[k].id,
    ensures
        login::paired_tasks(mappings, servers).contains(
            LoginTask { server: servers[k], mapping: mappings[i] },
        ),
    decreases i,
{
    let tasks = login::paired_tasks(mappings, servers);
    let wanted = LoginTask { server: servers[k], mapping: mappings[i] };
    let at = login::server_position(servers, mappings[0].server_id);
    lemma_server_found(servers, mappings[0].server_id);
    if i == 0 {
        assert(is_listed(servers, servers[k].id));
        assert(at == k) by {
            if at != k {
                let a = if at < k { at } else { k };
                let b = if at < k { k } else { at };
                assert(servers[a].id != servers[b].id);
            }
        }
        assert(tasks[0] == wanted);
    } else {
        let rest = mappings.skip(1);
        assert(mappings[0].server_id != servers[k].id);
        assert(rest[i - 1] == mappings[i]);
        assert forall|j: int| 0 <= j < i - 1 implies (#[trigger] rest[j]).server_id
            != servers[k].id by {
            assert(rest[j] == mappings[j + 1]);
        }
        if at < servers.len() {
            let left = servers.remove(at);
            lemma_removed_servers(servers, at);
            assert(left.contains(servers[k]));
            let k1 = choose|k1: int| 0 <= k1 < left.len() && left[k1] == servers[k];
            law_first_mapping_of_a_server_signs_in(rest, left, i - 1, k1);
            let fewer = login::paired_tasks(rest, left);
            let t = choose|t: int| 0 <= t < fewer.len() && fewer[t] == wanted;
            assert(tasks[t + 1] == wanted);
        } else {
            law_first_mapping_of_a_server_signs_in(rest, servers, i - 1, k);
        }
    }
}

proof fn lemma_filter_agrees(
    mappings: Seq<ServerMapping>,
    p: spec_fn(ServerMapping) -> bool,
    q: spec_fn(ServerMapping) -> bool,
)
    requires
        forall|i: int| 0 <= i < mappings.len() ==> p(#[trigger] mappings[i]) == q(mappings[i]),
    ensures
        mappings.filter(p) == mappings.filter(q),
    decreases mappings.len(),
{
    reveal(Seq::filter);
    if mappings.len() > 0 {
        let fewer = mappings.drop_last();
        assert forall|i: int| 0 <= i < fewer.len() implies p(#[trigger] fewer[i]) == q(
            fewer[i],
        ) by {
            assert(fewer[i] == mappings[i]);
        }
        lemma_filter_agrees(fewer, p, q);
        assert(p(mappings[mappings.len() - 1]) == q(mappings[mappings.len() - 1]));
    }
}

proof fn lemma_filter_head(mappings: Seq<ServerMapping>, p: spec_fn(ServerMapping) -> bool)
    requires
        mappings.len() > 0,
    ensures
        mappings.filter(p) == if p(mappings[0]) {
            seq![mappings[0]] + mappings.skip(1).filter(p)
        } else {
            mappings.skip(1).filter(p)
        },
{
    let head = seq![mappings[0]];
    assert(mappings =~= head + mappings.skip(1));
    Seq::filter_distributes_over_add(head, mappings.skip(1), p);
    reveal(Seq::filter);
    assert(head.drop_last() =~= Seq::empty());
    assert(head.drop_last().filter(p) =~= Seq::empty());
    if p(mappings[0]) {
        assert(head.filter(p) =~= head);
    } else {
        assert(head.filter(p) =~= Seq::empty());
        assert(Seq::empty() + mappings.skip(1).filter(p) =~= mappings.skip(1).filter(p));
    }
}

/// A user is signed in wherever they have an account: of mappings for different
/// servers, exactly those whose server is listed become tasks, in their order, each
/// with its own server.
pub proof fn law_every_account_is_signed_in(mappings: Seq<ServerMapping>, servers: Seq<Server>)
    requires
        login::ids_distinct(servers),
        mappings_distinct(mappings),
    ensures
        ({
            let tasks = login::paired_tasks(mappings, servers);
            &&& tasks.map_values(|task: LoginTask| task.mapping) == mappings.filter(
                |mapping: ServerMapping| is_listed(servers, mapping.server_id),
            )
            &&& forall|t: int|
                0 <= t < tasks.len() ==> servers.contains((#[trigger] tasks[t]).server)
                    && tasks[t].server.id == tasks[t].mapping.server_id
            &&& forall|i: int, k: int|
                0 <= i < mappings.len() && 0 <= k < servers.len() && (
                #[trigger] mappings[i]).server_id == (#[trigger] servers[k]).id
                    ==> tasks.contains(LoginTask { server: servers[k], mapping: mappings[i] })
        }),
    decreases mappings.len(),
{
    let tasks = login::paired_tasks(mappings, servers);
    let listed = |mapping: ServerMapping| is_listed(servers, mapping.server_id);
    login::law_tasks_fit(mappings, servers);
    assert forall|i: int, k: int|
        0 <= i < mappings.len() && 0 <= k < servers.len() && (#[trigger] mappings[i]).server_id == (
        #[trigger] servers[k]).id implies tasks.contains(
        LoginTask { server: servers[k], mapping: mappings[i] },
    ) by {
        law_first_mapping_of_a_server_signs_in(mappings, servers, i, k);
    }
    if mappings.len() > 0 {
        let rest = mappings.skip(1);
        let at = login::server_position(servers, mappings[0].server_id);
        lemma_server_found(servers, mappings[0].server_id);
        lemma_filter_head(mappings, listed);
        assert(mappings_distinct(rest)) by {
            assert forall|i: int, j: int| 0 <= i < j < rest.len() implies (
            #[trigger] rest[i]).server_id != (#[trigger] rest[j]).server_id by {
                assert(rest[i] == mappings[i + 1] && rest[j] == mappings[j + 1]);
            }
        }
        if at < servers.len() {
            let left = servers.remove(at);
            lemma_removed_servers(servers, at);
            law_every_account_is_signed_in(rest, left);
            let still = |mapping: ServerMapping| is_listed(left, mapping.server_id);
            assert forall|i: int| 0 <= i < rest.len() implies listed(#[trigger] rest[i]) == still(
                rest[i],
            ) by {
                let id = rest[i].server_id;
                assert(rest[i] == mappings[i + 1]);
                assert(mappings[0].server_id != mappings[i + 1].server_id);
                if is_listed(servers, id) {
                    let k = choose|k: int|
                        0 <= k < servers.len() && (#[trigger] servers[k]).id == id;
                    assert(left.contains(servers[k]));
                    let j = choose|j: int| 0 <= j < left.len() && left[j] == servers[k];
                    assert(left[j].id == id);
                }
                if is_listed(left, id) {
                    let j = choose|j: int| 0 <= j < left.len() && (#[trigger] left[j]).id == id;
                    assert(servers.contains(left[j]));
                    let k = choose|k: int| 0 <= k < servers.len() && servers[k] == left[j];
                    assert(servers[k].id == id);
                }
            }
            lemma_filter_agrees(rest, listed, still);
            let fewer = login::paired_tasks(rest, left);
            assert(tasks.map_values(|task: LoginTask| task.mapping) =~= seq![mappings[0]]
                + fewer.map_values(|task: LoginTask| task.mapping));
        } else {
            law_every_account_is_signed_in(rest, servers);
        }
    } else {
        reveal(Seq::filter);
        assert(tasks.map_values(|task: LoginTask| task.mapping) =~= mappings.filter(listed));
    }
}

/// The answer is the first that any task gave, in the tasks' order; there is none
/// exactly where every task failed.
pub proof fn law_first_answer_counts(
    results: Seq<Result<AuthenticateResponse, QuickConnectAuthError>>,
)
    ensures
        match login::first_answer(results) {
            Some(answer) => exists|i: int|
                {
                    &&& 0 <= i < results.len()
                    &&& #[trigger] results[i] == Ok::<AuthenticateResponse, QuickConnectAuthError>(
                        answer,
                    )
                    &&& forall|j: int| 0 <= j < i ==> (#[trigger] results[j]) is Err
                },
            None => forall|i: int| 0 <= i < results.len() ==> (#[trigger] results[i]) is Err,
        },
    decreases results.len(),
{
    if results.len() > 0 {
        match results[0] {
            Ok(answer) => {
                assert(results[0] == Ok::<AuthenticateResponse, QuickConnectAuthError>(answer));
            },
            Err(_) => {
                let rest = results.skip(1);
                law_first_answer_counts(rest);
                match login::first_answer(rest) {
                    Some(answer) => {
                        let i = choose|i: int|
                            {
                                &&& 0 <= i < rest.len()
                                &&& #[trigger] rest[i] == Ok::<
                                    AuthenticateResponse,
                                    QuickConnectAuthError,
                                >(answer)
                                &&& forall|j: int| 0 <= j < i ==> (#[trigger] rest[j]) is Err
                            };
                        assert(results[i + 1] == rest[i]);
                        assert forall|j: int| 0 <= j < i + 1 implies (
                        #[trigger] results[j]) is Err by {
                            if j > 0 {
                                assert(rest[j - 1] == results[j]);
                            }
                        }
                    },
                    None => {
                        assert forall|i: int| 0 <= i < results.len() implies (
                        #[trigger] results[i]) is Err by {
                            if i > 0 {
                                assert(rest[i - 1] == results[i]);
                            }
                        }
                    },
                }
            },
        }
    }
}

/// The client is shown the proxy and the proxy's user throughout: wherever the
/// answer names a server it names the proxy, wherever it names a user it names the
/// proxy's, the token is the user's own key, the user is no administrator and may
/// create and join groups; what nothing here reads stays as the server sent it.
pub proof fn law_client_sees_the_proxy(answer: AuthenticateResponse, user: User, proxy: String)
    ensures
        ({
            let shown = login::rewritten(answer, user, proxy);
            &&& shown.server_id == proxy && shown.user.server_id == proxy
                && shown.session_info.server_id == proxy
            &&& shown.user.id == user.id && shown.session_info.user_id == user.id
            &&& shown.user.name == user.original_username && shown.session_info.user_name
                == user.original_username
            &&& shown.access_token == user.virtual_key
            &&& !shown.user.policy.is_administrator
            &&& shown.user.policy.sync_play_access == SyncPlayUserAccessType::CreateAndJoinGroups
            &&& shown.user.policy.extra == answer.user.policy.extra
            &&& shown.user.extra == answer.user.extra
            &&& shown.session_info.extra == answer.session_info.extra
        }),
{
}

/// A sign-in goes to the task's server, as the client that the authorization
/// describes, under the mapped name and with the mapping's password; that mapping
/// is then saved for the user and the server, under the user's key.
pub proof fn law_sign_in_uses_the_tasks_account(login: Login)
    ensures
        login::client_request(login).url == login.task.server.url,
        login::client_request(login).info.client == login.authorization.client,
        login::client_request(login).info.device == login.authorization.device,
        login::client_request(login).info.device_id == login.authorization.device_id,
        login::client_request(login).info.version == login.authorization.version,
        login::login_request(login).username == login.task.mapping.mapped_username,
        login::login_request(login).password == login.credentials.password,
        login::mapping_record(login).user_id == login.user.id,
        login::mapping_record(login).server == login.task.server,
        login::mapping_record(login).username == login.task.mapping.mapped_username,
        login::mapping_record(login).password == login.credentials.password,
        login::mapping_record(login).mapping_key == Some(login.credentials.mapping_key),
{
}

/// The session that is stored is the user's on the task's server, with the token
/// and the user that the server itself gave, and under an authorization that
/// differs from the request's in that token alone.
pub proof fn law_stored_session_is_the_servers(login: Login, answer: AuthenticateResponse)
    ensures
        ({
            let record = login::session_record(login, answer);
            &&& record.user_id == login.user.id
            &&& record.server == login.task.server
            &&& record.token == answer.access_token
            &&& record.original_user_id == answer.user.id
            &&& record.authorization.token == Some(answer.access_token)
            &&& record.authorization.client == login.authorization.client
            &&& record.authorization.device == login.authorization.device
            &&& record.authorization.device_id == login.authorization.device_id
            &&& record.authorization.version == login.authorization.version
        }),
{
}

/// A server that turns the account away means bad credentials; one that cannot be
/// understood, reached or addressed means just that, with the words that came.
pub proof fn law_errors_keep_their_meaning(error: JellyfinApiError)
    ensures
        login::auth_error_of(error) is InvalidCredentials <==> error is AuthenticationFailed
            || error is Unauthorized || error is Forbidden,
        match error {
            JellyfinApiError::Serialization(e) => login::auth_error_of(error)
                == AuthErrorView::Parse(e@),
            JellyfinApiError::InvalidResponse(e) => login::auth_error_of(error)
                == AuthErrorView::Parse(e@),
            JellyfinApiError::Network(e) => login::auth_error_of(error) == AuthErrorView::Network(
                e@,
            ),
            JellyfinApiError::ServerError(e) => login::auth_error_of(error)
                == AuthErrorView::Network(e@),
            JellyfinApiError::UrlParse(e) => login::auth_error_of(error)
                == AuthErrorView::Internal(e@),
            JellyfinApiError::NotFound => login::auth_error_of(error) is Internal,
            _ => true,
        },
{
}

/// A sign-in begins exactly where the session is there, its time is not up and a
/// user has confirmed it; without the session it is not found, without the user it
/// is not authorized.
pub proof fn law_sign_in_begins_only_when_confirmed(
    m: Map<Seq<char>, SessionView>,
    secret: Seq<char>,
    now: nat,
)
    ensures
        ({
            let there = m.contains_key(secret) && now <= m[secret].expires_at;
            let confirmed = m[secret].authenticated && m[secret].user_id is Some;
            &&& there && confirmed ==> login::begin_status(m, secret, now) is None
            &&& there && !confirmed ==> login::begin_status(m, secret, now) == Some(
                StatusCode::UNAUTHORIZED,
            )
            &&& !there ==> login::begin_status(m, secret, now) == Some(StatusCode::NOT_FOUND)
        }),
{
}

} // verus!
