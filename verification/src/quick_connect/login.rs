//! Signing in with Quick Connect.
//!
//! A sign-in asks the user store and the media servers in turn, so it is a row
//! of steps: each takes what was asked for and says what to ask for next, or
//! which status ends the sign-in.
use vstd::prelude::*;
use axum::http::{HeaderMap, HeaderValue};
use crate::authorization::Authorization;
use crate::clock;
use crate::clock::Timestamp;
use crate::headers;
use crate::quick_connect::device;
use crate::quick_connect::handlers;
use crate::quick_connect::handlers::QuickConnectAuthenticateRequest;
use crate::quick_connect::laws;
use crate::quick_connect::request;
use crate::quick_connect::request::effective_quick_connect_authorization;
use crate::quick_connect::session;
use crate::quick_connect::session::{QuickConnectSession, SessionView};
use crate::quick_connect::storage;
use crate::quick_connect::storage::QuickConnectStorage;
use crate::status::StatusCode;
use crate::users::User;

verus! {

/// A media server.
#[derive(Debug)]
pub struct Server {
    pub id: i64,
    pub name: String,
    pub url: String,
}

impl Clone for Server {
    fn clone(&self) -> (copy: Self)
        ensures
            copy == *self,
    {
        Server { id: self.id, name: self.name.clone(), url: self.url.clone() }
    }
}

/// Who a user is on one media server.
#[derive(Debug)]
pub struct ServerMapping {
    pub server_id: i64,
    pub mapped_username: String,
}

/// Which groups a user may watch with.
#[derive(Clone, Copy, Debug, PartialEq, Eq, Structural)]
pub enum SyncPlayUserAccessType {
    CreateAndJoinGroups,
    JoinGroups,
    NoGroups,
}

/// A field that a media server sent and nothing here reads: its name and its
/// JSON text.
#[derive(Debug)]
pub struct ExtraField {
    pub name: String,
    pub json: String,
}

/// What a user may do.
#[derive(Debug)]
pub struct UserPolicy {
    pub is_administrator: bool,
    pub sync_play_access: SyncPlayUserAccessType,
    pub extra: Vec<ExtraField>,
}

/// A user, as a media server describes them.
#[derive(Debug)]
pub struct ResponseUser {
    pub name: String,
    pub server_id: String,
    pub id: String,
    pub policy: UserPolicy,
    pub extra: Vec<ExtraField>,
}

/// A session, as a media server describes it.
#[derive(Debug)]
pub struct SessionInfo {
    pub user_id: String,
    pub user_name: String,
    pub server_id: String,
    pub extra: Vec<ExtraField>,
}

/// A media server's answer to a sign-in.
#[derive(Debug)]
pub struct AuthenticateResponse {
    pub user: ResponseUser,
    pub session_info: SessionInfo,
    pub access_token: String,
    pub server_id: String,
}

/// Why a sign-in on one media server failed.
#[derive(Debug)]
pub enum QuickConnectAuthError {
    Network(String),
    InvalidCredentials,
    Parse(String),
    Internal(String),
}

/// What a call to a media server can fail with.
#[derive(Debug)]
pub enum JellyfinApiError {
    AuthenticationFailed(String),
    Unauthorized,
    Forbidden,
    Serialization(String),
    InvalidResponse(String),
    Network(String),
    ServerError(String),
    UrlParse(String),
    NotFound,
}

/// The sign-in waits for the user that confirmed the session.
pub struct UserStep {
    pub requested: String,
    pub session: QuickConnectSession,
    pub user_id: String,
}

/// The sign-in waits for the list of media servers.
pub struct ServersStep {
    pub requested: String,
    pub session: QuickConnectSession,
    pub user: User,
}

/// The sign-in waits for the user's mappings.
pub struct MappingsStep {
    pub requested: String,
    pub session: QuickConnectSession,
    pub user: User,
    pub servers: Vec<Server>,
}

/// One sign-in on one media server.
pub struct LoginTask {
    pub server: Server,
    pub mapping: ServerMapping,
}

/// The sign-in has its tasks, all of which go out for one user and under one
/// authorization.
pub struct TasksStep {
    pub requested: String,
    pub user: User,
    pub authorization: Authorization,
    pub tasks: Vec<LoginTask>,
}

/// A task of a sign-in that waits for its credentials.
pub struct PendingLogin {
    pub user: User,
    pub authorization: Authorization,
    pub task: LoginTask,
}

/// The sign-in waits for its tasks to end.
pub struct RunningStep {
    pub requested: String,
    pub user: User,
}

/// How a sign-in with `secret` begins: not found where no session that is alive
/// has it, not authorized where nobody has confirmed the session.
pub open spec fn begin_status(m: Map<Seq<char>, SessionView>, secret: Seq<char>, now: nat) -> Option<
    StatusCode,
> {
    if !storage::live(m, secret, now) {
        Some(StatusCode::NOT_FOUND)
    } else if m[secret].user_id is None || !m[secret].authenticated {
        Some(StatusCode::UNAUTHORIZED)
    } else {
        None
    }
}

/// Begins a sign-in at `now`: asks for the user that confirmed the session.
pub fn begin_at(storage: &mut QuickConnectStorage, secret: &str, now: Timestamp) -> (next: Result<
    UserStep,
    StatusCode,
>)
    ensures
        final(storage)@ == storage::looked_up(old(storage)@, secret@, now@),
        match next {
            Ok(step) => {
                &&& begin_status(old(storage)@, secret@, now@) is None
                &&& step.requested@ == secret@
                &&& step.session@ == old(storage)@[secret@]
                &&& Some(step.user_id@) == old(storage)@[secret@].user_id
            },
            Err(status) => begin_status(old(storage)@, secret@, now@) == Some(status),
        },
{
    let session = match storage.get_session_at(secret, now) {
        Some(session) => session,
        None => {
            return Err(StatusCode::NOT_FOUND);
        },
    };
    let user_id = match &session.user_id {
        Some(user_id) => user_id.clone(),
        None => {
            return Err(StatusCode::UNAUTHORIZED);
        },
    };
    if !session.authenticated {
        return Err(StatusCode::UNAUTHORIZED);
    }
    Ok(UserStep { requested: secret.to_owned(), session, user_id })
}

/// Begins a sign-in by the clock.
pub fn handle_authenticate_with_quick_connect(
    storage: &mut QuickConnectStorage,
    request: &QuickConnectAuthenticateRequest,
) -> (next: Result<UserStep, StatusCode>)
    ensures
        exists|now: nat|
            {
                &&& clock::is_reading(now)
                &&& final(storage)@ == #[trigger] storage::looked_up(
                    old(storage)@,
                    request.secret@,
                    now,
                )
                &&& match next {
                    Ok(step) => {
                        &&& begin_status(old(storage)@, request.secret@, now) is None
                        &&& step.requested@ == request.secret@
                        &&& step.session@ == old(storage)@[request.secret@]
                        &&& Some(step.user_id@) == old(storage)@[request.secret@].user_id
                    },
                    Err(status) => begin_status(old(storage)@, request.secret@, now) == Some(
                        status,
                    ),
                }
            },
{
    let now = Timestamp::now();
    let next = begin_at(storage, request.secret.as_str(), now);
    assert(storage@ == storage::looked_up(old(storage)@, request.secret@, now@));
    next
}

impl UserStep {
    /// The user was looked up: an error of the lookup is an internal one, and a
    /// user who is gone is not authorized. Asks for the media servers.
    pub fn user_fetched(self, lookup: Result<Option<User>, String>) -> (next: Result<
        ServersStep,
        StatusCode,
    >)
        ensures
            match lookup {
                Ok(Some(user)) => next == Ok::<ServersStep, StatusCode>(
                    ServersStep { requested: self.requested, session: self.session, user },
                ),
                Ok(None) => next == Err::<ServersStep, StatusCode>(StatusCode::UNAUTHORIZED),
                Err(_) => next == Err::<ServersStep, StatusCode>(
                    StatusCode::INTERNAL_SERVER_ERROR,
                ),
            },
    {
        match lookup {
            Ok(Some(user)) => Ok(ServersStep { requested: self.requested, session: self.session, user }),
            Ok(None) => Err(StatusCode::UNAUTHORIZED),
            Err(_) => Err(StatusCode::INTERNAL_SERVER_ERROR),
        }
    }
}

impl ServersStep {
    /// The media servers were listed: without any there is nothing to sign in
    /// to. Asks for the user's mappings.
    pub fn servers_listed(self, servers: Result<Vec<Server>, String>) -> (next: Result<
        MappingsStep,
        StatusCode,
    >)
        ensures
            match servers {
                Ok(list) => if list@.len() == 0 {
                    next == Err::<MappingsStep, StatusCode>(StatusCode::NOT_FOUND)
                } else {
                    next == Ok::<MappingsStep, StatusCode>(
                        MappingsStep {
                            requested: self.requested,
                            session: self.session,
                            user: self.user,
                            servers: list,
                        },
                    )
                },
                Err(_) => next == Err::<MappingsStep, StatusCode>(
                    StatusCode::INTERNAL_SERVER_ERROR,
                ),
            },
    {
        match servers {
            Ok(list) => {
                if list.len() == 0 {
                    Err(StatusCode::NOT_FOUND)
                } else {
                    Ok(
                        MappingsStep {
                            requested: self.requested,
                            session: self.session,
                            user: self.user,
                            servers: list,
                        },
                    )
                }
            },
            Err(_) => Err(StatusCode::INTERNAL_SERVER_ERROR),
        }
    }
}

/// The position of the first server with an identifier, or the length where
/// there is none.
pub open spec fn server_position(servers: Seq<Server>, id: i64) -> int
    decreases servers.len(),
{
    if servers.len() == 0 || servers[0].id == id {
        0
    } else {
        1 + server_position(servers.skip(1), id)
    }
}

/// The tasks of a sign-in: each mapping, in turn, takes the first server with
/// its identifier that no mapping before it has taken. A mapping that finds
/// none is left out.
pub open spec fn paired_tasks(mappings: Seq<ServerMapping>, servers: Seq<Server>) -> Seq<LoginTask>
    decreases mappings.len(),
{
    if mappings.len() == 0 {
        Seq::empty()
    } else {
        let at = server_position(servers, mappings[0].server_id);
        if 0 <= at < servers.len() {
            seq![LoginTask { server: servers[at], mapping: mappings[0] }] + paired_tasks(
                mappings.skip(1),
                servers.remove(at),
            )
        } else {
            paired_tasks(mappings.skip(1), servers)
        }
    }
}

fn find_server(servers: &Vec<Server>, id: i64) -> (at: usize)
    ensures
        at == server_position(servers@, id),
        at <= servers@.len(),
{
    let mut at: usize = 0;
    assert(servers@.skip(0) =~= servers@);
    while at < servers.len() && servers[at].id != id
        invariant
            at <= servers@.len(),
            server_position(servers@, id) == at + server_position(servers@.skip(at as int), id),
        decreases servers@.len() - at,
    {
        assert(servers@.skip(at as int).skip(1) =~= servers@.skip(at + 1));
        at = at + 1;
    }
    at
}

/// Pairs mappings with servers.
pub fn pair_tasks(mappings: Vec<ServerMapping>, servers: Vec<Server>) -> (tasks: Vec<LoginTask>)
    ensures
        tasks@ == paired_tasks(mappings@, servers@),
{
    let ghost all = mappings@;
    let mut rest = mappings;
    let mut servers = servers;
    let mut tasks: Vec<LoginTask> = Vec::new();
    let ghost all_servers = servers@;
    while rest.len() > 0
        invariant
            paired_tasks(all, all_servers) == tasks@ + paired_tasks(rest@, servers@),
        decreases rest@.len(),
    {
        let ghost before = rest@;
        let ghost done = tasks@;
        let mapping = rest.remove(0);
        assert(rest@ =~= before.skip(1));
        let at = find_server(&servers, mapping.server_id);
        if at < servers.len() {
            let ghost had = servers@;
            let server = servers.remove(at);
            tasks.push(LoginTask { server, mapping });
            assert(tasks@ + paired_tasks(rest@, servers@) =~= done + (seq![
                LoginTask { server: had[at as int], mapping: before[0] },
            ] + paired_tasks(rest@, servers@)));
        }
    }
    assert(tasks@ + Seq::<LoginTask>::empty() =~= tasks@);
    tasks
}

impl MappingsStep {
    /// The user's mappings were listed: a user without any is not authorized.
    /// Asks for a sign-in on each server that a mapping belongs to.
    pub fn mappings_listed(
        self,
        headers: &HeaderMap<HeaderValue>,
        mappings: Result<Vec<ServerMapping>, String>,
    ) -> (next: Result<TasksStep, StatusCode>)
        ensures
            match mappings {
                Ok(list) => if list@.len() == 0 {
                    next == Err::<TasksStep, StatusCode>(StatusCode::UNAUTHORIZED)
                } else {
                    next matches Ok(step) && {
                        &&& step.requested == self.requested
                        &&& step.user == self.user
                        &&& step.authorization@ == device::effective(
                            request::said(
                                headers::text_under(*headers, "authorization"@),
                                headers::text_under(*headers, "x-emby-authorization"@),
                            ),
                            self.session@,
                            self.user.id@,
                        )
                        &&& step.tasks@ == paired_tasks(list@, self.servers@)
                    }
                },
                Err(_) => next == Err::<TasksStep, StatusCode>(StatusCode::INTERNAL_SERVER_ERROR),
            },
    {
        match mappings {
            Ok(list) => {
                if list.len() == 0 {
                    return Err(StatusCode::UNAUTHORIZED);
                }
                let authorization = effective_quick_connect_authorization(
                    headers,
                    &self.session,
                    self.user.id.as_str(),
                );
                let tasks = pair_tasks(list, self.servers);
                Ok(TasksStep { requested: self.requested, user: self.user, authorization, tasks })
            },
            Err(_) => Err(StatusCode::INTERNAL_SERVER_ERROR),
        }
    }
}

/// The first answer among the results of the tasks.
pub open spec fn first_answer(
    results: Seq<Result<AuthenticateResponse, QuickConnectAuthError>>,
) -> Option<AuthenticateResponse>
    decreases results.len(),
{
    if results.len() == 0 {
        None
    } else {
        match results[0] {
            Ok(response) => Some(response),
            Err(_) => first_answer(results.skip(1)),
        }
    }
}

impl TasksStep {
    /// Hands the tasks out, in their order, each for the sign-in's user and under
    /// its authorization.
    pub fn start(self) -> (started: (RunningStep, Vec<PendingLogin>))
        ensures
            started.0 == (RunningStep { requested: self.requested, user: self.user }),
            started.1@.len() == self.tasks@.len(),
            forall|i: int|
                0 <= i < self.tasks@.len() ==> #[trigger] started.1@[i] == (PendingLogin {
                    user: self.user,
                    authorization: self.authorization,
                    task: self.tasks@[i],
                }),
    {
        let TasksStep { requested, user, authorization, tasks } = self;
        let ghost all = tasks@;
        let mut rest = tasks;
        let mut pending: Vec<PendingLogin> = Vec::new();
        while rest.len() > 0
            invariant
                pending@.len() <= all.len(),
                rest@ == all.skip(pending@.len() as int),
                forall|i: int|
                    0 <= i < pending@.len() ==> #[trigger] pending@[i] == (PendingLogin {
                        user,
                        authorization,
                        task: all[i],
                    }),
            decreases rest@.len(),
        {
            let ghost n = pending@.len() as int;
            let task = rest.remove(0);
            assert(all.skip(n)[0] == all[n]);
            assert(rest@ =~= all.skip(n + 1));
            pending.push(
                PendingLogin { user: user.clone(), authorization: authorization.clone(), task },
            );
        }
        (RunningStep { requested, user }, pending)
    }
}

impl RunningStep {
    /// The tasks of the sign-in have ended, in their order: the session that was
    /// asked for is used up, and the first answer is the answer. Without one the
    /// sign-in is not authorized. Where the tasks were done for the sign-in's
    /// user, so is the answer.
    pub fn tasks_finished(
        self,
        storage: &mut QuickConnectStorage,
        results: Vec<Result<AuthenticateResponse, QuickConnectAuthError>>,
    ) -> (result: Result<AuthenticateResponse, StatusCode>)
        ensures
            final(storage)@ == storage::taken(old(storage)@, self.requested@),
            match first_answer(results@) {
                Some(response) => result == Ok::<AuthenticateResponse, StatusCode>(response),
                None => result == Err::<AuthenticateResponse, StatusCode>(
                    StatusCode::UNAUTHORIZED,
                ),
            },
            all_for(results@, self.user) ==> match result {
                Ok(response) => {
                    &&& is_for(response, self.user)
                    &&& response.user.id == self.user.id
                    &&& response.access_token == self.user.virtual_key
                },
                Err(_) => true,
            },
    {
        let _ = storage.remove_session(self.requested.as_str());
        let mut rest = results;
        while rest.len() > 0
            invariant
                first_answer(rest@) == first_answer(results@),
                storage@ == storage::taken(old(storage)@, self.requested@),
            decreases rest@.len(),
        {
            let ghost before = rest@;
            let result = rest.remove(0);
            assert(rest@ =~= before.skip(1));
            if let Ok(response) = result {
                proof {
                    if all_for(results@, self.user) {
                        law_answer_is_for_the_user(results@, self.user);
                    }
                }
                return Ok(response);
            }
        }
        Err(StatusCode::UNAUTHORIZED)
    }
}

/// What a client says of itself to a media server.
#[derive(Debug)]
pub struct ClientInfo {
    pub client: String,
    pub device: String,
    pub device_id: String,
    pub version: String,
}

/// The view of a [`QuickConnectAuthError`].
pub enum AuthErrorView {
    Network(Seq<char>),
    InvalidCredentials,
    Parse(Seq<char>),
    Internal(Seq<char>),
}

impl View for QuickConnectAuthError {
    type V = AuthErrorView;

    open spec fn view(&self) -> AuthErrorView {
        match *self {
            QuickConnectAuthError::Network(e) => AuthErrorView::Network(e@),
            QuickConnectAuthError::InvalidCredentials => AuthErrorView::InvalidCredentials,
            QuickConnectAuthError::Parse(e) => AuthErrorView::Parse(e@),
            QuickConnectAuthError::Internal(e) => AuthErrorView::Internal(e@),
        }
    }
}

/// What a failed call to a media server means for a sign-in.
pub open spec fn auth_error_of(error: JellyfinApiError) -> AuthErrorView {
    match error {
        JellyfinApiError::AuthenticationFailed(_) => AuthErrorView::InvalidCredentials,
        JellyfinApiError::Unauthorized => AuthErrorView::InvalidCredentials,
        JellyfinApiError::Forbidden => AuthErrorView::InvalidCredentials,
        JellyfinApiError::Serialization(e) => AuthErrorView::Parse(e@),
        JellyfinApiError::InvalidResponse(e) => AuthErrorView::Parse(e@),
        JellyfinApiError::Network(e) => AuthErrorView::Network(e@),
        JellyfinApiError::ServerError(e) => AuthErrorView::Network(e@),
        JellyfinApiError::UrlParse(e) => AuthErrorView::Internal(e@),
        JellyfinApiError::NotFound => AuthErrorView::Internal(
            "Users/AuthenticateByName endpoint was not found on target server"@,
        ),
    }
}

/// What a failed call to a media server means for a sign-in.
pub fn map_jellyfin_auth_error(error: JellyfinApiError) -> (mapped: QuickConnectAuthError)
    ensures
        mapped@ == auth_error_of(error),
{
    match error {
        JellyfinApiError::AuthenticationFailed(_) => QuickConnectAuthError::InvalidCredentials,
        JellyfinApiError::Unauthorized => QuickConnectAuthError::InvalidCredentials,
        JellyfinApiError::Forbidden => QuickConnectAuthError::InvalidCredentials,
        JellyfinApiError::Serialization(e) => QuickConnectAuthError::Parse(e),
        JellyfinApiError::InvalidResponse(e) => QuickConnectAuthError::Parse(e),
        JellyfinApiError::Network(e) => QuickConnectAuthError::Network(e),
        JellyfinApiError::ServerError(e) => QuickConnectAuthError::Network(e),
        JellyfinApiError::UrlParse(e) => QuickConnectAuthError::Internal(e),
        JellyfinApiError::NotFound => QuickConnectAuthError::Internal(
            "Users/AuthenticateByName endpoint was not found on target server".to_owned(),
        ),
    }
}

/// A media server's answer as the client gets it: the proxy stands in for the
/// server, and the proxy's user, who is no administrator and may watch with
/// any group, for the server's.
pub open spec fn rewritten(
    response: AuthenticateResponse,
    user: User,
    server_id: String,
) -> AuthenticateResponse {
    AuthenticateResponse {
        user: ResponseUser {
            name: user.original_username,
            server_id,
            id: user.id,
            policy: UserPolicy {
                is_administrator: false,
                sync_play_access: SyncPlayUserAccessType::CreateAndJoinGroups,
                extra: response.user.policy.extra,
            },
            extra: response.user.extra,
        },
        session_info: SessionInfo {
            user_id: user.id,
            user_name: user.original_username,
            server_id,
            extra: response.session_info.extra,
        },
        access_token: user.virtual_key,
        server_id,
    }
}

/// What a task is given to sign in with: the password of the mapping in clear
/// text, and the key under which the user's mappings are kept.
#[derive(Debug)]
pub struct MappingCredentials {
    pub password: String,
    pub mapping_key: String,
}

/// Who signs in, where, and with what.
pub struct Login {
    pub user: User,
    pub authorization: Authorization,
    pub task: LoginTask,
    pub credentials: MappingCredentials,
}

/// Make a client for the server at this address, which says this of itself.
#[derive(Debug)]
pub struct ClientRequest {
    pub url: String,
    pub info: ClientInfo,
}

/// Sign in to the server under this name and with this password.
#[derive(Debug)]
pub struct LoginRequest {
    pub username: String,
    pub password: String,
}

/// Save that the user is this one on this server, with this password, under the
/// user's key.
#[derive(Debug)]
pub struct MappingRecord {
    pub user_id: String,
    pub server: Server,
    pub username: String,
    pub password: String,
    pub mapping_key: Option<String>,
}

/// Store that the user has a session on this server: under this authorization,
/// and with the server's own token and user.
#[derive(Debug)]
pub struct SessionRecord {
    pub user_id: String,
    pub server: Server,
    pub authorization: Authorization,
    pub token: String,
    pub original_user_id: String,
}

/// The client that a sign-in on a server asks for.
pub open spec fn client_request(login: Login) -> ClientRequest {
    ClientRequest {
        url: login.task.server.url,
        info: ClientInfo {
            client: login.authorization.client,
            device: login.authorization.device,
            device_id: login.authorization.device_id,
            version: login.authorization.version,
        },
    }
}

/// What the server is asked.
pub open spec fn login_request(login: Login) -> LoginRequest {
    LoginRequest {
        username: login.task.mapping.mapped_username,
        password: login.credentials.password,
    }
}

/// The mapping that is saved once the server has answered.
pub open spec fn mapping_record(login: Login) -> MappingRecord {
    MappingRecord {
        user_id: login.user.id,
        server: login.task.server,
        username: login.task.mapping.mapped_username,
        password: login.credentials.password,
        mapping_key: Some(login.credentials.mapping_key),
    }
}

/// The session that is stored once the mapping has been saved: with the token and
/// the user of the server's answer, not with what the client is shown.
pub open spec fn session_record(login: Login, response: AuthenticateResponse) -> SessionRecord {
    SessionRecord {
        user_id: login.user.id,
        server: login.task.server,
        authorization: Authorization {
            token: Some(response.access_token),
            ..login.authorization
        },
        token: response.access_token,
        original_user_id: response.user.id,
    }
}

/// The sign-in on one server waits for the client to be made.
pub struct ClientStep {
    pub login: Login,
}

/// The sign-in on one server waits for the server's answer.
pub struct AnswerStep {
    pub login: Login,
}

/// The sign-in on one server waits for its mapping to be saved.
pub struct MappingSavedStep {
    pub login: Login,
    pub response: AuthenticateResponse,
}

/// The sign-in on one server waits for its session to be stored.
pub struct StoredStep {
    pub response: AuthenticateResponse,
}

/// Begins a sign-in on one server, once its credentials are known: asks for a
/// client.
pub fn authenticate_with_mapping_on_server(
    pending: PendingLogin,
    credentials: MappingCredentials,
) -> (begun: (ClientStep, ClientRequest))
    ensures
        begun.0.login == (Login {
            user: pending.user,
            authorization: pending.authorization,
            task: pending.task,
            credentials,
        }),
        begun.1 == client_request(begun.0.login),
{
    let login = Login {
        user: pending.user,
        authorization: pending.authorization,
        task: pending.task,
        credentials,
    };
    let request = ClientRequest {
        url: login.task.server.url.clone(),
        info: ClientInfo {
            client: login.authorization.client.clone(),
            device: login.authorization.device.clone(),
            device_id: login.authorization.device_id.clone(),
            version: login.authorization.version.clone(),
        },
    };
    (ClientStep { login }, request)
}

impl ClientStep {
    /// The client was made, or could not be. Asks the server.
    pub fn client_made(self, made: Result<(), String>) -> (next: Result<
        (AnswerStep, LoginRequest),
        QuickConnectAuthError,
    >)
        ensures
            match made {
                Ok(_) => next == Ok::<(AnswerStep, LoginRequest), QuickConnectAuthError>(
                    (AnswerStep { login: self.login }, login_request(self.login)),
                ),
                Err(e) => next == Err::<(AnswerStep, LoginRequest), QuickConnectAuthError>(
                    QuickConnectAuthError::Internal(e),
                ),
            },
    {
        match made {
            Ok(_) => {
                let request = LoginRequest {
                    username: self.login.task.mapping.mapped_username.clone(),
                    password: self.login.credentials.password.clone(),
                };
                Ok((AnswerStep { login: self.login }, request))
            },
            Err(e) => Err(QuickConnectAuthError::Internal(e)),
        }
    }
}

impl AnswerStep {
    /// The server answered, or the call failed. Asks for the mapping to be saved.
    pub fn answered(self, answer: Result<AuthenticateResponse, JellyfinApiError>) -> (next: Result<
        (MappingSavedStep, MappingRecord),
        QuickConnectAuthError,
    >)
        ensures
            match answer {
                Ok(response) => next == Ok::<
                    (MappingSavedStep, MappingRecord),
                    QuickConnectAuthError,
                >(
                    (
                        MappingSavedStep { login: self.login, response },
                        mapping_record(self.login),
                    ),
                ),
                Err(error) => next matches Err(mapped) && mapped@ == auth_error_of(error),
            },
    {
        match answer {
            Ok(response) => {
                let record = MappingRecord {
                    user_id: self.login.user.id.clone(),
                    server: self.login.task.server.clone(),
                    username: self.login.task.mapping.mapped_username.clone(),
                    password: self.login.credentials.password.clone(),
                    mapping_key: Some(self.login.credentials.mapping_key.clone()),
                };
                Ok((MappingSavedStep { login: self.login, response }, record))
            },
            Err(error) => Err(map_jellyfin_auth_error(error)),
        }
    }
}

impl MappingSavedStep {
    /// The mapping was saved, or could not be. Asks for the session to be stored;
    /// the answer is rewritten for the client, for the user who signs in.
    pub fn mapping_saved(self, saved: Result<(), String>, server_id: &String) -> (next: Result<
        (StoredStep, SessionRecord),
        QuickConnectAuthError,
    >)
        ensures
            match saved {
                Ok(_) => next == Ok::<(StoredStep, SessionRecord), QuickConnectAuthError>(
                    (
                        StoredStep {
                            response: rewritten(self.response, self.login.user, *server_id),
                        },
                        session_record(self.login, self.response),
                    ),
                ),
                Err(e) => next == Err::<(StoredStep, SessionRecord), QuickConnectAuthError>(
                    QuickConnectAuthError::Internal(e),
                ),
            },
            next matches Ok((step, _)) ==> is_for(step.response, self.login.user),
    {
        if let Err(e) = saved {
            return Err(QuickConnectAuthError::Internal(e));
        }
        let user = self.login.user;
        let mut response = self.response;
        let token = response.access_token.clone();
        let original_user_id = response.user.id.clone();
        response.server_id = server_id.clone();
        response.user.server_id = server_id.clone();
        response.session_info.server_id = server_id.clone();
        response.session_info.user_id = user.id.clone();
        response.user.name = user.original_username.clone();
        response.session_info.user_name = user.original_username.clone();
        response.user.policy.is_administrator = false;
        response.user.policy.sync_play_access = SyncPlayUserAccessType::CreateAndJoinGroups;
        response.access_token = user.virtual_key.clone();
        response.user.id = user.id.clone();
        let mut authorization = self.login.authorization;
        authorization.token = Some(token.clone());
        let record = SessionRecord {
            user_id: user.id,
            server: self.login.task.server,
            authorization,
            token,
            original_user_id,
        };
        Ok((StoredStep { response }, record))
    }
}

impl StoredStep {
    /// The session was stored, or could not be.
    pub fn session_stored(self, stored: Result<(), String>) -> (result: Result<
        AuthenticateResponse,
        QuickConnectAuthError,
    >)
        ensures
            match stored {
                Ok(_) => result == Ok::<AuthenticateResponse, QuickConnectAuthError>(
                    self.response,
                ),
                Err(e) => result == Err::<AuthenticateResponse, QuickConnectAuthError>(
                    QuickConnectAuthError::Internal(e),
                ),
            },
    {
        match stored {
            Ok(_) => Ok(self.response),
            Err(e) => Err(QuickConnectAuthError::Internal(e)),
        }
    }
}

/// A response is some server's answer, rewritten for `user`.
pub open spec fn is_for(response: AuthenticateResponse, user: User) -> bool {
    exists|answer: AuthenticateResponse, server_id: String|
        response == #[trigger] rewritten(answer, user, server_id)
}

/// Every answer among the results was rewritten for `user`.
pub open spec fn all_for(
    results: Seq<Result<AuthenticateResponse, QuickConnectAuthError>>,
    user: User,
) -> bool {
    forall|i: int|
        0 <= i < results.len() ==> match #[trigger] results[i] {
            Ok(response) => is_for(response, user),
            Err(_) => true,
        }
}

/// Where every answer among the results was rewritten for one user, the answer
/// to the sign-in is that user's: it carries their identifier and name and their
/// own key in place of the server's token.
pub proof fn law_answer_is_for_the_user(
    results: Seq<Result<AuthenticateResponse, QuickConnectAuthError>>,
    user: User,
)
    requires
        all_for(results, user),
    ensures
        match first_answer(results) {
            Some(response) => {
                &&& is_for(response, user)
                &&& response.user.id == user.id
                &&& response.user.name == user.original_username
                &&& response.session_info.user_id == user.id
                &&& response.session_info.user_name == user.original_username
                &&& response.access_token == user.virtual_key
                &&& !response.user.policy.is_administrator
            },
            None => true,
        },
    decreases results.len(),
{
    if results.len() > 0 {
        if results[0] is Err {
            let rest = results.skip(1);
            assert forall|i: int| 0 <= i < rest.len() implies match #[trigger] rest[i] {
                Ok(response) => is_for(response, user),
                Err(_) => true,
            } by {
                assert(rest[i] == results[i + 1]);
            }
            law_answer_is_for_the_user(rest, user);
        } else {
            assert(is_for(results[0]->Ok_0, user));
        }
    }
}

/// A sign-in answers as the user who approved its code: a session that begins, is
/// approved by `user` and is used, all within its time, is theirs, and so is the
/// answer where the tasks were done for them.
pub proof fn law_sign_in_answers_as_who_approved(
    m: Map<Seq<char>, SessionView>,
    secret: Seq<char>,
    code: Seq<char>,
    info: (Seq<char>, Seq<char>, Seq<char>, Seq<char>),
    user: User,
    begun: nat,
    approved: nat,
    used: nat,
    results: Seq<Result<AuthenticateResponse, QuickConnectAuthError>>,
)
    requires
        laws::paired(m),
        begun + session::SESSION_MINUTES * clock::NANOS_PER_MINUTE <= u128::MAX,
        approved <= begun + session::SESSION_MINUTES * clock::NANOS_PER_MINUTE,
        used <= begun + session::SESSION_MINUTES * clock::NANOS_PER_MINUTE,
        all_for(results, user),
    ensures
        ({
            let s = session::begun(secret, code, info.0, info.1, info.2, info.3, begun);
            let after = handlers::authorized(
                handlers::initiated(m, s, begun),
                code,
                user.id@,
                approved,
            );
            &&& begin_status(after, secret, used) is None
            &&& match first_answer(results) {
                Some(response) => Some(response.user.id@) == after[secret].user_id
                    && response.access_token == user.virtual_key,
                None => true,
            }
        }),
{
    law_approving_the_code_signs_the_device_in(
        m,
        secret,
        code,
        info,
        user.id@,
        begun,
        approved,
        used,
    );
    law_answer_is_for_the_user(results, user);
}

/// No two servers have one identifier.
pub open spec fn ids_distinct(servers: Seq<Server>) -> bool {
    forall|i: int, j: int|
        0 <= i < j < servers.len() ==> (#[trigger] servers[i]).id != (#[trigger] servers[j]).id
}

/// Every task's mapping is for its server, and both were listed; where the
/// servers' identifiers are distinct, no server takes part twice.
pub proof fn law_tasks_fit(mappings: Seq<ServerMapping>, servers: Seq<Server>)
    ensures
        forall|i: int|
            0 <= i < paired_tasks(mappings, servers).len() ==> {
                let task = #[trigger] paired_tasks(mappings, servers)[i];
                &&& task.server.id == task.mapping.server_id
                &&& servers.contains(task.server)
                &&& mappings.contains(task.mapping)
            },
        ids_distinct(servers) ==> ids_distinct(
            paired_tasks(mappings, servers).map_values(|task: LoginTask| task.server),
        ),
    decreases mappings.len(),
{
    let tasks = paired_tasks(mappings, servers);
    let of = tasks.map_values(|task: LoginTask| task.server);
    if mappings.len() > 0 {
        let at = server_position(servers, mappings[0].server_id);
        lemma_server_position(servers, mappings[0].server_id);
        let left = if at < servers.len() {
            servers.remove(at)
        } else {
            servers
        };
        law_tasks_fit(mappings.skip(1), left);
        let rest = paired_tasks(mappings.skip(1), left);
        let rest_of = rest.map_values(|task: LoginTask| task.server);
        assert forall|i: int| 0 <= i < tasks.len() implies {
            let task = #[trigger] tasks[i];
            &&& task.server.id == task.mapping.server_id
            &&& servers.contains(task.server)
            &&& mappings.contains(task.mapping)
        } by {
            let task = tasks[i];
            if at < servers.len() && i == 0 {
                assert(servers[at] == task.server && mappings[0] == task.mapping);
            } else {
                let j = if at < servers.len() {
                    i - 1
                } else {
                    i
                };
                assert(task == rest[j]);
                let a = choose|a: int| 0 <= a < left.len() && left[a] == task.server;
                let b = choose|b: int|
                    0 <= b < mappings.skip(1).len() && mappings.skip(1)[b] == task.mapping;
                assert(mappings[b + 1] == task.mapping);
                assert(left[a] == servers[if at < servers.len() && a >= at { a + 1 } else { a }]);
            }
        }
        if ids_distinct(servers) {
            assert(ids_distinct(left)) by {
                assert forall|i: int, j: int| 0 <= i < j < left.len() implies (
                #[trigger] left[i]).id != (#[trigger] left[j]).id by {
                    let i0 = if at < servers.len() && i >= at { i + 1 } else { i };
                    let j0 = if at < servers.len() && j >= at { j + 1 } else { j };
                    assert(left[i] == servers[i0] && left[j] == servers[j0]);
                }
            }
            assert forall|i: int, j: int| 0 <= i < j < of.len() implies (#[trigger] of[i]).id != (
            #[trigger] of[j]).id by {
                if at < servers.len() {
                    assert(tasks[j] == rest[j - 1]);
                    assert(rest_of[j - 1] == of[j]);
                    if i == 0 {
                        let a = choose|a: int|
                            0 <= a < left.len() && left[a] == rest[j - 1].server;
                        let a0 = if a >= at { a + 1 } else { a };
                        assert(left[a] == servers[a0]);
                    } else {
                        assert(tasks[i] == rest[i - 1]);
                        assert(rest_of[i - 1] == of[i]);
                    }
                } else {
                    assert(rest_of[i] == of[i] && rest_of[j] == of[j]);
                }
            }
        }
    }
}

/// A session signs somebody in only where it is alive and a user has confirmed
/// it.
pub proof fn law_only_confirmed_sessions_sign_in(
    m: Map<Seq<char>, SessionView>,
    secret: Seq<char>,
    now: nat,
)
    ensures
        begin_status(m, secret, now) is None <==> storage::live(m, secret, now)
            && m[secret].authenticated && m[secret].user_id is Some,
{
}

/// A sign-in whose tasks have ended, well or not, cannot be made again.
pub proof fn law_sign_in_uses_the_session_up(
    m: Map<Seq<char>, SessionView>,
    requested: Seq<char>,
    now: nat,
)
    ensures
        begin_status(storage::taken(m, requested), requested, now) == Some(StatusCode::NOT_FOUND),
{
}

/// Approving a code on one device signs the other one in: a session that began,
/// was approved and is then used within its time signs in as the user who
/// approved it.
pub proof fn law_approving_the_code_signs_the_device_in(
    m: Map<Seq<char>, SessionView>,
    secret: Seq<char>,
    code: Seq<char>,
    info: (Seq<char>, Seq<char>, Seq<char>, Seq<char>),
    user_id: Seq<char>,
    begun: nat,
    approved: nat,
    used: nat,
)
    requires
        laws::paired(m),
        begun + session::SESSION_MINUTES * clock::NANOS_PER_MINUTE <= u128::MAX,
        approved <= begun + session::SESSION_MINUTES * clock::NANOS_PER_MINUTE,
        used <= begun + session::SESSION_MINUTES * clock::NANOS_PER_MINUTE,
    ensures
        ({
            let s = session::begun(secret, code, info.0, info.1, info.2, info.3, begun);
            let initiated = handlers::initiated(m, s, begun);
            let after = handlers::authorized(initiated, code, user_id, approved);
            &&& begin_status(initiated, secret, approved) == Some(StatusCode::UNAUTHORIZED)
            &&& begin_status(after, secret, used) is None
            &&& after[secret].user_id == Some(user_id)
        }),
{
    let s = session::begun(secret, code, info.0, info.1, info.2, info.3, begun);
    handlers::law_initiated_session_is_found(m, secret, code, info, begun);
    let initiated = handlers::initiated(m, s, begun);
    assert(initiated[code] == s);
    assert(storage::live(initiated, code, approved));
    handlers::law_confirmation_reaches_the_device(initiated, code, user_id, approved);
}

/// The server that is found has the identifier, and none before it does.
pub proof fn lemma_server_position(servers: Seq<Server>, id: i64)
    ensures
        0 <= server_position(servers, id) <= servers.len(),
        server_position(servers, id) < servers.len() ==> servers[server_position(servers, id)].id
            == id,
        forall|i: int| 0 <= i < server_position(servers, id) ==> (#[trigger] servers[i]).id != id,
    decreases servers.len(),
{
    if servers.len() > 0 && servers[0].id != id {
        lemma_server_position(servers.skip(1), id);
        assert forall|i: int| 0 <= i < server_position(servers, id) implies (
        #[trigger] servers[i]).id != id by {
            if i > 0 {
                assert(servers[i] == servers.skip(1)[i - 1]);
            }
        }
    }
}

} // verus!
