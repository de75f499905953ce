use axum::http::{HeaderMap, HeaderValue};
use jellyswarrm::authorization::{Authorization, AuthorizationError};
use jellyswarrm::clock::{Timestamp, NANOS_PER_MINUTE};
use jellyswarrm::ids::parse_id;
use jellyswarrm::quick_connect::device::{
    derive_android_tv_user_device_id, is_android_tv_client, normalize_android_tv_user_id,
};
use jellyswarrm::quick_connect::handlers::{
    authorize_at, confirm_at, connect_at, handle_quick_connect_authorize,
    handle_quick_connect_connect, handle_quick_connect_enabled, handle_quick_connect_initiate,
    initiate_at, initiate_with_code, looked_up_user_id, resolve_authorize_user_id, AuthorizeQuery,
    AuthorizeUser, ConnectQuery, QuickConnectAuthenticateRequest,
};
use jellyswarrm::quick_connect::login::{
    authenticate_with_mapping_on_server, begin_at, handle_authenticate_with_quick_connect,
    map_jellyfin_auth_error, AuthenticateResponse, ClientStep, ExtraField, JellyfinApiError,
    LoginTask, MappingCredentials, PendingLogin, QuickConnectAuthError, ResponseUser, RunningStep,
    Server, ServerMapping, SessionInfo, SyncPlayUserAccessType, UserPolicy,
};
use jellyswarrm::quick_connect::request::{
    effective_quick_connect_authorization, extract_virtual_token, parse_authorization_from_headers,
    parse_client_info,
};
use jellyswarrm::quick_connect::session::QuickConnectSession;
use jellyswarrm::quick_connect::storage::{
    code_of, code_with_number, generate_code, QuickConnectStorage, CODE_COUNT,
};
use jellyswarrm::status::StatusCode;
use jellyswarrm::users::User;

fn at(seconds: u64) -> Timestamp {
    Timestamp::from_parts(seconds, 0)
}

fn session_at(secret: &str, code: &str, device: &str, now: Timestamp) -> QuickConnectSession {
    QuickConnectSession::new_at(
        secret.to_string(),
        code.to_string(),
        device.to_string(),
        "Device".to_string(),
        "App".to_string(),
        "1.0.0".to_string(),
        now,
    )
}

fn user() -> User {
    User {
        id: "user-1".to_string(),
        virtual_key: "virtual-key".to_string(),
        original_username: "MyUser".to_string(),
    }
}

fn server(id: i64) -> Server {
    Server {
        id,
        name: format!("server-{id}"),
        url: format!("http://server-{id}"),
    }
}

fn mapping(server_id: i64) -> ServerMapping {
    ServerMapping {
        server_id,
        mapped_username: format!("mapped-{server_id}"),
    }
}

fn pending() -> PendingLogin {
    PendingLogin {
        user: user(),
        authorization: Authorization {
            client: "Jellyfin Android TV".to_string(),
            device: "Chromecast".to_string(),
            device_id: "tv-1".to_string(),
            version: "0.19.7".to_string(),
            token: None,
        },
        task: LoginTask {
            server: server(3),
            mapping: mapping(3),
        },
    }
}

fn credentials() -> MappingCredentials {
    MappingCredentials {
        password: "clear-text".to_string(),
        mapping_key: "key-1".to_string(),
    }
}

fn running(requested: &str) -> RunningStep {
    RunningStep {
        requested: requested.to_string(),
        user: user(),
    }
}

fn response(token: &str) -> AuthenticateResponse {
    AuthenticateResponse {
        user: ResponseUser {
            name: "mappeduser".to_string(),
            server_id: "upstream-server".to_string(),
            id: "upstream-user-id".to_string(),
            policy: UserPolicy {
                is_administrator: true,
                sync_play_access: SyncPlayUserAccessType::NoGroups,
                extra: vec![ExtraField {
                    name: "EnableAllFolders".to_string(),
                    json: "true".to_string(),
                }],
            },
            extra: Vec::new(),
        },
        session_info: SessionInfo {
            user_id: "upstream-user-id".to_string(),
            user_name: "mappeduser".to_string(),
            server_id: "upstream-server".to_string(),
            extra: Vec::new(),
        },
        access_token: token.to_string(),
        server_id: "upstream-server".to_string(),
    }
}

#[test]
fn quick_connect_storage_replaces_colliding_code_without_deleting_active_session() {
    let mut storage = QuickConnectStorage::new();
    let first = QuickConnectSession::new(
        "secret-1".to_string(),
        "123456".to_string(),
        "device-1".to_string(),
        "Device 1".to_string(),
        "App".to_string(),
        "1.0.0".to_string(),
    );
    let second = QuickConnectSession::new(
        "secret-2".to_string(),
        "123456".to_string(),
        "device-2".to_string(),
        "Device 2".to_string(),
        "App".to_string(),
        "1.0.0".to_string(),
    );

    storage.store_session(first.clone());
    storage.store_session(second.clone());

    let active = storage.get_session("123456").unwrap();
    assert_eq!(active.secret, second.secret);
    assert_eq!(active.device_id, "device-2");
    assert!(storage.get_session("secret-1").is_none());
    assert_eq!(storage.get_session("secret-2").unwrap().secret, "secret-2");
}

#[test]
fn quick_connect_storage_replaces_colliding_secret_without_losing_active_code() {
    let mut storage = QuickConnectStorage::new();
    let first = QuickConnectSession::new(
        "secret-dup".to_string(),
        "111111".to_string(),
        "device-1".to_string(),
        "Device 1".to_string(),
        "App".to_string(),
        "1.0.0".to_string(),
    );
    let second = QuickConnectSession::new(
        "secret-dup".to_string(),
        "222222".to_string(),
        "device-2".to_string(),
        "Device 2".to_string(),
        "App".to_string(),
        "1.0.0".to_string(),
    );

    storage.store_session(first.clone());
    storage.store_session(second.clone());

    assert!(storage.get_session("secret-dup").is_some());
    assert_eq!(storage.get_session("secret-dup").unwrap().code, "222222");
    assert!(storage.get_session("111111").is_none());
    assert_eq!(storage.get_session("222222").unwrap().device_id, "device-2");
}

#[test]
fn extract_virtual_token_supports_auth_and_token_headers() {
    let mut headers = HeaderMap::new();
    headers.insert(
        "authorization",
        HeaderValue::from_static(
            "MediaBrowser Client=\"Jellyfin Web\", Device=\"Firefox\", DeviceId=\"abc\", Version=\"10.10.7\", Token=\"token-1\"",
        ),
    );
    assert_eq!(extract_virtual_token(&headers).as_deref(), Some("token-1"));

    let mut x_emby_token = HeaderMap::new();
    x_emby_token.insert("x-emby-token", HeaderValue::from_static("token-2"));
    assert_eq!(
        extract_virtual_token(&x_emby_token).as_deref(),
        Some("token-2")
    );

    let mut media_browser_token = HeaderMap::new();
    media_browser_token.insert("x-mediabrowser-token", HeaderValue::from_static("token-3"));
    assert_eq!(
        extract_virtual_token(&media_browser_token).as_deref(),
        Some("token-3")
    );
}

#[test]
fn detects_android_tv_clients() {
    assert!(is_android_tv_client("Jellyfin Android TV"));
    assert!(is_android_tv_client("Jellyfin Android TV (debug)"));
    assert!(!is_android_tv_client("Jellyfin Android"));
    assert!(!is_android_tv_client("Jellyfin Web"));
}

#[test]
fn derives_android_tv_device_id_from_uuid_user_id() {
    let base_device_id = "androidtv-device-123";
    let simple_user_id = "550e8400e29b41d4a716446655440000";
    let derived = derive_android_tv_user_device_id(base_device_id, simple_user_id);

    assert_eq!(derived, "7094964e96c0e66e00671463e263fbdffce6b001");
}

#[test]
fn quick_connect_uses_android_tv_user_scoped_device_id() {
    let session = QuickConnectSession::new(
        "secret-1".to_string(),
        "123456".to_string(),
        "session-device".to_string(),
        "Android TV".to_string(),
        "Jellyfin Android TV".to_string(),
        "1.0.0".to_string(),
    );

    let mut headers = HeaderMap::new();
    headers.insert(
        "authorization",
        HeaderValue::from_static(
            "MediaBrowser Client=\"Jellyfin Android TV\", Device=\"Chromecast\", DeviceId=\"androidtv-device-123\", Version=\"0.18.0\"",
        ),
    );

    let auth = effective_quick_connect_authorization(
        &headers,
        &session,
        "550e8400e29b41d4a716446655440000",
    );

    assert_eq!(auth.client, "Jellyfin Android TV");
    assert_eq!(auth.device, "Chromecast");
    assert_eq!(auth.version, "0.18.0");
    assert_eq!(auth.device_id, "7094964e96c0e66e00671463e263fbdffce6b001");
    assert!(auth.token.is_none());
}

#[test]
fn quick_connect_falls_back_to_session_metadata_without_headers() {
    let session = QuickConnectSession::new(
        "secret-1".to_string(),
        "123456".to_string(),
        "session-device".to_string(),
        "Fallback Device".to_string(),
        "Unknown App".to_string(),
        "1.0.0".to_string(),
    );

    let headers = HeaderMap::new();
    let auth = effective_quick_connect_authorization(&headers, &session, "user-id");

    assert_eq!(auth.device_id, "session-device");
    assert_eq!(auth.device, "Fallback Device");
    assert_eq!(auth.client, "Unknown App");
}

#[test]
fn a_session_lives_ten_minutes() {
    let session = session_at("secret-1", "123456", "device-1", at(1000));
    assert!(!session.authenticated);
    assert!(session.user_id.is_none());
    assert_eq!(session.expires_at, at(1600));
    assert!(!session.is_expired_at(at(1000)));
    assert!(!session.is_expired_at(at(1600)));
    assert!(session.is_expired_at(Timestamp::from_parts(1600, 1)));
    assert_eq!(NANOS_PER_MINUTE, 60_000_000_000);
}

#[test]
fn a_session_that_begins_now_is_alive() {
    let session = QuickConnectSession::new(
        "secret-1".to_string(),
        "123456".to_string(),
        "device-1".to_string(),
        "Device".to_string(),
        "App".to_string(),
        "1.0.0".to_string(),
    );
    assert!(!session.is_expired());
    // 2020-01-01
    assert!(session.date_added.whole_seconds() > 1_577_836_800);
}

#[test]
fn an_expired_session_is_dropped_from_both_keys() {
    let mut storage = QuickConnectStorage::new();
    storage.store_session(session_at("secret-1", "111111", "device-1", at(0)));
    storage.store_session(session_at("secret-2", "222222", "device-2", at(500)));
    assert!(storage.get_session_at("secret-1", at(600)).is_some());
    assert!(storage.get_session_at("111111", at(601)).is_none());
    assert!(storage.get_session_at("secret-1", at(0)).is_none());
    assert_eq!(
        storage.get_session_at("222222", at(601)).unwrap().device_id,
        "device-2"
    );
}

#[test]
fn cleaning_up_counts_entries_and_keeps_the_living() {
    let mut storage = QuickConnectStorage::new();
    storage.store_session(session_at("secret-1", "111111", "device-1", at(0)));
    storage.store_session(session_at("secret-2", "222222", "device-2", at(10)));
    storage.store_session(session_at("secret-3", "333333", "device-3", at(500)));
    assert_eq!(storage.cleanup_expired_at(at(700)), 4);
    let left = storage.get_session_at("secret-3", at(700)).unwrap();
    assert_eq!(storage.cleanup_expired_at(at(700)), 0);
    assert_eq!(storage.get_session_at("333333", at(700)).unwrap().secret, left.secret);
    assert!(storage.get_session_at("secret-1", at(0)).is_none());
    assert!(storage.get_session_at("222222", at(0)).is_none());
    assert!(storage.get_session_at("secret-3", at(700)).is_some());
    assert!(storage.get_session_at("333333", at(700)).is_some());
    // By the clock the last one has long expired.
    assert_eq!(storage.cleanup_expired(), 2);
}

#[test]
fn a_removed_session_is_gone_from_both_keys() {
    let mut storage = QuickConnectStorage::default();
    storage.store_session(session_at("secret-1", "111111", "device-1", at(0)));
    assert!(storage.remove_session("secret-2").is_none());
    assert_eq!(storage.remove_session("secret-1").unwrap().code, "111111");
    assert!(storage.get_session_at("secret-1", at(0)).is_none());
    assert!(storage.get_session_at("111111", at(0)).is_none());
}

#[test]
fn updating_by_code_changes_what_the_secret_finds() {
    let mut storage = QuickConnectStorage::new();
    storage.store_session(session_at("secret-1", "111111", "device-1", at(0)));
    assert!(storage.update_session_by_code_at(
        "111111",
        |session| session.device_name = "Renamed".to_string(),
        at(5),
    ));
    assert_eq!(
        storage.get_session_at("secret-1", at(5)).unwrap().device_name,
        "Renamed"
    );
    assert!(!storage.update_session_by_code("999999", |session| session.authenticated = true));
    assert!(!storage.update_session_by_code_at(
        "111111",
        |session| session.authenticated = true,
        at(601),
    ));
    assert!(storage.get_session_at("secret-1", at(5)).is_none());
}

#[test]
fn codes_are_six_digits_and_not_in_use() {
    let mut storage = QuickConnectStorage::new();
    for _ in 0..50 {
        let code = generate_code();
        assert_eq!(code.len(), 6);
        assert!(code.chars().all(|c| c.is_ascii_digit()));
    }
    let code = storage.generate_unique_code().unwrap();
    storage.store_session(session_at("secret-1", &code, "device-1", at(0)));
    let other = storage.generate_unique_code().unwrap();
    assert_ne!(other, code);
}

#[test]
fn random_codes_differ() {
    let codes: Vec<String> = (0..20).map(|_| generate_code()).collect();
    assert!(codes.iter().any(|code| *code != codes[0]));
}

#[test]
fn normalizing_a_user_id_is_idempotent() {
    let grouped = "550e8400-e29b-41d4-a716-446655440000";
    assert_eq!(
        normalize_android_tv_user_id("550E8400E29B41D4A716446655440000"),
        grouped
    );
    assert_eq!(normalize_android_tv_user_id(grouped), grouped);
    assert_eq!(
        normalize_android_tv_user_id("{550e8400-e29b-41d4-a716-446655440000}"),
        grouped
    );
    assert_eq!(normalize_android_tv_user_id("user-1"), "user-1");
}

#[test]
fn device_ids_go_by_the_uuid_and_differ_by_user() {
    let a = derive_android_tv_user_device_id("tv", "550e8400e29b41d4a716446655440000");
    let b = derive_android_tv_user_device_id("tv", "550E8400-E29B-41D4-A716-446655440000");
    assert_eq!(a, b);
    assert_ne!(a, derive_android_tv_user_device_id("tv", "user-1"));
    assert_eq!(a.len(), 40);
}

#[test]
fn android_tv_without_a_device_id_keeps_none() {
    let session = session_at("secret-1", "123456", "session-device", at(0));
    let mut headers = HeaderMap::new();
    headers.insert(
        "x-emby-authorization",
        HeaderValue::from_static("Emby Client=\"ANDROID TV\", Version=\"1\", Token=\"t\""),
    );
    let auth = effective_quick_connect_authorization(&headers, &session, "user-1");
    assert_eq!(auth.client, "ANDROID TV");
    assert_eq!(auth.device_id, "");
    assert!(auth.token.is_none());
}

#[test]
fn authorization_headers_are_read_field_by_field() {
    let auth = Authorization::parse(
        "mediabrowser Client=\"Web, beta\",Device=Firefox , DeviceId=\"a=b\", Version=\"1\", Version=\"2\"",
    )
    .unwrap();
    assert_eq!(auth.client, "Web, beta");
    assert_eq!(auth.device, "Firefox");
    assert_eq!(auth.device_id, "a=b");
    assert_eq!(auth.version, "2");
    assert!(auth.token.is_none());
    assert_eq!(
        Authorization::parse("Bearer").unwrap_err(),
        AuthorizationError::MissingScheme
    );
    assert_eq!(
        Authorization::parse("Emby Token=\"t\"").unwrap_err(),
        AuthorizationError::UnknownScheme
    );
    let legacy = Authorization::parse_with_legacy("Emby Token=\"t\"", true).unwrap();
    assert_eq!(legacy.token.as_deref(), Some("t"));
    assert_eq!(legacy.client, "");
}

#[test]
fn the_emby_header_stands_in_for_an_unreadable_one() {
    let mut headers = HeaderMap::new();
    headers.insert("authorization", HeaderValue::from_static("Bearer xyz"));
    headers.insert(
        "x-emby-authorization",
        HeaderValue::from_static("Emby Client=\"Kodi\", Token=\"token-4\""),
    );
    assert_eq!(
        parse_authorization_from_headers(&headers).unwrap().client,
        "Kodi"
    );
    assert_eq!(extract_virtual_token(&headers).as_deref(), Some("token-4"));
    // The older scheme counts in the older header only.
    let mut older = HeaderMap::new();
    older.insert(
        "authorization",
        HeaderValue::from_static("Emby Token=\"token-5\""),
    );
    older.insert("x-emby-token", HeaderValue::from_static("token-6"));
    assert_eq!(extract_virtual_token(&older).as_deref(), Some("token-6"));
    assert!(extract_virtual_token(&HeaderMap::new()).is_none());
}

#[test]
fn a_client_that_says_nothing_gets_a_random_device() {
    let (device_id, device, client, version) = parse_client_info(&HeaderMap::new());
    assert!(parse_id(&device_id).is_some());
    assert_eq!(device, "Unknown Device");
    assert_eq!(client, "Unknown App");
    assert_eq!(version, "1.0.0");
    let (other, _, _, _) = parse_client_info(&HeaderMap::new());
    assert_ne!(device_id, other);
}

#[test]
fn quick_connect_is_enabled() {
    assert_eq!(handle_quick_connect_enabled(), Ok(true));
}

#[test]
fn a_code_goes_from_device_to_user_and_back() {
    let mut storage = QuickConnectStorage::new();
    let mut headers = HeaderMap::new();
    headers.insert(
        "authorization",
        HeaderValue::from_static(
            "MediaBrowser Client=\"Jellyfin Android TV\", Device=\"Chromecast\", DeviceId=\"tv-1\", Version=\"0.19.7\"",
        ),
    );
    let session = handle_quick_connect_initiate(&mut storage, &headers).unwrap();
    let code = session.code.clone();
    assert_eq!(code.len(), 6);
    assert!(code.chars().all(|c| c.is_ascii_digit()));
    assert_eq!(session.device_id, "tv-1");
    assert_eq!(session.device_name, "Chromecast");
    assert_eq!(session.app_name, "Jellyfin Android TV");
    assert_eq!(session.app_version, "0.19.7");
    assert!(parse_id(&session.secret).is_some());

    let secret = session.secret.clone();
    let waiting = handle_quick_connect_connect(
        &mut storage,
        &ConnectQuery {
            secret: secret.clone(),
        },
    )
    .unwrap();
    assert!(!waiting.authenticated);
    let request = QuickConnectAuthenticateRequest {
        secret: secret.clone(),
    };
    assert_eq!(
        handle_authenticate_with_quick_connect(&mut storage, &request)
            .err()
            .unwrap(),
        StatusCode::UNAUTHORIZED
    );

    let query = AuthorizeQuery {
        code,
        user_id: Some("user-1".to_string()),
    };
    assert_eq!(
        handle_quick_connect_authorize(&mut storage, &headers, query, Ok(None)),
        Ok(true)
    );
    let confirmed = handle_quick_connect_connect(
        &mut storage,
        &ConnectQuery {
            secret: secret.clone(),
        },
    )
    .unwrap();
    assert!(confirmed.authenticated);
    assert_eq!(confirmed.user_id.as_deref(), Some("user-1"));
    let step = handle_authenticate_with_quick_connect(&mut storage, &request)
        .ok()
        .unwrap();
    assert_eq!(step.user_id, "user-1");
    assert_eq!(step.requested, secret);
}

#[test]
fn initiating_drops_what_has_expired() {
    let mut storage = QuickConnectStorage::new();
    storage.store_session(session_at("secret-1", "111111", "device-1", at(0)));
    let info = (
        "device-2".to_string(),
        "Device 2".to_string(),
        "App".to_string(),
        "2.0".to_string(),
    );
    let session = initiate_at(
        &mut storage,
        "secret-2".to_string(),
        "222222".to_string(),
        info,
        at(1000),
    );
    assert_eq!(session.device_id, "device-2");
    assert_eq!(session.expires_at, at(1600));
    assert!(storage.get_session_at("secret-1", at(0)).is_none());
    assert!(storage.get_session_at("222222", at(1000)).is_some());
}

#[test]
fn unknown_codes_and_secrets_are_not_found() {
    let mut storage = QuickConnectStorage::new();
    assert_eq!(
        authorize_at(&mut storage, "123456", "user-1", at(0)),
        Err(StatusCode::NOT_FOUND)
    );
    assert_eq!(
        connect_at(&mut storage, "secret-1", at(0)).err().unwrap(),
        StatusCode::NOT_FOUND
    );
    assert_eq!(
        begin_at(&mut storage, "secret-1", at(0)).err().unwrap(),
        StatusCode::NOT_FOUND
    );
    storage.store_session(session_at("secret-1", "123456", "device-1", at(0)));
    assert_eq!(
        authorize_at(&mut storage, "123456", "user-1", at(601)),
        Err(StatusCode::NOT_FOUND)
    );
}

#[test]
fn a_code_is_confirmed_by_name_or_by_token() {
    let mut headers = HeaderMap::new();
    headers.insert("x-emby-token", HeaderValue::from_static("token-2"));
    match resolve_authorize_user_id(&headers, Some("user-1".to_string())) {
        Ok(AuthorizeUser::Known(id)) => assert_eq!(id, "user-1"),
        other => panic!("unexpected {other:?}"),
    }
    match resolve_authorize_user_id(&headers, None) {
        Ok(AuthorizeUser::ByToken(token)) => assert_eq!(token, "token-2"),
        other => panic!("unexpected {other:?}"),
    }
    assert_eq!(
        resolve_authorize_user_id(&HeaderMap::new(), None).unwrap_err(),
        StatusCode::BAD_REQUEST
    );
    assert_eq!(looked_up_user_id(Ok(Some(user()))), Ok("user-1".to_string()));
    assert_eq!(looked_up_user_id(Ok(None)), Err(StatusCode::UNAUTHORIZED));
    assert_eq!(
        looked_up_user_id(Err("down".to_string())),
        Err(StatusCode::INTERNAL_SERVER_ERROR)
    );
}

#[test]
fn a_sign_in_asks_in_turn_and_uses_the_session_up() {
    let mut storage = QuickConnectStorage::new();
    storage.store_session(session_at("secret-1", "123456", "tv-1", at(0)));
    assert_eq!(authorize_at(&mut storage, "123456", "user-1", at(1)), Ok(true));

    let begin = |storage: &mut QuickConnectStorage| {
        begin_at(storage, "secret-1", at(2)).ok().unwrap()
    };
    assert_eq!(
        begin(&mut storage).user_fetched(Ok(None)).err().unwrap(),
        StatusCode::UNAUTHORIZED
    );
    assert_eq!(
        begin(&mut storage)
            .user_fetched(Err("down".to_string()))
            .err()
            .unwrap(),
        StatusCode::INTERNAL_SERVER_ERROR
    );
    let fetched = |storage: &mut QuickConnectStorage| {
        begin(storage).user_fetched(Ok(Some(user()))).ok().unwrap()
    };
    assert_eq!(
        fetched(&mut storage)
            .servers_listed(Ok(Vec::new()))
            .err()
            .unwrap(),
        StatusCode::NOT_FOUND
    );
    assert_eq!(
        fetched(&mut storage)
            .servers_listed(Err("down".to_string()))
            .err()
            .unwrap(),
        StatusCode::INTERNAL_SERVER_ERROR
    );
    let listed = |storage: &mut QuickConnectStorage| {
        fetched(storage)
            .servers_listed(Ok(vec![server(1), server(2), server(3)]))
            .ok()
            .unwrap()
    };
    let headers = HeaderMap::new();
    assert_eq!(
        listed(&mut storage)
            .mappings_listed(&headers, Ok(Vec::new()))
            .err()
            .unwrap(),
        StatusCode::UNAUTHORIZED
    );
    assert_eq!(
        listed(&mut storage)
            .mappings_listed(&headers, Err("down".to_string()))
            .err()
            .unwrap(),
        StatusCode::INTERNAL_SERVER_ERROR
    );
    let step = listed(&mut storage)
        .mappings_listed(
            &headers,
            Ok(vec![mapping(3), mapping(7), mapping(1), mapping(3)]),
        )
        .ok()
        .unwrap();
    assert_eq!(step.requested, "secret-1");
    assert_eq!(step.authorization.device_id, "tv-1");
    assert_eq!(step.user.id, "user-1");
    let pairs: Vec<(i64, i64)> = step
        .tasks
        .iter()
        .map(|task| (task.server.id, task.mapping.server_id))
        .collect();
    assert_eq!(pairs, vec![(3, 3), (1, 1)]);

    let (step, logins) = step.start();
    assert_eq!(step.requested, "secret-1");
    assert_eq!(step.user.id, "user-1");
    let handed_out: Vec<(&str, &str, i64, &str)> = logins
        .iter()
        .map(|login| {
            (
                login.user.id.as_str(),
                login.authorization.device_id.as_str(),
                login.task.server.id,
                login.task.mapping.mapped_username.as_str(),
            )
        })
        .collect();
    assert_eq!(
        handed_out,
        vec![
            ("user-1", "tv-1", 3, "mapped-3"),
            ("user-1", "tv-1", 1, "mapped-1"),
        ]
    );

    let answer = step
        .tasks_finished(
            &mut storage,
            vec![
                Err(QuickConnectAuthError::InvalidCredentials),
                Ok(response("first")),
                Ok(response("second")),
            ],
        )
        .ok()
        .unwrap();
    assert_eq!(answer.access_token, "first");
    assert_eq!(
        begin_at(&mut storage, "secret-1", at(2)).err().unwrap(),
        StatusCode::NOT_FOUND
    );
}

#[test]
fn a_sign_in_without_an_answer_is_not_authorized() {
    let mut storage = QuickConnectStorage::new();
    storage.store_session(session_at("secret-1", "123456", "tv-1", at(0)));
    let result = running("secret-1").tasks_finished(
        &mut storage,
        vec![Err(QuickConnectAuthError::Network("down".to_string()))],
    );
    assert_eq!(result.err().unwrap(), StatusCode::UNAUTHORIZED);
    assert!(storage.get_session_at("123456", at(0)).is_none());
}

#[test]
fn a_servers_answer_is_rewritten_for_the_client() {
    let (step, client) = authenticate_with_mapping_on_server(pending(), credentials());
    assert_eq!(client.url, "http://server-3");
    assert_eq!(client.info.client, "Jellyfin Android TV");
    assert_eq!(client.info.device, "Chromecast");
    assert_eq!(client.info.device_id, "tv-1");
    assert_eq!(client.info.version, "0.19.7");
    let (step, login) = step.client_made(Ok(())).unwrap_or_else(|_| panic!());
    assert_eq!(login.username, "mapped-3");
    assert_eq!(login.password, "clear-text");
    let (step, saved) = step
        .answered(Ok(response("tv-upstream-token")))
        .unwrap_or_else(|_| panic!());
    assert_eq!(saved.user_id, "user-1");
    assert_eq!(saved.server.id, 3);
    assert_eq!(saved.server.name, "server-3");
    assert_eq!(saved.server.url, "http://server-3");
    assert_eq!(saved.username, "mapped-3");
    assert_eq!(saved.password, "clear-text");
    assert_eq!(saved.mapping_key.as_deref(), Some("key-1"));
    let (step, stored) = step
        .mapping_saved(Ok(()), &"proxy-id".to_string())
        .unwrap_or_else(|_| panic!());
    assert_eq!(stored.user_id, "user-1");
    assert_eq!(stored.server.id, 3);
    assert_eq!(stored.token, "tv-upstream-token");
    assert_eq!(stored.original_user_id, "upstream-user-id");
    assert_eq!(stored.authorization.token.as_deref(), Some("tv-upstream-token"));
    assert_eq!(stored.authorization.client, "Jellyfin Android TV");
    assert_eq!(stored.authorization.device_id, "tv-1");
    let answer = step.session_stored(Ok(())).unwrap();
    assert_eq!(answer.access_token, "virtual-key");
    assert_eq!(answer.server_id, "proxy-id");
    assert_eq!(answer.user.server_id, "proxy-id");
    assert_eq!(answer.user.id, "user-1");
    assert_eq!(answer.user.name, "MyUser");
    assert!(!answer.user.policy.is_administrator);
    assert_eq!(
        answer.user.policy.sync_play_access,
        SyncPlayUserAccessType::CreateAndJoinGroups
    );
    assert_eq!(answer.user.policy.extra[0].name, "EnableAllFolders");
    assert_eq!(answer.session_info.user_id, "user-1");
    assert_eq!(answer.session_info.user_name, "MyUser");
    assert_eq!(answer.session_info.server_id, "proxy-id");
}

#[test]
fn a_sign_in_on_a_server_can_fail_at_each_step() {
    fn begin() -> ClientStep {
        authenticate_with_mapping_on_server(pending(), credentials()).0
    }
    fn is_internal(error: Option<QuickConnectAuthError>, text: &str) -> bool {
        matches!(error, Some(QuickConnectAuthError::Internal(e)) if e == text)
    }
    assert!(is_internal(
        begin().client_made(Err("url".to_string())).err(),
        "url"
    ));
    let answering = || begin().client_made(Ok(())).unwrap_or_else(|_| panic!()).0;
    assert!(matches!(
        answering().answered(Err(JellyfinApiError::Forbidden)).err(),
        Some(QuickConnectAuthError::InvalidCredentials)
    ));
    let saving = || {
        answering()
            .answered(Ok(response("t")))
            .unwrap_or_else(|_| panic!())
            .0
    };
    assert!(is_internal(
        saving()
            .mapping_saved(Err("db".to_string()), &"p".to_string())
            .err(),
        "db"
    ));
    let (storing, _) = saving()
        .mapping_saved(Ok(()), &"p".to_string())
        .unwrap_or_else(|_| panic!());
    assert!(is_internal(
        storing.session_stored(Err("db".to_string())).err(),
        "db"
    ));
}

#[test]
fn errors_of_a_media_server_are_sorted() {
    let text = || "e".to_string();
    assert!(matches!(
        map_jellyfin_auth_error(JellyfinApiError::AuthenticationFailed(text())),
        QuickConnectAuthError::InvalidCredentials
    ));
    assert!(matches!(
        map_jellyfin_auth_error(JellyfinApiError::Unauthorized),
        QuickConnectAuthError::InvalidCredentials
    ));
    assert!(matches!(
        map_jellyfin_auth_error(JellyfinApiError::Forbidden),
        QuickConnectAuthError::InvalidCredentials
    ));
    assert!(matches!(
        map_jellyfin_auth_error(JellyfinApiError::Serialization(text())),
        QuickConnectAuthError::Parse(e) if e == "e"
    ));
    assert!(matches!(
        map_jellyfin_auth_error(JellyfinApiError::InvalidResponse(text())),
        QuickConnectAuthError::Parse(e) if e == "e"
    ));
    assert!(matches!(
        map_jellyfin_auth_error(JellyfinApiError::Network(text())),
        QuickConnectAuthError::Network(e) if e == "e"
    ));
    assert!(matches!(
        map_jellyfin_auth_error(JellyfinApiError::ServerError(text())),
        QuickConnectAuthError::Network(e) if e == "e"
    ));
    assert!(matches!(
        map_jellyfin_auth_error(JellyfinApiError::UrlParse(text())),
        QuickConnectAuthError::Internal(e) if e == "e"
    ));
    assert!(matches!(
        map_jellyfin_auth_error(JellyfinApiError::NotFound),
        QuickConnectAuthError::Internal(e) if e == "Users/AuthenticateByName endpoint was not found on target server"
    ));
}

#[test]
fn status_codes_have_their_numbers() {
    assert_eq!(StatusCode::OK.as_u16(), 200);
    assert_eq!(StatusCode::BAD_REQUEST.as_u16(), 400);
    assert_eq!(StatusCode::UNAUTHORIZED.as_u16(), 401);
    assert_eq!(StatusCode::NOT_FOUND.as_u16(), 404);
    assert_eq!(StatusCode::CONFLICT.as_u16(), 409);
    assert_eq!(StatusCode::INTERNAL_SERVER_ERROR.as_u16(), 500);
}

#[test]
fn a_new_session_under_fresh_keys_disturbs_nobody() {
    let mut storage = QuickConnectStorage::new();
    storage.store_session(session_at("secret-1", "111111", "device-1", at(0)));
    let info = (
        "device-2".to_string(),
        "Device 2".to_string(),
        "App".to_string(),
        "2.0".to_string(),
    );
    let _ = initiate_at(
        &mut storage,
        "secret-2".to_string(),
        "222222".to_string(),
        info,
        at(600),
    );
    assert_eq!(
        storage.get_session_at("111111", at(600)).unwrap().device_id,
        "device-1"
    );
    assert!(storage.get_session_at("secret-1", at(600)).is_some());
}

#[test]
fn a_session_asked_for_by_its_code_signs_in_too() {
    let mut storage = QuickConnectStorage::new();
    storage.store_session(session_at("secret-1", "123456", "tv-1", at(0)));
    assert_eq!(authorize_at(&mut storage, "123456", "user-1", at(1)), Ok(true));
    let step = begin_at(&mut storage, "123456", at(2)).ok().unwrap();
    assert_eq!(step.requested, "123456");
    assert_eq!(step.session.secret, "secret-1");
    // What was asked for is used up; the secret still stands.
    let _ = running(&step.requested).tasks_finished(&mut storage, Vec::new());
    assert!(storage.get_session_at("123456", at(2)).is_none());
    assert!(storage.get_session_at("secret-1", at(2)).is_some());
}

#[test]
fn header_values_that_are_no_text_are_passed_over() {
    let mut headers = HeaderMap::new();
    headers.insert(
        "x-emby-token",
        HeaderValue::from_bytes(b"caf\xe9").unwrap(),
    );
    assert!(extract_virtual_token(&headers).is_none());
    headers.append("x-emby-token", HeaderValue::from_static("second"));
    assert!(extract_virtual_token(&headers).is_none());
    headers.insert("x-mediabrowser-token", HeaderValue::from_static("third"));
    assert_eq!(extract_virtual_token(&headers).as_deref(), Some("third"));
}

#[test]
fn a_code_is_its_digits_in_their_order() {
    assert_eq!(code_of(&vec![0, 1, 2, 3, 4, 9]), "012349");
    assert_eq!(code_of(&vec![9, 9, 9, 9, 9, 9]), "999999");
    assert_eq!(code_of(&vec![0, 0, 0, 0, 0, 0]), "000000");
}

#[test]
fn codes_are_numbered_with_leading_zeros() {
    assert_eq!(code_with_number(0), "000000");
    assert_eq!(code_with_number(42), "000042");
    assert_eq!(code_with_number(123456), "123456");
    assert_eq!(code_with_number(CODE_COUNT - 1), "999999");
}

#[test]
fn the_least_unused_code_is_found() {
    let mut storage = QuickConnectStorage::new();
    assert_eq!(storage.first_unused_code().as_deref(), Some("000000"));
    for n in [0, 1, 3] {
        let code = code_with_number(n);
        storage.store_session(session_at(&format!("secret-{n}"), &code, "device", at(0)));
    }
    assert_eq!(storage.first_unused_code().as_deref(), Some("000002"));
    storage.store_session(session_at("secret-2", "000002", "device", at(0)));
    assert_eq!(storage.first_unused_code().as_deref(), Some("000004"));
    let _ = storage.remove_session("secret-1");
    assert_eq!(storage.first_unused_code().as_deref(), Some("000001"));
}

#[test]
fn every_device_gets_a_session_while_codes_are_free() {
    let mut storage = QuickConnectStorage::new();
    let headers = HeaderMap::new();
    let mut codes: Vec<String> = Vec::new();
    for _ in 0..100 {
        let session = handle_quick_connect_initiate(&mut storage, &headers).unwrap();
        assert!(!codes.contains(&session.code));
        codes.push(session.code);
    }
    for code in &codes {
        assert!(storage.get_session(code).is_some());
    }
}

#[test]
fn a_code_in_use_is_refused() {
    let mut storage = QuickConnectStorage::new();
    storage.store_session(session_at("secret-1", "123456", "device-1", at(0)));
    assert!(storage.unless_used("123456".to_string()).is_none());
    assert!(storage.unless_used("secret-1".to_string()).is_none());
    assert_eq!(
        storage.unless_used("654321".to_string()).as_deref(),
        Some("654321")
    );
}

#[test]
fn initiating_draws_a_code_that_is_not_in_use() {
    let mut storage = QuickConnectStorage::new();
    let headers = HeaderMap::new();
    let first = handle_quick_connect_initiate(&mut storage, &headers).unwrap();
    let second = handle_quick_connect_initiate(&mut storage, &headers).unwrap();
    assert_ne!(first.code, second.code);
    assert_ne!(first.secret, second.secret);
    for session in [&first, &second] {
        assert_eq!(session.code.len(), 6);
        assert!(session.code.chars().all(|c| c.is_ascii_digit()));
        assert_eq!(
            storage.get_session(&session.code).unwrap().secret,
            session.secret
        );
        assert_eq!(
            storage.get_session(&session.secret).unwrap().code,
            session.code
        );
    }
}

#[test]
fn a_drawn_code_is_the_sessions_code() {
    let mut storage = QuickConnectStorage::new();
    storage.store_session(session_at("secret-1", "111111", "device-1", at(0)));
    let session = initiate_with_code(&mut storage, &HeaderMap::new(), "222222".to_string());
    assert_eq!(session.code, "222222");
    assert_eq!(session.device_name, "Unknown Device");
    assert!(!session.authenticated);
    assert_eq!(
        storage.get_session("222222").unwrap().secret,
        session.secret
    );
    // By the clock the older one has long expired.
    assert!(storage.get_session_at("111111", at(0)).is_none());
}

#[test]
fn a_code_is_confirmed_for_the_user_of_the_token_alone() {
    fn query(user_id: Option<&str>) -> AuthorizeQuery {
        AuthorizeQuery {
            code: "123456".to_string(),
            user_id: user_id.map(|id| id.to_string()),
        }
    }
    let token = || Some("token-2".to_string());
    let mut storage = QuickConnectStorage::new();
    storage.store_session(session_at("secret-1", "123456", "tv-1", at(0)));

    let refused = [
        confirm_at(&mut storage, query(None), None, Ok(Some(user())), at(1)),
        confirm_at(&mut storage, query(None), token(), Ok(None), at(1)),
        confirm_at(&mut storage, query(None), token(), Err("down".to_string()), at(1)),
    ];
    assert_eq!(
        refused,
        [
            Err(StatusCode::BAD_REQUEST),
            Err(StatusCode::UNAUTHORIZED),
            Err(StatusCode::INTERNAL_SERVER_ERROR),
        ]
    );
    let untouched = storage.get_session_at("secret-1", at(1)).unwrap();
    assert!(!untouched.authenticated);
    assert!(untouched.user_id.is_none());

    assert_eq!(
        confirm_at(&mut storage, query(None), token(), Ok(Some(user())), at(1)),
        Ok(true)
    );
    let confirmed = storage.get_session_at("secret-1", at(1)).unwrap();
    assert!(confirmed.authenticated);
    assert_eq!(confirmed.user_id.as_deref(), Some("user-1"));

    // A user that the query names goes before the token.
    assert_eq!(
        confirm_at(&mut storage, query(Some("user-2")), token(), Ok(Some(user())), at(1)),
        Ok(true)
    );
    assert_eq!(
        storage
            .get_session_at("123456", at(1))
            .unwrap()
            .user_id
            .as_deref(),
        Some("user-2")
    );
    assert_eq!(
        confirm_at(&mut storage, query(Some("user-2")), None, Ok(None), at(601)),
        Err(StatusCode::NOT_FOUND)
    );
}

#[test]
fn the_token_of_the_headers_confirms_a_code() {
    let mut storage = QuickConnectStorage::new();
    let session = handle_quick_connect_initiate(&mut storage, &HeaderMap::new()).unwrap();
    let query = || AuthorizeQuery {
        code: session.code.clone(),
        user_id: None,
    };
    assert_eq!(
        handle_quick_connect_authorize(
            &mut storage,
            &HeaderMap::new(),
            query(),
            Ok(Some(user())),
        ),
        Err(StatusCode::BAD_REQUEST)
    );
    let mut headers = HeaderMap::new();
    headers.insert("x-emby-token", HeaderValue::from_static("token-2"));
    assert_eq!(
        handle_quick_connect_authorize(&mut storage, &headers, query(), Ok(Some(user()))),
        Ok(true)
    );
    assert_eq!(
        storage
            .get_session(&session.secret)
            .unwrap()
            .user_id
            .as_deref(),
        Some("user-1")
    );
}

#[test]
fn a_sign_in_answers_as_who_approved_it() {
    let mut storage = QuickConnectStorage::new();
    storage.store_session(session_at("secret-1", "123456", "tv-1", at(0)));
    assert_eq!(authorize_at(&mut storage, "123456", "user-1", at(1)), Ok(true));
    let step = begin_at(&mut storage, "secret-1", at(2)).ok().unwrap();
    let approved_by = step.user_id.clone();
    let (step, logins) = step
        .user_fetched(Ok(Some(user())))
        .ok()
        .unwrap()
        .servers_listed(Ok(vec![server(1), server(2)]))
        .ok()
        .unwrap()
        .mappings_listed(&HeaderMap::new(), Ok(vec![mapping(1), mapping(2)]))
        .ok()
        .unwrap()
        .start();
    let results: Vec<Result<AuthenticateResponse, QuickConnectAuthError>> = logins
        .into_iter()
        .map(|login| {
            let upstream = format!("upstream-{}", login.task.server.id);
            let (step, _) = authenticate_with_mapping_on_server(login, credentials());
            let (step, _) = step.client_made(Ok(()))?;
            let (step, _) = step.answered(Ok(response(&upstream)))?;
            let (step, stored) = step.mapping_saved(Ok(()), &"proxy-id".to_string())?;
            assert_eq!(stored.token, upstream);
            step.session_stored(Ok(()))
        })
        .collect();
    let answer = step.tasks_finished(&mut storage, results).ok().unwrap();
    assert_eq!(answer.user.id, approved_by);
    assert_eq!(answer.user.name, "MyUser");
    assert_eq!(answer.access_token, "virtual-key");
    assert!(storage.get_session_at("secret-1", at(2)).is_none());
}
