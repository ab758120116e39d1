use pulson::server::{
    account_deletion_outcome, admin_check, bearer_token, check_threshold_update, config_or_default,
    device_deletion_reply, display_device_id, is_root_role, login_step, logout_reply, payload_topic,
    pulse_reply, registration_reply, registration_role, requested_time_range, scoped_device_id,
    time_range_seconds, time_range_start, token_owner, topic_data_kinds, user_config_reply,
    user_device_pattern, user_info_reply, LoginAction, LoginEvent, Status, UserRole,
};
use pulson::json::JsonValue;
use pulson::status::StatusConfig;
use pulson::time::Timestamp;

#[test]
fn status_codes() {
    assert_eq!(Status::Success.code(), 200);
    assert_eq!(Status::Created.code(), 201);
    assert_eq!(Status::BadRequest.code(), 400);
    assert_eq!(Status::Unauthorized.code(), 401);
    assert_eq!(Status::Forbidden.code(), 403);
    assert_eq!(Status::NotFound.code(), 404);
    assert_eq!(Status::Conflict.code(), 409);
    assert_eq!(Status::InternalServerError.code(), 500);
}

#[test]
fn roles_read_and_write() {
    assert_eq!(UserRole::Root.as_str(), "root");
    assert_eq!(UserRole::User.as_str(), "user");
    assert_eq!(UserRole::from_str("ROOT"), Ok(UserRole::Root));
    assert_eq!(UserRole::from_str("User"), Ok(UserRole::User));
    assert_eq!(UserRole::from_str("admin"), Err("Invalid user role: admin".to_string()));
    for r in [UserRole::Root, UserRole::User] {
        assert_eq!(UserRole::from_str(r.as_str()), Ok(r));
    }
}

#[test]
fn root_only_with_matching_root_password() {
    assert_eq!(registration_role(Some("s3cret"), Some("s3cret")), UserRole::Root);
    assert_eq!(registration_role(Some("guess"), Some("s3cret")), UserRole::User);
    assert_eq!(registration_role(None, Some("s3cret")), UserRole::User);
    assert_eq!(registration_role(Some("s3cret"), None), UserRole::User);
}

#[test]
fn bearer_tokens() {
    assert_eq!(bearer_token("Bearer abc-123"), Some("abc-123".to_string()));
    assert_eq!(bearer_token("Bearer "), Some(String::new()));
    assert_eq!(bearer_token("Basic abc"), None);
    assert_eq!(bearer_token("bearer abc"), None);
}

#[test]
fn device_ids_are_scoped_per_user() {
    let stored = scoped_device_id("alice", "sensor-1");
    assert_eq!(stored, "alice:sensor-1");
    assert_eq!(display_device_id("alice", &stored), "sensor-1");
    assert_eq!(user_device_pattern("alice"), "alice:%");
    assert_ne!(scoped_device_id("alice", "x"), scoped_device_id("bob", "x"));
}

#[test]
fn history_windows() {
    assert_eq!(time_range_seconds("1h"), Some(3600));
    assert_eq!(time_range_seconds("1d"), Some(86400));
    assert_eq!(time_range_seconds("1w"), Some(604800));
    assert_eq!(time_range_seconds("1m"), Some(2592000));
    assert_eq!(time_range_seconds("2h"), None);
    let now = Timestamp::from_seconds(1_000_000);
    assert_eq!(time_range_start(&now, "1h"), Ok(Timestamp::from_seconds(996_400)));
    assert_eq!(time_range_start(&now, "1y"), Err(Status::BadRequest));
    assert_eq!(requested_time_range(Some("1w")), "1w");
    assert_eq!(requested_time_range(None), "1d");
}

#[test]
fn administration_needs_root() {
    assert_eq!(admin_check(Some("root")), Ok(()));
    assert_eq!(admin_check(Some("user")), Err(Status::Forbidden));
    assert_eq!(admin_check(None), Err(Status::Forbidden));
    assert_eq!(account_deletion_outcome(true), Ok(()));
    assert_eq!(account_deletion_outcome(false), Err(Status::NotFound));
    assert!(is_root_role("root"));
    assert!(!is_root_role("Root"));
}

#[test]
fn replies() {
    assert_eq!(device_deletion_reply(Ok(true)), (Status::Success, "device deleted".to_string()));
    assert_eq!(device_deletion_reply(Ok(false)), (Status::NotFound, "device not found".to_string()));
    assert_eq!(
        device_deletion_reply(Err(Status::InternalServerError)),
        (Status::InternalServerError, "failed to delete device".to_string())
    );
    assert_eq!(logout_reply(false, Ok(true)), (Status::BadRequest, "invalid token format".to_string()));
    assert_eq!(logout_reply(true, Ok(true)), (Status::Success, "logged out".to_string()));
    assert_eq!(
        logout_reply(true, Ok(false)),
        (Status::BadRequest, "logout failed, token not found".to_string())
    );
    assert_eq!(pulse_reply(true, Ok(())), (Status::Success, "pulse with data received".to_string()));
    assert_eq!(pulse_reply(false, Ok(())), (Status::Success, "ping pulse received".to_string()));
    assert_eq!(
        pulse_reply(false, Err(Status::InternalServerError)),
        (Status::InternalServerError, "ping pulse failed".to_string())
    );
    assert_eq!(
        registration_reply(Ok(()), Ok(())),
        (Status::Created, "user created successfully".to_string())
    );
    assert_eq!(
        registration_reply(Err(Status::InternalServerError), Ok(())),
        (Status::InternalServerError, "password hashing failed".to_string())
    );
    assert_eq!(
        registration_reply(Ok(()), Err(Status::Conflict)),
        (Status::Conflict, "user creation failed".to_string())
    );
    assert_eq!(user_config_reply(Ok(())).0, Status::Success);
    assert_eq!(
        user_config_reply(Err(Status::BadRequest)),
        (Status::InternalServerError, "Failed to update user configuration".to_string())
    );
    assert_eq!(user_info_reply(Ok(Some("root".to_string()))), Ok(true));
    assert_eq!(user_info_reply(Ok(Some("user".to_string()))), Ok(false));
    assert_eq!(
        user_info_reply(Ok(None)),
        Err((Status::InternalServerError, "user role not found".to_string()))
    );
}

#[test]
fn login_steps() {
    match login_step(LoginEvent::HashLooked(Ok(Some("h".to_string())))) {
        LoginAction::VerifyAgainst(h) => assert_eq!(h, "h"),
        other => panic!("unexpected {:?}", other),
    }
    for e in [
        LoginEvent::HashLooked(Ok(None)),
        LoginEvent::HashLooked(Err(Status::InternalServerError)),
        LoginEvent::Verified(Ok(false)),
        LoginEvent::Verified(Err(Status::Unauthorized)),
    ] {
        match login_step(e) {
            LoginAction::ReplyError(s, m) => {
                assert_eq!(s, Status::Unauthorized);
                assert_eq!(m, "invalid credentials");
            }
            other => panic!("unexpected {:?}", other),
        }
    }
    assert!(matches!(login_step(LoginEvent::Verified(Ok(true))), LoginAction::IssueToken));
    match login_step(LoginEvent::TokenIssued(Ok("tok".to_string()))) {
        LoginAction::ReplyToken(t) => assert_eq!(t, "tok"),
        other => panic!("unexpected {:?}", other),
    }
    match login_step(LoginEvent::TokenIssued(Err(Status::InternalServerError))) {
        LoginAction::ReplyError(s, m) => {
            assert_eq!(s, Status::InternalServerError);
            assert_eq!(m, "login failed");
        }
        other => panic!("unexpected {:?}", other),
    }
}

#[test]
fn token_owners_and_configs() {
    assert_eq!(token_owner(Ok(Some("bob".to_string()))), Ok("bob".to_string()));
    assert_eq!(token_owner(Ok(None)), Err(Status::Unauthorized));
    assert_eq!(token_owner(Err(Status::InternalServerError)), Err(Status::Unauthorized));
    let c = StatusConfig { online_threshold_seconds: 1, warning_threshold_seconds: 2, stale_threshold_seconds: 3 };
    assert_eq!(config_or_default(Ok(Some(c))), c);
    assert_eq!(config_or_default(Ok(None)), StatusConfig::default());
    assert_eq!(config_or_default(Err(Status::InternalServerError)), StatusConfig::default());
    assert_eq!(check_threshold_update(&c), Ok(()));
    let bad = StatusConfig { online_threshold_seconds: 3, warning_threshold_seconds: 2, stale_threshold_seconds: 1 };
    assert_eq!(
        check_threshold_update(&bad),
        Err((Status::BadRequest, "Online threshold must be less than warning threshold".to_string()))
    );
}

#[test]
fn payload_topics_and_kinds() {
    let data = JsonValue::Object(vec![("topic".to_string(), JsonValue::String("temp".to_string()))]);
    assert_eq!(payload_topic(&data), Ok("temp".to_string()));
    assert_eq!(payload_topic(&JsonValue::Null), Err(Status::BadRequest));
    assert_eq!(
        topic_data_kinds(vec!["sensor".to_string(), "event".to_string()]),
        vec!["PULSE".to_string(), "sensor".to_string(), "event".to_string()]
    );
    assert_eq!(topic_data_kinds(vec![]), vec!["PULSE".to_string()]);
}
