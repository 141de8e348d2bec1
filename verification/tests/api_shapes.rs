use timeclock::api::{
    AwsCognitoRedirect, CreateClockBody, DeleteClockResponse, EditClockBody, EditClockResponse,
    GetUser, GetUserError, RedirectParams,
};
use timeclock::auth::AuthError;
use timeclock::client::ClockClient;
use timeclock::clocks::{ClockInTimeUpdate, CreateClockInput, EditClockInput, EditClockInputStrategy};
use timeclock::context::ContextError;
use timeclock::timestamp::Timestamp;
use timeclock::uid::Uid;

fn owner() -> Uid {
    Uid::parse("11111111-2222-3333-4444-555555555555").unwrap()
}

#[test]
fn edit_body_becomes_a_fields_patch() {
    let body = EditClockBody {
        name: Some("renamed".to_owned()),
        active: Some(false),
        clock_in_time: ClockInTimeUpdate::Clear,
    };
    match body.into_strategy(owner()) {
        EditClockInputStrategy::Fields {
            identity_pool_user_id,
            name,
            active,
            clock_in_time,
        } => {
            assert_eq!(identity_pool_user_id, owner());
            assert_eq!(name.as_deref(), Some("renamed"));
            assert_eq!(active, Some(false));
            assert!(matches!(clock_in_time, ClockInTimeUpdate::Clear));
        }
        other => panic!("expected a field patch, got {:?}", other),
    }
}

#[test]
fn edit_body_strategy_drives_the_client() {
    let mut client = ClockClient::new();
    let now = Timestamp::parse("2026-01-02T03:04:05+00:00").unwrap();
    let created = client
        .create_clock(
            CreateClockInput {
                identity_pool_user_id: owner(),
                name: "shift".to_owned(),
            },
            now.duplicate(),
        )
        .unwrap();
    let body = EditClockBody {
        name: Some("renamed".to_owned()),
        active: None,
        clock_in_time: ClockInTimeUpdate::NoChange,
    };
    let edited = client
        .edit_clock(
            EditClockInput {
                uuid: created.uuid.duplicate(),
                update: body.into_strategy(owner()),
            },
            Timestamp::parse("2026-01-02T04:00:00+00:00").unwrap(),
        )
        .unwrap()
        .unwrap();
    assert_eq!(edited.name.as_str(), "renamed");
    let _ = EditClockResponse {
        clock: Some(edited),
    };
    let _ = DeleteClockResponse { clock: created };
}

#[test]
fn endpoint_shapes_hold_their_parts() {
    let params = RedirectParams { code: None };
    assert_eq!(params.code, None);
    let tokens = AwsCognitoRedirect {
        access_token: "a".to_owned(),
        expires_in: 3600,
        id_token: "i".to_owned(),
        refresh_token: "r".to_owned(),
        token_type: "Bearer".to_owned(),
    };
    assert_eq!(tokens.expires_in, 3600);
    let user = GetUser {
        username: "11111111-2222-3333-4444-555555555555".to_owned(),
        user_attributes: vec![("email".to_owned(), Some("user@example.com".to_owned()))],
    };
    assert_eq!(user.user_attributes.len(), 1);
    let body = CreateClockBody {
        name: "shift".to_owned(),
    };
    assert_eq!(body.name.as_str(), "shift");
    let failure = GetUserError::ContextError(ContextError::AuthError(
        AuthError::MissingAuthenticationCookie,
    ));
    assert!(matches!(
        failure,
        GetUserError::ContextError(ContextError::AuthError(
            AuthError::MissingAuthenticationCookie
        ))
    ));
}
