use ballot_core::domain::{require_roles, AuthenticatedUser, UserRole};
use ballot_core::error::{AppError, ErrorKind};

#[test]
fn role_names_round_trip() {
    for role in [UserRole::Admin, UserRole::ElectionOfficer, UserRole::Auditor, UserRole::Voter] {
        assert_eq!(UserRole::from_db(role.as_str()), Some(role));
    }
    assert_eq!(UserRole::Voter.as_str(), "voter");
    assert_eq!(UserRole::ElectionOfficer.as_str(), "election_officer");
    assert_eq!(UserRole::from_db("root"), None);
    assert_eq!(UserRole::from_db("Admin"), None);
}

#[test]
fn roles_gate_callers() {
    let user = AuthenticatedUser { user_id: 7, role: UserRole::Voter };
    assert!(require_roles(&user, &[UserRole::Voter]).is_ok());
    let denied = require_roles(&user, &[UserRole::Admin, UserRole::ElectionOfficer]);
    assert!(matches!(denied, Err(AppError::Forbidden)));
    assert!(require_roles(&user, &[]).is_err());
}

#[test]
fn errors_map_to_status_codes() {
    assert_eq!(AppError::NotFound("x".to_string()).status_code(), 404);
    assert_eq!(AppError::Unauthorized.status_code(), 401);
    assert_eq!(AppError::Forbidden.status_code(), 403);
    assert_eq!(AppError::BadRequest("x".to_string()).status_code(), 400);
    assert_eq!(AppError::Conflict("x".to_string()).status_code(), 409);
    assert_eq!(AppError::TooManyRequests.status_code(), 429);
    assert_eq!(AppError::Internal.status_code(), 500);
    assert_eq!(AppError::Forbidden.kind(), ErrorKind::Forbidden);
}
