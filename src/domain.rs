use vstd::prelude::*;
use crate::error::AppError;

verus! {

/// A user's role; it decides which operations the user may call.
#[derive(Clone, Copy, Debug, PartialEq, Eq, Structural)]
pub enum UserRole {
    Admin,
    ElectionOfficer,
    Auditor,
    Voter,
}

/// The name under which a role is stored.
pub open spec fn role_name(role: UserRole) -> Seq<char> {
    match role {
        UserRole::Admin => "admin"@,
        UserRole::ElectionOfficer => "election_officer"@,
        UserRole::Auditor => "auditor"@,
        UserRole::Voter => "voter"@,
    }
}

impl UserRole {
    /// The role stored under this name, if any.
    pub fn from_db(value: &str) -> (r: Option<UserRole>)
        ensures
            match r {
                Some(role) => value@ == role_name(role),
                None => forall|role: UserRole| value@ != #[trigger] role_name(role),
            },
    {
        let v = value.to_owned();
        if v == "admin".to_owned() {
            Some(UserRole::Admin)
        } else if v == "election_officer".to_owned() {
            Some(UserRole::ElectionOfficer)
        } else if v == "auditor".to_owned() {
            Some(UserRole::Auditor)
        } else if v == "voter".to_owned() {
            Some(UserRole::Voter)
        } else {
            proof {
                assert forall|role: UserRole| value@ != #[trigger] role_name(role) by {
                    match role {
                        UserRole::Admin => {},
                        UserRole::ElectionOfficer => {},
                        UserRole::Auditor => {},
                        UserRole::Voter => {},
                    }
                }
            }
            None
        }
    }

    /// The name under which the role is stored.
    pub fn as_str(&self) -> (r: &'static str)
        ensures
            r@ == role_name(*self),
    {
        match self {
            UserRole::Admin => "admin",
            UserRole::ElectionOfficer => "election_officer",
            UserRole::Auditor => "auditor",
            UserRole::Voter => "voter",
        }
    }
}

/// A caller whose identity the authentication layer has verified.
#[derive(Clone, Copy, Debug, PartialEq, Eq, Structural)]
pub struct AuthenticatedUser {
    pub user_id: u128,
    pub role: UserRole,
}

/// Admits the caller only if its role is among `allowed`.
pub fn require_roles(user: &AuthenticatedUser, allowed: &[UserRole]) -> (r: Result<(), AppError>)
    ensures
        r is Ok <==> allowed@.contains(user.role),
        r is Err ==> r matches Err(AppError::Forbidden),
{
    let mut i: usize = 0;
    while i < allowed.len()
        invariant
            i <= allowed@.len(),
            forall|k: int| 0 <= k < i ==> allowed@[k] != user.role,
        decreases allowed@.len() - i,
    {
        if allowed[i] == user.role {
            return Ok(());
        }
        i = i + 1;
    }
    Err(AppError::Forbidden)
}

/// The claims carried by an access token.
#[derive(Debug)]
pub struct AccessClaims {
    pub sub: String,
    pub role: String,
    pub exp: usize,
    pub iat: usize,
    pub typ: String,
}

/// Settings of a running service.
#[derive(Debug)]
pub struct AppConfig {
    pub host: String,
    pub port: u16,
    pub database_url: String,
    pub jwt_secret: String,
    pub access_token_ttl_minutes: i64,
    pub refresh_token_ttl_days: i64,
    pub cors_allowed_origins: Vec<String>,
}

#[derive(Debug)]
pub struct RegisterRequest {
    pub email: String,
    pub password: String,
    pub full_name: String,
}

#[derive(Debug)]
pub struct LoginRequest {
    pub email: String,
    pub password: String,
}

#[derive(Debug)]
pub struct VerifyOtpRequest {
    pub email: String,
    pub code: String,
}

#[derive(Debug)]
pub struct RefreshTokenRequest {
    pub refresh_token: String,
}

#[derive(Debug)]
pub struct AuthTokensResponse {
    pub access_token: String,
    pub refresh_token: String,
}

/// Times are microseconds since the Unix epoch.
#[derive(Debug)]
pub struct CreateElectionRequest {
    pub organization_id: u128,
    pub title: String,
    pub description: Option<String>,
    pub opens_at: i64,
    pub closes_at: i64,
}

#[derive(Debug)]
pub struct UpdateElectionRequest {
    pub title: String,
    pub description: Option<String>,
    pub opens_at: i64,
    pub closes_at: i64,
}

#[derive(Debug)]
pub struct CreateOrganizationRequest {
    pub name: String,
}

#[derive(Debug)]
pub struct CreateCandidateRequest {
    pub name: String,
    pub manifesto: Option<String>,
}

#[derive(Debug)]
pub struct UpdateCandidateRequest {
    pub name: String,
    pub manifesto: Option<String>,
}

#[derive(Debug)]
pub struct AddVoterRollRequest {
    pub user_id: u128,
}

#[derive(Debug)]
pub struct ImportVoterRollRequest {
    pub format: String,
    pub data: String,
    pub dry_run: Option<bool>,
}

/// The envelope every successful response travels in.
#[derive(Debug)]
pub struct ApiEnvelope<T> {
    pub data: T,
}

} // verus!
