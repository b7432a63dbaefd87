//! The request and response bodies the engine takes and hands back, as plain
//! values. Transport concerns — parsing, field validation, serialization —
//! belong to the boundary layer.
use crate::response::AppError;
use crate::user::User;
use vstd::prelude::*;

verus! {

/// A registration request.
#[derive(Debug)]
pub struct RegisterDto {
    pub username: Option<String>,
    pub email: Option<String>,
    pub password: String,
    pub github_id: Option<i64>,
    pub avatar_url: Option<String>,
}

/// A login request: at least one of username and email must be given.
#[derive(Debug)]
pub struct LoginReqDto {
    pub username: Option<String>,
    pub email: Option<String>,
    pub password: String,
}

/// What a successful login hands back.
#[derive(Debug)]
pub struct LoginResDto {
    pub session_id: u128,
    pub access_token: String,
    pub refresh_token: String,
    pub access_token_expires_at: i64,
    pub refresh_token_expires_at: i64,
    pub user: UserResDto,
}

/// A refresh request carrying the refresh token in the body.
#[derive(Debug)]
pub struct AccessTokenReqDto {
    pub refresh_token: String,
}

/// What a successful refresh hands back. As in the login response, the
/// expiry field carries the credential's lifetime in seconds.
#[derive(Debug)]
pub struct AccessTokenResDto {
    pub access_token: String,
    pub access_token_expires_at: i64,
}

/// A refresh token on its own, for revocation requests.
#[derive(Debug)]
pub struct RefreshTokenDto {
    pub refresh_token: String,
}

/// A user-creation request.
#[derive(Debug)]
pub struct UserReqDto {
    pub username: Option<String>,
    pub email: Option<String>,
    pub password: String,
    pub avatar_url: Option<String>,
    pub github_id: Option<i64>,
}

/// A user record as shown to clients: no credential material.
#[derive(Debug)]
pub struct UserResDto {
    pub username: String,
    pub email: String,
    pub is_admin: bool,
    pub avatar_url: Option<String>,
    pub github_id: Option<i64>,
}

/// A partial user update; absent fields stay unchanged.
#[derive(Debug)]
pub struct PatchReqDto {
    pub username: Option<String>,
    pub email: Option<String>,
    pub password: Option<String>,
    pub avatar_url: Option<String>,
    pub github_id: Option<i64>,
}

/// Paging bounds for listing users.
#[derive(Debug)]
pub struct GetAllUsersQueryDto {
    pub limit: Option<i64>,
    pub offset: Option<i64>,
}

/// A page of user records.
#[derive(Debug)]
pub struct GetAllUsersResDto {
    pub users: Vec<UserResDto>,
}

/// Freshly minted credentials and their reporting data.
#[derive(Debug)]
pub struct TokenInfo {
    pub access_token: String,
    pub refresh_token: String,
    pub token_type: String,
    pub expires_in: i64,
}

/// What the health endpoint reports about the service.
#[derive(Debug)]
pub struct ServiceInfo {
    pub name: String,
    pub version: String,
    pub description: String,
}

/// The client-visible image of a user record.
pub open spec fn spec_user_res(u: &User) -> UserResDto {
    UserResDto {
        username: u.username,
        email: u.email,
        is_admin: u.is_admin,
        avatar_url: u.avatar_url,
        github_id: u.github_id,
    }
}

impl From<User> for UserResDto {
    fn from(user: User) -> (r: UserResDto) {
        UserResDto {
            username: user.username,
            email: user.email,
            is_admin: user.is_admin,
            avatar_url: user.avatar_url,
            github_id: user.github_id,
        }
    }
}

impl vstd::std_specs::convert::FromSpecImpl<User> for UserResDto {
    open spec fn obeys_from_spec() -> bool {
        true
    }

    open spec fn from_spec(u: User) -> UserResDto {
        spec_user_res(&u)
    }
}

impl GetAllUsersResDto {
    /// The client-visible page for a list of user records, in order.
    pub fn from_users(users: Vec<User>) -> (r: GetAllUsersResDto)
        ensures
            r.users@.len() == users@.len(),
            forall|k: int| 0 <= k < users@.len() ==> r.users@[k] == spec_user_res(&users@[k]),
    {
        let mut rest = users;
        let ghost input = rest@;
        let mut out: Vec<UserResDto> = Vec::new();
        while rest.len() > 0
            invariant
                out@.len() + rest@.len() == input.len(),
                rest@ =~= input.subrange(out@.len() as int, input.len() as int),
                forall|k: int| 0 <= k < out@.len() ==> out@[k] == spec_user_res(&input[k]),
            decreases rest@.len(),
        {
            let u = rest.remove(0);
            out.push(UserResDto::from(u));
        }
        GetAllUsersResDto { users: out }
    }
}

/// Resolves the optional identity fields of a request: at least one must be
/// present; absent fields become empty text.
pub fn process_optional_fields(username: Option<String>, email: Option<String>) -> (r: Result<
    (String, String),
    AppError,
>)
    ensures
        username is None && email is None ==> (r matches Err(e) && e.status == 422),
        username is Some || email is Some ==> (r matches Ok(p) && p.0@ == (match username {
            Some(u) => u@,
            None => Seq::<char>::empty(),
        }) && p.1@ == (match email {
            Some(m) => m@,
            None => Seq::<char>::empty(),
        })),
{
    if username.is_none() && email.is_none() {
        return Err(AppError::new(422, "Missing username or email".to_owned()));
    }
    let u = match username {
        Some(u) => u,
        None => String::new(),
    };
    let m = match email {
        Some(m) => m,
        None => String::new(),
    };
    Ok((u, m))
}

} // verus!
