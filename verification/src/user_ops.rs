//! User-record decisions: registration and partial updates. Store lookups
//! are the user store collaborator's business; these functions take the
//! lookup results and decide what record to write, or why to refuse.
use crate::dto::{GetAllUsersQueryDto, PatchReqDto, UserReqDto};
use crate::password::{hash_password, password_matches, phc_usable};
use crate::response::AppError;
use crate::user::User;
use vstd::prelude::*;

verus! {

/// Decides a registration: the request must name a username or an email,
/// the identity must be new, and the stored record carries a hash matching
/// the chosen password — never the password itself.
pub fn register(dto: UserReqDto, existing: Option<&User>, now: i64) -> (r: Result<User, AppError>)
    ensures
        dto.username is None && dto.email is None ==> (r matches Err(e) && e.status == 422),
        (dto.username is Some || dto.email is Some) && existing is Some ==> (r matches Err(e)
            && e.status == 409),
        (dto.username is Some || dto.email is Some) && existing is None ==> (r is Ok || (
        r matches Err(e) && e.status == 500)),
        r matches Ok(u) ==> ({
            &&& existing is None
            &&& u.id != 0
            &&& !u.is_admin
            &&& u.username@ == (match dto.username {
                Some(n) => n@,
                None => Seq::<char>::empty(),
            })
            &&& u.email@ == (match dto.email {
                Some(m) => m@,
                None => Seq::<char>::empty(),
            })
            &&& password_matches(dto.password@, u.password_hash@)
            &&& phc_usable(u.password_hash@)
            &&& u.github_id == dto.github_id
            &&& u.avatar_url == dto.avatar_url
            &&& u.created_at == now
            &&& u.updated_at == now
        }),
        r matches Err(e) ==> (e.status == 422 || e.status == 409 || e.status == 500),
{
    let (username, email) = match crate::dto::process_optional_fields(dto.username, dto.email) {
        Ok(p) => p,
        Err(e) => {
            return Err(e);
        },
    };
    if existing.is_some() {
        return Err(AppError::new(409, "User already exists".to_owned()));
    }
    let password_hash = match hash_password(dto.password.as_str()) {
        Ok(h) => h,
        Err(e) => {
            return Err(e);
        },
    };
    Ok(User::new(dto.github_id, email, password_hash, username, dto.avatar_url, now))
}

/// Decides a partial update of `user`: each given field replaces the stored
/// one, a given password is re-hashed, and a field already taken by another
/// record is a conflict. Conflicts are reported in the order username,
/// email, github id, as the `*_taken` flags from the user store say.
pub fn handle_patch_updates(
    user: Option<&User>,
    dto: PatchReqDto,
    username_taken: bool,
    email_taken: bool,
    github_id_taken: bool,
) -> (r: Result<User, AppError>)
    ensures
        user is None ==> (r matches Err(e) && e.status == 404),
        user is Some && dto.username is Some && username_taken ==> (r matches Err(e) && e.status
            == 409),
        user is Some && (dto.username is None || !username_taken) && dto.email is Some
            && email_taken ==> (r matches Err(e) && e.status == 409),
        user is Some && (dto.username is None || !username_taken) && (dto.email is None
            || !email_taken) && dto.github_id is Some && github_id_taken ==> (r matches Err(e)
            && e.status == 409),
        user is Some && (dto.username is None || !username_taken) && (dto.email is None
            || !email_taken) && (dto.github_id is None || !github_id_taken) ==> (r is Ok || (
        r matches Err(e) && e.status == 500)),
        user is Some && (dto.username is None || !username_taken) && (dto.email is None
            || !email_taken) && (dto.github_id is None || !github_id_taken) && dto.password
            is None ==> r is Ok,
        r matches Ok(u2) ==> (user matches Some(u) && {
            &&& u2.id == u.id
            &&& u2.is_admin == u.is_admin
            &&& u2.created_at == u.created_at
            &&& u2.username@ == (match dto.username {
                Some(n) => n@,
                None => u.username@,
            })
            &&& u2.email@ == (match dto.email {
                Some(m) => m@,
                None => u.email@,
            })
            &&& u2.github_id == (match dto.github_id {
                Some(g) => Some(g),
                None => u.github_id,
            })
            &&& (match dto.password {
                Some(p) => password_matches(p@, u2.password_hash@) && phc_usable(
                    u2.password_hash@,
                ),
                None => u2.password_hash@ == u.password_hash@,
            })
            &&& (dto.username is Some ==> !username_taken)
            &&& (dto.email is Some ==> !email_taken)
            &&& (dto.github_id is Some ==> !github_id_taken)
        }),
        r matches Err(e) ==> (e.status == 404 || e.status == 409 || e.status == 500),
{
    let u = match user {
        Some(u) => u,
        None => {
            return Err(AppError::new(404, "User not found".to_owned()));
        },
    };
    let mut updated = u.duplicate();
    match dto.username {
        Some(name) => {
            if username_taken {
                return Err(AppError::new(409, "Username already exists".to_owned()));
            }
            updated.username = name;
        },
        None => {},
    }
    match dto.email {
        Some(mail) => {
            if email_taken {
                return Err(AppError::new(409, "Email already exists".to_owned()));
            }
            updated.email = mail;
        },
        None => {},
    }
    match dto.github_id {
        Some(gid) => {
            if github_id_taken {
                return Err(AppError::new(409, "GitHub ID already exists".to_owned()));
            }
            updated.github_id = Some(gid);
        },
        None => {},
    }
    match dto.password {
        Some(pw) => {
            let hashed = match hash_password(pw.as_str()) {
                Ok(h) => h,
                Err(e) => {
                    return Err(e);
                },
            };
            updated.password_hash = hashed;
        },
        None => {},
    }
    match dto.avatar_url {
        Some(url) => {
            updated.avatar_url = Some(url);
        },
        None => {},
    }
    Ok(updated)
}

/// Gates the user listing behind the admin role and resolves its paging
/// bounds: fifty records by default, a hundred at most, from offset zero.
pub fn get_all_users(claims: &crate::claims::Claims, query: GetAllUsersQueryDto) -> (r: Result<
    (i64, i64),
    AppError,
>)
    ensures
        !claims@.role.contains(crate::claims::Role::Admin) ==> (r matches Err(e) && e.status
            == 403),
        claims@.role.contains(crate::claims::Role::Admin) ==> (r matches Ok(p) && p.0 == {
            let l = match query.limit {
                Some(l) => l,
                None => 50,
            };
            if l < 100 {
                l
            } else {
                100
            }
        } && p.1 == (match query.offset {
            Some(o) => o,
            None => 0,
        })),
{
    match crate::auth::check_admin(claims) {
        Ok(()) => {
            let limit: i64 = match query.limit {
                Some(l) => l,
                None => 50,
            };
            let limit: i64 = if limit < 100 {
                limit
            } else {
                100
            };
            let offset: i64 = match query.offset {
                Some(o) => o,
                None => 0,
            };
            Ok((limit, offset))
        },
        Err(e) => Err(e),
    }
}

} // verus!
