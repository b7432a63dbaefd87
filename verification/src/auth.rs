//! The login, refresh and logout state machine: the reconciliation policy
//! that keeps at most one live refresh token per identity. A queried session
//! row is absent, active, or stale; login reuses an active session's refresh
//! token and purges a stale one, while refresh treats a stale row as an
//! authentication failure after purging it.
use crate::claims::{Claims, Role, Typ};
use crate::dto::{spec_user_res, AccessTokenResDto, LoginResDto, UserResDto};
use crate::password::{check_password, password_matches, phc_usable, MAX_PASSWORD_CHARS};
use crate::response::{AppError, SuccessResponse};
use crate::session::{
    revoked_at, session_stale, spec_session_expired, Session, SessionStore, SessionV,
};
use crate::token::{spec_issued, spec_validate, TokenManager};
use crate::user::User;
use vstd::prelude::*;

verus! {

/// The three states a queried session row can be in.
pub enum SessionState {
    Absent,
    Active,
    Stale,
}

/// The state of the session row of `uid` in `m` at instant `now`.
pub open spec fn session_state(m: Map<u128, SessionV>, uid: u128, now: i64) -> SessionState {
    if !m.contains_key(uid) {
        SessionState::Absent
    } else if session_stale(m[uid], now) {
        SessionState::Stale
    } else {
        SessionState::Active
    }
}

/// The roles an authenticated user's access tokens carry.
pub open spec fn spec_roles_of(user: &User) -> Seq<Role> {
    if user.is_admin {
        seq![Role::Admin]
    } else {
        seq![Role::User]
    }
}

fn roles_of(user: &User) -> (r: Vec<Role>)
    ensures
        r@ == spec_roles_of(user),
{
    if user.is_admin {
        vec![Role::Admin]
    } else {
        vec![Role::User]
    }
}

/// The session row a fresh login records: unrevoked, created now, holding
/// the refresh token just minted.
pub open spec fn fresh_session_row(res: LoginResDto, uid: u128, now: i64, refresh_ttl: i64) -> SessionV {
    SessionV {
        id: res.session_id,
        user_id: uid,
        refresh_token: res.refresh_token@,
        is_revoked: false,
        expires_at: (now + refresh_ttl) as i64,
        created_at: now,
        updated_at: now,
    }
}

/// How a completed login relates the store before (`pre`) and after
/// (`post`), the authenticated `user`, and the response `res`. An active
/// session is reused: its refresh token comes back unrotated and the store
/// is untouched. An absent or stale row leads to a fresh token pair and a
/// fresh row; a stale row is purged in passing. Either way the response
/// carries a fresh access token for the user's roles.
pub open spec fn spec_login_post(
    pre: Map<u128, SessionV>,
    post: Map<u128, SessionV>,
    user: &User,
    secret: Seq<u8>,
    access_ttl: i64,
    refresh_ttl: i64,
    now: i64,
    res: LoginResDto,
) -> bool {
    &&& spec_issued(
        res.access_token@,
        secret,
        user.id,
        now,
        (now + access_ttl) as i64,
        Typ::Access,
        spec_roles_of(user),
    )
    &&& res.access_token_expires_at == access_ttl
    &&& res.user == spec_user_res(user)
    &&& match session_state(pre, user.id, now) {
        SessionState::Active => {
            &&& post == pre
            &&& res.session_id == pre[user.id].id
            &&& res.refresh_token@ == pre[user.id].refresh_token
            &&& res.refresh_token_expires_at == pre[user.id].expires_at - pre[user.id].created_at
        },
        _ => {
            &&& post == pre.insert(user.id, fresh_session_row(res, user.id, now, refresh_ttl))
            &&& res.session_id != 0
            &&& spec_issued(
                res.refresh_token@,
                secret,
                user.id,
                now,
                (now + refresh_ttl) as i64,
                Typ::Refresh,
                Seq::empty(),
            )
            &&& res.refresh_token_expires_at == refresh_ttl
        },
    }
}

/// Completes a login whose credentials already checked out: reconciles the
/// user's session row and mints the credentials the response carries.
pub fn reconcile_login(
    store: &mut SessionStore,
    tm: &TokenManager,
    user: &User,
    access_ttl: i64,
    refresh_ttl: i64,
    now: i64,
) -> (res: LoginResDto)
    requires
        old(store).inv(),
        0 <= now,
        0 <= access_ttl,
        0 <= refresh_ttl,
        now + access_ttl <= i64::MAX,
        now + refresh_ttl <= i64::MAX,
    ensures
        final(store).inv(),
        spec_login_post(old(store)@, final(store)@, user, tm@, access_ttl, refresh_ttl, now, res),
{
    proof {
        old(store).lemma_values_wf();
    }
    let roles = roles_of(user);
    let existing: Option<Session> = match store.get_session_by_user_id(user.id) {
        Some(s) => Some(s.duplicate()),
        None => None,
    };
    match existing {
        Some(s) => {
            if s.is_expired(now) || s.is_revoked {
                store.delete_session_by_user_id(user.id);
                let res = create_fresh_session(store, tm, user, roles, access_ttl, refresh_ttl, now);
                proof {
                    assert(final(store)@ =~= old(store)@.insert(
                        user.id,
                        fresh_session_row(res, user.id, now, refresh_ttl),
                    ));
                }
                res
            } else {
                let access_token = tm.generate_access_token(user.id, now + access_ttl, now, roles);
                LoginResDto {
                    session_id: s.id,
                    access_token,
                    refresh_token: s.refresh_token,
                    access_token_expires_at: access_ttl,
                    refresh_token_expires_at: s.expires_at - s.created_at,
                    user: UserResDto::from(user.duplicate()),
                }
            }
        },
        None => create_fresh_session(store, tm, user, roles, access_ttl, refresh_ttl, now),
    }
}

/// Mints a fresh access and refresh token pair for `user` and records the
/// new session row; the identity must hold no row yet.
fn create_fresh_session(
    store: &mut SessionStore,
    tm: &TokenManager,
    user: &User,
    roles: Vec<Role>,
    access_ttl: i64,
    refresh_ttl: i64,
    now: i64,
) -> (res: LoginResDto)
    requires
        old(store).inv(),
        !old(store)@.contains_key(user.id),
        roles@ == spec_roles_of(user),
        0 <= now,
        0 <= access_ttl,
        0 <= refresh_ttl,
        now + access_ttl <= i64::MAX,
        now + refresh_ttl <= i64::MAX,
    ensures
        final(store).inv(),
        final(store)@ == old(store)@.insert(
            user.id,
            fresh_session_row(res, user.id, now, refresh_ttl),
        ),
        res.session_id != 0,
        spec_issued(
            res.access_token@,
            tm@,
            user.id,
            now,
            (now + access_ttl) as i64,
            Typ::Access,
            spec_roles_of(user),
        ),
        spec_issued(
            res.refresh_token@,
            tm@,
            user.id,
            now,
            (now + refresh_ttl) as i64,
            Typ::Refresh,
            Seq::empty(),
        ),
        res.access_token_expires_at == access_ttl,
        res.refresh_token_expires_at == refresh_ttl,
        res.user == spec_user_res(user),
{
    let access_token = tm.generate_access_token(user.id, now + access_ttl, now, roles);
    let refresh_token = tm.generate_refresh_token(user.id, now + refresh_ttl, now);
    let session = Session::new(user.id, refresh_token.clone(), now, refresh_ttl);
    let session_id = session.id;
    store.create_session(session);
    LoginResDto {
        session_id,
        access_token,
        refresh_token,
        access_token_expires_at: access_ttl,
        refresh_token_expires_at: refresh_ttl,
        user: UserResDto::from(user.duplicate()),
    }
}

/// Authenticates a looked-up user by password and completes the login.
/// An unknown identity and a wrong password fail alike, so responses give
/// no oracle for which of the two it was.
pub fn login(
    store: &mut SessionStore,
    tm: &TokenManager,
    user: Option<&User>,
    password: &str,
    access_ttl: i64,
    refresh_ttl: i64,
    now: i64,
) -> (r: Result<SuccessResponse<LoginResDto>, AppError>)
    requires
        old(store).inv(),
        0 <= now,
        0 <= access_ttl,
        0 <= refresh_ttl,
        now + access_ttl <= i64::MAX,
        now + refresh_ttl <= i64::MAX,
    ensures
        final(store).inv(),
        r matches Err(e) ==> final(store)@ == old(store)@ && (e.status == 401 || e.status == 500),
        user is None ==> (r matches Err(e) && e.status == 401 && e.message.spec_external()
            == "Invalid credentials"@),
        user matches Some(u) ==> (!password_matches(password@, u.password_hash@)
            ==> r is Err),
        user matches Some(u) ==> ((phc_usable(u.password_hash@) && password@.len()
            <= MAX_PASSWORD_CHARS && password_matches(password@, u.password_hash@)) ==> r is Ok),
        user matches Some(u) ==> ((phc_usable(u.password_hash@) && password@.len()
            <= MAX_PASSWORD_CHARS && !password_matches(password@, u.password_hash@)) ==> (
        r matches Err(e) && e.status == 401 && e.message.spec_external()
            == "Invalid credentials"@)),
        r matches Ok(resp) ==> (user matches Some(u) && password_matches(
            password@,
            u.password_hash@,
        ) && resp.status == 201 && spec_login_post(
            old(store)@,
            final(store)@,
            u,
            tm@,
            access_ttl,
            refresh_ttl,
            now,
            resp.body,
        )),
{
    let u = match user {
        Some(u) => u,
        None => {
            return Err(AppError::new(401, "Invalid credentials".to_owned()));
        },
    };
    let ok = match check_password(password, u.password_hash.as_str()) {
        Ok(b) => b,
        Err(e) => {
            return Err(e);
        },
    };
    if !ok {
        return Err(AppError::new(401, "Invalid credentials".to_owned()));
    }
    let body = reconcile_login(store, tm, u, access_ttl, refresh_ttl, now);
    Ok(SuccessResponse::created(body))
}

/// Ends the session of the authenticated identity: its row is removed, so
/// later refresh attempts observe no session.
pub fn logout(store: &mut SessionStore, claims: &Claims)
    requires
        old(store).inv(),
    ensures
        final(store).inv(),
        final(store)@ == old(store)@.remove(claims@.sub),
{
    let uid = claims.sub();
    store.delete_session_by_user_id(uid);
}

/// How a completed refresh relates the store before and after: an absent
/// row is an authentication failure; a stale row is purged and then fails
/// the same way, never as an infrastructure error; an active row yields a
/// fresh access token and leaves the store untouched.
pub open spec fn spec_refresh_post(
    pre: Map<u128, SessionV>,
    post: Map<u128, SessionV>,
    user_id: u128,
    secret: Seq<u8>,
    access_ttl: i64,
    now: i64,
    r: Result<SuccessResponse<AccessTokenResDto>, AppError>,
) -> bool {
    match session_state(pre, user_id, now) {
        SessionState::Absent => r matches Err(e) && e.status == 401 && post == pre,
        SessionState::Stale => r matches Err(e) && e.status == 401 && post == pre.remove(user_id),
        SessionState::Active => r matches Ok(resp) && resp.status == 200 && post == pre
            && spec_issued(
            resp.body.access_token@,
            secret,
            user_id,
            now,
            (now + access_ttl) as i64,
            Typ::Access,
            seq![Role::User],
        ) && resp.body.access_token_expires_at == access_ttl,
    }
}

/// The refresh-side reconciliation: consults the session row of an identity
/// whose refresh token already verified, purges it when stale, and mints a
/// new access token only against an active row. Tokens minted here carry
/// the base role: refreshing does not re-authenticate.
pub fn handle_stale_sessions(
    store: &mut SessionStore,
    tm: &TokenManager,
    user_id: u128,
    access_ttl: i64,
    now: i64,
) -> (r: Result<SuccessResponse<AccessTokenResDto>, AppError>)
    requires
        old(store).inv(),
        0 <= now,
        0 <= access_ttl,
        now + access_ttl <= i64::MAX,
    ensures
        final(store).inv(),
        spec_refresh_post(old(store)@, final(store)@, user_id, tm@, access_ttl, now, r),
{
    let existing: Option<Session> = match store.get_session_by_user_id(user_id) {
        Some(s) => Some(s.duplicate()),
        None => None,
    };
    match existing {
        Some(s) => {
            if s.is_expired(now) || s.is_revoked {
                store.delete_session_by_user_id(user_id);
                Err(AppError::new(401, "Invalid token".to_owned()))
            } else {
                let base_roles = vec![Role::User];
                proof {
                    assert(base_roles@ =~= seq![Role::User]);
                }
                let access_token = tm.generate_access_token(
                    user_id,
                    now + access_ttl,
                    now,
                    base_roles,
                );
                Ok(
                    SuccessResponse::ok(
                        AccessTokenResDto { access_token, access_token_expires_at: access_ttl },
                    ),
                )
            }
        },
        None => Err(AppError::new(401, "Invalid token".to_owned())),
    }
}

/// Refresh with the token carried in the request body: the token must
/// verify as a refresh token at `now`; then its subject's session row
/// decides, as `spec_refresh_post` states.
pub fn refresh_session_by_body(
    store: &mut SessionStore,
    tm: &TokenManager,
    refresh_token: &str,
    access_ttl: i64,
    now: i64,
) -> (r: Result<SuccessResponse<AccessTokenResDto>, AppError>)
    requires
        old(store).inv(),
        0 <= now,
        0 <= access_ttl,
        now + access_ttl <= i64::MAX,
    ensures
        final(store).inv(),
        spec_validate(refresh_token@, Typ::Refresh, now, tm@) is Err ==> (r matches Err(e)
            && e.status == 401 && final(store)@ == old(store)@),
        spec_validate(refresh_token@, Typ::Refresh, now, tm@) matches Ok(c) ==> spec_refresh_post(
            old(store)@,
            final(store)@,
            c.sub,
            tm@,
            access_ttl,
            now,
            r,
        ),
{
    let claims = match tm.validate_refresh_token(refresh_token, now) {
        Ok(c) => c,
        Err(_) => {
            return Err(AppError::new(401, "Invalid token".to_owned()));
        },
    };
    handle_stale_sessions(store, tm, claims.sub(), access_ttl, now)
}

/// Refresh with the token already verified at the transport edge (the
/// cookie path): the claims' subject's session row decides, exactly as for
/// the body path. Cookie and body are equivalent transports.
pub fn refresh_session_by_cookie(
    store: &mut SessionStore,
    tm: &TokenManager,
    claims: &Claims,
    access_ttl: i64,
    now: i64,
) -> (r: Result<SuccessResponse<AccessTokenResDto>, AppError>)
    requires
        old(store).inv(),
        0 <= now,
        0 <= access_ttl,
        now + access_ttl <= i64::MAX,
    ensures
        final(store).inv(),
        spec_refresh_post(old(store)@, final(store)@, claims@.sub, tm@, access_ttl, now, r),
{
    let uid = claims.sub();
    handle_stale_sessions(store, tm, uid, access_ttl, now)
}

/// Rejects callers whose claims do not carry the admin role.
pub fn check_admin(claims: &Claims) -> (r: Result<(), AppError>)
    ensures
        r is Ok <==> claims@.role.contains(Role::Admin),
        r matches Err(e) ==> e.status == 403,
{
    let roles = claims.role();
    let n = roles.len();
    let mut i: usize = 0;
    while i < n
        invariant
            i <= n == claims@.role.len(),
            roles@ == claims@.role,
            forall|k: int| 0 <= k < i ==> claims@.role[k] != Role::Admin,
        decreases n - i,
    {
        if roles[i] == Role::Admin {
            return Ok(());
        }
        i += 1;
    }
    assert(!claims@.role.contains(Role::Admin));
    Err(AppError::new(403, "Access denied: admin privileges required".to_owned()))
}

/// Revokes the authenticated identity's own session, if it holds one.
pub fn revoke_my_session(store: &mut SessionStore, claims: &Claims, now: i64)
    requires
        old(store).inv(),
    ensures
        final(store).inv(),
        old(store)@.contains_key(claims@.sub) ==> final(store)@ == old(store)@.insert(
            claims@.sub,
            revoked_at(old(store)@[claims@.sub], now),
        ),
        !old(store)@.contains_key(claims@.sub) ==> final(store)@ == old(store)@,
{
    let uid = claims.sub();
    store.revoke_session(uid, now);
}

/// Admin-gated revocation of one identity's session.
pub fn revoke_user_session(store: &mut SessionStore, claims: &Claims, user_id: u128, now: i64) -> (r:
    Result<(), AppError>)
    requires
        old(store).inv(),
    ensures
        final(store).inv(),
        !claims@.role.contains(Role::Admin) ==> (r matches Err(e) && e.status == 403
            && final(store)@ == old(store)@),
        claims@.role.contains(Role::Admin) ==> r is Ok && (old(store)@.contains_key(user_id)
            ==> final(store)@ == old(store)@.insert(
            user_id,
            revoked_at(old(store)@[user_id], now),
        )) && (!old(store)@.contains_key(user_id) ==> final(store)@ == old(store)@),
{
    match check_admin(claims) {
        Ok(()) => {
            store.revoke_session(user_id, now);
            Ok(())
        },
        Err(e) => Err(e),
    }
}

/// Admin-gated revocation across all identities: the bulk variant, which is
/// destructive and must stay behind the admin gate.
pub fn revoke_all_sessions(store: &mut SessionStore, claims: &Claims, now: i64) -> (r: Result<
    (),
    AppError,
>)
    requires
        old(store).inv(),
    ensures
        final(store).inv(),
        !claims@.role.contains(Role::Admin) ==> (r matches Err(e) && e.status == 403
            && final(store)@ == old(store)@),
        claims@.role.contains(Role::Admin) ==> r is Ok && final(store)@.dom() =~= old(
            store,
        )@.dom() && (forall|u: u128| #[trigger]
            old(store)@.contains_key(u) ==> final(store)@[u] == revoked_at(old(store)@[u], now)),
{
    match check_admin(claims) {
        Ok(()) => {
            store.revoke_all(now);
            Ok(())
        },
        Err(e) => Err(e),
    }
}

/// Mints the access and refresh pair for one identity in one step.
pub fn generate_tokens(
    tm: &TokenManager,
    user_id: u128,
    access_expires_at: i64,
    refresh_expires_at: i64,
    now: i64,
) -> (r: (String, String))
    requires
        now <= access_expires_at,
        now <= refresh_expires_at,
    ensures
        spec_issued(r.0@, tm@, user_id, now, access_expires_at, Typ::Access, seq![Role::User]),
        spec_issued(r.1@, tm@, user_id, now, refresh_expires_at, Typ::Refresh, Seq::empty()),
{
    let base_roles = vec![Role::User];
    proof {
        assert(base_roles@ =~= seq![Role::User]);
    }
    let access_token = tm.generate_access_token(user_id, access_expires_at, now, base_roles);
    let refresh_token = tm.generate_refresh_token(user_id, refresh_expires_at, now);
    (access_token, refresh_token)
}

/// Two sequential logins for one identity, the second within the refresh
/// window the first left behind: the second reuses the same refresh token
/// and session id and leaves the store exactly as the first did — no second
/// row appears and nothing rotates.
pub proof fn lemma_second_login_reuses_session(
    m0: Map<u128, SessionV>,
    m1: Map<u128, SessionV>,
    m2: Map<u128, SessionV>,
    user: &User,
    secret: Seq<u8>,
    access_ttl: i64,
    refresh_ttl: i64,
    now1: i64,
    now2: i64,
    r1: LoginResDto,
    r2: LoginResDto,
)
    requires
        spec_login_post(m0, m1, user, secret, access_ttl, refresh_ttl, now1, r1),
        spec_login_post(m1, m2, user, secret, access_ttl, refresh_ttl, now2, r2),
        m1.contains_key(user.id) ==> now2 <= m1[user.id].expires_at,
    ensures
        m2 == m1,
        r2.refresh_token@ == r1.refresh_token@,
        r2.session_id == r1.session_id,
        now1 < now2 ==> r2.access_token@ != r1.access_token@,
{
    match session_state(m0, user.id, now1) {
        SessionState::Active => {
            assert(m1 == m0);
            assert(!session_stale(m1[user.id], now2));
        },
        _ => {
            assert(m1 == m0.insert(user.id, fresh_session_row(r1, user.id, now1, refresh_ttl)));
            assert(m1[user.id] == fresh_session_row(r1, user.id, now1, refresh_ttl));
            assert(!session_stale(m1[user.id], now2));
        },
    }
    assert(session_state(m1, user.id, now2) is Active);
    if now1 < now2 {
        // The two access tokens decode to payloads with different issue
        // instants, so the token texts cannot coincide.
        assert(crate::codec::spec_decode(r1.access_token@, secret).unwrap().iat == now1);
        assert(crate::codec::spec_decode(r2.access_token@, secret).unwrap().iat == now2);
    }
}

/// A refresh attempt that observes a session row already expired at `now`
/// deletes that row and fails as an authentication error — a 401-class
/// outcome, never an infrastructure error.
pub proof fn lemma_stale_refresh_cleans_up(
    pre: Map<u128, SessionV>,
    post: Map<u128, SessionV>,
    user_id: u128,
    secret: Seq<u8>,
    access_ttl: i64,
    now: i64,
    r: Result<SuccessResponse<AccessTokenResDto>, AppError>,
)
    requires
        spec_refresh_post(pre, post, user_id, secret, access_ttl, now, r),
        pre.contains_key(user_id),
        spec_session_expired(pre[user_id], now),
    ensures
        post == pre.remove(user_id),
        r matches Err(e) && e.status == 401,
{
    assert(session_state(pre, user_id, now) is Stale);
}

} // verus!
