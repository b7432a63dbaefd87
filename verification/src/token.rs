//! Minting and verification of signed access and refresh tokens. Verification
//! layers the kind, expiry, and not-yet-valid checks over the codec's
//! signature and shape checks, so decoding and clock policy stay independent.
use crate::claims::{Claims, ClaimsV, Role, Typ};
use crate::codec::{
    chars_to_string, decode_claims, encode_claims, lemma_codec_roundtrip, spec_decode, spec_encode,
    str_to_chars, TokenError,
};
use vstd::prelude::*;

verus! {

/// Relies on uuid::Uuid::new_v4: a fresh random id; the version bits it
/// always sets make the value nonzero whatever the randomness returns.
#[verifier::external_body]
pub(crate) fn fresh_id() -> (r: u128)
    ensures
        r != 0,
{
    uuid::Uuid::new_v4().as_u128()
}

/// Signs and verifies tokens; stateless but for the signing secret.
pub struct TokenManager<'a> {
    secret: &'a [u8],
}

impl<'a> View for TokenManager<'a> {
    type V = Seq<u8>;

    closed spec fn view(&self) -> Seq<u8> {
        self.secret@
    }
}

/// `t` is a token that decodes under `secret` to the given subject, window,
/// kind and roles, with a nonzero token id.
pub open spec fn spec_issued(
    t: Seq<char>,
    secret: Seq<u8>,
    sub: u128,
    iat: i64,
    exp: i64,
    typ: Typ,
    role: Seq<Role>,
) -> bool {
    match spec_decode(t, secret) {
        Ok(c) => c.sub == sub && c.iat == iat && c.exp == exp && c.token_type == typ && c.role
            == role && c.jti != 0,
        Err(_) => false,
    }
}

/// What verifying `t` as a `typ` token at instant `now` yields: the payload
/// when the signature, shape, kind and window all check out, else the first
/// failing check, in the order kind, expired, not yet valid.
pub open spec fn spec_validate(t: Seq<char>, typ: Typ, now: i64, secret: Seq<u8>) -> Result<
    ClaimsV,
    TokenError,
> {
    match spec_decode(t, secret) {
        Err(e) => Err(e),
        Ok(c) => if c.token_type != typ {
            Err(TokenError::TypeMismatch)
        } else if now > c.exp {
            Err(TokenError::Expired)
        } else if now < c.iat {
            Err(TokenError::NotYetValid)
        } else {
            Ok(c)
        },
    }
}

/// What reporting the whole lifetime of `t` yields: expiry minus issue
/// instant of the decoded payload; `Malformed` when that span overflows.
pub open spec fn spec_expires_in(t: Seq<char>, secret: Seq<u8>) -> Result<i64, TokenError> {
    match spec_decode(t, secret) {
        Err(e) => Err(e),
        Ok(c) => if c.exp - c.iat <= i64::MAX {
            Ok((c.exp - c.iat) as i64)
        } else {
            Err(TokenError::Malformed)
        },
    }
}

/// Signs `claims` into a token text.
fn generate_token(claims: &Claims, secret: &[u8]) -> (r: String)
    ensures
        r@ == spec_encode(claims@, secret@),
{
    let tv = encode_claims(claims, secret);
    chars_to_string(&tv)
}

/// Decodes a token text without consulting the clock.
fn decode_token(token: &str, secret: &[u8]) -> (r: Result<Claims, TokenError>)
    ensures
        match r {
            Ok(c) => spec_decode(token@, secret@) == Ok::<ClaimsV, TokenError>(c@),
            Err(e) => spec_decode(token@, secret@) == Err::<ClaimsV, TokenError>(e),
        },
{
    let tv = str_to_chars(token);
    decode_claims(&tv, secret)
}

/// Decodes, then checks kind, expiry and issue instant against `now`.
fn verify_token(token: &str, secret: &[u8], token_type: Typ, now: i64) -> (r: Result<
    Claims,
    TokenError,
>)
    ensures
        match r {
            Ok(c) => spec_validate(token@, token_type, now, secret@) == Ok::<ClaimsV, TokenError>(
                c@,
            ),
            Err(e) => spec_validate(token@, token_type, now, secret@) == Err::<ClaimsV, TokenError>(
                e,
            ),
        },
{
    let claims = match decode_token(token, secret) {
        Ok(c) => c,
        Err(e) => {
            return Err(e);
        },
    };
    if claims.typ() != token_type {
        return Err(TokenError::TypeMismatch);
    }
    if now > claims.exp() {
        return Err(TokenError::Expired);
    }
    if now < claims.iat() {
        return Err(TokenError::NotYetValid);
    }
    Ok(claims)
}

impl<'a> TokenManager<'a> {
    /// A manager signing and verifying under `secret`.
    pub fn new(secret: &'a [u8]) -> (r: Self)
        ensures
            r@ == secret@,
    {
        TokenManager { secret }
    }

    /// Mints an access token for `user_id` carrying `role`, valid from
    /// `issued_at` to `expires_at`, under a fresh token id.
    pub fn generate_access_token(
        &self,
        user_id: u128,
        expires_at: i64,
        issued_at: i64,
        role: Vec<Role>,
    ) -> (r: String)
        requires
            issued_at <= expires_at,
        ensures
            spec_issued(r@, self@, user_id, issued_at, expires_at, Typ::Access, role@),
    {
        let jti = fresh_id();
        let claims = Claims::new(user_id, expires_at, issued_at, Typ::Access, jti, role);
        proof {
            lemma_codec_roundtrip(claims@, self.secret@);
        }
        generate_token(&claims, self.secret)
    }

    /// Mints a refresh token for `user_id`: like an access token but kind
    /// `Refresh` and no roles.
    pub fn generate_refresh_token(&self, user_id: u128, expires_at: i64, issued_at: i64) -> (r:
        String)
        requires
            issued_at <= expires_at,
        ensures
            spec_issued(r@, self@, user_id, issued_at, expires_at, Typ::Refresh, Seq::empty()),
    {
        let jti = fresh_id();
        let role: Vec<Role> = Vec::new();
        let claims = Claims::new(user_id, expires_at, issued_at, Typ::Refresh, jti, role);
        proof {
            lemma_codec_roundtrip(claims@, self.secret@);
        }
        generate_token(&claims, self.secret)
    }

    /// Verifies `token` as an access token at instant `now`.
    pub fn validate_access_token(&self, token: &str, now: i64) -> (r: Result<Claims, TokenError>)
        ensures
            match r {
                Ok(c) => spec_validate(token@, Typ::Access, now, self@) == Ok::<
                    ClaimsV,
                    TokenError,
                >(c@),
                Err(e) => spec_validate(token@, Typ::Access, now, self@) == Err::<
                    ClaimsV,
                    TokenError,
                >(e),
            },
    {
        verify_token(token, self.secret, Typ::Access, now)
    }

    /// Verifies `token` as a refresh token at instant `now`.
    pub fn validate_refresh_token(&self, token: &str, now: i64) -> (r: Result<Claims, TokenError>)
        ensures
            match r {
                Ok(c) => spec_validate(token@, Typ::Refresh, now, self@) == Ok::<
                    ClaimsV,
                    TokenError,
                >(c@),
                Err(e) => spec_validate(token@, Typ::Refresh, now, self@) == Err::<
                    ClaimsV,
                    TokenError,
                >(e),
            },
    {
        verify_token(token, self.secret, Typ::Refresh, now)
    }

    /// The whole lifetime of a decodable token, for reporting `expires_in`;
    /// performs no expiry check itself.
    pub fn get_expires_in(&self, token: &str) -> (r: Result<i64, TokenError>)
        ensures
            r == spec_expires_in(token@, self@),
    {
        proof {
            crate::codec::lemma_decode_wf(token@, self.secret@);
        }
        let claims = match decode_token(token, self.secret) {
            Ok(c) => c,
            Err(e) => {
                return Err(e);
            },
        };
        match claims.exp().checked_sub(claims.iat()) {
            Some(d) => Ok(d),
            None => Err(TokenError::Malformed),
        }
    }
}

/// A token issued as an access token for a window containing `now` verifies
/// at `now` and hands back the subject and roles it was minted for.
pub proof fn lemma_issue_then_verify(
    t: Seq<char>,
    secret: Seq<u8>,
    sub: u128,
    iat: i64,
    exp: i64,
    role: Seq<Role>,
    now: i64,
)
    requires
        spec_issued(t, secret, sub, iat, exp, Typ::Access, role),
        iat <= now <= exp,
    ensures
        ({
            let v = spec_validate(t, Typ::Access, now, secret);
            v is Ok && v.unwrap().sub == sub && v.unwrap().iat == iat && v.unwrap().exp == exp
                && v.unwrap().role == role
        }),
{
}

/// A token issued as a refresh token never verifies as an access token:
/// the kind check fails whatever the clock says.
pub proof fn lemma_refresh_is_not_access(
    t: Seq<char>,
    secret: Seq<u8>,
    sub: u128,
    iat: i64,
    exp: i64,
    now: i64,
)
    requires
        spec_issued(t, secret, sub, iat, exp, Typ::Refresh, Seq::empty()),
    ensures
        spec_validate(t, Typ::Access, now, secret) == Err::<ClaimsV, TokenError>(
            TokenError::TypeMismatch,
        ),
{
}

/// Any decodable token is rejected as expired once the clock passes its
/// expiry, whatever kind it is verified as.
pub proof fn lemma_verify_after_expiry(t: Seq<char>, secret: Seq<u8>, typ: Typ, now: i64)
    requires
        spec_decode(t, secret) is Ok,
        spec_decode(t, secret).unwrap().token_type == typ,
        now > spec_decode(t, secret).unwrap().exp,
    ensures
        spec_validate(t, typ, now, secret) == Err::<ClaimsV, TokenError>(TokenError::Expired),
{
}

} // verus!
