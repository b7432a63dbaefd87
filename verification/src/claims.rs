use vstd::prelude::*;

verus! {

/// The kind of credential a signed payload represents. Tagging the kind
/// inside the signed payload keeps a refresh token from being replayed
/// as an access token and vice versa.
#[derive(Debug, Clone, Copy, PartialEq, Eq, Structural)]
pub enum Typ {
    Access,
    Refresh,
}

/// An authorization attribute carried by access tokens.
#[derive(Debug, Clone, Copy, PartialEq, Eq, Structural)]
pub enum Role {
    Admin,
    User,
}

/// The signed-token payload: subject, issue and expiry instants (Unix
/// seconds), the token kind, a unique token id, and the roles granted.
#[derive(Debug)]
pub struct Claims {
    sub: u128,
    exp: i64,
    iat: i64,
    token_type: Typ,
    jti: u128,
    role: Vec<Role>,
}

/// Mathematical image of `Claims`.
pub struct ClaimsV {
    pub sub: u128,
    pub exp: i64,
    pub iat: i64,
    pub token_type: Typ,
    pub jti: u128,
    pub role: Seq<Role>,
}

impl View for Claims {
    type V = ClaimsV;

    closed spec fn view(&self) -> ClaimsV {
        ClaimsV {
            sub: self.sub,
            exp: self.exp,
            iat: self.iat,
            token_type: self.token_type,
            jti: self.jti,
            role: self.role@,
        }
    }
}

/// A payload is well formed when it was not issued after its own expiry.
pub open spec fn claims_wf(c: ClaimsV) -> bool {
    c.iat <= c.exp
}

impl Claims {
    /// Builds a payload; the issue instant may not lie after the expiry.
    pub fn new(sub: u128, exp: i64, iat: i64, token_type: Typ, jti: u128, role: Vec<Role>) -> (r: Self)
        requires
            iat <= exp,
        ensures
            r@ == (ClaimsV { sub, exp, iat, token_type, jti, role: role@ }),
            claims_wf(r@),
    {
        Claims { sub, exp, iat, token_type, jti, role }
    }

    pub fn sub(&self) -> (r: u128)
        ensures
            r == self@.sub,
    {
        self.sub
    }

    pub fn exp(&self) -> (r: i64)
        ensures
            r == self@.exp,
    {
        self.exp
    }

    pub fn iat(&self) -> (r: i64)
        ensures
            r == self@.iat,
    {
        self.iat
    }

    pub fn jti(&self) -> (r: u128)
        ensures
            r == self@.jti,
    {
        self.jti
    }

    pub fn typ(&self) -> (r: Typ)
        ensures
            r == self@.token_type,
    {
        self.token_type
    }

    pub fn role(&self) -> (r: &Vec<Role>)
        ensures
            r@ == self@.role,
    {
        &self.role
    }

    /// Seconds between issue and expiry: the credential's whole lifetime,
    /// regardless of the current instant.
    pub fn get_expires_in(&self) -> (r: i64)
        requires
            self@.exp - self@.iat <= i64::MAX,
            claims_wf(self@),
        ensures
            r == self@.exp - self@.iat,
    {
        self.exp - self.iat
    }
}

} // verus!
