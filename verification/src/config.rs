//! Configuration values the engine reads. They are loaded once at the edge
//! of the program and passed in explicitly; the library holds no global
//! state.
use vstd::prelude::*;

verus! {

/// Token signing and lifetime settings.
#[derive(Debug)]
pub struct JwtConfig {
    pub secret: String,
    pub access_token_expiration_secs: i64,
    pub refresh_token_expiration_secs: i64,
}

impl Default for JwtConfig {
    /// Fifteen minutes for access tokens, one day for refresh tokens, and
    /// no secret: deployments must supply their own.
    fn default() -> (r: Self)
        ensures
            r.secret@ == Seq::<char>::empty(),
            r.access_token_expiration_secs == 900,
            r.refresh_token_expiration_secs == 86400,
    {
        JwtConfig {
            secret: String::new(),
            access_token_expiration_secs: 900,
            refresh_token_expiration_secs: 86400,
        }
    }
}

/// Settings of the serving edge; carried for the boundary layer, not read
/// by the engine itself.
#[derive(Debug)]
pub struct ServerConfig {
    pub host: String,
    pub port: u16,
    pub timeout_in_secs: u64,
    pub origins: String,
    pub rate_limit_per_secs: u64,
    pub rate_limit_burst: u64,
    pub cookie_secret: String,
}

/// Database access settings, with table names and audit switches.
#[derive(Debug)]
pub struct DbConfig {
    pub connection_string: String,
    pub schema_name: String,
    pub permission_table: String,
    pub role_table: String,
    pub user_table: String,
    pub audit_table: String,
    pub create_indexes: bool,
    pub audit_enabled: bool,
    pub audit_ttl: u64,
}

impl DbConfig {
    /// Bundles the database settings into one value.
    pub fn new(
        connection_string: String,
        schema_name: String,
        permission_table: String,
        role_table: String,
        user_table: String,
        audit_table: String,
        create_indexes: bool,
        audit_enabled: bool,
        audit_ttl: u64,
    ) -> (r: DbConfig)
        ensures
            r.connection_string == connection_string,
            r.schema_name == schema_name,
            r.permission_table == permission_table,
            r.role_table == role_table,
            r.user_table == user_table,
            r.audit_table == audit_table,
            r.create_indexes == create_indexes,
            r.audit_enabled == audit_enabled,
            r.audit_ttl == audit_ttl,
    {
        DbConfig {
            connection_string,
            schema_name,
            permission_table,
            role_table,
            user_table,
            audit_table,
            create_indexes,
            audit_enabled,
            audit_ttl,
        }
    }
}

/// Which environment the program runs in.
#[derive(Debug, Clone, Copy, PartialEq, Eq, Structural)]
pub enum AppEnvironment {
    Local,
    Production,
}

} // verus!
