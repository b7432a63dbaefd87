//! The user record as the engine reads it: plain identity, credential hash
//! and authorization data. Looking records up and persisting them is the
//! user store collaborator's business, outside this library.
use crate::token::fresh_id;
use vstd::prelude::*;

verus! {

/// A stored user record.
#[derive(Debug)]
pub struct User {
    pub id: u128,
    pub github_id: Option<i64>,
    pub username: String,
    pub email: String,
    pub password_hash: String,
    pub avatar_url: Option<String>,
    pub is_admin: bool,
    pub created_at: i64,
    pub updated_at: i64,
}

impl User {
    /// A fresh non-admin user record created at instant `now`, under a
    /// random nonzero id.
    pub fn new(
        github_id: Option<i64>,
        email: String,
        password_hash: String,
        username: String,
        avatar_url: Option<String>,
        now: i64,
    ) -> (r: User)
        ensures
            r.id != 0,
            r.github_id == github_id,
            r.email == email,
            r.password_hash == password_hash,
            r.username == username,
            r.avatar_url == avatar_url,
            !r.is_admin,
            r.created_at == now,
            r.updated_at == now,
    {
        User {
            id: fresh_id(),
            github_id,
            username,
            email,
            password_hash,
            avatar_url,
            is_admin: false,
            created_at: now,
            updated_at: now,
        }
    }

    /// A field-for-field copy of this record.
    pub fn duplicate(&self) -> (r: User)
        ensures
            r == *self,
    {
        User {
            id: self.id,
            github_id: self.github_id,
            username: self.username.clone(),
            email: self.email.clone(),
            password_hash: self.password_hash.clone(),
            avatar_url: match &self.avatar_url {
                Some(a) => Some(a.clone()),
                None => None,
            },
            is_admin: self.is_admin,
            created_at: self.created_at,
            updated_at: self.updated_at,
        }
    }
}

} // verus!
