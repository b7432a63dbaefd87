//! The persisted session row and the session store contract: at most one row
//! per identity, created on login, revoked or deleted on logout and cleanup.
//! The store here is the in-memory embodiment of that contract; every
//! operation states exactly how the row map changes.
use crate::token::fresh_id;
use vstd::prelude::*;

verus! {

/// A persisted session: the binding of an identity to its current refresh
/// token, with the revocation flag and bookkeeping instants.
#[derive(Debug)]
pub struct Session {
    pub id: u128,
    pub user_id: u128,
    pub refresh_token: String,
    pub is_revoked: bool,
    pub expires_at: i64,
    pub created_at: i64,
    pub updated_at: i64,
}

/// Mathematical image of `Session`.
pub struct SessionV {
    pub id: u128,
    pub user_id: u128,
    pub refresh_token: Seq<char>,
    pub is_revoked: bool,
    pub expires_at: i64,
    pub created_at: i64,
    pub updated_at: i64,
}

impl View for Session {
    type V = SessionV;

    open spec fn view(&self) -> SessionV {
        SessionV {
            id: self.id,
            user_id: self.user_id,
            refresh_token: self.refresh_token@,
            is_revoked: self.is_revoked,
            expires_at: self.expires_at,
            created_at: self.created_at,
            updated_at: self.updated_at,
        }
    }
}

impl DeepView for Session {
    type V = SessionV;

    open spec fn deep_view(&self) -> SessionV {
        self.view()
    }
}

/// A session row never expires before it was created, and carries
/// non-negative instants.
pub open spec fn session_wf(s: SessionV) -> bool {
    0 <= s.created_at <= s.expires_at
}

/// A session that expired strictly before `now` is no longer current.
pub open spec fn spec_session_expired(s: SessionV, now: i64) -> bool {
    s.expires_at < now
}

/// A stale session is one that is expired or revoked; it must be purged
/// before new credentials are issued against its identity.
pub open spec fn session_stale(s: SessionV, now: i64) -> bool {
    spec_session_expired(s, now) || s.is_revoked
}

/// `s` after being marked revoked at instant `now`.
pub open spec fn revoked_at(s: SessionV, now: i64) -> SessionV {
    SessionV { is_revoked: true, updated_at: now, ..s }
}

impl Session {
    /// A fresh, unrevoked session for `user_id` holding `refresh_token`,
    /// created at `now` and expiring `duration` seconds later, under a
    /// random nonzero id.
    pub fn new(user_id: u128, refresh_token: String, now: i64, duration: i64) -> (r: Session)
        requires
            0 <= now,
            0 <= duration,
            now + duration <= i64::MAX,
        ensures
            r@.id != 0,
            r@.user_id == user_id,
            r@.refresh_token == refresh_token@,
            !r@.is_revoked,
            r@.expires_at == now + duration,
            r@.created_at == now,
            r@.updated_at == now,
            session_wf(r@),
    {
        Session {
            id: fresh_id(),
            user_id,
            refresh_token,
            is_revoked: false,
            expires_at: now + duration,
            created_at: now,
            updated_at: now,
        }
    }

    /// Whether this session has already expired at instant `now`.
    pub fn is_expired(&self, now: i64) -> (r: bool)
        ensures
            r == spec_session_expired(self@, now),
    {
        self.expires_at < now
    }

    /// A field-for-field copy of this session.
    pub fn duplicate(&self) -> (r: Session)
        ensures
            r@ == self@,
    {
        Session {
            id: self.id,
            user_id: self.user_id,
            refresh_token: self.refresh_token.clone(),
            is_revoked: self.is_revoked,
            expires_at: self.expires_at,
            created_at: self.created_at,
            updated_at: self.updated_at,
        }
    }
}

/// Whether some row of `rs` belongs to identity `u`.
pub open spec fn has_user(rs: Seq<SessionV>, u: u128) -> bool {
    exists|i: int| 0 <= i < rs.len() && rs[i].user_id == u
}

/// The index of the row of identity `u`; meaningful only under `has_user`
/// and row uniqueness.
pub open spec fn row_index(rs: Seq<SessionV>, u: u128) -> int {
    choose|i: int| 0 <= i < rs.len() && rs[i].user_id == u
}

/// No two rows belong to the same identity.
pub open spec fn unique_users(rs: Seq<SessionV>) -> bool {
    forall|i: int, j: int| 0 <= i < j < rs.len() ==> rs[i].user_id != rs[j].user_id
}

/// The rows of `rs` as a map keyed by identity.
pub open spec fn map_of(rs: Seq<SessionV>) -> Map<u128, SessionV> {
    Map::new(|u: u128| has_user(rs, u), |u: u128| rs[row_index(rs, u)])
}

proof fn lemma_row_lookup(rs: Seq<SessionV>, i: int)
    requires
        unique_users(rs),
        0 <= i < rs.len(),
    ensures
        map_of(rs).contains_key(rs[i].user_id),
        map_of(rs)[rs[i].user_id] == rs[i],
{
    let u = rs[i].user_id;
    assert(has_user(rs, u));
    let j = row_index(rs, u);
    assert(0 <= j < rs.len() && rs[j].user_id == u);
    if i != j {
        assert(false);
    }
}

/// The session table: the shared mutable resource of the engine, holding at
/// most one row per identity.
pub struct SessionStore {
    rows: Vec<Session>,
}

impl View for SessionStore {
    type V = Map<u128, SessionV>;

    closed spec fn view(&self) -> Map<u128, SessionV> {
        map_of(self.rows.deep_view())
    }
}

impl SessionStore {
    /// The rows as a sequence of images, in storage order.
    pub closed spec fn rows_v(&self) -> Seq<SessionV> {
        self.rows.deep_view()
    }

    /// The store invariant: one row per identity, each row well formed.
    pub closed spec fn inv(&self) -> bool {
        unique_users(self.rows_v()) && (forall|i: int|
            0 <= i < self.rows_v().len() ==> session_wf(#[trigger] self.rows_v()[i]))
    }

    /// Every row reachable through the map is well formed and keyed by its
    /// own identity.
    pub proof fn lemma_values_wf(&self)
        requires
            self.inv(),
        ensures
            forall|u: u128| #[trigger]
                self@.contains_key(u) ==> session_wf(self@[u]) && self@[u].user_id == u,
    {
        assert forall|u: u128| #[trigger] self@.contains_key(u) implies session_wf(self@[u])
            && self@[u].user_id == u by {
            let i = row_index(self.rows_v(), u);
            assert(0 <= i < self.rows_v().len() && self.rows_v()[i].user_id == u);
        }
    }

    /// An empty store.
    pub fn new() -> (r: SessionStore)
        ensures
            r.inv(),
            r@ =~= Map::<u128, SessionV>::empty(),
    {
        let r = SessionStore { rows: Vec::new() };
        proof {
            assert(r.rows_v() =~= Seq::<SessionV>::empty());
        }
        r
    }

    /// The session of `user_id`, if the store holds one.
    pub fn get_session_by_user_id(&self, user_id: u128) -> (r: Option<&Session>)
        requires
            self.inv(),
        ensures
            match r {
                Some(s) => self@.contains_key(user_id) && s@ == self@[user_id],
                None => !self@.contains_key(user_id),
            },
    {
        let n = self.rows.len();
        let mut i: usize = 0;
        while i < n
            invariant
                i <= n == self.rows_v().len(),
                self.inv(),
                forall|k: int| 0 <= k < i ==> self.rows_v()[k].user_id != user_id,
            decreases n - i,
        {
            if self.rows[i].user_id == user_id {
                proof {
                    lemma_row_lookup(self.rows_v(), i as int);
                }
                return Some(&self.rows[i]);
            }
            i += 1;
        }
        assert(!has_user(self.rows_v(), user_id));
        None
    }

    /// Adds the session row of an identity that holds none yet.
    pub fn create_session(&mut self, s: Session)
        requires
            old(self).inv(),
            session_wf(s@),
            !old(self)@.contains_key(s@.user_id),
        ensures
            final(self).inv(),
            final(self)@ =~= old(self)@.insert(s@.user_id, s@),
    {
        let ghost rs0 = self.rows_v();
        let ghost sv = s@;
        let u = s.user_id;
        proof {
            assert(!has_user(rs0, sv.user_id));
        }
        self.rows.push(s);
        proof {
            let rs1 = self.rows_v();
            assert(rs1 =~= rs0.push(sv));
            assert forall|k: int| 0 <= k < rs0.len() implies rs1[k] == rs0[k] by {}
            assert(unique_users(rs1)) by {
                assert forall|i: int, j: int| 0 <= i < j < rs1.len() implies rs1[i].user_id
                    != rs1[j].user_id by {
                    if j == rs1.len() - 1 {
                        assert(rs1[j] == sv);
                        assert(rs0[i].user_id != sv.user_id) by {
                            if rs0[i].user_id == sv.user_id {
                                assert(has_user(rs0, sv.user_id));
                            }
                        }
                    }
                }
            }
            assert(final(self)@ =~= old(self)@.insert(sv.user_id, sv)) by {
                assert forall|u2: u128| #[trigger]
                    map_of(rs1).contains_key(u2) == old(self)@.insert(
                        sv.user_id,
                        sv,
                    ).contains_key(u2) && (map_of(rs1).contains_key(u2) ==> map_of(rs1)[u2]
                    == old(self)@.insert(sv.user_id, sv)[u2]) by {
                    if u2 == sv.user_id {
                        lemma_row_lookup(rs1, rs1.len() - 1);
                    } else {
                        if has_user(rs1, u2) {
                            let i = choose|i: int|
                                0 <= i < rs1.len() && rs1[i].user_id == u2;
                            assert(i < rs0.len());
                            assert(rs0[i].user_id == u2);
                            lemma_row_lookup(rs1, i);
                            lemma_row_lookup(rs0, i);
                        }
                        if has_user(rs0, u2) {
                            let i = choose|i: int|
                                0 <= i < rs0.len() && rs0[i].user_id == u2;
                            assert(rs1[i].user_id == u2);
                        }
                    }
                }
            }
        }
    }

    /// Removes the session row of `user_id`, if any.
    pub fn delete_session_by_user_id(&mut self, user_id: u128)
        requires
            old(self).inv(),
        ensures
            final(self).inv(),
            final(self)@ =~= old(self)@.remove(user_id),
    {
        let ghost rs0 = self.rows_v();
        let n = self.rows.len();
        let mut i: usize = 0;
        while i < n
            invariant
                i <= n == self.rows_v().len(),
                self.inv(),
                self.rows_v() == rs0,
                rs0 == old(self).rows_v(),
                forall|k: int| 0 <= k < i ==> self.rows_v()[k].user_id != user_id,
            decreases n - i,
        {
            if self.rows[i].user_id == user_id {
                let _ = self.rows.remove(i);
                proof {
                    let rs1 = self.rows_v();
                    assert(rs1 =~= rs0.remove(i as int));
                    assert forall|k: int| 0 <= k < rs1.len() implies rs1[k] == (if k < i {
                        rs0[k]
                    } else {
                        rs0[k + 1]
                    }) by {}
                    assert(unique_users(rs1));
                    assert(forall|k: int|
                        0 <= k < rs1.len() ==> session_wf(#[trigger] rs1[k]));
                    assert(final(self)@ =~= old(self)@.remove(user_id)) by {
                        assert forall|u2: u128|
                            (#[trigger] map_of(rs1).contains_key(u2) == old(self)@.remove(
                                user_id,
                            ).contains_key(u2)) && (map_of(rs1).contains_key(u2) ==> map_of(
                                rs1,
                            )[u2] == old(self)@.remove(user_id)[u2]) by {
                            if u2 == user_id {
                                if has_user(rs1, u2) {
                                    let k = choose|k: int|
                                        0 <= k < rs1.len() && rs1[k].user_id == u2;
                                    let k0 = if k < i as int {
                                        k
                                    } else {
                                        k + 1
                                    };
                                    assert(rs0[k0].user_id == u2);
                                    assert(rs0[i as int].user_id == u2);
                                    assert(false);
                                }
                            } else {
                                if has_user(rs1, u2) {
                                    let k = choose|k: int|
                                        0 <= k < rs1.len() && rs1[k].user_id == u2;
                                    let k0 = if k < i as int {
                                        k
                                    } else {
                                        k + 1
                                    };
                                    assert(rs0[k0].user_id == u2);
                                    lemma_row_lookup(rs1, k);
                                    lemma_row_lookup(rs0, k0);
                                }
                                if has_user(rs0, u2) {
                                    let k0 = choose|k0: int|
                                        0 <= k0 < rs0.len() && rs0[k0].user_id == u2;
                                    let k = if k0 < i as int {
                                        k0
                                    } else {
                                        k0 - 1
                                    };
                                    assert(k0 != i as int);
                                    assert(rs1[k].user_id == u2);
                                }
                            }
                        }
                    }
                }
                return ;
            }
            i += 1;
        }
        proof {
            assert(!has_user(rs0, user_id));
            assert(final(self)@ =~= old(self)@.remove(user_id));
        }
    }

    /// Marks the session row of `user_id`, if any, revoked at instant `now`.
    pub fn revoke_session(&mut self, user_id: u128, now: i64)
        requires
            old(self).inv(),
        ensures
            final(self).inv(),
            old(self)@.contains_key(user_id) ==> final(self)@ =~= old(self)@.insert(
                user_id,
                revoked_at(old(self)@[user_id], now),
            ),
            !old(self)@.contains_key(user_id) ==> final(self)@ =~= old(self)@,
    {
        let ghost rs0 = self.rows_v();
        let n = self.rows.len();
        let mut i: usize = 0;
        while i < n
            invariant
                i <= n == self.rows_v().len(),
                self.inv(),
                self.rows_v() == rs0,
                rs0 == old(self).rows_v(),
                forall|k: int| 0 <= k < i ==> self.rows_v()[k].user_id != user_id,
            decreases n - i,
        {
            if self.rows[i].user_id == user_id {
                proof {
                    lemma_row_lookup(rs0, i as int);
                }
                let mut row = self.rows.remove(i);
                row.is_revoked = true;
                row.updated_at = now;
                let ghost rv = row@;
                self.rows.push(row);
                proof {
                    let rs1 = self.rows_v();
                    assert(rs1 =~= rs0.remove(i as int).push(rv));
                    assert(rv == revoked_at(rs0[i as int], now));
                    assert forall|k: int| 0 <= k < rs1.len() - 1 implies rs1[k] == (if k
                        < i as int {
                        rs0[k]
                    } else {
                        rs0[k + 1]
                    }) by {}
                    assert(rs1[rs1.len() - 1] == rv);
                    assert(unique_users(rs1)) by {
                        assert forall|p: int, q: int| 0 <= p < q < rs1.len() implies rs1[p].user_id
                            != rs1[q].user_id by {
                            if q == rs1.len() - 1 {
                                let p0 = if p < i as int {
                                    p
                                } else {
                                    p + 1
                                };
                                assert(rs1[p] == rs0[p0]);
                                assert(p0 != i as int);
                            }
                        }
                    }
                    assert(forall|k: int|
                        0 <= k < rs1.len() ==> session_wf(#[trigger] rs1[k]));
                    assert(final(self)@ =~= old(self)@.insert(
                        user_id,
                        revoked_at(old(self)@[user_id], now),
                    )) by {
                        assert forall|u2: u128|
                            (#[trigger] map_of(rs1).contains_key(u2) == old(self)@.insert(
                                user_id,
                                revoked_at(old(self)@[user_id], now),
                            ).contains_key(u2)) && (map_of(rs1).contains_key(u2) ==> map_of(
                                rs1,
                            )[u2] == old(self)@.insert(
                                user_id,
                                revoked_at(old(self)@[user_id], now),
                            )[u2]) by {
                            if u2 == user_id {
                                lemma_row_lookup(rs1, rs1.len() - 1);
                            } else {
                                if has_user(rs1, u2) {
                                    let k = choose|k: int|
                                        0 <= k < rs1.len() && rs1[k].user_id == u2;
                                    assert(k < rs1.len() - 1);
                                    let k0 = if k < i as int {
                                        k
                                    } else {
                                        k + 1
                                    };
                                    assert(rs0[k0].user_id == u2);
                                    lemma_row_lookup(rs1, k);
                                    lemma_row_lookup(rs0, k0);
                                }
                                if has_user(rs0, u2) {
                                    let k0 = choose|k0: int|
                                        0 <= k0 < rs0.len() && rs0[k0].user_id == u2;
                                    assert(k0 != i as int);
                                    let k = if k0 < i as int {
                                        k0
                                    } else {
                                        k0 - 1
                                    };
                                    assert(rs1[k].user_id == u2);
                                }
                            }
                        }
                    }
                }
                return ;
            }
            i += 1;
        }
        proof {
            assert(!has_user(rs0, user_id));
            assert(final(self)@ =~= old(self)@);
        }
    }

    /// Marks every session row revoked at instant `now`: the bulk variant of
    /// revocation, across all identities.
    pub fn revoke_all(&mut self, now: i64)
        requires
            old(self).inv(),
        ensures
            final(self).inv(),
            final(self)@.dom() =~= old(self)@.dom(),
            forall|u: u128| #[trigger]
                old(self)@.contains_key(u) ==> final(self)@[u] == revoked_at(old(self)@[u], now),
    {
        let ghost rs0 = self.rows_v();
        let n = self.rows.len();
        let mut out: Vec<Session> = Vec::new();
        let mut i: usize = 0;
        while i < n
            invariant
                i <= n == self.rows_v().len(),
                self.inv(),
                self.rows_v() == rs0,
                rs0 == old(self).rows_v(),
                out.deep_view().len() == i,
                forall|k: int|
                    0 <= k < i ==> out.deep_view()[k] == revoked_at(#[trigger] rs0[k], now),
            decreases n - i,
        {
            let mut row = self.rows[i].duplicate();
            row.is_revoked = true;
            row.updated_at = now;
            out.push(row);
            i += 1;
        }
        self.rows = out;
        proof {
            let rs1 = self.rows_v();
            assert(rs1.len() == rs0.len());
            assert(forall|k: int|
                0 <= k < rs1.len() ==> #[trigger] rs1[k] == revoked_at(rs0[k], now));
            assert(unique_users(rs1));
            assert(forall|k: int| 0 <= k < rs1.len() ==> session_wf(#[trigger] rs1[k]));
            assert(final(self)@.dom() =~= old(self)@.dom()) by {
                assert forall|u2: u128| has_user(rs1, u2) == has_user(rs0, u2) by {
                    if has_user(rs0, u2) {
                        let k = choose|k: int| 0 <= k < rs0.len() && rs0[k].user_id == u2;
                        assert(rs1[k].user_id == u2);
                    }
                    if has_user(rs1, u2) {
                        let k = choose|k: int| 0 <= k < rs1.len() && rs1[k].user_id == u2;
                        assert(rs0[k].user_id == u2);
                    }
                }
            }
            assert forall|u2: u128| #[trigger] old(self)@.contains_key(u2) implies final(self)@[u2]
                == revoked_at(old(self)@[u2], now) by {
                let k = choose|k: int| 0 <= k < rs0.len() && rs0[k].user_id == u2;
                lemma_row_lookup(rs0, k);
                assert(rs1[k].user_id == u2);
                lemma_row_lookup(rs1, k);
            }
        }
    }
}

} // verus!
