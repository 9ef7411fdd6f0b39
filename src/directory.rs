use vstd::prelude::*;

use crate::error::ChatError;

verus! {

/// What the directory knows of one handle: its credential, whether it is
/// online, and the connection it is bound to while online.
pub struct UserState {
    pub pass: Seq<char>,
    pub online: bool,
    pub conn: Option<u64>,
}

/// The directory's contents: handle to user state.
pub type Users = Map<Seq<char>, UserState>;

/// The record of one user: handle, credential, online flag and, while online,
/// the identity of the connection bound to it.
#[derive(Debug, Clone)]
pub struct Info {
    pub name: String,
    pub pass: String,
    pub state: bool,
    pub conn: Option<u64>,
}

impl Info {
    /// What the directory holds of this record under its handle.
    pub open spec fn user(&self) -> UserState {
        UserState { pass: self.pass@, online: self.state, conn: self.conn }
    }
}

/// A record that is offline and bound to no connection.
pub open spec fn offline(pass: Seq<char>) -> UserState {
    UserState { pass, online: false, conn: None }
}

/// Every online record is bound to a connection, and no offline one is.
pub open spec fn consistent(m: Users) -> bool {
    forall|h: Seq<char>| #[trigger] m.contains_key(h) ==> (m[h].online <==> m[h].conn is Some)
}

/// The credential given to a newly registered handle.
pub open spec fn default_pass() -> Seq<char> {
    "123"@
}

/// Registration: a known handle fails `AlreadyExists`; a new one is added
/// offline with the credential `cred`.
pub open spec fn register_spec(m: Users, h: Seq<char>, cred: Seq<char>) -> (Users, Result<(), ChatError>) {
    if m.contains_key(h) {
        (m, Err(ChatError::AlreadyExists))
    } else {
        (m.insert(h, offline(cred)), Ok(()))
    }
}

/// Login: fails `NotFound` for an unknown handle, `AlreadyOnline` for an
/// online one, `WrongCredential` where `cred` is not its credential; otherwise
/// the handle goes online, bound to the connection `conn`.
pub open spec fn authenticate_spec(m: Users, h: Seq<char>, cred: Seq<char>, conn: u64) -> (
    Users,
    Result<(), ChatError>,
) {
    if !m.contains_key(h) {
        (m, Err(ChatError::NotFound))
    } else if m[h].online {
        (m, Err(ChatError::AlreadyOnline))
    } else if m[h].pass != cred {
        (m, Err(ChatError::WrongCredential))
    } else {
        (m.insert(h, UserState { pass: m[h].pass, online: true, conn: Some(conn) }), Ok(()))
    }
}

/// Logout: fails `NotLoggedIn` for an unknown or offline handle; otherwise the
/// handle goes offline and is bound to no connection.
pub open spec fn deauthenticate_spec(m: Users, h: Seq<char>) -> (Users, Result<(), ChatError>) {
    if !m.contains_key(h) || !m[h].online {
        (m, Err(ChatError::NotLoggedIn))
    } else {
        (m.insert(h, offline(m[h].pass)), Ok(()))
    }
}

/// Credential change: fails `NotLoggedIn` for an unknown or offline handle,
/// `WrongCredential` where `old_cred` is not its credential; otherwise the
/// credential becomes `new_cred` and the handle goes offline.
pub open spec fn change_credential_spec(
    m: Users,
    h: Seq<char>,
    old_cred: Seq<char>,
    new_cred: Seq<char>,
) -> (Users, Result<(), ChatError>) {
    if !m.contains_key(h) || !m[h].online {
        (m, Err(ChatError::NotLoggedIn))
    } else if m[h].pass != old_cred {
        (m, Err(ChatError::WrongCredential))
    } else {
        (m.insert(h, offline(new_cred)), Ok(()))
    }
}

/// The handle goes offline when its connection ends; an unknown handle
/// changes nothing.
pub open spec fn go_offline_spec(m: Users, h: Seq<char>) -> Users {
    if m.contains_key(h) {
        m.insert(h, offline(m[h].pass))
    } else {
        m
    }
}

/// The records `recs` (handle, credential) stored in turn, each offline; a
/// later record of a handle replaces an earlier one.
pub open spec fn load_spec(m: Users, recs: Seq<(Seq<char>, Seq<char>)>) -> Users
    decreases recs.len(),
{
    if recs.len() == 0 {
        m
    } else {
        load_spec(m, recs.drop_last()).insert(recs.last().0, offline(recs.last().1))
    }
}

/// The (handle, credential) pairs of a sequence of records.
pub open spec fn pairs(recs: Seq<Info>) -> Seq<(Seq<char>, Seq<char>)> {
    recs.map_values(|i: Info| (i.name@, i.pass@))
}

/// The directory of known users, keyed by handle.
pub struct Directory {
    users: Vec<Info>,
    model: Ghost<Users>,
}

impl View for Directory {
    type V = Users;

    closed spec fn view(&self) -> Users {
        self.model@
    }
}

impl Directory {
    /// Handles are unique in the records, and the records are exactly the
    /// directory's contents.
    pub closed spec fn wf(&self) -> bool {
        &&& forall|i: int, j: int|
            0 <= i < j < self.users@.len() ==> #[trigger] self.users@[i].name@
                != #[trigger] self.users@[j].name@
        &&& forall|i: int|
            0 <= i < self.users@.len() ==> self.model@.contains_key(#[trigger] self.users@[i].name@)
                && self.model@[self.users@[i].name@] == self.users@[i].user()
        &&& forall|h: Seq<char>|
            #[trigger] self.model@.contains_key(h) ==> exists|i: int|
                0 <= i < self.users@.len() && #[trigger] self.users@[i].name@ == h
        &&& consistent(self.model@)
    }

    /// A well-formed directory has every online handle bound to a connection.
    pub proof fn lemma_consistent(&self)
        requires
            self.wf(),
        ensures
            consistent(self@),
    {
    }

    /// An empty directory.
    pub fn new() -> (r: Directory)
        ensures
            r.wf(),
            r@ == Map::<Seq<char>, UserState>::empty(),
    {
        Directory { users: Vec::new(), model: Ghost(Map::empty()) }
    }

    fn find(&self, h: &String) -> (r: Option<usize>)
        requires
            self.wf(),
        ensures
            match r {
                Some(i) => i < self.users@.len() && self.users@[i as int].name@ == h@
                    && self@.contains_key(h@),
                None => !self@.contains_key(h@),
            },
    {
        let mut i: usize = 0;
        while i < self.users.len()
            invariant
                self.wf(),
                i <= self.users@.len(),
                forall|j: int| 0 <= j < i ==> self.users@[j].name@ != h@,
            decreases self.users@.len() - i,
        {
            if self.users[i].name == *h {
                return Some(i);
            }
            i = i + 1;
        }
        None
    }

    fn replace(&mut self, i: usize, rec: Info)
        requires
            old(self).wf(),
            i < old(self).users@.len(),
            rec.name@ == old(self).users@[i as int].name@,
            consistent(old(self)@.insert(rec.name@, rec.user())),
        ensures
            final(self).wf(),
            final(self)@ == old(self)@.insert(rec.name@, rec.user()),
    {
        let ghost h = rec.name@;
        let ghost st = rec.user();
        self.users.set(i, rec);
        self.model = Ghost(self.model@.insert(h, st));
        assert forall|k: Seq<char>| #[trigger] self.model@.contains_key(k) implies exists|j: int|
            0 <= j < self.users@.len() && #[trigger] self.users@[j].name@ == k by {
            if k != h {
                let j = choose|j: int|
                    0 <= j < old(self).users@.len() && #[trigger] old(self).users@[j].name@ == k;
                assert(self.users@[j].name@ == k);
            } else {
                assert(self.users@[i as int].name@ == k);
            }
        }
    }

    fn push_new(&mut self, rec: Info)
        requires
            old(self).wf(),
            !old(self)@.contains_key(rec.name@),
            consistent(old(self)@.insert(rec.name@, rec.user())),
        ensures
            final(self).wf(),
            final(self)@ == old(self)@.insert(rec.name@, rec.user()),
    {
        let ghost h = rec.name@;
        let ghost st = rec.user();
        self.users.push(rec);
        self.model = Ghost(self.model@.insert(h, st));
        assert forall|k: Seq<char>| #[trigger] self.model@.contains_key(k) implies exists|j: int|
            0 <= j < self.users@.len() && #[trigger] self.users@[j].name@ == k by {
            if k != h {
                let j = choose|j: int|
                    0 <= j < old(self).users@.len() && #[trigger] old(self).users@[j].name@ == k;
                assert(self.users@[j].name@ == k);
            } else {
                assert(self.users@[self.users@.len() - 1].name@ == k);
            }
        }
    }
    /// Adds `handle` with credential `cred`, offline; fails `AlreadyExists`
    /// where the handle is known.
    pub fn register(&mut self, handle: &String, cred: &String) -> (r: Result<(), ChatError>)
        requires
            old(self).wf(),
        ensures
            final(self).wf(),
            (final(self)@, r) == register_spec(old(self)@, handle@, cred@),
    {
        match self.find(handle) {
            Some(_) => Err(ChatError::AlreadyExists),
            None => {
                let rec = Info { name: handle.clone(), pass: cred.clone(), state: false, conn: None };
                self.push_new(rec);
                Ok(())
            },
        }
    }

    /// Binds `handle` to the connection `conn` where it is known, offline and
    /// `cred` is its credential.
    pub fn authenticate(&mut self, handle: &String, cred: &String, conn: u64) -> (r: Result<(), ChatError>)
        requires
            old(self).wf(),
        ensures
            final(self).wf(),
            (final(self)@, r) == authenticate_spec(old(self)@, handle@, cred@, conn),
    {
        match self.find(handle) {
            None => Err(ChatError::NotFound),
            Some(i) => {
                if self.users[i].state {
                    return Err(ChatError::AlreadyOnline);
                }
                if self.users[i].pass != *cred {
                    return Err(ChatError::WrongCredential);
                }
                let rec = Info {
                    name: self.users[i].name.clone(),
                    pass: self.users[i].pass.clone(),
                    state: true,
                    conn: Some(conn),
                };
                self.replace(i, rec);
                Ok(())
            },
        }
    }

    /// Takes `handle` offline; fails `NotLoggedIn` where it is absent or
    /// already offline.
    pub fn deauthenticate(&mut self, handle: &String) -> (r: Result<(), ChatError>)
        requires
            old(self).wf(),
        ensures
            final(self).wf(),
            (final(self)@, r) == deauthenticate_spec(old(self)@, handle@),
    {
        match self.find(handle) {
            None => Err(ChatError::NotLoggedIn),
            Some(i) => {
                if !self.users[i].state {
                    return Err(ChatError::NotLoggedIn);
                }
                let rec = Info {
                    name: self.users[i].name.clone(),
                    pass: self.users[i].pass.clone(),
                    state: false,
                    conn: None,
                };
                self.replace(i, rec);
                Ok(())
            },
        }
    }

    /// Replaces the credential of the online `handle` when `old_cred` is its
    /// current one, and takes the handle offline so that it logs in again.
    pub fn change_credential(&mut self, handle: &String, old_cred: &String, new_cred: &String) -> (r:
        Result<(), ChatError>)
        requires
            old(self).wf(),
        ensures
            final(self).wf(),
            (final(self)@, r) == change_credential_spec(old(self)@, handle@, old_cred@, new_cred@),
    {
        match self.find(handle) {
            None => Err(ChatError::NotLoggedIn),
            Some(i) => {
                if !self.users[i].state {
                    return Err(ChatError::NotLoggedIn);
                }
                if self.users[i].pass != *old_cred {
                    return Err(ChatError::WrongCredential);
                }
                let rec = Info {
                    name: self.users[i].name.clone(),
                    pass: new_cred.clone(),
                    state: false,
                    conn: None,
                };
                self.replace(i, rec);
                Ok(())
            },
        }
    }

    /// Takes `handle` offline as its connection ends, and returns its record
    /// as it now stands, to be stored; `None` for an unknown handle.
    pub fn go_offline(&mut self, handle: &String) -> (r: Option<Info>)
        requires
            old(self).wf(),
        ensures
            final(self).wf(),
            final(self)@ == go_offline_spec(old(self)@, handle@),
            match r {
                Some(rec) => old(self)@.contains_key(handle@) && rec.name@ == handle@
                    && rec.user() == final(self)@[handle@],
                None => !old(self)@.contains_key(handle@),
            },
    {
        match self.find(handle) {
            None => None,
            Some(i) => {
                let rec = Info {
                    name: self.users[i].name.clone(),
                    pass: self.users[i].pass.clone(),
                    state: false,
                    conn: None,
                };
                let stored = Info {
                    name: self.users[i].name.clone(),
                    pass: self.users[i].pass.clone(),
                    state: false,
                    conn: None,
                };
                self.replace(i, rec);
                Some(stored)
            },
        }
    }

    /// Stores each of `recs` in turn, offline, by its handle; a record
    /// replaces an earlier one of the same handle.
    pub fn load(&mut self, recs: &Vec<Info>)
        requires
            old(self).wf(),
        ensures
            final(self).wf(),
            final(self)@ == load_spec(old(self)@, pairs(recs@)),
    {
        let mut k: usize = 0;
        while k < recs.len()
            invariant
                self.wf(),
                k <= recs@.len(),
                self@ == load_spec(old(self)@, pairs(recs@).subrange(0, k as int)),
            decreases recs@.len() - k,
        {
            let ghost part = pairs(recs@).subrange(0, k + 1);
            assert(part.drop_last() =~= pairs(recs@).subrange(0, k as int));
            let rec = Info {
                name: recs[k].name.clone(),
                pass: recs[k].pass.clone(),
                state: false,
                conn: None,
            };
            match self.find(&recs[k].name) {
                Some(i) => self.replace(i, rec),
                None => self.push_new(rec),
            }
            k = k + 1;
        }
        assert(pairs(recs@).subrange(0, recs@.len() as int) =~= pairs(recs@));
    }
    /// The online handles with the connections bound to them, each once, in
    /// no particular order: a copy that outlives the directory's lock.
    pub fn snapshot_online(&self) -> (r: Vec<(String, u64)>)
        requires
            self.wf(),
        ensures
            forall|j: int|
                0 <= j < r@.len() ==> self@.contains_key(#[trigger] r@[j].0@) && self@[r@[j].0@].online
                    && self@[r@[j].0@].conn == Some(r@[j].1),
            forall|h: Seq<char>|
                #[trigger] self@.contains_key(h) && self@[h].online ==> exists|j: int|
                    0 <= j < r@.len() && #[trigger] r@[j].0@ == h,
            forall|i: int, j: int|
                0 <= i < j < r@.len() ==> #[trigger] r@[i].0@ != #[trigger] r@[j].0@,
    {
        let mut out: Vec<(String, u64)> = Vec::new();
        let mut i: usize = 0;
        while i < self.users.len()
            invariant
                self.wf(),
                i <= self.users@.len(),
                forall|j: int|
                    0 <= j < out@.len() ==> self@.contains_key(#[trigger] out@[j].0@)
                        && self@[out@[j].0@].online && self@[out@[j].0@].conn == Some(out@[j].1),
                forall|k: int|
                    0 <= k < i && #[trigger] self.users@[k].state ==> exists|j: int|
                        0 <= j < out@.len() && #[trigger] out@[j].0@ == self.users@[k].name@,
                forall|j: int|
                    #![trigger out@[j]]
                    0 <= j < out@.len() ==> exists|k: int|
                        0 <= k < i && self.users@[k].name@ == out@[j].0@,
                forall|a: int, b: int|
                    0 <= a < b < out@.len() ==> #[trigger] out@[a].0@ != #[trigger] out@[b].0@,
            decreases self.users@.len() - i,
        {
            if self.users[i].state {
                assert(self@.contains_key(self.users@[i as int].name@));
                let c = self.users[i].conn.unwrap();
                let ghost before = out@;
                let name = self.users[i].name.clone();
                out.push((name, c));
                assert(out@[out@.len() - 1].0@ == self.users@[i as int].name@);
                assert forall|a: int, b: int|
                    0 <= a < b < out@.len() implies #[trigger] out@[a].0@
                    != #[trigger] out@[b].0@ by {
                    if b == out@.len() - 1 {
                        assert(before[a] == out@[a]);
                        let k = choose|k: int|
                            0 <= k < i && #[trigger] self.users@[k].name@ == before[a].0@;
                        assert(self.users@[k].name@ != self.users@[i as int].name@);
                    } else {
                        assert(before[a] == out@[a] && before[b] == out@[b]);
                    }
                }
                assert forall|j: int| 0 <= j < out@.len() implies exists|k: int|
                    0 <= k < i + 1 && #[trigger] self.users@[k].name@
                        == #[trigger] out@[j].0@ by {
                    if j == out@.len() - 1 {
                        assert(self.users@[i as int].name@ == out@[j].0@);
                    } else {
                        assert(before[j] == out@[j]);
                        let k = choose|k: int|
                            0 <= k < i && #[trigger] self.users@[k].name@ == before[j].0@;
                        assert(self.users@[k].name@ == out@[j].0@);
                    }
                }
                assert forall|k: int|
                    0 <= k < i + 1 && #[trigger] self.users@[k].state implies exists|j: int|
                    0 <= j < out@.len() && #[trigger] out@[j].0@ == self.users@[k].name@ by {
                    if k == i {
                        assert(out@[out@.len() - 1].0@ == self.users@[k].name@);
                    } else {
                        let j = choose|j: int|
                            0 <= j < before.len() && #[trigger] before[j].0@ == self.users@[k].name@;
                        assert(out@[j] == before[j]);
                    }
                }
            } else {
                assert forall|j: int| 0 <= j < out@.len() implies exists|k: int|
                    0 <= k < i + 1 && #[trigger] self.users@[k].name@ == #[trigger] out@[j].0@ by {
                    let k = choose|k: int|
                        0 <= k < i && #[trigger] self.users@[k].name@ == out@[j].0@;
                    assert(self.users@[k].name@ == out@[j].0@);
                }
            }
            i = i + 1;
        }
        assert forall|h: Seq<char>|
            #[trigger] self@.contains_key(h) && self@[h].online implies exists|j: int|
            0 <= j < out@.len() && #[trigger] out@[j].0@ == h by {
            let k = choose|k: int| 0 <= k < self.users@.len() && #[trigger] self.users@[k].name@ == h;
            assert(self.users@[k].state);
        }
        out
    }
}

} // verus!
