//! An in-memory user store with the contract the authentication service
//! relies on: records are keyed by a unique email, and uniqueness is
//! enforced by the store itself, as the single source of truth.

use vstd::prelude::*;
use crate::models::{copy_bytes, copy_user, Role, User, UserV};

verus! {

/// Whether some record in `users` has `email`.
pub open spec fn has_email(users: Seq<UserV>, email: Seq<u8>) -> bool {
    exists|i: int| 0 <= i < users.len() && users[i].email == email
}

/// An index of a record with `email`.
pub open spec fn email_index(users: Seq<UserV>, email: Seq<u8>) -> int {
    choose|i: int| 0 <= i < users.len() && users[i].email == email
}

/// The record with `email`; well defined when emails are unique.
pub open spec fn email_user(users: Seq<UserV>, email: Seq<u8>) -> UserV
    recommends
        has_email(users, email),
{
    users[email_index(users, email)]
}

/// Why an insert was refused.
#[derive(Clone, Copy, Debug, PartialEq, Eq, Structural)]
pub enum StoreError {
    /// A record with this email already exists: the uniqueness constraint.
    DuplicateEmail,
    /// The store cannot assign another record id.
    Full,
}

/// The user store: a sequence of records with pairwise distinct emails and
/// ids, viewed as the sequence of their mathematical values.
pub struct UserStore {
    users: Vec<User>,
    next_id: u64,
}

impl View for UserStore {
    type V = Seq<UserV>;

    closed spec fn view(&self) -> Seq<UserV> {
        self.users@.map_values(|u: User| u@)
    }
}

impl UserStore {
    /// The id the next inserted record will receive.
    pub closed spec fn spec_next_id(&self) -> u64 {
        self.next_id
    }

    /// Well-formedness: emails are pairwise distinct, and every id is below
    /// the next id to be assigned (so ids are pairwise distinct too).
    pub open spec fn wf(&self) -> bool {
        &&& forall|i: int, j: int|
            0 <= i < j < self@.len() ==> self@[i].email != self@[j].email
        &&& forall|i: int| 0 <= i < self@.len() ==> (#[trigger] self@[i].id) < self.spec_next_id()
    }

    /// An empty store.
    pub fn new() -> (s: Self)
        ensures
            s.wf(),
            s@.len() == 0,
            s.spec_next_id() == 1,
    {
        UserStore { users: Vec::new(), next_id: 1 }
    }

    /// How many records the store holds.
    pub fn len(&self) -> (n: usize)
        ensures
            n == self@.len(),
    {
        self.users.len()
    }

    /// Looks a record up by its unique identifier (the email). Returns a
    /// copy of the record when one exists, and `None` exactly when none
    /// does.
    pub fn find_by_identifier(&self, identifier: &Vec<u8>) -> (r: Option<User>)
        requires
            self.wf(),
        ensures
            match r {
                Some(u) => has_email(self@, identifier@) && u@ == email_user(self@, identifier@),
                None => !has_email(self@, identifier@),
            },
    {
        let n = self.users.len();
        let mut i: usize = 0;
        while i < n
            invariant
                self.wf(),
                0 <= i <= n == self@.len(),
                n == self.users@.len(),
                forall|j: int| 0 <= j < i ==> self@[j].email != identifier@,
            decreases n - i,
        {
            if crate::codec::bytes_eq(&self.users[i].email, identifier) {
                let u = copy_user(&self.users[i]);
                proof {
                    assert(self@[i as int].email == identifier@);
                    assert(has_email(self@, identifier@));
                    let k = email_index(self@, identifier@);
                    assert(0 <= k < self@.len() && self@[k].email == identifier@);
                    assert(k == i as int);
                }
                return Some(u);
            }
            i = i + 1;
        }
        None
    }

    /// Inserts a new record, assigning it the next id, unless a record with
    /// this email already exists (the uniqueness constraint refuses it) or
    /// no id is left. On success returns a copy of the created record, which
    /// is appended to the store.
    pub fn insert(&mut self, name: &Vec<u8>, email: &Vec<u8>, password_hash: String, role: Role)
        -> (r: Result<User, StoreError>)
        requires
            old(self).wf(),
        ensures
            final(self).wf(),
            if has_email(old(self)@, email@) {
                &&& r == Err::<User, StoreError>(StoreError::DuplicateEmail)
                &&& final(self)@ == old(self)@
            } else if old(self).spec_next_id() == u64::MAX {
                &&& r == Err::<User, StoreError>(StoreError::Full)
                &&& final(self)@ == old(self)@
            } else {
                &&& r matches Ok(u) && u@ == (UserV {
                    id: old(self).spec_next_id(),
                    name: name@,
                    email: email@,
                    password_hash: password_hash@,
                    role,
                }) && final(self)@ == old(self)@.push(u@)
            },
    {
        if self.find_by_identifier(email).is_some() {
            return Err(StoreError::DuplicateEmail);
        }
        if self.next_id == u64::MAX {
            return Err(StoreError::Full);
        }
        let record = User {
            id: self.next_id,
            name: copy_bytes(name),
            email: copy_bytes(email),
            password_hash,
            role,
        };
        let returned = copy_user(&record);
        let ghost before = self@;
        let ghost recv = record@;
        self.users.push(record);
        self.next_id = self.next_id + 1;
        proof {
            assert(self@ =~= before.push(recv));
            assert(forall|i: int| 0 <= i < before.len() ==> before[i].email != email@);
            assert(returned@ =~= recv);
        }
        Ok(returned)
    }
}

} // verus!
