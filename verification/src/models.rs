//! The persisted data model: user records as the store holds them, and the
//! project records that the surrounding service moves around.

use vstd::prelude::*;

verus! {

/// A user's role.
#[derive(Clone, Copy, Debug, PartialEq, Eq, Structural)]
pub enum Role {
    Client,
    Provider,
}

/// Canonical byte form of a role, as carried inside token claims.
pub open spec fn role_seq(r: Role) -> Seq<u8> {
    match r {
        Role::Client => seq![99u8, 108u8, 105u8, 101u8, 110u8, 116u8],
        Role::Provider => seq![112u8, 114u8, 111u8, 118u8, 105u8, 100u8, 101u8, 114u8],
    }
}

/// The bytes of `role_seq(r)`.
pub fn role_bytes(r: Role) -> (v: Vec<u8>)
    ensures
        v@ == role_seq(r),
{
    let mut v: Vec<u8> = Vec::new();
    match r {
        Role::Client => {
            v.push(99u8);
            v.push(108u8);
            v.push(105u8);
            v.push(101u8);
            v.push(110u8);
            v.push(116u8);
        },
        Role::Provider => {
            v.push(112u8);
            v.push(114u8);
            v.push(111u8);
            v.push(118u8);
            v.push(105u8);
            v.push(100u8);
            v.push(101u8);
            v.push(114u8);
        },
    }
    proof {
        assert(v@ =~= role_seq(r));
    }
    v
}

/// A stored user record. `password_hash` holds the salted hash produced at
/// registration, never the plaintext password.
#[derive(Debug, PartialEq, Eq)]
pub struct User {
    pub id: u64,
    pub name: Vec<u8>,
    pub email: Vec<u8>,
    pub password_hash: String,
    pub role: Role,
}

/// The mathematical value of a `User`.
#[verifier::ext_equal]
pub ghost struct UserV {
    pub id: u64,
    pub name: Seq<u8>,
    pub email: Seq<u8>,
    pub password_hash: Seq<char>,
    pub role: Role,
}

impl View for User {
    type V = UserV;

    open spec fn view(&self) -> UserV {
        UserV {
            id: self.id,
            name: self.name@,
            email: self.email@,
            password_hash: self.password_hash@,
            role: self.role,
        }
    }
}

/// A byte-for-byte copy.
pub fn copy_bytes(v: &Vec<u8>) -> (r: Vec<u8>)
    ensures
        r@ == v@,
{
    let mut r: Vec<u8> = Vec::new();
    let mut i: usize = 0;
    while i < v.len()
        invariant
            0 <= i <= v@.len(),
            r@ == v@.subrange(0, i as int),
        decreases v@.len() - i,
    {
        r.push(v[i]);
        proof {
            assert(v@.subrange(0, i + 1 as int) =~= v@.subrange(0, i as int).push(v@[i as int]));
        }
        i = i + 1;
    }
    proof {
        assert(v@.subrange(0, v@.len() as int) =~= v@);
    }
    r
}

/// A field-for-field copy of a user record.
pub fn copy_user(u: &User) -> (r: User)
    ensures
        r@ == u@,
{
    let r = User {
        id: u.id,
        name: copy_bytes(&u.name),
        email: copy_bytes(&u.email),
        password_hash: u.password_hash.clone(),
        role: u.role,
    };
    proof {
        assert(r@ =~= u@);
    }
    r
}

/// A project record, as the surrounding service stores it.
#[derive(Debug)]
pub struct Project {
    pub id: i32,
    pub title: String,
    pub description: String,
    pub user_id: i32,
    pub service_id: i32,
    pub status: String,
}

} // verus!
