//! The request and response shapes of the service boundary. The surrounding
//! web layer converts its wire formats into these and hands them to the
//! authentication service.

use vstd::prelude::*;

verus! {

/// A login request: an identifier and the plaintext password, which lives
/// only at this boundary.
#[derive(Debug)]
pub struct LoginRequest {
    pub username: String,
    pub password: String,
}

/// A successful login: the issued bearer token.
#[derive(Debug)]
pub struct LoginResponse {
    pub token: String,
}

/// A registration request.
#[derive(Debug)]
pub struct RegisterUser {
    pub name: String,
    pub email: String,
    pub password: String,
}

/// A login request keyed by email.
#[derive(Debug)]
pub struct LoginUser {
    pub email: String,
    pub password: String,
}

/// A request to create a project.
#[derive(Debug)]
pub struct NewProject {
    pub title: String,
    pub description: String,
    pub user_id: i32,
    pub service_id: i32,
}

} // verus!
