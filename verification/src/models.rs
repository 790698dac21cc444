//! Request and response value objects of the account routes.
//!
//! These are the plain data shapes the handlers exchange with the guard
//! core. Their wire (de)serialization lives with the routing layer;
//! `created_at` is carried as seconds since the epoch.
use vstd::prelude::*;

verus! {

/// Body of a registration request.
#[derive(Debug)]
pub struct RegisterRequest {
    pub name: String,
    pub password: String,
}

/// Body of a login request.
#[derive(Debug)]
pub struct LoginRequest {
    pub name: String,
    pub password: String,
}

/// Response to a successful registration.
pub struct UserResponse {
    pub id: i32,
    pub name: String,
    pub created_at: i64,
}

/// Response to a successful avatar upload.
pub struct AvatarResponse {
    pub path: String,
}

} // verus!
