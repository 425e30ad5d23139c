//! Request and response messages of the user service.
use vstd::prelude::*;

verus! {

#[derive(Clone, Debug, PartialEq, Eq)]
pub struct CreateUserRequest {
    pub email: String,
    pub name: String,
    pub password: String,
    pub role: String,
}

#[derive(Clone, Debug, PartialEq, Eq)]
pub struct CreateUserResponse {
    pub success: bool,
    pub user_id: String,
}

#[derive(Clone, Debug, PartialEq, Eq)]
pub struct UpdateUserRequest {
    pub user_id: String,
    pub name: Option<String>,
    pub email: Option<String>,
    pub role: Option<String>,
}

#[derive(Clone, Debug, PartialEq, Eq)]
pub struct UpdateUserResponse {
    pub success: bool,
}

#[derive(Clone, Debug, PartialEq, Eq)]
pub struct DeleteUserRequest {
    pub user_id: String,
}

#[derive(Clone, Debug, PartialEq, Eq)]
pub struct DeleteUserResponse {
    pub success: bool,
}

#[derive(Clone, Debug, PartialEq, Eq)]
pub struct GetUserRequest {
    pub user_id: String,
}

#[derive(Clone, Debug, PartialEq, Eq)]
pub struct GetUserResponse {
    pub user: Option<User>,
}

#[derive(Clone, Debug, PartialEq, Eq)]
pub struct User {
    pub id: String,
    pub email: String,
    pub name: String,
    pub role: String,
}

} // verus!
