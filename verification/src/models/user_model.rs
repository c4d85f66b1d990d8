//! User accounts and the views of them that leave the service.

use vstd::prelude::*;

verus! {

/// What a user is allowed to do.
#[derive(Debug, Clone, Copy, PartialEq, Eq, Structural)]
pub enum Role {
    Admin,
    User,
}

/// A stored user account, password hash included.
#[derive(Debug, Clone)]
pub struct User {
    pub id: String,
    pub profile_pic: Option<String>,
    pub bio: Option<String>,
    pub username: String,
    pub role: Role,
    pub email: String,
    pub password: String,
}

/// A user as shown to others: everything but the password hash.
#[derive(Debug, Clone)]
pub struct SafeUser {
    pub id: String,
    pub username: String,
    pub profile_pic: Option<String>,
    pub bio: Option<String>,
    pub role: Role,
    pub email: String,
}

/// A user as serialised into API responses.
#[derive(Debug, Clone)]
pub struct UserDto {
    pub id: String,
    pub username: String,
    pub role: Role,
    pub email: String,
}

impl From<User> for SafeUser {
    /// Drops the password hash and keeps every public field.
    fn from(user: User) -> (r: SafeUser) {
        SafeUser {
            id: user.id,
            profile_pic: user.profile_pic,
            bio: user.bio,
            username: user.username,
            role: user.role,
            email: user.email,
        }
    }
}

impl vstd::std_specs::convert::FromSpecImpl<User> for SafeUser {
    open spec fn obeys_from_spec() -> bool {
        true
    }

    open spec fn from_spec(user: User) -> SafeUser {
        SafeUser {
            id: user.id,
            profile_pic: user.profile_pic,
            bio: user.bio,
            username: user.username,
            role: user.role,
            email: user.email,
        }
    }
}

impl From<User> for UserDto {
    /// Keeps only the identifying fields.
    fn from(user: User) -> (r: UserDto) {
        UserDto { id: user.id, username: user.username, email: user.email, role: user.role }
    }
}

impl vstd::std_specs::convert::FromSpecImpl<User> for UserDto {
    open spec fn obeys_from_spec() -> bool {
        true
    }

    open spec fn from_spec(user: User) -> UserDto {
        UserDto { id: user.id, username: user.username, email: user.email, role: user.role }
    }
}

} // verus!
