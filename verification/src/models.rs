//! Shared data models: the token claims the services exchange and the
//! enumerations describing friendships, group roles and messages.

use vstd::prelude::*;

verus! {

/// The claims in a service-issued token.
#[derive(Debug, Clone)]
pub struct Claims {
    /// Subject: the user id.
    pub sub: String,
    /// Display name.
    pub username: String,
    /// Expiry, seconds since the epoch.
    pub exp: usize,
    /// Issued-at, seconds since the epoch.
    pub iat: usize,
}

/// An access token with its refresh token.
#[derive(Debug, Clone)]
pub struct TokenPair {
    /// Short-lived access token.
    pub access_token: String,
    /// Longer-lived refresh token.
    pub refresh_token: String,
}

/// The state of a friendship between two users.
#[derive(Debug, Clone, Copy, PartialEq, Eq, Structural)]
pub enum FriendshipStatus {
    /// Requested, not yet answered.
    Pending,
    /// Accepted by the other side.
    Accepted,
    /// Rejected by the other side.
    Rejected,
    /// Blocked by one side.
    Blocked,
}

/// A member's role in a group.
#[derive(Debug, Clone, Copy, PartialEq, Eq, Structural)]
pub enum GroupMemberRole {
    /// The group's owner.
    Owner,
    /// An administrator.
    Admin,
    /// An ordinary member.
    Member,
}

/// What a message's content holds.
#[derive(Debug, Clone, Copy, PartialEq, Eq, Structural)]
pub enum MessageContentType {
    /// Plain text.
    Text,
    /// An image.
    Image,
    /// An audio clip.
    Audio,
    /// A video clip.
    Video,
    /// An arbitrary file.
    File,
}

/// The fields a user-creation request carries.
#[derive(Debug, Clone)]
pub struct CreateUserData {
    /// Login name.
    pub username: String,
    /// Email address.
    pub email: String,
    /// Password, before hashing.
    pub password: String,
    /// Display name, when given.
    pub nickname: Option<String>,
    /// Avatar location, when given.
    pub avatar_url: Option<String>,
}

/// The fields a user-update request carries; absent fields stay.
#[derive(Debug, Clone)]
pub struct UpdateUserData {
    /// New display name.
    pub nickname: Option<String>,
    /// New email address.
    pub email: Option<String>,
    /// New avatar location.
    pub avatar_url: Option<String>,
    /// New password, before hashing.
    pub password: Option<String>,
}

} // verus!
