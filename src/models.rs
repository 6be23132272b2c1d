use vstd::prelude::*;

verus! {

/// A stylesheet theme.
pub struct Theme {
    pub id: i32,
    pub name: String,
    pub description: Option<String>,
    pub author: Option<String>,
    pub css: String,
}

/// A ban of one user. Times are seconds since the Unix epoch, in UTC.
pub struct Ban {
    pub user_id: String,
    pub created_at: i64,
    pub reason: Option<String>,
    pub expires: Option<i64>,
}

/// A badge shown beside a user.
pub struct Badge {
    pub id: i64,
    pub user_id: String,
    pub badge: String,
    pub tooltip: String,
    pub badge_type: String,
}

/// A user and the bits of their permissions.
pub struct User {
    pub id: String,
    pub permissions: i64,
}

/// The identity provider's answer to an OAuth code exchange.
pub struct DiscordTokenResponse {
    pub access_token: String,
    pub token_type: String,
    pub expires_in: u64,
    pub refresh_token: String,
    pub scope: String,
}

/// The query of a login: the OAuth code.
pub struct LoginRequest {
    pub code: String,
}

/// The answer to a login: the user id, the signed credential, and when it expires.
pub struct LoginResponse {
    pub id: String,
    pub token: String,
    pub expires: u64,
}

/// The query of a badge listing: `format=object` groups the badges by user.
pub struct ListBadgesRequest {
    pub format: Option<String>,
}

/// The body of a badge creation.
pub struct CreateBadgeRequest {
    pub user_id: String,
    pub tooltip: String,
    pub badge: String,
}

/// The body of a ban creation; `expires` in seconds since the Unix epoch.
pub struct CreateBanRequest {
    pub user_id: String,
    pub reason: Option<String>,
    pub expires: Option<i64>,
}

/// What a socket sends when it connects: its bearer credential.
pub struct SocketAuthData {
    pub token: String,
}

/// The server's settings.
pub struct Env {
    pub discord_client_id: String,
    pub discord_client_secret: String,
    pub discord_redirect_uri: String,
    pub jwt_secret: String,
    pub database_url: String,
    pub database_create: bool,
}

} // verus!
