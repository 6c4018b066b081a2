//! The signed-in user's tokens, as the settings store keeps them.
use vstd::prelude::*;

verus! {

/// What the sign-in flow hands back.
pub struct AuthTokens {
    pub access_token: String,
    pub refresh_token: String,
    pub user: Option<UserInfo>,
}

/// The signed-in user.
pub struct UserInfo {
    pub id: String,
    pub email: String,
    pub name: String,
    pub picture: Option<String>,
    pub provider: String,
    pub tier: String,
}

} // verus!
