//! The records that the account store exchanges with its callers.

use vstd::prelude::*;

verus! {

/// An account as the store returns it for a login.
#[derive(Debug)]
pub struct User {
    pub user_id: String,
    pub username_or_email: String,
    pub password: String,
}

/// A request to create an account.
pub struct RegisterUser {
    pub username: String,
    pub email: String,
    pub password: String,
}

/// A request to log in.
pub struct LoginUser {
    pub username_or_email: String,
    pub password: String,
}

/// A request to change the display name.
pub struct ChangeNickName {
    pub new_nickname: String,
}

/// A request to change the password.
pub struct ChangePassword {
    pub new_password: String,
}

/// The profile of an account.
pub struct UserInfo {
    pub username: String,
    pub email: String,
    pub head_uri: String,
}

impl User {
    /// Whether `login` may log in to this account: it names the password
    /// that the store holds for the account.
    pub fn accepts(&self, login: &LoginUser) -> (accepted: bool)
        ensures
            accepted == (self.password@ == login.password@),
    {
        self.password == login.password
    }
}

} // verus!
