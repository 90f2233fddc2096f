//! The refusals that the service answers with.
use vstd::prelude::*;

verus! {

/// Why a request was refused.
#[derive(Clone, Copy, PartialEq, Eq, Structural, Debug)]
pub enum ApiError {
    /// A new user came without a password.
    PasswordRequired,
    /// No user has the e-mail address, or the password does not match.
    InvalidCredentials,
    /// The bearer token is not a valid, unexpired token of this service.
    InvalidToken,
    UserNotFound,
    CategoryNotFound,
    AccountNotFound,
    TransactionNotFound,
}

impl ApiError {
    /// The HTTP status of the answer.
    pub open spec fn spec_status(self) -> u16 {
        match self {
            ApiError::PasswordRequired => 400,
            ApiError::InvalidCredentials => 401,
            ApiError::InvalidToken => 401,
            ApiError::UserNotFound => 404,
            ApiError::CategoryNotFound => 404,
            ApiError::AccountNotFound => 404,
            ApiError::TransactionNotFound => 404,
        }
    }

    /// The text of the answer.
    pub open spec fn spec_message(self) -> Seq<char> {
        match self {
            ApiError::PasswordRequired => "Password is required"@,
            ApiError::InvalidCredentials => "Invalid credentials"@,
            ApiError::InvalidToken => "Invalid token"@,
            ApiError::UserNotFound => "User not found"@,
            ApiError::CategoryNotFound => "Category not found"@,
            ApiError::AccountNotFound => "Account not found"@,
            ApiError::TransactionNotFound => "Transaction not found"@,
        }
    }

    pub fn status(&self) -> (r: u16)
        ensures
            r == self.spec_status(),
    {
        match self {
            ApiError::PasswordRequired => 400,
            ApiError::InvalidCredentials => 401,
            ApiError::InvalidToken => 401,
            ApiError::UserNotFound => 404,
            ApiError::CategoryNotFound => 404,
            ApiError::AccountNotFound => 404,
            ApiError::TransactionNotFound => 404,
        }
    }

    pub fn message(&self) -> (r: String)
        ensures
            r@ == self.spec_message(),
    {
        match self {
            ApiError::PasswordRequired => String::from_str("Password is required"),
            ApiError::InvalidCredentials => String::from_str("Invalid credentials"),
            ApiError::InvalidToken => String::from_str("Invalid token"),
            ApiError::UserNotFound => String::from_str("User not found"),
            ApiError::CategoryNotFound => String::from_str("Category not found"),
            ApiError::AccountNotFound => String::from_str("Account not found"),
            ApiError::TransactionNotFound => String::from_str("Transaction not found"),
        }
    }
}

} // verus!
