//! Users, pockets and sign-in requests, with the checks on their fields.
use crate::error::{is_validation_error, validation_error, AppError};
use crate::money::Money;
use vstd::prelude::*;

verus! {

/// A registered user. Identifiers are the 128-bit values of UUIDs;
/// timestamps are microseconds since the Unix epoch, UTC.
#[derive(Debug)]
pub struct User {
    pub id: u128,
    pub name: String,
    pub email: String,
    pub password: String,
    pub hide_balance: bool,
    pub created_at: i64,
    pub updated_at: i64,
}

/// A user as shown to clients: without the password hash.
#[derive(Debug)]
pub struct UserResponse {
    pub id: u128,
    pub name: String,
    pub email: String,
    pub hide_balance: bool,
    pub created_at: i64,
    pub updated_at: i64,
}

impl User {
    pub fn to_response(self) -> (r: UserResponse)
        ensures
            r.id == self.id,
            r.name == self.name,
            r.email == self.email,
            r.hide_balance == self.hide_balance,
            r.created_at == self.created_at,
            r.updated_at == self.updated_at,
    {
        UserResponse {
            id: self.id,
            name: self.name,
            email: self.email,
            hide_balance: self.hide_balance,
            created_at: self.created_at,
            updated_at: self.updated_at,
        }
    }
}

/// A sub-account of a user, with its running balance.
#[derive(Debug)]
pub struct Pocket {
    pub id: u128,
    pub user_id: u128,
    pub name: String,
    pub emoji: String,
    pub balance: Money,
    pub created_at: i64,
    pub updated_at: i64,
}

#[derive(Debug)]
pub struct PocketResponse {
    pub id: u128,
    pub name: String,
    pub emoji: String,
    pub balance: Money,
    pub created_at: i64,
    pub updated_at: i64,
}

impl Pocket {
    pub fn to_response(self) -> (r: PocketResponse)
        ensures
            r.id == self.id,
            r.name == self.name,
            r.emoji == self.emoji,
            r.balance == self.balance,
            r.created_at == self.created_at,
            r.updated_at == self.updated_at,
    {
        PocketResponse {
            id: self.id,
            name: self.name,
            emoji: self.emoji,
            balance: self.balance,
            created_at: self.created_at,
            updated_at: self.updated_at,
        }
    }
}

/// A text of `min` to `max` characters.
pub open spec fn length_within(s: Seq<char>, min: nat, max: nat) -> bool {
    min <= s.len() <= max
}

/// Checks that a text has `min` to `max` characters; else the error names the field.
pub fn check_length(s: &String, min: usize, max: usize, message: &str) -> (r: Result<(), AppError>)
    ensures
        r is Ok <==> length_within(s@, min as nat, max as nat),
        r is Err ==> is_validation_error(r->Err_0, message@),
{
    let n = s.as_str().unicode_len();
    if n < min || n > max {
        return Err(validation_error(message));
    }
    Ok(())
}

#[derive(Debug)]
pub struct CreatePocketRequest {
    pub name: String,
    pub emoji: String,
}

impl CreatePocketRequest {
    /// A name of 1 to 100 characters and an emoji of 1 to 10.
    pub fn validate(&self) -> (r: Result<(), AppError>)
        ensures
            r is Ok <==> length_within(self.name@, 1, 100) && length_within(self.emoji@, 1, 10),
    {
        check_length(&self.name, 1, 100, "name: Name must be between 1 and 100 characters")?;
        check_length(&self.emoji, 1, 10, "emoji: Emoji must be between 1 and 10 characters")
    }
}

/// A partial update of a pocket; `None` keeps the current value.
#[derive(Debug)]
pub struct UpdatePocketRequest {
    pub name: Option<String>,
    pub emoji: Option<String>,
}

impl UpdatePocketRequest {
    /// Each field given obeys the lengths of a new pocket.
    pub fn validate(&self) -> (r: Result<(), AppError>)
        ensures
            r is Ok <==> (self.name matches Some(n) ==> length_within(n@, 1, 100)) && (
            self.emoji matches Some(e) ==> length_within(e@, 1, 10)),
    {
        if let Some(n) = &self.name {
            check_length(n, 1, 100, "name: Name must be between 1 and 100 characters")?;
        }
        if let Some(e) = &self.emoji {
            check_length(e, 1, 10, "emoji: Emoji must be between 1 and 10 characters")?;
        }
        Ok(())
    }

    /// The pocket after the update: given fields replace, others stay.
    pub fn apply(&self, p: &Pocket, now: i64) -> (r: Pocket)
        ensures
            r.id == p.id,
            r.user_id == p.user_id,
            r.name == (match self.name {
                Some(n) => n,
                None => p.name,
            }),
            r.emoji == (match self.emoji {
                Some(e) => e,
                None => p.emoji,
            }),
            r.balance == p.balance,
            r.created_at == p.created_at,
            r.updated_at == now,
    {
        Pocket {
            id: p.id,
            user_id: p.user_id,
            name: match &self.name {
                Some(n) => n.clone(),
                None => p.name.clone(),
            },
            emoji: match &self.emoji {
                Some(e) => e.clone(),
                None => p.emoji.clone(),
            },
            balance: p.balance,
            created_at: p.created_at,
            updated_at: now,
        }
    }
}

#[derive(Debug)]
pub struct UpdateUserNameRequest {
    pub name: String,
}

impl UpdateUserNameRequest {
    /// A name of 1 to 100 characters.
    pub fn validate(&self) -> (r: Result<(), AppError>)
        ensures
            r is Ok <==> length_within(self.name@, 1, 100),
    {
        check_length(&self.name, 1, 100, "name: Name must be between 1 and 100 characters")
    }
}

#[derive(Debug)]
pub struct UpdateHideBalanceRequest {
    pub hide_balance: bool,
}

#[derive(Debug)]
pub struct LoginRequest {
    pub email: String,
    pub password: String,
}

impl LoginRequest {
    /// A password of at least 6 characters. The form of the email address is
    /// checked where the request is read.
    pub fn validate(&self) -> (r: Result<(), AppError>)
        ensures
            r is Ok <==> self.password@.len() >= 6,
    {
        let n = self.password.as_str().unicode_len();
        if n < 6 {
            return Err(validation_error("password: Password must be at least 6 characters"));
        }
        Ok(())
    }
}

#[derive(Debug)]
pub struct RegisterRequest {
    pub name: String,
    pub email: String,
    pub password: String,
}

impl RegisterRequest {
    /// A name of 1 to 100 characters and a password of at least 6. The form
    /// of the email address is checked where the request is read.
    pub fn validate(&self) -> (r: Result<(), AppError>)
        ensures
            r is Ok <==> length_within(self.name@, 1, 100) && self.password@.len() >= 6,
    {
        check_length(&self.name, 1, 100, "name: Name must be between 1 and 100 characters")?;
        let n = self.password.as_str().unicode_len();
        if n < 6 {
            return Err(validation_error("password: Password must be at least 6 characters"));
        }
        Ok(())
    }
}

#[derive(Debug)]
pub struct AuthResponse {
    pub token: String,
    pub user: UserResponse,
}

} // verus!
