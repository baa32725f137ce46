//! Domain validation: untrusted input fields become constrained value types.
//!
//! Each field type carries one closed rule, checked at construction and never
//! again: an identifier's byte length lies in `[8, 20)`, a nickname's stays
//! below 20, a comment's below 30. A composite payload is valid only if every
//! field present passes its own rule; absent optional fields stay absent —
//! partial-update semantics, never coerced to empty. A signup payload must
//! carry both identifier and secret; a missing field is a structural
//! `InvalidPayload`, distinct from any field-level rule.

use vstd::prelude::*;

verus! {

use vstd::string::{StrSliceExecFns, StringExecFns, StringSliceAdditionalSpecFns};
use vstd::utf8::encode_utf8;
use crate::errors::{SignupError, UpdateError};

/// Least byte length an identifier may have.
pub const USER_ID_MIN_LENGTH: usize = 8;

/// Byte length an identifier must stay under.
pub const USER_ID_MAX_LENGTH: usize = 20;

/// Byte length a nickname must stay under.
pub const NICKNAME_MAX_LENGTH: usize = 20;

/// Byte length a comment must stay under.
pub const COMMENT_MAX_LENGTH: usize = 30;

/// The identifier rule: byte length in `[8, 20)`.
pub open spec fn valid_user_id(s: Seq<char>) -> bool {
    USER_ID_MIN_LENGTH <= encode_utf8(s).len() < USER_ID_MAX_LENGTH
}

/// The nickname rule: byte length below 20.
pub open spec fn valid_nickname(s: Seq<char>) -> bool {
    encode_utf8(s).len() < NICKNAME_MAX_LENGTH
}

/// The comment rule: byte length below 30.
pub open spec fn valid_comment(s: Seq<char>) -> bool {
    encode_utf8(s).len() < COMMENT_MAX_LENGTH
}

/// An account identifier that has passed its length rule; constructible only
/// through `try_from`, and immutable after that.
pub struct UserId {
    text: String,
}

impl View for UserId {
    type V = Seq<char>;

    closed spec fn view(&self) -> Seq<char> {
        self.text@
    }
}

impl UserId {
    /// Accepts exactly the strings of the identifier rule; a rejection names
    /// the field and the violated bound.
    pub fn try_from(value: String) -> (r: Result<UserId, SignupError>)
        ensures
            r matches Ok(u) ==> u@ == value@ && valid_user_id(value@),
            valid_user_id(value@) ==> r is Ok,
            r matches Err(e) ==> (e matches SignupError::Validation { field, reason } && field@
                == "user_id"@ && (if encode_utf8(value@).len() >= USER_ID_MAX_LENGTH {
                reason@ == "must be less or equal to 20"@
            } else {
                reason@ == "must be greater than or equal to 8"@
            })),
    {
        let n = value.as_str().as_bytes().len();
        proof {
            assert(n == encode_utf8(value@).len());
        }
        if n >= USER_ID_MAX_LENGTH {
            return Err(
                SignupError::Validation {
                    field: "user_id".to_owned(),
                    reason: "must be less or equal to 20".to_owned(),
                },
            );
        }
        if n < USER_ID_MIN_LENGTH {
            return Err(
                SignupError::Validation {
                    field: "user_id".to_owned(),
                    reason: "must be greater than or equal to 8".to_owned(),
                },
            );
        }
        Ok(UserId { text: value })
    }

    /// The identifier's text.
    pub fn as_str(&self) -> (r: &str)
        ensures
            r@ == self@,
    {
        self.text.as_str()
    }
}

/// A display name that has passed its length rule.
pub struct Nickname {
    text: String,
}

impl View for Nickname {
    type V = Seq<char>;

    closed spec fn view(&self) -> Seq<char> {
        self.text@
    }
}

impl Nickname {
    /// Accepts exactly the strings of the nickname rule; a rejection names
    /// the field and the violated bound.
    pub fn try_from(value: String) -> (r: Result<Nickname, UpdateError>)
        ensures
            r matches Ok(u) ==> u@ == value@ && valid_nickname(value@),
            valid_nickname(value@) ==> r is Ok,
            r matches Err(e) ==> (e matches UpdateError::Validation { field, reason } && field@
                == "nickname"@ && reason@ == "must be less or equal to 20"@),
    {
        let n = value.as_str().as_bytes().len();
        proof {
            assert(n == encode_utf8(value@).len());
        }
        if n >= NICKNAME_MAX_LENGTH {
            return Err(
                UpdateError::Validation {
                    field: "nickname".to_owned(),
                    reason: "must be less or equal to 20".to_owned(),
                },
            );
        }
        Ok(Nickname { text: value })
    }

    /// The nickname's text.
    pub fn as_str(&self) -> (r: &str)
        ensures
            r@ == self@,
    {
        self.text.as_str()
    }
}

/// A free-text comment that has passed its length rule.
pub struct Comment {
    text: String,
}

impl View for Comment {
    type V = Seq<char>;

    closed spec fn view(&self) -> Seq<char> {
        self.text@
    }
}

impl Comment {
    /// Accepts exactly the strings of the comment rule; a rejection names
    /// the field and the violated bound.
    pub fn try_from(value: String) -> (r: Result<Comment, UpdateError>)
        ensures
            r matches Ok(u) ==> u@ == value@ && valid_comment(value@),
            valid_comment(value@) ==> r is Ok,
            r matches Err(e) ==> (e matches UpdateError::Validation { field, reason } && field@
                == "comment"@ && reason@ == "must be less or equal to 30"@),
    {
        let n = value.as_str().as_bytes().len();
        proof {
            assert(n == encode_utf8(value@).len());
        }
        if n >= COMMENT_MAX_LENGTH {
            return Err(
                UpdateError::Validation {
                    field: "comment".to_owned(),
                    reason: "must be less or equal to 30".to_owned(),
                },
            );
        }
        Ok(Comment { text: value })
    }

    /// The comment's text.
    pub fn as_str(&self) -> (r: &str)
        ensures
            r@ == self@,
    {
        self.text.as_str()
    }
}

/// What a signup request carries before validation; either field may be
/// absent.
pub struct Signup {
    /// The identifier the client asks for.
    pub user_id: Option<String>,
    /// The secret the client wants to authenticate with.
    pub password: Option<String>,
}

/// A signup request every rule has passed: both fields present, identifier
/// within bounds.
pub struct ValidSignup {
    /// The validated identifier.
    pub user_id: UserId,
    /// The secret, taken as given — it is hashed, never constrained.
    pub password: String,
}

impl ValidSignup {
    /// Validates a signup payload: a missing identifier is structural
    /// (`InvalidPayload`); a present identifier is held to its rule before
    /// the secret's presence is checked; a missing secret is structural
    /// again.
    pub fn try_from(value: Signup) -> (r: Result<ValidSignup, SignupError>)
        ensures
            r matches Ok(v) ==> (value.user_id matches Some(u) && (v.user_id@ == u@
                && valid_user_id(u@) && (value.password matches Some(p) && v.password@ == p@))),
            value.user_id matches Some(u) ==> (valid_user_id(u@) && value.password is Some ==> r
                is Ok),
            r matches Err(e) ==> (e matches SignupError::InvalidPayload <==> (value.user_id
                is None || value.password is None && (value.user_id matches Some(u)
                && valid_user_id(u@)))),
            r matches Err(e) ==> (e matches SignupError::Validation { field, reason } ==> (
            value.user_id matches Some(u) && (!valid_user_id(u@) && field@ == "user_id"@ && (
            if encode_utf8(u@).len() >= USER_ID_MAX_LENGTH {
                reason@ == "must be less or equal to 20"@
            } else {
                reason@ == "must be greater than or equal to 8"@
            })))),
            r matches Err(e) ==> (e matches SignupError::InvalidPayload || e
                matches SignupError::Validation { field, reason }),
    {
        let user_id = match value.user_id {
            Some(id) => id,
            None => {
                return Err(SignupError::InvalidPayload);
            },
        };
        let user_id = match UserId::try_from(user_id) {
            Ok(u) => u,
            Err(e) => {
                return Err(e);
            },
        };
        let password = match value.password {
            Some(password) => password,
            None => {
                return Err(SignupError::InvalidPayload);
            },
        };
        Ok(ValidSignup { user_id, password })
    }
}

/// What an update request carries before validation; both fields optional.
pub struct UpdateUserDto {
    /// A new display name, if the client sends one.
    pub nickname: Option<String>,
    /// A new comment, if the client sends one.
    pub comment: Option<String>,
}

/// An update request every rule has passed: each field present is within its
/// bound; absent fields stay absent.
pub struct ValidUpdate {
    /// The validated comment, where one was sent.
    pub comment: Option<Comment>,
    /// The validated display name, where one was sent.
    pub nickname: Option<Nickname>,
}

impl ValidUpdate {
    /// Validates an update payload field by field: present fields are held
    /// to their rules, absent fields pass untouched.
    pub fn try_from(value: &UpdateUserDto) -> (r: Result<ValidUpdate, UpdateError>)
        ensures
            r matches Ok(v) ==> {
                &&& (v.comment matches Some(c) ==> (value.comment matches Some(s) && c@ == s@
                    && valid_comment(s@)))
                &&& (v.comment is None <==> value.comment is None)
                &&& (v.nickname matches Some(m) ==> (value.nickname matches Some(s) && m@ == s@
                    && valid_nickname(s@)))
                &&& (v.nickname is None <==> value.nickname is None)
            },
            (value.comment matches Some(s) ==> valid_comment(s@)) && (value.nickname matches Some(
                s,
            ) ==> valid_nickname(s@)) ==> r is Ok,
            r matches Err(e) ==> (e matches UpdateError::Validation { field, reason } && (
            if value.comment matches Some(s) && !valid_comment(s@) {
                field@ == "comment"@ && reason@ == "must be less or equal to 30"@
            } else {
                (value.nickname matches Some(s) && !valid_nickname(s@)) && field@ == "nickname"@
                    && reason@ == "must be less or equal to 20"@
            })),
    {
        let comment = match &value.comment {
            Some(c) => {
                match Comment::try_from(clone_string(c)) {
                    Ok(c) => Some(c),
                    Err(e) => {
                        return Err(e);
                    },
                }
            },
            None => None,
        };
        let nickname = match &value.nickname {
            Some(m) => {
                match Nickname::try_from(clone_string(m)) {
                    Ok(m) => Some(m),
                    Err(e) => {
                        return Err(e);
                    },
                }
            },
            None => None,
        };
        Ok(ValidUpdate { comment, nickname })
    }
}

/// A copy of a string with the same characters.
pub fn clone_string(s: &String) -> (r: String)
    ensures
        r@ == s@,
{
    s.as_str().to_owned()
}

} // verus!
