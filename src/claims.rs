use vstd::prelude::*;

use crate::ids::{parse_nonzero_u64, parse_user_id};
use crate::models::User;
use crate::permissions::Permissions;

verus! {

/// What a signed credential states: the subject's id, when it expires
/// (seconds since the Unix epoch), and the subject's permission bits.
pub struct Claims {
    pub sub: String,
    pub exp: u64,
    pub permissions: i64,
}

/// How long a login's credential lasts: thirty days, in seconds.
pub const LOGIN_LIFETIME_SECS: i64 = 2592000;

impl Claims {
    /// The claims for `user`, expiring at `exp`.
    pub fn new(user: &User, exp: u64) -> (r: Claims)
        ensures
            r.sub@ == user.id@,
            r.exp == exp,
            r.permissions == user.permissions,
    {
        Claims { sub: user.id.clone(), exp, permissions: user.permissions }
    }

    /// The claims with the given fields.
    pub fn from_parts(sub: String, exp: u64, permissions: i64) -> (r: Claims)
        ensures
            r.sub@ == sub@,
            r.exp == exp,
            r.permissions == permissions,
    {
        Claims { sub, exp, permissions }
    }

    pub fn expires_at(&self) -> (r: u64)
        ensures
            r == self.exp,
    {
        self.exp
    }

    pub fn user_id(&self) -> (r: &str)
        ensures
            r@ == self.sub@,
    {
        self.sub.as_str()
    }

    pub fn permissions(&self) -> (r: Permissions)
        ensures
            r.bits == self.permissions,
    {
        Permissions::from(self.permissions)
    }

    /// The subject as a user id: `None` where the subject is not the decimal
    /// text of a non-zero `u64`.
    pub fn subject_id(&self) -> (r: Option<u64>)
        ensures
            r == parse_nonzero_u64(self.sub@),
    {
        parse_user_id(self.sub.as_str())
    }
}

/// When a credential issued at `now` expires, where that instant is a
/// non-negative `i64` number of seconds.
pub fn login_expiry(now: i64) -> (r: Option<u64>)
    ensures
        r == (if 0 <= now + LOGIN_LIFETIME_SECS <= i64::MAX {
            Some((now + LOGIN_LIFETIME_SECS) as u64)
        } else {
            None
        }),
{
    match now.checked_add(LOGIN_LIFETIME_SECS) {
        Some(t) => {
            if t < 0 {
                None
            } else {
                Some(t as u64)
            }
        },
        None => None,
    }
}

} // verus!
