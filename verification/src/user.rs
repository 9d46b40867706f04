//! End users: the account record, its public profile, and the validation of
//! sign-up and profile-patch payloads. Password hashing happens outside the
//! library; callers hand in the finished hash.

use vstd::prelude::*;

use crate::text::clone_opt_string;
use crate::text::check_password;
use crate::text::opt_str_view;
use crate::text::password_ok;
use crate::text::regex_compiles;
use crate::text::regex_is_match;
use crate::text::regex_match;

verus! {

/// The demographic attributes a promo target is matched against.
#[derive(Debug)]
pub struct UserTargetSettings {
    pub age: i32,
    pub country: String,
}

/// The mathematical model of the demographic attributes.
#[verifier::ext_equal]
pub struct UserTargetSettingsView {
    pub age: i32,
    pub country: Seq<char>,
}

impl View for UserTargetSettings {
    type V = UserTargetSettingsView;

    open spec fn view(&self) -> UserTargetSettingsView {
        UserTargetSettingsView { age: self.age, country: self.country@ }
    }
}

/// Validity of the demographic attributes: age within [0, 100] and a
/// two-character country code.
pub open spec fn spec_valid_user_settings(s: UserTargetSettingsView) -> bool {
    &&& 0 <= s.age <= 100
    &&& s.country.len() == 2
}

impl UserTargetSettings {
    /// An exact copy of the settings.
    pub fn duplicate(&self) -> (r: UserTargetSettings)
        ensures
            r@ == self@,
    {
        UserTargetSettings { age: self.age, country: self.country.clone() }
    }

    pub fn is_valid(&self) -> (r: bool)
        ensures
            r == spec_valid_user_settings(self@),
    {
        if self.age < 0 || self.age > 100 {
            return false;
        }
        if self.country.as_str().unicode_len() != 2 {
            return false;
        }
        true
    }
}

/// A user account record.
#[derive(Debug)]
pub struct User {
    pub name: String,
    pub surname: String,
    pub email: String,
    pub avatar_url: Option<String>,
    pub other: UserTargetSettings,
    pub password_hash: String,
}

/// The mathematical model of a user account.
#[verifier::ext_equal]
pub struct UserView {
    pub name: Seq<char>,
    pub surname: Seq<char>,
    pub email: Seq<char>,
    pub avatar_url: Option<Seq<char>>,
    pub other: UserTargetSettingsView,
    pub password_hash: Seq<char>,
}

impl View for User {
    type V = UserView;

    open spec fn view(&self) -> UserView {
        UserView {
            name: self.name@,
            surname: self.surname@,
            email: self.email@,
            avatar_url: opt_str_view(self.avatar_url),
            other: self.other@,
            password_hash: self.password_hash@,
        }
    }
}

/// The public profile of a user: the account without the password hash.
#[derive(Debug)]
pub struct UserProfile {
    pub name: String,
    pub surname: String,
    pub email: String,
    pub avatar_url: Option<String>,
    pub other: UserTargetSettings,
}

/// The mathematical model of a public profile.
#[verifier::ext_equal]
pub struct UserProfileView {
    pub name: Seq<char>,
    pub surname: Seq<char>,
    pub email: Seq<char>,
    pub avatar_url: Option<Seq<char>>,
    pub other: UserTargetSettingsView,
}

impl View for UserProfile {
    type V = UserProfileView;

    open spec fn view(&self) -> UserProfileView {
        UserProfileView {
            name: self.name@,
            surname: self.surname@,
            email: self.email@,
            avatar_url: opt_str_view(self.avatar_url),
            other: self.other@,
        }
    }
}

/// What the public profile shows of an account.
pub open spec fn spec_profile(u: UserView) -> UserProfileView {
    UserProfileView {
        name: u.name,
        surname: u.surname,
        email: u.email,
        avatar_url: u.avatar_url,
        other: u.other,
    }
}

/// A partial update of a profile.
#[derive(Debug)]
pub struct PatchUser {
    pub name: Option<String>,
    pub surname: Option<String>,
    pub avatar_url: Option<String>,
    pub password: Option<String>,
}

/// The mathematical model of a profile patch.
#[verifier::ext_equal]
pub struct PatchUserView {
    pub name: Option<Seq<char>>,
    pub surname: Option<Seq<char>>,
    pub avatar_url: Option<Seq<char>>,
    pub password: Option<Seq<char>>,
}

impl View for PatchUser {
    type V = PatchUserView;

    open spec fn view(&self) -> PatchUserView {
        PatchUserView {
            name: opt_str_view(self.name),
            surname: opt_str_view(self.surname),
            avatar_url: opt_str_view(self.avatar_url),
            password: opt_str_view(self.password),
        }
    }
}

/// Validity of a profile patch: every present field obeys the same bounds as
/// at sign-up.
pub open spec fn spec_valid_patch_user(p: PatchUserView) -> bool {
    &&& (match p.name {
        Some(n) => 1 <= n.len() <= 100,
        None => true,
    })
    &&& (match p.surname {
        Some(s) => 1 <= s.len() <= 120,
        None => true,
    })
    &&& (match p.avatar_url {
        Some(a) => a.len() <= 350,
        None => true,
    })
    &&& (match p.password {
        Some(pw) => password_ok(pw),
        None => true,
    })
}

impl PatchUser {
    pub fn is_valid(&self) -> (r: bool)
        ensures
            r == spec_valid_patch_user(self@),
    {
        if let Some(ref name) = self.name {
            let n = name.as_str().unicode_len();
            if n < 1 || n > 100 {
                return false;
            }
        }
        if let Some(ref surname) = self.surname {
            let n = surname.as_str().unicode_len();
            if n < 1 || n > 120 {
                return false;
            }
        }
        if let Some(ref avatar_url) = self.avatar_url {
            if avatar_url.as_str().unicode_len() > 350 {
                return false;
            }
        }
        if let Some(ref password) = self.password {
            return check_password(password.as_str());
        }
        true
    }
}

/// The profile update rule: name and surname fall back to the current value
/// when absent, the avatar is replaced by the patch's (clearing it when the
/// patch has none), and the password hash is replaced when a new hash is
/// handed in.
pub open spec fn spec_patched_user(
    u: UserView,
    p: PatchUserView,
    new_hash: Option<Seq<char>>,
) -> UserView {
    UserView {
        name: match p.name {
            Some(n) => n,
            None => u.name,
        },
        surname: match p.surname {
            Some(s) => s,
            None => u.surname,
        },
        email: u.email,
        avatar_url: p.avatar_url,
        other: u.other,
        password_hash: match new_hash {
            Some(h) => h,
            None => u.password_hash,
        },
    }
}

impl User {
    /// The public profile of this account.
    pub fn profile(&self) -> (r: UserProfile)
        ensures
            r@ == spec_profile(self@),
    {
        let r = UserProfile {
            name: self.name.clone(),
            surname: self.surname.clone(),
            email: self.email.clone(),
            avatar_url: clone_opt_string(&self.avatar_url),
            other: self.other.duplicate(),
        };
        proof {
            assert(r@ =~= spec_profile(self@));
        }
        r
    }

    /// Applies a validated profile patch. `new_password_hash` is the hash of
    /// the patch's password when one was given, produced by the caller.
    pub fn apply_patch(self, patch: PatchUser, new_password_hash: Option<String>) -> (r: User)
        ensures
            r@ == spec_patched_user(self@, patch@, opt_str_view(new_password_hash)),
    {
        let r = User {
            name: match patch.name {
                Some(n) => n,
                None => self.name,
            },
            surname: match patch.surname {
                Some(s) => s,
                None => self.surname,
            },
            email: self.email,
            avatar_url: patch.avatar_url,
            other: self.other,
            password_hash: match new_password_hash {
                Some(h) => h,
                None => self.password_hash,
            },
        };
        proof {
            assert(r@ =~= spec_patched_user(self@, patch@, opt_str_view(new_password_hash)));
        }
        r
    }
}

/// A sign-up payload for a user account.
#[derive(Debug)]
pub struct CreateUser {
    pub name: String,
    pub surname: String,
    pub email: String,
    pub avatar_url: Option<String>,
    pub other: UserTargetSettings,
    pub password: String,
}

/// The mathematical model of a user sign-up payload.
#[verifier::ext_equal]
pub struct CreateUserView {
    pub name: Seq<char>,
    pub surname: Seq<char>,
    pub email: Seq<char>,
    pub avatar_url: Option<Seq<char>>,
    pub other: UserTargetSettingsView,
    pub password: Seq<char>,
}

impl View for CreateUser {
    type V = CreateUserView;

    open spec fn view(&self) -> CreateUserView {
        CreateUserView {
            name: self.name@,
            surname: self.surname@,
            email: self.email@,
            avatar_url: opt_str_view(self.avatar_url),
            other: self.other@,
            password: self.password@,
        }
    }
}

/// Whether a user email passes the sign-up pattern.
pub open spec fn spec_user_email_accepted(email: Seq<char>) -> bool {
    &&& regex_compiles("[a-z0-9_+]([a-z0-9_+.]*[a-z0-9_+])?"@)
    &&& regex_match("[a-z0-9_+]([a-z0-9_+.]*[a-z0-9_+])?"@, email)
}

/// Validity of a user sign-up payload.
pub open spec fn spec_valid_create_user(c: CreateUserView) -> bool {
    &&& 1 <= c.name.len() <= 100
    &&& 1 <= c.surname.len() <= 120
    &&& spec_user_email_accepted(c.email)
    &&& (match c.avatar_url {
        Some(a) => a.len() <= 350,
        None => true,
    })
    &&& spec_valid_user_settings(c.other)
    &&& password_ok(c.password)
}

impl CreateUser {
    pub fn is_valid(&self) -> (r: bool)
        ensures
            r == spec_valid_create_user(self@),
    {
        let n = self.name.as_str().unicode_len();
        if n < 1 || n > 100 {
            return false;
        }
        let s = self.surname.as_str().unicode_len();
        if s < 1 || s > 120 {
            return false;
        }
        match regex_is_match("[a-z0-9_+]([a-z0-9_+.]*[a-z0-9_+])?", self.email.as_str()) {
            Some(true) => {},
            _ => {
                return false;
            },
        }
        if let Some(ref avatar_url) = self.avatar_url {
            if avatar_url.as_str().unicode_len() > 350 {
                return false;
            }
        }
        if !self.other.is_valid() {
            return false;
        }
        check_password(self.password.as_str())
    }

    /// Turns a validated sign-up payload into an account record, with the
    /// password hash produced by the caller.
    pub fn into_user(self, password_hash: String) -> (r: User)
        ensures
            r@.name == self@.name,
            r@.surname == self@.surname,
            r@.email == self@.email,
            r@.avatar_url == self@.avatar_url,
            r@.other == self@.other,
            r@.password_hash == password_hash@,
    {
        User {
            name: self.name,
            surname: self.surname,
            email: self.email,
            avatar_url: self.avatar_url,
            other: self.other,
            password_hash,
        }
    }
}

/// A sign-in payload for a user account.
#[derive(Debug)]
pub struct SignInData {
    pub email: String,
    pub password: String,
}

} // verus!
