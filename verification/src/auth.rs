//! Company accounts and the validation of their sign-in and sign-up
//! payloads. Credential work (password hashing, token minting) happens
//! outside the library; callers hand in finished hashes and read plain
//! claims.

use vstd::prelude::*;

use crate::text::check_password;
use crate::text::check_password_classes;
use crate::text::password_classes_ok;
use crate::text::password_ok;
use crate::text::regex_compiles;
use crate::text::regex_is_match;
use crate::text::regex_match;

verus! {

/// The claims carried by an access token.
#[derive(Debug)]
pub struct Claims {
    pub exp: usize,
    pub iat: usize,
    pub email: String,
}

/// The mathematical model of token claims.
#[verifier::ext_equal]
pub struct ClaimsView {
    pub exp: usize,
    pub iat: usize,
    pub email: Seq<char>,
}

impl View for Claims {
    type V = ClaimsView;

    open spec fn view(&self) -> ClaimsView {
        ClaimsView { exp: self.exp, iat: self.iat, email: self.email@ }
    }
}

/// A company account record.
#[derive(Debug)]
pub struct Company {
    pub id: String,
    pub name: String,
    pub email: String,
    pub password_hash: String,
}

/// The mathematical model of a company account.
#[verifier::ext_equal]
pub struct CompanyView {
    pub id: Seq<char>,
    pub name: Seq<char>,
    pub email: Seq<char>,
    pub password_hash: Seq<char>,
}

impl View for Company {
    type V = CompanyView;

    open spec fn view(&self) -> CompanyView {
        CompanyView {
            id: self.id@,
            name: self.name@,
            email: self.email@,
            password_hash: self.password_hash@,
        }
    }
}

impl Company {
    /// An exact copy of the record.
    pub fn duplicate(&self) -> (r: Company)
        ensures
            r@ == self@,
    {
        Company {
            id: self.id.clone(),
            name: self.name.clone(),
            email: self.email.clone(),
            password_hash: self.password_hash.clone(),
        }
    }
}

/// A sign-in payload for a company account.
#[derive(Debug)]
pub struct SignInData {
    pub email: String,
    pub password: String,
}

/// The mathematical model of a company sign-in payload.
#[verifier::ext_equal]
pub struct SignInDataView {
    pub email: Seq<char>,
    pub password: Seq<char>,
}

impl View for SignInData {
    type V = SignInDataView;

    open spec fn view(&self) -> SignInDataView {
        SignInDataView { email: self.email@, password: self.password@ }
    }
}

/// Validity of a company sign-in payload: email of 8 to 120 characters and a
/// password obeying the full password policy.
pub open spec fn spec_valid_sign_in(d: SignInDataView) -> bool {
    &&& 8 <= d.email.len() <= 120
    &&& password_ok(d.password)
}

impl SignInData {
    pub fn is_valid(&self) -> (r: bool)
        ensures
            r == spec_valid_sign_in(self@),
    {
        let n = self.email.as_str().unicode_len();
        if n < 8 || n > 120 {
            return false;
        }
        check_password(self.password.as_str())
    }
}

/// A sign-up payload for a company account.
#[derive(Debug)]
pub struct CreateCompany {
    pub name: String,
    pub email: String,
    pub password: String,
}

/// The mathematical model of a company sign-up payload.
#[verifier::ext_equal]
pub struct CreateCompanyView {
    pub name: Seq<char>,
    pub email: Seq<char>,
    pub password: Seq<char>,
}

impl View for CreateCompany {
    type V = CreateCompanyView;

    open spec fn view(&self) -> CreateCompanyView {
        CreateCompanyView { name: self.name@, email: self.email@, password: self.password@ }
    }
}

/// Whether a company email passes the sign-up pattern.
pub open spec fn spec_company_email_accepted(email: Seq<char>) -> bool {
    &&& regex_compiles(
        "^([a-z0-9_+]([a-z0-9_+.]*[a-z0-9_+])?)@([a-z0-9]+([\\-\\.]{1}[a-z0-9]+)*\\.[a-z]{2,6})"@,
    )
    &&& regex_match(
        "^([a-z0-9_+]([a-z0-9_+.]*[a-z0-9_+])?)@([a-z0-9]+([\\-\\.]{1}[a-z0-9]+)*\\.[a-z]{2,6})"@,
        email,
    )
}

/// Validity of a company sign-up payload: name of 5 to 50 characters, an
/// email accepted by the pattern, and a password with the required character
/// classes (company sign-up puts no length bound on the password).
pub open spec fn spec_valid_sign_up_data(c: CreateCompanyView) -> bool {
    &&& 5 <= c.name.len() <= 50
    &&& spec_company_email_accepted(c.email)
    &&& password_classes_ok(c.password)
}

pub fn is_valid_sign_up_data(sign_up_data: &CreateCompany) -> (r: bool)
    ensures
        r == spec_valid_sign_up_data(sign_up_data@),
{
    let n = sign_up_data.name.as_str().unicode_len();
    if n < 5 || n > 50 {
        return false;
    }
    match regex_is_match(
        "^([a-z0-9_+]([a-z0-9_+.]*[a-z0-9_+])?)@([a-z0-9]+([\\-\\.]{1}[a-z0-9]+)*\\.[a-z]{2,6})",
        sign_up_data.email.as_str(),
    ) {
        Some(true) => {},
        _ => {
            return false;
        },
    }
    check_password_classes(sign_up_data.password.as_str())
}

impl CreateCompany {
    /// Turns a validated sign-up payload into an account record, with the
    /// identifier and password hash produced by the caller.
    pub fn into_company(self, id: String, password_hash: String) -> (r: Company)
        ensures
            r@.id == id@,
            r@.name == self@.name,
            r@.email == self@.email,
            r@.password_hash == password_hash@,
    {
        Company { id, name: self.name, email: self.email, password_hash }
    }
}

} // verus!
