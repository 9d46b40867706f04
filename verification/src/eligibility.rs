//! The targeting evaluator: whether a user satisfies a promo's target.
//! Pure and total; every absent target attribute means no restriction.
//! Category targeting is declared on the target but not consulted here.

use vstd::prelude::*;

use crate::target::Target;
use crate::target::TargetView;
use crate::text::eq_ignore_case;
use crate::text::str_eq_ignore_case;
use crate::user::UserTargetSettings;
use crate::user::UserTargetSettingsView;

verus! {

/// A user is eligible unless an attribute of the target excludes them: the
/// age must lie within the present bounds and the country must equal the
/// target's, compared without regard to ASCII case.
pub open spec fn spec_eligible(t: TargetView, u: UserTargetSettingsView) -> bool {
    &&& (match t.age_from {
        Some(a) => u.age >= a,
        None => true,
    })
    &&& (match t.age_until {
        Some(b) => u.age <= b,
        None => true,
    })
    &&& (match t.country {
        Some(c) => eq_ignore_case(c, u.country),
        None => true,
    })
}

pub fn is_eligible(target: &Target, user: &UserTargetSettings) -> (r: bool)
    ensures
        r == spec_eligible(target@, user@),
{
    if let Some(a) = target.age_from {
        if user.age < (a as i32) {
            return false;
        }
    }
    if let Some(b) = target.age_until {
        if user.age > (b as i32) {
            return false;
        }
    }
    if let Some(ref c) = target.country {
        if !str_eq_ignore_case(c.as_str(), user.country.as_str()) {
            return false;
        }
    }
    true
}

} // verus!
