//! The eligibility filter attached to a promo: optional age bounds, an
//! optional two-letter country code, and an optional category list.

use vstd::prelude::*;

use crate::text::clone_opt_string;
use crate::text::clone_string_vec;
use crate::text::views_of;

verus! {

/// Demographic/geographic restriction of a promo. Every absent attribute
/// means "no restriction".
#[derive(Debug)]
pub struct Target {
    pub age_from: Option<i8>,
    pub age_until: Option<i8>,
    pub country: Option<String>,
    pub categories: Option<Vec<String>>,
}

/// The mathematical model of a target.
#[verifier::ext_equal]
pub struct TargetView {
    pub age_from: Option<i8>,
    pub age_until: Option<i8>,
    pub country: Option<Seq<char>>,
    pub categories: Option<Seq<Seq<char>>>,
}

impl View for Target {
    type V = TargetView;

    open spec fn view(&self) -> TargetView {
        TargetView {
            age_from: self.age_from,
            age_until: self.age_until,
            country: match self.country {
                Some(c) => Some(c@),
                None => None,
            },
            categories: match self.categories {
                Some(cs) => Some(views_of(cs@)),
                None => None,
            },
        }
    }
}

/// Structural validity of a target: age bounds inside [0, 100] and ordered,
/// country exactly two characters, at most 20 categories of 2 to 20
/// characters each.
pub open spec fn spec_valid_target(t: TargetView) -> bool {
    &&& (match t.age_from {
        Some(a) => 0 <= a <= 100,
        None => true,
    })
    &&& (match t.age_until {
        Some(a) => 0 <= a <= 100,
        None => true,
    })
    &&& (match (t.age_from, t.age_until) {
        (Some(a), Some(b)) => a <= b,
        _ => true,
    })
    &&& (match t.country {
        Some(c) => c.len() == 2,
        None => true,
    })
    &&& (match t.categories {
        Some(cs) => cs.len() <= 20 && forall|i: int|
            0 <= i < cs.len() ==> 2 <= (#[trigger] cs[i]).len() <= 20,
        None => true,
    })
}

impl Target {
    /// An exact copy of the target.
    pub fn duplicate(&self) -> (r: Target)
        ensures
            r@ == self@,
    {
        let categories = match &self.categories {
            Some(cs) => Some(clone_string_vec(cs)),
            None => None,
        };
        let r = Target {
            age_from: self.age_from,
            age_until: self.age_until,
            country: clone_opt_string(&self.country),
            categories,
        };
        proof {
            assert(r@ =~= self@);
        }
        r
    }

    /// The validation layer's structural check for a target.
    pub fn is_valid(&self) -> (r: bool)
        ensures
            r == spec_valid_target(self@),
    {
        if let Some(age_from) = self.age_from {
            if age_from < 0 || age_from > 100 {
                return false;
            }
        }
        if let Some(age_until) = self.age_until {
            if age_until < 0 || age_until > 100 {
                return false;
            }
        }
        if let (Some(age_from), Some(age_until)) = (self.age_from, self.age_until) {
            if age_from > age_until {
                return false;
            }
        }
        if let Some(ref country) = self.country {
            if country.as_str().unicode_len() != 2 {
                return false;
            }
        }
        if let Some(ref categories) = self.categories {
            if categories.len() > 20 {
                return false;
            }
            let mut i: usize = 0;
            while i < categories.len()
                invariant
                    self.categories == Some(*categories),
                    i <= categories@.len(),
                    categories@.len() <= 20,
                    forall|j: int| 0 <= j < i ==> 2 <= (#[trigger] categories@[j])@.len() <= 20,
                decreases categories@.len() - i,
            {
                let n = categories[i].as_str().unicode_len();
                if n < 2 || n > 20 {
                    proof {
                        assert(self@.categories->Some_0[i as int].len() == n);
                    }
                    return false;
                }
                i += 1;
            }
            proof {
                assert forall|j: int| 0 <= j < self@.categories->Some_0.len() implies 2 <= (
                #[trigger] self@.categories->Some_0[j]).len() <= 20 by {
                    assert(2 <= categories@[j]@.len() <= 20);
                }
            }
        }
        true
    }
}

} // verus!
