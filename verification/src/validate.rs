//! The validation layer: structural and semantic checks on a promo
//! definition or patch before anything is persisted or mutated, and the
//! construction rules that turn a validated payload into a record or apply a
//! validated patch. Nothing here is ever partially applied.

use vstd::prelude::*;

use crate::dates::parse_date;
use crate::dates::parsed_date;
use crate::promo::Promo;
use crate::promo::PromoMode;
use crate::promo::PromoView;
use crate::promo::promo_wf;
use crate::target::Target;
use crate::target::TargetView;
use crate::target::spec_valid_target;
use crate::text::opt_str_view;
use crate::text::views_of;

verus! {

/// A typed validation failure: the field at fault and, through the variant,
/// the reason.
#[derive(Clone, Copy, PartialEq, Eq, Structural, Debug)]
pub enum ValidationError {
    /// A field the payload must carry is absent.
    MissingField,
    /// The description length is out of range.
    Description,
    /// The image URL is too long.
    ImageUrl,
    /// The target fails its structural checks.
    Target,
    /// The shared code is absent, present on the wrong mode, or of the wrong
    /// length.
    CommonCode,
    /// The code pool is absent, present on the wrong mode, empty, too large,
    /// or holds a code of the wrong length.
    UniqueCodes,
    /// The redemption ceiling is absent, below one, above the current one,
    /// below current consumption, or does not match the pool size.
    MaxCount,
    /// A date string does not parse as a calendar date.
    DateFormat,
    /// The activation window would end before it starts.
    Window,
    /// The patch touches the mode or the code pool, which are immutable.
    ImmutableField,
}

/// A payload asking for a new promo.
#[derive(Debug)]
pub struct CreatePromo {
    pub description: Option<String>,
    pub image_url: Option<String>,
    pub target: Option<Target>,
    pub max_count: Option<i32>,
    pub active_from: Option<String>,
    pub active_until: Option<String>,
    pub mode: Option<PromoMode>,
    pub promo_common: Option<String>,
    pub promo_unique: Option<Vec<String>>,
}

/// The mathematical model of a creation payload.
#[verifier::ext_equal]
pub struct CreatePromoView {
    pub description: Option<Seq<char>>,
    pub image_url: Option<Seq<char>>,
    pub target: Option<TargetView>,
    pub max_count: Option<i32>,
    pub active_from: Option<Seq<char>>,
    pub active_until: Option<Seq<char>>,
    pub mode: Option<PromoMode>,
    pub promo_common: Option<Seq<char>>,
    pub promo_unique: Option<Seq<Seq<char>>>,
}

impl View for CreatePromo {
    type V = CreatePromoView;

    open spec fn view(&self) -> CreatePromoView {
        CreatePromoView {
            description: opt_str_view(self.description),
            image_url: opt_str_view(self.image_url),
            target: match self.target {
                Some(t) => Some(t@),
                None => None,
            },
            max_count: self.max_count,
            active_from: opt_str_view(self.active_from),
            active_until: opt_str_view(self.active_until),
            mode: self.mode,
            promo_common: opt_str_view(self.promo_common),
            promo_unique: match self.promo_unique {
                Some(ref v) => Some(views_of(v@)),
                None => None,
            },
        }
    }
}

/// Every code of the pool has 3 to 30 characters.
pub open spec fn codes_len_ok(cs: Seq<Seq<char>>) -> bool {
    forall|i: int| 0 <= i < cs.len() ==> 3 <= (#[trigger] cs[i]).len() <= 30
}

/// The first rule a creation payload breaks, or None when it is valid:
/// required fields present; description of 10 to 300 characters; image URL
/// of at most 350; a structurally valid target; a ceiling of at least one;
/// a shared code of 5 to 30 characters exactly when the mode is COMMON; a
/// pool of 1 to 5000 codes of 3 to 30 characters each, matching the ceiling,
/// exactly when the mode is UNIQUE; dates that parse and a window that is
/// ordered.
pub open spec fn spec_create_error(c: CreatePromoView) -> Option<ValidationError> {
    if c.description is None || c.mode is None || c.max_count is None || c.target is None {
        Some(ValidationError::MissingField)
    } else if !(10 <= c.description->Some_0.len() <= 300) {
        Some(ValidationError::Description)
    } else if c.image_url is Some && c.image_url->Some_0.len() > 350 {
        Some(ValidationError::ImageUrl)
    } else if !spec_valid_target(c.target->Some_0) {
        Some(ValidationError::Target)
    } else if c.max_count->Some_0 < 1 {
        Some(ValidationError::MaxCount)
    } else if c.mode->Some_0 is Common && !(c.promo_common is Some && 5 <= c.promo_common->Some_0.len() <= 30) {
        Some(ValidationError::CommonCode)
    } else if c.mode->Some_0 is Common && c.promo_unique is Some {
        Some(ValidationError::UniqueCodes)
    } else if c.mode->Some_0 is Unique && c.promo_common is Some {
        Some(ValidationError::CommonCode)
    } else if c.mode->Some_0 is Unique && !(c.promo_unique is Some && 1 <= c.promo_unique->Some_0.len() <= 5000 && codes_len_ok(c.promo_unique->Some_0)) {
        Some(ValidationError::UniqueCodes)
    } else if c.mode->Some_0 is Unique && c.max_count->Some_0 != c.promo_unique->Some_0.len() {
        Some(ValidationError::MaxCount)
    } else if c.active_from is Some && parsed_date(c.active_from->Some_0) is None {
        Some(ValidationError::DateFormat)
    } else if c.active_until is Some && parsed_date(c.active_until->Some_0) is None {
        Some(ValidationError::DateFormat)
    } else if c.active_from is Some && c.active_until is Some && parsed_date(
        c.active_from->Some_0,
    )->Some_0 > parsed_date(c.active_until->Some_0)->Some_0 {
        Some(ValidationError::Window)
    } else {
        None
    }
}

/// A creation payload is valid when it breaks no rule.
pub open spec fn spec_valid_create(c: CreatePromoView) -> bool {
    spec_create_error(c) is None
}

/// Checks the pool entries' lengths; used by creation validation.
fn check_codes(cs: &Vec<String>) -> (r: bool)
    ensures
        r == codes_len_ok(views_of(cs@)),
{
    let mut i: usize = 0;
    while i < cs.len()
        invariant
            i <= cs@.len(),
            forall|j: int| 0 <= j < i ==> 3 <= (#[trigger] cs@[j])@.len() <= 30,
        decreases cs@.len() - i,
    {
        let n = cs[i].as_str().unicode_len();
        if n < 3 || n > 30 {
            proof {
                assert(views_of(cs@)[i as int].len() == n);
            }
            return false;
        }
        i += 1;
    }
    proof {
        assert forall|j: int| 0 <= j < views_of(cs@).len() implies 3 <= (#[trigger] views_of(
            cs@,
        )[j]).len() <= 30 by {
            assert(3 <= cs@[j]@.len() <= 30);
        }
    }
    true
}

/// Validates a creation payload, reporting the first broken rule.
pub fn validate_create(c: &CreatePromo) -> (r: Result<(), ValidationError>)
    ensures
        r == (match spec_create_error(c@) {
            Some(e) => Err::<(), ValidationError>(e),
            None => Ok::<(), ValidationError>(()),
        }),
{
    if c.description.is_none() || c.mode.is_none() || c.max_count.is_none() || c.target.is_none() {
        return Err(ValidationError::MissingField);
    }
    let dlen = c.description.as_ref().unwrap().as_str().unicode_len();
    if dlen < 10 || dlen > 300 {
        return Err(ValidationError::Description);
    }
    if let Some(ref image_url) = c.image_url {
        if image_url.as_str().unicode_len() > 350 {
            return Err(ValidationError::ImageUrl);
        }
    }
    if !c.target.as_ref().unwrap().is_valid() {
        return Err(ValidationError::Target);
    }
    let max_count = *c.max_count.as_ref().unwrap();
    if max_count < 1 {
        return Err(ValidationError::MaxCount);
    }
    let mode = *c.mode.as_ref().unwrap();
    match mode {
        PromoMode::Common => {
            match c.promo_common {
                Some(ref common) => {
                    let n = common.as_str().unicode_len();
                    if n < 5 || n > 30 {
                        return Err(ValidationError::CommonCode);
                    }
                },
                None => {
                    return Err(ValidationError::CommonCode);
                },
            }
            if c.promo_unique.is_some() {
                return Err(ValidationError::UniqueCodes);
            }
        },
        PromoMode::Unique => {
            if c.promo_common.is_some() {
                return Err(ValidationError::CommonCode);
            }
            match c.promo_unique {
                Some(ref codes) => {
                    if codes.len() < 1 || codes.len() > 5000 || !check_codes(codes) {
                        return Err(ValidationError::UniqueCodes);
                    }
                    if max_count as usize != codes.len() {
                        return Err(ValidationError::MaxCount);
                    }
                },
                None => {
                    return Err(ValidationError::UniqueCodes);
                },
            }
        },
    }
    let parsed_from = match c.active_from {
        Some(ref s) => {
            match parse_date(s.as_str()) {
                Some(d) => Some(d),
                None => {
                    return Err(ValidationError::DateFormat);
                },
            }
        },
        None => None,
    };
    let parsed_until = match c.active_until {
        Some(ref s) => {
            match parse_date(s.as_str()) {
                Some(d) => Some(d),
                None => {
                    return Err(ValidationError::DateFormat);
                },
            }
        },
        None => None,
    };
    if let (Some(f), Some(u)) = (parsed_from, parsed_until) {
        if f > u {
            return Err(ValidationError::Window);
        }
    }
    Ok(())
}

impl CreatePromo {
    /// The validation layer's gate for creation payloads.
    pub fn is_valid(&self) -> (r: bool)
        ensures
            r == spec_valid_create(self@),
    {
        match validate_create(self) {
            Ok(()) => true,
            Err(_) => false,
        }
    }
}

/// The record a valid creation payload builds: the promo starts active, with
/// nobody redeemed, no likes, no comments and an empty tally.
pub open spec fn spec_built_promo(
    c: CreatePromoView,
    company_id: Seq<char>,
    company_name: Seq<char>,
    promo_id: Seq<char>,
    create_date: i64,
) -> PromoView {
    PromoView {
        description: c.description->Some_0,
        image_url: c.image_url,
        target: c.target->Some_0,
        max_count: c.max_count->Some_0,
        create_date: create_date,
        active_from: match c.active_from {
            Some(s) => parsed_date(s),
            None => None,
        },
        active_until: match c.active_until {
            Some(s) => parsed_date(s),
            None => None,
        },
        mode: c.mode->Some_0,
        promo_common: c.promo_common,
        promo_unique: match c.promo_unique {
            Some(cs) => cs,
            None => Seq::empty(),
        },
        promo_id: promo_id,
        company_id: company_id,
        company_name: company_name,
        likes: Seq::empty(),
        active: true,
        countries: Seq::empty(),
        comments: Seq::empty(),
        activated_users: Seq::empty(),
    }
}

/// Builds the record for a validated creation payload. The identifier and
/// the clock reading come from the caller.
pub fn build_promo(
    c: CreatePromo,
    company_id: String,
    company_name: String,
    promo_id: String,
    create_date: i64,
) -> (r: Promo)
    requires
        spec_valid_create(c@),
    ensures
        r@ == spec_built_promo(c@, company_id@, company_name@, promo_id@, create_date),
        promo_wf(r@),
{
    let active_from = match c.active_from {
        Some(ref s) => parse_date(s.as_str()),
        None => None,
    };
    let active_until = match c.active_until {
        Some(ref s) => parse_date(s.as_str()),
        None => None,
    };
    let r = Promo {
        description: c.description.unwrap(),
        image_url: c.image_url,
        target: c.target.unwrap(),
        max_count: c.max_count.unwrap(),
        create_date,
        active_from,
        active_until,
        mode: c.mode.unwrap(),
        promo_common: c.promo_common,
        promo_unique: match c.promo_unique {
            Some(codes) => codes,
            None => Vec::new(),
        },
        promo_id,
        company_id,
        company_name,
        likes: Vec::new(),
        active: true,
        countries: Vec::new(),
        comments: Vec::new(),
        activated_users: Vec::new(),
    };
    proof {
        assert(r@ =~= spec_built_promo(
            c@,
            r.company_id@,
            r.company_name@,
            r.promo_id@,
            create_date,
        ));
    }
    r
}

/// A partial update of a promo. The mode and the code fields are carried so
/// that an attempt to change them can be rejected as such: they are
/// immutable after creation.
#[derive(Debug)]
pub struct PatchPromo {
    pub description: Option<String>,
    pub image_url: Option<String>,
    pub target: Option<Target>,
    pub max_count: Option<i32>,
    pub active_from: Option<String>,
    pub active_until: Option<String>,
    pub mode: Option<PromoMode>,
    pub promo_common: Option<String>,
    pub promo_unique: Option<Vec<String>>,
}

/// The mathematical model of a promo patch.
#[verifier::ext_equal]
pub struct PatchPromoView {
    pub description: Option<Seq<char>>,
    pub image_url: Option<Seq<char>>,
    pub target: Option<TargetView>,
    pub max_count: Option<i32>,
    pub active_from: Option<Seq<char>>,
    pub active_until: Option<Seq<char>>,
    pub mode: Option<PromoMode>,
    pub promo_common: Option<Seq<char>>,
    pub promo_unique: Option<Seq<Seq<char>>>,
}

impl View for PatchPromo {
    type V = PatchPromoView;

    open spec fn view(&self) -> PatchPromoView {
        PatchPromoView {
            description: opt_str_view(self.description),
            image_url: opt_str_view(self.image_url),
            target: match self.target {
                Some(t) => Some(t@),
                None => None,
            },
            max_count: self.max_count,
            active_from: opt_str_view(self.active_from),
            active_until: opt_str_view(self.active_until),
            mode: self.mode,
            promo_common: opt_str_view(self.promo_common),
            promo_unique: match self.promo_unique {
                Some(ref v) => Some(views_of(v@)),
                None => None,
            },
        }
    }
}

/// The activation window the promo would have after the patch: a given date
/// replaces the stored one, an absent one is inherited.
pub open spec fn spec_effective_from(p: PatchPromoView, cur: PromoView) -> Option<i64> {
    match p.active_from {
        Some(s) => parsed_date(s),
        None => cur.active_from,
    }
}

pub open spec fn spec_effective_until(p: PatchPromoView, cur: PromoView) -> Option<i64> {
    match p.active_until {
        Some(s) => parsed_date(s),
        None => cur.active_until,
    }
}

/// The first rule a patch breaks against the current record, or None: the
/// mode and the code fields are immutable; description, image URL and target
/// obey the creation bounds; the ceiling may only shrink, never below one or
/// below the number of users who already redeemed; dates must parse and the
/// effective window, inherited dates included, must be ordered.
pub open spec fn spec_patch_error(p: PatchPromoView, cur: PromoView) -> Option<ValidationError> {
    if p.mode is Some || p.promo_common is Some || p.promo_unique is Some {
        Some(ValidationError::ImmutableField)
    } else if p.description is Some && !(10 <= p.description->Some_0.len() <= 300) {
        Some(ValidationError::Description)
    } else if p.image_url is Some && p.image_url->Some_0.len() > 350 {
        Some(ValidationError::ImageUrl)
    } else if p.max_count is Some && !(1 <= p.max_count->Some_0 <= cur.max_count
        && cur.activated_users.len() <= p.max_count->Some_0) {
        Some(ValidationError::MaxCount)
    } else if p.target is Some && !spec_valid_target(p.target->Some_0) {
        Some(ValidationError::Target)
    } else if p.active_from is Some && parsed_date(p.active_from->Some_0) is None {
        Some(ValidationError::DateFormat)
    } else if p.active_until is Some && parsed_date(p.active_until->Some_0) is None {
        Some(ValidationError::DateFormat)
    } else if spec_effective_from(p, cur) is Some && spec_effective_until(p, cur) is Some
        && spec_effective_from(p, cur)->Some_0 > spec_effective_until(p, cur)->Some_0 {
        Some(ValidationError::Window)
    } else {
        None
    }
}

/// A patch is valid against a record when it breaks no rule.
pub open spec fn spec_valid_patch(p: PatchPromoView, cur: PromoView) -> bool {
    spec_patch_error(p, cur) is None
}

/// Validates a patch against the current record, reporting the first broken
/// rule.
pub fn validate_patch(p: &PatchPromo, cur: &Promo) -> (r: Result<(), ValidationError>)
    ensures
        r == (match spec_patch_error(p@, cur@) {
            Some(e) => Err::<(), ValidationError>(e),
            None => Ok::<(), ValidationError>(()),
        }),
{
    if p.mode.is_some() || p.promo_common.is_some() || p.promo_unique.is_some() {
        return Err(ValidationError::ImmutableField);
    }
    if let Some(ref description) = p.description {
        let n = description.as_str().unicode_len();
        if n < 10 || n > 300 {
            return Err(ValidationError::Description);
        }
    }
    if let Some(ref image_url) = p.image_url {
        if image_url.as_str().unicode_len() > 350 {
            return Err(ValidationError::ImageUrl);
        }
    }
    if let Some(max_count) = p.max_count {
        if max_count < 1 || max_count > cur.max_count || cur.activated_users.len() > (
        max_count as usize) {
            return Err(ValidationError::MaxCount);
        }
    }
    if let Some(ref target) = p.target {
        if !target.is_valid() {
            return Err(ValidationError::Target);
        }
    }
    let parsed_from = match p.active_from {
        Some(ref s) => {
            match parse_date(s.as_str()) {
                Some(d) => Some(d),
                None => {
                    return Err(ValidationError::DateFormat);
                },
            }
        },
        None => cur.active_from,
    };
    let parsed_until = match p.active_until {
        Some(ref s) => {
            match parse_date(s.as_str()) {
                Some(d) => Some(d),
                None => {
                    return Err(ValidationError::DateFormat);
                },
            }
        },
        None => cur.active_until,
    };
    if let (Some(f), Some(u)) = (parsed_from, parsed_until) {
        if f > u {
            return Err(ValidationError::Window);
        }
    }
    Ok(())
}

impl PatchPromo {
    /// The validation layer's gate for patches.
    pub fn is_valid(&self, promo: &Promo) -> (r: bool)
        ensures
            r == spec_valid_patch(self@, promo@),
    {
        match validate_patch(self, promo) {
            Ok(()) => true,
            Err(_) => false,
        }
    }
}

/// The record a valid patch produces: present fields replace the stored
/// ones, absent fields are kept; identity, mode, codes, redemptions, likes,
/// comments and the tally never change.
pub open spec fn spec_patched(cur: PromoView, p: PatchPromoView) -> PromoView {
    PromoView {
        description: match p.description {
            Some(d) => d,
            None => cur.description,
        },
        image_url: match p.image_url {
            Some(u) => Some(u),
            None => cur.image_url,
        },
        target: match p.target {
            Some(t) => t,
            None => cur.target,
        },
        max_count: match p.max_count {
            Some(m) => m,
            None => cur.max_count,
        },
        active_from: spec_effective_from(p, cur),
        active_until: spec_effective_until(p, cur),
        ..cur
    }
}

impl Promo {
    /// Applies a validated patch, producing the updated record. Validity is
    /// established by `validate_patch` on this same record.
    pub fn apply_patch(self, patch: PatchPromo) -> (r: Promo)
        requires
            spec_valid_patch(patch@, self@),
        ensures
            r@ == spec_patched(self@, patch@),
            promo_wf(self@) ==> promo_wf(r@),
    {
        let active_from = match patch.active_from {
            Some(ref s) => parse_date(s.as_str()),
            None => self.active_from,
        };
        let active_until = match patch.active_until {
            Some(ref s) => parse_date(s.as_str()),
            None => self.active_until,
        };
        let r = Promo {
            description: match patch.description {
                Some(d) => d,
                None => self.description,
            },
            image_url: match patch.image_url {
                Some(u) => Some(u),
                None => self.image_url,
            },
            target: match patch.target {
                Some(t) => t,
                None => self.target,
            },
            max_count: match patch.max_count {
                Some(m) => m,
                None => self.max_count,
            },
            active_from,
            active_until,
            ..self
        };
        proof {
            assert(r@ =~= spec_patched(self@, patch@));
        }
        r
    }
}

/// An empty patch is valid against any well-formed record and leaves every
/// field unchanged.
pub proof fn lemma_noop_patch(cur: PromoView, p: PatchPromoView)
    requires
        promo_wf(cur),
        p.description is None,
        p.image_url is None,
        p.target is None,
        p.max_count is None,
        p.active_from is None,
        p.active_until is None,
        p.mode is None,
        p.promo_common is None,
        p.promo_unique is None,
    ensures
        spec_valid_patch(p, cur),
        spec_patched(cur, p) == cur,
{
    assert(spec_patched(cur, p) =~= cur);
}

} // verus!
