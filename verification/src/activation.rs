//! The activation engine: one atomic redemption attempt against one promo
//! record. The checks run in a fixed order, the pool is consumed LIFO, and
//! the whole mutation is all-or-nothing: on any rejection the record is
//! untouched. The caller runs each attempt inside the store's per-promo
//! exclusive section, which is what makes the ceiling hold under concurrent
//! requests.

use vstd::prelude::*;

use crate::eligibility::is_eligible;
use crate::eligibility::spec_eligible;
use crate::promo::Country;
use crate::promo::CountryView;
use crate::promo::Promo;
use crate::promo::PromoMode;
use crate::promo::PromoView;
use crate::promo::countries_view;
use crate::promo::promo_wf;
use crate::promo::seq_unique;
use crate::promo::tally_wf;
use crate::text::contains_str;
use crate::text::eq_ignore_case;
use crate::user::UserTargetSettings;
use crate::user::UserTargetSettingsView;

verus! {

/// Why a redemption attempt was rejected. Each rejection is terminal for
/// the attempt and leaves the record untouched; the engine never downgrades
/// one kind into another.
#[derive(Clone, Copy, PartialEq, Eq, Structural, Debug)]
pub enum ActivationError {
    /// No promo with the given identifier exists.
    NotFound,
    /// The company switched the promo off.
    NotActive,
    /// Today lies outside the activation window.
    OutsideWindow,
    /// The ceiling is reached, or the code pool is empty.
    Exhausted,
    /// The user already redeemed this promo.
    AlreadyRedeemed,
    /// The user does not satisfy the promo's target.
    NotEligible,
    /// The requested code is not in the pool.
    CodeMismatch,
}

/// Whether today lies inside the promo's activation window; an absent bound
/// does not restrict.
pub open spec fn spec_in_window(p: PromoView, today: i64) -> bool {
    &&& (match p.active_from {
        Some(f) => f <= today,
        None => true,
    })
    &&& (match p.active_until {
        Some(u) => today <= u,
        None => true,
    })
}

/// The model of the optional requested code.
pub open spec fn opt_ref_view(o: Option<&String>) -> Option<Seq<char>> {
    match o {
        Some(s) => Some(s@),
        None => None,
    }
}

/// The first rule a redemption attempt breaks, or None when it succeeds,
/// in the order the engine checks them: the promo must be switched on,
/// today must lie in the window, the ceiling must not be reached, the user
/// must not have redeemed before and must satisfy the target; for UNIQUE
/// mode the pool must be non-empty and a requested code, when given, must
/// be in the pool.
pub open spec fn spec_activation_error(
    p: PromoView,
    email: Seq<char>,
    u: UserTargetSettingsView,
    requested: Option<Seq<char>>,
    today: i64,
) -> Option<ActivationError> {
    if !p.active {
        Some(ActivationError::NotActive)
    } else if !spec_in_window(p, today) {
        Some(ActivationError::OutsideWindow)
    } else if p.activated_users.len() >= p.max_count {
        Some(ActivationError::Exhausted)
    } else if p.activated_users.contains(email) {
        Some(ActivationError::AlreadyRedeemed)
    } else if !spec_eligible(p.target, u) {
        Some(ActivationError::NotEligible)
    } else if p.mode is Unique && p.promo_unique.len() == 0 {
        Some(ActivationError::Exhausted)
    } else if p.mode is Unique && requested is Some && !p.promo_unique.contains(
        requested->Some_0,
    ) {
        Some(ActivationError::CodeMismatch)
    } else {
        None
    }
}

/// The text a successful redemption hands out: the last code of the pool
/// for UNIQUE mode, the shared code for COMMON mode.
pub open spec fn spec_redeemed_text(p: PromoView) -> Seq<char> {
    match p.mode {
        PromoMode::Unique => p.promo_unique.last(),
        PromoMode::Common => p.promo_common->Some_0,
    }
}

/// The tally after one redemption from the given country: the first entry
/// with that name (up to ASCII case) is incremented, or a new entry with
/// count one is appended.
pub open spec fn spec_bump_tally(t: Seq<CountryView>, c: Seq<char>) -> Seq<CountryView>
    decreases t.len(),
{
    if t.len() == 0 {
        seq![CountryView { name: c, activate_count: 1 }]
    } else if eq_ignore_case(t[0].name, c) {
        seq![
            CountryView { name: t[0].name, activate_count: (t[0].activate_count + 1) as i32 },
        ] + t.drop_first()
    } else {
        seq![t[0]] + spec_bump_tally(t.drop_first(), c)
    }
}

/// The record after a successful redemption: the user joins the redeemed
/// set, the country tally is bumped, and for UNIQUE mode the last code
/// leaves the pool for good. Nothing else changes.
pub open spec fn spec_activated(
    p: PromoView,
    email: Seq<char>,
    u: UserTargetSettingsView,
) -> PromoView {
    PromoView {
        promo_unique: if p.mode is Unique {
            p.promo_unique.drop_last()
        } else {
            p.promo_unique
        },
        activated_users: p.activated_users.push(email),
        countries: spec_bump_tally(p.countries, u.country),
        ..p
    }
}

proof fn lemma_bump_skip(t: Seq<CountryView>, c: Seq<char>, i: int)
    requires
        0 <= i <= t.len(),
        forall|k: int| 0 <= k < i ==> !eq_ignore_case((#[trigger] t[k]).name, c),
    ensures
        spec_bump_tally(t, c) == t.subrange(0, i) + spec_bump_tally(
            t.subrange(i, t.len() as int),
            c,
        ),
    decreases i,
{
    if i == 0 {
        assert(t.subrange(0, t.len() as int) =~= t);
        assert(t.subrange(0, 0) + spec_bump_tally(t.subrange(0, t.len() as int), c)
            =~= spec_bump_tally(t, c));
    } else {
        assert(!eq_ignore_case(t[0].name, c));
        assert(t.len() > 0);
        let rest = t.drop_first();
        assert(spec_bump_tally(t, c) == seq![t[0]] + spec_bump_tally(rest, c));
        assert(forall|k: int| 0 <= k < i - 1 ==> !eq_ignore_case((#[trigger] rest[k]).name, c)) by {
            assert(forall|k: int|
                0 <= k < i - 1 ==> (#[trigger] rest[k]) == t[k + 1]);
        }
        lemma_bump_skip(rest, c, i - 1);
        assert(rest.subrange(0, i - 1) =~= t.subrange(1, i));
        assert(rest.subrange(i - 1, rest.len() as int) =~= t.subrange(i, t.len() as int));
        assert(seq![t[0]] + (t.subrange(1, i) + spec_bump_tally(t.subrange(i, t.len() as int), c))
            =~= t.subrange(0, i) + spec_bump_tally(t.subrange(i, t.len() as int), c));
    }
}

/// Bumping the tally preserves its well-formedness at one more redemption,
/// and grows it by at most one entry.
proof fn lemma_bump_tally_wf(t: Seq<CountryView>, c: Seq<char>, cap: int)
    requires
        tally_wf(t, cap),
        0 <= cap < i32::MAX,
    ensures
        tally_wf(spec_bump_tally(t, c), cap + 1),
    decreases t.len(),
{
    if t.len() == 0 {
    } else if eq_ignore_case(t[0].name, c) {
        let b = spec_bump_tally(t, c);
        assert(forall|k: int| 1 <= k < b.len() ==> (#[trigger] b[k]) == t[k]);
        assert(0 <= t[0].activate_count <= cap);
        assert(b[0].activate_count == t[0].activate_count + 1);
        assert(b[0].name == t[0].name);
    } else {
        let rest = t.drop_first();
        assert(tally_wf(rest, cap)) by {
            assert(forall|k: int| 0 <= k < rest.len() ==> (#[trigger] rest[k]) == t[k + 1]);
        }
        lemma_bump_tally_wf(rest, c, cap);
        let br = spec_bump_tally(rest, c);
        let b = spec_bump_tally(t, c);
        assert(b == seq![t[0]] + br);
        assert(forall|k: int| 1 <= k < b.len() ==> (#[trigger] b[k]) == br[k - 1]);
        // the head still clashes with no later entry: every later name is
        // either an old name or the new country, which the head does not
        // match
        assert forall|k: int| 1 <= k < b.len() implies !eq_ignore_case(b[0].name, b[k].name) by {
            lemma_bump_names(rest, c, k - 1);
            if br[k - 1].name == c {
                lemma_eq_ignore_case_sym(t[0].name, c);
            } else {
                let j = choose|j: int| 0 <= j < rest.len() && (#[trigger] rest[j]).name == br[k
                    - 1].name;
                assert(t[j + 1].name == br[k - 1].name);
            }
        }
    }
}

/// Every name in a bumped tally is an old name or the new country.
proof fn lemma_bump_names(t: Seq<CountryView>, c: Seq<char>, k: int)
    requires
        0 <= k < spec_bump_tally(t, c).len(),
    ensures
        spec_bump_tally(t, c)[k].name == c || exists|j: int|
            0 <= j < t.len() && (#[trigger] t[j]).name == spec_bump_tally(t, c)[k].name,
    decreases t.len(),
{
    if t.len() == 0 {
    } else if eq_ignore_case(t[0].name, c) {
        if k == 0 {
            assert(t[0].name == spec_bump_tally(t, c)[k].name);
        } else {
            assert(t[k].name == spec_bump_tally(t, c)[k].name);
        }
    } else {
        if k == 0 {
            assert(t[0].name == spec_bump_tally(t, c)[k].name);
        } else {
            let rest = t.drop_first();
            lemma_bump_names(rest, c, k - 1);
            assert(spec_bump_tally(t, c)[k] == spec_bump_tally(rest, c)[k - 1]);
            if spec_bump_tally(rest, c)[k - 1].name != c {
                let j = choose|j: int|
                    0 <= j < rest.len() && (#[trigger] rest[j]).name == spec_bump_tally(
                        rest,
                        c,
                    )[k - 1].name;
                assert(t[j + 1].name == spec_bump_tally(t, c)[k].name);
            }
        }
    }
}

/// Case-insensitive equality is symmetric.
proof fn lemma_eq_ignore_case_sym(a: Seq<char>, b: Seq<char>)
    ensures
        eq_ignore_case(a, b) == eq_ignore_case(b, a),
{
}

/// Increments the tally entry for the given country, or appends one. The
/// cap bound keeps the increment from overflowing.
fn bump_tally(t: &mut Vec<Country>, c: &str, Ghost(cap): Ghost<int>)
    requires
        tally_wf(countries_view(old(t)@), cap),
        cap < i32::MAX,
    ensures
        countries_view(final(t)@) == spec_bump_tally(countries_view(old(t)@), c@),
{
    let ghost t0 = countries_view(old(t)@);
    let mut i: usize = 0;
    while i < t.len()
        invariant
            t@ == old(t)@,
            t0 == countries_view(t@),
            i <= t@.len(),
            tally_wf(t0, cap),
            cap < i32::MAX,
            forall|k: int| 0 <= k < i ==> !eq_ignore_case((#[trigger] t0[k]).name, c@),
        decreases t@.len() - i,
    {
        if crate::text::str_eq_ignore_case(t[i].name.as_str(), c) {
            proof {
                lemma_bump_skip(t0, c@, i as int);
                assert(t0.subrange(i as int, t0.len() as int)[0] == t0[i as int]);
            }
            let count = t[i].activate_count;
            let name = t[i].name.clone();
            t.set(i, Country { name, activate_count: count + 1 });
            proof {
                let tail = t0.subrange(i as int, t0.len() as int);
                assert(spec_bump_tally(tail, c@) =~= seq![
                    CountryView { name: t0[i as int].name, activate_count: (t0[i as int].activate_count + 1) as i32 },
                ] + tail.drop_first());
                assert(countries_view(t@) =~= t0.subrange(0, i as int) + spec_bump_tally(
                    tail,
                    c@,
                ));
            }
            return ;
        }
        i += 1;
    }
    proof {
        lemma_bump_skip(t0, c@, t0.len() as int);
        assert(t0.subrange(0, t0.len() as int) =~= t0);
        assert(t0.subrange(t0.len() as int, t0.len() as int) =~= Seq::<CountryView>::empty());
    }
    t.push(Country { name: c.to_owned(), activate_count: 1 });
    proof {
        assert(countries_view(t@) =~= t0 + seq![CountryView { name: c@, activate_count: 1 }]);
        assert(spec_bump_tally(Seq::<CountryView>::empty(), c@) =~= seq![
            CountryView { name: c@, activate_count: 1 },
        ]);
    }
}

/// One atomic redemption attempt. On rejection the record is exactly as it
/// was; on success the user joins the redeemed set, the tally is bumped,
/// and for UNIQUE mode the last code of the pool is handed out and removed
/// for good. Well-formedness is preserved either way.
pub fn activate(
    p: &mut Promo,
    email: String,
    settings: &UserTargetSettings,
    requested: Option<&String>,
    today: i64,
) -> (r: Result<String, ActivationError>)
    requires
        promo_wf(old(p)@),
    ensures
        promo_wf(final(p)@),
        (match spec_activation_error(old(p)@, email@, settings@, opt_ref_view(requested), today) {
            Some(e) => r == Err::<String, ActivationError>(e) && final(p)@ == old(p)@,
            None => {
                &&& (r matches Ok(text) && text@ == spec_redeemed_text(old(p)@))
                &&& final(p)@ == spec_activated(old(p)@, email@, settings@)
            },
        }),
{
    if !p.active {
        return Err(ActivationError::NotActive);
    }
    if let Some(f) = p.active_from {
        if today < f {
            return Err(ActivationError::OutsideWindow);
        }
    }
    if let Some(u) = p.active_until {
        if today > u {
            return Err(ActivationError::OutsideWindow);
        }
    }
    if p.activated_users.len() >= (p.max_count as usize) {
        return Err(ActivationError::Exhausted);
    }
    if contains_str(&p.activated_users, email.as_str()) {
        return Err(ActivationError::AlreadyRedeemed);
    }
    if !is_eligible(&p.target, settings) {
        return Err(ActivationError::NotEligible);
    }
    let text: String = match p.mode {
        PromoMode::Unique => {
            if p.promo_unique.len() == 0 {
                return Err(ActivationError::Exhausted);
            }
            if let Some(req) = requested {
                if !contains_str(&p.promo_unique, req.as_str()) {
                    return Err(ActivationError::CodeMismatch);
                }
            }
            match p.promo_unique.pop() {
                Some(code) => code,
                None => unreached(),
            }
        },
        PromoMode::Common => p.promo_common.as_ref().unwrap().clone(),
    };
    p.activated_users.push(email);
    proof {
        assert(countries_view(p.countries@) == old(p)@.countries);
        assert(old(p)@.activated_users.len() < old(p)@.max_count <= i32::MAX);
    }
    bump_tally(&mut p.countries, settings.country.as_str(), Ghost(old(p)@.activated_users.len() as int));
    proof {
        let pv = old(p)@;
        assert(crate::text::views_of(p.activated_users@) =~= pv.activated_users.push(email@));
        assert(p@ =~= spec_activated(pv, email@, settings@));
        lemma_activation_step(pv, email@, settings@, opt_ref_view(requested), today);
    }
    Ok(text)
}

/// A successful redemption preserves well-formedness, grows the redeemed
/// set by exactly the redeeming user, shrinks a UNIQUE pool by exactly one,
/// and touches neither ceiling, mode, switch nor window.
pub proof fn lemma_activation_step(
    p: PromoView,
    email: Seq<char>,
    u: UserTargetSettingsView,
    requested: Option<Seq<char>>,
    today: i64,
)
    requires
        promo_wf(p),
        spec_activation_error(p, email, u, requested, today) is None,
    ensures
        promo_wf(spec_activated(p, email, u)),
        spec_activated(p, email, u).activated_users == p.activated_users.push(email),
        spec_activated(p, email, u).activated_users.len() == p.activated_users.len() + 1,
        spec_activated(p, email, u).activated_users.contains(email),
        spec_activated(p, email, u).max_count == p.max_count,
        spec_activated(p, email, u).mode == p.mode,
        spec_activated(p, email, u).active == p.active,
        spec_activated(p, email, u).active_from == p.active_from,
        spec_activated(p, email, u).active_until == p.active_until,
        spec_activated(p, email, u).target == p.target,
        spec_activated(p, email, u).promo_common == p.promo_common,
        p.mode is Unique ==> spec_activated(p, email, u).promo_unique == p.promo_unique.drop_last()
            && spec_activated(p, email, u).promo_unique.len() == p.promo_unique.len() - 1,
        p.mode is Common ==> spec_activated(p, email, u).promo_unique == p.promo_unique,
{
    let av = spec_activated(p, email, u);
    let na = p.activated_users.push(email);
    assert(na[na.len() - 1] == email);
    assert(na.contains(email));
    lemma_bump_tally_wf(p.countries, u.country, p.activated_users.len() as int);
    assert(seq_unique(av.activated_users)) by {
        assert forall|i: int, j: int| 0 <= i < j < na.len() implies na[i] != na[j] by {
            if j < na.len() - 1 {
                assert(na[i] == p.activated_users[i] && na[j] == p.activated_users[j]);
            } else {
                assert(na[j] == email);
                assert(na[i] == p.activated_users[i]);
                assert(!p.activated_users.contains(email));
            }
        }
    }
    assert(promo_wf(av));
}

/// A request aimed at one promo: the redeeming user's email, demographic
/// attributes, and the optionally requested code.
pub struct ActivationRequest {
    pub email: Seq<char>,
    pub user: UserTargetSettingsView,
    pub requested: Option<Seq<char>>,
}

/// The record after a sequence of redemption attempts applied in order;
/// rejected attempts leave it unchanged.
pub open spec fn spec_run(p: PromoView, rs: Seq<ActivationRequest>, today: i64) -> PromoView
    decreases rs.len(),
{
    if rs.len() == 0 {
        p
    } else {
        let first = rs[0];
        let p1 = if spec_activation_error(p, first.email, first.user, first.requested, today)
            is None {
            spec_activated(p, first.email, first.user)
        } else {
            p
        };
        spec_run(p1, rs.drop_first(), today)
    }
}

/// How many attempts of a sequence succeed.
pub open spec fn spec_success_count(p: PromoView, rs: Seq<ActivationRequest>, today: i64) -> nat
    decreases rs.len(),
{
    if rs.len() == 0 {
        0
    } else {
        let first = rs[0];
        if spec_activation_error(p, first.email, first.user, first.requested, today) is None {
            1 + spec_success_count(
                spec_activated(p, first.email, first.user),
                rs.drop_first(),
                today,
            )
        } else {
            spec_success_count(p, rs.drop_first(), today)
        }
    }
}

/// Capacity: over any sequence of redemption attempts against a well-formed
/// promo, at most `max_count` minus the redemptions already made succeed;
/// the record stays well-formed and its redeemed count grows by exactly the
/// number of successes.
pub proof fn lemma_capacity(p: PromoView, rs: Seq<ActivationRequest>, today: i64)
    requires
        promo_wf(p),
    ensures
        promo_wf(spec_run(p, rs, today)),
        spec_run(p, rs, today).activated_users.len() == p.activated_users.len()
            + spec_success_count(p, rs, today),
        spec_success_count(p, rs, today) + p.activated_users.len() <= p.max_count,
        spec_run(p, rs, today).max_count == p.max_count,
    decreases rs.len(),
{
    if rs.len() > 0 {
        let first = rs[0];
        if spec_activation_error(p, first.email, first.user, first.requested, today) is None {
            lemma_activation_step(p, first.email, first.user, first.requested, today);
            lemma_capacity(spec_activated(p, first.email, first.user), rs.drop_first(), today);
        } else {
            lemma_capacity(p, rs.drop_first(), today);
        }
    }
}

/// At the ceiling, every further attempt on a promo that is switched on and
/// inside its window is rejected as Exhausted.
pub proof fn lemma_exhausted_at_capacity(
    p: PromoView,
    email: Seq<char>,
    u: UserTargetSettingsView,
    requested: Option<Seq<char>>,
    today: i64,
)
    requires
        promo_wf(p),
        p.activated_users.len() == p.max_count,
        p.active,
        spec_in_window(p, today),
    ensures
        spec_activation_error(p, email, u, requested, today) == Some(
            ActivationError::Exhausted,
        ),
{
}

/// Exactly once per user: a user who already redeemed is always rejected
/// and the record never changes for them; the rejection is AlreadyRedeemed
/// whenever the promo is on, inside its window and below the ceiling. A
/// success puts the user into the redeemed set.
pub proof fn lemma_exactly_once(
    p: PromoView,
    email: Seq<char>,
    u: UserTargetSettingsView,
    requested: Option<Seq<char>>,
    today: i64,
)
    requires
        promo_wf(p),
    ensures
        p.activated_users.contains(email) ==> spec_activation_error(p, email, u, requested, today)
            is Some,
        p.activated_users.contains(email) && p.active && spec_in_window(p, today)
            && p.activated_users.len() < p.max_count ==> spec_activation_error(
            p,
            email,
            u,
            requested,
            today,
        ) == Some(ActivationError::AlreadyRedeemed),
        spec_activation_error(p, email, u, requested, today) is None ==> spec_activated(
            p,
            email,
            u,
        ).activated_users.contains(email),
{
    if spec_activation_error(p, email, u, requested, today) is None {
        lemma_activation_step(p, email, u, requested, today);
    }
}

/// Unique-code conservation: over any sequence of attempts on a UNIQUE
/// promo, pool size plus redeemed-user count never changes; the pool left
/// over is a prefix of the initial pool, so no code is ever reintroduced
/// or reordered, and a distinct pool stays distinct.
pub proof fn lemma_code_conservation(p: PromoView, rs: Seq<ActivationRequest>, today: i64)
    requires
        promo_wf(p),
        p.mode is Unique,
    ensures
        promo_wf(spec_run(p, rs, today)),
        spec_run(p, rs, today).mode is Unique,
        spec_run(p, rs, today).promo_unique.len() + spec_run(p, rs, today).activated_users.len()
            == p.promo_unique.len() + p.activated_users.len(),
        spec_run(p, rs, today).promo_unique == p.promo_unique.subrange(
            0,
            spec_run(p, rs, today).promo_unique.len() as int,
        ),
        seq_unique(p.promo_unique) ==> seq_unique(spec_run(p, rs, today).promo_unique),
    decreases rs.len(),
{
    if rs.len() == 0 {
        assert(p.promo_unique.subrange(0, p.promo_unique.len() as int) =~= p.promo_unique);
    } else {
        let first = rs[0];
        if spec_activation_error(p, first.email, first.user, first.requested, today) is None {
            lemma_activation_step(p, first.email, first.user, first.requested, today);
            let p1 = spec_activated(p, first.email, first.user);
            assert(seq_unique(p.promo_unique) ==> seq_unique(p1.promo_unique)) by {
                if seq_unique(p.promo_unique) {
                    assert(forall|i: int|
                        0 <= i < p1.promo_unique.len() ==> (#[trigger] p1.promo_unique[i])
                            == p.promo_unique[i]);
                }
            }
            lemma_code_conservation(p1, rs.drop_first(), today);
            lemma_capacity(p1, rs.drop_first(), today);
            let q = spec_run(p, rs, today);
            assert(q.activated_users.len() >= p1.activated_users.len());
            assert(q.promo_unique.len() <= p1.promo_unique.len());
            assert(q.promo_unique =~= p.promo_unique.subrange(0, q.promo_unique.len() as int))
                by {
                assert(q.promo_unique == p1.promo_unique.subrange(
                    0,
                    q.promo_unique.len() as int,
                ));
                assert forall|i: int| 0 <= i < q.promo_unique.len() implies p1.promo_unique[i]
                    == (#[trigger] p.promo_unique[i]) by {
                    assert(p1.promo_unique == p.promo_unique.drop_last());
                    assert(p1.promo_unique[i] == p.promo_unique[i]);
                }
            }
        } else {
            lemma_code_conservation(p, rs.drop_first(), today);
        }
    }
}

/// No code is issued twice: a success on a UNIQUE promo with distinct codes
/// hands out the pool's last code, which is gone from the pool afterwards.
pub proof fn lemma_no_reissue(
    p: PromoView,
    email: Seq<char>,
    u: UserTargetSettingsView,
    requested: Option<Seq<char>>,
    today: i64,
)
    requires
        promo_wf(p),
        p.mode is Unique,
        seq_unique(p.promo_unique),
        spec_activation_error(p, email, u, requested, today) is None,
    ensures
        p.promo_unique.contains(spec_redeemed_text(p)),
        !spec_activated(p, email, u).promo_unique.contains(spec_redeemed_text(p)),
{
    let last = p.promo_unique.last();
    assert(p.promo_unique[p.promo_unique.len() - 1] == last);
    assert(p.promo_unique.contains(last));
    let rest = p.promo_unique.drop_last();
    assert forall|i: int| 0 <= i < rest.len() implies rest[i] != last by {
        assert(p.promo_unique[i] == rest[i]);
    }
    if spec_activated(p, email, u).promo_unique.contains(last) {
        let i = choose|i: int| 0 <= i < rest.len() && rest[i] == last;
        assert(false);
    }
}

/// Window gating: with the switch on and the start date still in the
/// future, an attempt is rejected as OutsideWindow; the identical request
/// at a day inside the window passes the window gate, and succeeds whenever
/// the remaining rules pass.
pub proof fn lemma_window_gating(
    p: PromoView,
    email: Seq<char>,
    u: UserTargetSettingsView,
    requested: Option<Seq<char>>,
    t_early: i64,
    t_open: i64,
)
    requires
        promo_wf(p),
        p.active,
        (match p.active_from {
            Some(f) => t_early < f,
            None => false,
        }),
        spec_in_window(p, t_open),
    ensures
        spec_activation_error(p, email, u, requested, t_early) == Some(
            ActivationError::OutsideWindow,
        ),
        (p.activated_users.len() < p.max_count && !p.activated_users.contains(email)
            && spec_eligible(p.target, u) && (p.mode is Unique ==> p.promo_unique.len() > 0 && (
        match requested {
            Some(c) => p.promo_unique.contains(c),
            None => true,
        }))) ==> spec_activation_error(p, email, u, requested, t_open) is None,
{
}

} // verus!
