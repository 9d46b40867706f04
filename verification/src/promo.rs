//! The promo record and its read models. A promo is owned by a company and
//! carries either one shared code (COMMON) or a finite pool of distinct codes
//! (UNIQUE); the record also holds the set of users who redeemed it and a
//! per-country redemption tally for the statistics view.

use vstd::prelude::*;

use crate::target::Target;
use crate::target::TargetView;
use crate::text::clone_opt_string;
use crate::text::clone_string_vec;
use crate::text::eq_ignore_case;
use crate::text::opt_str_view;
use crate::text::views_of;

verus! {

/// How a promo issues codes: one shared code, or a pool of distinct codes
/// consumed one per redemption. Immutable after creation.
#[derive(Clone, Copy, PartialEq, Eq, Structural, Debug)]
pub enum PromoMode {
    Common,
    Unique,
}

/// One entry of the per-country redemption tally.
#[derive(Debug)]
pub struct Country {
    pub name: String,
    pub activate_count: i32,
}

/// The mathematical model of a tally entry.
#[verifier::ext_equal]
pub struct CountryView {
    pub name: Seq<char>,
    pub activate_count: i32,
}

impl View for Country {
    type V = CountryView;

    open spec fn view(&self) -> CountryView {
        CountryView { name: self.name@, activate_count: self.activate_count }
    }
}

/// The author shown beside a comment.
#[derive(Debug)]
pub struct CommentAuthor {
    pub name: String,
    pub surname: String,
    pub email: String,
    pub avatar_url: Option<String>,
}

/// The mathematical model of a comment author.
#[verifier::ext_equal]
pub struct CommentAuthorView {
    pub name: Seq<char>,
    pub surname: Seq<char>,
    pub email: Seq<char>,
    pub avatar_url: Option<Seq<char>>,
}

impl View for CommentAuthor {
    type V = CommentAuthorView;

    open spec fn view(&self) -> CommentAuthorView {
        CommentAuthorView {
            name: self.name@,
            surname: self.surname@,
            email: self.email@,
            avatar_url: opt_str_view(self.avatar_url),
        }
    }
}

/// A user comment on a promo.
#[derive(Debug)]
pub struct Comment {
    pub id: String,
    pub text: String,
    pub date: String,
    pub author: CommentAuthor,
}

/// The mathematical model of a comment.
#[verifier::ext_equal]
pub struct CommentView {
    pub id: Seq<char>,
    pub text: Seq<char>,
    pub date: Seq<char>,
    pub author: CommentAuthorView,
}

impl View for Comment {
    type V = CommentView;

    open spec fn view(&self) -> CommentView {
        CommentView { id: self.id@, text: self.text@, date: self.date@, author: self.author@ }
    }
}

/// The models of a promo vector's entries.
pub open spec fn promos_view(v: Seq<Promo>) -> Seq<PromoView> {
    v.map_values(|p: Promo| p@)
}

/// The models of a read-model vector's entries.
pub open spec fn ro_views(v: Seq<PromoReadOnly>) -> Seq<PromoReadOnlyView> {
    v.map_values(|p: PromoReadOnly| p@)
}

/// The models of a feed-entry vector's entries.
pub open spec fn fu_views(v: Seq<PromoForUser>) -> Seq<PromoForUserView> {
    v.map_values(|p: PromoForUser| p@)
}

/// The models of a tally vector's entries.
pub open spec fn countries_view(v: Seq<Country>) -> Seq<CountryView> {
    v.map_values(|c: Country| c@)
}

/// The models of a comment vector's entries.
pub open spec fn comments_view(v: Seq<Comment>) -> Seq<CommentView> {
    v.map_values(|c: Comment| c@)
}

/// The authoritative promo record. Calendar dates are day numbers and
/// `create_date` is a timestamp, both supplied by the caller's clock.
/// Redemption and like membership are sets kept as duplicate-free vectors;
/// counts shown to callers are derived from them, never stored separately.
#[derive(Debug)]
pub struct Promo {
    pub description: String,
    pub image_url: Option<String>,
    pub target: Target,
    pub max_count: i32,
    pub create_date: i64,
    pub active_from: Option<i64>,
    pub active_until: Option<i64>,
    pub mode: PromoMode,
    pub promo_common: Option<String>,
    pub promo_unique: Vec<String>,
    pub promo_id: String,
    pub company_id: String,
    pub company_name: String,
    pub likes: Vec<String>,
    pub active: bool,
    pub countries: Vec<Country>,
    pub comments: Vec<Comment>,
    pub activated_users: Vec<String>,
}

/// The mathematical model of a promo record.
#[verifier::ext_equal]
pub struct PromoView {
    pub description: Seq<char>,
    pub image_url: Option<Seq<char>>,
    pub target: TargetView,
    pub max_count: i32,
    pub create_date: i64,
    pub active_from: Option<i64>,
    pub active_until: Option<i64>,
    pub mode: PromoMode,
    pub promo_common: Option<Seq<char>>,
    pub promo_unique: Seq<Seq<char>>,
    pub promo_id: Seq<char>,
    pub company_id: Seq<char>,
    pub company_name: Seq<char>,
    pub likes: Seq<Seq<char>>,
    pub active: bool,
    pub countries: Seq<CountryView>,
    pub comments: Seq<CommentView>,
    pub activated_users: Seq<Seq<char>>,
}

impl View for Promo {
    type V = PromoView;

    open spec fn view(&self) -> PromoView {
        PromoView {
            description: self.description@,
            image_url: opt_str_view(self.image_url),
            target: self.target@,
            max_count: self.max_count,
            create_date: self.create_date,
            active_from: self.active_from,
            active_until: self.active_until,
            mode: self.mode,
            promo_common: opt_str_view(self.promo_common),
            promo_unique: views_of(self.promo_unique@),
            promo_id: self.promo_id@,
            company_id: self.company_id@,
            company_name: self.company_name@,
            likes: views_of(self.likes@),
            active: self.active,
            countries: countries_view(self.countries@),
            comments: comments_view(self.comments@),
            activated_users: views_of(self.activated_users@),
        }
    }
}

/// Pairwise-distinct character sequences.
pub open spec fn seq_unique(v: Seq<Seq<char>>) -> bool {
    forall|i: int, j: int| 0 <= i < j < v.len() ==> v[i] != v[j]
}

/// Well-formedness of a redemption tally: counts within [0, cap] and country
/// names pairwise distinct up to ASCII case.
pub open spec fn tally_wf(t: Seq<CountryView>, cap: int) -> bool {
    &&& forall|i: int| 0 <= i < t.len() ==> 0 <= (#[trigger] t[i]).activate_count <= cap
    &&& forall|i: int, j: int|
        0 <= i < j < t.len() ==> !eq_ignore_case((#[trigger] t[i]).name, (#[trigger] t[j]).name)
}

/// The record invariant protected by every operation of the store:
/// redemptions never exceed the advertised ceiling, a user redeems at most
/// once, the code shape matches the mode, the window is ordered, and the
/// country tally is bounded by the redemption count.
pub open spec fn promo_wf(p: PromoView) -> bool {
    &&& 1 <= p.max_count
    &&& p.activated_users.len() <= p.max_count
    &&& seq_unique(p.activated_users)
    &&& seq_unique(p.likes)
    &&& (p.mode is Common ==> p.promo_common is Some && p.promo_unique.len() == 0)
    &&& (p.mode is Unique ==> p.promo_common is None)
    &&& (match (p.active_from, p.active_until) {
        (Some(f), Some(u)) => f <= u,
        _ => true,
    })
    &&& tally_wf(p.countries, p.activated_users.len() as int)
}

/// The company-facing read model of a promo.
#[derive(Debug)]
pub struct PromoReadOnly {
    pub description: String,
    pub image_url: Option<String>,
    pub target: Target,
    pub max_count: i32,
    pub active_from: Option<i64>,
    pub active_until: Option<i64>,
    pub mode: PromoMode,
    pub promo_common: Option<String>,
    pub promo_unique: Vec<String>,
    pub promo_id: String,
    pub company_id: String,
    pub company_name: String,
    pub like_count: usize,
    pub used_count: usize,
    pub active: bool,
}

/// The mathematical model of the company-facing read model.
#[verifier::ext_equal]
pub struct PromoReadOnlyView {
    pub description: Seq<char>,
    pub image_url: Option<Seq<char>>,
    pub target: TargetView,
    pub max_count: i32,
    pub active_from: Option<i64>,
    pub active_until: Option<i64>,
    pub mode: PromoMode,
    pub promo_common: Option<Seq<char>>,
    pub promo_unique: Seq<Seq<char>>,
    pub promo_id: Seq<char>,
    pub company_id: Seq<char>,
    pub company_name: Seq<char>,
    pub like_count: usize,
    pub used_count: usize,
    pub active: bool,
}

impl View for PromoReadOnly {
    type V = PromoReadOnlyView;

    open spec fn view(&self) -> PromoReadOnlyView {
        PromoReadOnlyView {
            description: self.description@,
            image_url: opt_str_view(self.image_url),
            target: self.target@,
            max_count: self.max_count,
            active_from: self.active_from,
            active_until: self.active_until,
            mode: self.mode,
            promo_common: opt_str_view(self.promo_common),
            promo_unique: views_of(self.promo_unique@),
            promo_id: self.promo_id@,
            company_id: self.company_id@,
            company_name: self.company_name@,
            like_count: self.like_count,
            used_count: self.used_count,
            active: self.active,
        }
    }
}

/// The user-facing read model shown in the feed.
#[derive(Debug)]
pub struct PromoForUser {
    pub promo_id: String,
    pub company_id: String,
    pub company_name: String,
    pub description: String,
    pub image_url: Option<String>,
    pub active: bool,
    pub is_activated_by_user: bool,
    pub like_count: usize,
    pub is_liked_by_user: bool,
    pub comment_count: usize,
}

/// The mathematical model of the user-facing read model.
#[verifier::ext_equal]
pub struct PromoForUserView {
    pub promo_id: Seq<char>,
    pub company_id: Seq<char>,
    pub company_name: Seq<char>,
    pub description: Seq<char>,
    pub image_url: Option<Seq<char>>,
    pub active: bool,
    pub is_activated_by_user: bool,
    pub like_count: usize,
    pub is_liked_by_user: bool,
    pub comment_count: usize,
}

impl View for PromoForUser {
    type V = PromoForUserView;

    open spec fn view(&self) -> PromoForUserView {
        PromoForUserView {
            promo_id: self.promo_id@,
            company_id: self.company_id@,
            company_name: self.company_name@,
            description: self.description@,
            image_url: opt_str_view(self.image_url),
            active: self.active,
            is_activated_by_user: self.is_activated_by_user,
            like_count: self.like_count,
            is_liked_by_user: self.is_liked_by_user,
            comment_count: self.comment_count,
        }
    }
}

/// The statistics view: redemption count and the per-country tally.
#[derive(Debug)]
pub struct PromoStat {
    pub activate_count: usize,
    pub countries: Vec<Country>,
}

/// The mathematical model of the statistics view.
#[verifier::ext_equal]
pub struct PromoStatView {
    pub activate_count: usize,
    pub countries: Seq<CountryView>,
}

impl View for PromoStat {
    type V = PromoStatView;

    open spec fn view(&self) -> PromoStatView {
        PromoStatView { activate_count: self.activate_count, countries: countries_view(self.countries@) }
    }
}

/// What the company-facing read model shows of a promo record.
pub open spec fn spec_read_only(p: PromoView) -> PromoReadOnlyView {
    PromoReadOnlyView {
        description: p.description,
        image_url: p.image_url,
        target: p.target,
        max_count: p.max_count,
        active_from: p.active_from,
        active_until: p.active_until,
        mode: p.mode,
        promo_common: p.promo_common,
        promo_unique: p.promo_unique,
        promo_id: p.promo_id,
        company_id: p.company_id,
        company_name: p.company_name,
        like_count: p.likes.len() as usize,
        used_count: p.activated_users.len() as usize,
        active: p.active,
    }
}

/// What the user-facing read model shows of a promo record, for a given
/// user email.
pub open spec fn spec_user_view(p: PromoView, email: Seq<char>) -> PromoForUserView {
    PromoForUserView {
        promo_id: p.promo_id,
        company_id: p.company_id,
        company_name: p.company_name,
        description: p.description,
        image_url: p.image_url,
        active: p.active,
        is_activated_by_user: p.activated_users.contains(email),
        like_count: p.likes.len() as usize,
        is_liked_by_user: p.likes.contains(email),
        comment_count: p.comments.len() as usize,
    }
}

/// What the statistics view shows of a promo record.
pub open spec fn spec_stat(p: PromoView) -> PromoStatView {
    PromoStatView { activate_count: p.activated_users.len() as usize, countries: p.countries }
}

pub fn clone_countries(v: &Vec<Country>) -> (r: Vec<Country>)
    ensures
        countries_view(r@) == countries_view(v@),
{
    let mut r: Vec<Country> = Vec::new();
    let mut i: usize = 0;
    while i < v.len()
        invariant
            i <= v@.len(),
            r@.len() == i,
            forall|k: int| 0 <= k < i ==> (#[trigger] r@[k])@ == v@[k]@,
        decreases v@.len() - i,
    {
        let c = Country { name: v[i].name.clone(), activate_count: v[i].activate_count };
        proof {
            assert(c@ =~= v@[i as int]@);
        }
        r.push(c);
        i += 1;
    }
    proof {
        assert(countries_view(r@) =~= countries_view(v@));
    }
    r
}

impl Comment {
    /// An exact copy of the comment.
    pub fn duplicate(&self) -> (r: Comment)
        ensures
            r@ == self@,
    {
        let r = Comment {
            id: self.id.clone(),
            text: self.text.clone(),
            date: self.date.clone(),
            author: CommentAuthor {
                name: self.author.name.clone(),
                surname: self.author.surname.clone(),
                email: self.author.email.clone(),
                avatar_url: clone_opt_string(&self.author.avatar_url),
            },
        };
        proof {
            assert(r@ =~= self@);
        }
        r
    }
}

pub fn clone_comments(v: &Vec<Comment>) -> (r: Vec<Comment>)
    ensures
        comments_view(r@) == comments_view(v@),
{
    let mut r: Vec<Comment> = Vec::new();
    let mut i: usize = 0;
    while i < v.len()
        invariant
            i <= v@.len(),
            r@.len() == i,
            forall|k: int| 0 <= k < i ==> (#[trigger] r@[k])@ == v@[k]@,
        decreases v@.len() - i,
    {
        r.push(v[i].duplicate());
        i += 1;
    }
    proof {
        assert(comments_view(r@) =~= comments_view(v@));
    }
    r
}

impl Promo {
    /// An exact copy of the record.
    pub fn duplicate(&self) -> (r: Promo)
        ensures
            r@ == self@,
    {
        let r = Promo {
            description: self.description.clone(),
            image_url: clone_opt_string(&self.image_url),
            target: self.target.duplicate(),
            max_count: self.max_count,
            create_date: self.create_date,
            active_from: self.active_from,
            active_until: self.active_until,
            mode: self.mode,
            promo_common: clone_opt_string(&self.promo_common),
            promo_unique: clone_string_vec(&self.promo_unique),
            promo_id: self.promo_id.clone(),
            company_id: self.company_id.clone(),
            company_name: self.company_name.clone(),
            likes: clone_string_vec(&self.likes),
            active: self.active,
            countries: clone_countries(&self.countries),
            comments: clone_comments(&self.comments),
            activated_users: clone_string_vec(&self.activated_users),
        };
        proof {
            assert(r@ =~= self@);
        }
        r
    }

    /// The company-facing read model of this record.
    pub fn to_read_only(&self) -> (r: PromoReadOnly)
        ensures
            r@ == spec_read_only(self@),
    {
        let r = PromoReadOnly {
            description: self.description.clone(),
            image_url: clone_opt_string(&self.image_url),
            target: self.target.duplicate(),
            max_count: self.max_count,
            active_from: self.active_from,
            active_until: self.active_until,
            mode: self.mode,
            promo_common: clone_opt_string(&self.promo_common),
            promo_unique: clone_string_vec(&self.promo_unique),
            promo_id: self.promo_id.clone(),
            company_id: self.company_id.clone(),
            company_name: self.company_name.clone(),
            like_count: self.likes.len(),
            used_count: self.activated_users.len(),
            active: self.active,
        };
        proof {
            assert(r@ =~= spec_read_only(self@));
        }
        r
    }

    /// The user-facing read model of this record: membership flags are the
    /// given user's, counts are derived from the like and comment sets.
    pub fn to_user_view(&self, email: &str) -> (r: PromoForUser)
        ensures
            r@ == spec_user_view(self@, email@),
    {
        let r = PromoForUser {
            promo_id: self.promo_id.clone(),
            company_id: self.company_id.clone(),
            company_name: self.company_name.clone(),
            description: self.description.clone(),
            image_url: clone_opt_string(&self.image_url),
            active: self.active,
            is_activated_by_user: crate::text::contains_str(&self.activated_users, email),
            like_count: self.likes.len(),
            is_liked_by_user: crate::text::contains_str(&self.likes, email),
            comment_count: self.comments.len(),
        };
        proof {
            assert(r@ =~= spec_user_view(self@, email@));
        }
        r
    }

    /// The statistics view of this record. The redemption count is derived
    /// from the redeemed-user set, never stored beside it.
    pub fn to_stat(&self) -> (r: PromoStat)
        ensures
            r@ == spec_stat(self@),
    {
        let r = PromoStat {
            activate_count: self.activated_users.len(),
            countries: clone_countries(&self.countries),
        };
        proof {
            assert(r@ =~= spec_stat(self@));
        }
        r
    }
}

} // verus!
