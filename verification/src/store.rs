//! The promo store: the single owner of the authoritative promo records.
//! Every mutation is one read-modify-write of one record, applied while the
//! store is held exclusively — the in-process discipline that gives
//! concurrent activation requests at-most-one-winner semantics. Reads for
//! display copy the record out.

use vstd::prelude::*;

use crate::activation::ActivationError;
use crate::activation::opt_ref_view;
use crate::activation::spec_activated;
use crate::activation::spec_activation_error;
use crate::activation::spec_redeemed_text;
use crate::promo::Comment;
use crate::promo::CommentAuthor;
use crate::promo::Promo;
use crate::promo::PromoForUser;
use crate::promo::PromoReadOnly;
use crate::promo::PromoStat;
use crate::promo::PromoView;
use crate::promo::comments_view;
use crate::promo::fu_views;
use crate::promo::promo_wf;
use crate::promo::promos_view;
use crate::promo::spec_read_only;
use crate::promo::spec_stat;
use crate::promo::spec_user_view;
use crate::text::str_eq;
use crate::text::views_of;
use crate::user::UserTargetSettings;
use crate::validate::CreatePromo;
use crate::validate::PatchPromo;
use crate::validate::ValidationError;
use crate::validate::build_promo;
use crate::validate::spec_built_promo;
use crate::validate::spec_create_error;
use crate::validate::spec_patch_error;
use crate::validate::spec_patched;
use crate::validate::validate_create;
use crate::validate::validate_patch;

verus! {

/// Why a creation request failed.
#[derive(Clone, Copy, PartialEq, Eq, Structural, Debug)]
pub enum CreateError {
    /// The payload broke a validation rule.
    Validation(ValidationError),
    /// The generated identifier is already taken.
    Conflict,
}

/// Why a patch request failed.
#[derive(Clone, Copy, PartialEq, Eq, Structural, Debug)]
pub enum PatchError {
    /// No promo with the given identifier exists.
    NotFound,
    /// The caller does not own the promo.
    Forbidden,
    /// The patch broke a validation rule.
    Validation(ValidationError),
}

/// Why a read request failed.
#[derive(Clone, Copy, PartialEq, Eq, Structural, Debug)]
pub enum LookupError {
    /// No record with the given identifier exists.
    NotFound,
}

/// Relies on uuid::Uuid::new_v4 and uuid::fmt::Hyphenated (through
/// Uuid::to_string): a freshly drawn random identifier, whose hyphenated
/// text form always has 36 characters.
#[verifier::external_body]
fn fresh_id() -> (r: String)
    ensures
        r@.len() == 36,
{
    uuid::Uuid::new_v4().to_string()
}

/// Well-formedness of the whole store: every record is well-formed and the
/// identifiers are pairwise distinct.
pub open spec fn store_wf(s: Seq<PromoView>) -> bool {
    &&& forall|i: int| 0 <= i < s.len() ==> promo_wf(#[trigger] s[i])
    &&& forall|i: int, j: int|
        0 <= i < j < s.len() ==> (#[trigger] s[i]).promo_id != (#[trigger] s[j]).promo_id
}

/// The position of the record with the given identifier, if any.
pub open spec fn spec_find(s: Seq<PromoView>, id: Seq<char>) -> Option<int>
    decreases s.len(),
{
    if s.len() == 0 {
        None
    } else if s[0].promo_id == id {
        Some(0)
    } else {
        match spec_find(s.drop_first(), id) {
            Some(i) => Some(i + 1),
            None => None,
        }
    }
}

/// What a find result means: a found index carries the identifier and
/// nothing before it does; a miss means no record carries it.
pub proof fn lemma_find_spec(s: Seq<PromoView>, id: Seq<char>)
    ensures
        (match spec_find(s, id) {
            Some(i) => 0 <= i < s.len() && s[i].promo_id == id && forall|j: int|
                0 <= j < i ==> (#[trigger] s[j]).promo_id != id,
            None => forall|j: int| 0 <= j < s.len() ==> (#[trigger] s[j]).promo_id != id,
        }),
    decreases s.len(),
{
    if s.len() > 0 && s[0].promo_id != id {
        let rest = s.drop_first();
        lemma_find_spec(rest, id);
        assert(forall|j: int| 0 <= j < rest.len() ==> (#[trigger] rest[j]) == s[j + 1]);
        match spec_find(rest, id) {
            Some(i) => {
                assert(s[i + 1] == rest[i]);
                assert forall|j: int| 0 <= j < i + 1 implies (#[trigger] s[j]).promo_id != id by {
                    if j > 0 {
                        assert(s[j] == rest[j - 1]);
                    }
                }
            },
            None => {
                assert forall|j: int| 0 <= j < s.len() implies (#[trigger] s[j]).promo_id
                    != id by {
                    if j > 0 {
                        assert(s[j] == rest[j - 1]);
                    }
                }
            },
        }
    }
}

/// The store of promo records.
#[derive(Debug)]
pub struct PromoStore {
    pub promos: Vec<Promo>,
}

impl PromoStore {
    /// The models of the stored records, in storage order.
    pub open spec fn sview(&self) -> Seq<PromoView> {
        promos_view(self.promos@)
    }

    /// The store invariant.
    pub open spec fn wf(&self) -> bool {
        store_wf(self.sview())
    }

    /// An empty store.
    pub fn new() -> (r: PromoStore)
        ensures
            r.wf(),
            r.sview() == Seq::<PromoView>::empty(),
    {
        let r = PromoStore { promos: Vec::new() };
        proof {
            assert(r.sview() =~= Seq::<PromoView>::empty());
        }
        r
    }

    /// Finds the position of a record by identifier.
    fn find_index(&self, id: &str) -> (r: Option<usize>)
        ensures
            self.sview().len() <= usize::MAX,
            (match spec_find(self.sview(), id@) {
                Some(i) => 0 <= i < self.sview().len() && r == Some(i as usize),
                None => r is None,
            }),
    {
        let n = self.promos.len();
        proof {
            assert(self.sview().len() == n);
            lemma_find_spec(self.sview(), id@);
        }
        let mut i: usize = 0;
        while i < n
            invariant
                n == self.sview().len(),
                i <= n,
                forall|j: int| 0 <= j < i ==> (#[trigger] self.sview()[j]).promo_id != id@,
            decreases n - i,
        {
            if str_eq(self.promos[i].promo_id.as_str(), id) {
                proof {
                    lemma_find_eq(self.sview(), id@, i as int);
                }
                return Some(i);
            }
            i += 1;
        }
        None
    }

    /// Looks a record up for display; stale-tolerant readers borrow it.
    pub fn get(&self, id: &str) -> (r: Option<&Promo>)
        ensures
            (match spec_find(self.sview(), id@) {
                Some(i) => r matches Some(p) && p@ == self.sview()[i],
                None => r is None,
            }),
    {
        match self.find_index(id) {
            Some(i) => Some(&self.promos[i]),
            None => None,
        }
    }

    /// Creates a promo from a validated payload: the record is appended
    /// under a freshly generated identifier, which is returned. A broken
    /// validation rule is reported and nothing is stored; so is the
    /// (practically impossible) collision of the generated identifier,
    /// which can only happen when the store is non-empty.
    pub fn create(
        &mut self,
        c: CreatePromo,
        company_id: String,
        company_name: String,
        now: i64,
    ) -> (r: Result<String, CreateError>)
        requires
            old(self).wf(),
        ensures
            final(self).wf(),
            (match spec_create_error(c@) {
                Some(e) => r == Err::<String, CreateError>(CreateError::Validation(e))
                    && final(self).sview() == old(self).sview(),
                None => (match r {
                    Ok(id) => {
                        &&& id@.len() == 36
                        &&& spec_find(old(self).sview(), id@) is None
                        &&& final(self).sview() == old(self).sview().push(
                            spec_built_promo(c@, company_id@, company_name@, id@, now),
                        )
                    },
                    Err(e) => e == CreateError::Conflict && final(self).sview() == old(self).sview() && old(self).sview().len() > 0,
                }),
            }),
    {
        match validate_create(&c) {
            Err(e) => {
                return Err(CreateError::Validation(e));
            },
            Ok(()) => {},
        }
        let id = fresh_id();
        if self.find_index(id.as_str()).is_some() {
            proof {
                lemma_find_spec(self.sview(), id@);
            }
            return Err(CreateError::Conflict);
        }
        let p = build_promo(c, company_id, company_name, id.clone(), now);
        proof {
            lemma_find_spec(self.sview(), id@);
        }
        self.promos.push(p);
        proof {
            assert(self.sview() =~= old(self).sview().push(p@));
            assert(self.wf()) by {
                let s = self.sview();
                let o = old(self).sview();
                assert(forall|i: int| 0 <= i < o.len() ==> s[i] == o[i]);
                assert(s[s.len() - 1] == p@);
            }
        }
        Ok(id)
    }

    /// Patches a promo: the owner's validated changes are applied as one
    /// atomic replacement of the record, and the updated read model is
    /// returned. On any failure the store is untouched.
    pub fn patch(&mut self, id: &str, company_id: &str, patch: PatchPromo) -> (r: Result<
        PromoReadOnly,
        PatchError,
    >)
        requires
            old(self).wf(),
        ensures
            final(self).wf(),
            (match spec_find(old(self).sview(), id@) {
                None => r == Err::<PromoReadOnly, PatchError>(PatchError::NotFound) && final(self).sview() == old(self).sview(),
                Some(i) => {
                    let cur = old(self).sview()[i];
                    if cur.company_id != company_id@ {
                        r == Err::<PromoReadOnly, PatchError>(PatchError::Forbidden) && final(self).sview() == old(self).sview()
                    } else {
                        match spec_patch_error(patch@, cur) {
                            Some(e) => r == Err::<PromoReadOnly, PatchError>(
                                PatchError::Validation(e),
                            ) && final(self).sview() == old(self).sview(),
                            None => {
                                &&& (r matches Ok(ro) && ro@ == spec_read_only(
                                    spec_patched(cur, patch@),
                                ))
                                &&& final(self).sview() == old(self).sview().update(
                                    i,
                                    spec_patched(cur, patch@),
                                )
                            },
                        }
                    }
                },
            }),
    {
        proof {
            lemma_find_spec(self.sview(), id@);
        }
        let idx = match self.find_index(id) {
            Some(i) => i,
            None => {
                proof {
                    assert(self.sview() =~= old(self).sview());
                }
                return Err(PatchError::NotFound);
            },
        };
        if !str_eq(self.promos[idx].company_id.as_str(), company_id) {
            proof {
                assert(self.sview() =~= old(self).sview());
            }
            return Err(PatchError::Forbidden);
        }
        match validate_patch(&patch, &self.promos[idx]) {
            Err(e) => {
                proof {
                    assert(self.sview() =~= old(self).sview());
                }
                return Err(PatchError::Validation(e));
            },
            Ok(()) => {},
        }
        let cur = self.promos.remove(idx);
        let updated = cur.apply_patch(patch);
        let ro = updated.to_read_only();
        self.promos.insert(idx, updated);
        proof {
            let o = old(self).sview();
            let i = idx as int;
            assert(self.sview() =~= o.update(i, spec_patched(o[i], patch@)));
            assert(self.wf()) by {
                let s = self.sview();
                assert(forall|k: int| 0 <= k < s.len() && k != i ==> s[k] == o[k]);
                assert(s[i].promo_id == o[i].promo_id);
            }
        }
        Ok(ro)
    }

    /// One activation attempt, run as one atomic read-modify-write of the
    /// record: exactly the activation engine's outcome, with NotFound when
    /// no such promo exists. On rejection the store is untouched.
    pub fn activate(
        &mut self,
        id: &str,
        email: String,
        settings: &UserTargetSettings,
        requested: Option<&String>,
        today: i64,
    ) -> (r: Result<String, ActivationError>)
        requires
            old(self).wf(),
        ensures
            final(self).wf(),
            (match spec_find(old(self).sview(), id@) {
                None => r == Err::<String, ActivationError>(ActivationError::NotFound) && final(self).sview() == old(self).sview(),
                Some(i) => {
                    let cur = old(self).sview()[i];
                    match spec_activation_error(
                        cur,
                        email@,
                        settings@,
                        opt_ref_view(requested),
                        today,
                    ) {
                        Some(e) => r == Err::<String, ActivationError>(e) && final(self).sview()
                            == old(self).sview(),
                        None => {
                            &&& (r matches Ok(text) && text@ == spec_redeemed_text(cur))
                            &&& final(self).sview() == old(self).sview().update(
                                i,
                                spec_activated(cur, email@, settings@),
                            )
                        },
                    }
                },
            }),
    {
        proof {
            lemma_find_spec(self.sview(), id@);
        }
        let idx = match self.find_index(id) {
            Some(i) => i,
            None => {
                proof {
                    assert(self.sview() =~= old(self).sview());
                }
                return Err(ActivationError::NotFound);
            },
        };
        let mut cur = self.promos.remove(idx);
        let res = crate::activation::activate(&mut cur, email, settings, requested, today);
        self.promos.insert(idx, cur);
        proof {
            let o = old(self).sview();
            let i = idx as int;
            match res {
                Ok(_) => {
                    assert(self.sview() =~= o.update(
                        i,
                        spec_activated(o[i], email@, settings@),
                    ));
                },
                Err(_) => {
                    assert(self.sview() =~= o);
                },
            }
            assert(self.wf()) by {
                let s = self.sview();
                assert(forall|k: int| 0 <= k < s.len() && k != i ==> s[k] == o[k]);
                assert(s[i].promo_id == o[i].promo_id);
                assert(promo_wf(s[i]));
            }
        }
        res
    }

    /// The owner's read model of one promo.
    pub fn get_for_company(&self, id: &str, company_id: &str) -> (r: Result<
        PromoReadOnly,
        PatchError,
    >)
        ensures
            (match spec_find(self.sview(), id@) {
                None => r == Err::<PromoReadOnly, PatchError>(PatchError::NotFound),
                Some(i) => {
                    let cur = self.sview()[i];
                    if cur.company_id != company_id@ {
                        r == Err::<PromoReadOnly, PatchError>(PatchError::Forbidden)
                    } else {
                        r matches Ok(ro) && ro@ == spec_read_only(cur)
                    }
                },
            }),
    {
        let idx = match self.find_index(id) {
            Some(i) => i,
            None => {
                return Err(PatchError::NotFound);
            },
        };
        if !str_eq(self.promos[idx].company_id.as_str(), company_id) {
            return Err(PatchError::Forbidden);
        }
        Ok(self.promos[idx].to_read_only())
    }

    /// The owner's statistics view of one promo.
    pub fn get_stat(&self, id: &str, company_id: &str) -> (r: Result<PromoStat, PatchError>)
        ensures
            (match spec_find(self.sview(), id@) {
                None => r == Err::<PromoStat, PatchError>(PatchError::NotFound),
                Some(i) => {
                    let cur = self.sview()[i];
                    if cur.company_id != company_id@ {
                        r == Err::<PromoStat, PatchError>(PatchError::Forbidden)
                    } else {
                        r matches Ok(st) && st@ == spec_stat(cur)
                    }
                },
            }),
    {
        let idx = match self.find_index(id) {
            Some(i) => i,
            None => {
                return Err(PatchError::NotFound);
            },
        };
        if !str_eq(self.promos[idx].company_id.as_str(), company_id) {
            return Err(PatchError::Forbidden);
        }
        Ok(self.promos[idx].to_stat())
    }

    /// The user-facing view of one promo.
    pub fn get_for_user(&self, id: &str, email: &str) -> (r: Result<PromoForUser, LookupError>)
        ensures
            (match spec_find(self.sview(), id@) {
                None => r == Err::<PromoForUser, LookupError>(LookupError::NotFound),
                Some(i) => r matches Ok(v) && v@ == spec_user_view(self.sview()[i], email@),
            }),
    {
        match self.find_index(id) {
            Some(i) => Ok(self.promos[i].to_user_view(email)),
            None => Err(LookupError::NotFound),
        }
    }

    /// Answers a company's listing query over this store: the page of read
    /// models and the matching total before pagination, exactly as the
    /// listing engine computes them.
    pub fn list(&self, company_id: &str, q: &crate::listing::ListQuery) -> (r: (
        Vec<PromoReadOnly>,
        usize,
    ))
        ensures
            r.1 == crate::listing::spec_list_filter(self.sview(), company_id@, q@.countries).len(),
            exists|sorted: Seq<PromoView>|
                {
                    &&& sorted.to_multiset() == crate::listing::spec_paginate(
                        crate::listing::spec_list_filter(self.sview(), company_id@, q@.countries),
                        q@.offset,
                        q@.limit,
                    ).to_multiset()
                    &&& crate::listing::spec_sorted(q@.sort_by, sorted)
                    &&& crate::promo::ro_views(r.0@) == sorted.map_values(
                        |p: PromoView| spec_read_only(p),
                    )
                },
    {
        crate::listing::list_promos(&self.promos, company_id, q)
    }

    /// The whole feed, as one user sees it, in storage order.
    pub fn feed(&self, email: &str) -> (r: Vec<PromoForUser>)
        ensures
            fu_views(r@) == self.sview().map_values(|p: PromoView| spec_user_view(p, email@)),
    {
        let mut out: Vec<PromoForUser> = Vec::new();
        let mut i: usize = 0;
        while i < self.promos.len()
            invariant
                i <= self.sview().len(),
                out@.len() == i,
                forall|k: int|
                    0 <= k < i ==> (#[trigger] out@[k])@ == spec_user_view(
                        self.sview()[k],
                        email@,
                    ),
            decreases self.sview().len() - i,
        {
            out.push(self.promos[i].to_user_view(email));
            i += 1;
        }
        proof {
            assert(fu_views(out@) =~= self.sview().map_values(
                |p: PromoView| spec_user_view(p, email@),
            ));
        }
        out
    }

    /// Adds the user's like; liking twice is the same as liking once.
    pub fn add_like(&mut self, id: &str, email: String) -> (r: Result<(), LookupError>)
        requires
            old(self).wf(),
        ensures
            final(self).wf(),
            (match spec_find(old(self).sview(), id@) {
                None => r == Err::<(), LookupError>(LookupError::NotFound) && final(self).sview()
                    == old(self).sview(),
                Some(i) => {
                    let cur = old(self).sview()[i];
                    &&& r == Ok::<(), LookupError>(())
                    &&& (if cur.likes.contains(email@) {
                        final(self).sview() == old(self).sview()
                    } else {
                        final(self).sview() == old(self).sview().update(
                            i,
                            PromoView { likes: cur.likes.push(email@), ..cur },
                        )
                    })
                },
            }),
    {
        proof {
            lemma_find_spec(self.sview(), id@);
        }
        let idx = match self.find_index(id) {
            Some(i) => i,
            None => {
                proof {
                    assert(self.sview() =~= old(self).sview());
                }
                return Err(LookupError::NotFound);
            },
        };
        if crate::text::contains_str(&self.promos[idx].likes, email.as_str()) {
            proof {
                assert(self.sview() =~= old(self).sview());
            }
            return Ok(());
        }
        let mut cur = self.promos.remove(idx);
        cur.likes.push(email);
        self.promos.insert(idx, cur);
        proof {
            let o = old(self).sview();
            let i = idx as int;
            assert(views_of(self.promos@[i].likes@) =~= o[i].likes.push(
                views_of(self.promos@[i].likes@).last(),
            ));
            assert(self.sview()[i] =~= PromoView {
                likes: o[i].likes.push(self.sview()[i].likes.last()),
                ..o[i]
            });
            assert(self.sview() =~= o.update(
                i,
                PromoView { likes: o[i].likes.push(self.sview()[i].likes.last()), ..o[i] },
            ));
            assert(self.wf()) by {
                let s = self.sview();
                assert(forall|k: int| 0 <= k < s.len() && k != i ==> s[k] == o[k]);
                assert(promo_wf(s[i])) by {
                    let nl = s[i].likes;
                    assert forall|a: int, b: int| 0 <= a < b < nl.len() implies nl[a] != nl[b] by {
                        if b < nl.len() - 1 {
                            assert(nl[a] == o[i].likes[a] && nl[b] == o[i].likes[b]);
                        } else {
                            assert(nl[a] == o[i].likes[a]);
                            assert(!o[i].likes.contains(nl[b]));
                        }
                    }
                }
            }
        }
        Ok(())
    }

    /// Removes the user's like; a like never given is silently absent.
    pub fn remove_like(&mut self, id: &str, email: &str) -> (r: Result<(), LookupError>)
        requires
            old(self).wf(),
        ensures
            final(self).wf(),
            (match spec_find(old(self).sview(), id@) {
                None => r == Err::<(), LookupError>(LookupError::NotFound) && final(self).sview()
                    == old(self).sview(),
                Some(i) => {
                    let cur = old(self).sview()[i];
                    &&& r == Ok::<(), LookupError>(())
                    &&& (if !cur.likes.contains(email@) {
                        final(self).sview() == old(self).sview()
                    } else {
                        exists|k: int|
                            0 <= k < cur.likes.len() && cur.likes[k] == email@ && final(self).sview() == old(self).sview().update(
                                i,
                                PromoView { likes: cur.likes.remove(k), ..cur },
                            )
                    })
                },
            }),
    {
        proof {
            lemma_find_spec(self.sview(), id@);
        }
        let idx = match self.find_index(id) {
            Some(i) => i,
            None => {
                proof {
                    assert(self.sview() =~= old(self).sview());
                }
                return Err(LookupError::NotFound);
            },
        };
        let mut k: usize = 0;
        let n = self.promos[idx].likes.len();
        while k < n
            invariant
                old(self).wf(),
                self == old(self),
                spec_find(old(self).sview(), id@) == Some(idx as int),
                idx < self.sview().len(),
                n == self.sview()[idx as int].likes.len(),
                k <= n,
                forall|j: int|
                    0 <= j < k ==> (#[trigger] old(self).sview()[idx as int].likes[j]) != email@,
            decreases n - k,
        {
            if str_eq(self.promos[idx].likes[k].as_str(), email) {
                let mut cur = self.promos.remove(idx);
                cur.likes.remove(k);
                self.promos.insert(idx, cur);
                proof {
                    let o = old(self).sview();
                    let i = idx as int;
                    assert(views_of(self.promos@[i].likes@) =~= o[i].likes.remove(k as int));
                    assert(self.sview()[i] =~= PromoView {
                        likes: o[i].likes.remove(k as int),
                        ..o[i]
                    });
                    assert(self.sview() =~= o.update(
                        i,
                        PromoView { likes: o[i].likes.remove(k as int), ..o[i] },
                    ));
                    assert(o[i].likes[k as int] == email@);
                    assert(self.wf()) by {
                        let s = self.sview();
                        assert(forall|t: int| 0 <= t < s.len() && t != i ==> s[t] == o[t]);
                        assert(promo_wf(s[i])) by {
                            let nl = s[i].likes;
                            let ol = o[i].likes;
                            assert forall|a: int, b: int|
                                0 <= a < b < nl.len() implies nl[a] != nl[b] by {
                                let a2: int = if a < k { a } else { a + 1 };
                                let b2: int = if b < k { b } else { b + 1 };
                                assert(nl[a] == ol[a2] && nl[b] == ol[b2]);
                            }
                        }
                    }
                }
                return Ok(());
            }
            k += 1;
        }
        proof {
            assert(self.sview() =~= old(self).sview());
            assert(!old(self).sview()[idx as int].likes.contains(email@));
        }
        Ok(())
    }

    /// Appends a comment under a fresh identifier and returns a copy of it.
    pub fn add_comment(
        &mut self,
        id: &str,
        text: String,
        author: CommentAuthor,
        date: String,
    ) -> (r: Result<Comment, LookupError>)
        requires
            old(self).wf(),
        ensures
            final(self).wf(),
            (match spec_find(old(self).sview(), id@) {
                None => r matches Err(e) && e == LookupError::NotFound && final(self).sview()
                    == old(self).sview(),
                Some(i) => {
                    let cur = old(self).sview()[i];
                    &&& (r matches Ok(c) && c@.text == text@ && c@.date == date@ && c@.author
                        == author@ && c@.id.len() == 36 && final(self).sview() == old(self).sview().update(i, PromoView { comments: cur.comments.push(c@), ..cur }))
                },
            }),
    {
        proof {
            lemma_find_spec(self.sview(), id@);
        }
        let idx = match self.find_index(id) {
            Some(i) => i,
            None => {
                proof {
                    assert(self.sview() =~= old(self).sview());
                }
                return Err(LookupError::NotFound);
            },
        };
        let comment = Comment { id: fresh_id(), text, date, author };
        let copy = comment.duplicate();
        let mut cur = self.promos.remove(idx);
        cur.comments.push(comment);
        self.promos.insert(idx, cur);
        proof {
            let o = old(self).sview();
            let i = idx as int;
            assert(comments_view(self.promos@[i].comments@) =~= o[i].comments.push(copy@));
            assert(self.sview()[i] =~= PromoView {
                comments: o[i].comments.push(copy@),
                ..o[i]
            });
            assert(self.sview() =~= o.update(
                i,
                PromoView { comments: o[i].comments.push(copy@), ..o[i] },
            ));
            assert(self.wf()) by {
                let s = self.sview();
                assert(forall|t: int| 0 <= t < s.len() && t != i ==> s[t] == o[t]);
                assert(promo_wf(s[i]));
            }
        }
        Ok(copy)
    }

    /// Copies out a promo's comments.
    pub fn get_comments(&self, id: &str) -> (r: Result<Vec<Comment>, LookupError>)
        ensures
            (match spec_find(self.sview(), id@) {
                None => r == Err::<Vec<Comment>, LookupError>(LookupError::NotFound),
                Some(i) => r matches Ok(cs) && comments_view(cs@) == self.sview()[i].comments,
            }),
    {
        match self.find_index(id) {
            Some(i) => Ok(crate::promo::clone_comments(&self.promos[i].comments)),
            None => Err(LookupError::NotFound),
        }
    }

    /// Finds one comment of a promo by its identifier.
    pub fn get_comment_by_id(&self, id: &str, comment_id: &str) -> (r: Result<
        Comment,
        LookupError,
    >)
        ensures
            (match spec_find(self.sview(), id@) {
                None => r == Err::<Comment, LookupError>(LookupError::NotFound),
                Some(i) => {
                    let cs = self.sview()[i].comments;
                    if exists|k: int| 0 <= k < cs.len() && (#[trigger] cs[k]).id == comment_id@ {
                        r matches Ok(c) && c@.id == comment_id@ && cs.contains(c@)
                    } else {
                        r == Err::<Comment, LookupError>(LookupError::NotFound)
                    }
                },
            }),
    {
        let idx = match self.find_index(id) {
            Some(i) => i,
            None => {
                return Err(LookupError::NotFound);
            },
        };
        let mut k: usize = 0;
        let n = self.promos[idx].comments.len();
        while k < n
            invariant
                idx < self.promos@.len(),
                spec_find(self.sview(), id@) == Some(idx as int),
                n == self.sview()[idx as int].comments.len(),
                k <= n,
                forall|j: int|
                    0 <= j < k ==> (#[trigger] self.sview()[idx as int].comments[j]).id
                        != comment_id@,
            decreases n - k,
        {
            if str_eq(self.promos[idx].comments[k].id.as_str(), comment_id) {
                let c = self.promos[idx].comments[k].duplicate();
                proof {
                    let cs = self.sview()[idx as int].comments;
                    assert(cs[k as int] == c@);
                    assert(cs.contains(c@));
                }
                return Ok(c);
            }
            k += 1;
        }
        proof {
            let cs = self.sview()[idx as int].comments;
            assert(forall|j: int| 0 <= j < cs.len() ==> (#[trigger] cs[j]).id != comment_id@);
        }
        Err(LookupError::NotFound)
    }
}

/// A found index indeed carries the identifier: the converse direction of
/// the find specification, for a scan that stopped at a match.
proof fn lemma_find_eq(s: Seq<PromoView>, id: Seq<char>, i: int)
    requires
        0 <= i < s.len(),
        s[i].promo_id == id,
        forall|j: int| 0 <= j < i ==> (#[trigger] s[j]).promo_id != id,
    ensures
        spec_find(s, id) == Some(i),
    decreases i,
{
    if i == 0 {
    } else {
        assert(forall|j: int| 0 <= j < s.drop_first().len() ==> (#[trigger] s.drop_first()[j])
            == s[j + 1]);
        lemma_find_eq(s.drop_first(), id, i - 1);
    }
}

} // verus!
