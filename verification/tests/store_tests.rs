use promo_engine::promo::CommentAuthor;
use promo_engine::promo::PromoMode;
use promo_engine::store::CreateError;
use promo_engine::store::LookupError;
use promo_engine::store::PatchError;
use promo_engine::store::PromoStore;
use promo_engine::target::Target;
use promo_engine::user::PatchUser;
use promo_engine::user::User;
use promo_engine::user::UserTargetSettings;
use promo_engine::validate::CreatePromo;
use promo_engine::validate::PatchPromo;
use promo_engine::validate::ValidationError;

fn open_target() -> Target {
    Target { age_from: None, age_until: None, country: None, categories: None }
}

fn create_payload() -> CreatePromo {
    CreatePromo {
        description: Some("a promo description".to_string()),
        image_url: Some("https://img.example/x.png".to_string()),
        target: Some(open_target()),
        max_count: Some(3),
        active_from: Some("2024-01-01".to_string()),
        active_until: Some("2024-12-31".to_string()),
        mode: Some(PromoMode::Common),
        promo_common: Some("COMMONCODE".to_string()),
        promo_unique: None,
    }
}

fn empty_patch() -> PatchPromo {
    PatchPromo {
        description: None,
        image_url: None,
        target: None,
        max_count: None,
        active_from: None,
        active_until: None,
        mode: None,
        promo_common: None,
        promo_unique: None,
    }
}

#[test]
fn create_returns_generated_id() {
    let mut store = PromoStore::new();
    let id = store
        .create(create_payload(), "c1".to_string(), "Acme".to_string(), 500)
        .unwrap();
    assert_eq!(id.len(), 36);
    let promo = store.get(&id).unwrap();
    assert_eq!(promo.description, "a promo description");
    assert_eq!(promo.company_id, "c1");
    assert_eq!(promo.company_name, "Acme");
    assert_eq!(promo.create_date, 500);
    assert!(promo.active);
    assert_eq!(promo.activated_users.len(), 0);
    assert!(promo.active_from.is_some());
}

#[test]
fn create_rejects_invalid_payload() {
    let mut store = PromoStore::new();
    let mut c = create_payload();
    c.max_count = Some(0);
    let r = store.create(c, "c1".to_string(), "Acme".to_string(), 0);
    assert_eq!(r.unwrap_err(), CreateError::Validation(ValidationError::MaxCount));
    assert!(store.promos.is_empty());
}

#[test]
fn get_views_respect_ownership() {
    let mut store = PromoStore::new();
    let id = store
        .create(create_payload(), "c1".to_string(), "Acme".to_string(), 0)
        .unwrap();
    assert!(store.get_for_company(&id, "c1").is_ok());
    assert_eq!(store.get_for_company(&id, "other").unwrap_err(), PatchError::Forbidden);
    assert_eq!(store.get_for_company("missing", "c1").unwrap_err(), PatchError::NotFound);
    assert_eq!(store.get_stat(&id, "other").unwrap_err(), PatchError::Forbidden);
}

#[test]
fn patch_replaces_given_fields_only() {
    let mut store = PromoStore::new();
    let id = store
        .create(create_payload(), "c1".to_string(), "Acme".to_string(), 0)
        .unwrap();
    let mut p = empty_patch();
    p.description = Some("a brand new description".to_string());
    p.max_count = Some(2);
    let ro = store.patch(&id, "c1", p).unwrap();
    assert_eq!(ro.description, "a brand new description");
    assert_eq!(ro.max_count, 2);
    assert_eq!(ro.promo_common.as_deref(), Some("COMMONCODE"));
    let promo = store.get(&id).unwrap();
    assert_eq!(promo.description, "a brand new description");
    assert_eq!(promo.max_count, 2);
}

#[test]
fn noop_patch_changes_nothing() {
    let mut store = PromoStore::new();
    let id = store
        .create(create_payload(), "c1".to_string(), "Acme".to_string(), 0)
        .unwrap();
    let before = store.get(&id).unwrap().duplicate();
    store.patch(&id, "c1", empty_patch()).unwrap();
    let after = store.get(&id).unwrap();
    assert_eq!(after.description, before.description);
    assert_eq!(after.image_url, before.image_url);
    assert_eq!(after.max_count, before.max_count);
    assert_eq!(after.active_from, before.active_from);
    assert_eq!(after.active_until, before.active_until);
    assert_eq!(after.promo_common, before.promo_common);
    assert_eq!(after.promo_unique, before.promo_unique);
    assert_eq!(after.promo_id, before.promo_id);
    assert_eq!(after.create_date, before.create_date);
    assert_eq!(after.active, before.active);
}

#[test]
fn patch_checks_owner_and_existence() {
    let mut store = PromoStore::new();
    let id = store
        .create(create_payload(), "c1".to_string(), "Acme".to_string(), 0)
        .unwrap();
    assert_eq!(store.patch("missing", "c1", empty_patch()).unwrap_err(), PatchError::NotFound);
    assert_eq!(store.patch(&id, "other", empty_patch()).unwrap_err(), PatchError::Forbidden);
    let mut p = empty_patch();
    p.description = Some("short".to_string());
    assert_eq!(
        store.patch(&id, "c1", p).unwrap_err(),
        PatchError::Validation(ValidationError::Description)
    );
}

#[test]
fn likes_are_a_set() {
    let mut store = PromoStore::new();
    let id = store
        .create(create_payload(), "c1".to_string(), "Acme".to_string(), 0)
        .unwrap();
    store.add_like(&id, "a@x.com".to_string()).unwrap();
    store.add_like(&id, "a@x.com".to_string()).unwrap();
    store.add_like(&id, "b@x.com".to_string()).unwrap();
    assert_eq!(store.get(&id).unwrap().likes.len(), 2);
    store.remove_like(&id, "a@x.com").unwrap();
    assert_eq!(store.get(&id).unwrap().likes, vec!["b@x.com".to_string()]);
    store.remove_like(&id, "a@x.com").unwrap();
    assert_eq!(store.get(&id).unwrap().likes.len(), 1);
    assert_eq!(store.add_like("missing", "a@x.com".to_string()).unwrap_err(), LookupError::NotFound);
}

#[test]
fn comments_append_and_find() {
    let mut store = PromoStore::new();
    let id = store
        .create(create_payload(), "c1".to_string(), "Acme".to_string(), 0)
        .unwrap();
    let author = CommentAuthor {
        name: "Ada".to_string(),
        surname: "Lovelace".to_string(),
        email: "ada@x.com".to_string(),
        avatar_url: None,
    };
    let c = store
        .add_comment(&id, "nice promo".to_string(), author, "2024-01-02".to_string())
        .unwrap();
    assert_eq!(c.id.len(), 36);
    assert_eq!(c.text, "nice promo");
    let all = store.get_comments(&id).unwrap();
    assert_eq!(all.len(), 1);
    assert_eq!(all[0].text, "nice promo");
    let found = store.get_comment_by_id(&id, &c.id).unwrap();
    assert_eq!(found.text, "nice promo");
    assert_eq!(
        store.get_comment_by_id(&id, "no-such-comment").unwrap_err(),
        LookupError::NotFound
    );
}

#[test]
fn feed_reports_membership() {
    let mut store = PromoStore::new();
    let id = store
        .create(create_payload(), "c1".to_string(), "Acme".to_string(), 0)
        .unwrap();
    store.add_like(&id, "a@x.com".to_string()).unwrap();
    let user = UserTargetSettings { age: 30, country: "us".to_string() };
    let day = promo_engine::dates::parse_date("2024-06-01").unwrap();
    store.activate(&id, "a@x.com".to_string(), &user, None, day).unwrap();
    let feed = store.feed("a@x.com");
    assert_eq!(feed.len(), 1);
    assert!(feed[0].is_activated_by_user);
    assert!(feed[0].is_liked_by_user);
    assert_eq!(feed[0].like_count, 1);
    let other = store.feed("b@x.com");
    assert!(!other[0].is_activated_by_user);
    assert!(!other[0].is_liked_by_user);
    let view = store.get_for_user(&id, "a@x.com").unwrap();
    assert!(view.is_activated_by_user);
}

#[test]
fn user_profile_and_patch() {
    let account = User {
        name: "Ada".to_string(),
        surname: "Lovelace".to_string(),
        email: "ada@x.com".to_string(),
        avatar_url: Some("https://img.example/a.png".to_string()),
        other: UserTargetSettings { age: 30, country: "uk".to_string() },
        password_hash: "hash-one".to_string(),
    };
    let profile = account.profile();
    assert_eq!(profile.name, "Ada");
    assert_eq!(profile.email, "ada@x.com");
    let patch = PatchUser {
        name: Some("Augusta".to_string()),
        surname: None,
        avatar_url: None,
        password: Some("Passw0rdx".to_string()),
    };
    let updated = account.apply_patch(patch, Some("hash-two".to_string()));
    assert_eq!(updated.name, "Augusta");
    assert_eq!(updated.surname, "Lovelace");
    assert_eq!(updated.avatar_url, None);
    assert_eq!(updated.password_hash, "hash-two");
    assert_eq!(updated.email, "ada@x.com");
}

#[test]
fn unique_promo_full_lifecycle() {
    let mut store = PromoStore::new();
    let create = CreatePromo {
        description: Some("a unique promo lifecycle".to_string()),
        image_url: None,
        target: Some(open_target()),
        max_count: Some(2),
        active_from: None,
        active_until: None,
        mode: Some(PromoMode::Unique),
        promo_common: None,
        promo_unique: Some(vec!["CODE-A".to_string(), "CODE-B".to_string()]),
    };
    let id = store.create(create, "c1".to_string(), "Acme".to_string(), 0).unwrap();
    let settings = UserTargetSettings { age: 25, country: "us".to_string() };
    let first = store.activate(&id, "a@x.com".to_string(), &settings, None, 0).unwrap();
    let second = store.activate(&id, "b@x.com".to_string(), &settings, None, 0).unwrap();
    assert_eq!(first, "CODE-B");
    assert_eq!(second, "CODE-A");
    let promo = store.get(&id).unwrap();
    assert_eq!(promo.promo_unique.len() + promo.activated_users.len(), 2);
    assert_eq!(promo.promo_unique.len(), 0);
}
