use promo_engine::activation::ActivationError;
use promo_engine::dates::parse_date;
use promo_engine::promo::Promo;
use promo_engine::promo::PromoMode;
use promo_engine::store::PromoStore;
use promo_engine::target::Target;
use promo_engine::user::UserTargetSettings;
use promo_engine::validate::CreatePromo;

fn open_target() -> Target {
    Target { age_from: None, age_until: None, country: None, categories: None }
}

fn user(country: &str) -> UserTargetSettings {
    UserTargetSettings { age: 30, country: country.to_string() }
}

fn common_create(max_count: i32) -> CreatePromo {
    CreatePromo {
        description: Some("a promo description".to_string()),
        image_url: None,
        target: Some(open_target()),
        max_count: Some(max_count),
        active_from: None,
        active_until: None,
        mode: Some(PromoMode::Common),
        promo_common: Some("SHARED-CODE".to_string()),
        promo_unique: None,
    }
}

fn unique_promo(codes: &[&str], max_count: i32) -> Promo {
    Promo {
        description: "a unique promo for tests".to_string(),
        image_url: None,
        target: open_target(),
        max_count,
        create_date: 0,
        active_from: None,
        active_until: None,
        mode: PromoMode::Unique,
        promo_common: None,
        promo_unique: codes.iter().map(|c| c.to_string()).collect(),
        promo_id: "promo-1".to_string(),
        company_id: "company-1".to_string(),
        company_name: "Acme Promotions".to_string(),
        likes: Vec::new(),
        active: true,
        countries: Vec::new(),
        comments: Vec::new(),
        activated_users: Vec::new(),
    }
}

#[test]
fn scenario_common_capacity_one() {
    let mut store = PromoStore::new();
    let id = store
        .create(common_create(1), "c1".to_string(), "Acme".to_string(), 100)
        .unwrap();
    let first = store.activate(&id, "alice@example.com".to_string(), &user("us"), None, 0);
    assert_eq!(first.unwrap(), "SHARED-CODE");
    let second = store.activate(&id, "bob@example.com".to_string(), &user("us"), None, 0);
    assert_eq!(second.unwrap_err(), ActivationError::Exhausted);
}

#[test]
fn scenario_unique_pool_lifo() {
    let mut store = PromoStore::new();
    store.promos.push(unique_promo(&["A", "B"], 2));
    let first = store.activate("promo-1", "u1@example.com".to_string(), &user("us"), None, 0);
    assert_eq!(first.unwrap(), "B");
    let second = store.activate(
        "promo-1",
        "u2@example.com".to_string(),
        &user("us"),
        Some(&"A".to_string()),
        0,
    );
    assert_eq!(second.unwrap(), "A");
    let third = store.activate("promo-1", "u3@example.com".to_string(), &user("us"), None, 0);
    assert_eq!(third.unwrap_err(), ActivationError::Exhausted);
    let promo = store.get("promo-1").unwrap();
    assert_eq!(promo.promo_unique.len(), 0);
    assert_eq!(promo.activated_users.len(), 2);
}

#[test]
fn retry_is_already_redeemed() {
    let mut store = PromoStore::new();
    let id = store
        .create(common_create(5), "c1".to_string(), "Acme".to_string(), 100)
        .unwrap();
    let first = store.activate(&id, "alice@example.com".to_string(), &user("us"), None, 0);
    assert!(first.is_ok());
    let again = store.activate(&id, "alice@example.com".to_string(), &user("us"), None, 0);
    assert_eq!(again.unwrap_err(), ActivationError::AlreadyRedeemed);
    assert_eq!(store.get(&id).unwrap().activated_users.len(), 1);
}

#[test]
fn window_gates_activation() {
    let mut store = PromoStore::new();
    let mut create = common_create(5);
    create.active_from = Some("2024-03-10".to_string());
    create.active_until = Some("2024-03-20".to_string());
    let id = store
        .create(create, "c1".to_string(), "Acme".to_string(), 100)
        .unwrap();
    let before = parse_date("2024-03-09").unwrap();
    let inside = parse_date("2024-03-10").unwrap();
    let after = parse_date("2024-03-21").unwrap();
    let early = store.activate(&id, "a@example.com".to_string(), &user("us"), None, before);
    assert_eq!(early.unwrap_err(), ActivationError::OutsideWindow);
    let late = store.activate(&id, "a@example.com".to_string(), &user("us"), None, after);
    assert_eq!(late.unwrap_err(), ActivationError::OutsideWindow);
    let ok = store.activate(&id, "a@example.com".to_string(), &user("us"), None, inside);
    assert_eq!(ok.unwrap(), "SHARED-CODE");
}

#[test]
fn switched_off_promo_rejects() {
    let mut store = PromoStore::new();
    let mut promo = unique_promo(&["CODE-ONE"], 1);
    promo.active = false;
    store.promos.push(promo);
    let r = store.activate("promo-1", "a@example.com".to_string(), &user("us"), None, 0);
    assert_eq!(r.unwrap_err(), ActivationError::NotActive);
}

#[test]
fn ineligible_age_rejected() {
    let mut store = PromoStore::new();
    let mut promo = unique_promo(&["CODE-ONE"], 1);
    promo.target.age_from = Some(40);
    store.promos.push(promo);
    let young = UserTargetSettings { age: 30, country: "us".to_string() };
    let r = store.activate("promo-1", "a@example.com".to_string(), &young, None, 0);
    assert_eq!(r.unwrap_err(), ActivationError::NotEligible);
    let old_enough = UserTargetSettings { age: 40, country: "us".to_string() };
    let r2 = store.activate("promo-1", "a@example.com".to_string(), &old_enough, None, 0);
    assert!(r2.is_ok());
}

#[test]
fn country_match_ignores_case() {
    let mut store = PromoStore::new();
    let mut promo = unique_promo(&["CODE-ONE"], 1);
    promo.target.country = Some("US".to_string());
    store.promos.push(promo);
    let german = UserTargetSettings { age: 30, country: "de".to_string() };
    let r = store.activate("promo-1", "a@example.com".to_string(), &german, None, 0);
    assert_eq!(r.unwrap_err(), ActivationError::NotEligible);
    let american = UserTargetSettings { age: 30, country: "us".to_string() };
    let r2 = store.activate("promo-1", "b@example.com".to_string(), &american, None, 0);
    assert_eq!(r2.unwrap(), "CODE-ONE");
}

#[test]
fn requested_code_must_be_in_pool() {
    let mut store = PromoStore::new();
    store.promos.push(unique_promo(&["CODE-ONE", "CODE-TWO"], 2));
    let wrong = "CODE-NINE".to_string();
    let r = store.activate("promo-1", "a@example.com".to_string(), &user("us"), Some(&wrong), 0);
    assert_eq!(r.unwrap_err(), ActivationError::CodeMismatch);
    let right = "CODE-ONE".to_string();
    let r2 = store.activate("promo-1", "a@example.com".to_string(), &user("us"), Some(&right), 0);
    assert_eq!(r2.unwrap(), "CODE-TWO");
}

#[test]
fn unknown_promo_not_found() {
    let mut store = PromoStore::new();
    let r = store.activate("missing", "a@example.com".to_string(), &user("us"), None, 0);
    assert_eq!(r.unwrap_err(), ActivationError::NotFound);
}

#[test]
fn country_tally_counts_redemptions() {
    let mut store = PromoStore::new();
    let id = store
        .create(common_create(10), "c1".to_string(), "Acme".to_string(), 100)
        .unwrap();
    store.activate(&id, "a@example.com".to_string(), &user("US"), None, 0).unwrap();
    store.activate(&id, "b@example.com".to_string(), &user("us"), None, 0).unwrap();
    store.activate(&id, "c@example.com".to_string(), &user("de"), None, 0).unwrap();
    let stat = store.get_stat(&id, "c1").unwrap();
    assert_eq!(stat.activate_count, 3);
    assert_eq!(stat.countries.len(), 2);
    assert_eq!(stat.countries[0].name, "US");
    assert_eq!(stat.countries[0].activate_count, 2);
    assert_eq!(stat.countries[1].name, "de");
    assert_eq!(stat.countries[1].activate_count, 1);
}

#[test]
fn capacity_never_exceeded_under_many_attempts() {
    let mut store = PromoStore::new();
    let id = store
        .create(common_create(3), "c1".to_string(), "Acme".to_string(), 100)
        .unwrap();
    let mut successes = 0;
    for i in 0..10 {
        let email = format!("user{}@example.com", i);
        if store.activate(&id, email, &user("us"), None, 0).is_ok() {
            successes += 1;
        }
    }
    assert_eq!(successes, 3);
    assert_eq!(store.get(&id).unwrap().activated_users.len(), 3);
}
