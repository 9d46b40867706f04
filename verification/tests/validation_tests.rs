use promo_engine::auth::CreateCompany;
use promo_engine::auth::SignInData;
use promo_engine::auth::is_valid_sign_up_data;
use promo_engine::promo::Promo;
use promo_engine::promo::PromoMode;
use promo_engine::target::Target;
use promo_engine::user::CreateUser;
use promo_engine::user::PatchUser;
use promo_engine::user::UserTargetSettings;
use promo_engine::validate::CreatePromo;
use promo_engine::validate::PatchPromo;
use promo_engine::validate::ValidationError;
use promo_engine::validate::validate_create;
use promo_engine::validate::validate_patch;

fn open_target() -> Target {
    Target { age_from: None, age_until: None, country: None, categories: None }
}

fn valid_common() -> CreatePromo {
    CreatePromo {
        description: Some("ten chars and then some".to_string()),
        image_url: None,
        target: Some(open_target()),
        max_count: Some(4),
        active_from: None,
        active_until: None,
        mode: Some(PromoMode::Common),
        promo_common: Some("COMMONCODE".to_string()),
        promo_unique: None,
    }
}

fn valid_unique() -> CreatePromo {
    CreatePromo {
        description: Some("ten chars and then some".to_string()),
        image_url: None,
        target: Some(open_target()),
        max_count: Some(2),
        active_from: None,
        active_until: None,
        mode: Some(PromoMode::Unique),
        promo_common: None,
        promo_unique: Some(vec!["CODE-A".to_string(), "CODE-B".to_string()]),
    }
}

fn stored_unique(max_count: i32, activated: &[&str]) -> Promo {
    Promo {
        description: "a unique promo for tests".to_string(),
        image_url: None,
        target: open_target(),
        max_count,
        create_date: 0,
        active_from: None,
        active_until: None,
        mode: PromoMode::Unique,
        promo_common: None,
        promo_unique: vec!["CODE-A".to_string()],
        promo_id: "p1".to_string(),
        company_id: "c1".to_string(),
        company_name: "Acme".to_string(),
        likes: Vec::new(),
        active: true,
        countries: Vec::new(),
        comments: Vec::new(),
        activated_users: activated.iter().map(|s| s.to_string()).collect(),
    }
}

fn empty_patch() -> PatchPromo {
    PatchPromo {
        description: None,
        image_url: None,
        target: None,
        max_count: None,
        active_from: None,
        active_until: None,
        mode: None,
        promo_common: None,
        promo_unique: None,
    }
}

#[test]
fn target_age_bounds() {
    let mut t = open_target();
    assert!(t.is_valid());
    t.age_from = Some(30);
    t.age_until = Some(20);
    assert!(!t.is_valid());
    t.age_until = Some(30);
    assert!(t.is_valid());
    t.age_from = Some(101);
    assert!(!t.is_valid());
    t.age_from = Some(-1);
    assert!(!t.is_valid());
}

#[test]
fn target_country_and_categories() {
    let mut t = open_target();
    t.country = Some("usa".to_string());
    assert!(!t.is_valid());
    t.country = Some("us".to_string());
    assert!(t.is_valid());
    t.categories = Some(vec!["food".to_string(), "x".to_string()]);
    assert!(!t.is_valid());
    t.categories = Some(vec!["food".to_string(), "travel".to_string()]);
    assert!(t.is_valid());
    t.categories = Some(vec!["c".repeat(21)]);
    assert!(!t.is_valid());
    t.categories = Some(Vec::new());
    assert!(t.is_valid());
}

#[test]
fn create_requires_fields() {
    let mut c = valid_common();
    assert!(c.is_valid());
    c.description = None;
    assert_eq!(validate_create(&c).unwrap_err(), ValidationError::MissingField);
}

#[test]
fn create_description_bounds() {
    let mut c = valid_common();
    c.description = Some("too short".to_string());
    assert_eq!(validate_create(&c).unwrap_err(), ValidationError::Description);
    c.description = Some("d".repeat(301));
    assert_eq!(validate_create(&c).unwrap_err(), ValidationError::Description);
    c.description = Some("d".repeat(300));
    assert!(c.is_valid());
    c.description = Some("exactly10!".to_string());
    assert!(c.is_valid());
}

#[test]
fn create_image_url_bound() {
    let mut c = valid_common();
    c.image_url = Some("u".repeat(351));
    assert_eq!(validate_create(&c).unwrap_err(), ValidationError::ImageUrl);
    c.image_url = Some("u".repeat(350));
    assert!(c.is_valid());
}

#[test]
fn create_rejects_bad_target() {
    let mut c = valid_common();
    c.target = Some(Target {
        age_from: Some(50),
        age_until: Some(20),
        country: None,
        categories: None,
    });
    assert_eq!(validate_create(&c).unwrap_err(), ValidationError::Target);
}

#[test]
fn create_common_code_rules() {
    let mut c = valid_common();
    c.promo_common = None;
    assert_eq!(validate_create(&c).unwrap_err(), ValidationError::CommonCode);
    c.promo_common = Some("abcd".to_string());
    assert_eq!(validate_create(&c).unwrap_err(), ValidationError::CommonCode);
    c.promo_common = Some("c".repeat(31));
    assert_eq!(validate_create(&c).unwrap_err(), ValidationError::CommonCode);
    c.promo_common = Some("abcde".to_string());
    assert!(c.is_valid());
    c.promo_unique = Some(vec!["CODE-A".to_string()]);
    assert_eq!(validate_create(&c).unwrap_err(), ValidationError::UniqueCodes);
}

#[test]
fn create_unique_code_rules() {
    let mut c = valid_unique();
    assert!(c.is_valid());
    c.promo_unique = Some(Vec::new());
    assert_eq!(validate_create(&c).unwrap_err(), ValidationError::UniqueCodes);
    c.promo_unique = Some(vec!["ab".to_string()]);
    assert_eq!(validate_create(&c).unwrap_err(), ValidationError::UniqueCodes);
    c.promo_unique = None;
    assert_eq!(validate_create(&c).unwrap_err(), ValidationError::UniqueCodes);
    c = valid_unique();
    c.promo_common = Some("COMMONCODE".to_string());
    assert_eq!(validate_create(&c).unwrap_err(), ValidationError::CommonCode);
}

#[test]
fn create_unique_max_count_matches_pool() {
    let mut c = valid_unique();
    c.max_count = Some(3);
    assert_eq!(validate_create(&c).unwrap_err(), ValidationError::MaxCount);
    c.max_count = Some(0);
    assert_eq!(validate_create(&c).unwrap_err(), ValidationError::MaxCount);
}

#[test]
fn create_window_rules() {
    let mut c = valid_common();
    c.active_from = Some("not a date".to_string());
    assert_eq!(validate_create(&c).unwrap_err(), ValidationError::DateFormat);
    c.active_from = Some("2024-05-20".to_string());
    c.active_until = Some("2024-05-10".to_string());
    assert_eq!(validate_create(&c).unwrap_err(), ValidationError::Window);
    c.active_until = Some("2024-05-20".to_string());
    assert!(c.is_valid());
}

#[test]
fn patch_empty_is_valid() {
    let promo = stored_unique(5, &[]);
    assert!(validate_patch(&empty_patch(), &promo).is_ok());
}

#[test]
fn patch_mode_and_codes_immutable() {
    let promo = stored_unique(5, &[]);
    let mut p = empty_patch();
    p.mode = Some(PromoMode::Common);
    assert_eq!(validate_patch(&p, &promo).unwrap_err(), ValidationError::ImmutableField);
    let mut p2 = empty_patch();
    p2.promo_unique = Some(vec!["CODE-X".to_string()]);
    assert_eq!(validate_patch(&p2, &promo).unwrap_err(), ValidationError::ImmutableField);
    let mut p3 = empty_patch();
    p3.promo_common = Some("NEWCODE".to_string());
    assert_eq!(validate_patch(&p3, &promo).unwrap_err(), ValidationError::ImmutableField);
}

#[test]
fn scenario_downsizing_below_consumption_rejected() {
    let promo = stored_unique(10, &["a@x.com", "b@x.com", "c@x.com", "d@x.com", "e@x.com"]);
    let mut p = empty_patch();
    p.max_count = Some(3);
    assert_eq!(validate_patch(&p, &promo).unwrap_err(), ValidationError::MaxCount);
    p.max_count = Some(5);
    assert!(validate_patch(&p, &promo).is_ok());
}

#[test]
fn patch_max_count_never_grows() {
    let promo = stored_unique(5, &[]);
    let mut p = empty_patch();
    p.max_count = Some(6);
    assert_eq!(validate_patch(&p, &promo).unwrap_err(), ValidationError::MaxCount);
    p.max_count = Some(0);
    assert_eq!(validate_patch(&p, &promo).unwrap_err(), ValidationError::MaxCount);
}

#[test]
fn patch_window_inherits_dates() {
    let mut promo = stored_unique(5, &[]);
    promo.active_until = promo_engine::dates::parse_date("2024-05-10");
    let mut p = empty_patch();
    p.active_from = Some("2024-05-20".to_string());
    assert_eq!(validate_patch(&p, &promo).unwrap_err(), ValidationError::Window);
    p.active_from = Some("2024-05-01".to_string());
    assert!(validate_patch(&p, &promo).is_ok());
    p.active_from = Some("05/01/2024".to_string());
    assert_eq!(validate_patch(&p, &promo).unwrap_err(), ValidationError::DateFormat);
}

#[test]
fn sign_in_data_rules() {
    let ok = SignInData { email: "company@mail.com".to_string(), password: "Passw0rdx".to_string() };
    assert!(ok.is_valid());
    let short_email = SignInData { email: "a@b.com".to_string(), password: "Passw0rdx".to_string() };
    assert!(!short_email.is_valid());
    let weak = SignInData { email: "company@mail.com".to_string(), password: "password".to_string() };
    assert!(!weak.is_valid());
    let spaced = SignInData {
        email: "company@mail.com".to_string(),
        password: "Pass w0rdx".to_string(),
    };
    assert!(!spaced.is_valid());
}

#[test]
fn company_sign_up_rules() {
    let ok = CreateCompany {
        name: "Acme Promotions".to_string(),
        email: "acme@mail.com".to_string(),
        password: "Passw0rd".to_string(),
    };
    assert!(is_valid_sign_up_data(&ok));
    let bad_email = CreateCompany {
        name: "Acme Promotions".to_string(),
        email: "not-an-email".to_string(),
        password: "Passw0rd".to_string(),
    };
    assert!(!is_valid_sign_up_data(&bad_email));
    let short_name = CreateCompany {
        name: "Acme".to_string(),
        email: "acme@mail.com".to_string(),
        password: "Passw0rd".to_string(),
    };
    assert!(!is_valid_sign_up_data(&short_name));
    let no_digit = CreateCompany {
        name: "Acme Promotions".to_string(),
        email: "acme@mail.com".to_string(),
        password: "Password".to_string(),
    };
    assert!(!is_valid_sign_up_data(&no_digit));
}

#[test]
fn user_sign_up_rules() {
    let ok = CreateUser {
        name: "Ada".to_string(),
        surname: "Lovelace".to_string(),
        email: "ada@mail.com".to_string(),
        avatar_url: None,
        other: UserTargetSettings { age: 30, country: "uk".to_string() },
        password: "Passw0rdx".to_string(),
    };
    assert!(ok.is_valid());
    let mut bad = CreateUser {
        name: "".to_string(),
        surname: "Lovelace".to_string(),
        email: "ada@mail.com".to_string(),
        avatar_url: None,
        other: UserTargetSettings { age: 30, country: "uk".to_string() },
        password: "Passw0rdx".to_string(),
    };
    assert!(!bad.is_valid());
    bad.name = "Ada".to_string();
    bad.other.age = 101;
    assert!(!bad.is_valid());
    bad.other.age = 30;
    bad.other.country = "gbr".to_string();
    assert!(!bad.is_valid());
    bad.other.country = "uk".to_string();
    bad.email = "NOLOWERCASE".to_string();
    assert!(!bad.is_valid());
}

#[test]
fn user_patch_rules() {
    let ok = PatchUser { name: None, surname: None, avatar_url: None, password: None };
    assert!(ok.is_valid());
    let long_name = PatchUser {
        name: Some("n".repeat(101)),
        surname: None,
        avatar_url: None,
        password: None,
    };
    assert!(!long_name.is_valid());
    let weak = PatchUser {
        name: None,
        surname: None,
        avatar_url: None,
        password: Some("alllowercase1".to_string()),
    };
    assert!(!weak.is_valid());
    let strong = PatchUser {
        name: None,
        surname: None,
        avatar_url: None,
        password: Some("Alllowercase1".to_string()),
    };
    assert!(strong.is_valid());
}

#[test]
fn settings_validity() {
    assert!(UserTargetSettings { age: 0, country: "us".to_string() }.is_valid());
    assert!(!UserTargetSettings { age: -1, country: "us".to_string() }.is_valid());
    assert!(!UserTargetSettings { age: 101, country: "us".to_string() }.is_valid());
    assert!(!UserTargetSettings { age: 50, country: "u".to_string() }.is_valid());
}
