use promo_engine::dates::parse_date;
use promo_engine::listing::ListParamError;
use promo_engine::listing::ListQuery;
use promo_engine::listing::SortBy;
use promo_engine::listing::list_promos;
use promo_engine::listing::parse_list_params;
use promo_engine::promo::Promo;
use promo_engine::promo::PromoMode;
use promo_engine::target::Target;

fn promo(id: &str, company: &str, country: Option<&str>, created: i64) -> Promo {
    Promo {
        description: "a promo description".to_string(),
        image_url: None,
        target: Target {
            age_from: None,
            age_until: None,
            country: country.map(|c| c.to_string()),
            categories: None,
        },
        max_count: 5,
        create_date: created,
        active_from: None,
        active_until: None,
        mode: PromoMode::Common,
        promo_common: Some("COMMONCODE".to_string()),
        promo_unique: Vec::new(),
        promo_id: id.to_string(),
        company_id: company.to_string(),
        company_name: "Acme".to_string(),
        likes: Vec::new(),
        active: true,
        countries: Vec::new(),
        comments: Vec::new(),
        activated_users: Vec::new(),
    }
}

fn query() -> ListQuery {
    ListQuery { countries: Vec::new(), offset: None, limit: None, sort_by: None }
}

fn params(kv: &[(&str, &str)]) -> Vec<(String, String)> {
    kv.iter().map(|(k, v)| (k.to_string(), v.to_string())).collect()
}

#[test]
fn scenario_country_filter_keeps_untargeted() {
    let promos = vec![
        promo("p1", "c1", None, 1),
        promo("p2", "c1", Some("DE"), 2),
    ];
    let mut q = query();
    q.countries = vec!["US".to_string()];
    let (page, total) = list_promos(&promos, "c1", &q);
    assert_eq!(total, 1);
    assert_eq!(page.len(), 1);
    assert_eq!(page[0].promo_id, "p1");
}

#[test]
fn country_filter_matches_case_insensitively() {
    let promos = vec![
        promo("p1", "c1", Some("us"), 1),
        promo("p2", "c1", Some("DE"), 2),
    ];
    let mut q = query();
    q.countries = vec!["US".to_string()];
    let (page, total) = list_promos(&promos, "c1", &q);
    assert_eq!(total, 1);
    assert_eq!(page[0].promo_id, "p1");
}

#[test]
fn only_own_promos_are_listed() {
    let promos = vec![
        promo("p1", "c1", None, 1),
        promo("p2", "other", None, 2),
    ];
    let (page, total) = list_promos(&promos, "c1", &query());
    assert_eq!(total, 1);
    assert_eq!(page[0].promo_id, "p1");
}

#[test]
fn default_order_is_newest_first() {
    let promos = vec![
        promo("old", "c1", None, 10),
        promo("new", "c1", None, 30),
        promo("mid", "c1", None, 20),
    ];
    let (page, _) = list_promos(&promos, "c1", &query());
    let ids: Vec<&str> = page.iter().map(|p| p.promo_id.as_str()).collect();
    assert_eq!(ids, vec!["new", "mid", "old"]);
}

#[test]
fn sort_by_active_from_puts_missing_last() {
    let mut a = promo("a", "c1", None, 1);
    a.active_from = parse_date("2024-02-01");
    let mut b = promo("b", "c1", None, 2);
    b.active_from = parse_date("2024-01-01");
    let c = promo("c", "c1", None, 3);
    let promos = vec![a, b, c];
    let mut q = query();
    q.sort_by = Some(SortBy::ActiveFrom);
    let (page, _) = list_promos(&promos, "c1", &q);
    let ids: Vec<&str> = page.iter().map(|p| p.promo_id.as_str()).collect();
    assert_eq!(ids, vec!["b", "a", "c"]);
}

#[test]
fn sort_by_active_until_ascending() {
    let mut a = promo("a", "c1", None, 1);
    a.active_until = parse_date("2024-06-01");
    let mut b = promo("b", "c1", None, 2);
    b.active_until = parse_date("2024-05-01");
    let promos = vec![a, b];
    let mut q = query();
    q.sort_by = Some(SortBy::ActiveUntil);
    let (page, _) = list_promos(&promos, "c1", &q);
    let ids: Vec<&str> = page.iter().map(|p| p.promo_id.as_str()).collect();
    assert_eq!(ids, vec!["b", "a"]);
}

#[test]
fn offset_and_limit_clamp() {
    let promos = vec![
        promo("p1", "c1", None, 1),
        promo("p2", "c1", None, 2),
        promo("p3", "c1", None, 3),
    ];
    let mut q = query();
    q.offset = Some(1);
    q.limit = Some(5);
    let (page, total) = list_promos(&promos, "c1", &q);
    assert_eq!(total, 3);
    assert_eq!(page.len(), 2);
    q.offset = Some(10);
    let (page2, total2) = list_promos(&promos, "c1", &q);
    assert_eq!(total2, 3);
    assert_eq!(page2.len(), 0);
    q.offset = None;
    q.limit = Some(2);
    let (page3, _) = list_promos(&promos, "c1", &q);
    assert_eq!(page3.len(), 2);
}

#[test]
fn read_model_counts_are_derived() {
    let mut p = promo("p1", "c1", None, 1);
    p.likes = vec!["a@x.com".to_string(), "b@x.com".to_string()];
    p.activated_users = vec!["a@x.com".to_string()];
    let promos = vec![p];
    let (page, _) = list_promos(&promos, "c1", &query());
    assert_eq!(page[0].like_count, 2);
    assert_eq!(page[0].used_count, 1);
}

#[test]
fn params_parse_countries_offset_limit() {
    let q = parse_list_params(&params(&[
        ("country", "US"),
        ("offset", "2"),
        ("country", "DE"),
        ("limit", "10"),
    ]))
    .unwrap();
    assert_eq!(q.countries, vec!["US".to_string(), "DE".to_string()]);
    assert_eq!(q.offset, Some(2));
    assert_eq!(q.limit, Some(10));
    assert_eq!(q.sort_by, None);
}

#[test]
fn params_last_value_wins() {
    let q = parse_list_params(&params(&[("offset", "2"), ("offset", "7")])).unwrap();
    assert_eq!(q.offset, Some(7));
}

#[test]
fn params_reject_unknown_sort() {
    let r = parse_list_params(&params(&[("sort_by", "created")]));
    assert_eq!(r.unwrap_err(), ListParamError::UnknownSortBy);
    let q = parse_list_params(&params(&[("sort_by", "active_from")])).unwrap();
    assert_eq!(q.sort_by, Some(SortBy::ActiveFrom));
    let q2 = parse_list_params(&params(&[("sort_by", "active_until")])).unwrap();
    assert_eq!(q2.sort_by, Some(SortBy::ActiveUntil));
}

#[test]
fn params_reject_bad_numbers() {
    let r = parse_list_params(&params(&[("offset", "ten")]));
    assert_eq!(r.unwrap_err(), ListParamError::BadNumber);
    let r2 = parse_list_params(&params(&[("limit", "")]));
    assert_eq!(r2.unwrap_err(), ListParamError::BadNumber);
    let r3 = parse_list_params(&params(&[("limit", "99999999999999999999999999")]));
    assert_eq!(r3.unwrap_err(), ListParamError::BadNumber);
    let q = parse_list_params(&params(&[("offset", "0"), ("limit", "007")])).unwrap();
    assert_eq!(q.offset, Some(0));
    assert_eq!(q.limit, Some(7));
}

#[test]
fn sort_applies_to_the_cut_page() {
    let promos = vec![
        promo("p1", "c1", None, 10),
        promo("p2", "c1", None, 20),
        promo("p3", "c1", None, 30),
    ];
    let mut q = query();
    q.offset = Some(1);
    let (page, total) = list_promos(&promos, "c1", &q);
    assert_eq!(total, 3);
    let ids: Vec<&str> = page.iter().map(|p| p.promo_id.as_str()).collect();
    assert_eq!(ids, vec!["p3", "p2"]);
}
