use budget2::model::households::{HouseholdMembership, Role};
use budget2::web::dashboard::{chart_series, DashboardQuery, CHART_COLORS, TRANSACTION_ROWS};
use budget2::web::helpers::{can_import, is_manager};
use budget2::web::request_context::{nonce_of, RequestContext};

fn query() -> DashboardQuery {
    DashboardQuery {
        date: "  2026-01 ".to_string(),
        description: "   ".to_string(),
        account: "12".to_string(),
        category: "x".to_string(),
        amount: String::new(),
        offset: -5,
    }
}

#[test]
fn dashboard_query_selects_filters() {
    let q = query();
    let f = q.filters();
    assert_eq!(f.date.as_deref(), Some("2026-01"));
    assert_eq!(f.description, None);
    assert_eq!(f.account_id, Some(12));
    assert_eq!(f.category_id, None);
    assert_eq!(q.account_id(), 12);
    assert_eq!(q.category_id(), -1);
}

#[test]
fn dashboard_pages_never_start_below_zero() {
    let q = query();
    assert_eq!(q.page_offset(), 0);
    assert_eq!(q.next_offset(), TRANSACTION_ROWS);
    let q = DashboardQuery { offset: 120, ..Default::default() };
    assert_eq!(q.page_offset(), 120);
    assert_eq!(q.next_offset(), 180);
}

#[test]
fn chart_series_group_by_name_in_order() {
    let points = vec![
        ("Savings".to_string(), 1),
        ("Checking".to_string(), 2),
        ("Savings".to_string(), 3),
        ("Card".to_string(), 4),
    ];
    let series = chart_series(points);
    let names: Vec<&str> = series.iter().map(|s| s.name.as_str()).collect();
    assert_eq!(names, vec!["Card", "Checking", "Savings"]);
    assert_eq!(series[2].points, vec![1, 3]);
    assert_eq!(series[0].points, vec![4]);
    assert_eq!(series[0].color, CHART_COLORS[0]);
    assert_eq!(series[2].color, CHART_COLORS[2]);
}

#[test]
fn chart_colors_cycle_after_twelve_series() {
    let points: Vec<(String, u8)> = (0..13u8).map(|i| (format!("s{:02}", i), i)).collect();
    let series = chart_series(points);
    assert_eq!(series.len(), 13);
    assert_eq!(series[12].color, CHART_COLORS[0]);
    assert_eq!(series[12].name, "s12");
}

#[test]
fn empty_chart_has_no_series() {
    let series = chart_series(Vec::<(String, i32)>::new());
    assert!(series.is_empty());
}

#[test]
fn roles_decide_what_members_may_do() {
    let manager = HouseholdMembership { household_id: 1, user_id: 1, role: Role::Manager };
    let assistant = HouseholdMembership { household_id: 1, user_id: 2, role: Role::Assistant };
    let member = HouseholdMembership { household_id: 1, user_id: 3, role: Role::Member };
    assert!(is_manager(&manager));
    assert!(!is_manager(&assistant));
    assert!(can_import(&assistant));
    assert!(can_import(&manager));
    assert!(!can_import(&member));
}

#[test]
fn request_context_takes_the_nonce_header() {
    let ctx = RequestContext::from_nonce_header(Some(Some("abc".to_string())));
    assert!(ctx.csr);
    assert!(!ctx.fluid);
    assert_eq!(ctx.nonce, "abc");
}

#[test]
fn request_context_generates_a_nonce_without_header() {
    let ctx = RequestContext::from_nonce_header(None);
    assert!(!ctx.csr);
    assert_eq!(ctx.nonce.len(), 16);
    assert!(ctx.nonce.chars().all(|c| c.is_ascii_alphanumeric()));
    let ctx = RequestContext::from_nonce_header(Some(None));
    assert!(ctx.csr);
    assert_eq!(ctx.nonce.len(), 16);
}

#[test]
fn nonces_are_the_drawn_codes() {
    assert_eq!(nonce_of(&b"abcdEFGH01234567".to_vec()), "abcdEFGH01234567");
    assert_eq!(nonce_of(&vec![122, 48]), "z0");
}
