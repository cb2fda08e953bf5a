use budget2::model::csv::{
    amount_text, ColumnMapping, ImportProgress, ImportRow,
};
use budget2::model::dates::normalize_date;
use budget2::model::households::{set_role, HouseholdMember, Role};
use budget2::model::import_rules::ImportRule;
use budget2::model::transactions::{group_thousands, take_page};
use budget2::single_user::request_context::RequestContext as SingleUserContext;
use budget2::web::import::new_upload_file_id;

#[test]
fn grouped_amounts_read_back_as_their_digits() {
    assert_eq!(group_thousands("1234567"), "1,234,567");
    assert_eq!(amount_text(&group_thousands("1234567")), "1234567");
    assert_eq!(amount_text(&group_thousands("12")), "12");
    assert_eq!(group_thousands(""), "");
}

#[test]
fn roles_read_back_from_their_text() {
    for role in [Role::Manager, Role::Assistant, Role::Member] {
        assert_eq!(Role::parse(role.as_str()), role);
    }
    assert_eq!(Role::parse("owner"), Role::Member);
}

fn member(user_id: i64, role: Role) -> HouseholdMember {
    HouseholdMember { user_id, email: format!("{user_id}@example.com"), name: format!("User {user_id}"), role }
}

#[test]
fn household_keeps_a_manager() {
    let mut members = vec![member(1, Role::Manager), member(2, Role::Member)];
    assert!(set_role(&mut members, 1, 1, Role::Member).is_err());
    assert_eq!(members[0].role, Role::Manager);
    assert!(set_role(&mut members, 1, 2, Role::Manager).is_ok());
    assert!(set_role(&mut members, 1, 1, Role::Assistant).is_ok());
    assert_eq!(members[0].role, Role::Assistant);
    assert_eq!(members[1].role, Role::Manager);
}

#[test]
fn only_managers_change_roles() {
    let mut members = vec![member(1, Role::Manager), member(2, Role::Assistant), member(3, Role::Member)];
    assert!(set_role(&mut members, 2, 3, Role::Assistant).is_err());
    assert_eq!(members[2].role, Role::Member);
}

#[test]
fn accepted_dates_are_iso_calendar_dates() {
    for value in ["2026/9/2", "02.09.2026", "2024年2月29日", "2026-31-01"] {
        let date = normalize_date(value, None).unwrap();
        assert_eq!(date.len(), 10);
        assert_eq!(&date[4..5], "-");
        assert_eq!(&date[7..8], "-");
    }
    assert!(normalize_date("2023-02-29", None).is_err());
}

#[test]
fn import_counts_stay_balanced() {
    let mapping = ColumnMapping {
        csrf_token: String::new(),
        file_id: String::new(),
        date_column: "Date".into(),
        date_format: None,
        income_column: String::new(),
        expense_column: "Amount".into(),
        description_column: "Description".into(),
        account_column: None,
        account_fixed_name: None,
        category_column: None,
        currency_multiplier: None,
        headers: vec!["Date".into(), "Description".into(), "Amount".into()],
    };
    let mut progress = ImportProgress::new();
    for (name, outcome) in [
        ("a", Ok(ImportRow::Imported)),
        ("b", Ok(ImportRow::Skipped)),
        ("c", Ok(ImportRow::NoAmount)),
        ("d", Err("bad".to_string())),
    ] {
        let row = vec!["2024-01-01".to_string(), name.to_string(), "1".to_string()];
        let record = progress.read_row(&mapping, Ok(row)).expect("a data row");
        progress.count_row(format!("{record:?}"), outcome);
    }
    assert!(progress.read_row(&mapping, Err("broken".into())).is_none());
    let r = &progress.result;
    assert_eq!(r.total_rows, r.successful + r.skipped + r.errors.len());
    assert_eq!((r.total_rows, r.successful, r.skipped, r.errors.len()), (5, 1, 1, 3));
    assert_eq!(r.errors[0].error, "No valid amount found");
    assert_eq!(r.errors[0].row_number, 4);
    assert_eq!(r.errors[1].row_number, 5);
    assert_eq!(r.errors[2].row_number, 6);
    assert_eq!(r.errors[2].row_data, "Unable to read row");
    assert_eq!(progress.rows_read, 5);
}

#[test]
fn heading_rows_set_the_account_and_are_not_counted() {
    let mapping = ColumnMapping {
        csrf_token: String::new(),
        file_id: String::new(),
        date_column: "Date".into(),
        date_format: None,
        income_column: String::new(),
        expense_column: "Amount".into(),
        description_column: "Description".into(),
        account_column: Some("FROM_HEADING_ROW".into()),
        account_fixed_name: None,
        category_column: None,
        currency_multiplier: None,
        headers: vec!["Date".into(), "Description".into(), "Amount".into()],
    };
    let mut progress = ImportProgress::new();
    let heading = vec!["".to_string(), "【Card】".to_string(), "".to_string()];
    assert!(progress.read_row(&mapping, Ok(heading)).is_none());
    assert_eq!(progress.result.total_rows, 0);
    let row = vec!["2024-01-01".to_string(), "Shop".to_string(), "1".to_string()];
    assert!(progress.read_row(&mapping, Ok(row)).is_some());
    progress.count_row("Shop".into(), Err("bad".into()));
    assert_eq!(progress.result.errors[0].row_number, 3);
    assert_eq!(progress.result.total_rows, 1);
}

#[test]
fn duplicates_are_skipped_and_inserts_imported() {
    assert_eq!(ImportRow::NoAmount.after_insert(false), ImportRow::Skipped);
    assert_eq!(ImportRow::NoAmount.after_insert(true), ImportRow::Imported);
    assert_eq!(ImportRow::Imported.after_insert(false), ImportRow::Imported);
}

#[test]
fn pages_hold_at_most_the_limit() {
    let (rows, more) = take_page(vec![1, 2, 3], 2);
    assert_eq!(rows, vec![1, 2]);
    assert!(more);
    let (rows, more) = take_page(vec![1, 2], 2);
    assert_eq!(rows, vec![1, 2]);
    assert!(!more);
}

#[test]
fn statement_values_survive_the_rules() {
    let rule = ImportRule {
        match_description: Some("coffee".into()),
        account_id: Some(9),
        category_id: Some(7),
        ..Default::default()
    };
    let rules = vec![rule];
    let (account, category) =
        budget2::model::csv::apply_import_rules(&rules, "Morning Coffee", None, 3, None);
    assert_eq!((account, category), (3, Some(7)));
    let (account, category) =
        budget2::model::csv::apply_import_rules(&rules, "Morning Coffee", None, 0, Some(1));
    assert_eq!((account, category), (9, Some(1)));
}

#[test]
fn upload_ids_are_made_for_the_user() {
    let id = new_upload_file_id(42);
    assert!(id.starts_with("budget2-upload-42-"));
    assert!(id.ends_with(".csv"));
    assert_eq!(id.len(), "budget2-upload-42-".len() + 32 + 4);
    assert!(id["budget2-upload-42-".len()..id.len() - 4].chars().all(|c| c.is_ascii_hexdigit()));
}

#[test]
fn single_user_nonces_are_alphanumeric() {
    let ctx = SingleUserContext::from_nonce_header(None);
    assert!(!ctx.csr);
    assert_eq!(ctx.nonce.chars().count(), 16);
    assert!(ctx.nonce.chars().all(|c| c.is_ascii_alphanumeric()));
    let ctx = SingleUserContext::from_nonce_header(Some(Some("n".into())));
    assert_eq!(ctx.nonce, "n");
}

#[test]
fn iso_calendar_dates_read_back_as_themselves() {
    for date in ["2024-02-29", "0001-01-01", "9999-12-31", "2023-10-05"] {
        assert_eq!(normalize_date(date, None).unwrap(), date);
    }
}
