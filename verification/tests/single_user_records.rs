use budget2::single_user::chart::{sort_by_key, sorted_entries, x_labels};
use budget2::single_user::auth::new_signed_in_user;
use budget2::single_user::columns::normalize_date;
use budget2::single_user::csv::{
    read_csv_headers, transaction_kind, upload_file_id, ColumnMapping as OneAmountMapping,
    ImportResult as OneAmountResult,
};
use budget2::single_user::request_context::{nonce_from_indices, RequestContext as SingleUserContext};
use budget2::single_user::statement::{check_file_id, open_statement};
use budget2::single_user::dashboard::{assign_colors, default_year, page_offset};
use budget2::single_user::filters::{extract_month, PALETTE};
use budget2::single_user::handlers::{
    default_page, default_per_page, empty_string_as_none, empty_string_as_none_i64, page_window,
    total_pages, transaction_conditions, TransactionFilters,
};
use budget2::single_user::import::{amount_type, needs_rules, AmountSide, ColumnMapping, ImportResult};
use budget2::single_user::models::{Account, ImportRule, OauthError, RuleTarget, TransactionQuery};
use budget2::single_user::rules::{group_by_category, group_name, optional_id, priority_or_default};
use budget2::single_user::static_files::{static_asset, StaticAsset};

fn mapping() -> ColumnMapping {
    ColumnMapping {
        file_id: String::new(),
        date_column: "Date".into(),
        income_column: "In".into(),
        expense_column: "Out".into(),
        description_column: "Text".into(),
        account_column: Some("Account".into()),
        account_fixed_name: Some("Fixed".into()),
        category_column: None,
        currency_multiplier: None,
        headers: vec![],
    }
    .with_header_map(vec!["Date".into(), "Text".into(), "Out".into(), "Account".into()])
}

#[test]
fn single_user_importer_reads_slash_dates() {
    assert_eq!(normalize_date(" 2024/1/5 ").unwrap(), "2024-01-05");
    assert_eq!(normalize_date("2024-01-05").unwrap(), "2024-01-05");
    assert_eq!(
        normalize_date("5.1.2024").unwrap_err(),
        "Invalid date format: '5.1.2024'. Expected YYYY-MM-DD or YYYY/MM/DD"
    );
    assert_eq!(normalize_date("2024//").unwrap(), "2024-00-00");
}

#[test]
fn column_values_are_found_by_header() {
    let m = mapping();
    let record: Vec<String> = vec!["2024/2/3".into(), "Coffee".into(), "12".into(), "  ".into()];
    assert_eq!(m.value(&record, Some("Out")).unwrap(), "12");
    assert_eq!(m.value(&record, Some("Missing")).unwrap_err(), "Column Missing not found");
    assert_eq!(m.value(&record, None).unwrap_err(), "Can't lookup value without column name");
    assert_eq!(m.non_empty_value(&record, Some("Account")).unwrap_err(), "Column Account is empty");
    let plan = m.plan_row(&record).unwrap();
    assert_eq!(plan.description, "Coffee");
    assert_eq!(plan.transaction_date, "2024-02-03");
    assert_eq!(plan.account_name.as_deref(), Some("Fixed"));
    assert_eq!(plan.category_name, None);
    let (income, expense) = m.amount_values(&record);
    assert_eq!(income, None);
    assert_eq!(expense.as_deref(), Some("12"));
}

#[test]
fn single_user_importer_flips_negative_amounts_only() {
    assert_eq!(transaction_kind(" Income ", true).unwrap(), "expense");
    assert_eq!(transaction_kind("expense", true).unwrap(), "income");
    assert_eq!(transaction_kind("income", false).unwrap_err(), "Unexpected transaction_type income");
    let m = OneAmountMapping {
        file_id: String::new(),
        date_column: "D".into(),
        amount_column: "A".into(),
        amount_multiplier: None,
        description_column: "T".into(),
        transaction_type: "income".into(),
        account_column: None,
        account_fixed_value: None,
        category_column: Some("C".into()),
        headers: vec!["D".into(), "T".into(), "A".into(), "C".into()],
    };
    let record: Vec<String> = vec!["2024-03-04".into(), "Rent".into(), "-5".into(), " Home ".into()];
    assert_eq!(m.amount_value(&record).unwrap(), "-5");
    let plan = m.plan_row(&record).unwrap();
    assert_eq!(plan.category_name.as_deref(), Some("Home"));
    assert_eq!(plan.account_name, None);
}

#[test]
fn upload_ids_flatten_the_file_name() {
    assert_eq!(upload_file_id(4, Some("a/b.c.csv")).unwrap(), "budget_upload_4_a_b_c_csv.csv");
    assert_eq!(upload_file_id(4, None).unwrap_err(), "CSV file must have a file name");
}

#[test]
fn second_importer_types_and_counts() {
    assert_eq!(amount_type(AmountSide::Income, true), "income");
    assert_eq!(amount_type(AmountSide::Income, false), "expense");
    assert_eq!(amount_type(AmountSide::Expense, true), "expense");
    assert_eq!(amount_type(AmountSide::Expense, false), "income");
    assert!(needs_rules(None, 3));
    assert!(needs_rules(Some(1), 0));
    assert!(!needs_rules(Some(1), 3));
    let mut result = ImportResult::new();
    result.count_row(0, "a".into(), Ok(true));
    result.count_row(1, "b".into(), Ok(false));
    result.count_row(2, "c".into(), Err("bad".into()));
    result.count_unreadable(3, "broken".into());
    assert_eq!(result.total_rows, 4);
    assert_eq!(result.successful, 1);
    assert_eq!(result.errors.len(), 2);
    assert_eq!(result.errors[0].row_number, 4);
    assert_eq!(result.errors[0].error, "bad");
    assert_eq!(result.errors[1].row_number, 5);
    assert_eq!(result.errors[1].row_data, "Failed to read row");
}

#[test]
fn dashboard_filters_become_conditions() {
    assert_eq!(default_page(), 1);
    assert_eq!(default_per_page(), 20);
    assert_eq!(empty_string_as_none("  ".into()), None);
    assert_eq!(empty_string_as_none(" x".into()).as_deref(), Some(" x"));
    assert_eq!(empty_string_as_none_i64(""), Some(None));
    assert_eq!(empty_string_as_none_i64("42"), Some(Some(42)));
    assert_eq!(empty_string_as_none_i64("4x"), None);
    let filters = TransactionFilters {
        page: 0,
        per_page: 500,
        search: Some("tea".into()),
        transaction_type: Some("all".into()),
        category_id: Some("no_category".into()),
        account_id: Some(7),
        account: Some("  ".into()),
        date_from: Some("2024-01-01".into()),
        date_to: None,
    };
    let w = page_window(&filters);
    assert_eq!((w.page, w.per_page, w.offset), (1, 100, 0));
    assert_eq!(total_pages(101, 100), 2);
    assert_eq!(total_pages(0, 10), 0);
    let c = transaction_conditions(&filters, 3);
    assert_eq!(
        c.where_clause,
        "t.user_id = ? AND t.description LIKE ? AND t.category_id IS NULL AND t.account_id = ? AND t.transaction_date >= ?"
    );
    assert_eq!(c.params, vec!["3", "%tea%", "7", "2024-01-01"]);
}

#[test]
fn rules_group_by_neighbouring_category() {
    let rules = vec![
        (group_name(None), 1),
        (group_name(Some("Food".into())), 2),
        (group_name(Some("Food".into())), 3),
        (group_name(None), 4),
    ];
    let groups = group_by_category(rules);
    let names: Vec<&str> = groups.iter().map(|g| g.category_name.as_str()).collect();
    assert_eq!(names, vec!["No Category", "Food", "No Category"]);
    assert_eq!(groups[1].rules, vec![2, 3]);
    assert_eq!(optional_id(Some("")), None);
    assert_eq!(optional_id(Some("9")), Some(9));
    assert_eq!(optional_id(Some("x")), None);
    assert_eq!(priority_or_default("x"), 999);
    assert_eq!(priority_or_default("5"), 5);
}

#[test]
fn rules_set_account_and_category_on_match() {
    let rule = ImportRule {
        id: 1,
        priority: 1,
        match_description: Some("COFFEE".into()),
        match_account: None,
        match_category: None,
        account_id: None,
        account_name: None,
        category_id: Some(8),
        category_name: None,
    };
    let mut t = RuleTarget { account_id: 2, category_id: None, description: "Morning coffee".into() };
    assert!(rule.apply_to_transaction(&mut t));
    assert_eq!(t.category_id, Some(8));
    assert_eq!(t.account_id, 2);
    let mut u = RuleTarget { account_id: 2, category_id: None, description: "Tea".into() };
    assert!(!rule.apply_to_transaction(&mut u));
    assert_eq!(u.category_id, None);
}

#[test]
fn stored_records_keep_their_own_values() {
    let stored = Account { id: 5, user_id: 1, name: "Card".into(), friendly: String::new(), description: String::new() };
    let lookup = Account { id: 0, user_id: 0, name: "Other".into(), friendly: "Mine".into(), description: String::new() };
    let merged = stored.merged_with(&lookup);
    assert_eq!(merged.name, "Card");
    assert_eq!(merged.friendly, "Mine");
    assert_eq!(merged.id, 5);
    let user = new_signed_in_user("a@b.c".into(), None, "sub".into());
    assert_eq!(user.name, "a@b.c");
    assert_eq!(user.oauth_provider, "default");
    assert_eq!(OauthError::Reqwest("down".into()).message(), "down");
}

#[test]
fn like_patterns_and_months() {
    let mut q = TransactionQuery::default();
    assert_eq!(q.description_like_pattern(), "");
    q.description = "tea".into();
    assert_eq!(q.description_like_pattern(), "%tea%");
    q.description = "te%a".into();
    assert_eq!(q.description_like_pattern(), "");
    assert_eq!(extract_month("2024-05-06"), "2024-05");
    assert_eq!(extract_month("2024-05"), "2024-05");
}

#[test]
fn single_user_pages_and_colors() {
    assert_eq!(page_offset(0), 0);
    assert_eq!(page_offset(3), 200);
    assert_eq!(default_year(Some("2023-04-01")), "2023");
    assert_eq!(default_year(Some("20")), "20");
    assert_eq!(default_year(None), "1900");
    let colors: Vec<String> = vec!["".into(), "red".into(), "".into()];
    let assigned = assign_colors(&colors);
    assert_eq!(assigned, vec![PALETTE[1].to_string(), "red".to_string(), PALETTE[2].to_string()]);
    let many: Vec<String> = (0..11).map(|_| String::new()).collect();
    assert_eq!(assign_colors(&many)[10], PALETTE[0]);
}

#[test]
fn static_assets_are_found_by_name() {
    assert_eq!(static_asset("pico@2.css"), Some((StaticAsset::Pico, "text/css")));
    assert_eq!(static_asset("pico@2.0.css"), None);
    assert_eq!(static_asset("ssr.js"), Some((StaticAsset::Ssr, "text/javascript")));
    assert_eq!(static_asset("idiomorph.min.js"), None);
    assert_eq!(static_asset("pico.txt"), None);
    assert_eq!(static_asset("pico"), None);
}

#[test]
fn chart_axis_labels_every_nth_day_in_order() {
    let days: Vec<String> = (1..=24).rev().map(|d| format!("2024-01-{d:02}")).collect();
    let labels = x_labels(days);
    assert_eq!(labels.len(), 11);
    assert_eq!(labels[0], (2, "2024-01-03".to_string()));
    assert_eq!(labels[10], (22, "2024-01-23".to_string()));
    assert!(x_labels(vec!["2024-01-01".to_string()]).is_empty());
    assert!(x_labels(Vec::new()).is_empty());
    let sorted = sort_by_key(vec![("b".to_string(), 2), ("a".to_string(), 1), ("c".to_string(), 3)]);
    assert_eq!(sorted, vec![("a".to_string(), 1), ("b".to_string(), 2), ("c".to_string(), 3)]);
    let entries = sorted_entries(vec![("y".to_string(), 'y'), ("x".to_string(), 'x')]);
    assert_eq!(entries, vec![(0, "x".to_string(), 'x'), (1, "y".to_string(), 'y')]);
}

#[test]
fn first_importer_counts_skipped_rows() {
    let mut result = OneAmountResult::new();
    result.count_row(0, "a".into(), Ok(true));
    result.count_row(1, "b".into(), Ok(false));
    result.count_row(2, "c".into(), Err("bad".into()));
    result.count_unreadable(3, "broken".into());
    assert_eq!((result.total_rows, result.successful, result.skipped, result.failed), (4, 1, 1, 2));
    assert_eq!(result.errors[0].row_number, 4);
    assert_eq!(result.errors[1].row_number, 5);
    assert_eq!(result.errors[1].row_data, "Failed to read row");
}

#[test]
fn statements_are_read_with_their_header_row() {
    assert_eq!(read_csv_headers(b"a\n\xFF").unwrap(), vec!["a".to_string()]);
    assert_eq!(read_csv_headers(b"Date,Amount\n2024-01-01,5\n").unwrap(), vec!["Date".to_string(), "Amount".to_string()]);
    let (headers, rows) = open_statement(b"Date,Amount\n2024-01-01,5\n2024-01-02\n").unwrap();
    assert_eq!(headers, vec!["Date".to_string(), "Amount".to_string()]);
    assert_eq!(rows.len(), 2);
    assert_eq!(rows[0], Ok(vec!["2024-01-01".to_string(), "5".to_string()]));
    assert!(rows[1].is_err());
    assert!(open_statement(b"\xFF,a\n").is_err());
}

#[test]
fn imports_need_the_active_file() {
    assert_eq!(check_file_id("f1", "f1"), Ok(()));
    assert_eq!(check_file_id("f1", "f2"), Err("File ID mismatch".to_string()));
}

#[test]
fn single_user_nonces_come_from_the_drawn_positions() {
    let indices: Vec<usize> = (0..16).collect();
    assert_eq!(nonce_from_indices(&indices), "ABCDEFGHIJKLMNOP");
    assert_eq!(nonce_from_indices(&vec![61, 26]), "9a");
    let nonce = SingleUserContext::generate_nonce();
    assert_eq!(nonce.len(), 16);
    assert!(nonce.chars().all(|c| c.is_ascii_alphanumeric()));
}
