use budget2::model::csv::{account_heading_name, is_account_heading, suggest_columns, ACCOUNT_HEADING};
use budget2::model::csv_file::{csv_text, table_csv};
use budget2::model::dates::normalize_date;
use encoding_rs::SHIFT_JIS;

#[test]
fn recognizes_bracketed_account_headings() {
    assert_eq!(
        account_heading_name(" 【兼松　美保子　様】 ").as_deref(),
        Some("兼松　美保子　様")
    );
    assert_eq!(account_heading_name("Coffee shop"), None);
}

#[test]
fn decodes_shift_jis_csv() {
    let (encoded, _, _) = SHIFT_JIS.encode("利用日,利用内容\r2024/11/1,東京ガス\r");
    assert_eq!(
        csv_text(&encoded).unwrap(),
        "利用日,利用内容\n2024/11/1,東京ガス\n"
    );
}

#[test]
fn skips_csv_preamble_before_widest_table() {
    let table = table_csv(
        "Card statement\nCard,Number\nGold,1234\nDate,Description,Amount\n2024/11/1,Coffee,500\nFooter\n"
            .into(),
        b',',
    )
    .unwrap();
    assert!(table.starts_with("Date,Description,Amount\n2024/11/1,Coffee,500\n"));
    assert!(!table.contains("Footer"));
}

#[test]
fn suggests_date_and_description_from_values() {
    let bytes = "A,B,C\n2025/08/01,A longer transaction description,500\n".as_bytes();
    let suggestions = suggest_columns(bytes).unwrap();

    assert_eq!(suggestions.date_column, "A");
    assert_eq!(suggestions.description_column, "B");
}

#[test]
fn suggests_japanese_statement_columns_and_headings() {
    let bytes = "ご利用日,ご利用店名,ご利用金額（円）\n,【兼松　美保子　様】,\n2025年8月1日,Coffee,500\n".as_bytes();
    let suggestions = suggest_columns(bytes).unwrap();

    assert_eq!(suggestions.date_column, "ご利用日");
    assert_eq!(suggestions.description_column, "ご利用店名");
    assert_eq!(suggestions.expense_column, "ご利用金額（円）");
    assert_eq!(suggestions.account_column, ACCOUNT_HEADING);
}

#[test]
fn normalizes_common_csv_values() {
    assert_eq!(normalize_date("2026/9/2", None).unwrap(), "2026-09-02");
    assert_eq!(normalize_date("02.09.2026", None).unwrap(), "2026-09-02");
    assert_eq!(normalize_date("2026-31-01", None).unwrap(), "2026-01-31");
    assert_eq!(normalize_date("01.31.2026", None).unwrap(), "2026-01-31");
    assert_eq!(normalize_date("01.02.2026", Some("mdy")).unwrap(), "2026-01-02");
    assert!(normalize_date("not-a-date", None).is_err());
}

#[test]
fn heading_cells_need_both_brackets() {
    assert!(is_account_heading("【Card】"));
    assert!(!is_account_heading("【Card"));
    assert!(!is_account_heading("Card】"));
    assert_eq!(account_heading_name("【  】"), Some(String::new()));
}
