use budget2::model::accounts::Account;
use budget2::model::categories::Category;
use budget2::model::dates::chart_interval;
use budget2::model::import_rules::ImportRule;
use budget2::web::forms::{category_choice, ImportRuleForm, RoleForm};
use budget2::model::households::{Role, Visibility};

#[test]
fn chart_covers_the_filtered_month() {
    let (from, to) = chart_interval("2026-03", Some("2026-01"));
    assert_eq!((from.as_str(), to.as_str()), ("2026-01-01", "2026-02-01"));
}

#[test]
fn chart_covers_a_year_up_to_the_filtered_day() {
    let (from, to) = chart_interval("2026-03", Some("2024-02-29"));
    assert_eq!((from.as_str(), to.as_str()), ("2023-02-28", "2024-03-01"));
}

#[test]
fn chart_covers_a_year_up_to_the_report_month() {
    let (from, to) = chart_interval("2026-03", None);
    assert_eq!((from.as_str(), to.as_str()), ("2025-04-01", "2026-04-01"));
    let (from, to) = chart_interval("2026-12", Some("bad"));
    assert_eq!((from.as_str(), to.as_str()), ("2026-01-01", "2027-01-01"));
}

#[test]
fn chart_without_dates_is_empty() {
    let (from, to) = chart_interval("", None);
    assert_eq!((from.as_str(), to.as_str()), ("", ""));
}

fn rule() -> ImportRule {
    ImportRule { match_description: Some("coffee".into()), account_id: Some(3), ..Default::default() }
}

#[test]
fn rules_must_stay_in_the_household() {
    assert!(rule().check_for_save(1, 0).is_ok());
    assert_eq!(rule().check_for_save(0, 1).unwrap_err().message, "Account is outside the household");
    let mut r = rule();
    r.category_id = Some(4);
    assert_eq!(r.check_for_save(1, 0).unwrap_err().message, "Category is outside the household");
    let mut r = rule();
    r.priority = 0;
    assert_eq!(r.check_for_save(1, 1).unwrap_err().message, "Priority must be between 1 and 100.");
    let stored = rule().stored_as(9);
    assert_eq!(stored.id, 9);
    assert_eq!(stored.priority, 50);
}

#[test]
fn rule_forms_choose_a_category() {
    assert_eq!(category_choice("").unwrap(), None);
    assert_eq!(category_choice("12").unwrap(), Some(12));
    assert_eq!(category_choice("x").unwrap_err(), "Invalid category");
    let form = ImportRuleForm {
        csrf_token: String::new(),
        id: 0,
        category_id: "5".into(),
        priority: 10,
        match_description: Some("tea".into()),
    };
    let r = form.new_rule(7).unwrap();
    assert_eq!((r.household_id, r.category_id, r.priority), (7, Some(5), 10));
    let form = ImportRuleForm {
        csrf_token: String::new(),
        id: 0,
        category_id: "five".into(),
        priority: 10,
        match_description: None,
    };
    assert!(form.update_rule(rule()).is_err());
    let role = RoleForm { user_id: 1, role: "assistant".into() };
    assert_eq!(role.requested_role(), Role::Assistant);
}

#[test]
fn accounts_are_checked_before_saving() {
    let account = Account { id: 3, user_id: 1, name: " Card ".into(), friendly: "  ".into(), ..Default::default() };
    assert!(account.check_for_save(1).is_ok());
    assert_eq!(account.check_for_save(0).unwrap_err().message, "Account owner is outside the household.");
    let (name, friendly) = account.stored_names();
    assert_eq!((name.as_str(), friendly.as_str()), ("Card", "Card"));
    let new = Account { id: 0, ..account.clone() };
    assert_eq!(new.check_for_save(1).unwrap_err().message, "Accounts are created by importing transactions.");
    let unnamed = Account { name: "x".into(), ..account.clone() };
    assert_eq!(unnamed.check_for_save(1).unwrap_err().message, "Name must be between 3 and 64 characters long.");
    let orphan = Account { user_id: 0, ..account };
    assert_eq!(orphan.check_for_save(1).unwrap_err().message, "An account must be connected to a user.");
}

#[test]
fn each_role_sees_its_part_of_the_household() {
    let manager = Visibility::of(Role::Manager, 7);
    assert_eq!(manager, Visibility::All);
    assert_eq!(manager.transaction_clause(), "? is null");
    assert_eq!(manager.bound_user(), None);
    assert_eq!(manager.account_user(), None);
    let assistant = Visibility::of(Role::Assistant, 7);
    assert_eq!(assistant.transaction_clause(), "t.imported_by_user_id = ?");
    assert_eq!(assistant.bound_user(), Some(7));
    assert_eq!(assistant.account_clause(), "? is null");
    assert_eq!(assistant.account_user(), None);
    let member = Visibility::of(Role::Member, 7);
    assert_eq!(member.transaction_clause(), "a.user_id = ?");
    assert_eq!(member.account_clause(), "user_id = ?");
    assert_eq!(member.account_user(), Some(7));
}

#[test]
fn names_have_three_to_sixty_four_characters() {
    let message = "Name must be between 3 and 64 characters long.";
    let account = |name: &str| Account { id: 1, user_id: 1, name: name.into(), ..Default::default() };
    assert_eq!(account(" ab ").validate().unwrap_err().message, message);
    assert!(account(" abc ").validate().is_ok());
    assert!(account(&"Æ".repeat(40)).validate().is_ok());
    assert!(account(&"a".repeat(64)).validate().is_ok());
    assert_eq!(account(&"a".repeat(65)).validate().unwrap_err().message, message);
    let category = |name: &str| Category { name: name.into(), ..Default::default() };
    assert_eq!(category("ab").validate().unwrap_err().message, message);
    assert!(category("abc").validate().is_ok());
    assert!(category(&"Æ".repeat(40)).validate().is_ok());
    assert_eq!(category(&"é".repeat(65)).validate().unwrap_err().message, message);
}
