use budget2::web::import::{
    check_upload_name, check_upload_session, check_upload_size, csrf_before_file, upload_field,
    upload_file_id, upload_headers, uploaded_file, UploadField, UploadForm, UploadStep,
    MAX_UPLOAD_BYTES,
};

#[test]
fn csrf_must_precede_csv_bytes() {
    assert!(csrf_before_file(true).is_ok());
    assert!(csrf_before_file(false).is_err());
}

#[test]
fn late_csrf_token_is_explained() {
    assert_eq!(
        csrf_before_file(false).unwrap_err(),
        "CSRF token must be submitted before the CSV file"
    );
}

#[test]
fn upload_fields_are_told_apart() {
    assert_eq!(upload_field(Some("csrf_token")), UploadField::CsrfToken);
    assert_eq!(upload_field(Some("csv_file")), UploadField::CsvFile);
    assert_eq!(upload_field(Some("other")), UploadField::Other);
    assert_eq!(upload_field(None), UploadField::Other);
}

#[test]
fn only_csv_names_are_accepted() {
    assert!(check_upload_name(Some("statement.CSV")).is_ok());
    assert!(check_upload_name(Some("statement.csv")).is_ok());
    assert_eq!(check_upload_name(Some("statement.txt")).unwrap_err(), "Please upload a .csv file");
    assert!(check_upload_name(Some("csv")).is_err());
    assert!(check_upload_name(None).is_err());
}

#[test]
fn large_uploads_are_refused() {
    assert!(check_upload_size(MAX_UPLOAD_BYTES).is_ok());
    assert_eq!(
        check_upload_size(MAX_UPLOAD_BYTES + 1).unwrap_err(),
        "CSV files must be 10 MB or smaller"
    );
    assert_eq!(MAX_UPLOAD_BYTES, 10 * 1024 * 1024);
}

#[test]
fn upload_file_ids_hold_user_and_tag() {
    assert_eq!(
        upload_file_id(7, 255),
        "budget2-upload-7-000000000000000000000000000000ff.csv"
    );
    assert_eq!(
        upload_file_id(-3, u128::MAX),
        "budget2-upload--3-ffffffffffffffffffffffffffffffff.csv"
    );
}

#[test]
fn uploads_need_a_header_row() {
    assert_eq!(upload_headers(b"Date,Amount\n1,2\n").unwrap(), vec!["Date", "Amount"]);
    assert_eq!(upload_headers(b"").unwrap_err(), "CSV must contain a header row");
}

#[test]
fn imports_refer_to_the_active_upload() {
    assert!(check_upload_session(Some("a"), "a").is_ok());
    assert_eq!(check_upload_session(None, "a").unwrap_err(), "No active CSV upload");
    assert_eq!(check_upload_session(Some("b"), "a").unwrap_err(), "CSV upload session mismatch");
}

#[test]
fn upload_form_fields_are_taken_in_order() {
    let mut form = UploadForm::new();
    assert!(matches!(form.next_field(Some("other"), None), UploadStep::Skip));
    match form.next_field(Some("csv_file"), Some("a.csv")) {
        UploadStep::Refuse(m) => assert_eq!(m, "CSRF token must be submitted before the CSV file"),
        other => panic!("unexpected {other:?}"),
    }
    assert!(matches!(form.next_field(Some("csrf_token"), None), UploadStep::ReadToken));
    form.token_verified();
    match form.next_field(Some("csv_file"), Some("a.txt")) {
        UploadStep::Refuse(m) => assert_eq!(m, "Please upload a .csv file"),
        other => panic!("unexpected {other:?}"),
    }
    assert!(matches!(form.next_field(Some("csv_file"), Some("A.CSV")), UploadStep::ReadFile));
    assert_eq!(uploaded_file(Some(3)), Ok(3));
    assert_eq!(uploaded_file::<i32>(None), Err("No CSV file uploaded".to_string()));
}
