//! The checks of a statement upload: the order of the form's fields, the file's name and
//! size, the stored file's name, its header row, and the upload the import refers to.

use crate::model::csv::read_csv_headers;
use crate::model::csv_file::statement_headers;
use crate::text::{
    ascii_lower, chars_of, ends_with_chars, ends_with_text, hex_padded, push_hex_padded,
    push_signed_decimal, push_str, signed_decimal, text_eq, text_of, to_ascii_lowercase,
};
use vstd::prelude::*;

verus! {

/// The largest statement accepted, in bytes.
pub const MAX_UPLOAD_BYTES: usize = 10 * 1024 * 1024;

/// The refusal of a file that comes before the form's CSRF token.
pub open spec fn csrf_late_message() -> Seq<char> {
    "CSRF token must be submitted before the CSV file"@
}

/// The file may be read only once the CSRF token has been verified.
pub fn csrf_before_file(verified: bool) -> (r: Result<(), String>)
    ensures
        r is Ok <==> verified,
        r matches Err(e) ==> e@ == csrf_late_message(),
{
    if verified {
        Ok(())
    } else {
        proof {
            reveal_strlit("CSRF token must be submitted before the CSV file");
        }
        Err(text_of(chars_of("CSRF token must be submitted before the CSV file").as_slice()))
    }
}

/// What the upload form's field is.
#[derive(Debug, Clone, Copy, PartialEq, Eq, Structural)]
pub enum UploadField {
    /// The CSRF token, to verify before any file.
    CsrfToken,
    /// The statement itself.
    CsvFile,
    /// Anything else, skipped.
    Other,
}

/// The kind of the form field named `name`.
pub fn upload_field(name: Option<&str>) -> (r: UploadField)
    ensures
        r == match name {
            Some(n) => if n@ == "csrf_token"@ {
                UploadField::CsrfToken
            } else if n@ == "csv_file"@ {
                UploadField::CsvFile
            } else {
                UploadField::Other
            },
            None => UploadField::Other,
        },
{
    match name {
        Some(n) => {
            if text_eq(n, "csrf_token") {
                UploadField::CsrfToken
            } else if text_eq(n, "csv_file") {
                UploadField::CsvFile
            } else {
                UploadField::Other
            }
        },
        None => UploadField::Other,
    }
}

/// The file name ends with `.csv`, whatever the case of its ASCII letters.
pub open spec fn is_csv_name(file_name: Seq<char>) -> bool {
    ends_with_text(ascii_lower(file_name), ".csv"@)
}

/// The name of the uploaded file is that of a CSV file (a missing name is empty).
pub fn check_upload_name(file_name: Option<&str>) -> (r: Result<(), String>)
    ensures
        r is Ok <==> match file_name {
            Some(n) => is_csv_name(n@),
            None => false,
        },
        r matches Err(e) ==> e@ == "Please upload a .csv file"@,
{
    let ok = match file_name {
        Some(n) => {
            let lower = to_ascii_lowercase(chars_of(n).as_slice());
            let suffix = chars_of(".csv");
            ends_with_chars(lower.as_slice(), suffix.as_slice())
        },
        None => {
            proof {
                reveal_strlit(".csv");
            }
            false
        },
    };
    if ok {
        Ok(())
    } else {
        Err(text_of(chars_of("Please upload a .csv file").as_slice()))
    }
}

/// What to do with the next field of the upload form.
#[derive(Debug)]
pub enum UploadStep {
    /// Read the CSRF token and verify it.
    ReadToken,
    /// Skip the field.
    Skip,
    /// Read the statement.
    ReadFile,
    /// Refuse the upload with this message.
    Refuse(String),
}

/// The step for a field named `name` with file name `file_name`, once the CSRF token has been
/// verified (`csrf_verified`) or not.
pub open spec fn upload_step(csrf_verified: bool, name: Option<Seq<char>>, file_name: Option<Seq<char>>) -> Result<
    UploadField,
    Seq<char>,
> {
    let field = match name {
        Some(n) => if n == "csrf_token"@ {
            UploadField::CsrfToken
        } else if n == "csv_file"@ {
            UploadField::CsvFile
        } else {
            UploadField::Other
        },
        None => UploadField::Other,
    };
    if field != UploadField::CsvFile {
        Ok(field)
    } else if !csrf_verified {
        Err(csrf_late_message())
    } else if !(file_name matches Some(f) && is_csv_name(f)) {
        Err("Please upload a .csv file"@)
    } else {
        Ok(UploadField::CsvFile)
    }
}

/// The upload form as it is read field by field: whether its CSRF token has been verified.
#[derive(Debug)]
pub struct UploadForm {
    pub csrf_verified: bool,
}

impl UploadForm {
    /// No field read yet.
    pub fn new() -> (r: UploadForm)
        ensures
            !r.csrf_verified,
    {
        UploadForm { csrf_verified: false }
    }

    /// What to do with the field named `name` whose file name is `file_name` (see
    /// `upload_step`): the token is read, other fields skipped, and the statement read only
    /// after the token and under a `.csv` name.
    pub fn next_field(&self, name: Option<&str>, file_name: Option<&str>) -> (r: UploadStep)
        ensures
            match upload_step(self.csrf_verified, name.deep_view(), file_name.deep_view()) {
                Ok(UploadField::CsrfToken) => r is ReadToken,
                Ok(UploadField::Other) => r is Skip,
                Ok(UploadField::CsvFile) => r is ReadFile,
                Err(e) => r matches UploadStep::Refuse(m) && m@ == e,
            },
    {
        match upload_field(name) {
            UploadField::CsrfToken => UploadStep::ReadToken,
            UploadField::Other => UploadStep::Skip,
            UploadField::CsvFile => match csrf_before_file(self.csrf_verified) {
                Err(e) => UploadStep::Refuse(e),
                Ok(()) => match check_upload_name(file_name) {
                    Err(e) => UploadStep::Refuse(e),
                    Ok(()) => UploadStep::ReadFile,
                },
            },
        }
    }

    /// The CSRF token was verified: a statement may follow.
    pub fn token_verified(&mut self)
        ensures
            final(self).csrf_verified,
    {
        self.csrf_verified = true;
    }
}

/// The end of the upload form: the statement read from it, or the refusal of a form that
/// held none.
pub fn uploaded_file<T>(file: Option<T>) -> (r: Result<T, String>)
    ensures
        match file {
            Some(f) => r == Ok::<T, String>(f),
            None => r matches Err(e) && e@ == "No CSV file uploaded"@,
        },
{
    match file {
        Some(f) => Ok(f),
        None => Err(text_of(chars_of("No CSV file uploaded").as_slice())),
    }
}

/// The uploaded file is no larger than `MAX_UPLOAD_BYTES`.
pub fn check_upload_size(len: usize) -> (r: Result<(), String>)
    ensures
        r is Ok <==> len <= MAX_UPLOAD_BYTES,
        r matches Err(e) ==> e@ == "CSV files must be 10 MB or smaller"@,
{
    if len > MAX_UPLOAD_BYTES {
        Err(text_of(chars_of("CSV files must be 10 MB or smaller").as_slice()))
    } else {
        Ok(())
    }
}

/// The name under which the upload of user `user_id` is kept, from the random number `tag`.
pub open spec fn upload_file_name(user_id: i64, tag: u128) -> Seq<char> {
    "budget2-upload-"@ + signed_decimal(user_id as int) + "-"@ + hex_padded(tag as nat, 32) + ".csv"@
}

/// The name under which the upload of user `user_id` is kept: the user and `tag` as 32
/// hexadecimal digits.
pub fn upload_file_id(user_id: i64, tag: u128) -> (r: String)
    ensures
        r@ == upload_file_name(user_id, tag),
{
    let mut out: Vec<char> = Vec::new();
    push_str(&mut out, "budget2-upload-");
    push_signed_decimal(&mut out, user_id);
    push_str(&mut out, "-");
    push_hex_padded(&mut out, tag, 32);
    push_str(&mut out, ".csv");
    text_of(out.as_slice())
}

/// A random `u128` (`rand::random`); any value may come back.
#[verifier::external_body]
fn random_tag() -> u128 {
    rand::random::<u128>()
}

/// A fresh name for the upload of user `user_id`, with a random tag.
pub fn new_upload_file_id(user_id: i64) -> (r: String)
    ensures
        exists|tag: u128| r@ == upload_file_name(user_id, tag),
{
    let tag = random_tag();
    upload_file_id(user_id, tag)
}

/// What the upload keeps of the statement's header row: the headers, or why there are none.
pub open spec fn upload_headers_of(bytes: Seq<u8>) -> Result<Seq<Seq<char>>, Seq<char>> {
    match statement_headers(bytes) {
        Ok(h) => if h.len() == 0 {
            Err("CSV must contain a header row"@)
        } else {
            Ok(h)
        },
        Err(e) => Err("Unable to read CSV: "@ + e),
    }
}

/// The header row of the uploaded statement, which must have at least one header.
pub fn upload_headers(bytes: &[u8]) -> (r: Result<Vec<String>, String>)
    ensures
        match (r, upload_headers_of(bytes@)) {
            (Ok(h), Ok(g)) => crate::text::texts(h@) == g,
            (Err(e), Err(f)) => e@ == f,
            _ => false,
        },
{
    match read_csv_headers(bytes) {
        Ok(headers) => {
            if headers.len() == 0 {
                Err(text_of(chars_of("CSV must contain a header row").as_slice()))
            } else {
                Ok(headers)
            }
        },
        Err(e) => {
            let mut out: Vec<char> = Vec::new();
            push_str(&mut out, "Unable to read CSV: ");
            push_str(&mut out, e.as_str());
            Err(text_of(out.as_slice()))
        },
    }
}

/// The upload an import refers to is the one kept in the session.
pub fn check_upload_session(active: Option<&str>, submitted: &str) -> (r: Result<(), String>)
    ensures
        r is Ok <==> (active matches Some(a) && a@ == submitted@),
        active is None ==> (r matches Err(e) && e@ == "No active CSV upload"@),
        (active matches Some(a) && a@ != submitted@) ==> (r matches Err(e) && e@ == "CSV upload session mismatch"@),
{
    match active {
        None => Err(text_of(chars_of("No active CSV upload").as_slice())),
        Some(a) => {
            if text_eq(a, submitted) {
                Ok(())
            } else {
                Err(text_of(chars_of("CSV upload session mismatch").as_slice()))
            }
        },
    }
}

} // verus!
