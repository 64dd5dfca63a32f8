//! The resume endpoints' pure computations: file-URL construction from a
//! stored record and the mapping from a record to the response shape.

use vstd::prelude::*;

verus! {

/// One stored resume record, as the record store returns it.
pub struct ResumeRecord {
    pub id: String,
    pub collection_id: String,
    pub pdf_file: String,
    pub typst_file: String,
    pub version: Option<String>,
    pub notes: Option<String>,
    pub created: String,
    pub updated: String,
}

/// One resume in the shape the API serves: the record's metadata plus the
/// download URLs and filenames.
pub struct LatestResumeResponse {
    pub id: String,
    pub version: Option<String>,
    pub notes: Option<String>,
    pub created: String,
    pub updated: String,
    pub pdf_url: String,
    pub typst_url: String,
    pub pdf_filename: String,
    pub typst_filename: String,
}

/// The password-authentication endpoint of the record store.
pub open spec fn auth_url_text(base: Seq<char>) -> Seq<char> {
    base + "/api/collections/_superusers/auth-with-password"@
}

/// Builds the record store's password-authentication URL.
pub fn pocketbase_auth_url(base: &str) -> (r: String)
    ensures
        r@ == auth_url_text(base@),
{
    let mut r = base.to_owned();
    r.append("/api/collections/_superusers/auth-with-password");
    proof {
        assert(r@ =~= auth_url_text(base@));
    }
    r
}

/// The download URL of one stored file:
/// `<base>/api/files/<collection>/<record>/<file>`.
pub open spec fn file_url_text(
    base: Seq<char>,
    collection_id: Seq<char>,
    record_id: Seq<char>,
    file: Seq<char>,
) -> Seq<char> {
    base + "/api/files/"@ + collection_id + "/"@ + record_id + "/"@ + file
}

/// Builds the download URL of one stored file.
pub fn file_url(base: &str, collection_id: &str, record_id: &str, file: &str) -> (r: String)
    ensures
        r@ == file_url_text(base@, collection_id@, record_id@, file@),
{
    let mut r = base.to_owned();
    r.append("/api/files/");
    r.append(collection_id);
    r.append("/");
    r.append(record_id);
    r.append("/");
    r.append(file);
    proof {
        assert(r@ =~= file_url_text(base@, collection_id@, record_id@, file@));
    }
    r
}

/// Maps a stored record to the served shape: metadata copied through, both
/// file URLs derived from the record, and the fixed PDF filename.
pub fn latest_response_for(base: &str, rec: &ResumeRecord) -> (r: LatestResumeResponse)
    ensures
        r.id@ == rec.id@,
        crate::story::opt_str_view(r.version) == crate::story::opt_str_view(rec.version),
        crate::story::opt_str_view(r.notes) == crate::story::opt_str_view(rec.notes),
        r.created@ == rec.created@,
        r.updated@ == rec.updated@,
        r.pdf_url@ == file_url_text(base@, rec.collection_id@, rec.id@, rec.pdf_file@),
        r.typst_url@ == file_url_text(base@, rec.collection_id@, rec.id@, rec.typst_file@),
        r.pdf_filename@ == "Kashiful_Haque.pdf"@,
        r.typst_filename@ == rec.typst_file@,
{
    LatestResumeResponse {
        id: rec.id.clone(),
        version: crate::story::clone_opt_string(&rec.version),
        notes: crate::story::clone_opt_string(&rec.notes),
        created: rec.created.clone(),
        updated: rec.updated.clone(),
        pdf_url: file_url(base, rec.collection_id.as_str(), rec.id.as_str(),
            rec.pdf_file.as_str()),
        typst_url: file_url(base, rec.collection_id.as_str(), rec.id.as_str(),
            rec.typst_file.as_str()),
        pdf_filename: String::from_str("Kashiful_Haque.pdf"),
        typst_filename: rec.typst_file.clone(),
    }
}

/// How the resume endpoint answers, by the `format` query parameter:
/// metadata as text, the URL alone, or the PDF itself, inline or as an
/// attachment.
#[derive(PartialEq, Eq, Structural, Clone, Copy, Debug)]
pub enum ResumeFormatAction {
    Metadata,
    UrlOnly,
    Pdf(bool),
}

/// Whether two strings hold the same characters.
pub fn str_eq(a: &str, b: &str) -> (r: bool)
    ensures
        r == (a@ == b@),
{
    let sa = a.to_owned();
    let sb = b.to_owned();
    sa == sb
}

/// Decides the response shape from the `format` query parameter: `json`
/// gives metadata, `url` the URL alone, `attachment` or `download` the PDF
/// as an attachment, and anything else — a missing parameter included —
/// the PDF inline.
pub fn resume_action(format: Option<&str>) -> (r: ResumeFormatAction)
    ensures
        match format {
            None => r == ResumeFormatAction::Pdf(false),
            Some(f) => {
                if f@ == "json"@ {
                    r == ResumeFormatAction::Metadata
                } else if f@ == "url"@ {
                    r == ResumeFormatAction::UrlOnly
                } else if f@ == "attachment"@ || f@ == "download"@ {
                    r == ResumeFormatAction::Pdf(true)
                } else {
                    r == ResumeFormatAction::Pdf(false)
                }
            },
        },
{
    match format {
        None => ResumeFormatAction::Pdf(false),
        Some(f) => {
            if str_eq(f, "json") {
                ResumeFormatAction::Metadata
            } else if str_eq(f, "url") {
                ResumeFormatAction::UrlOnly
            } else if str_eq(f, "attachment") || str_eq(f, "download") {
                ResumeFormatAction::Pdf(true)
            } else {
                ResumeFormatAction::Pdf(false)
            }
        },
    }
}

} // verus!
