//! File ingestion decisions: which extractor a file's media type calls
//! for, and the payload stored with each chunk. The extraction itself
//! (PDF, word-processing documents, plain files) is an external
//! collaborator.

use vstd::prelude::*;
use crate::strutil::str_eq;

verus! {

/// The media-type essence the guesser assigns to a path. A function of
/// the path's extension alone.
pub uninterp spec fn mime_essence_of(path: Seq<char>) -> Seq<char>;

/// Relies on mime_guess::from_path and MimeGuess::first_or_octet_stream:
/// the guess is made from the path's extension alone, with
/// `application/octet-stream` for an unknown one; `essence_str` renders it
/// without parameters.
#[verifier::external_body]
fn guess_mime_essence(path: &str) -> (r: String)
    ensures
        r@ == mime_essence_of(path@),
{
    mime_guess::from_path(path).first_or_octet_stream().essence_str().to_string()
}

/// Which extractor a media type calls for.
#[derive(Debug, Clone, Copy, PartialEq, Eq, Structural)]
pub enum ExtractKind {
    /// `application/pdf`.
    Pdf,
    /// `text/plain` and `text/markdown`: read the file as UTF-8 text.
    PlainText,
    /// The word-processing document format.
    Docx,
    /// Anything else is rejected.
    Unsupported,
}

/// The word-processing document media type.
pub open spec fn spec_docx_essence() -> Seq<char> {
    "application/vnd.openxmlformats-officedocument.wordprocessingml.document"@
}

/// The extractor a media-type essence calls for.
pub open spec fn spec_extract_kind(essence: Seq<char>) -> ExtractKind {
    if essence == "application/pdf"@ {
        ExtractKind::Pdf
    } else if essence == "text/plain"@ || essence == "text/markdown"@ {
        ExtractKind::PlainText
    } else if essence == spec_docx_essence() {
        ExtractKind::Docx
    } else {
        ExtractKind::Unsupported
    }
}

/// Map a media-type essence to its extractor.
pub fn extraction_kind(essence: &str) -> (r: ExtractKind)
    ensures
        r == spec_extract_kind(essence@),
{
    proof {
        reveal_strlit("application/pdf");
        reveal_strlit("text/plain");
        reveal_strlit("text/markdown");
        reveal_strlit("application/vnd.openxmlformats-officedocument.wordprocessingml.document");
        assert("application/pdf"@.len() == 15);
        assert("text/plain"@.len() == 10);
        assert("text/markdown"@.len() == 13);
        assert(spec_docx_essence().len() == 71);
    }
    if str_eq(essence, "application/pdf") {
        ExtractKind::Pdf
    } else if str_eq(essence, "text/plain") || str_eq(essence, "text/markdown") {
        ExtractKind::PlainText
    } else if str_eq(
        essence,
        "application/vnd.openxmlformats-officedocument.wordprocessingml.document",
    ) {
        ExtractKind::Docx
    } else {
        ExtractKind::Unsupported
    }
}

/// Decide how a file is to be ingested: the guessed media-type essence of
/// its path, and the extractor that essence calls for.
pub fn ingest_plan(path: &str) -> (r: (String, ExtractKind))
    ensures
        r.0@ == mime_essence_of(path@),
        r.1 == spec_extract_kind(mime_essence_of(path@)),
{
    let essence = guess_mime_essence(path);
    let kind = extraction_kind(essence.as_str());
    (essence, kind)
}

/// The error text for a media type no extractor handles.
pub fn unsupported_mime_message(essence: &str) -> (r: String)
    ensures
        r@ == "Unsupported mime: "@ + essence@,
{
    let mut out = String::from_str("Unsupported mime: ");
    out.append(essence);
    out
}

/// What is stored beside one chunk of an ingested document.
#[derive(Debug, Clone)]
pub struct DocChunkPayload {
    pub text: String,
    pub file_name: String,
    pub mime: String,
    pub chunk_index: usize,
    pub total_chunks: usize,
    pub thread_id: String,
}

/// The media type a message attachment is listed under, from its file
/// extension.
pub fn mime_for_extension(ext: Option<&str>) -> (r: &'static str)
    ensures
        r@ == (match ext {
            Some(e) => if e@ == "txt"@ || e@ == "md"@ {
                "text/plain"@
            } else if e@ == "pdf"@ {
                "application/pdf"@
            } else if e@ == "jpg"@ || e@ == "jpeg"@ {
                "image/jpeg"@
            } else if e@ == "png"@ {
                "image/png"@
            } else if e@ == "gif"@ {
                "image/gif"@
            } else if e@ == "svg"@ {
                "image/svg+xml"@
            } else if e@ == "js"@ || e@ == "ts"@ {
                "text/javascript"@
            } else if e@ == "json"@ {
                "application/json"@
            } else if e@ == "html"@ {
                "text/html"@
            } else if e@ == "css"@ {
                "text/css"@
            } else {
                "application/octet-stream"@
            },
            None => "application/octet-stream"@,
        }),
{
    proof {
        reveal_strlit("txt");
        reveal_strlit("md");
        reveal_strlit("pdf");
        reveal_strlit("jpg");
        reveal_strlit("jpeg");
        reveal_strlit("png");
        reveal_strlit("gif");
        reveal_strlit("svg");
        reveal_strlit("js");
        reveal_strlit("ts");
        reveal_strlit("json");
        reveal_strlit("html");
        reveal_strlit("css");
    }
    match ext {
        Some(e) => {
            if str_eq(e, "txt") || str_eq(e, "md") {
                "text/plain"
            } else if str_eq(e, "pdf") {
                "application/pdf"
            } else if str_eq(e, "jpg") || str_eq(e, "jpeg") {
                "image/jpeg"
            } else if str_eq(e, "png") {
                "image/png"
            } else if str_eq(e, "gif") {
                "image/gif"
            } else if str_eq(e, "svg") {
                "image/svg+xml"
            } else if str_eq(e, "js") || str_eq(e, "ts") {
                "text/javascript"
            } else if str_eq(e, "json") {
                "application/json"
            } else if str_eq(e, "html") {
                "text/html"
            } else if str_eq(e, "css") {
                "text/css"
            } else {
                "application/octet-stream"
            }
        },
        None => "application/octet-stream",
    }
}

/// The stored name of a project attachment: its id, an underscore, the
/// original file name.
pub fn attachment_file_name(attachment_id: &str, file_name: &str) -> (r: String)
    ensures
        r@ == attachment_id@ + "_"@ + file_name@,
{
    let mut out = attachment_id.to_owned();
    out.append("_");
    out.append(file_name);
    out
}

} // verus!
