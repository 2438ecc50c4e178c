//! Serving the pages' files: the reply head for a requested file.
use vstd::prelude::*;

verus! {

/// The media type that `mime_guess` gives a path by its extension: the
/// first of its guesses, or "application/octet-stream" when it has none.
pub uninterp spec fn guessed_mime(path: Seq<char>) -> Seq<char>;

/// `mime_guess::from_path(..).first_or_octet_stream()`, as text: the media
/// type guessed for the path, `guessed_mime`.
#[verifier::external_body]
fn mime_of(path: &str) -> (mime: String)
    ensures
        mime@ == guessed_mime(path@),
{
    mime_guess::from_path(path).first_or_octet_stream().to_string()
}

/// The head of the reply to a request for a page file: its status, the
/// content type when the file is sent, and the text sent instead when it
/// is not.
#[derive(Debug)]
pub struct AssetHead {
    pub http_status: u16,
    pub content_type: Option<String>,
    pub fallback_text: Option<String>,
}

pub struct AssetHeadView {
    pub http_status: u16,
    pub content_type: Option<Seq<char>>,
    pub fallback_text: Option<Seq<char>>,
}

impl View for AssetHead {
    type V = AssetHeadView;

    open spec fn view(&self) -> AssetHeadView {
        AssetHeadView {
            http_status: self.http_status,
            content_type: crate::model::opt_string_view(self.content_type),
            fallback_text: crate::model::opt_string_view(self.fallback_text),
        }
    }
}

/// The reply head for file `path`: 200 with the guessed media type when the
/// file is there, otherwise 404 with "Not Found".
pub open spec fn asset_reply(found: bool, path: Seq<char>) -> AssetHeadView {
    if found {
        AssetHeadView { http_status: 200, content_type: Some(guessed_mime(path)), fallback_text: None }
    } else {
        AssetHeadView { http_status: 404, content_type: None, fallback_text: Some("Not Found"@) }
    }
}

/// Builds `asset_reply`.
pub fn asset_head(found: bool, path: &str) -> (head: AssetHead)
    ensures
        head@ == asset_reply(found, path@),
{
    if found {
        AssetHead { http_status: 200, content_type: Some(mime_of(path)), fallback_text: None }
    } else {
        AssetHead {
            http_status: 404,
            content_type: None,
            fallback_text: Some(String::from_str("Not Found")),
        }
    }
}

} // verus!
