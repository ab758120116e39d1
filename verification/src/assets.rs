//! Static files of the web dashboard: how a requested file is answered.
use vstd::prelude::*;

verus! {

/// The media type `mime_guess` gives for a file path: the first type it
/// knows for the path's extension, `application/octet-stream` otherwise.
pub uninterp spec fn guessed_mime(path: Seq<char>) -> Seq<char>;

/// Looks up the media type of a path with
/// `mime_guess::from_path(path).first_or_octet_stream()`.  Only the naming
/// of the result is claimed.
#[verifier::external_body]
fn mime_for(path: &str) -> (r: String)
    ensures
        r@ == guessed_mime(path@),
{
    mime_guess::from_path(path).first_or_octet_stream().as_ref().to_string()
}

/// How a request for a static file is answered.
#[derive(Debug)]
pub enum AssetReply {
    /// The file's contents, with this content type.
    Found { content_type: String },
    /// `404 Not Found`.
    NotFound,
}

/// Answers a request for the static file at `path`: its contents with the
/// type guessed from the path when the file exists, `Not Found` otherwise.
pub fn asset_reply(path: &str, exists: bool) -> (r: AssetReply)
    ensures
        exists ==> (r matches AssetReply::Found { content_type } && content_type@ == guessed_mime(path@)),
        !exists ==> r is NotFound,
{
    if exists {
        AssetReply::Found { content_type: mime_for(path) }
    } else {
        AssetReply::NotFound
    }
}

} // verus!
