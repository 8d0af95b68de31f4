//! From a remote media item to a file: the display name that a message's
//! media gets, and the payload put together from its transfer chunks.

use crate::text::{decimal_string, signed_decimal_text};
use vstd::prelude::*;
use vstd::string::*;

verus! {

/// The media that a message carries, with the MIME type that the remote side
/// states for a document or a sticker, if it states one.
#[derive(Clone, Debug)]
pub enum Media {
    Photo,
    Sticker { mime_type: Option<String> },
    Document { mime_type: Option<String> },
    Contact,
    Other,
}

/// One media item of a conversation: the message it hangs on, and the media.
#[derive(Clone, Debug)]
pub struct RemoteMediaItem {
    pub message_id: i32,
    pub media: Media,
}

/// How the transfer of one media item ended: with all its chunks, in arrival
/// order, or with a failure somewhere on the way.
#[derive(Debug)]
pub enum Download {
    Complete(Vec<Vec<u8>>),
    Failed,
}

/// The characters of an optional string.
pub open spec fn opt_chars(text: Option<String>) -> Option<Seq<char>> {
    match text {
        Some(t) => Some(t@),
        None => None,
    }
}

/// The characters of an optional string slice.
pub open spec fn opt_str_chars(text: Option<&str>) -> Option<Seq<char>> {
    match text {
        Some(t) => Some(t@),
        None => None,
    }
}

/// The subtype of a MIME type as the `mime` crate reads it: `None` where it
/// does not accept the text as a MIME type.
pub uninterp spec fn mime_subtype(mime_type: Seq<char>) -> Option<Seq<char>>;

/// Parses `mime_type` with `mime::Mime::from_str` and takes `Mime::subtype`
/// of what comes out. The parser reads nothing but the text, so its answer is
/// a function of the text: that function is `mime_subtype`. Nothing more is
/// claimed of it.
#[verifier::external_body]
fn parse_mime_subtype(mime_type: &str) -> (subtype: Option<String>)
    ensures
        opt_chars(subtype) == mime_subtype(mime_type@),
{
    match mime_type.parse::<mime::Mime>() {
        Ok(parsed) => Some(parsed.subtype().as_str().to_string()),
        Err(_) => None,
    }
}

/// The extension that stands for a MIME subtype: a dot and the subtype, or
/// `.bin` where there is none.
pub open spec fn subtype_extension(subtype: Option<Seq<char>>) -> Seq<char> {
    match subtype {
        Some(s) => "."@ + s,
        None => ".bin"@,
    }
}

/// The extension that stands for an optional MIME type.
pub open spec fn mime_extension(mime_type: Option<Seq<char>>) -> Seq<char> {
    match mime_type {
        Some(m) => subtype_extension(mime_subtype(m)),
        None => ".bin"@,
    }
}

/// The extension of the file that a media item becomes.
pub open spec fn file_extension(media: Media) -> Seq<char> {
    match media {
        Media::Photo => ".jpg"@,
        Media::Sticker { mime_type } => mime_extension(opt_chars(mime_type)),
        Media::Document { mime_type } => mime_extension(opt_chars(mime_type)),
        Media::Contact => ".vcf"@,
        Media::Other => Seq::<char>::empty(),
    }
}

/// The extension for a parsed MIME subtype.
pub fn extension_for_subtype(subtype: Option<String>) -> (extension: String)
    ensures
        extension@ == subtype_extension(opt_chars(subtype)),
{
    match subtype {
        Some(s) => String::from_str(".").concat(s.as_str()),
        None => String::from_str(".bin"),
    }
}

/// The extension for an optional MIME type string.
pub fn get_mime_extension(mime_type: Option<&str>) -> (extension: String)
    ensures
        extension@ == mime_extension(opt_str_chars(mime_type)),
{
    match mime_type {
        Some(m) => extension_for_subtype(parse_mime_subtype(m)),
        None => String::from_str(".bin"),
    }
}

/// The extension of the file that `media` becomes.
pub fn get_file_extension(media: &Media) -> (extension: String)
    ensures
        extension@ == file_extension(*media),
{
    match media {
        Media::Photo => String::from_str(".jpg"),
        Media::Sticker { mime_type } => match mime_type {
            Some(m) => get_mime_extension(Some(m.as_str())),
            None => get_mime_extension(None),
        },
        Media::Document { mime_type } => match mime_type {
            Some(m) => get_mime_extension(Some(m.as_str())),
            None => get_mime_extension(None),
        },
        Media::Contact => String::from_str(".vcf"),
        Media::Other => String::new(),
    }
}

/// The name of the file that the media of message `message_id` becomes.
pub open spec fn file_name_text(message_id: int, extension: Seq<char>) -> Seq<char> {
    "msg-"@ + signed_decimal_text(message_id) + extension
}

/// The bytes of all chunks, in their order.
pub open spec fn joined(chunks: Seq<Vec<u8>>) -> Seq<u8>
    decreases chunks.len(),
{
    if chunks.len() == 0 {
        Seq::<u8>::empty()
    } else {
        joined(chunks.drop_last()) + chunks.last()@
    }
}

/// The display name of the file for the media of message `message_id`:
/// `msg-`, the message's number, and the extension.
pub fn file_name(message_id: i32, extension: &str) -> (name: String)
    ensures
        name@ == file_name_text(message_id as int, extension@),
{
    let number = decimal_string(message_id);
    String::from_str("msg-").concat(number.as_str()).concat(extension)
}

/// Puts the transfer chunks of one media item together, in arrival order.
pub fn assemble_payload(chunks: &Vec<Vec<u8>>) -> (payload: Vec<u8>)
    ensures
        payload@ == joined(chunks@),
{
    let mut payload: Vec<u8> = Vec::new();
    let mut i: usize = 0;
    while i < chunks.len()
        invariant
            i <= chunks.len(),
            payload@ == joined(chunks@.take(i as int)),
        decreases chunks.len() - i,
    {
        payload.extend_from_slice(chunks[i].as_slice());
        proof {
            let next = chunks@.take(i + 1);
            assert(next.drop_last() =~= chunks@.take(i as int));
        }
        i += 1;
    }
    proof {
        assert(chunks@.take(chunks.len() as int) =~= chunks@);
    }
    payload
}

/// A media item made ready for the cache.
#[derive(Debug)]
pub struct ResolvedMedia {
    pub file_name: String,
    pub payload: Vec<u8>,
}

/// Resolves one media item whose chunks have all arrived: names the file
/// after the message and the kind of media, and joins the chunks.
pub fn resolve(item: &RemoteMediaItem, chunks: &Vec<Vec<u8>>) -> (resolved: ResolvedMedia)
    ensures
        resolved.file_name@ == file_name_text(item.message_id as int, file_extension(item.media)),
        resolved.payload@ == joined(chunks@),
{
    let extension = get_file_extension(&item.media);
    ResolvedMedia {
        file_name: file_name(item.message_id, extension.as_str()),
        payload: assemble_payload(chunks),
    }
}

} // verus!
