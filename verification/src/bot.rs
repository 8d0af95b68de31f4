//! The storage bot: what it keeps of the files that users send it, and what
//! it answers to a message.

use crate::text::{
    append_decimal, chars_of, decimal_text, index_value, parse_index, second_field,
    second_field_of, starts_with,
};
use std::collections::HashMap;
use vstd::prelude::*;
use vstd::slice::slice_subrange;
use vstd::string::*;

verus! {

/// What the bot keeps of an uploaded file.
#[derive(Debug)]
pub struct FileInfo {
    pub file_id: String,
    pub file_name: String,
}

/// The texts of a `FileInfo`.
pub struct FileInfoView {
    pub file_id: Seq<char>,
    pub file_name: Seq<char>,
}

impl View for FileInfo {
    type V = FileInfoView;

    open spec fn view(&self) -> FileInfoView {
        FileInfoView { file_id: self.file_id@, file_name: self.file_name@ }
    }
}

/// The files of each chat, in the order of their arrival.
pub type Storage = HashMap<i64, Vec<FileInfo>>;

/// A document attached to a message.
#[derive(Debug)]
pub struct Document {
    pub file_id: String,
    pub file_name: Option<String>,
}

/// A message sent to the bot.
#[derive(Debug)]
pub struct Message {
    pub chat_id: i64,
    pub document: Option<Document>,
    pub text: Option<String>,
}

/// What the messaging service reports.
#[derive(Debug)]
pub enum Update {
    Message(Message),
    /// Anything that is not a message.
    Other,
}

/// What the bot sends back.
#[derive(Debug, PartialEq, Eq)]
pub enum Reply {
    Text { chat_id: i64, text: String },
    Document { chat_id: i64, file_id: String },
}

/// The texts of a `Reply`.
pub enum ReplyView {
    Text { chat_id: i64, text: Seq<char> },
    Document { chat_id: i64, file_id: Seq<char> },
}

impl View for Reply {
    type V = ReplyView;

    open spec fn view(&self) -> ReplyView {
        match *self {
            Reply::Text { chat_id, text } => ReplyView::Text { chat_id, text: text@ },
            Reply::Document { chat_id, file_id } => ReplyView::Document {
                chat_id,
                file_id: file_id@,
            },
        }
    }
}

/// The texts of an optional reply.
pub open spec fn reply_view(reply: Option<Reply>) -> Option<ReplyView> {
    match reply {
        Some(r) => Some(r@),
        None => None,
    }
}

/// The texts of a list of files.
pub open spec fn file_views(files: Seq<FileInfo>) -> Seq<FileInfoView> {
    files.map_values(|f: FileInfo| f@)
}

/// The texts of an optional list of files.
pub open spec fn kept_views(files: Option<&Vec<FileInfo>>) -> Option<Seq<FileInfoView>> {
    match files {
        Some(f) => Some(file_views(f@)),
        None => None,
    }
}

/// The files kept for a chat, or `None` where none was ever kept for it.
pub open spec fn stored(storage: Map<i64, Vec<FileInfo>>, chat_id: i64) -> Option<
    Seq<FileInfoView>,
> {
    if storage.contains_key(chat_id) {
        Some(file_views(storage[chat_id]@))
    } else {
        None
    }
}

/// The name under which an uploaded document is kept.
pub open spec fn upload_name(document: Document) -> Seq<char> {
    match document.file_name {
        Some(name) => name@,
        None => "<unknown>"@,
    }
}

/// The heading of a list of files and its first `count` lines: each file's
/// number, counted from one, and its name.
pub open spec fn list_text(files: Seq<FileInfoView>, count: int) -> Seq<char>
    decreases count,
{
    if count <= 0 {
        "your files:\n"@
    } else {
        list_text(files, count - 1) + decimal_text(count as nat) + ": "@ + files[count
            - 1].file_name + "\n"@
    }
}

/// The answer to `/list`.
pub open spec fn list_reply(files: Option<Seq<FileInfoView>>) -> Seq<char> {
    match files {
        Some(f) => if f.len() == 0 {
            "no files yet."@
        } else {
            list_text(f, f.len() as int)
        },
        None => "no files yet."@,
    }
}

/// The answer to `/get`: the file whose number stands in the second field of
/// the text, or what is wrong with the request. A chat for which nothing was
/// ever kept gets no answer to a well-formed request.
pub open spec fn get_reply(files: Option<Seq<FileInfoView>>, chat_id: i64, text: Seq<char>) -> Option<
    ReplyView,
> {
    match second_field_of(text) {
        Some((start, end)) => match index_value(text.subrange(start, end)) {
            Some(index) => match files {
                Some(f) => if 1 <= index <= f.len() {
                    Some(ReplyView::Document { chat_id, file_id: f[index - 1].file_id })
                } else {
                    Some(ReplyView::Text { chat_id, text: "invalid file index."@ })
                },
                None => None,
            },
            None => Some(ReplyView::Text { chat_id, text: "invalid number format."@ }),
        },
        None => Some(ReplyView::Text { chat_id, text: "usage: /get <file_number>"@ }),
    }
}

/// The greeting.
pub open spec fn welcome_text() -> Seq<char> {
    "yo! this is your cloud bot.\nsend files as documents to upload.\nuse /list to list them.\n/get <number> to download."@
}

/// The answer to a text message.
pub open spec fn command_reply(files: Option<Seq<FileInfoView>>, chat_id: i64, text: Seq<char>) -> Option<
    ReplyView,
> {
    if "/start"@.is_prefix_of(text) || "/help"@.is_prefix_of(text) {
        Some(ReplyView::Text { chat_id, text: welcome_text() })
    } else if "/list"@.is_prefix_of(text) {
        Some(ReplyView::Text { chat_id, text: list_reply(files) })
    } else if "/get"@.is_prefix_of(text) {
        get_reply(files, chat_id, text)
    } else {
        Some(ReplyView::Text { chat_id, text: "dunno what u mean. try /list or /get."@ })
    }
}

/// The answer to an update: a document is confirmed, a text is taken as a
/// command, and anything else is passed over.
pub open spec fn reply_to(storage: Map<i64, Vec<FileInfo>>, update: Update) -> Option<ReplyView> {
    match update {
        Update::Message(message) => match message.document {
            Some(document) => Some(
                ReplyView::Text {
                    chat_id: message.chat_id,
                    text: "uploaded file: "@ + upload_name(document),
                },
            ),
            None => match message.text {
                Some(text) => command_reply(
                    stored(storage, message.chat_id),
                    message.chat_id,
                    text@,
                ),
                None => None,
            },
        },
        Update::Other => None,
    }
}

/// The files kept for `chat_id` after an update: a document goes to the end
/// of the list of the chat it came from, and nothing else changes anything.
pub open spec fn stored_after(storage: Map<i64, Vec<FileInfo>>, update: Update, chat_id: i64) -> Option<
    Seq<FileInfoView>,
> {
    match update {
        Update::Message(message) => match message.document {
            Some(document) => if chat_id == message.chat_id {
                let kept = FileInfoView {
                    file_id: document.file_id@,
                    file_name: upload_name(document),
                };
                match stored(storage, chat_id) {
                    Some(files) => Some(files.push(kept)),
                    None => Some(seq![kept]),
                }
            } else {
                stored(storage, chat_id)
            },
            None => stored(storage, chat_id),
        },
        Update::Other => stored(storage, chat_id),
    }
}

fn text_reply(chat_id: i64, text: &str) -> (reply: Option<Reply>)
    ensures
        reply_view(reply) == Some(ReplyView::Text { chat_id, text: text@ }),
{
    Some(Reply::Text { chat_id, text: String::from_str(text) })
}

fn keep_upload(storage: &mut Storage, chat_id: i64, document: Document) -> (reply: Option<Reply>)
    ensures
        reply_view(reply) == Some(
            ReplyView::Text { chat_id, text: "uploaded file: "@ + upload_name(document) },
        ),
        forall|c: i64| #[trigger]
            stored(final(storage)@, c) == if c == chat_id {
                let kept = FileInfoView {
                    file_id: document.file_id@,
                    file_name: upload_name(document),
                };
                match stored(old(storage)@, c) {
                    Some(files) => Some(files.push(kept)),
                    None => Some(seq![kept]),
                }
            } else {
                stored(old(storage)@, c)
            },
{
    broadcast use vstd::std_specs::hash::group_hash_axioms;

    let Document { file_id, file_name } = document;
    let file_name = match file_name {
        Some(name) => name,
        None => String::from_str("<unknown>"),
    };
    let confirmation = String::from_str("uploaded file: ").concat(file_name.as_str());
    let mut files = match storage.remove(&chat_id) {
        Some(files) => files,
        None => Vec::new(),
    };
    files.push(FileInfo { file_id, file_name });
    storage.insert(chat_id, files);
    Some(Reply::Text { chat_id, text: confirmation })
}

fn list_files(files: Option<&Vec<FileInfo>>) -> (text: String)
    ensures
        text@ == list_reply(kept_views(files)),
{
    match files {
        Some(f) => {
            if f.len() == 0 {
                String::from_str("no files yet.")
            } else {
                let mut text = String::from_str("your files:\n");
                let mut i: usize = 0;
                while i < f.len()
                    invariant
                        i <= f.len(),
                        text@ == list_text(file_views(f@), i as int),
                    decreases f.len() - i,
                {
                    append_decimal(&mut text, (i + 1) as u64);
                    text.append(": ");
                    text.append(f[i].file_name.as_str());
                    text.append("\n");
                    i += 1;
                }
                text
            }
        },
        None => String::from_str("no files yet."),
    }
}

fn get_file(files: Option<&Vec<FileInfo>>, chat_id: i64, chars: &Vec<char>) -> (reply: Option<
    Reply,
>)
    ensures
        reply_view(reply) == get_reply(kept_views(files), chat_id, chars@),
{
    match second_field(chars) {
        Some((start, end)) => match parse_index(slice_subrange(chars.as_slice(), start, end)) {
            Some(index) => match files {
                Some(f) => {
                    if index >= 1 && index <= f.len() {
                        Some(Reply::Document { chat_id, file_id: f[index - 1].file_id.clone() })
                    } else {
                        text_reply(chat_id, "invalid file index.")
                    }
                },
                None => None,
            },
            None => text_reply(chat_id, "invalid number format."),
        },
        None => text_reply(chat_id, "usage: /get <file_number>"),
    }
}

/// Answers a text message.
pub fn handle_command(files: Option<&Vec<FileInfo>>, chat_id: i64, text: &str) -> (reply: Option<
    Reply,
>)
    ensures
        reply_view(reply) == command_reply(kept_views(files), chat_id, text@),
{
    let chars = chars_of(text);
    if starts_with(&chars, "/start") || starts_with(&chars, "/help") {
        text_reply(
            chat_id,
            "yo! this is your cloud bot.\nsend files as documents to upload.\nuse /list to list them.\n/get <number> to download.",
        )
    } else if starts_with(&chars, "/list") {
        let text = list_files(files);
        Some(Reply::Text { chat_id, text })
    } else if starts_with(&chars, "/get") {
        get_file(files, chat_id, &chars)
    } else {
        text_reply(chat_id, "dunno what u mean. try /list or /get.")
    }
}

/// Takes in one update: keeps an uploaded document, and says what is to be
/// sent back, if anything.
pub fn handle_update(storage: &mut Storage, update: Update) -> (reply: Option<Reply>)
    ensures
        reply_view(reply) == reply_to(old(storage)@, update),
        forall|chat_id: i64| #[trigger]
            stored(final(storage)@, chat_id) == stored_after(old(storage)@, update, chat_id),
{
    broadcast use vstd::std_specs::hash::group_hash_axioms;

    match update {
        Update::Message(message) => {
            let Message { chat_id, document, text } = message;
            match document {
                Some(document) => keep_upload(storage, chat_id, document),
                None => match text {
                    Some(text) => handle_command(storage.get(&chat_id), chat_id, text.as_str()),
                    None => None,
                },
            }
        },
        Update::Other => None,
    }
}

} // verus!
