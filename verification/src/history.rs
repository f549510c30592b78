//! The records of the history file store: what is written for a session, to
//! which file, and how the split file grows. Reading and writing the files
//! themselves is left to the caller.

use vstd::prelude::*;
use crate::ids::{uuid_text, uuid_to_string};
use crate::text::push_chars;
use crate::tokens::{estimate_token_count, is_token_estimate};

verus! {

/// One message of a history file: who sent it, what it says and when.
#[derive(Debug, Clone, PartialEq, Eq)]
pub struct SimplifiedMessage {
    /// `user:{handle}`, `agent:{name}` or `system`.
    pub sender: String,
    pub content: String,
    /// ISO 8601.
    pub timestamp: String,
}

/// What a history file says of itself.
#[derive(Debug, Clone, PartialEq, Eq)]
pub struct ChatHistoryMetadata {
    pub token_count: u32,
    pub compression_applied: bool,
    /// The name of the split file, where messages were moved out.
    pub split_file: Option<String>,
}

/// A whole history file.
#[derive(Debug, Clone, PartialEq, Eq)]
pub struct ChatHistoryFile {
    pub session_id: u128,
    pub created_at: String,
    pub updated_at: String,
    pub messages: Vec<SimplifiedMessage>,
    pub metadata: ChatHistoryMetadata,
}

/// Why a history file could not be read or written.
#[derive(Debug, Clone, PartialEq, Eq)]
pub enum ChatHistoryFileError {
    /// The file system refused; the text is its message.
    Io(String),
    /// The file does not hold a history record; the text says why.
    Json(String),
    /// The user's data directory is not known.
    NoDataDir,
}

/// The text of an error.
pub open spec fn error_text(error: ChatHistoryFileError) -> Seq<char> {
    match error {
        ChatHistoryFileError::Io(cause) => "IO error: "@ + cause@,
        ChatHistoryFileError::Json(cause) => "JSON serialization error: "@ + cause@,
        ChatHistoryFileError::NoDataDir => "Failed to determine user data directory"@,
    }
}

impl ChatHistoryFileError {
    /// The error as a line of text.
    pub fn message(&self) -> (text: String)
        ensures
            text@ == error_text(*self),
    {
        let mut text = String::new();
        match self {
            ChatHistoryFileError::Io(cause) => {
                push_chars(&mut text, "IO error: ");
                push_chars(&mut text, cause.as_str());
            },
            ChatHistoryFileError::Json(cause) => {
                push_chars(&mut text, "JSON serialization error: ");
                push_chars(&mut text, cause.as_str());
            },
            ChatHistoryFileError::NoDataDir => {
                push_chars(&mut text, "Failed to determine user data directory");
            },
        }
        assert(text@ =~= error_text(*self));
        text
    }
}

/// The directory below the data directory that holds this application's
/// files.
pub open spec fn app_dir_name() -> Seq<char> {
    ".agents-chatgroup"@
}

/// The directory below that which holds the history files.
pub open spec fn history_dir_name() -> Seq<char> {
    "chat_history"@
}

/// The name of the main history file of a session.
pub open spec fn history_file_name(session_id: u128) -> Seq<char> {
    uuid_text(session_id) + ".json"@
}

/// The name of the split file of a session.
pub open spec fn split_file_name(session_id: u128) -> Seq<char> {
    uuid_text(session_id) + "_split.json"@
}

/// The messages of the split file after `new_messages` were appended to what
/// it held, if it existed.
pub open spec fn appended_messages(
    existing: Option<ChatHistoryFile>,
    new_messages: Seq<SimplifiedMessage>,
) -> Seq<SimplifiedMessage> {
    match existing {
        Some(file) => file.messages@ + new_messages,
        None => new_messages,
    }
}

/// Appending `a` to a session without a split file and then `b` leaves a
/// split file whose messages are those of `a` followed by those of `b`.
pub proof fn lemma_split_file_appends_in_order(
    first: ChatHistoryFile,
    a: Seq<SimplifiedMessage>,
    b: Seq<SimplifiedMessage>,
)
    requires
        first.messages@ == appended_messages(None, a),
    ensures
        appended_messages(Some(first), b) == a + b,
{
}

/// `Utc::now().to_rfc3339()` of the `chrono` crate: the current time as an
/// RFC 3339 text. Nothing is claimed of it: it is the clock's. `Utc::now`
/// gives up where the clock stands before the year 1970.
#[verifier::external_body]
pub(crate) fn current_timestamp() -> String {
    chrono::Utc::now().to_rfc3339()
}

/// What `DateTime::from_timestamp` followed by `to_rfc3339` gives for a time
/// in seconds and nanoseconds since the Unix epoch: nothing where `chrono`
/// cannot hold that time.
pub uninterp spec fn rfc3339_text(secs: i64, nanos: u32) -> Option<Seq<char>>;

/// The RFC 3339 text of a point in time, as history messages carry it, by
/// `DateTime::from_timestamp` and `to_rfc3339` of the `chrono` crate.
#[verifier::external_body]
pub fn datetime_to_timestamp(secs: i64, nanos: u32) -> (text: Option<String>)
    ensures
        match text {
            Some(t) => rfc3339_text(secs, nanos) == Some(t@),
            None => rfc3339_text(secs, nanos) is None,
        },
{
    match chrono::DateTime::from_timestamp(secs, nanos) {
        Some(time) => Some(time.to_rfc3339()),
        None => None,
    }
}

/// A copy of a message.
fn copy_message(message: &SimplifiedMessage) -> (copy: SimplifiedMessage)
    ensures
        copy == *message,
{
    SimplifiedMessage {
        sender: message.sender.clone(),
        content: message.content.clone(),
        timestamp: message.timestamp.clone(),
    }
}

/// Appends a copy of every message of `from` to `to`.
fn extend_with_copies(to: &mut Vec<SimplifiedMessage>, from: &[SimplifiedMessage])
    ensures
        final(to)@ == old(to)@ + from@,
{
    let mut i: usize = 0;
    assert(to@ =~= old(to)@ + from@.take(0));
    while i < from.len()
        invariant
            i <= from.len(),
            to@ == old(to)@ + from@.take(i as int),
        decreases from.len() - i,
    {
        let copy = copy_message(&from[i]);
        to.push(copy);
        assert(to@ =~= old(to)@ + from@.take(i + 1));
        i += 1;
    }
    assert(from@.take(from@.len() as int) =~= from@);
}

/// The path of the directory of the history files, one element for each
/// directory from the user's data directory down. Without a data directory
/// there is none.
pub fn chat_history_dir(data_dir: Option<String>) -> (path: Result<Vec<String>, ChatHistoryFileError>)
    ensures
        data_dir is None <==> path is Err,
        path matches Err(e) ==> e == ChatHistoryFileError::NoDataDir,
        path matches Ok(parts) ==> {
            &&& parts@.len() == 3
            &&& parts@[0] == data_dir->0
            &&& parts@[1]@ == app_dir_name()
            &&& parts@[2]@ == history_dir_name()
        },
{
    match data_dir {
        None => Err(ChatHistoryFileError::NoDataDir),
        Some(base) => {
            let mut parts: Vec<String> = Vec::new();
            parts.push(base);
            let mut app = String::new();
            push_chars(&mut app, ".agents-chatgroup");
            parts.push(app);
            let mut history = String::new();
            push_chars(&mut history, "chat_history");
            parts.push(history);
            Ok(parts)
        },
    }
}

/// The path of the main history file of a session: the directory of the
/// history files, then the file's name.
pub fn chat_history_path(data_dir: Option<String>, session_id: u128) -> (path: Result<
    Vec<String>,
    ChatHistoryFileError,
>)
    ensures
        data_dir is None <==> path is Err,
        path matches Err(e) ==> e == ChatHistoryFileError::NoDataDir,
        path matches Ok(parts) ==> {
            &&& parts@.len() == 4
            &&& parts@[0] == data_dir->0
            &&& parts@[1]@ == app_dir_name()
            &&& parts@[2]@ == history_dir_name()
            &&& parts@[3]@ == history_file_name(session_id)
        },
{
    match chat_history_dir(data_dir) {
        Err(e) => Err(e),
        Ok(mut parts) => {
            let mut name = uuid_to_string(session_id);
            push_chars(&mut name, ".json");
            parts.push(name);
            Ok(parts)
        },
    }
}

/// The path of the split file of a session, a sibling of its main file.
pub fn chat_history_split_path(data_dir: Option<String>, session_id: u128) -> (path: Result<
    Vec<String>,
    ChatHistoryFileError,
>)
    ensures
        data_dir is None <==> path is Err,
        path matches Err(e) ==> e == ChatHistoryFileError::NoDataDir,
        path matches Ok(parts) ==> {
            &&& parts@.len() == 4
            &&& parts@[0] == data_dir->0
            &&& parts@[1]@ == app_dir_name()
            &&& parts@[2]@ == history_dir_name()
            &&& parts@[3]@ == split_file_name(session_id)
        },
{
    match chat_history_dir(data_dir) {
        Err(e) => Err(e),
        Ok(mut parts) => {
            let mut name = uuid_to_string(session_id);
            push_chars(&mut name, "_split.json");
            parts.push(name);
            Ok(parts)
        },
    }
}

/// The record of a session's history at the moment `now`: both timestamps are
/// `now`, the messages are copies of `messages`, the rest is as given.
pub fn history_record(
    session_id: u128,
    now: String,
    messages: &[SimplifiedMessage],
    token_count: u32,
    compression_applied: bool,
    split_file: Option<String>,
) -> (file: ChatHistoryFile)
    ensures
        file.session_id == session_id,
        file.created_at == now,
        file.updated_at == now,
        file.messages@ == messages@,
        file.metadata.token_count == token_count,
        file.metadata.compression_applied == compression_applied,
        file.metadata.split_file == split_file,
{
    let mut copies: Vec<SimplifiedMessage> = Vec::new();
    extend_with_copies(&mut copies, messages);
    ChatHistoryFile {
        session_id,
        created_at: now.clone(),
        updated_at: now,
        messages: copies,
        metadata: ChatHistoryMetadata { token_count, compression_applied, split_file },
    }
}

/// The record to write as the main history file of a session. It replaces
/// whatever the file held. Its timestamps are the current time and its token
/// count is a fresh estimate over `messages`.
pub fn write_chat_history(
    session_id: u128,
    messages: &[SimplifiedMessage],
    compression_applied: bool,
    split_file: Option<String>,
) -> (file: ChatHistoryFile)
    ensures
        file.session_id == session_id,
        file.created_at == file.updated_at,
        file.messages@ == messages@,
        file.metadata.compression_applied == compression_applied,
        file.metadata.split_file == split_file,
        messages@.len() == 0 ==> file.metadata.token_count == 0,
        is_token_estimate(file.metadata.token_count, messages@),
{
    let now = current_timestamp();
    let token_count = estimate_token_count(messages);
    history_record(session_id, now, messages, token_count, compression_applied, split_file)
}

/// What reading a session's main file comes to. No file is no record. A file
/// that holds a record gives it. A file that could not be read, or that does
/// not hold a record, is an error and is never taken for no file.
pub fn read_chat_history(found: Option<Result<ChatHistoryFile, ChatHistoryFileError>>) -> (outcome:
    Result<Option<ChatHistoryFile>, ChatHistoryFileError>)
    ensures
        outcome == match found {
            None => Ok::<Option<ChatHistoryFile>, ChatHistoryFileError>(None),
            Some(Ok(file)) => Ok(Some(file)),
            Some(Err(e)) => Err(e),
        },
{
    match found {
        None => Ok(None),
        Some(Ok(file)) => Ok(Some(file)),
        Some(Err(e)) => Err(e),
    }
}

/// The record to write as the split file of a session: the messages moved
/// out of the main file. It is never compressed and names no further split
/// file.
pub fn create_split_file(session_id: u128, messages: &[SimplifiedMessage]) -> (file: ChatHistoryFile)
    ensures
        file.session_id == session_id,
        file.created_at == file.updated_at,
        file.messages@ == messages@,
        !file.metadata.compression_applied,
        file.metadata.split_file is None,
        messages@.len() == 0 ==> file.metadata.token_count == 0,
        is_token_estimate(file.metadata.token_count, messages@),
{
    let now = current_timestamp();
    let token_count = estimate_token_count(messages);
    history_record(session_id, now, messages, token_count, false, None)
}

/// The record to write as the split file once `new_messages` are appended:
/// the messages of the split file that exists, if one does, followed by the
/// new ones in their order.
pub fn append_to_split_file(
    session_id: u128,
    existing: Option<ChatHistoryFile>,
    new_messages: &[SimplifiedMessage],
) -> (file: ChatHistoryFile)
    ensures
        file.session_id == session_id,
        file.created_at == file.updated_at,
        file.messages@ == appended_messages(existing, new_messages@),
        !file.metadata.compression_applied,
        file.metadata.split_file is None,
        is_token_estimate(file.metadata.token_count, file.messages@),
        file.messages@.len() == 0 ==> file.metadata.token_count == 0,
{
    let mut merged: Vec<SimplifiedMessage> = match existing {
        Some(file) => file.messages,
        None => Vec::new(),
    };
    extend_with_copies(&mut merged, new_messages);
    assert(merged@ =~= appended_messages(existing, new_messages@));
    create_split_file(session_id, merged.as_slice())
}

} // verus!
