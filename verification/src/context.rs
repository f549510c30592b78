//! The context assembler: turns the stored messages of a session into the
//! entries that are shown to an agent, in full for export and compacted for
//! a model's context window.

use vstd::prelude::*;
use vstd::string::StrSliceExecFns;
use std::collections::HashMap;
use crate::compress::{
    compress_content, compressed, lemma_compressed_fits_or_is_marked_prefix, lemma_marker_len,
    truncation_marker,
};
use crate::ids::{uuid_text, uuid_to_string};
use crate::meta::{MetaMember, MetaValue};
use crate::text::trim;

verus! {

/// Who can send a message.
#[derive(Debug, Clone, Copy, PartialEq, Eq, Structural)]
pub enum ChatSenderType {
    User,
    Agent,
    System,
}

/// Whether a session still takes messages.
#[derive(Debug, Clone, Copy, PartialEq, Eq, Structural)]
pub enum ChatSessionStatus {
    Active,
    Archived,
}

/// An agent of the directory.
#[derive(Debug, Clone, PartialEq, Eq)]
pub struct ChatAgent {
    pub id: u128,
    pub name: String,
}

/// A session as the store holds it.
#[derive(Debug, Clone, PartialEq, Eq)]
pub struct ChatSession {
    pub id: u128,
    pub status: ChatSessionStatus,
    pub summary_text: Option<String>,
}

/// A message as the store holds it.
#[derive(Debug, Clone, PartialEq, Eq)]
pub struct ChatMessage {
    pub id: u128,
    pub session_id: u128,
    pub sender_type: ChatSenderType,
    pub sender_id: Option<u128>,
    pub content: String,
    pub mentions: Vec<String>,
    pub meta: MetaValue,
    pub created_at: String,
}

/// The resolved sender of a message.
#[derive(Debug, Clone, PartialEq, Eq)]
pub struct SenderDescriptor {
    pub kind: ChatSenderType,
    pub id: Option<u128>,
    pub handle: Option<String>,
    pub name: Option<String>,
    pub label: String,
}

/// One entry of a session's context.
#[derive(Debug, Clone, PartialEq, Eq)]
pub struct StructuredContextEntry {
    pub id: u128,
    pub session_id: u128,
    pub created_at: String,
    pub sender: SenderDescriptor,
    pub content: String,
    pub mentions: Vec<String>,
    pub meta: MetaValue,
    pub compressed: bool,
}

/// The most messages that a compacted context holds.
pub const MAX_CONTEXT_MESSAGES: usize = 30;

/// The number of most recent messages that a compacted context keeps in full.
pub const RECENT_MESSAGES_FULL: usize = 5;

/// The least budget that an older message is compressed to.
pub const MIN_COMPRESSED_CHARS: usize = 100;

/// The largest budget that an older message is compressed to.
pub const MAX_COMPRESSED_CHARS: usize = 500;

/// The directory that a list of agents makes: each identity with its name,
/// a later entry for an identity replacing an earlier one.
pub open spec fn directory_of(agents: Seq<ChatAgent>) -> Map<u128, String>
    decreases agents.len(),
{
    if agents.len() == 0 {
        Map::empty()
    } else {
        directory_of(agents.drop_last()).insert(agents.last().id, agents.last().name)
    }
}

/// The name of a message's sender, where it has an identity that the
/// directory lists.
pub open spec fn sender_name(directory: Map<u128, String>, sender_id: Option<u128>) -> Option<
    String,
> {
    match sender_id {
        Some(id) => if directory.contains_key(id) {
            Some(directory[id])
        } else {
            None
        },
        None => None,
    }
}

/// The label of a sender. A user goes by its handle, else by `user`. An agent
/// goes by its name, else by its identity, else by `agent`. The system is
/// `system`.
pub open spec fn sender_label(
    kind: ChatSenderType,
    id: Option<u128>,
    handle: Option<String>,
    name: Option<String>,
) -> Seq<char> {
    match kind {
        ChatSenderType::User => match handle {
            Some(h) => h@,
            None => "user"@,
        },
        ChatSenderType::Agent => match name {
            Some(n) => n@,
            None => match id {
                Some(i) => uuid_text(i),
                None => "agent"@,
            },
        },
        ChatSenderType::System => "system"@,
    }
}

/// `sender` describes the sender of `message` as `directory` resolves it.
pub open spec fn resolves_sender(
    sender: SenderDescriptor,
    message: ChatMessage,
    directory: Map<u128, String>,
) -> bool {
    &&& sender.kind == message.sender_type
    &&& sender.id == message.sender_id
    &&& sender.handle == message.meta.text_member("sender_handle"@)
    &&& sender.name == sender_name(directory, message.sender_id)
    &&& sender.label@ == sender_label(sender.kind, sender.id, sender.handle, sender.name)
}

/// `entry` shows `message` in full: content and metadata as stored.
pub open spec fn shows_in_full(
    entry: StructuredContextEntry,
    message: ChatMessage,
    directory: Map<u128, String>,
) -> bool {
    &&& entry.id == message.id
    &&& entry.session_id == message.session_id
    &&& entry.created_at == message.created_at
    &&& resolves_sender(entry.sender, message, directory)
    &&& entry.content == message.content
    &&& entry.mentions == message.mentions
    &&& entry.meta == message.meta
    &&& !entry.compressed
}

/// The budget to which a content of `len` characters is compressed: two
/// fifths of its length, but no less than 100 and no more than 500.
pub open spec fn compression_budget(len: nat) -> nat {
    let target = len * 2 / 5;
    if target < MIN_COMPRESSED_CHARS {
        MIN_COMPRESSED_CHARS as nat
    } else if target > MAX_COMPRESSED_CHARS {
        MAX_COMPRESSED_CHARS as nat
    } else {
        target as nat
    }
}

/// The metadata that a compressed entry keeps: the member `sender`, where
/// there is one, and nothing else.
pub open spec fn kept_members(meta: MetaValue) -> Seq<(Seq<char>, MetaValue)> {
    match meta.member("sender"@) {
        Some(sender) => seq![("sender"@, sender)],
        None => Seq::empty(),
    }
}

/// `entry` shows `message` compressed: the content shortened to its budget
/// and the metadata reduced to the sender.
pub open spec fn shows_compressed(
    entry: StructuredContextEntry,
    message: ChatMessage,
    directory: Map<u128, String>,
) -> bool {
    &&& entry.id == message.id
    &&& entry.session_id == message.session_id
    &&& entry.created_at == message.created_at
    &&& resolves_sender(entry.sender, message, directory)
    &&& entry.content@ == compressed(
        message.content@,
        compression_budget(message.content@.len()) as int,
    )
    &&& entry.mentions == message.mentions
    &&& entry.meta.is_object_of(kept_members(message.meta))
    &&& entry.compressed
}

/// The number of messages that the window of a compacted context drops.
pub open spec fn dropped(total: nat) -> nat {
    if total > MAX_CONTEXT_MESSAGES {
        (total - MAX_CONTEXT_MESSAGES) as nat
    } else {
        0
    }
}

/// In a window of `count` entries, the first that is kept in full.
pub open spec fn first_recent(count: nat) -> nat {
    if count > RECENT_MESSAGES_FULL {
        (count - RECENT_MESSAGES_FULL) as nat
    } else {
        0
    }
}

/// `entries` is the full context of `messages`: one entry for each message,
/// in order, every one in full.
pub open spec fn is_full_context(
    entries: Seq<StructuredContextEntry>,
    messages: Seq<ChatMessage>,
    directory: Map<u128, String>,
) -> bool {
    &&& entries.len() == messages.len()
    &&& forall|i: int|
        0 <= i < entries.len() ==> shows_in_full(#[trigger] entries[i], messages[i], directory)
}

/// `entries` is the compacted context of `messages`: one entry for each of
/// the last 30 messages, in order, the last 5 of them in full and the others
/// compressed.
pub open spec fn is_compacted_context(
    entries: Seq<StructuredContextEntry>,
    messages: Seq<ChatMessage>,
    directory: Map<u128, String>,
) -> bool {
    let skip = dropped(messages.len());
    &&& entries.len() == messages.len() - skip
    &&& forall|i: int|
        0 <= i < entries.len() ==> if i >= first_recent(entries.len()) {
            shows_in_full(#[trigger] entries[i], messages[skip + i], directory)
        } else {
            shows_compressed(entries[i], messages[skip + i], directory)
        }
}

/// A compressed entry is flagged and holds either the whole trimmed content,
/// where that is within the budget, or at most the budget's characters of it
/// followed by the marker. The budget lies between 100 and 500.
pub proof fn lemma_compressed_entry_bounds(
    entry: StructuredContextEntry,
    message: ChatMessage,
    directory: Map<u128, String>,
)
    requires
        shows_compressed(entry, message, directory),
    ensures
        entry.compressed,
        100 <= compression_budget(message.content@.len()) <= 500,
        entry.content@.len() <= 514,
        trim(message.content@).len() <= compression_budget(message.content@.len())
            ==> entry.content@ == trim(message.content@) && entry.content@.len() <= 500,
        trim(message.content@).len() > compression_budget(message.content@.len()) ==> {
            let kept = entry.content@.len() - truncation_marker().len();
            &&& 0 <= kept <= 500
            &&& entry.content@ == trim(message.content@).take(kept) + truncation_marker()
        },
{
    lemma_marker_len();
    lemma_compressed_fits_or_is_marked_prefix(
        message.content@,
        compression_budget(message.content@.len()) as int,
    );
}

/// For a session of more than 30 messages the compacted context holds exactly
/// 30 entries, for the 30 most recent messages in their order: the first 25
/// compressed and flagged, the last 5 in full and not flagged. A compressed
/// content is the trimmed content of the message where that fits the budget,
/// and never more than 500 characters followed by the marker.
pub proof fn lemma_compacted_context_of_long_session(
    entries: Seq<StructuredContextEntry>,
    messages: Seq<ChatMessage>,
    directory: Map<u128, String>,
)
    requires
        messages.len() > 30,
        is_compacted_context(entries, messages, directory),
    ensures
        entries.len() == 30,
        forall|i: int|
            0 <= i < 25 ==> (#[trigger] entries[i]).compressed && shows_compressed(
                entries[i],
                messages[messages.len() - 30 + i],
                directory,
            ),
        forall|i: int|
            0 <= i < 25 ==> (#[trigger] entries[i]).content@.len() <= 500
                + truncation_marker().len(),
        forall|i: int|
            0 <= i < 25 && trim(messages[messages.len() - 30 + i].content@).len()
                <= compression_budget(messages[messages.len() - 30 + i].content@.len())
                ==> (#[trigger] entries[i]).content@ == trim(
                messages[messages.len() - 30 + i].content@,
            ) && entries[i].content@.len() <= 500,
        forall|i: int|
            25 <= i < 30 ==> !(#[trigger] entries[i]).compressed && shows_in_full(
                entries[i],
                messages[messages.len() - 30 + i],
                directory,
            ),
{
    assert forall|i: int| 0 <= i < 25 implies (#[trigger] entries[i]).compressed
        && shows_compressed(entries[i], messages[messages.len() - 30 + i], directory) by {
        assert(!(i >= first_recent(entries.len())));
    }
    assert forall|i: int| 0 <= i < 25 implies (#[trigger] entries[i]).content@.len() <= 500
        + truncation_marker().len() && (trim(messages[messages.len() - 30 + i].content@).len()
        <= compression_budget(messages[messages.len() - 30 + i].content@.len())
        ==> entries[i].content@ == trim(messages[messages.len() - 30 + i].content@)
        && entries[i].content@.len() <= 500) by {
        lemma_compressed_entry_bounds(entries[i], messages[messages.len() - 30 + i], directory);
    }
    assert forall|i: int| 25 <= i < 30 implies !(#[trigger] entries[i]).compressed
        && shows_in_full(entries[i], messages[messages.len() - 30 + i], directory) by {
        assert(i >= first_recent(entries.len()));
    }
}

/// For a session of at most 30 messages the compacted context holds an entry
/// for every message, in order: the last 5 in full and not flagged, all
/// before them compressed and flagged.
pub proof fn lemma_compacted_context_of_short_session(
    entries: Seq<StructuredContextEntry>,
    messages: Seq<ChatMessage>,
    directory: Map<u128, String>,
)
    requires
        messages.len() <= 30,
        is_compacted_context(entries, messages, directory),
    ensures
        entries.len() == messages.len(),
        forall|i: int|
            0 <= i < entries.len() - 5 ==> (#[trigger] entries[i]).compressed
                && shows_compressed(entries[i], messages[i], directory),
        forall|i: int|
            0 <= i < entries.len() && i >= entries.len() - 5 ==> !(#[trigger] entries[i]).compressed
                && shows_in_full(entries[i], messages[i], directory),
{
    assert forall|i: int| 0 <= i < entries.len() - 5 implies (#[trigger] entries[i]).compressed
        && shows_compressed(entries[i], messages[i], directory) by {
        assert(!(i >= first_recent(entries.len())));
    }
    assert forall|i: int| 0 <= i < entries.len() && i >= entries.len() - 5 implies !(
    #[trigger] entries[i]).compressed && shows_in_full(entries[i], messages[i], directory) by {
        assert(i >= first_recent(entries.len()));
    }
}

/// The directory of a list of agents.
pub fn agent_directory(agents: &Vec<ChatAgent>) -> (directory: HashMap<u128, String>)
    ensures
        directory@ == directory_of(agents@),
{
    broadcast use vstd::std_specs::hash::group_hash_axioms;

    let mut directory: HashMap<u128, String> = HashMap::new();
    let mut i: usize = 0;
    assert(agents@.take(0) =~= Seq::empty());
    while i < agents.len()
        invariant
            i <= agents.len(),
            directory@ == directory_of(agents@.take(i as int)),
        decreases agents.len() - i,
    {
        proof {
            let next = agents@.take(i + 1);
            assert(next.last() == agents@[i as int]);
            assert(next.drop_last() =~= agents@.take(i as int));
        }
        directory.insert(agents[i].id, agents[i].name.clone());
        i += 1;
    }
    assert(agents@.take(agents@.len() as int) =~= agents@);
    directory
}

/// The name of the agent `id` in the directory.
pub fn find_agent_name(directory: &HashMap<u128, String>, id: u128) -> (name: Option<String>)
    ensures
        name == sender_name(directory@, Some(id)),
{
    broadcast use vstd::std_specs::hash::group_hash_axioms;

    match directory.get(&id) {
        Some(name) => Some(name.clone()),
        None => None,
    }
}

/// Describes a sender of the given kind and identity, with the handle that
/// its message carries and the name that the directory has for it.
pub fn describe_sender(
    kind: ChatSenderType,
    id: Option<u128>,
    handle: Option<String>,
    name: Option<String>,
) -> (sender: SenderDescriptor)
    ensures
        sender.kind == kind,
        sender.id == id,
        sender.handle == handle,
        sender.name == name,
        sender.label@ == sender_label(kind, id, handle, name),
{
    let label = match kind {
        ChatSenderType::User => match &handle {
            Some(h) => h.clone(),
            None => "user".to_owned(),
        },
        ChatSenderType::Agent => match &name {
            Some(n) => n.clone(),
            None => match id {
                Some(i) => uuid_to_string(i),
                None => "agent".to_owned(),
            },
        },
        ChatSenderType::System => "system".to_owned(),
    };
    SenderDescriptor { kind, id, handle, name, label }
}

/// Resolves the sender of a stored message.
pub fn resolve_sender(message: &ChatMessage, directory: &HashMap<u128, String>) -> (sender:
    SenderDescriptor)
    ensures
        resolves_sender(sender, *message, directory@),
{
    let handle = message.meta.get_text("sender_handle");
    let name = match message.sender_id {
        Some(id) => find_agent_name(directory, id),
        None => None,
    };
    describe_sender(message.sender_type, message.sender_id, handle, name)
}

/// The budget for compressing a content of `len` characters.
pub fn budget_for(len: usize) -> (budget: usize)
    ensures
        budget == compression_budget(len as nat),
        MIN_COMPRESSED_CHARS <= budget <= MAX_COMPRESSED_CHARS,
{
    if len >= 1253 {
        MAX_COMPRESSED_CHARS
    } else {
        let target: usize = len * 2 / 5;
        if target < MIN_COMPRESSED_CHARS {
            MIN_COMPRESSED_CHARS
        } else if target > MAX_COMPRESSED_CHARS {
            MAX_COMPRESSED_CHARS
        } else {
            target
        }
    }
}

/// The entry that shows `message` in full.
pub fn full_entry(message: ChatMessage, directory: &HashMap<u128, String>) -> (entry:
    StructuredContextEntry)
    ensures
        shows_in_full(entry, message, directory@),
{
    let sender = resolve_sender(&message, directory);
    StructuredContextEntry {
        id: message.id,
        session_id: message.session_id,
        created_at: message.created_at,
        sender,
        content: message.content,
        mentions: message.mentions,
        meta: message.meta,
        compressed: false,
    }
}

/// The entry that shows `message` compressed.
pub fn compressed_entry(message: ChatMessage, directory: &HashMap<u128, String>) -> (entry:
    StructuredContextEntry)
    ensures
        shows_compressed(entry, message, directory@),
{
    let sender = resolve_sender(&message, directory);
    let budget = budget_for(message.content.as_str().unicode_len());
    let content = compress_content(message.content.as_str(), budget);
    let mut kept: Vec<MetaMember> = Vec::new();
    match message.meta.take("sender") {
        Some(value) => {
            kept.push(MetaMember { key: "sender".to_owned(), value });
        },
        None => {},
    }
    StructuredContextEntry {
        id: message.id,
        session_id: message.session_id,
        created_at: message.created_at,
        sender,
        content,
        mentions: message.mentions,
        meta: MetaValue::Object(kept),
        compressed: true,
    }
}

/// The full context of a session, for export: every message of it, oldest
/// first, with its sender resolved and its content and metadata as stored.
pub fn build_structured_messages(messages: Vec<ChatMessage>, agents: &Vec<ChatAgent>) -> (entries:
    Vec<StructuredContextEntry>)
    ensures
        is_full_context(entries@, messages@, directory_of(agents@)),
{
    broadcast use vstd::std_specs::vec::group_vec_axioms;

    let directory = agent_directory(agents);
    let mut entries: Vec<StructuredContextEntry> = Vec::new();
    for message in it: messages
        invariant
            it.seq() == messages@,
            directory@ == directory_of(agents@),
            entries@.len() == it.index(),
            forall|i: int|
                0 <= i < entries@.len() ==> shows_in_full(
                    #[trigger] entries@[i],
                    messages@[i],
                    directory@,
                ),
    {
        let entry = full_entry(message, &directory);
        entries.push(entry);
    }
    entries
}

/// The compacted context of a session, for a model's context window: the
/// 30 most recent messages, oldest first, of which the 5 most recent are
/// shown in full and the others compressed.
pub fn build_structured_messages_with_compression(
    messages: Vec<ChatMessage>,
    agents: &Vec<ChatAgent>,
) -> (entries: Vec<StructuredContextEntry>)
    ensures
        is_compacted_context(entries@, messages@, directory_of(agents@)),
{
    broadcast use vstd::std_specs::vec::group_vec_axioms;

    let total = messages.len();
    let skip: usize = if total > MAX_CONTEXT_MESSAGES {
        total - MAX_CONTEXT_MESSAGES
    } else {
        0
    };
    let count: usize = total - skip;
    let recent_from: usize = if count > RECENT_MESSAGES_FULL {
        count - RECENT_MESSAGES_FULL
    } else {
        0
    };
    let directory = agent_directory(agents);
    let mut entries: Vec<StructuredContextEntry> = Vec::new();
    let mut seen: usize = 0;
    for message in it: messages
        invariant
            it.seq() == messages@,
            directory@ == directory_of(agents@),
            total == messages@.len(),
            skip == dropped(total as nat),
            count == total - skip,
            recent_from == first_recent(count as nat),
            seen == it.index(),
            entries@.len() == if seen > skip {
                seen - skip
            } else {
                0
            },
            forall|i: int|
                0 <= i < entries@.len() ==> if i >= recent_from {
                    shows_in_full(#[trigger] entries@[i], messages@[skip + i], directory@)
                } else {
                    shows_compressed(entries@[i], messages@[skip + i], directory@)
                },
    {
        if seen >= skip {
            let entry = if seen - skip >= recent_from {
                full_entry(message, &directory)
            } else {
                compressed_entry(message, &directory)
            };
            entries.push(entry);
        }
        seen += 1;
    }
    entries
}

/// The summary that goes into the archive of a session: its own, or a note
/// that there is none.
pub open spec fn archive_summary_text(session: ChatSession) -> Seq<char> {
    match session.summary_text {
        Some(summary) => summary@,
        None => "No summary available."@,
    }
}

/// The summary that is written into the archive of a session.
pub fn archive_summary(session: &ChatSession) -> (summary: String)
    ensures
        summary@ == archive_summary_text(*session),
{
    match &session.summary_text {
        Some(summary) => summary.clone(),
        None => "No summary available.".to_owned(),
    }
}

} // verus!
