//! The message creation pipeline: what is checked before a message is stored,
//! what is stored, and in which order the store is asked.

use vstd::prelude::*;
use crate::context::{
    describe_sender, sender_label, ChatAgent, ChatMessage, ChatSenderType, ChatSession,
    ChatSessionStatus, SenderDescriptor,
};
use crate::history::current_timestamp;
use crate::ids::{is_random_uuid, random_uuid, uuid_text, uuid_to_string};
use crate::mentions::{mentions_of, parse_mentions, texts};
use crate::meta::{
    attachments_of, has_attachments, lemma_key_position_is, lemma_member_after_set,
    ChatAttachmentMeta, MetaMember, MetaValue,
};
use crate::text::{lemma_trim_bounds, push_chars, to_chars, trim, trim_bounds};

verus! {

/// Why a chat operation failed.
#[derive(Debug, Clone, PartialEq, Eq)]
pub enum ChatServiceError {
    /// The store failed; the text is its message.
    Database(String),
    /// The file system failed; the text is its message.
    Io(String),
    SessionNotFound,
    SessionArchived,
    /// The request is not acceptable; the text says why.
    Validation(String),
}

/// A message to be created.
#[derive(Debug, Clone, PartialEq, Eq)]
pub struct NewMessage {
    pub session_id: u128,
    pub sender_type: ChatSenderType,
    pub sender_id: Option<u128>,
    pub content: String,
    pub meta: Option<MetaValue>,
    pub message_id: u128,
}

/// A message as it is handed to the store.
#[derive(Debug, Clone, PartialEq, Eq)]
pub struct CreateChatMessage {
    pub session_id: u128,
    pub sender_type: ChatSenderType,
    pub sender_id: Option<u128>,
    pub content: String,
    pub mentions: Vec<String>,
    pub meta: MetaValue,
}

/// The text of an error.
pub open spec fn service_error_text(error: ChatServiceError) -> Seq<char> {
    match error {
        ChatServiceError::Database(cause) => cause@,
        ChatServiceError::Io(cause) => cause@,
        ChatServiceError::SessionNotFound => "Chat session not found"@,
        ChatServiceError::SessionArchived => "Chat session is archived"@,
        ChatServiceError::Validation(reason) => "Validation error: "@ + reason@,
    }
}

impl ChatServiceError {
    /// The error as a line of text.
    pub fn message(&self) -> (text: String)
        ensures
            text@ == service_error_text(*self),
    {
        let mut text = String::new();
        match self {
            ChatServiceError::Database(cause) => {
                push_chars(&mut text, cause.as_str());
            },
            ChatServiceError::Io(cause) => {
                push_chars(&mut text, cause.as_str());
            },
            ChatServiceError::SessionNotFound => {
                push_chars(&mut text, "Chat session not found");
            },
            ChatServiceError::SessionArchived => {
                push_chars(&mut text, "Chat session is archived");
            },
            ChatServiceError::Validation(reason) => {
                push_chars(&mut text, "Validation error: ");
                push_chars(&mut text, reason.as_str());
            },
        }
        assert(text@ =~= service_error_text(*self));
        text
    }
}

/// What the checks make of a request.
#[derive(Debug, Clone, Copy, PartialEq, Eq, Structural)]
pub enum Verdict {
    /// An agent's message names no sender.
    SenderMissing,
    /// The session does not exist.
    SessionNotFound,
    /// The session no longer takes messages.
    SessionArchived,
    /// There is neither content nor an attachment.
    ContentMissing,
    Accepted,
}

/// The attachments that the metadata of a request carries: those of an
/// object; a value that is no object carries none.
pub open spec fn carried_attachments(meta: Option<MetaValue>) -> Seq<ChatAttachmentMeta> {
    match meta {
        Some(value) => if value is Object {
            attachments_of(value)
        } else {
            Seq::empty()
        },
        None => Seq::empty(),
    }
}

/// The checks, in their order: the sender, the session, the session's
/// status, the content.
pub open spec fn verdict(
    sender_type: ChatSenderType,
    sender_id: Option<u128>,
    session: Option<ChatSession>,
    content: Seq<char>,
    meta: Option<MetaValue>,
) -> Verdict {
    if sender_type == ChatSenderType::Agent && sender_id is None {
        Verdict::SenderMissing
    } else if session is None {
        Verdict::SessionNotFound
    } else if session->0.status != ChatSessionStatus::Active {
        Verdict::SessionArchived
    } else if trim(content).len() == 0 && carried_attachments(meta).len() == 0 {
        Verdict::ContentMissing
    } else {
        Verdict::Accepted
    }
}

/// A message for an archived session is refused as archived, whatever its
/// content and metadata, unless it is an agent's message without a sender,
/// which is refused before the session is looked at.
pub proof fn lemma_archived_session_is_reported_as_archived(
    sender_type: ChatSenderType,
    sender_id: Option<u128>,
    session: ChatSession,
    content: Seq<char>,
    meta: Option<MetaValue>,
)
    requires
        session.status == ChatSessionStatus::Archived,
        !(sender_type == ChatSenderType::Agent && sender_id is None),
    ensures
        verdict(sender_type, sender_id, Some(session), content, meta) is SessionArchived,
{
}

/// An agent's message without a sender is refused for that, whatever the
/// session, the content and the metadata are.
pub proof fn lemma_agent_without_sender_is_refused_first(
    session: Option<ChatSession>,
    content: Seq<char>,
    meta: Option<MetaValue>,
)
    ensures
        verdict(ChatSenderType::Agent, None, session, content, meta) is SenderMissing,
{
}

/// What is found under `key` in the metadata a message starts from: the
/// member of an object; a value that is no object is itself the one member
/// `raw_meta`; no metadata is an empty object.
pub open spec fn base_member(meta: Option<MetaValue>, key: Seq<char>) -> Option<MetaValue> {
    match meta {
        Some(value) => if value is Object {
            value.member(key)
        } else if key == "raw_meta"@ {
            Some(value)
        } else {
            None
        },
        None => None,
    }
}

/// The handle that the metadata of a request gives its sender.
pub open spec fn base_handle(meta: Option<MetaValue>) -> Option<String> {
    match base_member(meta, "sender_handle"@) {
        Some(value) => value.text(),
        None => None,
    }
}

/// The name of a sender kind in metadata.
pub open spec fn kind_text(kind: ChatSenderType) -> Seq<char> {
    match kind {
        ChatSenderType::User => "user"@,
        ChatSenderType::Agent => "agent"@,
        ChatSenderType::System => "system"@,
    }
}

/// The characters of an optional string.
pub open spec fn optional_chars(text: Option<String>) -> Option<Seq<char>> {
    match text {
        Some(s) => Some(s@),
        None => None,
    }
}

/// The text of an optional identifier.
pub open spec fn optional_id_text(id: Option<u128>) -> Option<Seq<char>> {
    match id {
        Some(i) => Some(uuid_text(i)),
        None => None,
    }
}

/// `value` is the text `text`, or null where there is none.
pub open spec fn is_optional_text(value: MetaValue, text: Option<Seq<char>>) -> bool {
    match text {
        Some(t) => value.is_text(t),
        None => value is Null,
    }
}

/// `value` is a list of the texts `items`.
pub open spec fn is_text_list(value: MetaValue, items: Seq<Seq<char>>) -> bool {
    &&& value matches MetaValue::List(list)
    &&& list@.len() == items.len()
    &&& forall|i: int| 0 <= i < items.len() ==> (#[trigger] list@[i]).is_text(items[i])
}

/// `value` is the member `key` with a value that `holds` accepts.
pub open spec fn is_member(
    member: MetaMember,
    key: Seq<char>,
    holds: spec_fn(MetaValue) -> bool,
) -> bool {
    member.key@ == key && holds(member.value)
}

/// `value` is the sender block of a message: its kind, identity, handle,
/// name and label.
pub open spec fn is_sender_block(value: MetaValue, sender: SenderDescriptor) -> bool {
    let m = value.members();
    &&& value is Object
    &&& m.len() == 5
    &&& is_member(m[0], "type"@, |v: MetaValue| v.is_text(kind_text(sender.kind)))
    &&& is_member(m[1], "id"@, |v: MetaValue| is_optional_text(v, optional_id_text(sender.id)))
    &&& is_member(m[2], "handle"@, |v: MetaValue| is_optional_text(v, optional_chars(sender.handle)))
    &&& is_member(m[3], "name"@, |v: MetaValue| is_optional_text(v, optional_chars(sender.name)))
    &&& is_member(m[4], "label"@, |v: MetaValue| v.is_text(sender.label@))
}

/// `value` is the structured snapshot of a message at the moment `now`.
pub open spec fn is_structured_snapshot(
    value: MetaValue,
    sender: SenderDescriptor,
    content: Seq<char>,
    mentions: Seq<Seq<char>>,
    now: Seq<char>,
) -> bool {
    let m = value.members();
    &&& value is Object
    &&& m.len() == 7
    &&& is_member(m[0], "sender_type"@, |v: MetaValue| v.is_text(kind_text(sender.kind)))
    &&& is_member(
        m[1],
        "sender_id"@,
        |v: MetaValue| is_optional_text(v, optional_id_text(sender.id)),
    )
    &&& is_member(
        m[2],
        "sender_handle"@,
        |v: MetaValue| is_optional_text(v, optional_chars(sender.handle)),
    )
    &&& is_member(m[3], "sender_label"@, |v: MetaValue| v.is_text(sender.label@))
    &&& is_member(m[4], "content"@, |v: MetaValue| v.is_text(content))
    &&& is_member(m[5], "mentions"@, |v: MetaValue| is_text_list(v, mentions))
    &&& is_member(m[6], "created_at"@, |v: MetaValue| v.is_text(now))
}

/// The sender of a request as it is described in its metadata: the handle is
/// the one the metadata carries, the name is the agent's.
pub open spec fn describes_request_sender(
    sender: SenderDescriptor,
    request: NewMessage,
    agent_name: Option<String>,
) -> bool {
    &&& sender.kind == request.sender_type
    &&& sender.id == request.sender_id
    &&& sender.handle == base_handle(request.meta)
    &&& sender.name == agent_name
    &&& sender.label@ == sender_label(sender.kind, sender.id, sender.handle, sender.name)
}

/// `draft` is what is stored for `request` at the moment `now`, the store
/// having `agent_name` for its sender. The mentions are those of the content.
/// The metadata is an object. Its member `sender` is the one the request
/// brought, or else the sender block. Its member `structured` is the
/// snapshot, whatever the request brought under that name. All else in it is
/// as the request brought it.
pub open spec fn is_draft_of(
    draft: CreateChatMessage,
    request: NewMessage,
    agent_name: Option<String>,
    now: Seq<char>,
) -> bool {
    &&& draft.session_id == request.session_id
    &&& draft.sender_type == request.sender_type
    &&& draft.sender_id == request.sender_id
    &&& draft.content == request.content
    &&& texts(draft.mentions@) == mentions_of(request.content@)
    &&& draft.meta is Object
    &&& exists|sender: SenderDescriptor|
        {
            &&& #[trigger] describes_request_sender(sender, request, agent_name)
            &&& draft.meta.member("sender"@) is Some
            &&& if base_member(request.meta, "sender"@) is Some {
                draft.meta.member("sender"@) == base_member(request.meta, "sender"@)
            } else {
                is_sender_block(draft.meta.member("sender"@)->0, sender)
            }
            &&& draft.meta.member("structured"@) is Some
            &&& is_structured_snapshot(
                draft.meta.member("structured"@)->0,
                sender,
                request.content@,
                mentions_of(request.content@),
                now,
            )
        }
    &&& forall|key: Seq<char>|
        key != "sender"@ && key != "structured"@ ==> #[trigger] draft.meta.member(key)
            == base_member(request.meta, key)
}

/// The names of the members that the pipeline writes and reads differ from
/// one another.
pub proof fn lemma_member_names_differ()
    ensures
        "sender"@ != "structured"@,
        "sender"@ != "sender_handle"@,
        "structured"@ != "sender_handle"@,
        "raw_meta"@ != "attachments"@,
{
    reveal_strlit("sender");
    reveal_strlit("structured");
    reveal_strlit("sender_handle");
    reveal_strlit("raw_meta");
    reveal_strlit("attachments");
    assert("sender"@.len() == 6);
    assert("structured"@.len() == 10);
    assert("sender_handle"@.len() == 13);
    assert("raw_meta"@.len() == 8);
    assert("attachments"@.len() == 11);
}

/// The name of a sender kind as a value.
fn kind_value(kind: ChatSenderType) -> (value: MetaValue)
    ensures
        value.is_text(kind_text(kind)),
{
    match kind {
        ChatSenderType::User => MetaValue::text_of("user"),
        ChatSenderType::Agent => MetaValue::text_of("agent"),
        ChatSenderType::System => MetaValue::text_of("system"),
    }
}

/// An optional text as a value: the text, or null.
fn optional_text_value(text: &Option<String>) -> (value: MetaValue)
    ensures
        is_optional_text(value, optional_chars(*text)),
{
    match text {
        Some(s) => MetaValue::Text(s.clone()),
        None => MetaValue::Null,
    }
}

/// An optional identifier as a value: its text, or null.
fn optional_id_value(id: Option<u128>) -> (value: MetaValue)
    ensures
        is_optional_text(value, optional_id_text(id)),
{
    match id {
        Some(i) => MetaValue::Text(uuid_to_string(i)),
        None => MetaValue::Null,
    }
}

/// A list of texts as a value.
fn text_list_value(items: &Vec<String>) -> (value: MetaValue)
    ensures
        is_text_list(value, texts(items@)),
{
    let mut list: Vec<MetaValue> = Vec::new();
    let mut i: usize = 0;
    while i < items.len()
        invariant
            i <= items.len(),
            list@.len() == i,
            forall|k: int| 0 <= k < i ==> (#[trigger] list@[k]).is_text(texts(items@)[k]),
        decreases items.len() - i,
    {
        list.push(MetaValue::Text(items[i].clone()));
        i += 1;
    }
    MetaValue::List(list)
}

/// The member `key` with `value`.
fn member_of(key: &str, value: MetaValue) -> (member: MetaMember)
    ensures
        member.key@ == key@,
        member.value == value,
{
    MetaMember { key: key.to_owned(), value }
}

/// The sender block that is written into the metadata of a message.
pub fn sender_block(sender: &SenderDescriptor) -> (value: MetaValue)
    ensures
        is_sender_block(value, *sender),
{
    let mut members: Vec<MetaMember> = Vec::new();
    members.push(member_of("type", kind_value(sender.kind)));
    members.push(member_of("id", optional_id_value(sender.id)));
    members.push(member_of("handle", optional_text_value(&sender.handle)));
    members.push(member_of("name", optional_text_value(&sender.name)));
    members.push(member_of("label", MetaValue::Text(sender.label.clone())));
    MetaValue::Object(members)
}

/// The structured snapshot that is written into the metadata of a message.
pub fn structured_snapshot(
    sender: &SenderDescriptor,
    content: &String,
    mentions: &Vec<String>,
    now: String,
) -> (value: MetaValue)
    ensures
        is_structured_snapshot(value, *sender, content@, texts(mentions@), now@),
{
    let mut members: Vec<MetaMember> = Vec::new();
    members.push(member_of("sender_type", kind_value(sender.kind)));
    members.push(member_of("sender_id", optional_id_value(sender.id)));
    members.push(member_of("sender_handle", optional_text_value(&sender.handle)));
    members.push(member_of("sender_label", MetaValue::Text(sender.label.clone())));
    members.push(member_of("content", MetaValue::Text(content.clone())));
    members.push(member_of("mentions", text_list_value(mentions)));
    members.push(member_of("created_at", MetaValue::Text(now)));
    MetaValue::Object(members)
}

/// The metadata that a message starts from: the object that the request
/// brought; an empty object where it brought none; an object that holds what
/// it brought as `raw_meta` where that is no object.
pub fn normalize_meta(meta: Option<MetaValue>) -> (base: MetaValue)
    ensures
        base is Object,
        forall|key: Seq<char>| #[trigger] base.member(key) == base_member(meta, key),
        attachments_of(base) == carried_attachments(meta),
{
    match meta {
        None => {
            let base = MetaValue::Object(Vec::new());
            assert forall|key: Seq<char>| #[trigger] base.member(key) == base_member(meta, key) by {
                lemma_key_position_is(base.members(), key, 0);
            }
            base
        },
        Some(value) => {
            if value.is_object() {
                value
            } else {
                let mut members: Vec<MetaMember> = Vec::new();
                members.push(member_of("raw_meta", value));
                let base = MetaValue::Object(members);
                assert forall|key: Seq<char>| #[trigger] base.member(key) == base_member(meta, key) by {
                    if key == "raw_meta"@ {
                        lemma_key_position_is(base.members(), key, 0);
                    } else {
                        lemma_key_position_is(base.members(), key, 1);
                    }
                }
                proof {
                    lemma_member_names_differ();
                    assert(base.member("attachments"@) is None);
                }
                base
            }
        },
    }
}

/// Whether a content is empty once trimmed.
pub fn is_blank(content: &str) -> (blank: bool)
    ensures
        blank == (trim(content@).len() == 0),
{
    let chars = to_chars(content);
    let (a, b) = trim_bounds(&chars, chars.len());
    proof {
        assert(chars@.take(chars.len() as int) == chars@);
        lemma_trim_bounds(content@);
    }
    a == b
}

/// Builds what is stored for `request`, its checks passed, at the moment
/// `now`, with the name that the store has for its sender.
pub fn build_draft(request: NewMessage, agent_name: Option<String>, now: String) -> (draft:
    CreateChatMessage)
    ensures
        is_draft_of(draft, request, agent_name, now@),
{
    let ghost now_text = now@;
    let base = normalize_meta(request.meta);
    assert(base.member("sender_handle"@) == base_member(request.meta, "sender_handle"@));
    let handle = base.get_text("sender_handle");
    let sender = describe_sender(request.sender_type, request.sender_id, handle, agent_name);
    assert(describes_request_sender(sender, request, agent_name));
    let mentions = parse_mentions(request.content.as_str());
    let has_sender = base.get("sender").is_some();
    assert(base.member("sender"@) == base_member(request.meta, "sender"@));
    let with_sender = if has_sender {
        base
    } else {
        let block = sender_block(&sender);
        let after = base.with("sender", block);
        proof {
            assert forall|key: Seq<char>| key != "sender"@ implies #[trigger] after.member(key)
                == base.member(key) by {
                lemma_member_after_set(after, base, "sender"@, block, key);
            }
            lemma_member_after_set(after, base, "sender"@, block, "sender"@);
        }
        after
    };
    let snapshot = structured_snapshot(&sender, &request.content, &mentions, now);
    let meta = with_sender.with("structured", snapshot);
    proof {
        lemma_member_names_differ();
        assert forall|key: Seq<char>| key != "structured"@ implies #[trigger] meta.member(key)
            == with_sender.member(key) by {
            lemma_member_after_set(meta, with_sender, "structured"@, snapshot, key);
        }
        lemma_member_after_set(meta, with_sender, "structured"@, snapshot, "structured"@);
        assert(meta.member("sender"@) == with_sender.member("sender"@));
        assert forall|key: Seq<char>| key != "sender"@ && key != "structured"@ implies #[trigger] meta.member(
            key,
        ) == base_member(request.meta, key) by {
            assert(meta.member(key) == with_sender.member(key));
            assert(with_sender.member(key) == base.member(key));
        }
    }
    CreateChatMessage {
        session_id: request.session_id,
        sender_type: request.sender_type,
        sender_id: request.sender_id,
        content: request.content,
        mentions,
        meta,
    }
}

/// Where the creation of a message stands, and what the store is to do next.
#[derive(Debug, PartialEq, Eq)]
pub enum CreationStep {
    /// Look up the session of the request.
    FindSession(NewMessage),
    /// Look up the agent that sends the request.
    FindAgent(NewMessage),
    /// Insert the draft under the given identity.
    Insert(CreateChatMessage, u128),
    /// Refresh the last activity of the given session, which is that of the
    /// request. The message is what the store made of the draft.
    Touch(u128, ChatMessage),
    /// Nothing more: the message is stored, or the creation has failed.
    Done(Result<ChatMessage, ChatServiceError>),
}

/// What the store answered.
#[derive(Debug, Clone, PartialEq, Eq)]
pub enum StoreEvent {
    Session(Option<ChatSession>),
    Agent(Option<ChatAgent>),
    Inserted(ChatMessage),
    Touched,
    /// The store failed; the text is its message.
    Failed(String),
}

/// Why an agent's message without a sender is refused.
pub open spec fn sender_missing_reason() -> Seq<char> {
    "sender_id is required for agent messages"@
}

/// Why a message with neither content nor attachment is refused.
pub open spec fn content_missing_reason() -> Seq<char> {
    "content cannot be empty"@
}

/// `step` ends the creation with a validation failure that gives `reason`.
pub open spec fn is_refusal(step: CreationStep, reason: Seq<char>) -> bool {
    step matches CreationStep::Done(Err(ChatServiceError::Validation(given))) && given@ == reason
}

/// `step` asks the store to insert what is stored for `request`, built at
/// some moment.
pub open spec fn is_insertion_of(
    step: CreationStep,
    request: NewMessage,
    agent_name: Option<String>,
) -> bool {
    &&& step matches CreationStep::Insert(draft, message_id)
    &&& message_id == request.message_id
    &&& exists|now: Seq<char>| #[trigger] is_draft_of(draft, request, agent_name, now)
}

/// The name of an agent that the store found.
pub open spec fn found_name(agent: Option<ChatAgent>) -> Option<String> {
    match agent {
        Some(a) => Some(a.name),
        None => None,
    }
}

/// `next` is the step that follows `step` once the store has answered with
/// `event`. A failure of the store ends the creation. An answer that is not
/// the one awaited changes nothing.
pub open spec fn follows(next: CreationStep, step: CreationStep, event: StoreEvent) -> bool {
    match (step, event) {
        (CreationStep::Done(_), _) => next == step,
        (_, StoreEvent::Failed(cause)) => next == CreationStep::Done(
            Err(ChatServiceError::Database(cause)),
        ),
        (CreationStep::FindSession(request), StoreEvent::Session(session)) => match verdict(
            request.sender_type,
            request.sender_id,
            session,
            request.content@,
            request.meta,
        ) {
            Verdict::SenderMissing => is_refusal(next, sender_missing_reason()),
            Verdict::SessionNotFound => next == CreationStep::Done(
                Err(ChatServiceError::SessionNotFound),
            ),
            Verdict::SessionArchived => next == CreationStep::Done(
                Err(ChatServiceError::SessionArchived),
            ),
            Verdict::ContentMissing => is_refusal(next, content_missing_reason()),
            Verdict::Accepted => if request.sender_type == ChatSenderType::Agent {
                next == CreationStep::FindAgent(request)
            } else {
                is_insertion_of(next, request, None)
            },
        },
        (CreationStep::FindAgent(request), StoreEvent::Agent(agent)) => is_insertion_of(
            next,
            request,
            found_name(agent),
        ),
        (CreationStep::Insert(draft, _), StoreEvent::Inserted(message)) => next
            == CreationStep::Touch(draft.session_id, message),
        (CreationStep::Touch(_, message), StoreEvent::Touched) => next == CreationStep::Done(
            Ok(message),
        ),
        _ => next == step,
    }
}

/// Once the session was looked up, the creation goes on only for a session
/// that exists and is active, and only with a request that passed every
/// check: an agent's message names its sender, and there is content or an
/// attachment. The store is asked to insert nothing before that.
pub proof fn lemma_creation_goes_on_only_when_accepted(
    next: CreationStep,
    request: NewMessage,
    session: Option<ChatSession>,
)
    requires
        follows(next, CreationStep::FindSession(request), StoreEvent::Session(session)),
        !(next is Done),
    ensures
        session is Some,
        session->0.status == ChatSessionStatus::Active,
        request.sender_type == ChatSenderType::Agent ==> request.sender_id is Some,
        trim(request.content@).len() > 0 || carried_attachments(request.meta).len() > 0,
        next is FindAgent <==> request.sender_type == ChatSenderType::Agent,
        next is Insert <==> request.sender_type != ChatSenderType::Agent,
        next matches CreationStep::Insert(draft, _) ==> draft.sender_type == request.sender_type
            && draft.sender_id == request.sender_id,
{
}

/// Once the store has inserted what is stored for a request, the session of
/// the request is touched, and once that is done the creation ends with the
/// record that the store made.
pub proof fn lemma_insert_is_followed_by_touch_of_the_request_session(
    insert: CreationStep,
    request: NewMessage,
    agent_name: Option<String>,
    message: ChatMessage,
    touch: CreationStep,
    end: CreationStep,
)
    requires
        is_insertion_of(insert, request, agent_name),
        follows(touch, insert, StoreEvent::Inserted(message)),
        follows(end, touch, StoreEvent::Touched),
    ensures
        insert matches CreationStep::Insert(draft, id) && id == request.message_id
            && draft.session_id == request.session_id,
        touch == CreationStep::Touch(request.session_id, message),
        end == CreationStep::Done(Ok(message)),
{
}

/// The end of a creation by a validation failure.
fn refusal(reason: &str) -> (step: CreationStep)
    ensures
        is_refusal(step, reason@),
{
    CreationStep::Done(Err(ChatServiceError::Validation(reason.to_owned())))
}

/// The step that asks for the insertion of what is stored for `request`,
/// built at the current time.
fn insertion(request: NewMessage, agent_name: Option<String>) -> (step: CreationStep)
    ensures
        is_insertion_of(step, request, agent_name),
{
    let message_id = request.message_id;
    let now = current_timestamp();
    let ghost now_text = now@;
    let draft = build_draft(request, agent_name, now);
    assert(is_draft_of(draft, request, agent_name, now_text));
    CreationStep::Insert(draft, message_id)
}

/// Checks a request against the session that the store found for it. The
/// first check that fails decides.
pub fn check_request(request: &NewMessage, session: &Option<ChatSession>) -> (outcome: Verdict)
    ensures
        outcome == verdict(
            request.sender_type,
            request.sender_id,
            *session,
            request.content@,
            request.meta,
        ),
{
    if matches!(request.sender_type, ChatSenderType::Agent) && request.sender_id.is_none() {
        return Verdict::SenderMissing;
    }
    let found = match session {
        Some(found) => found,
        None => {
            return Verdict::SessionNotFound;
        },
    };
    if !matches!(found.status, ChatSessionStatus::Active) {
        return Verdict::SessionArchived;
    }
    let blank = is_blank(request.content.as_str());
    let attached = match &request.meta {
        Some(value) => value.is_object() && has_attachments(value),
        None => false,
    };
    if blank && !attached {
        return Verdict::ContentMissing;
    }
    Verdict::Accepted
}

/// The step after the session was looked up.
fn after_session(request: NewMessage, session: Option<ChatSession>) -> (next: CreationStep)
    ensures
        follows(next, CreationStep::FindSession(request), StoreEvent::Session(session)),
{
    match check_request(&request, &session) {
        Verdict::SenderMissing => refusal("sender_id is required for agent messages"),
        Verdict::SessionNotFound => CreationStep::Done(Err(ChatServiceError::SessionNotFound)),
        Verdict::SessionArchived => CreationStep::Done(Err(ChatServiceError::SessionArchived)),
        Verdict::ContentMissing => refusal("content cannot be empty"),
        Verdict::Accepted => {
            if matches!(request.sender_type, ChatSenderType::Agent) {
                CreationStep::FindAgent(request)
            } else {
                insertion(request, None)
            }
        },
    }
}

/// The step of the creation that follows `step` once the store has answered
/// with `event`.
pub fn advance(step: CreationStep, event: StoreEvent) -> (next: CreationStep)
    ensures
        follows(next, step, event),
{
    match step {
        CreationStep::Done(outcome) => CreationStep::Done(outcome),
        CreationStep::FindSession(request) => match event {
            StoreEvent::Failed(cause) => CreationStep::Done(Err(ChatServiceError::Database(cause))),
            StoreEvent::Session(session) => after_session(request, session),
            _ => CreationStep::FindSession(request),
        },
        CreationStep::FindAgent(request) => match event {
            StoreEvent::Failed(cause) => CreationStep::Done(Err(ChatServiceError::Database(cause))),
            StoreEvent::Agent(agent) => {
                let name = match agent {
                    Some(a) => Some(a.name),
                    None => None,
                };
                insertion(request, name)
            },
            _ => CreationStep::FindAgent(request),
        },
        CreationStep::Insert(draft, message_id) => match event {
            StoreEvent::Failed(cause) => CreationStep::Done(Err(ChatServiceError::Database(cause))),
            StoreEvent::Inserted(message) => CreationStep::Touch(draft.session_id, message),
            _ => CreationStep::Insert(draft, message_id),
        },
        CreationStep::Touch(session_id, message) => match event {
            StoreEvent::Failed(cause) => CreationStep::Done(Err(ChatServiceError::Database(cause))),
            StoreEvent::Touched => CreationStep::Done(Ok(message)),
            _ => CreationStep::Touch(session_id, message),
        },
    }
}

/// Starts the creation of a message under a given identity. An agent's
/// message without a sender is refused at once, before the store is asked
/// anything. Every other request asks for its session first.
pub fn create_message_with_id(
    session_id: u128,
    sender_type: ChatSenderType,
    sender_id: Option<u128>,
    content: String,
    meta: Option<MetaValue>,
    message_id: u128,
) -> (step: CreationStep)
    ensures
        sender_type == ChatSenderType::Agent && sender_id is None ==> is_refusal(
            step,
            sender_missing_reason(),
        ),
        !(sender_type == ChatSenderType::Agent && sender_id is None) ==> step
            == CreationStep::FindSession(
            NewMessage { session_id, sender_type, sender_id, content, meta, message_id },
        ),
{
    if matches!(sender_type, ChatSenderType::Agent) && sender_id.is_none() {
        return refusal("sender_id is required for agent messages");
    }
    CreationStep::FindSession(
        NewMessage { session_id, sender_type, sender_id, content, meta, message_id },
    )
}

/// Starts the creation of a message under a fresh random identity, a UUID of
/// version 4.
pub fn create_message(
    session_id: u128,
    sender_type: ChatSenderType,
    sender_id: Option<u128>,
    content: String,
    meta: Option<MetaValue>,
) -> (step: CreationStep)
    ensures
        sender_type == ChatSenderType::Agent && sender_id is None ==> is_refusal(
            step,
            sender_missing_reason(),
        ),
        !(sender_type == ChatSenderType::Agent && sender_id is None) ==> exists|message_id: u128|
            is_random_uuid(message_id) && step == CreationStep::FindSession(
                NewMessage { session_id, sender_type, sender_id, content, meta, message_id },
            ),
{
    let message_id = random_uuid();
    create_message_with_id(session_id, sender_type, sender_id, content, meta, message_id)
}

} // verus!
