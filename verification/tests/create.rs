use chat_context::context::{
    ChatAgent, ChatMessage, ChatSenderType, ChatSession, ChatSessionStatus, SenderDescriptor,
};
use chat_context::create::{
    advance, build_draft, check_request, create_message, create_message_with_id, is_blank, normalize_meta,
    sender_block, structured_snapshot, ChatServiceError, CreateChatMessage, CreationStep,
    NewMessage, StoreEvent, Verdict,
};
use chat_context::meta::{MetaMember, MetaNumber, MetaValue};

const AGENT: u128 = 0xa1a2a3a4b1b2c1c2d1d2d3d4d5d6d7d8;
const AGENT_TEXT: &str = "a1a2a3a4-b1b2-c1c2-d1d2-d3d4d5d6d7d8";

fn text(s: &str) -> MetaValue {
    MetaValue::Text(s.to_string())
}

fn object(members: Vec<(&str, MetaValue)>) -> MetaValue {
    MetaValue::Object(
        members
            .into_iter()
            .map(|(key, value)| MetaMember { key: key.to_string(), value })
            .collect(),
    )
}

fn session(status: ChatSessionStatus) -> ChatSession {
    ChatSession { id: 7, status, summary_text: None }
}

fn request(kind: ChatSenderType, sender: Option<u128>, content: &str) -> NewMessage {
    NewMessage {
        session_id: 7,
        sender_type: kind,
        sender_id: sender,
        content: content.to_string(),
        meta: None,
        message_id: 11,
    }
}

fn stored(draft: &CreateChatMessage, id: u128) -> ChatMessage {
    ChatMessage {
        id,
        session_id: draft.session_id,
        sender_type: draft.sender_type,
        sender_id: draft.sender_id,
        content: draft.content.clone(),
        mentions: draft.mentions.clone(),
        meta: draft.meta.clone(),
        created_at: "2026-02-27T10:00:00Z".to_string(),
    }
}

fn validation(reason: &str) -> CreationStep {
    CreationStep::Done(Err(ChatServiceError::Validation(reason.to_string())))
}

fn attachment() -> MetaValue {
    object(vec![
        ("id", text(AGENT_TEXT)),
        ("name", text("n")),
        ("size_bytes", MetaValue::Number(MetaNumber::PosInt(3))),
        ("kind", text("file")),
        ("relative_path", text("p")),
    ])
}

#[test]
fn agent_message_without_sender_is_refused_before_the_store_is_asked() {
    let step = create_message_with_id(7, ChatSenderType::Agent, None, "hi".to_string(), None, 11);
    assert_eq!(step, validation("sender_id is required for agent messages"));
    let step = create_message(7, ChatSenderType::Agent, None, "hi".to_string(), None);
    assert_eq!(step, validation("sender_id is required for agent messages"));
    // the same holds where the request reaches the session check by another way
    let step = advance(
        CreationStep::FindSession(request(ChatSenderType::Agent, None, "hi")),
        StoreEvent::Session(None),
    );
    assert_eq!(step, validation("sender_id is required for agent messages"));
}

#[test]
fn other_requests_ask_for_the_session_first() {
    let step = create_message_with_id(7, ChatSenderType::User, None, "hi".to_string(), None, 11);
    assert_eq!(step, CreationStep::FindSession(request(ChatSenderType::User, None, "hi")));
    let step =
        create_message_with_id(7, ChatSenderType::Agent, Some(AGENT), "".to_string(), None, 11);
    assert_eq!(step, CreationStep::FindSession(request(ChatSenderType::Agent, Some(AGENT), "")));
    match create_message(7, ChatSenderType::System, None, "hi".to_string(), None) {
        CreationStep::FindSession(r) => {
            assert_eq!(r.session_id, 7);
            assert_eq!(r.content, "hi");
            // version 4, variant 1
            assert_eq!((r.message_id >> 76) & 0xf, 4);
            assert_eq!((r.message_id >> 62) & 0x3, 2);
        }
        other => panic!("{:?}", other),
    }
}

#[test]
fn message_for_an_archived_session_fails_as_archived() {
    for content in ["hello", "", "   "] {
        let step = advance(
            CreationStep::FindSession(request(ChatSenderType::User, None, content)),
            StoreEvent::Session(Some(session(ChatSessionStatus::Archived))),
        );
        assert_eq!(step, CreationStep::Done(Err(ChatServiceError::SessionArchived)));
    }
}

#[test]
fn message_for_a_missing_session_fails_as_not_found() {
    let step = advance(
        CreationStep::FindSession(request(ChatSenderType::User, None, "")),
        StoreEvent::Session(None),
    );
    assert_eq!(step, CreationStep::Done(Err(ChatServiceError::SessionNotFound)));
}

#[test]
fn empty_content_needs_an_attachment() {
    let active = || StoreEvent::Session(Some(session(ChatSessionStatus::Active)));
    let step =
        advance(CreationStep::FindSession(request(ChatSenderType::User, None, " \n\t ")), active());
    assert_eq!(step, validation("content cannot be empty"));

    let mut with_attachment = request(ChatSenderType::User, None, "  ");
    with_attachment.meta = Some(object(vec![("attachments", MetaValue::List(vec![attachment()]))]));
    match advance(CreationStep::FindSession(with_attachment), active()) {
        CreationStep::Insert(draft, id) => {
            assert_eq!(id, 11);
            assert_eq!(draft.content, "  ");
        }
        other => panic!("{:?}", other),
    }

    // an attachment list inside something that is no object does not count
    let mut wrapped = request(ChatSenderType::User, None, "");
    wrapped.meta = Some(MetaValue::List(vec![attachment()]));
    assert_eq!(
        advance(CreationStep::FindSession(wrapped), active()),
        validation("content cannot be empty")
    );

    let mut spoiled = request(ChatSenderType::User, None, "");
    spoiled.meta = Some(object(vec![("attachments", MetaValue::List(vec![text("x")]))]));
    assert_eq!(
        advance(CreationStep::FindSession(spoiled), active()),
        validation("content cannot be empty")
    );
}

#[test]
fn blank_is_empty_after_trimming() {
    assert!(is_blank(""));
    assert!(is_blank(" \u{3000}\n"));
    assert!(!is_blank(" a "));
}

#[test]
fn metadata_is_made_an_object() {
    assert_eq!(normalize_meta(None), object(vec![]));
    assert_eq!(normalize_meta(Some(object(vec![("a", text("b"))]))), object(vec![("a", text("b"))]));
    assert_eq!(normalize_meta(Some(text("x"))), object(vec![("raw_meta", text("x"))]));
    assert_eq!(
        normalize_meta(Some(MetaValue::List(vec![]))),
        object(vec![("raw_meta", MetaValue::List(vec![]))])
    );
    assert_eq!(normalize_meta(Some(MetaValue::Null)), object(vec![("raw_meta", MetaValue::Null)]));
}

#[test]
fn sender_block_and_snapshot_hold_the_sender() {
    let sender = SenderDescriptor {
        kind: ChatSenderType::Agent,
        id: Some(AGENT),
        handle: None,
        name: Some("coder".to_string()),
        label: "coder".to_string(),
    };
    assert_eq!(
        sender_block(&sender),
        object(vec![
            ("type", text("agent")),
            ("id", text(AGENT_TEXT)),
            ("handle", MetaValue::Null),
            ("name", text("coder")),
            ("label", text("coder")),
        ])
    );
    assert_eq!(
        structured_snapshot(
            &sender,
            &"ask @planner".to_string(),
            &vec!["planner".to_string()],
            "2026-02-27T10:00:00+00:00".to_string()
        ),
        object(vec![
            ("sender_type", text("agent")),
            ("sender_id", text(AGENT_TEXT)),
            ("sender_handle", MetaValue::Null),
            ("sender_label", text("coder")),
            ("content", text("ask @planner")),
            ("mentions", MetaValue::List(vec![text("planner")])),
            ("created_at", text("2026-02-27T10:00:00+00:00")),
        ])
    );
}

#[test]
fn draft_injects_sender_and_snapshot() {
    let mut r = request(ChatSenderType::User, None, "hello @coder and @coder");
    r.meta = Some(object(vec![("sender_handle", text("alice")), ("x", MetaValue::Bool(true))]));
    let draft = build_draft(r, None, "NOW".to_string());
    assert_eq!(draft.session_id, 7);
    assert_eq!(draft.sender_type, ChatSenderType::User);
    assert_eq!(draft.sender_id, None);
    assert_eq!(draft.content, "hello @coder and @coder");
    assert_eq!(draft.mentions, vec!["coder"]);
    assert_eq!(
        draft.meta,
        object(vec![
            ("sender_handle", text("alice")),
            ("x", MetaValue::Bool(true)),
            (
                "sender",
                object(vec![
                    ("type", text("user")),
                    ("id", MetaValue::Null),
                    ("handle", text("alice")),
                    ("name", MetaValue::Null),
                    ("label", text("alice")),
                ])
            ),
            (
                "structured",
                object(vec![
                    ("sender_type", text("user")),
                    ("sender_id", MetaValue::Null),
                    ("sender_handle", text("alice")),
                    ("sender_label", text("alice")),
                    ("content", text("hello @coder and @coder")),
                    ("mentions", MetaValue::List(vec![text("coder")])),
                    ("created_at", text("NOW")),
                ])
            ),
        ])
    );
}

#[test]
fn draft_keeps_a_given_sender_and_replaces_a_given_snapshot() {
    let mut r = request(ChatSenderType::System, None, "note");
    r.meta = Some(object(vec![
        ("structured", text("stale")),
        ("sender", text("mine")),
        ("keep", MetaValue::Null),
    ]));
    let draft = build_draft(r, Some("ignored".to_string()), "NOW".to_string());
    assert_eq!(draft.meta.get("sender"), Some(&text("mine")));
    assert_eq!(draft.meta.get("keep"), Some(&MetaValue::Null));
    assert_eq!(
        draft.meta.get("structured"),
        Some(&object(vec![
            ("sender_type", text("system")),
            ("sender_id", MetaValue::Null),
            ("sender_handle", MetaValue::Null),
            ("sender_label", text("system")),
            ("content", text("note")),
            ("mentions", MetaValue::List(vec![])),
            ("created_at", text("NOW")),
        ]))
    );
    match &draft.meta {
        MetaValue::Object(members) => assert_eq!(members.len(), 3),
        other => panic!("{:?}", other),
    }
}

#[test]
fn draft_wraps_metadata_that_is_no_object() {
    let mut r = request(ChatSenderType::User, None, "x");
    r.meta = Some(text("loose"));
    let draft = build_draft(r, None, "NOW".to_string());
    assert_eq!(draft.meta.get("raw_meta"), Some(&text("loose")));
    assert!(draft.meta.get("sender").is_some());
    assert!(draft.meta.get("structured").is_some());
}

#[test]
fn user_message_runs_through_the_pipeline() {
    let step = create_message_with_id(
        7,
        ChatSenderType::User,
        None,
        "ping @coder".to_string(),
        Some(object(vec![("sender_handle", text("alice"))])),
        11,
    );
    let step = advance(step, StoreEvent::Session(Some(session(ChatSessionStatus::Active))));
    let (draft, id) = match step {
        CreationStep::Insert(draft, id) => (draft, id),
        other => panic!("{:?}", other),
    };
    assert_eq!(id, 11);
    assert_eq!(draft.mentions, vec!["coder"]);
    assert_eq!(
        draft.meta.get("sender").and_then(|s| s.get_text("label")),
        Some("alice".to_string())
    );
    let created_at = draft.meta.get("structured").and_then(|s| s.get_text("created_at")).unwrap();
    assert!(created_at.contains('T'));
    let message = stored(&draft, id);
    let step = advance(CreationStep::Insert(draft, id), StoreEvent::Inserted(message.clone()));
    assert_eq!(step, CreationStep::Touch(7, message.clone()));
    let step = advance(step, StoreEvent::Touched);
    assert_eq!(step, CreationStep::Done(Ok(message.clone())));
    // nothing follows the end
    let step = advance(step, StoreEvent::Failed("late".to_string()));
    assert_eq!(step, CreationStep::Done(Ok(message)));
}

#[test]
fn agent_message_asks_for_the_agent() {
    let r = request(ChatSenderType::Agent, Some(AGENT), "done");
    let step = advance(
        CreationStep::FindSession(r.clone()),
        StoreEvent::Session(Some(session(ChatSessionStatus::Active))),
    );
    assert_eq!(step, CreationStep::FindAgent(r.clone()));
    let named = advance(
        CreationStep::FindAgent(r.clone()),
        StoreEvent::Agent(Some(ChatAgent { id: AGENT, name: "coder".to_string() })),
    );
    match named {
        CreationStep::Insert(draft, id) => {
            assert_eq!(id, 11);
            let sender = draft.meta.get("sender").unwrap();
            assert_eq!(sender.get_text("name"), Some("coder".to_string()));
            assert_eq!(sender.get_text("label"), Some("coder".to_string()));
            assert_eq!(sender.get_text("id"), Some(AGENT_TEXT.to_string()));
            assert_eq!(sender.get_text("type"), Some("agent".to_string()));
        }
        other => panic!("{:?}", other),
    }
    let unnamed = advance(CreationStep::FindAgent(r), StoreEvent::Agent(None));
    match unnamed {
        CreationStep::Insert(draft, _) => {
            let sender = draft.meta.get("sender").unwrap();
            assert_eq!(sender.get("name"), Some(&MetaValue::Null));
            assert_eq!(sender.get_text("label"), Some(AGENT_TEXT.to_string()));
        }
        other => panic!("{:?}", other),
    }
}

#[test]
fn store_failure_ends_the_creation() {
    let failed = || StoreEvent::Failed("locked".to_string());
    let error = || CreationStep::Done(Err(ChatServiceError::Database("locked".to_string())));
    let r = request(ChatSenderType::Agent, Some(AGENT), "x");
    assert_eq!(advance(CreationStep::FindSession(r.clone()), failed()), error());
    assert_eq!(advance(CreationStep::FindAgent(r.clone()), failed()), error());
    let draft = build_draft(r, None, "NOW".to_string());
    let message = stored(&draft, 11);
    assert_eq!(advance(CreationStep::Insert(draft, 11), failed()), error());
    assert_eq!(advance(CreationStep::Touch(7, message), failed()), error());
}

#[test]
fn answer_that_was_not_awaited_changes_nothing() {
    let r = request(ChatSenderType::User, None, "x");
    assert_eq!(
        advance(CreationStep::FindSession(r.clone()), StoreEvent::Touched),
        CreationStep::FindSession(r.clone())
    );
    assert_eq!(
        advance(CreationStep::FindAgent(r.clone()), StoreEvent::Session(None)),
        CreationStep::FindAgent(r.clone())
    );
    let draft = build_draft(r, None, "NOW".to_string());
    let message = stored(&draft, 11);
    assert_eq!(
        advance(CreationStep::Insert(draft.clone(), 11), StoreEvent::Touched),
        CreationStep::Insert(draft, 11)
    );
    assert_eq!(
        advance(CreationStep::Touch(7, message.clone()), StoreEvent::Agent(None)),
        CreationStep::Touch(7, message)
    );
}

#[test]
fn service_errors_read_as_lines() {
    assert_eq!(ChatServiceError::SessionNotFound.message(), "Chat session not found");
    assert_eq!(ChatServiceError::SessionArchived.message(), "Chat session is archived");
    assert_eq!(
        ChatServiceError::Validation("content cannot be empty".to_string()).message(),
        "Validation error: content cannot be empty"
    );
    assert_eq!(ChatServiceError::Database("locked".to_string()).message(), "locked");
    assert_eq!(ChatServiceError::Io("denied".to_string()).message(), "denied");
}

#[test]
fn first_failing_check_decides() {
    let archived = Some(session(ChatSessionStatus::Archived));
    let active = Some(session(ChatSessionStatus::Active));
    let agent = request(ChatSenderType::Agent, None, "");
    assert_eq!(check_request(&agent, &None), Verdict::SenderMissing);
    assert_eq!(check_request(&agent, &archived), Verdict::SenderMissing);
    assert_eq!(check_request(&agent, &active), Verdict::SenderMissing);
    let empty = request(ChatSenderType::User, None, " ");
    assert_eq!(check_request(&empty, &None), Verdict::SessionNotFound);
    assert_eq!(check_request(&empty, &archived), Verdict::SessionArchived);
    assert_eq!(check_request(&empty, &active), Verdict::ContentMissing);
    let fine = request(ChatSenderType::Agent, Some(AGENT), "x");
    assert_eq!(check_request(&fine, &None), Verdict::SessionNotFound);
    assert_eq!(check_request(&fine, &archived), Verdict::SessionArchived);
    assert_eq!(check_request(&fine, &active), Verdict::Accepted);
}

#[test]
fn touched_session_is_that_of_the_request() {
    let r = request(ChatSenderType::User, None, "x");
    let draft = build_draft(r, None, "NOW".to_string());
    // a store that hands back a record of another session does not change
    // which session is touched
    let mut message = stored(&draft, 11);
    message.session_id = 99;
    let step = advance(CreationStep::Insert(draft, 11), StoreEvent::Inserted(message.clone()));
    assert_eq!(step, CreationStep::Touch(7, message.clone()));
    assert_eq!(advance(step, StoreEvent::Touched), CreationStep::Done(Ok(message)));
}
