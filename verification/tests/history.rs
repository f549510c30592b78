use chat_context::history::{
    append_to_split_file, chat_history_dir, chat_history_path, chat_history_split_path,
    create_split_file, datetime_to_timestamp, history_record, read_chat_history,
    write_chat_history, ChatHistoryFile, ChatHistoryFileError, ChatHistoryMetadata,
    SimplifiedMessage,
};
use chat_context::tokens::estimate_token_count;

const SESSION: u128 = 0xa1a2a3a4b1b2c1c2d1d2d3d4d5d6d7d8;

fn message(sender: &str, content: &str) -> SimplifiedMessage {
    SimplifiedMessage {
        sender: sender.to_string(),
        content: content.to_string(),
        timestamp: "2026-02-27T10:00:00Z".to_string(),
    }
}

#[test]
fn history_directory_lies_below_the_data_directory() {
    assert_eq!(
        chat_history_dir(Some("/home/u/.local/share".to_string())),
        Ok(vec![
            "/home/u/.local/share".to_string(),
            ".agents-chatgroup".to_string(),
            "chat_history".to_string()
        ])
    );
    assert_eq!(chat_history_dir(None), Err(ChatHistoryFileError::NoDataDir));
}

#[test]
fn history_files_are_named_by_the_session() {
    assert_eq!(
        chat_history_path(Some("d".to_string()), SESSION),
        Ok(vec![
            "d".to_string(),
            ".agents-chatgroup".to_string(),
            "chat_history".to_string(),
            "a1a2a3a4-b1b2-c1c2-d1d2-d3d4d5d6d7d8.json".to_string()
        ])
    );
    assert_eq!(
        chat_history_split_path(Some("d".to_string()), SESSION),
        Ok(vec![
            "d".to_string(),
            ".agents-chatgroup".to_string(),
            "chat_history".to_string(),
            "a1a2a3a4-b1b2-c1c2-d1d2-d3d4d5d6d7d8_split.json".to_string()
        ])
    );
    assert_eq!(
        chat_history_path(Some("d".to_string()), 0x0f).unwrap()[3],
        "00000000-0000-0000-0000-00000000000f.json"
    );
    assert_eq!(
        chat_history_split_path(Some("d".to_string()), u128::MAX).unwrap()[3],
        "ffffffff-ffff-ffff-ffff-ffffffffffff_split.json"
    );
    assert_eq!(chat_history_path(None, SESSION), Err(ChatHistoryFileError::NoDataDir));
    assert_eq!(chat_history_split_path(None, SESSION), Err(ChatHistoryFileError::NoDataDir));
}

#[test]
fn record_holds_what_it_was_given() {
    let messages = vec![message("user:alice", "one"), message("system", "two")];
    let file = history_record(
        SESSION,
        "2026-02-27T10:00:00+00:00".to_string(),
        &messages,
        7,
        true,
        Some("x_split.json".to_string()),
    );
    assert_eq!(
        file,
        ChatHistoryFile {
            session_id: SESSION,
            created_at: "2026-02-27T10:00:00+00:00".to_string(),
            updated_at: "2026-02-27T10:00:00+00:00".to_string(),
            messages: messages.clone(),
            metadata: ChatHistoryMetadata {
                token_count: 7,
                compression_applied: true,
                split_file: Some("x_split.json".to_string()),
            },
        }
    );
}

#[test]
fn written_record_is_read_back() {
    let messages = vec![message("user:alice", "Hello"), message("agent:bot", "Hi")];
    let written = write_chat_history(SESSION, &messages, true, Some("s.json".to_string()));
    assert_eq!(written.session_id, SESSION);
    assert_eq!(written.messages, messages);
    assert_eq!(written.created_at, written.updated_at);
    assert!(!written.created_at.is_empty());
    assert_eq!(written.metadata.token_count, estimate_token_count(&messages));
    assert!(written.metadata.compression_applied);
    assert_eq!(written.metadata.split_file, Some("s.json".to_string()));
    let read = read_chat_history(Some(Ok(written.clone())));
    assert_eq!(read, Ok(Some(written)));
}

#[test]
fn missing_file_is_no_record_and_malformed_file_is_an_error() {
    assert_eq!(read_chat_history(None), Ok(None));
    assert_eq!(
        read_chat_history(Some(Err(ChatHistoryFileError::Json("expected value".to_string())))),
        Err(ChatHistoryFileError::Json("expected value".to_string()))
    );
    assert_eq!(
        read_chat_history(Some(Err(ChatHistoryFileError::Io("denied".to_string())))),
        Err(ChatHistoryFileError::Io("denied".to_string()))
    );
}

#[test]
fn split_file_is_plain() {
    let messages = vec![message("user:alice", "old")];
    let split = create_split_file(SESSION, &messages);
    assert_eq!(split.session_id, SESSION);
    assert_eq!(split.messages, messages);
    assert_eq!(split.created_at, split.updated_at);
    assert!(!split.metadata.compression_applied);
    assert_eq!(split.metadata.split_file, None);
    assert_eq!(split.metadata.token_count, estimate_token_count(&messages));
    assert_eq!(create_split_file(SESSION, &[]).metadata.token_count, 0);
}

#[test]
fn appending_twice_keeps_the_order() {
    let a = vec![message("user:alice", "a1"), message("agent:bot", "a2")];
    let b = vec![message("system", "b1"), message("user:alice", "b2"), message("user:bob", "b3")];
    let first = append_to_split_file(SESSION, None, &a);
    assert_eq!(first.messages, a);
    let second = append_to_split_file(SESSION, Some(first), &b);
    let mut both = a.clone();
    both.extend(b.iter().cloned());
    assert_eq!(second.messages, both);
    assert!(!second.metadata.compression_applied);
    assert_eq!(second.metadata.split_file, None);
    let third = append_to_split_file(SESSION, Some(second), &[]);
    assert_eq!(third.messages, both);
}

#[test]
fn history_errors_read_as_lines() {
    assert_eq!(ChatHistoryFileError::Io("disk full".to_string()).message(), "IO error: disk full");
    assert_eq!(
        ChatHistoryFileError::Json("eof".to_string()).message(),
        "JSON serialization error: eof"
    );
    assert_eq!(
        ChatHistoryFileError::NoDataDir.message(),
        "Failed to determine user data directory"
    );
}

#[test]
fn timestamps_are_rfc_3339() {
    assert_eq!(
        datetime_to_timestamp(1772186400, 0),
        Some("2026-02-27T10:00:00+00:00".to_string())
    );
    assert_eq!(
        datetime_to_timestamp(1772186401, 500_000_000),
        Some("2026-02-27T10:00:01.500+00:00".to_string())
    );
    assert_eq!(datetime_to_timestamp(0, 1), Some("1970-01-01T00:00:00.000000001+00:00".to_string()));
    assert_eq!(datetime_to_timestamp(-1, 0), Some("1969-12-31T23:59:59+00:00".to_string()));
    assert_eq!(datetime_to_timestamp(i64::MAX, 0), None);
    assert_eq!(datetime_to_timestamp(0, 2_000_000_000), None);
}
