use chat_context::history::SimplifiedMessage;
use chat_context::tokens::{
    estimate_from_token_counts, estimate_token_count, estimate_token_count_fallback,
    render_message, sum_token_counts, token_counts,
};

fn message(sender: &str, content: &str) -> SimplifiedMessage {
    SimplifiedMessage {
        sender: sender.to_string(),
        content: content.to_string(),
        timestamp: "2026-02-27T10:00:00Z".to_string(),
    }
}

#[test]
fn test_estimate_token_count() {
    let messages = vec![
        SimplifiedMessage {
            sender: "user:alice".to_string(),
            content: "Hello, how are you?".to_string(),
            timestamp: "2026-02-27T10:00:00Z".to_string(),
        },
        SimplifiedMessage {
            sender: "agent:assistant".to_string(),
            content: "I'm doing well, thank you!".to_string(),
            timestamp: "2026-02-27T10:00:01Z".to_string(),
        },
    ];

    let token_count = estimate_token_count(&messages);
    assert!(token_count > 0);
    // These messages should be roughly 15-25 tokens
    assert!(token_count < 50);
}

#[test]
fn test_estimate_token_count_chinese() {
    let messages = vec![SimplifiedMessage {
        sender: "user:alice".to_string(),
        content: "你好，世界！".to_string(),
        timestamp: "2026-02-27T10:00:00Z".to_string(),
    }];

    let token_count = estimate_token_count(&messages);
    assert!(token_count > 0);
}

#[test]
fn estimate_of_no_messages_is_zero() {
    let none: Vec<SimplifiedMessage> = Vec::new();
    assert_eq!(estimate_token_count(&none), 0);
    assert_eq!(estimate_token_count_fallback(&none), 0);
    assert_eq!(estimate_from_token_counts(&none, None), 0);
    assert_eq!(estimate_from_token_counts(&none, Some(Vec::new())), 0);
}

#[test]
fn fallback_is_a_third_of_the_characters() {
    // 10 + 19 + 2 = 31 and 15 + 26 + 2 = 43: 74 / 3 = 24
    let messages = vec![
        message("user:alice", "Hello, how are you?"),
        message("agent:assistant", "I'm doing well, thank you!"),
    ];
    assert_eq!(estimate_token_count_fallback(&messages), 24);
    // 0 + 0 + 2 = 2: 2 / 3 = 0
    assert_eq!(estimate_token_count_fallback(&[message("", "")]), 0);
    // 1 + 0 + 2 = 3
    assert_eq!(estimate_token_count_fallback(&[message("a", "")]), 1);
    // 3 + 3 and 2 + 3: 11 / 3 = 3
    assert_eq!(estimate_token_count_fallback(&[message("a", "bc"), message("", "def")]), 3);
}

#[test]
fn fallback_counts_characters() {
    // 10 + 6 + 2 = 18
    assert_eq!(estimate_token_count_fallback(&[message("user:alice", "你好，世界！")]), 6);
}

#[test]
fn fallback_does_not_fall_when_content_grows() {
    let mut content = String::new();
    let mut last = 0;
    for _ in 0..200 {
        let now = estimate_token_count_fallback(&[message("user:bob", &content), message("s", "x")]);
        assert!(now >= last);
        last = now;
        content.push('界');
    }
    assert_eq!(last, (8 + 199 + 2 + 1 + 1 + 2) / 3);
}

#[test]
fn token_counts_are_summed_and_held_at_the_top() {
    assert_eq!(sum_token_counts(&vec![]), 0);
    assert_eq!(sum_token_counts(&vec![3, 4, 5]), 12);
    assert_eq!(sum_token_counts(&vec![u32::MAX as usize - 1, 1]), u32::MAX);
    assert_eq!(sum_token_counts(&vec![u32::MAX as usize, 1, 7]), u32::MAX);
    assert_eq!(sum_token_counts(&vec![usize::MAX, usize::MAX]), u32::MAX);
}

#[test]
fn estimate_follows_the_tokenizer_where_it_answered() {
    let messages = vec![message("user:alice", "Hello"), message("system", "Bye")];
    assert_eq!(estimate_from_token_counts(&messages, Some(vec![5, 4])), 9);
    // 10 + 5 + 2 + 6 + 3 + 2 = 28: 28 / 3 = 9
    assert_eq!(estimate_from_token_counts(&messages, None), 9);
    assert_eq!(estimate_from_token_counts(&messages, Some(vec![100, 1])), 101);
}

#[test]
fn estimate_is_the_sum_of_the_counts_or_the_fallback() {
    let messages = vec![
        message("user:alice", "Hello, how are you?"),
        message("agent:assistant", "I'm doing well, thank you!"),
    ];
    let estimate = estimate_token_count(&messages);
    match token_counts(&messages) {
        Some(counts) => {
            assert_eq!(counts.len(), 2);
            assert_eq!(estimate, sum_token_counts(&counts));
        }
        None => assert_eq!(estimate, estimate_token_count_fallback(&messages)),
    }
}

#[test]
fn message_is_rendered_as_sender_colon_content() {
    assert_eq!(render_message(&message("user:alice", "Hi there")), "user:alice: Hi there");
    assert_eq!(render_message(&message("", "")), ": ");
}

#[test]
fn tokenizer_counts_are_those_of_cl100k() {
    let messages =
        vec![message("u", "hello wor"), message("u", "hello worl"), message("u", "hello world")];
    if let Some(counts) = token_counts(&messages) {
        assert_eq!(counts, vec![4, 5, 4]);
        assert_eq!(estimate_token_count(&messages), 13);
        assert_eq!(estimate_token_count(&messages[2..]), 4);
    }
}
