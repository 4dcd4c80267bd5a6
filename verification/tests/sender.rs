use faster_chant::sender::{pick_random, pick_with_seed, split_text, MAX_CHAT_LEN};

#[test]
fn test_pick_random() {
    let lines = vec!["a".to_string(), "b".to_string(), "c".to_string()];
    let result = pick_random(&lines);
    assert!(result.is_some());
    assert!(lines.contains(&result.unwrap().to_string()));
}

#[test]
fn test_pick_random_empty() {
    assert!(pick_random(&[]).is_none());
}

#[test]
fn test_split_text_short() {
    let result = split_text("你好", 50);
    assert_eq!(result.len(), 1);
    assert_eq!(result[0], "你好");
}

#[test]
fn test_split_text_long() {
    let text = "  ".repeat(60);
    let result = split_text(&text, 50);
    assert!(result.len() >= 2);
    for chunk in &result {
        assert!(chunk.chars().count() <= 50);
    }
}

#[test]
fn split_text_cuts_after_last_punctuation() {
    let text = "一二三，四五六。七八九十";
    let result = split_text(text, 8);
    assert_eq!(result, vec!["一二三，四五六。".to_string(), "七八九十".to_string()]);
}

#[test]
fn split_text_without_punctuation_cuts_at_limit() {
    let result = split_text("abcdefghij", 4);
    assert_eq!(result, vec!["abcd".to_string(), "efgh".to_string(), "ij".to_string()]);
}

#[test]
fn split_text_chunks_rejoin() {
    let text = "Hello, world! 你好，世界。This is a long line; it goes on: and on.".repeat(3);
    let result = split_text(&text, 10);
    assert_eq!(result.concat(), text);
    assert!(result.iter().all(|c| !c.is_empty() && c.chars().count() <= 10));
}

#[test]
fn split_text_exact_limit_stays_whole() {
    let text = "x".repeat(MAX_CHAT_LEN);
    let result = split_text(&text, MAX_CHAT_LEN);
    assert_eq!(result, vec![text]);
}

#[test]
fn split_text_empty_is_one_empty_chunk() {
    assert_eq!(split_text("", 5), vec![String::new()]);
}

#[test]
fn pick_with_seed_uses_modulo() {
    let lines = vec!["a".to_string(), "b".to_string(), "c".to_string()];
    assert_eq!(pick_with_seed(&lines, 7), Some("b"));
    assert_eq!(pick_with_seed(&lines, 9), Some("a"));
    assert_eq!(pick_with_seed(&[], 9), None);
}
