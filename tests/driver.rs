use chat_monitor::driver::{reply_text, ChatMonitor, Debouncer, Step};
use chat_monitor::message::Role;

const SEP: &str = "\n***\n";

#[test]
fn unchanged_snapshot_does_nothing() {
    let mut m = ChatMonitor::new("Hello\n\n".to_string());
    assert!(matches!(m.on_content("Hello\n\n".to_string()), Step::Unchanged));
    assert_eq!(m.last_content, "Hello\n\n");
}

#[test]
fn empty_file_awaits_terminator() {
    let mut m = ChatMonitor::new("x".to_string());
    assert!(matches!(m.on_content(String::new()), Step::AwaitingTerminator));
    assert_eq!(m.last_content, "");
}

#[test]
fn typing_awaits_terminator() {
    let mut m = ChatMonitor::new(String::new());
    assert!(matches!(m.on_content("Hello\n".to_string()), Step::AwaitingTerminator));
    assert_eq!(m.last_content, "Hello\n");
}

#[test]
fn first_message_is_sent_alone() {
    let mut m = ChatMonitor::new(String::new());
    match m.on_content("Hello\n\n".to_string()) {
        Step::ReadyToSend { context } => {
            assert_eq!(context.len(), 1);
            assert_eq!(context[0].role, Role::User);
            assert_eq!(context[0].content, "Hello");
        }
        other => panic!("unexpected step {other:?}"),
    }
    assert_eq!(m.last_content, "");
}

#[test]
fn right_after_reply_is_skipped() {
    let mut m = ChatMonitor::new(String::new());
    let content = format!("Hello{SEP}\n\n");
    assert!(matches!(m.on_content(content.clone()), Step::SkipAiJustResponded));
    assert_eq!(m.last_content, content);
}

#[test]
fn blank_message_is_skipped() {
    let mut m = ChatMonitor::new(String::new());
    assert!(matches!(m.on_content("  \n\n".to_string()), Step::SkipEmptyMessage));
    assert_eq!(m.last_content, "  \n\n");
}

#[test]
fn reply_then_question_is_ready_to_send() {
    let mut m = ChatMonitor::new(format!("Hi{SEP}"));
    let content = format!("Hi{SEP}How are you?\n\n");
    match m.on_content(content) {
        Step::ReadyToSend { context } => {
            assert_eq!(context.len(), 2);
            assert_eq!(context[0].role, Role::User);
            assert_eq!(context[0].content, "Hi");
            assert_eq!(context[1].role, Role::User);
            assert_eq!(context[1].content, "How are you?");
        }
        other => panic!("unexpected step {other:?}"),
    }
}

#[test]
fn context_carries_the_window_before_the_last_delimiter() {
    let mut m = ChatMonitor::new(String::new());
    let content = format!("q1\n{SEP}\na1{SEP}q2{SEP}\na2{SEP}q3\n\n");
    match m.on_content(content) {
        Step::ReadyToSend { context } => {
            let got: Vec<(Role, &str)> =
                context.iter().map(|x| (x.role, x.content.as_str())).collect();
            assert_eq!(
                got,
                vec![
                    (Role::User, "q1"),
                    (Role::Assistant, "a1"),
                    (Role::User, "q2"),
                    (Role::Assistant, "a2"),
                    (Role::User, "q3"),
                ]
            );
        }
        other => panic!("unexpected step {other:?}"),
    }
}

#[test]
fn reply_written_refreshes_cache() {
    let mut m = ChatMonitor::new(String::new());
    let content = "Hello\n\n".to_string();
    assert!(matches!(m.on_content(content.clone()), Step::ReadyToSend { .. }));
    let stored = format!("{content}{}", reply_text("Hi there"));
    m.on_reply_written(stored.clone());
    assert_eq!(m.last_content, stored);
    assert!(matches!(m.on_content(stored), Step::Unchanged));
}

#[test]
fn stored_reply_then_blank_lines_is_skipped() {
    let mut m = ChatMonitor::new(String::new());
    let content = format!("Hello\n\n{}\n\n", reply_text("Hi there"));
    assert!(matches!(m.on_content(content), Step::SkipAiJustResponded));
}

#[test]
fn reply_text_wraps_the_response() {
    assert_eq!(reply_text("Sure."), "\nSure.\n***\n");
    assert_eq!(reply_text(""), "\n\n***\n");
}

#[test]
fn rapid_signals_are_processed_once() {
    let mut d = Debouncer::new(0);
    assert!(d.accept(100));
    assert!(!d.accept(120));
    assert!(!d.accept(149));
    assert!(d.accept(150));
    assert_eq!(d.last_ms, 150);
}

#[test]
fn signal_right_after_start_is_dropped() {
    let mut d = Debouncer::new(1000);
    assert!(!d.accept(1049));
    assert!(!d.accept(10));
    assert_eq!(d.last_ms, 1000);
    assert!(d.accept(1050));
}
