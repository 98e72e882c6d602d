use chat_monitor::message::Role;
use chat_monitor::parser::ChatContext;

const SEP: &str = "\n***\n";

#[test]
fn parse_empty_content_gives_no_messages() {
    let ctx = ChatContext::new(String::new());
    assert!(ctx.parse_messages("").is_empty());
}

#[test]
fn parse_without_delimiter_gives_one_user_message() {
    let ctx = ChatContext::new(String::new());
    let msgs = ctx.parse_messages("  Hello there \n");
    assert_eq!(msgs.len(), 1);
    assert_eq!(msgs[0].role, Role::User);
    assert_eq!(msgs[0].content, "Hello there");
}

#[test]
fn parse_alternates_roles_from_user() {
    let ctx = ChatContext::new(String::new());
    let content = format!("Hi{SEP}Hello!{SEP}How are you?{SEP}Fine.");
    let msgs = ctx.parse_messages(&content);
    let roles: Vec<Role> = msgs.iter().map(|m| m.role).collect();
    assert_eq!(roles, vec![Role::User, Role::Assistant, Role::User, Role::Assistant]);
    assert_eq!(msgs[2].content, "How are you?");
}

#[test]
fn parse_blank_segment_keeps_its_position() {
    let ctx = ChatContext::new(String::new());
    let content = format!("  {SEP}Reply{SEP}Question");
    let msgs = ctx.parse_messages(&content);
    assert_eq!(msgs.len(), 2);
    assert_eq!(msgs[0].role, Role::Assistant);
    assert_eq!(msgs[0].content, "Reply");
    assert_eq!(msgs[1].role, Role::User);
    assert_eq!(msgs[1].content, "Question");
}

#[test]
fn parse_keeps_only_the_last_six() {
    let ctx = ChatContext::new(String::new());
    let parts: Vec<String> = (0..9).map(|i| format!("m{i}")).collect();
    let content = parts.join(SEP);
    let msgs = ctx.parse_messages(&content);
    assert_eq!(msgs.len(), 6);
    let texts: Vec<&str> = msgs.iter().map(|m| m.content.as_str()).collect();
    assert_eq!(texts, vec!["m3", "m4", "m5", "m6", "m7", "m8"]);
    assert_eq!(msgs[0].role, Role::Assistant);
    assert_eq!(msgs[5].role, Role::User);
}

#[test]
fn parse_bound_is_configurable() {
    let ctx = ChatContext::with_max_messages(2);
    let content = format!("a{SEP}b{SEP}c");
    let msgs = ctx.parse_messages(&content);
    assert_eq!(msgs.len(), 2);
    assert_eq!(msgs[0].content, "b");
    assert_eq!(msgs[1].content, "c");
    let none = ChatContext::with_max_messages(0).parse_messages(&content);
    assert!(none.is_empty());
}

#[test]
fn parse_overlapping_delimiters_split_left_to_right() {
    let ctx = ChatContext::new(String::new());
    let msgs = ctx.parse_messages("A\n***\n***\nB");
    assert_eq!(msgs.len(), 2);
    assert_eq!(msgs[0].content, "A");
    assert_eq!(msgs[1].content, "***\nB");
    assert_eq!(msgs[1].role, Role::Assistant);
}

#[test]
fn parse_trims_unicode_white_space() {
    let ctx = ChatContext::new(String::new());
    let msgs = ctx.parse_messages("\u{3000}\tcafé\u{a0}\r\n");
    assert_eq!(msgs.len(), 1);
    assert_eq!(msgs[0].content, "café");
}
