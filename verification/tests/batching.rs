use channel_migrator::batching::{marker_content, show_authors};
use channel_migrator::messages::{Attachment, ForwardedMessage, Message, User};

fn user(id: u64, name: &str) -> User {
    User { id, display_name: String::from(name) }
}

fn message(id: u64, author: User, content: &str) -> Message {
    Message { id, author, content: String::from(content), attachments: vec![], referenced_message: None }
}

#[test]
fn marker_text_wraps_the_name() {
    assert_eq!(marker_content("Ada"), "___**Ada**___");
}

#[test]
fn marker_text_escapes_underscores_and_asterisks() {
    assert_eq!(marker_content("a_b*c"), "___**a\\_b\\*c**___");
    assert_eq!(marker_content("__**"), "___**\\_\\_\\*\\***___");
}

#[test]
fn marker_text_of_an_empty_name() {
    assert_eq!(marker_content(""), "___****___");
}

#[test]
fn first_message_gets_a_marker() {
    let mut current = None;
    let out = show_authors(&mut current, message(7, user(1, "Ada"), "hi")).unwrap();
    assert_eq!(current, Some(1));
    assert_eq!(
        out,
        vec![
            ForwardedMessage {
                _original_id: None,
                _author: user(1, "Ada"),
                content: String::from("___**Ada**___"),
                attachments: vec![],
                _reference: None,
            },
            ForwardedMessage {
                _original_id: Some(7),
                _author: user(1, "Ada"),
                content: String::from("hi"),
                attachments: vec![],
                _reference: None,
            },
        ]
    );
}

#[test]
fn same_author_gets_no_marker() {
    let mut current = Some(1);
    let out = show_authors(&mut current, message(8, user(1, "Ada"), "again")).unwrap();
    assert_eq!(current, Some(1));
    assert_eq!(out.len(), 1);
    assert_eq!(out[0]._original_id, Some(8));
    assert_eq!(out[0].content, "again");
}

#[test]
fn other_author_gets_a_marker() {
    let mut current = Some(1);
    let out = show_authors(&mut current, message(9, user(2, "Bob"), "hello")).unwrap();
    assert_eq!(current, Some(2));
    assert_eq!(out.len(), 2);
    assert_eq!(out[0]._original_id, None);
    assert_eq!(out[0].content, "___**Bob**___");
    assert_eq!(out[0]._author, user(2, "Bob"));
    assert_eq!(out[1]._original_id, Some(9));
}

#[test]
fn the_message_keeps_attachments_and_reference_and_the_marker_has_none() {
    let mut current = None;
    let read = Message {
        id: 3,
        author: user(5, "Eve"),
        content: String::new(),
        attachments: vec![Attachment {
            url: String::from("https://files.example/a.png"),
            filename: String::from("a.png"),
        }],
        referenced_message: Some(2),
    };
    let out = show_authors(&mut current, read).unwrap();
    assert_eq!(out[0].attachments, vec![]);
    assert_eq!(out[0]._reference, None);
    assert_eq!(out[1].attachments.len(), 1);
    assert_eq!(out[1].attachments[0].filename, "a.png");
    assert_eq!(out[1]._reference, Some(2));
    assert_eq!(out[1].content, "-# _[empty message]_");
}

#[test]
fn from_keeps_the_text_of_a_message_with_text() {
    let sent = ForwardedMessage::from(message(11, user(1, "Ada"), "mail a@b.com"));
    assert_eq!(sent._original_id, Some(11));
    assert_eq!(sent.content, "mail a@b.com");
}
