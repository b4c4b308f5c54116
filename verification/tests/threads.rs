use channel_migrator::messages::{Attachment, ForwardedMessage, Message, User};
use channel_migrator::attachments::{create_attachments, MirroredAttachment};
use channel_migrator::threads::{
    filter_message, Event, GuildThread, Outcome, Request, ThreadReader,
};

fn user(id: u64, name: &str) -> User {
    User { id, display_name: String::from(name) }
}

fn message(id: u64, author: u64, content: &str) -> Message {
    let name = if author == 1 { "Ada" } else { "Bob" };
    Message {
        id,
        author: user(author, name),
        content: String::from(content),
        attachments: vec![],
        referenced_message: None,
    }
}

fn attachment(name: &str) -> Attachment {
    Attachment { url: format!("https://files.example/{name}"), filename: String::from(name) }
}

fn file(name: &str, data: &[u8]) -> MirroredAttachment {
    MirroredAttachment { filename: String::from(name), data: data.to_vec() }
}

fn thread() -> GuildThread {
    GuildThread { id: 40, name: String::from("plans"), archive_timestamp: Some(1_700_000_000) }
}

fn texts(messages: &[ForwardedMessage]) -> Vec<String> {
    messages.iter().map(|m| m.content.clone()).collect()
}

#[test]
fn get_messages_puts_oldest_first_with_markers() {
    let reader = ThreadReader::new(thread());
    // The platform returns the newest message first.
    let fetched = vec![message(3, 1, "third"), message(2, 2, "second"), message(1, 1, "first")];
    let out = reader.get_messages(Some(fetched));
    assert_eq!(
        texts(&out),
        vec!["___**Ada**___", "first", "___**Bob**___", "second", "___**Ada**___", "third"]
    );
    let originals: Vec<Option<u64>> = out.iter().map(|m| m._original_id).collect();
    assert_eq!(originals, vec![None, Some(1), None, Some(2), None, Some(3)]);
}

#[test]
fn get_messages_length_is_messages_plus_boundaries() {
    let reader = ThreadReader::new(thread());
    let fetched = vec![
        message(5, 2, "e"),
        message(4, 2, "d"),
        message(3, 1, "c"),
        message(2, 1, "b"),
        message(1, 1, "a"),
    ];
    let out = reader.get_messages(Some(fetched));
    // Five messages, two runs.
    assert_eq!(out.len(), 7);
    let kept: Vec<String> =
        out.iter().filter(|m| m._original_id.is_some()).map(|m| m.content.clone()).collect();
    assert_eq!(kept, vec!["a", "b", "c", "d", "e"]);
}

#[test]
fn get_messages_redacts_messages_and_markers() {
    let reader = ThreadReader::new(thread());
    let fetched = vec![Message {
        id: 1,
        author: user(9, "me@home.org"),
        content: String::from("write to me@home.org or <me@home.org>"),
        attachments: vec![],
        referenced_message: None,
    }];
    let out = reader.get_messages(Some(fetched));
    assert_eq!(texts(&out), vec!["___**[email]**___", "write to [email] or <me@home.org>"]);
}

#[test]
fn get_messages_gives_empty_text_the_placeholder() {
    let reader = ThreadReader::new(thread());
    let out = reader.get_messages(Some(vec![message(1, 1, "")]));
    assert_eq!(texts(&out), vec!["___**Ada**___", "-# _[empty message]_"]);
}

#[test]
fn get_messages_of_nothing_is_nothing() {
    let reader = ThreadReader::new(thread());
    assert_eq!(reader.get_messages(Some(vec![])), vec![]);
    assert_eq!(reader.get_messages(None), vec![]);
}

#[test]
fn filter_message_changes_only_the_text() {
    let sent = ForwardedMessage {
        _original_id: Some(4),
        _author: user(1, "Ada"),
        content: String::from("a@b.com"),
        attachments: vec![attachment("a.png")],
        _reference: Some(3),
    };
    let out = filter_message(sent);
    assert_eq!(
        out,
        ForwardedMessage {
            _original_id: Some(4),
            _author: user(1, "Ada"),
            content: String::from("[email]"),
            attachments: vec![attachment("a.png")],
            _reference: Some(3),
        }
    );
}

#[test]
fn create_attachments_keeps_what_was_fetched_in_order() {
    let out = create_attachments(vec![
        Some(file("a", b"1")),
        None,
        Some(file("b", b"2")),
        None,
        Some(file("c", b"3")),
    ]);
    assert_eq!(out, vec![file("a", b"1"), file("b", b"2"), file("c", b"3")]);
}

#[test]
fn create_attachments_of_nothing_is_nothing() {
    assert_eq!(create_attachments(vec![]), vec![]);
    assert_eq!(create_attachments(vec![None, None]), vec![]);
}

#[test]
fn a_thread_is_migrated_message_by_message() {
    let reader = ThreadReader::new(thread());
    let (reader, request) = reader.forward_messages(77, Event::Begin);
    assert_eq!(request, Request::FetchMessages { thread_id: 40 });

    let mut with_file = message(2, 1, "look");
    with_file.attachments = vec![attachment("a.png"), attachment("b.png")];
    let fetched = vec![message(3, 2, "nice"), with_file, message(1, 1, "hello")];
    let (reader, request) = reader.forward_messages(77, Event::Messages(Some(fetched)));
    assert_eq!(
        request,
        Request::CreateThread {
            channel_id: 77,
            name: String::from("plans"),
            content: String::from("___**Ada**___"),
            files: vec![],
        }
    );

    let (reader, request) = reader.forward_messages(77, Event::Created(Some(500)));
    assert_eq!(
        request,
        Request::SendMessage { thread_id: 500, content: String::from("hello"), files: vec![] }
    );

    let (reader, request) = reader.forward_messages(77, Event::Sent(true));
    assert_eq!(
        request,
        Request::FetchAttachments { attachments: vec![attachment("a.png"), attachment("b.png")] }
    );

    // The first attachment cannot be fetched: the message goes out with the second.
    let (reader, request) =
        reader.forward_messages(77, Event::Attachments(vec![None, Some(file("b.png", b"B"))]));
    assert_eq!(
        request,
        Request::SendMessage {
            thread_id: 500,
            content: String::from("look"),
            files: vec![file("b.png", b"B")],
        }
    );

    let (reader, request) = reader.forward_messages(77, Event::Sent(true));
    assert_eq!(
        request,
        Request::SendMessage {
            thread_id: 500,
            content: String::from("___**Bob**___"),
            files: vec![],
        }
    );
    let (reader, request) = reader.forward_messages(77, Event::Sent(true));
    assert_eq!(
        request,
        Request::SendMessage { thread_id: 500, content: String::from("nice"), files: vec![] }
    );
    let (reader, request) = reader.forward_messages(77, Event::Sent(true));
    assert_eq!(request, Request::Finish(Outcome::Migrated { thread_id: 500, sent: 4 }));

    // A reader that has finished repeats its outcome.
    let (_, request) = reader.forward_messages(77, Event::Sent(true));
    assert_eq!(request, Request::Finish(Outcome::Migrated { thread_id: 500, sent: 4 }));
}

#[test]
fn an_empty_thread_makes_no_write() {
    let reader = ThreadReader::new(thread());
    let (reader, _) = reader.forward_messages(77, Event::Begin);
    let (reader, request) = reader.forward_messages(77, Event::Messages(Some(vec![])));
    assert_eq!(request, Request::Finish(Outcome::Empty));
    let (reader, request) = reader.forward_messages(77, Event::Created(Some(1)));
    assert_eq!(request, Request::Finish(Outcome::Empty));
    let (_, request) = reader.forward_messages(77, Event::Sent(true));
    assert_eq!(request, Request::Finish(Outcome::Empty));
}

#[test]
fn a_failed_fetch_makes_no_write() {
    let reader = ThreadReader::new(thread());
    let (reader, _) = reader.forward_messages(77, Event::Begin);
    let (_, request) = reader.forward_messages(77, Event::Messages(None));
    assert_eq!(request, Request::Finish(Outcome::FetchFailed));
}

#[test]
fn a_failed_creation_sends_nothing() {
    let reader = ThreadReader::new(thread());
    let (reader, _) = reader.forward_messages(77, Event::Begin);
    let fetched = vec![message(2, 2, "b"), message(1, 1, "a")];
    let (reader, request) = reader.forward_messages(77, Event::Messages(Some(fetched)));
    assert!(matches!(request, Request::CreateThread { .. }));
    let (reader, request) = reader.forward_messages(77, Event::Created(None));
    assert_eq!(request, Request::Finish(Outcome::CreateFailed));
    let (_, request) = reader.forward_messages(77, Event::Sent(true));
    assert_eq!(request, Request::Finish(Outcome::CreateFailed));
}

#[test]
fn a_failed_send_ends_the_thread() {
    let reader = ThreadReader::new(thread());
    let (reader, _) = reader.forward_messages(77, Event::Begin);
    let fetched = vec![message(2, 2, "b"), message(1, 1, "a")];
    let (reader, _) = reader.forward_messages(77, Event::Messages(Some(fetched)));
    let (reader, _) = reader.forward_messages(77, Event::Created(Some(9)));
    let (reader, request) = reader.forward_messages(77, Event::Sent(true));
    assert_eq!(
        request,
        Request::SendMessage { thread_id: 9, content: String::from("___**Bob**___"), files: vec![] }
    );
    let (reader, request) = reader.forward_messages(77, Event::Sent(false));
    assert_eq!(request, Request::Finish(Outcome::SendFailed { thread_id: 9, index: 2 }));
    let (_, request) = reader.forward_messages(77, Event::Sent(true));
    assert_eq!(request, Request::Finish(Outcome::SendFailed { thread_id: 9, index: 2 }));
}

#[test]
fn an_event_out_of_turn_ends_the_thread() {
    let reader = ThreadReader::new(thread());
    let (_, request) = reader.forward_messages(77, Event::Sent(true));
    assert_eq!(request, Request::Finish(Outcome::OutOfTurn));

    let reader = ThreadReader::new(thread());
    let (reader, _) = reader.forward_messages(77, Event::Begin);
    let (_, request) = reader.forward_messages(77, Event::Begin);
    assert_eq!(request, Request::Finish(Outcome::OutOfTurn));
}
