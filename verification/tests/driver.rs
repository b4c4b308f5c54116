use channel_migrator::driver::{Command, Driver, Report};
use channel_migrator::enumerator::{EnumerationError, Listing};
use channel_migrator::messages::{Message, User};
use channel_migrator::threads::{Event, GuildThread, Outcome, Request};

fn thread(id: u64, archived: u64) -> GuildThread {
    GuildThread { id, name: format!("thread {id}"), archive_timestamp: Some(archived) }
}

fn message(id: u64, author: u64, content: &str) -> Message {
    Message {
        id,
        author: User { id: author, display_name: format!("user {author}") },
        content: String::from(content),
        attachments: vec![],
        referenced_message: None,
    }
}

/// Answers every command as a platform would on which every request
/// succeeds, but for the creations listed in `failing`, and counts.
struct Platform {
    pages: Vec<Vec<GuildThread>>,
    messages: Vec<(u64, Vec<Message>)>,
    failing_creations: Vec<String>,
    page_requests: usize,
    created: Vec<String>,
    sent: Vec<(u64, String)>,
    fetched: Vec<u64>,
}

impl Platform {
    fn answer(&mut self, command: Command) -> Result<Report, Result<Vec<Outcome>, EnumerationError>> {
        match command {
            Command::ListPage { .. } => {
                self.page_requests += 1;
                let page = if self.pages.is_empty() { vec![] } else { self.pages.remove(0) };
                Ok(Report::Listing(Listing::Page(page)))
            }
            Command::Thread(Request::FetchMessages { thread_id }) => {
                self.fetched.push(thread_id);
                let found = self.messages.iter().position(|(id, _)| *id == thread_id);
                let messages = match found {
                    Some(at) => self.messages.remove(at).1,
                    None => vec![],
                };
                Ok(Report::Thread(Event::Messages(Some(messages))))
            }
            Command::Thread(Request::FetchAttachments { attachments }) => {
                Ok(Report::Thread(Event::Attachments(attachments.iter().map(|_| None).collect())))
            }
            Command::Thread(Request::CreateThread { name, .. }) => {
                if self.failing_creations.contains(&name) {
                    Ok(Report::Thread(Event::Created(None)))
                } else {
                    self.created.push(name);
                    Ok(Report::Thread(Event::Created(Some(1000 + self.created.len() as u64))))
                }
            }
            Command::Thread(Request::SendMessage { thread_id, content, .. }) => {
                self.sent.push((thread_id, content));
                Ok(Report::Thread(Event::Sent(true)))
            }
            Command::Thread(Request::Finish(outcome)) => {
                panic!("the driver handed on the end of a thread: {outcome:?}")
            }
            Command::Finish(result) => Err(result),
        }
    }

    fn run(&mut self, source: u64, destination: u64) -> Result<Vec<Outcome>, EnumerationError> {
        let mut driver = Driver::new(source, destination);
        let mut report = Report::Begin;
        loop {
            let (next, command) = driver.migrate(report);
            driver = next;
            match self.answer(command) {
                Ok(next_report) => report = next_report,
                Err(result) => return result,
            }
        }
    }
}

fn platform(pages: Vec<Vec<GuildThread>>, messages: Vec<(u64, Vec<Message>)>) -> Platform {
    Platform {
        pages,
        messages,
        failing_creations: vec![],
        page_requests: 0,
        created: vec![],
        sent: vec![],
        fetched: vec![],
    }
}

#[test]
fn two_threads_of_which_the_second_is_empty() {
    // The platform lists the newest thread first: thread 2 is the older one.
    let pages = vec![vec![thread(1, 200), thread(2, 100)]];
    // Thread 2 has three messages by two authors, newest first; thread 1 has none.
    let messages =
        vec![(2, vec![message(3, 8, "c"), message(2, 7, "b"), message(1, 7, "a")]), (1, vec![])];
    let mut platform = platform(pages, messages);
    let outcomes = platform.run(10, 20).unwrap();

    assert_eq!(platform.fetched, vec![2, 1]);
    assert_eq!(platform.created, vec!["thread 2"]);
    let texts: Vec<&str> = platform.sent.iter().map(|(_, text)| text.as_str()).collect();
    // The thread was created with the first marker; the three messages and
    // the marker for the change of author follow.
    assert_eq!(texts, vec!["a", "b", "___**user 8**___", "c"]);
    assert!(platform.sent.iter().all(|(thread_id, _)| *thread_id == 1001));
    assert_eq!(outcomes, vec![Outcome::Migrated { thread_id: 1001, sent: 4 }, Outcome::Empty]);
    assert_eq!(platform.page_requests, 2);
}

#[test]
fn a_failed_creation_does_not_stop_the_next_thread() {
    let pages = vec![vec![thread(1, 200), thread(2, 100)]];
    let messages = vec![(2, vec![message(1, 7, "a")]), (1, vec![message(2, 8, "b")])];
    let mut platform = platform(pages, messages);
    platform.failing_creations = vec![String::from("thread 2")];
    let outcomes = platform.run(10, 20).unwrap();

    assert_eq!(platform.created, vec!["thread 1"]);
    assert_eq!(platform.sent, vec![(1001, String::from("b"))]);
    assert_eq!(outcomes, vec![Outcome::CreateFailed, Outcome::Migrated { thread_id: 1001, sent: 1 }]);
}

#[test]
fn a_failed_listing_fails_the_migration() {
    let driver = Driver::new(10, 20);
    let (driver, command) = driver.migrate(Report::Begin);
    assert_eq!(command, Command::ListPage { channel_id: 10, before: None });
    let (driver, command) = driver.migrate(Report::Listing(Listing::Page(vec![thread(1, 200)])));
    assert_eq!(command, Command::ListPage { channel_id: 10, before: Some(200) });
    let (driver, command) = driver.migrate(Report::Listing(Listing::Failed));
    assert_eq!(command, Command::Finish(Err(EnumerationError::PageFailed)));
    let (_, command) = driver.migrate(Report::Begin);
    assert_eq!(command, Command::Finish(Err(EnumerationError::OutOfTurn)));
}

#[test]
fn a_channel_without_threads_is_migrated_at_once() {
    let mut platform = platform(vec![], vec![]);
    assert_eq!(platform.run(10, 20), Ok(vec![]));
    assert_eq!(platform.page_requests, 1);
    assert!(platform.created.is_empty());
    assert!(platform.sent.is_empty());
}

#[test]
fn a_report_out_of_turn_ends_the_thread_in_turn_only() {
    let driver = Driver::new(10, 20);
    let (driver, _) = driver.migrate(Report::Begin);
    let (driver, _) =
        driver.migrate(Report::Listing(Listing::Page(vec![thread(1, 200), thread(2, 100)])));
    let (driver, command) = driver.migrate(Report::Listing(Listing::Page(vec![])));
    assert_eq!(command, Command::Thread(Request::FetchMessages { thread_id: 2 }));
    let (driver, command) = driver.migrate(Report::Begin);
    assert_eq!(command, Command::Thread(Request::FetchMessages { thread_id: 1 }));
    let (_, command) = driver.migrate(Report::Thread(Event::Messages(None)));
    assert_eq!(command, Command::Finish(Ok(vec![Outcome::OutOfTurn, Outcome::FetchFailed])));
}
