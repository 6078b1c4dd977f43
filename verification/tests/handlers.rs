use joke_bot::category::Category;
use joke_bot::fetch::FetchError;
use joke_bot::handlers::{code, joke_begin, joke_category, joke_finish, repo, stats, JokeStep};
use joke_bot::message::IncomingMessage;
use joke_bot::state::{ServiceState, Timestamp};

const UNKNOWN: &str = "Unknown category, run !help command to see available categories.";

fn said(content: &str) -> IncomingMessage {
    IncomingMessage::new(
        "event-7".to_string(),
        "alice".to_string(),
        vec![vec!["e".to_string(), "root".to_string()]],
        content.to_string(),
    )
    .unwrap()
}

fn thread_tags() -> Vec<Vec<String>> {
    vec![
        vec!["p".to_string(), "alice".to_string()],
        vec!["e".to_string(), "root".to_string()],
        vec!["e".to_string(), "event-7".to_string()],
    ]
}

fn fresh_state() -> ServiceState {
    ServiceState::new(Timestamp::new(1_000, 0).unwrap())
}

fn state_with(served: u64) -> ServiceState {
    let mut state = fresh_state();
    let mut n = 0;
    while n < served {
        state.record_served();
        n += 1;
    }
    state
}

#[test]
fn every_category_is_fetched_when_named() {
    let all = [
        ("any", Category::Any),
        ("programming", Category::Programming),
        ("misc", Category::Misc),
        ("dark", Category::Dark),
        ("pun", Category::Pun),
        ("spooky", Category::Spooky),
        ("christmas", Category::Christmas),
    ];
    for (name, category) in all {
        let content = format!("!joke {}", name);
        assert_eq!(joke_category(&content), Some(category));
        assert_eq!(joke_begin(&said(&content)), JokeStep::Fetch(category));
    }
}

#[test]
fn request_without_category_is_for_any() {
    assert_eq!(joke_category("!joke"), Some(Category::Any));
    assert_eq!(joke_category("  !joke  "), Some(Category::Any));
    assert_eq!(joke_category(""), Some(Category::Any));
    assert_eq!(joke_category("   "), Some(Category::Any));
    assert_eq!(joke_begin(&said("!joke")), JokeStep::Fetch(Category::Any));
}

#[test]
fn only_the_second_token_is_read() {
    assert_eq!(joke_category("!joke dark pun"), Some(Category::Dark));
    assert_eq!(joke_category("!joke dark klingon"), Some(Category::Dark));
    assert_eq!(joke_category("!joke\tspooky\n"), Some(Category::Spooky));
    assert_eq!(joke_category("anything misc"), Some(Category::Misc));
    assert_eq!(joke_category("!joke klingon dark"), None);
}

#[test]
fn unknown_category_is_rejected() {
    assert_eq!(joke_category("!joke klingon"), None);
    assert_eq!(joke_category("!joke Dark"), None);
    assert_eq!(joke_category("!joke ANY"), None);
    assert_eq!(joke_category("!joke dark,pun"), None);
    assert_eq!(joke_category("!joke \"dark\""), None);
}

#[test]
fn rejection_is_answered_at_once() {
    match joke_begin(&said("!joke klingon")) {
        JokeStep::Done(answer) => {
            assert_eq!(answer.content, UNKNOWN);
            assert_eq!(answer.tags, thread_tags());
        }
        JokeStep::Fetch(category) => panic!("fetch of {:?}", category),
    }
}

#[test]
fn fetched_joke_is_counted_and_sent() {
    let message = said("!joke dark");
    let mut state = fresh_state();
    let answer = joke_finish(&message, &mut state, Ok("Why...".to_string()));
    assert_eq!(answer.content, "Why...");
    assert_eq!(answer.tags, thread_tags());
    assert_eq!(state.served_count(), 1);
    assert_eq!(state.started_at(), Timestamp::new(1_000, 0).unwrap());
}

#[test]
fn fetched_joke_is_sent_unchanged() {
    let message = said("!joke");
    let mut state = state_with(41);
    let joke = "Line one\n\"quoted\" line two\\n".to_string();
    let answer = joke_finish(&message, &mut state, Ok(joke.clone()));
    assert_eq!(answer.content, joke);
    assert_eq!(state.served_count(), 42);
    let answer = joke_finish(&message, &mut state, Ok(String::new()));
    assert_eq!(answer.content, "");
    assert_eq!(state.served_count(), 43);
}

#[test]
fn failed_fetch_is_not_counted() {
    let message = said("!joke dark");
    let mut state = state_with(5);
    let error = FetchError::Transport { cause: "connection refused".to_string() };
    let answer = joke_finish(&message, &mut state, Err(error));
    assert_eq!(answer.content, "I was unable to get the joke: connection refused");
    assert_eq!(answer.tags, thread_tags());
    assert_eq!(state.served_count(), 5);
    assert_eq!(state.started_at(), Timestamp::new(1_000, 0).unwrap());
}

#[test]
fn failed_fetch_tells_each_cause() {
    let message = said("!joke");
    let mut state = fresh_state();
    let answer = joke_finish(&message, &mut state, Err(FetchError::Status { code: 503 }));
    assert_eq!(answer.content, "I was unable to get the joke: HTTP status 503");
    let error = FetchError::Body { cause: "invalid utf-8".to_string() };
    let answer = joke_finish(&message, &mut state, Err(error));
    assert_eq!(answer.content, "I was unable to get the joke: invalid utf-8");
    assert_eq!(state.served_count(), 0);
}

#[test]
fn successes_and_failures_in_turn() {
    let message = said("!joke");
    let mut state = fresh_state();
    let outcomes = [true, false, true, true, false, false, true];
    let mut expected = 0;
    for ok in outcomes {
        let fetched = if ok {
            expected += 1;
            Ok("joke".to_string())
        } else {
            Err(FetchError::Status { code: 500 })
        };
        joke_finish(&message, &mut state, fetched);
        assert_eq!(state.served_count(), expected);
    }
    assert_eq!(state.served_count(), 4);
}

#[test]
fn stats_answer_is_the_status_line() {
    let state = state_with(3);
    let now = Timestamp::new(1_000 + 3661, 0).unwrap();
    let answer = stats(&said("!stats"), &state, &now);
    assert_eq!(answer.content, "I'm up 1h1m1s and I told 3 jokes since my last crash.");
    assert_eq!(answer.tags, thread_tags());
    assert!(answer.content.contains("1h1m1s"));
    assert!(answer.content.contains("3 jokes"));
}

#[test]
fn stats_twice_gives_the_same_count() {
    let state = state_with(7);
    let first = stats(&said("!stats"), &state, &Timestamp::new(1_010, 0).unwrap());
    let second = stats(&said("!stats"), &state, &Timestamp::new(1_075, 0).unwrap());
    assert_eq!(first.content, "I'm up 10s and I told 7 jokes since my last crash.");
    assert_eq!(second.content, "I'm up 1m15s and I told 7 jokes since my last crash.");
    assert_eq!(state.served_count(), 7);
}

#[test]
fn stats_sees_a_joke_served_in_between() {
    let mut state = state_with(2);
    let now = Timestamp::new(1_001, 0).unwrap();
    let before = stats(&said("!stats"), &state, &now);
    joke_finish(&said("!joke"), &mut state, Ok("joke".to_string()));
    let after = stats(&said("!stats"), &state, &now);
    assert_eq!(before.content, "I'm up 1s and I told 2 jokes since my last crash.");
    assert_eq!(after.content, "I'm up 1s and I told 3 jokes since my last crash.");
}

#[test]
fn code_answers_with_the_source_it_is_given() {
    let source = "fn main() {\n    println!(\"hi\");\n}\n";
    let answer = code(&said("!code"), source);
    assert_eq!(answer.content, source);
    assert_eq!(answer.tags, thread_tags());
}

#[test]
fn repo_answers_with_the_address() {
    let answer = repo(&said("!repo"));
    assert_eq!(answer.content, "https://github.com/slaninas/joke_bot");
    assert_eq!(answer.tags, thread_tags());
}

#[test]
fn joke_from_request_to_answer() {
    let message = said("!joke dark");
    let mut state = fresh_state();
    let category = match joke_begin(&message) {
        JokeStep::Fetch(category) => category,
        JokeStep::Done(answer) => panic!("answered {:?}", answer),
    };
    assert_eq!(category, Category::Dark);
    assert_eq!(state.served_count(), 0);
    let answer = joke_finish(&message, &mut state, Ok("Why...".to_string()));
    assert_eq!(answer.content, "Why...");
    assert_eq!(state.served_count(), 1);

    match joke_begin(&said("!joke klingon")) {
        JokeStep::Done(answer) => assert_eq!(answer.content, UNKNOWN),
        JokeStep::Fetch(category) => panic!("fetch of {:?}", category),
    }
    assert_eq!(state.served_count(), 1);
}

#[test]
fn many_handlers_at_once_count_every_joke() {
    let handlers: u64 = 64;
    let shared = std::sync::Arc::new(tokio::sync::Mutex::new(fresh_state()));
    let runtime = tokio::runtime::Builder::new_multi_thread().worker_threads(4).build().unwrap();
    runtime.block_on(async {
        let mut running = Vec::new();
        let mut n = 0;
        while n < handlers {
            let shared = shared.clone();
            running.push(tokio::spawn(async move {
                let message = said("!joke pun");
                tokio::task::yield_now().await;
                let mut state = shared.lock().await;
                joke_finish(&message, &mut state, Ok(format!("joke {}", n))).content
            }));
            n += 1;
        }
        let mut n = 0;
        for handle in running {
            assert_eq!(handle.await.unwrap(), format!("joke {}", n));
            n += 1;
        }
        assert_eq!(shared.lock().await.served_count(), handlers);
    });
}
