//! One handler for each command: what to do with a message, and what to
//! answer.

use crate::category::Category;
use crate::fetch::FetchError;
use crate::message::{reply, IncomingMessage, OutgoingReply};
use crate::state::{whole_seconds_between, ServiceState, Timestamp};
use crate::status::{format_status, status_text};
use crate::tokens::{is_word, split_whitespace, tokens};
use vstd::prelude::*;
use vstd::string::StringExecFns;

verus! {

/// The answer to a request that names a category which does not exist.
pub const UNKNOWN_CATEGORY: &'static str =
    "Unknown category, run !help command to see available categories.";

/// What an answer begins with when no joke could be fetched; the cause of
/// the failure follows it.
pub const FETCH_FAILURE_PREFIX: &'static str = "I was unable to get the joke: ";

/// Where the source of this program lives.
pub const REPOSITORY: &'static str = "https://github.com/slaninas/joke_bot";

/// The category that a request with the text `content` asks for. The first
/// token is the command itself; the second, if there is one, must name a
/// category, and `None` says that it names none; without a second token the
/// request is for any category. Further tokens are not read.
pub open spec fn requested_category(content: Seq<char>) -> Option<Category> {
    let words = tokens(content);
    if words.len() > 1 {
        Category::named(words[1])
    } else {
        Some(Category::Any)
    }
}

/// Reads from the text of a request the category that it asks for; `None`
/// exactly when the request names a category that does not exist.
pub fn joke_category(content: &str) -> (category: Option<Category>)
    ensures
        category == requested_category(content@),
{
    let words = split_whitespace(content);
    if words.len() > 1 {
        Category::parse(words[1].as_str())
    } else {
        Some(Category::Any)
    }
}

/// What is to be done next for a request for a joke.
#[derive(Debug, PartialEq, Eq)]
pub enum JokeStep {
    /// A joke of this category is to be fetched; the request is finished by
    /// `joke_finish` with what the fetch gave.
    Fetch(Category),
    /// The request is finished: nothing is fetched, and this is the answer.
    Done(OutgoingReply),
}

/// Starts on a request for a joke. A request that asks for a category that
/// exists, or for none in particular, leads to one fetch of that category. A
/// request that names a category which does not exist is answered at once,
/// with the text that says so.
pub fn joke_begin(message: &IncomingMessage) -> (step: JokeStep)
    ensures
        match requested_category(message.content_text()) {
            Some(category) => step == JokeStep::Fetch(category),
            None => step matches JokeStep::Done(answer) && answer.content@
                == UNKNOWN_CATEGORY@ && answer.tags.deep_view() == message.reply_tags(),
        },
{
    match joke_category(message.content()) {
        Some(category) => JokeStep::Fetch(category),
        None => JokeStep::Done(reply(message, String::from_str(UNKNOWN_CATEGORY))),
    }
}

/// The text that answers a request for a joke once the fetch is over: the
/// joke as it was fetched, or else the failure prefix and the cause.
pub open spec fn joke_answer_text(fetched: Result<String, FetchError>) -> Seq<char> {
    match fetched {
        Ok(joke) => joke@,
        Err(error) => FETCH_FAILURE_PREFIX@ + error.cause_text(),
    }
}

/// The number of served jokes after a fetch is over, where it was `served`
/// before: one more if the fetch gave a joke, the same if it failed.
pub open spec fn served_after(served: nat, fetched_ok: bool) -> nat {
    if fetched_ok {
        served + 1
    } else {
        served
    }
}

/// Finishes a request for a joke with what the fetch gave. A fetched joke is
/// counted and sent as the answer; a failure is not counted, and the answer
/// tells its cause. The start time is never touched.
pub fn joke_finish(
    message: &IncomingMessage,
    state: &mut ServiceState,
    fetched: Result<String, FetchError>,
) -> (answer: OutgoingReply)
    requires
        fetched is Ok ==> old(state).can_record(),
    ensures
        answer.content@ == joke_answer_text(fetched),
        answer.tags.deep_view() == message.reply_tags(),
        final(state).served() == served_after(old(state).served(), fetched is Ok),
        final(state).started() == old(state).started(),
{
    match fetched {
        Ok(joke) => {
            state.record_served();
            reply(message, joke)
        },
        Err(error) => {
            let mut text = String::from_str(FETCH_FAILURE_PREFIX);
            text.append(error.cause().as_str());
            reply(message, text)
        },
    }
}

/// Answers a request for the status at the time `now`, which must not lie
/// before the start of the process: the answer is the status line.
pub fn stats(message: &IncomingMessage, state: &ServiceState, now: &Timestamp) -> (answer:
    OutgoingReply)
    requires
        state.started().since_epoch() <= now.since_epoch(),
    ensures
        answer.content@ == status_text(
            whole_seconds_between(state.started(), *now) as nat,
            state.served(),
        ),
        answer.tags.deep_view() == message.reply_tags(),
{
    reply(message, format_status(state, now))
}

/// Answers a request for the source of the program, which the caller hands
/// in as `source`: the answer is that text as it stands.
pub fn code(message: &IncomingMessage, source: &str) -> (answer: OutgoingReply)
    ensures
        answer.content@ == source@,
        answer.tags.deep_view() == message.reply_tags(),
{
    reply(message, String::from_str(source))
}

/// Answers a request for the repository: the answer is its address.
pub fn repo(message: &IncomingMessage) -> (answer: OutgoingReply)
    ensures
        answer.content@ == REPOSITORY@,
        answer.tags.deep_view() == message.reply_tags(),
{
    reply(message, String::from_str(REPOSITORY))
}

/// The number of served jokes after a run of fetches, one after the other,
/// where it was `served` before; `fetched_ok` says of each fetch whether it
/// gave a joke.
pub open spec fn served_after_all(served: nat, fetched_ok: Seq<bool>) -> nat
    decreases fetched_ok.len(),
{
    if fetched_ok.len() == 0 {
        served
    } else {
        served_after(served_after_all(served, fetched_ok.drop_last()), fetched_ok.last())
    }
}

/// The number of fetches among `fetched_ok` that gave a joke.
pub open spec fn successes(fetched_ok: Seq<bool>) -> nat
    decreases fetched_ok.len(),
{
    if fetched_ok.len() == 0 {
        0
    } else {
        successes(fetched_ok.drop_last()) + if fetched_ok.last() {
            1nat
        } else {
            0nat
        }
    }
}

/// A request with a single token asks for any category.
pub proof fn bare_request_asks_for_any(content: Seq<char>)
    requires
        tokens(content).len() <= 1,
    ensures
        requested_category(content) == Some(Category::Any),
{
}

/// A request whose second token is the name of a category asks for that
/// category, whatever follows the second token.
pub proof fn named_request_asks_for_category(content: Seq<char>, category: Category)
    requires
        tokens(content).len() > 1,
        tokens(content)[1] == category.name(),
    ensures
        requested_category(content) == Some(category),
{
    crate::category::named_is_by_name(tokens(content)[1], category);
}

/// A request is turned down exactly when it has a second token and that
/// token is the name of no category.
pub proof fn request_is_rejected_for_unknown_name(content: Seq<char>)
    ensures
        requested_category(content) is None <==> tokens(content).len() > 1 && forall|
            category: Category,
        | tokens(content)[1] != #[trigger] category.name(),
{
    if tokens(content).len() > 1 {
        let word = tokens(content)[1];
        match Category::named(word) {
            Some(found) => {
                crate::category::named_is_by_name(word, found);
            },
            None => {
                assert forall|category: Category| word != #[trigger] category.name() by {
                    crate::category::unnamed_matches_nothing(word, category);
                }
            },
        }
    }
}

/// A command word, one whitespace character and the name of a category ask
/// for that category.
pub proof fn command_with_category(command: Seq<char>, gap: char, category: Category)
    requires
        is_word(command),
        crate::text::is_whitespace(gap),
    ensures
        requested_category(command.push(gap) + category.name()) == Some(category),
{
    let name = category.name();
    crate::category::names_are_lower_case_words(category);
    assert(is_word(name)) by {
        assert forall|i: int| 0 <= i < name.len() implies !crate::text::is_whitespace(
            #[trigger] name[i],
        ) by {
            assert('a' <= name[i] <= 'z');
        }
    }
    crate::tokens::tokens_of_word(command);
    crate::tokens::tokens_of_word(name);
    crate::tokens::tokens_split_at_whitespace(command, gap, name);
    assert(tokens(command.push(gap) + name) == seq![command, name]);
    named_request_asks_for_category(command.push(gap) + name, category);
}

/// A command word, one whitespace character and a word that names no
/// category are turned down.
pub proof fn command_with_unknown_word(command: Seq<char>, gap: char, word: Seq<char>)
    requires
        is_word(command),
        crate::text::is_whitespace(gap),
        is_word(word),
        Category::named(word) is None,
    ensures
        requested_category(command.push(gap) + word) is None,
{
    crate::tokens::tokens_of_word(command);
    crate::tokens::tokens_of_word(word);
    crate::tokens::tokens_split_at_whitespace(command, gap, word);
    assert(tokens(command.push(gap) + word) == seq![command, word]);
}

/// After a run of fetches the count has grown by the number of those that
/// gave a joke: each success is counted once, and no failure is counted.
pub proof fn every_success_is_counted_once(served: nat, fetched_ok: Seq<bool>)
    ensures
        served_after_all(served, fetched_ok) == served + successes(fetched_ok),
    decreases fetched_ok.len(),
{
    if fetched_ok.len() > 0 {
        every_success_is_counted_once(served, fetched_ok.drop_last());
    }
}

/// The number of successes in a run is the number of times that success
/// occurs in it, taken as a multiset.
pub proof fn successes_are_occurrences(fetched_ok: Seq<bool>)
    ensures
        successes(fetched_ok) == fetched_ok.to_multiset().count(true),
    decreases fetched_ok.len(),
{
    if fetched_ok.len() == 0 {
        fetched_ok.to_multiset_ensures();
        assert(fetched_ok.to_multiset().len() == 0);
    } else {
        let init = fetched_ok.drop_last();
        successes_are_occurrences(init);
        vstd::seq_lib::to_multiset_build(init, fetched_ok.last());
        assert(init.push(fetched_ok.last()) == fetched_ok);
    }
}

/// The order in which the fetches of a run come to be counted has no bearing
/// on the count: two runs that hold the same outcomes, each as often as the
/// other, leave the same count.
pub proof fn order_of_fetches_is_immaterial(served: nat, one: Seq<bool>, other: Seq<bool>)
    requires
        one.to_multiset() == other.to_multiset(),
    ensures
        served_after_all(served, one) == served_after_all(served, other),
{
    every_success_is_counted_once(served, one);
    every_success_is_counted_once(served, other);
    successes_are_occurrences(one);
    successes_are_occurrences(other);
}

/// From a fresh state, a run of fetches that all gave a joke leaves the
/// count at the length of the run.
pub proof fn successes_from_fresh_state(fetched_ok: Seq<bool>)
    requires
        forall|i: int| 0 <= i < fetched_ok.len() ==> #[trigger] fetched_ok[i],
    ensures
        served_after_all(0, fetched_ok) == fetched_ok.len(),
    decreases fetched_ok.len(),
{
    if fetched_ok.len() > 0 {
        successes_from_fresh_state(fetched_ok.drop_last());
        assert(fetched_ok[fetched_ok.len() - 1]);
    }
}

} // verus!
