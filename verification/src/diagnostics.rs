//! What the output of a failed container says about the failure.

use vstd::prelude::*;
use crate::container_state::CommandResult;
use crate::text::{
    chars_of, contains_text, find_last, find_last_upto, last_occurrence, last_occurrence_upto,
    lemma_last_occurrence_upto, string_of_range,
};

verus! {

/// The text that `String::from_utf8_lossy` makes of the bytes: their
/// decoding as UTF-8, with U+FFFD in place of what is not valid.
pub uninterp spec fn utf8_lossy(bytes: Seq<u8>) -> Seq<char>;

/// `String::from_utf8_lossy`: the bytes as text, invalid sequences replaced.
#[verifier::external_body]
pub(crate) fn lossy_text(bytes: &[u8]) -> (r: String)
    ensures
        r@ == utf8_lossy(bytes@),
{
    String::from_utf8_lossy(bytes).into_owned()
}

/// The words that open an error stack in the output of a container.
pub open spec fn error_stack_marker() -> Seq<char> {
    "Error { stack: ["@
}

/// The words that follow the thread's name in a panic message.
pub open spec fn panicked_at_marker() -> Seq<char> {
    " panicked at "@
}

/// The word that a panic message starts with.
pub open spec fn thread_marker() -> Seq<char> {
    "thread"@
}

/// The name of the error that marks a failure as a consequence of another.
pub open spec fn not_root_cause_marker() -> Seq<char> {
    "ProbablyNotRootCauseError"@
}

/// The error stack in the output: everything from the last place where one
/// opens. There is none where the output names an error that is probably
/// not the root cause.
pub open spec fn stack_fragment(stdout: Seq<char>) -> Option<Seq<char>> {
    match last_occurrence(stdout, error_stack_marker()) {
        Some(start) => if contains_text(stdout, not_root_cause_marker()) {
            None
        } else {
            Some(stdout.subrange(start, stdout.len() as int))
        },
        None => None,
    }
}

/// The panic message in the output: everything from the last `thread` before
/// the last ` panicked at `.
pub open spec fn panic_fragment(stdout: Seq<char>) -> Option<Seq<char>> {
    match last_occurrence(stdout, panicked_at_marker()) {
        Some(at) => match last_occurrence(stdout.subrange(0, at), thread_marker()) {
            Some(start) => Some(stdout.subrange(start, stdout.len() as int)),
            None => None,
        },
        None => None,
    }
}

/// The message that carries the error stack of a container.
pub open spec fn stack_message(name: Seq<char>, fragment: Seq<char>) -> Seq<char> {
    "Error stack from container \""@ + name + "\":\n"@ + fragment + "\n"@
}

/// The message that carries the panic message of a container.
pub open spec fn panic_message(name: Seq<char>, fragment: Seq<char>) -> Seq<char> {
    "Panic message from container \""@ + name + "\":\n"@ + fragment + "\n"@
}

/// The message for a container that failed without saying why.
pub open spec fn silent_message(name: Seq<char>) -> Seq<char> {
    "Error: Container \""@ + name
        + "\" was unsuccessful but does not seem to have an error stack or panic message\n"@
}

/// Whether the output says nothing about a failure: whether it holds neither
/// the opening of an error stack nor a panic message.
pub open spec fn is_silent(stdout: Seq<char>) -> bool {
    !contains_text(stdout, error_stack_marker()) && panic_fragment(stdout) is None
}

/// The messages that the result of a container contributes to the error of
/// the network: none for a successful one; else its error stack and its panic
/// message, as far as its output holds them; and, where its output is silent
/// and the container was not terminated, a message that says so.
pub open spec fn report(name: Seq<char>, result: CommandResult) -> Seq<Seq<char>> {
    if result.spec_successful() {
        Seq::empty()
    } else {
        let stdout = utf8_lossy(result.stdout@);
        let stack = match stack_fragment(stdout) {
            Some(f) => seq![stack_message(name, f)],
            None => Seq::empty(),
        };
        let panic = match panic_fragment(stdout) {
            Some(f) => seq![panic_message(name, f)],
            None => Seq::empty(),
        };
        if is_silent(stdout) && !result.spec_successful_or_terminated() {
            seq![silent_message(name)]
        } else {
            stack + panic
        }
    }
}

/// The error stack in the output, if any.
pub fn find_stack_fragment(stdout: &Vec<char>) -> (r: Option<String>)
    ensures
        match r {
            Some(f) => stack_fragment(stdout@) == Some(f@),
            None => stack_fragment(stdout@) is None,
        },
{
    let marker = chars_of("Error { stack: [");
    match find_last(stdout, &marker) {
        Some(start) => {
            let not_root = chars_of("ProbablyNotRootCauseError");
            match find_last(stdout, &not_root) {
                Some(_) => None,
                None => {
                    proof {
                        lemma_last_occurrence_upto(
                            stdout@,
                            marker@,
                            stdout@.len() - marker@.len(),
                        );
                    }
                    Some(string_of_range(stdout, start, stdout.len()))
                },
            }
        },
        None => None,
    }
}

/// The panic message in the output, if any.
pub fn find_panic_fragment(stdout: &Vec<char>) -> (r: Option<String>)
    ensures
        match r {
            Some(f) => panic_fragment(stdout@) == Some(f@),
            None => panic_fragment(stdout@) is None,
        },
{
    let marker = chars_of(" panicked at ");
    match find_last(stdout, &marker) {
        Some(at) => {
            proof {
                lemma_last_occurrence_upto(stdout@, marker@, stdout@.len() - marker@.len());
            }
            let thread = chars_of("thread");
            let ghost head = stdout@.subrange(0, at as int);
            if thread.len() > at {
                return None;
            }
            // The search stays within what stands before ` panicked at `.
            let found = find_last_within(stdout, &thread, at);
            match found {
                Some(start) => {
                    proof {
                        lemma_last_occurrence_upto(head, thread@, head.len() - thread@.len());
                    }
                    Some(string_of_range(stdout, start, stdout.len()))
                },
                None => None,
            }
        },
        None => None,
    }
}

/// The last position where `needle` stands in the first `end` characters of
/// `hay`.
fn find_last_within(hay: &Vec<char>, needle: &Vec<char>, end: usize) -> (r: Option<usize>)
    requires
        end <= hay.len(),
        needle.len() <= end,
    ensures
        match r {
            Some(i) => last_occurrence(hay@.subrange(0, end as int), needle@) == Some(i as int),
            None => last_occurrence(hay@.subrange(0, end as int), needle@) is None,
        },
{
    let ghost head = hay@.subrange(0, end as int);
    let start = end - needle.len();
    proof {
        lemma_same_upto(hay@, needle@, end as int, start as int);
    }
    find_last_upto(hay, needle, start)
}

/// Searching the first `end` characters gives what searching the whole text
/// gives, from a start that keeps the match within those characters.
proof fn lemma_same_upto(hay: Seq<char>, needle: Seq<char>, end: int, start: int)
    requires
        0 <= end <= hay.len(),
        start + needle.len() <= end,
    ensures
        last_occurrence_upto(hay.subrange(0, end), needle, start) == last_occurrence_upto(
            hay,
            needle,
            start,
        ),
    decreases start + 1,
{
    if start >= 0 {
        let head = hay.subrange(0, end);
        assert(head.subrange(start, start + needle.len()) =~= hay.subrange(
            start,
            start + needle.len(),
        ));
        lemma_same_upto(hay, needle, end, start - 1);
    }
}

/// The messages that the result of the container `name` contributes.
pub fn container_report(name: &str, result: &CommandResult) -> (r: Vec<String>)
    ensures
        r.deep_view() == report(name@, *result),
{
    let mut messages: Vec<String> = Vec::new();
    assert(messages.deep_view() =~= Seq::<Seq<char>>::empty());
    if result.successful() {
        return messages;
    }
    let text = lossy_text(result.stdout.as_slice());
    let stdout = chars_of(text.as_str());
    let marker = chars_of("Error { stack: [");
    let mut silent = find_last(&stdout, &marker).is_none();
    match find_stack_fragment(&stdout) {
        Some(fragment) => {
            let mut m = "Error stack from container \"".to_owned();
            m.append(name);
            m.append("\":\n");
            m.append(fragment.as_str());
            m.append("\n");
            messages.push(m);
            assert(messages.deep_view() =~= seq![stack_message(name@, fragment@)]);
        },
        None => {},
    }
    let ghost stack = messages.deep_view();
    match find_panic_fragment(&stdout) {
        Some(fragment) => {
            let mut m = "Panic message from container \"".to_owned();
            m.append(name);
            m.append("\":\n");
            m.append(fragment.as_str());
            m.append("\n");
            messages.push(m);
            silent = false;
            assert(messages.deep_view() =~= stack + seq![panic_message(name@, fragment@)]);
        },
        None => {
            assert(messages.deep_view() =~= stack + Seq::<Seq<char>>::empty());
        },
    }
    if silent && !result.successful_or_terminated() {
        let mut m = "Error: Container \"".to_owned();
        m.append(name);
        m.append(
            "\" was unsuccessful but does not seem to have an error stack or panic message\n",
        );
        let mut only: Vec<String> = Vec::new();
        only.push(m);
        assert(only.deep_view() =~= seq![silent_message(name@)]);
        return only;
    }
    messages
}

} // verus!
