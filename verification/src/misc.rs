//! Small decisions that the helpers around the engine rest on.

use vstd::prelude::*;
use vstd::utf8::{decode_utf8, valid_utf8};
use crate::container_state::CommandResult;
use crate::error::{Error, ErrorKind, ErrorView};
use crate::text::{
    chars_of, decimal, decimal_string, find_char, first_index_of, same_text, starts_with,
    string_of_range,
};

verus! {

/// `std::str::from_utf8`: the text of the bytes where they are valid UTF-8,
/// and nothing where they are not.
#[verifier::external_body]
pub(crate) fn utf8_text(bytes: &[u8]) -> (r: Option<String>)
    ensures
        match r {
            Some(s) => valid_utf8(bytes@) && s@ == decode_utf8(bytes@),
            None => !valid_utf8(bytes@),
        },
{
    std::str::from_utf8(bytes).ok().map(|s| s.to_owned())
}

impl CommandResult {
    /// The error for a command that was unsuccessful, of kind
    /// `ExternalCommand`; nothing for a command that exited with code 0.
    pub fn assert_success(&self) -> (r: Result<(), Error>)
        ensures
            match r {
                Ok(_) => self.spec_successful(),
                Err(e) => !self.spec_successful() && e.kind == ErrorKind::ExternalCommand,
            },
    {
        match self.status {
            Some(code) => {
                if code == 0 {
                    Ok(())
                } else {
                    Err(
                        Error::new(
                            ErrorKind::ExternalCommand,
                            "the command exited unsuccessfully".to_owned(),
                        ),
                    )
                }
            },
            None => Err(
                Error::new(
                    ErrorKind::ExternalCommand,
                    "the command was terminated before it exited".to_owned(),
                ),
            ),
        }
    }

    /// The standard output as text, where it is valid UTF-8.
    pub fn stdout_as_utf8(&self) -> (r: Option<String>)
        ensures
            match r {
                Some(s) => valid_utf8(self.stdout@) && s@ == decode_utf8(self.stdout@),
                None => !valid_utf8(self.stdout@),
            },
    {
        utf8_text(self.stdout.as_slice())
    }
}

/// Splits a command line that is given as a list into the program and its
/// arguments. An empty list is refused with an error of kind `Validation`.
pub fn split_command(program_with_args: Vec<String>) -> (r: Result<(String, Vec<String>), Error>)
    ensures
        match r {
            Ok(parts) => program_with_args@.len() > 0 && parts.0 == program_with_args@[0]
                && parts.1@ == program_with_args@.subrange(1, program_with_args@.len() as int),
            Err(e) => program_with_args@.len() == 0 && e.kind == ErrorKind::Validation,
        },
{
    let mut parts = program_with_args;
    if parts.len() == 0 {
        return Err(
            Error::new(ErrorKind::Validation, "sh was called with an empty iterator".to_owned()),
        );
    }
    let program = parts.remove(0);
    assert(parts@ =~= program_with_args@.subrange(1, program_with_args@.len() as int));
    Ok((program, parts))
}

/// What a finished shell command gives: its standard output as text. The
/// error is of kind `ExternalCommand` where the command was unsuccessful, and
/// of kind `Io` where its output is not UTF-8.
pub fn command_output(result: &CommandResult) -> (r: Result<String, Error>)
    ensures
        match r {
            Ok(s) => result.spec_successful() && valid_utf8(result.stdout@) && s@ == decode_utf8(
                result.stdout@,
            ),
            Err(e) => if result.spec_successful() {
                !valid_utf8(result.stdout@) && e.kind == ErrorKind::Io
            } else {
                e.kind == ErrorKind::ExternalCommand
            },
        },
{
    match result.assert_success() {
        Ok(_) => {},
        Err(e) => {
            return Err(e);
        },
    }
    match result.stdout_as_utf8() {
        Some(s) => Ok(s),
        None => Err(Error::new(ErrorKind::Io, "sh -> `Command` output was not UTF-8".to_owned())),
    }
}

/// The context that a polling which ran out of retries adds to its last error.
pub open spec fn retries_exhausted(num_retries: u64) -> Seq<char> {
    "wait_for_ok(num_retries: "@ + decimal(num_retries as nat)
        + ") timeout, last error stack was:"@
}

/// What a polling does after a failed try: with retries left it tries again
/// after the delay, and the answer is the number of retries left then; with
/// none left it gives up, and the error is the last one, as a timeout.
pub fn retry_after_failure(remaining: u64, num_retries: u64, last: Error) -> (r: Result<
    u64,
    Error,
>)
    ensures
        match r {
            Ok(left) => remaining > 0 && left == remaining - 1,
            Err(e) => remaining == 0 && e@ == (ErrorView {
                kind: ErrorKind::Timeout,
                messages: last@.messages.push(retries_exhausted(num_retries)),
            }),
        },
{
    if remaining == 0 {
        let mut message = "wait_for_ok(num_retries: ".to_owned();
        let n = decimal_string(num_retries);
        message.append(n.as_str());
        message.append(") timeout, last error stack was:");
        Err(last.with_kind(ErrorKind::Timeout).stack_err(message))
    } else {
        Ok(remaining - 1)
    }
}

/// Whether `name` has one of the extensions: whether what follows one of its
/// dots, but for a dot that it begins with, is among them.
pub open spec fn has_extension_in(name: Seq<char>, extensions: Seq<Seq<char>>) -> bool {
    exists|i: int, k: int|
        0 < i < name.len() && name[i] == '.' && 0 <= k < extensions.len() && #[trigger] name.subrange(
            i + 1,
            name.len() as int,
        ) == #[trigger] extensions[k]
}

/// Whether `name` is one of the names.
pub open spec fn is_among(name: Seq<char>, names: Seq<Seq<char>>) -> bool {
    exists|k: int| 0 <= k < names.len() && #[trigger] names[k] == name
}

/// Whether a guarded removal takes the file: its whole name is one of the
/// file names, or it has one of the extensions.
pub open spec fn removal_matches(
    name: Seq<char>,
    file_names: Seq<Seq<char>>,
    extensions: Seq<Seq<char>>,
) -> bool {
    is_among(name, file_names) || has_extension_in(name, extensions)
}

/// Whether the characters from `from` on are one of the texts.
fn tail_is_among(chars: &Vec<char>, from: usize, texts: &Vec<String>) -> (r: bool)
    requires
        from <= chars.len(),
    ensures
        r == is_among(chars@.subrange(from as int, chars.len() as int), texts.deep_view()),
{
    let tail = string_of_range(chars, from, chars.len());
    let mut k: usize = 0;
    while k < texts.len()
        invariant
            k <= texts.len(),
            tail@ == chars@.subrange(from as int, chars.len() as int),
            forall|j: int| 0 <= j < k ==> #[trigger] texts.deep_view()[j] != tail@,
        decreases texts.len() - k,
    {
        if same_text(texts[k].as_str(), tail.as_str()) {
            assert(texts.deep_view()[k as int] == tail@);
            return true;
        }
        k += 1;
    }
    false
}

/// Whether a guarded removal takes the file of the given name: whether the
/// name is one of `file_names`, or ends in a dot and one of `extensions`.
/// Only whole extensions count: `ex.tar.gz` has the extensions `gz` and
/// `tar.gz`, and not `r.gz`; `.gz` has none.
pub fn removal_takes(name: &str, file_names: &Vec<String>, extensions: &Vec<String>) -> (r: bool)
    ensures
        r == removal_matches(name@, file_names.deep_view(), extensions.deep_view()),
{
    let chars = chars_of(name);
    assert(chars@.subrange(0, chars.len() as int) =~= chars@);
    if tail_is_among(&chars, 0, file_names) {
        return true;
    }
    let mut i: usize = 1;
    while i < chars.len()
        invariant
            1 <= i,
            chars@ == name@,
            forall|a: int, k: int|
                0 < a < i && a < chars.len() && chars@[a] == '.' && 0 <= k < extensions.len()
                    ==> #[trigger] chars@.subrange(a + 1, chars.len() as int)
                    != #[trigger] extensions.deep_view()[k],
        decreases chars.len() - i,
    {
        if chars[i] == '.' {
            if tail_is_among(&chars, i + 1, extensions) {
                let ghost k = choose|k: int|
                    0 <= k < extensions.deep_view().len() && #[trigger] extensions.deep_view()[k]
                        == chars@.subrange(i + 1, chars.len() as int);
                assert(name@.subrange(i + 1, name@.len() as int) == extensions.deep_view()[k]);
                return true;
            }
        }
        i += 1;
    }
    false
}

/// One element of the list that guards a removal.
#[derive(Debug, Clone, PartialEq, Eq)]
pub enum RemovalGuard {
    /// A whole file name.
    FileName(String),
    /// An extension, without the dot that it was given with.
    Extension(String),
}

/// Whether a text holds a separator of path components.
pub open spec fn has_separator(s: Seq<char>) -> bool {
    first_index_of(s, '/') < s.len() || first_index_of(s, '\\') < s.len()
}

/// How an element of the list that guards a removal is read: one that begins
/// with a dot names the extension that follows the dot, any other a file
/// name. An empty element, a dot alone, and an element of more than one path
/// component name nothing.
pub open spec fn guard_of(element: Seq<char>) -> Option<(bool, Seq<char>)> {
    if element.len() == 0 || has_separator(element) {
        None
    } else if element[0] == '.' {
        if element.len() == 1 {
            None
        } else {
            Some((true, element.subrange(1, element.len() as int)))
        }
    } else {
        Some((false, element))
    }
}

/// Reads an element of the list that guards a removal. An element that
/// names nothing is refused with an error of kind `Validation`.
pub fn read_guard(element: &str) -> (r: Result<RemovalGuard, Error>)
    ensures
        match r {
            Ok(RemovalGuard::FileName(n)) => guard_of(element@) == Some((false, n@)),
            Ok(RemovalGuard::Extension(e)) => guard_of(element@) == Some((true, e@)),
            Err(e) => guard_of(element@) is None && e.kind == ErrorKind::Validation,
        },
{
    let chars = chars_of(element);
    if chars.len() == 0 {
        return Err(
            Error::new(
                ErrorKind::Validation,
                "remove_files_in_dir -> an `ends_with` element is empty".to_owned(),
            ),
        );
    }
    if find_char(&chars, '/') < chars.len() || find_char(&chars, '\\') < chars.len() {
        return Err(
            Error::new(
                ErrorKind::Validation,
                "remove_files_in_dir -> an `ends_with` element has more than one component".to_owned(),
            ),
        );
    }
    if chars[0] == '.' {
        if chars.len() == 1 {
            return Err(
                Error::new(
                    ErrorKind::Validation,
                    "remove_files_in_dir -> an `ends_with` element has no component".to_owned(),
                ),
            );
        }
        Ok(RemovalGuard::Extension(string_of_range(&chars, 1, chars.len())))
    } else {
        let n = string_of_range(&chars, 0, chars.len());
        assert(chars@.subrange(0, chars.len() as int) =~= chars@);
        Ok(RemovalGuard::FileName(n))
    }
}

/// The first line of `listing` that begins with `prefix`, if there is one.
/// Lines end at a newline, which is not part of them.
pub open spec fn first_line_with(listing: Seq<char>, prefix: Seq<char>) -> Option<Seq<char>>
    decreases listing.len(),
{
    if listing.len() == 0 {
        None
    } else {
        let i = first_index_of(listing, '\n');
        let line = listing.subrange(0, i);
        if starts_with(line, prefix) {
            Some(line)
        } else if 0 <= i < listing.len() {
            first_line_with(listing.subrange(i + 1, listing.len() as int), prefix)
        } else {
            None
        }
    }
}

/// The name of the first container of a listing, one name on each line, that
/// begins with `prefix`.
pub fn container_with_prefix(listing: &str, prefix: &str) -> (r: Option<String>)
    ensures
        match r {
            Some(name) => first_line_with(listing@, prefix@) == Some(name@),
            None => first_line_with(listing@, prefix@) is None,
        },
{
    let chars = chars_of(listing);
    let pre = chars_of(prefix);
    let mut start: usize = 0;
    assert(chars@.skip(0) =~= chars@);
    while start < chars.len()
        invariant
            start <= chars.len(),
            chars@ == listing@,
            pre@ == prefix@,
            first_line_with(listing@, prefix@) == first_line_with(chars@.skip(start as int), pre@),
        decreases chars.len() - start,
    {
        let ghost rest = chars@.skip(start as int);
        let mut end: usize = start;
        assert(rest.skip(0) =~= rest);
        while end < chars.len() && chars[end] != '\n'
            invariant
                start <= end <= chars.len(),
                rest == chars@.skip(start as int),
                first_index_of(rest, '\n') == (end - start) + first_index_of(
                    rest.skip(end - start),
                    '\n',
                ),
            decreases chars.len() - end,
        {
            assert(rest.skip(end - start)[0] == chars@[end as int]);
            assert(rest.skip(end - start).drop_first() =~= rest.skip(end - start + 1));
            end += 1;
        }
        proof {
            if end < chars.len() {
                assert(rest.skip(end - start)[0] == '\n');
            } else {
                assert(rest.skip(end - start).len() == 0);
            }
            assert(first_index_of(rest, '\n') == end - start);
        }
        let ghost line = rest.subrange(0, end - start);
        assert(line =~= chars@.subrange(start as int, end as int));
        if pre.len() <= end - start && crate::text::matches_at(&chars, &pre, start) {
            assert(line.subrange(0, pre@.len() as int) =~= chars@.subrange(
                start as int,
                start + pre@.len(),
            ));
            return Some(string_of_range(&chars, start, end));
        }
        proof {
            if starts_with(line, pre@) {
                assert(line.subrange(0, pre@.len() as int) =~= chars@.subrange(
                    start as int,
                    start + pre@.len(),
                ));
            }
        }
        if end < chars.len() {
            assert(rest.subrange(end - start + 1, rest.len() as int) =~= chars@.skip(end + 1));
            start = end + 1;
        } else {
            return None;
        }
    }
    assert(chars@.skip(start as int).len() == 0);
    None
}

} // verus!
