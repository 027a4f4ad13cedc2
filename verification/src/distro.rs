//! What the running system calls itself.
//!
//! Every system but Linux goes by its identifier. A Linux system goes by the
//! name of its distribution, which stands in double quotes on the first line
//! of its release file, as in `NAME="Fedora Linux"`.

use vstd::prelude::*;
use crate::text::{
    find_first, find_last, first_index, last_index, lemma_first_index, lemma_first_index_is,
    lemma_last_index, lemma_last_index_is, same_text,
};

verus! {

/// The identifier of Linux, and the name of a Linux system whose release file
/// is empty or cannot be read.
pub const LINUX: &'static str = "linux";

/// Where a Linux system keeps its release file.
pub const OS_RELEASE: &'static str = "/etc/os-release";

/// What reading the release file gave.
#[derive(Clone, Debug, PartialEq, Eq)]
pub enum Release {
    /// The file could not be opened.
    Unavailable,
    /// The file was opened and reading from it failed.
    Unreadable,
    /// The text at the start of the file, up to the end of its first line or
    /// further. It is empty only where the file is.
    Text(String),
}

/// Why a Linux system has no name.
#[derive(Clone, Copy, Debug, PartialEq, Eq, Structural)]
pub enum DistroLookupError {
    /// The release file could not be opened.
    FileUnavailable,
    /// The first line of the release file holds no text between two double
    /// quotes.
    Malformed,
}

/// The first line of `text`, with the line feed that ends it. A text without a
/// line feed is one line.
pub open spec fn first_line(text: Seq<char>) -> Seq<char> {
    let end = first_index(text, '\n');
    if end < text.len() {
        text.take(end + 1)
    } else {
        text
    }
}

/// What stands between the first and the last double quote of `line`, where
/// it holds two of them.
pub open spec fn quoted(line: Seq<char>) -> Option<Seq<char>> {
    let open = first_index(line, '"');
    let close = last_index(line, '"');
    if open < close {
        Some(line.subrange(open + 1, close))
    } else {
        None
    }
}

/// The name that the text of a release file gives.
pub open spec fn named_in(text: Seq<char>) -> Result<Seq<char>, DistroLookupError> {
    if text.len() == 0 {
        Ok(LINUX@)
    } else {
        match quoted(first_line(text)) {
            Some(name) => Ok(name),
            None => Err(DistroLookupError::Malformed),
        }
    }
}

/// The name of the distribution, from what reading the release file gave.
pub open spec fn distro_name(release: Release) -> Result<Seq<char>, DistroLookupError> {
    match release {
        Release::Unavailable => Err(DistroLookupError::FileUnavailable),
        Release::Unreadable => Ok(LINUX@),
        Release::Text(text) => named_in(text@),
    }
}

/// The text of a name or the reason why there is none.
pub open spec fn text_of(name: Result<String, DistroLookupError>) -> Result<
    Seq<char>,
    DistroLookupError,
> {
    match name {
        Ok(name) => Ok(name@),
        Err(reason) => Err(reason),
    }
}

/// The first line of `text`.
fn take_first_line(text: &str) -> (line: &str)
    ensures
        line@ == first_line(text@),
{
    match find_first(text, '\n') {
        Some(end) => text.substring_char(0, end + 1),
        None => text,
    }
}

/// What `line` holds between its first and its last double quote.
fn take_quoted(line: &str) -> (inner: Option<&str>)
    ensures
        match quoted(line@) {
            Some(text) => inner matches Some(found) && found@ == text,
            None => inner is None,
        },
{
    match (find_first(line, '"'), find_last(line, '"')) {
        (Some(open), Some(close)) => {
            if open < close {
                Some(line.substring_char(open + 1, close))
            } else {
                None
            }
        },
        _ => None,
    }
}

/// The name of the distribution, from what reading the release file gave.
///
/// An empty file and a file that cannot be read give `linux`. Otherwise the
/// name is what stands between the first and the last double quote of the
/// first line. A file that cannot be opened, and a first line with fewer than
/// two double quotes, give an error.
pub fn get_distro(release: &Release) -> (name: Result<String, DistroLookupError>)
    ensures
        text_of(name) == distro_name(*release),
{
    match release {
        Release::Unavailable => Err(DistroLookupError::FileUnavailable),
        Release::Unreadable => Ok(LINUX.to_owned()),
        Release::Text(text) => {
            let text = text.as_str();
            if text.is_empty() {
                Ok(LINUX.to_owned())
            } else {
                match take_quoted(take_first_line(text)) {
                    Some(name) => Ok(name.to_owned()),
                    None => Err(DistroLookupError::Malformed),
                }
            }
        },
    }
}

/// What to do next to learn the name of the running system.
#[derive(Clone, Debug, PartialEq, Eq)]
pub enum OsStep {
    /// Read the first line of the file at this path and report what came of
    /// it.
    Read(&'static str),
    /// The system goes by this name.
    Named(String),
    /// The system is a Linux system and its release file gives no name.
    Failed(DistroLookupError),
}

/// The text of an [`OsStep`].
pub enum OsPlan {
    Read(Seq<char>),
    Named(Seq<char>),
    Failed(DistroLookupError),
}

impl View for OsStep {
    type V = OsPlan;

    open spec fn view(&self) -> OsPlan {
        match *self {
            OsStep::Read(path) => OsPlan::Read(path@),
            OsStep::Named(name) => OsPlan::Named(name@),
            OsStep::Failed(reason) => OsPlan::Failed(reason),
        }
    }
}

/// The next step towards the name of the system `os`, where `release` tells
/// what reading the release file gave, if it was read.
pub open spec fn os_name(os: Seq<char>, release: Option<&Release>) -> OsPlan {
    if os != LINUX@ {
        OsPlan::Named(os)
    } else {
        match release {
            None => OsPlan::Read(OS_RELEASE@),
            Some(release) => match distro_name(*release) {
                Ok(name) => OsPlan::Named(name),
                Err(reason) => OsPlan::Failed(reason),
            },
        }
    }
}

/// The next step towards the name of the system that identifies itself as
/// `os`.
///
/// Every system but Linux goes by its identifier, and no file is asked for.
/// For Linux the embedding program first passes no release; it is then asked
/// to read the release file, and passes what came of it.
pub fn get_os(os: &str, release: Option<&Release>) -> (step: OsStep)
    ensures
        step@ == os_name(os@, release),
        os@ != LINUX@ ==> step@ == OsPlan::Named(os@),
        step@ is Read ==> release is None,
{
    if !same_text(os, LINUX) {
        return OsStep::Named(os.to_owned());
    }
    match release {
        None => OsStep::Read(OS_RELEASE),
        Some(release) => match get_distro(release) {
            Ok(name) => OsStep::Named(name),
            Err(reason) => OsStep::Failed(reason),
        },
    }
}

/// Only the first line counts: what follows its line feed changes nothing.
pub proof fn lemma_only_first_line_counts(line: Seq<char>, rest: Seq<char>)
    requires
        line.len() > 0,
        line.last() == '\n',
        forall|j: int| 0 <= j < line.len() - 1 ==> line[j] != '\n',
    ensures
        first_line(line + rest) == line,
        named_in(line + rest) == named_in(line),
{
    lemma_first_index_is(line + rest, '\n', line.len() - 1);
    lemma_first_index_is(line, '\n', line.len() - 1);
    assert((line + rest).take(line.len() as int) =~= line);
    assert(line.take(line.len() as int) =~= line);
}

/// A line gives a name exactly when it holds two double quotes.
pub proof fn lemma_quoted_needs_two_quotes(line: Seq<char>)
    ensures
        quoted(line) is Some <==> exists|i: int, j: int|
            0 <= i < j < line.len() && line[i] == '"' && line[j] == '"',
{
    lemma_first_index(line, '"');
    lemma_last_index(line, '"');
    let open = first_index(line, '"');
    let close = last_index(line, '"');
    if open < close {
        assert(0 <= open < close < line.len() && line[open] == '"' && line[close] == '"');
    }
}

/// A release file that starts with `key`, a double quote, `name` and a double
/// quote, and ends there or goes on with a line feed, gives `name`. The name
/// may itself hold double quotes.
pub proof fn lemma_quoted_value_is_named(key: Seq<char>, name: Seq<char>, rest: Seq<char>)
    requires
        !key.contains('"'),
        !key.contains('\n'),
        !name.contains('\n'),
        rest.len() == 0 || rest[0] == '\n',
    ensures
        named_in(key + seq!['"'] + name + seq!['"'] + rest) == Ok::<Seq<char>, DistroLookupError>(
            name,
        ),
{
    let text = key + seq!['"'] + name + seq!['"'] + rest;
    let open = key.len() as int;
    let close = open + 1 + name.len();
    assert forall|j: int| 0 <= j <= close implies text[j] != '\n' by {
        if j < open {
            assert(key.contains(key[j]));
        } else if open < j < close {
            assert(name.contains(name[j - open - 1]));
        }
    }
    assert(text[open] == '"' && text[close] == '"');
    lemma_first_index_is(text, '\n', close + 1);
    let line = first_line(text);
    assert(line.len() == close + 1 || line.len() == close + 2);
    assert forall|j: int| 0 <= j < line.len() implies line[j] == text[j] by {}
    assert forall|j: int| 0 <= j < open implies line[j] != '"' by {
        assert(key.contains(key[j]));
    }
    lemma_first_index_is(line, '"', open);
    lemma_last_index_is(line, '"', close);
    assert(line.subrange(open + 1, close) =~= name);
}

} // verus!
