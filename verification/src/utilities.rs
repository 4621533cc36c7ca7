//! Errors reported to the users of the service, and small helpers.

use crate::text::{contains_text, occurs_in};
use vstd::prelude::*;

verus! {

#[verifier::external_type_specification]
#[verifier::external_body]
pub struct ExAnyhowError(anyhow::Error);

/// Errors reported to the users of the service.
#[derive(Debug)]
pub enum RangerError {
    ActixMailBoxError,
    DatabaseConflict,
    DatabaseRecordNotFound,
    DatabaseUnexpected,
    PackageCheckFailed(String),
    DeputyQueryFailed,
}

/// Part of the database's message when a foreign key constraint fails.
pub const FOREIGN_KEY_CONSTRAINT_FAILS: &'static str = "a foreign key constraint fails";

/// Part of the database's message when no record was found.
pub const RECORD_NOT_FOUND: &'static str = "Record not found";

/// Part of the database's message when a unique key is taken.
pub const DUPLICATE_ENTRY: &'static str = "Duplicate entry";

/// Part of the package registry's message when a package fails its check.
pub const PACKAGE_CHECK_FAILED: &'static str = "Package check failed";

/// The text of an `anyhow::Error` as its `Display` writes it: the message of
/// the outermost error, without its causes.
pub uninterp spec fn anyhow_text(err: anyhow::Error) -> Seq<char>;

/// The text of an error, as its `Display` writes it (`format!("{err}")`).
#[verifier::external_body]
pub(crate) fn error_text(err: &anyhow::Error) -> (text: String)
    ensures
        text@ == anyhow_text(*err),
{
    format!("{err}")
}

/// The text std's `Debug` formatting writes for a string (`format!("{:?}", s)`):
/// the string between double quotes, with quotes, backslashes and characters
/// that do not print escaped. A function of the string alone.
pub uninterp spec fn debug_quoted(s: Seq<char>) -> Seq<char>;

/// An error whose message is the quoted text of `message` (its `Debug` form),
/// made with `anyhow::Error::msg`, whose `Display` writes that message.
#[verifier::external_body]
fn quoted_message_error(message: &str) -> (err: anyhow::Error)
    ensures
        anyhow_text(err) == debug_quoted(message@),
{
    anyhow::Error::msg(format!("{:?}", message))
}

/// The error a database failure is reported as, judged from its message.
pub open spec fn database_error_kind(message: Seq<char>) -> RangerError {
    if occurs_in(FOREIGN_KEY_CONSTRAINT_FAILS@, message) {
        RangerError::DatabaseConflict
    } else if occurs_in(RECORD_NOT_FOUND@, message) {
        RangerError::DatabaseRecordNotFound
    } else if occurs_in(DUPLICATE_ENTRY@, message) {
        RangerError::DatabaseConflict
    } else {
        RangerError::DatabaseUnexpected
    }
}

/// Reports a database failure: a conflict when a foreign key constraint fails
/// or a key is taken, a missing record when none was found, else an unexpected failure.
pub fn classify_database_error(message: &str) -> (r: RangerError)
    ensures
        r == database_error_kind(message@),
{
    if contains_text(message, FOREIGN_KEY_CONSTRAINT_FAILS) {
        RangerError::DatabaseConflict
    } else if contains_text(message, RECORD_NOT_FOUND) {
        RangerError::DatabaseRecordNotFound
    } else if contains_text(message, DUPLICATE_ENTRY) {
        RangerError::DatabaseConflict
    } else {
        RangerError::DatabaseUnexpected
    }
}

/// The handler that reports the database failures of an action: what it
/// reports follows `classify_database_error` on the error's text.
pub fn create_database_error_handler(action_name: &str) -> (handler: impl Fn(anyhow::Error) -> RangerError)
    ensures
        forall|err: anyhow::Error| #[trigger] handler.requires((err,)),
        forall|err: anyhow::Error, r: RangerError|
            #[trigger] handler.ensures((err,), r) ==> r == database_error_kind(anyhow_text(err)),
{
    |err: anyhow::Error| -> (r: RangerError)
        ensures
            r == database_error_kind(anyhow_text(err)),
        {
            let text = error_text(&err);
            classify_database_error(text.as_str())
        }
}

/// The error a failure of the package registry is reported as: a failed
/// package check names the package; anything else is a failed query.
pub open spec fn package_error_kind(message: Seq<char>, package_name: String) -> RangerError {
    if occurs_in(PACKAGE_CHECK_FAILED@, message) {
        RangerError::PackageCheckFailed(package_name)
    } else {
        RangerError::DeputyQueryFailed
    }
}

pub fn classify_package_error(message: &str, package_name: &String) -> (r: RangerError)
    ensures
        r == package_error_kind(message@, *package_name),
{
    if contains_text(message, PACKAGE_CHECK_FAILED) {
        RangerError::PackageCheckFailed(package_name.clone())
    } else {
        RangerError::DeputyQueryFailed
    }
}

/// The handler that reports the failures of the package registry for a package.
/// What it reports follows `classify_package_error` on the error's text.
pub fn create_package_error_handler(action_name: String, package_name: String) -> (handler: impl Fn(
    anyhow::Error,
) -> RangerError)
    ensures
        forall|err: anyhow::Error| #[trigger] handler.requires((err,)),
        forall|err: anyhow::Error, r: RangerError|
            #[trigger] handler.ensures((err,), r) ==> r == package_error_kind(anyhow_text(err), package_name),
{
    move |err: anyhow::Error| -> (r: RangerError)
        ensures
            r == package_error_kind(anyhow_text(err), package_name),
        {
            let text = error_text(&err);
            classify_package_error(text.as_str(), &package_name)
        }
}

#[verifier::external_type_specification]
#[verifier::external_body]
pub struct ExMailboxError(actix::MailboxError);

/// The handler that reports that an actor's mailbox failed.
pub fn create_mailbox_error_handler(actor_name: &str) -> (handler: impl Fn(actix::MailboxError) -> RangerError)
    ensures
        forall|err: actix::MailboxError| #[trigger] handler.requires((err,)),
        forall|err: actix::MailboxError, r: RangerError| #[trigger]
            handler.ensures((err,), r) ==> r == RangerError::ActixMailBoxError,
{
    |err: actix::MailboxError| -> (r: RangerError)
        ensures
            r == RangerError::ActixMailBoxError,
        { RangerError::ActixMailBoxError }
}

/// The value of an option, or an error with the quoted message when there is none.
pub fn try_some<T>(item: Option<T>, error_message: &str) -> (r: Result<T, anyhow::Error>)
    ensures
        item is Some ==> (r matches Ok(v) && v == item->0),
        item is None ==> (r matches Err(e) && anyhow_text(e) == debug_quoted(error_message@)),
{
    match item {
        Some(v) => Ok(v),
        None => Err(quoted_message_error(error_message)),
    }
}

/// The index of the last occurrence of a character, or -1.
pub open spec fn last_index_of(s: Seq<char>, c: char) -> int
    decreases s.len(),
{
    if s.len() == 0 {
        -1
    } else if s.last() == c {
        s.len() - 1
    } else {
        last_index_of(s.drop_last(), c)
    }
}

/// The last component of a path written with `/` that is neither empty nor `.`.
pub open spec fn last_component(path: Seq<char>) -> Option<Seq<char>>
    decreases path.len(),
{
    let k = last_index_of(path, '/');
    let segment = path.subrange(k + 1, path.len() as int);
    if segment.len() > 0 && segment != seq!['.'] {
        Some(segment)
    } else if k < 0 {
        None
    } else {
        proof {
            lemma_last_index_bounds(path, '/');
        }
        last_component(path.subrange(0, k))
    }
}

/// The extension of a file name: what follows its last `.`, when that dot is
/// not the name's first character.
pub open spec fn name_extension(name: Seq<char>) -> Option<Seq<char>> {
    let d = last_index_of(name, '.');
    if d <= 0 {
        None
    } else {
        Some(name.subrange(d + 1, name.len() as int))
    }
}

/// The extension of the file a path names (`std::path::Path::extension`): the
/// path's file name is its last component unless that is `..`.
pub open spec fn path_extension(path: Seq<char>) -> Option<Seq<char>> {
    match last_component(path) {
        None => None,
        Some(name) => if name == seq!['.', '.'] {
            None
        } else {
            name_extension(name)
        },
    }
}

pub proof fn lemma_last_index_bounds(s: Seq<char>, c: char)
    ensures
        -1 <= last_index_of(s, c) < s.len(),
        last_index_of(s, c) >= 0 ==> s[last_index_of(s, c)] == c,
        forall|i: int| last_index_of(s, c) < i < s.len() ==> s[i] != c,
    decreases s.len(),
{
    if s.len() > 0 && s.last() != c {
        lemma_last_index_bounds(s.drop_last(), c);
        assert forall|i: int| last_index_of(s, c) < i < s.len() implies s[i] != c by {
            if i < s.len() - 1 {
                assert(s.drop_last()[i] == s[i]);
            }
        }
    }
}

/// The index of the last `c` among the first `end` characters, if there is one.
fn find_last(chars: &Vec<char>, end: usize, c: char) -> (r: Option<usize>)
    requires
        end <= chars@.len(),
    ensures
        match r {
            Some(i) => i == last_index_of(chars@.subrange(0, end as int), c),
            None => last_index_of(chars@.subrange(0, end as int), c) == -1,
        },
{
    let mut i: usize = end;
    proof {
        assert(chars@.subrange(0, end as int).subrange(0, i as int) =~= chars@.subrange(0, end as int));
    }
    while i > 0
        invariant
            i <= end <= chars@.len(),
            last_index_of(chars@.subrange(0, end as int), c) == last_index_of(chars@.subrange(0, i as int), c),
        decreases i,
    {
        proof {
            assert(chars@.subrange(0, i as int).drop_last() =~= chars@.subrange(0, i - 1));
        }
        if chars[i - 1] == c {
            return Some(i - 1);
        }
        i = i - 1;
    }
    None
}

fn is_single_dot(chars: &Vec<char>, start: usize, end: usize) -> (b: bool)
    requires
        start <= end <= chars@.len(),
    ensures
        b == (chars@.subrange(start as int, end as int) == seq!['.']),
{
    if end - start == 1 && chars[start] == '.' {
        proof {
            assert(chars@.subrange(start as int, end as int) =~= seq!['.']);
        }
        true
    } else {
        proof {
            let dot = seq!['.'];
            assert(dot.len() == 1 && dot[0] == '.');
            if end - start == 1 {
                assert(chars@.subrange(start as int, end as int)[0] != dot[0]);
            } else {
                assert(chars@.subrange(start as int, end as int).len() != dot.len());
            }
        }
        false
    }
}

/// The extension of the file a path names, as `std::path::Path::extension` finds
/// it on a path with `/` separators: none when the path names no file, when the
/// file name has no dot, or when its only dot comes first.
pub fn get_file_extension(filename: &str) -> (r: Option<&str>)
    ensures
        match r {
            Some(e) => path_extension(filename@) == Some(e@),
            None => path_extension(filename@) is None,
        },
{
    let chars = crate::text::chars_of(filename);
    let mut end: usize = chars.len();
    proof {
        assert(chars@.subrange(0, end as int) =~= filename@);
    }
    loop
        invariant
            chars@ == filename@,
            end <= chars@.len(),
            last_component(filename@) == last_component(chars@.subrange(0, end as int)),
        decreases end,
    {
        let ghost prefix = chars@.subrange(0, end as int);
        let k = find_last(&chars, end, '/');
        proof {
            lemma_last_index_bounds(prefix, '/');
        }
        let start: usize = match k {
            Some(slash) => slash + 1,
            None => 0,
        };
        proof {
            assert(start == last_index_of(prefix, '/') + 1);
            assert(prefix.subrange(start as int, prefix.len() as int) =~= chars@.subrange(start as int, end as int));
        }
        if end > start && !is_single_dot(&chars, start, end) {
            // the file name is chars[start..end]
            if end - start == 2 && chars[start] == '.' && chars[start + 1] == '.' {
                proof {
                    assert(chars@.subrange(start as int, end as int) =~= seq!['.', '.']);
                }
                return None;
            }
            proof {
                if chars@.subrange(start as int, end as int) == seq!['.', '.'] {
                    assert(chars@.subrange(start as int, end as int)[0] == '.');
                    assert(chars@.subrange(start as int, end as int)[1] == '.');
                }
            }
            let d = find_last(&chars, end, '.');
            let ghost name = chars@.subrange(start as int, end as int);
            proof {
                lemma_last_index_bounds(prefix, '.');
                lemma_last_index_bounds(name, '.');
                assert forall|i: int| start <= i < end implies chars@[i] != '/' by {
                    assert(prefix[i] == chars@[i]);
                }
                lemma_last_index_relative(chars@, start as int, end as int, '.');
            }
            let dot: usize = match d {
                Some(dot) if dot > start => dot,
                _ => {
                    return None;
                },
            };
            let ext = filename.substring_char(dot + 1, end);
            proof {
                assert(ext@ =~= name.subrange(last_index_of(name, '.') + 1, name.len() as int));
            }
            return Some(ext);
        }
        let slash = match k {
            Some(slash) => slash,
            None => {
                return None;
            },
        };
        proof {
            assert(prefix.subrange(0, slash as int) =~= chars@.subrange(0, slash as int));
        }
        end = slash;
    }
}

/// Where the last dot of a segment lies, seen from the whole prefix.
proof fn lemma_last_index_relative(s: Seq<char>, start: int, end: int, c: char)
    requires
        0 <= start <= end <= s.len(),
        forall|i: int| start <= i < end ==> s[i] != '/',
    ensures
        ({
            let whole = last_index_of(s.subrange(0, end), c);
            let part = last_index_of(s.subrange(start, end), c);
            (whole > start ==> part == whole - start) && (whole <= start ==> part <= 0)
        }),
    decreases end - start,
{
    let prefix = s.subrange(0, end);
    let seg = s.subrange(start, end);
    lemma_last_index_bounds(prefix, c);
    lemma_last_index_bounds(seg, c);
    if end > start {
        if s[end - 1] == c {
            assert(prefix.last() == c);
            assert(seg.last() == c);
        } else {
            assert(prefix.drop_last() =~= s.subrange(0, end - 1));
            assert(seg.drop_last() =~= s.subrange(start, end - 1));
            lemma_last_index_relative(s, start, end - 1, c);
        }
    }
}

} // verus!
