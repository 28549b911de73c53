//! The lines of the password file: a site, a colon and a space, and the
//! stored record of the site's password.

use vstd::prelude::*;
use vstd::string::{StrSliceExecFns, StringExecFns};
use crate::armor::{is_base64_char, printable};
use crate::block_mode::KEY_LEN;
use crate::crypto::{
    decrypt_password, encrypt_password, fits, opened_text, outcome_view, sealed, IV_LEN,
};
use crate::error::{DecodeError, EncodeError};

verus! {

/// Whether the separator, a colon and then a space, stands at `at` in `line`.
pub open spec fn separator_at(line: Seq<char>, at: int) -> bool {
    0 <= at && at + 1 < line.len() && line[at] == ':' && line[at + 1] == ' '
}

/// Whether `text` holds the separator anywhere.
pub open spec fn holds_separator(text: Seq<char>) -> bool {
    exists|at: int| separator_at(text, at)
}

/// Whether `line` splits in two at `at`: the separator stands there and
/// nowhere else.
pub open spec fn splits_at(line: Seq<char>, at: int) -> bool {
    separator_at(line, at) && forall|other: int| separator_at(line, other) ==> other == at
}

/// The site and the record of a line, or `None` for a line that holds no
/// separator, or more than one.
pub open spec fn parsed(line: Seq<char>) -> Option<(Seq<char>, Seq<char>)> {
    if exists|at: int| splits_at(line, at) {
        let at = choose|at: int| splits_at(line, at);
        Some((line.take(at), line.skip(at + 2)))
    } else {
        None
    }
}

/// An entry without its line end: the site, the separator, the record.
pub open spec fn entry_text(site: Seq<char>, record: Seq<char>) -> Seq<char> {
    site + seq![':', ' '] + record
}

/// An entry as it is appended to the file, line end included.
pub open spec fn entry_line(site: Seq<char>, record: Seq<char>) -> Seq<char> {
    entry_text(site, record) + seq!['\n']
}

/// The two parts of a line, each taken as a sequence of characters.
pub open spec fn parts_view(parts: Option<(&str, &str)>) -> Option<(Seq<char>, Seq<char>)> {
    match parts {
        Some((site, record)) => Some((site@, record@)),
        None => None,
    }
}

/// What looking up a line under `key` gives: nothing for a line that is no
/// entry, else the site and what opening its record gives.
pub open spec fn looked_up(key: Seq<u8>, line: Seq<char>) -> Option<
    (Seq<char>, Result<Seq<char>, DecodeError>),
> {
    match parsed(line) {
        None => None,
        Some((site, record)) => Some((site, opened_text(key, record))),
    }
}

/// What was found, each text taken as a sequence of characters.
pub open spec fn lookup_view(found: Option<(&str, Result<String, DecodeError>)>) -> Option<
    (Seq<char>, Result<Seq<char>, DecodeError>),
> {
    match found {
        None => None,
        Some((site, outcome)) => Some((site@, outcome_view(outcome))),
    }
}

/// Writes the line that stores `record` for `site`.
pub fn format_entry(site: &str, record: &str) -> (line: String)
    ensures
        line@ == entry_line(site@, record@),
{
    proof {
        reveal_strlit(": ");
        reveal_strlit("\n");
    }
    let mut line = site.to_owned();
    line.append(": ");
    line.append(record);
    line.append("\n");
    line
}

/// Splits a line, given without its line end, into site and record. A line
/// that does not hold the separator exactly once is no entry.
pub fn parse_entry<'a>(line: &'a str) -> (parts: Option<(&'a str, &'a str)>)
    ensures
        parts_view(parts) == parsed(line@),
{
    let total = line.unicode_len();
    let mut first: Option<usize> = None;
    let mut after_colon = false;
    let mut seen: usize = 0;
    for c in it: line.chars()
        invariant
            it.seq() == line@,
            total == line@.len(),
            seen == it.index(),
            after_colon <==> (seen > 0 && line@[seen - 1] == ':'),
            first matches Some(at) ==> separator_at(line@, at as int) && at + 1 < seen,
            forall|at: int| separator_at(line@, at) && at + 1 < seen ==> first == Some(at as usize),
    {
        if after_colon && c == ' ' {
            if first.is_some() {
                assert(separator_at(line@, seen - 1));
                return None;
            }
            first = Some(seen - 1);
        }
        after_colon = c == ':';
        seen = seen + 1;
    }
    match first {
        None => None,
        Some(at) => {
            assert(splits_at(line@, at as int));
            let site = line.substring_char(0, at);
            let record = line.substring_char(at + 2, total);
            Some((site, record))
        },
    }
}

/// An entry written from a site and a record, neither of which holds the
/// separator, parses back into that site and that record.
pub proof fn entry_parses_back(site: Seq<char>, record: Seq<char>)
    requires
        !holds_separator(site),
        !holds_separator(record),
    ensures
        parsed(entry_text(site, record)) == Some((site, record)),
{
    let line = entry_text(site, record);
    let at = site.len() as int;
    assert forall|other: int| separator_at(line, other) implies other == at by {
        if other + 1 < at {
            assert(separator_at(site, other));
        } else if other > at + 1 {
            assert(separator_at(record, other - at - 2));
        }
    }
    assert(splits_at(line, at));
}

/// Printable text holds no separator: neither the colon nor the space is a
/// base64 character.
pub proof fn printable_holds_no_separator(text: Seq<char>)
    requires
        printable(text),
    ensures
        !holds_separator(text),
{
    assert forall|at: int| 0 <= at < text.len() implies text[at] != ':' by {
        assert(is_base64_char(text[at]));
    }
}

/// Looks a line up, given without its line end: `None` for a line that is no
/// entry, else the site and the password that its record opens to under
/// `key`, or why the record did not open: under a key that is not 32 bytes
/// long, `InvalidKeyLength` for every entry.
pub fn read_entry<'a>(key: &[u8], line: &'a str) -> (found: Option<
    (&'a str, Result<String, DecodeError>),
>)
    ensures
        lookup_view(found) == looked_up(key@, line@),
{
    match parse_entry(line) {
        None => None,
        Some((site, record)) => Some((site, decrypt_password(key, record))),
    }
}

/// Seals `password` under `key` with a fresh IV and writes the line that
/// stores it for `site`.
///
/// A key that is not 32 bytes long is refused with `InvalidKeyLength`. Any
/// other key succeeds, and the line is the entry of the site and a record of
/// the password. Where the site holds no separator, looking that line up
/// under the same key finds the site and the password again.
///
/// The stored text must fit in a `String`; `fits_record` tests that.
pub fn seal_entry(key: &[u8], site: &str, password: &str) -> (outcome: Result<String, EncodeError>)
    requires
        key@.len() == KEY_LEN ==> fits(password@),
    ensures
        key@.len() != KEY_LEN ==> outcome == Err::<String, EncodeError>(
            EncodeError::InvalidKeyLength,
        ),
        key@.len() == KEY_LEN ==> (outcome matches Ok(line) && {
            &&& exists|iv: Seq<u8>, record: Seq<char>|
                iv.len() == IV_LEN && #[trigger] sealed(key@, iv, password@, record) && line@
                    == entry_line(site@, record)
            &&& !holds_separator(site@) ==> looked_up(key@, line@.drop_last()) == Some(
                (site@, Ok::<Seq<char>, DecodeError>(password@)),
            )
        }),
{
    match encrypt_password(key, password) {
        Err(e) => Err(e),
        Ok(record) => {
            let line = format_entry(site, record.as_str());
            proof {
                assert(line@.drop_last() =~= entry_text(site@, record@));
                if !holds_separator(site@) {
                    printable_holds_no_separator(record@);
                    entry_parses_back(site@, record@);
                }
            }
            Ok(line)
        },
    }
}

} // verus!
