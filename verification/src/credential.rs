//! Credentials and the word list they are read from.
//!
//! A line of the word list holds a user name, a `:` and a password. A line
//! without a `:` makes the whole list invalid: nothing is probed with a list
//! of which one line cannot be read.

use vstd::prelude::*;
use vstd::string::*;

verus! {

/// A user name and a password to try.
#[derive(Debug)]
pub struct Credential {
    pub username: String,
    pub password: String,
}

/// What a `Credential` stands for.
pub struct CredentialView {
    pub username: Seq<char>,
    pub password: Seq<char>,
}

impl View for Credential {
    type V = CredentialView;

    open spec fn view(&self) -> CredentialView {
        CredentialView { username: self.username@, password: self.password@ }
    }
}

impl DeepView for Credential {
    type V = CredentialView;

    open spec fn deep_view(&self) -> CredentialView {
        self@
    }
}

impl Clone for Credential {
    fn clone(&self) -> (copy: Self)
        ensures
            copy == *self,
    {
        Credential { username: self.username.clone(), password: self.password.clone() }
    }
}

/// Why a run cannot start.
#[derive(Debug, PartialEq, Eq)]
pub enum ConfigError {
    /// The line of the word list with this number, counted from 0, holds no `:`.
    MalformedCredential { line: usize },
}

/// Whether the line holds a `:` at all.
pub open spec fn has_separator(line: Seq<char>) -> bool {
    line.contains(':')
}

/// Where the field that starts at `from` ends: at the first `:` at or after
/// `from`, or at the end of the line if there is none.
pub open spec fn field_end(line: Seq<char>, from: int) -> int
    decreases line.len() - from,
{
    if from >= line.len() {
        line.len() as int
    } else if line[from] == ':' {
        from
    } else {
        field_end(line, from + 1)
    }
}

/// The credential that a line with a `:` holds: the user name is what stands
/// before the first `:`, the password what stands between it and the next
/// `:`, or the end of the line.
pub open spec fn credential_of(line: Seq<char>) -> CredentialView {
    let first = field_end(line, 0);
    let second = field_end(line, first + 1);
    CredentialView {
        username: line.subrange(0, first),
        password: line.subrange(first + 1, second),
    }
}

/// `field_end` is the least place of a `:` from `from` on, and the length of
/// the line exactly when there is no such place.
pub proof fn lemma_field_end(line: Seq<char>, from: int)
    requires
        0 <= from <= line.len(),
    ensures
        from <= field_end(line, from) <= line.len(),
        forall|i: int| from <= i < field_end(line, from) ==> line[i] != ':',
        field_end(line, from) < line.len() ==> line[field_end(line, from)] == ':',
    decreases line.len() - from,
{
    if from < line.len() && line[from] != ':' {
        lemma_field_end(line, from + 1);
    }
}

/// A line has a `:` exactly when its first field ends before the line does.
pub proof fn lemma_separator_found(line: Seq<char>)
    ensures
        has_separator(line) <==> field_end(line, 0) < line.len(),
{
    lemma_field_end(line, 0);
    if has_separator(line) {
        let i = choose|i: int| 0 <= i < line.len() && line[i] == ':';
        assert(!(i < field_end(line, 0)));
    }
    if field_end(line, 0) < line.len() {
        assert(line[field_end(line, 0)] == ':');
    }
}

/// Finds the end of the field that starts at `from`.
fn scan_field(line: &str, len: usize, from: usize) -> (end: usize)
    requires
        len == line@.len(),
        from <= len,
    ensures
        end == field_end(line@, from as int),
        from <= end <= len,
{
    let mut i: usize = from;
    while i < len
        invariant
            from <= i <= len,
            len == line@.len(),
            field_end(line@, i as int) == field_end(line@, from as int),
        decreases len - i,
    {
        if line.get_char(i) == ':' {
            return i;
        }
        i += 1;
    }
    i
}

impl Credential {
    /// Reads one line of a word list. A line without a `:` gives nothing.
    pub fn parse(line: &str) -> (parsed: Option<Credential>)
        ensures
            parsed is Some <==> has_separator(line@),
            parsed matches Some(credential) ==> credential@ == credential_of(line@),
    {
        let len = line.unicode_len();
        let first = scan_field(line, len, 0);
        proof {
            lemma_separator_found(line@);
        }
        if first == len {
            return None;
        }
        let second = scan_field(line, len, first + 1);
        let username = String::from_str(line.substring_char(0, first));
        let password = String::from_str(line.substring_char(first + 1, second));
        Some(Credential { username, password })
    }
}

/// The credentials of a word list whose lines all hold a `:`, line by line.
pub open spec fn credentials_of(lines: Seq<Seq<char>>) -> Seq<CredentialView> {
    Seq::new(lines.len(), |i: int| credential_of(lines[i]))
}

/// Reads a word list. It is read whole or not at all: the first line without
/// a `:` is reported, and no credential is handed out.
pub fn parse_wordlist(lines: &Vec<String>) -> (parsed: Result<Vec<Credential>, ConfigError>)
    ensures
        match parsed {
            Ok(credentials) => {
                &&& forall|i: int| 0 <= i < lines.len() ==> has_separator(#[trigger] lines[i]@)
                &&& credentials.deep_view() == credentials_of(lines.deep_view())
            },
            Err(ConfigError::MalformedCredential { line }) => {
                &&& line < lines.len()
                &&& !has_separator(lines[line as int]@)
                &&& forall|i: int| 0 <= i < line ==> has_separator(#[trigger] lines[i]@)
            },
        },
{
    let mut credentials: Vec<Credential> = Vec::new();
    let mut i: usize = 0;
    while i < lines.len()
        invariant
            i <= lines.len(),
            credentials.len() == i,
            forall|k: int| 0 <= k < i ==> has_separator(#[trigger] lines[k]@),
            forall|k: int| 0 <= k < i ==> (#[trigger] credentials[k])@ == credential_of(lines[k]@),
        decreases lines.len() - i,
    {
        match Credential::parse(lines[i].as_str()) {
            Some(credential) => {
                credentials.push(credential);
            },
            None => {
                return Err(ConfigError::MalformedCredential { line: i });
            },
        }
        i += 1;
    }
    proof {
        assert(credentials.deep_view() =~= credentials_of(lines.deep_view()));
    }
    Ok(credentials)
}

} // verus!
