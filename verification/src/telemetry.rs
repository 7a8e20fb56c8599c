//! What is reported about a run: the record, and the decisions around the
//! identifier of the installation and the version of Nix.

use crate::dev_env::DetectedLanguage;
use crate::text::utf8_text;
use crate::language_set::LanguageSet;
use std::vec::Vec;
use uuid::Uuid;
use vstd::arithmetic::power::pow;
use vstd::prelude::*;
use vstd::std_specs::iter::IteratorSpec;
use vstd::utf8::{decode_utf8, valid_utf8};

verus! {

/// The name of the header that carries the report.
pub const TELEMETRY_HEADER_NAME: &'static str = "X-RIFF-Client-Info";

/// What the file of the identifier says below the identifier.
pub const TELEMETRY_IDENTIFIER_DESCRIPTION: &'static str =
    "This is a randomly generated version 4 UUID.
Determinate Systems uses this ID to know how many people use the tool and to focus our limited research and development.
This ID is completely random and contains no personally identifiable information about you.
You can delete this file at any time to create a new ID.
You can also disable ID generation; see the documentation on telemetry to see how to do so.";

/// What stands in a report in place of the identifier.
pub const REDACTED: &'static str = "<redacted>";

/// The command that was given.
#[derive(Debug, Clone, Copy, PartialEq, Eq, Structural)]
pub enum Commands {
    Shell,
    Run,
    PrintDevEnv,
}

/// What was gathered about the system and the run.
#[derive(Debug, Clone)]
pub struct SystemFacts {
    pub distinct_id: Option<u128>,
    pub system_os: String,
    pub system_arch: String,
    pub os_release_name: Option<String>,
    pub os_release_version_id: Option<String>,
    pub riff_version: String,
    pub nix_version: Option<String>,
    pub is_tty: bool,
    pub in_ci: bool,
}

/// The report about a run.
#[derive(Debug, Clone)]
pub struct Telemetry {
    /// The identifier of the installation, as the 128 bits of a UUID.
    pub distinct_id: Option<u128>,
    pub system_os: String,
    pub system_arch: String,
    pub os_release_name: Option<String>,
    pub os_release_version_id: Option<String>,
    pub riff_version: String,
    pub nix_version: Option<String>,
    pub is_tty: bool,
    /// The command that was given, by its name.
    pub subcommand: Option<String>,
    pub detected_languages: LanguageSet,
    pub in_ci: bool,
}

/// How a run of `nix --version` ended.
#[derive(Debug, Clone, PartialEq, Eq)]
pub enum NixOutcome {
    /// It ran to its end; `stdout` is what it wrote.
    Exited { success: bool, stdout: Vec<u8> },
    /// It could not be started for want of permission.
    PermissionDenied,
    /// It could not be started for another reason.
    NotStarted { reason: String },
}

/// Why the version of Nix is not known.
#[derive(Debug, Clone, PartialEq, Eq)]
pub enum NixVersionError {
    /// `nix --version` ran and failed.
    Failed,
    /// What it wrote is not UTF-8.
    NotUtf8,
    /// It could not be started.
    NotStarted { reason: String },
}

/// The name of a command.
pub open spec fn subcommand_text(command: Commands) -> Seq<char> {
    match command {
        Commands::Shell => "shell"@,
        Commands::Run => "run"@,
        Commands::PrintDevEnv => "print-dev-env"@,
    }
}

/// A hexadecimal digit in lower case.
pub open spec fn hex_digit(digit: int) -> char {
    if digit < 10 {
        (48 + digit) as char
    } else {
        (87 + digit) as char
    }
}

/// The hexadecimal digit of 128 bits at a position, counted from the
/// most significant one.
pub open spec fn uuid_digit(id: u128, position: int) -> int {
    (id as int / pow(16, (31 - position) as nat)) % 16
}

/// How many hyphens stand before a position of a UUID's text.
pub open spec fn hyphens_before(position: int) -> int {
    if position < 8 {
        0
    } else if position < 13 {
        1
    } else if position < 18 {
        2
    } else if position < 23 {
        3
    } else {
        4
    }
}

/// The text of a UUID: its 32 hexadecimal digits in lower case, in groups
/// of 8, 4, 4, 4 and 12 with hyphens between them.
pub open spec fn uuid_text(id: u128) -> Seq<char> {
    Seq::new(
        36,
        |i: int|
            if i == 8 || i == 13 || i == 18 || i == 23 {
                '-'
            } else {
                hex_digit(uuid_digit(id, i - hyphens_before(i)))
            },
    )
}

/// The UUID that `Uuid::parse_str` reads from a text, as its 128 bits, if
/// it reads one.
pub uninterp spec fn uuid_from_text(text: Seq<char>) -> Option<u128>;

/// What `str::trim` leaves of a text.
pub uninterp spec fn trimmed(text: Seq<char>) -> Seq<char>;

/// A text in which each occurrence of a pattern, found from left to right
/// and not overlapping an earlier one, is replaced.
pub open spec fn replaced(text: Seq<char>, from: Seq<char>, to: Seq<char>) -> Seq<char>
    decreases text.len(),
{
    if from.len() == 0 || text.len() < from.len() {
        text
    } else if text.take(from.len() as int) == from {
        to + replaced(text.skip(from.len() as int), from, to)
    } else {
        seq![text[0]] + replaced(text.skip(1), from, to)
    }
}

/// Where the first line of a text ends: at its first line feed, or at the
/// end of the text.
pub open spec fn line_end(text: Seq<char>) -> int
    decreases text.len(),
{
    if text.len() == 0 {
        0
    } else if text[0] == '\n' {
        0
    } else {
        1 + line_end(text.drop_first())
    }
}

/// What of the identifier's file is read as the identifier: the first
/// line without the white space around it, or all of a file that has no
/// line feed.
pub open spec fn distinct_id_candidate(contents: Seq<char>) -> Seq<char> {
    if line_end(contents) < contents.len() {
        trimmed(contents.take(line_end(contents)))
    } else {
        contents
    }
}

/// What the file of a new identifier holds.
pub open spec fn distinct_id_file_text(id: u128) -> Seq<char> {
    uuid_text(id) + "\n\n"@ + TELEMETRY_IDENTIFIER_DESCRIPTION@
}

/// `Uuid::parse_str`, with the UUID handed out as its 128 bits
/// (`Uuid::as_u128`). It accepts the formats that the crate writes; the
/// contract only gives what it reads a name.
#[verifier::external_body]
fn parse_uuid(text: &str) -> (id: Option<u128>)
    ensures
        id == uuid_from_text(text@),
{
    match Uuid::parse_str(text) {
        Ok(uuid) => Some(uuid.as_u128()),
        Err(_) => None,
    }
}

/// The `to_string` of the `Uuid` made of 128 bits (`Uuid::from_u128`):
/// hyphenated, in lower case.
#[verifier::external_body]
fn uuid_string(id: u128) -> (text: String)
    ensures
        text@ == uuid_text(id),
{
    Uuid::from_u128(id).to_string()
}

/// `str::trim`. The contract only gives what it leaves a name.
#[verifier::external_body]
fn trim(text: &str) -> (rest: &str)
    ensures
        rest@ == trimmed(text@),
{
    text.trim()
}

/// `str::replace` with a pattern that is not empty: every match of the
/// pattern, as a search from left to right finds them, replaced.
#[verifier::external_body]
fn replace(text: &str, from: &str, to: &str) -> (out: String)
    requires
        from@.len() > 0,
    ensures
        out@ == replaced(text@, from@, to@),
{
    text.replace(from, to)
}

/// The end of the first line is the first position that holds a line
/// feed, or the end of a text that holds none.
proof fn lemma_line_end(text: Seq<char>, k: int)
    requires
        0 <= k <= text.len(),
        forall|j: int| 0 <= j < k ==> text[j] != '\n',
        k < text.len() ==> text[k] == '\n',
    ensures
        line_end(text) == k,
    decreases text.len(),
{
    if k > 0 {
        let rest = text.drop_first();
        assert forall|j: int| 0 <= j < k - 1 implies rest[j] != '\n' by {
            assert(rest[j] == text[j + 1]);
        }
        lemma_line_end(rest, k - 1);
    }
}

/// The name of a command.
pub fn subcommand_name(command: Commands) -> (name: String)
    ensures
        name@ == subcommand_text(command),
{
    match command {
        Commands::Shell => "shell".to_string(),
        Commands::Run => "run".to_string(),
        Commands::PrintDevEnv => "print-dev-env".to_string(),
    }
}

/// The first line of a text that has a line feed, without the line
/// feed; nothing for a text that has none.
pub fn first_line(contents: &str) -> (line: Option<&str>)
    ensures
        match line {
            Some(l) => line_end(contents@) < contents@.len() && l@ == contents@.take(
                line_end(contents@),
            ),
            None => line_end(contents@) == contents@.len(),
        },
{
    let n = contents.unicode_len();
    let mut rest = contents.chars();
    let mut end: usize = 0;
    let mut found = false;
    proof {
        assert(contents@.skip(0) =~= contents@);
    }
    while end < n && !found
        invariant
            end <= n,
            n == contents@.len(),
            rest.obeys_prophetic_iter_laws(),
            !found ==> rest.remaining() == contents@.skip(end as int),
            forall|j: int| 0 <= j < end ==> contents@[j] != '\n',
            found ==> end < n && contents@[end as int] == '\n',
        decreases n - end + (if found { 0int } else { 1int }),
    {
        let next = rest.next();
        proof {
            assert(contents@.skip(end as int).drop_first() =~= contents@.skip(end + 1));
        }
        match next {
            Some(c) => {
                if c == '\n' {
                    found = true;
                } else {
                    end = end + 1;
                }
            },
            None => {
                assert(false);
            },
        }
    }
    proof {
        lemma_line_end(contents@, end as int);
    }
    if found {
        let line = contents.substring_char(0, end);
        proof {
            assert(contents@.subrange(0, end as int) =~= contents@.take(end as int));
        }
        Some(line)
    } else {
        None
    }
}

/// Reads the identifier that the identifier's file holds, if it holds
/// one: from the first line without the white space around it, or from
/// all of a file that has no line feed. Where it holds none, a new one is
/// due.
pub fn stored_distinct_id(contents: &str) -> (id: Option<u128>)
    ensures
        id == uuid_from_text(distinct_id_candidate(contents@)),
{
    match first_line(contents) {
        Some(line) => parse_uuid(trim(line)),
        None => parse_uuid(contents),
    }
}

/// Writes what the file of a new identifier holds: the identifier, an
/// empty line, and the description.
pub fn distinct_id_file(id: u128) -> (contents: String)
    ensures
        contents@ == distinct_id_file_text(id),
{
    let mut contents = uuid_string(id);
    contents.append("\n\n");
    contents.append(TELEMETRY_IDENTIFIER_DESCRIPTION);
    contents
}

/// Reads the version of Nix from how `nix --version` ended: what it
/// wrote, trimmed, where it succeeded; no version, and no failure, where
/// it could not be started for want of permission.
pub fn nix_version(outcome: NixOutcome) -> (r: Result<Option<String>, NixVersionError>)
    ensures
        match outcome {
            NixOutcome::Exited { success, stdout } => if !success {
                r == Err::<Option<String>, NixVersionError>(NixVersionError::Failed)
            } else if !valid_utf8(stdout@) {
                r == Err::<Option<String>, NixVersionError>(NixVersionError::NotUtf8)
            } else {
                r is Ok && r->Ok_0 is Some && r->Ok_0->Some_0@ == trimmed(decode_utf8(stdout@))
            },
            NixOutcome::PermissionDenied => r == Ok::<Option<String>, NixVersionError>(None),
            NixOutcome::NotStarted { reason } => r == Err::<Option<String>, NixVersionError>(
                NixVersionError::NotStarted { reason },
            ),
        },
{
    match outcome {
        NixOutcome::Exited { success, stdout } => {
            if !success {
                Err(NixVersionError::Failed)
            } else {
                match utf8_text(stdout.as_slice()) {
                    Some(text) => {
                        proof {
                            vstd::utf8::encode_utf8_decode_utf8(text@);
                        }
                        Ok(Some(trim(text).to_string()))
                    },
                    None => Err(NixVersionError::NotUtf8),
                }
            }
        },
        NixOutcome::PermissionDenied => Ok(None),
        NixOutcome::NotStarted { reason } => Err(NixVersionError::NotStarted { reason }),
    }
}

impl Telemetry {
    /// The report of a run with the command that was given and what was
    /// gathered; no language is detected yet.
    pub fn from_clap_parse_result(command: Option<Commands>, facts: SystemFacts) -> (t: Self)
        ensures
            t.distinct_id == facts.distinct_id,
            t.system_os == facts.system_os,
            t.system_arch == facts.system_arch,
            t.os_release_name == facts.os_release_name,
            t.os_release_version_id == facts.os_release_version_id,
            t.riff_version == facts.riff_version,
            t.nix_version == facts.nix_version,
            t.is_tty == facts.is_tty,
            t.in_ci == facts.in_ci,
            t.detected_languages@ == Set::<DetectedLanguage>::empty(),
            match command {
                Some(c) => t.subcommand is Some && t.subcommand->Some_0@ == subcommand_text(c),
                None => t.subcommand is None,
            },
    {
        let subcommand = match command {
            Some(c) => Some(subcommand_name(c)),
            None => None,
        };
        Telemetry {
            distinct_id: facts.distinct_id,
            system_os: facts.system_os,
            system_arch: facts.system_arch,
            os_release_name: facts.os_release_name,
            os_release_version_id: facts.os_release_version_id,
            riff_version: facts.riff_version,
            nix_version: facts.nix_version,
            is_tty: facts.is_tty,
            subcommand,
            detected_languages: LanguageSet::new(),
            in_ci: facts.in_ci,
        }
    }

    /// The report with the detected languages put in place of those it
    /// had.
    pub fn with_detected_languages(self, languages: &LanguageSet) -> (t: Self)
        ensures
            t.detected_languages@ == languages@,
            t.distinct_id == self.distinct_id,
            t.system_os == self.system_os,
            t.system_arch == self.system_arch,
            t.os_release_name == self.os_release_name,
            t.os_release_version_id == self.os_release_version_id,
            t.riff_version == self.riff_version,
            t.nix_version == self.nix_version,
            t.is_tty == self.is_tty,
            t.subcommand == self.subcommand,
            t.in_ci == self.in_ci,
    {
        let mut t = self;
        t.detected_languages = languages.clone();
        t
    }

    /// A text, such as the report as it is sent, with the installation's
    /// identifier taken out: each occurrence of the identifier's text is
    /// replaced. Without an identifier the text stays as it is.
    pub fn redact_header_data(&self, val: String) -> (out: String)
        ensures
            out@ == match self.distinct_id {
                Some(id) => replaced(val@, uuid_text(id), REDACTED@),
                None => val@,
            },
    {
        match self.distinct_id {
            Some(id) => {
                let distinct_id_string = uuid_string(id);
                replace(val.as_str(), distinct_id_string.as_str(), REDACTED)
            },
            None => val,
        }
    }
}

} // verus!
