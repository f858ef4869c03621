//! The warrant registry: entries mapping close sources to assertions, the
//! case-insensitive lookup, and the safety check on `CommandExit` commands.

use vstd::prelude::*;

use crate::model::{AssertionSpec, AssertionView};
use crate::text::{
    append_str, chars_eq, chars_of, contains, debug_form, debug_quoted,
    contains_exec, has_word, has_word_exec, lower, lower_str, lowercase_of, starts_with, starts_with_exec, trim, trim_exec,
    trim_start, trim_start_exec,
};

verus! {

/// A single warrant entry of the registry.
#[derive(Debug)]
pub struct WarrantEntry {
    /// The source filename (basename of the PRD or docket slug).
    pub source: String,
    /// The assertion to run.
    pub assertion: AssertionSpec,
}

/// The view of a [`WarrantEntry`].
pub struct EntryView {
    pub source: Seq<char>,
    pub assertion: AssertionView,
}

impl View for WarrantEntry {
    type V = EntryView;

    open spec fn view(&self) -> EntryView {
        EntryView { source: self.source@, assertion: self.assertion@ }
    }
}

impl Clone for WarrantEntry {
    fn clone(&self) -> (r: Self)
        ensures
            r == *self,
    {
        WarrantEntry { source: self.source.clone(), assertion: self.assertion.clone() }
    }
}

/// The full registry.
#[derive(Debug, Default)]
pub struct WarrantRegistry {
    /// All warrant entries.
    pub entries: Vec<WarrantEntry>,
}

impl View for WarrantRegistry {
    type V = Seq<EntryView>;

    open spec fn view(&self) -> Seq<EntryView> {
        self.entries@.map_values(|e: WarrantEntry| e@)
    }
}

/// Index of the first entry, from `i` on, whose source equals `key` when
/// both are lowercased.
pub open spec fn find_from(es: Seq<EntryView>, key: Seq<char>, i: int) -> Option<int>
    decreases es.len() - i,
{
    if i < 0 || i >= es.len() {
        None
    } else if lowercase_of(es[i].source) == lowercase_of(key) {
        Some(i)
    } else {
        find_from(es, key, i + 1)
    }
}

/// Index of the first entry whose source matches `key` case-insensitively.
pub open spec fn find_index(es: Seq<EntryView>, key: Seq<char>) -> Option<int> {
    find_from(es, key, 0)
}

/// `find_from` yields an index in range whose entry matches.
pub proof fn lemma_find_from(es: Seq<EntryView>, key: Seq<char>, i: int)
    requires
        0 <= i,
    ensures
        find_from(es, key, i) matches Some(k) ==> i <= k < es.len() && lowercase_of(es[k].source)
            == lowercase_of(key),
        find_from(es, key, i) is None ==> forall|k: int|
            i <= k < es.len() ==> lowercase_of(#[trigger] es[k].source) != lowercase_of(key),
    decreases es.len() - i,
{
    if i < es.len() && lowercase_of(es[i].source) != lowercase_of(key) {
        lemma_find_from(es, key, i + 1);
    }
}

impl WarrantRegistry {
    /// Look up a warrant by source basename (case-insensitive): the first
    /// entry whose lowercased source equals the lowercased basename.
    pub fn find(&self, source_basename: &str) -> (r: Option<&WarrantEntry>)
        ensures
            match find_index(self@, source_basename@) {
                Some(k) => r == Some(&self.entries@[k]),
                None => r is None,
            },
    {
        let lower_key = lower_str(source_basename);
        let n = self.entries.len();
        let mut i: usize = 0;
        while i < n
            invariant
                n == self.entries@.len(),
                lower_key@ == lowercase_of(source_basename@),
                find_index(self@, source_basename@) == find_from(self@, source_basename@, i as int),
            decreases n - i,
        {
            let cand = chars_of(self.entries[i].source.as_str());
            let lc = lower(&cand);
            if chars_eq(&lc, &lower_key) {
                return Some(&self.entries[i]);
            }
            i = i + 1;
        }
        None
    }
}

// ── Command safety ───────────────────────────────────────────────────────────

/// Verbs forbidden in `CommandExit` commands, matched as literal substrings.
pub open spec fn mutating_verbs() -> Seq<Seq<char>> {
    seq![
        "--apply"@,
        " rm "@,
        "\nrm "@,
        "^rm "@,
        " rm\n"@,
        " rm$"@,
        ">"@,
        "write"@,
        "mkdir"@,
        "mv "@,
        "cp "@,
        "chmod"@,
        "chown"@,
        "dd "@,
        "install "@,
        "sudo"@,
        "tee "@,
        "truncate"@,
        "shred"@,
        "mktemp"@,
        "curl "@,
        "wget "@,
    ]
}

fn mutating_verbs_exec() -> (r: Vec<&'static str>)
    ensures
        r@.map_values(|v: &str| v@) == mutating_verbs(),
{
    let r = vec![
        "--apply",
        " rm ",
        "\nrm ",
        "^rm ",
        " rm\n",
        " rm$",
        ">",
        "write",
        "mkdir",
        "mv ",
        "cp ",
        "chmod",
        "chown",
        "dd ",
        "install ",
        "sudo",
        "tee ",
        "truncate",
        "shred",
        "mktemp",
        "curl ",
        "wget ",
    ];
    assert(r@.map_values(|v: &str| v@) =~= mutating_verbs());
    r
}

/// Index of the first mutating verb, from `k` on, that occurs in `cmd`.
pub open spec fn first_verb_from(cmd: Seq<char>, k: int) -> Option<int>
    decreases mutating_verbs().len() - k,
{
    if k < 0 || k >= mutating_verbs().len() {
        None
    } else if contains(cmd, mutating_verbs()[k]) {
        Some(k)
    } else {
        first_verb_from(cmd, k + 1)
    }
}

/// The command starts with `rm ` after leading whitespace, or is `rm`.
pub open spec fn starts_with_rm(cmd: Seq<char>) -> bool {
    starts_with(trim_start(cmd), "rm "@) || trim(cmd) == "rm"@
}

/// The message for a command that runs `rm`.
pub open spec fn rm_message(cmd: Seq<char>) -> Seq<char> {
    "CommandExit cmd "@ + debug_form(cmd) + " contains mutating verb 'rm'"@
}

/// The error that the safety check reports for a command, if any: a
/// leading `rm`, then the first listed verb, then `rm` as a word anywhere
/// (such as at the end of a pipeline).
pub open spec fn command_error(cmd: Seq<char>) -> Option<Seq<char>> {
    if starts_with_rm(cmd) {
        Some(rm_message(cmd))
    } else {
        match first_verb_from(cmd, 0) {
            Some(k) => Some(
                "CommandExit cmd "@ + debug_form(cmd) + " contains mutating verb "@ + debug_form(
                    mutating_verbs()[k],
                ),
            ),
            None => if has_word(cmd, "rm"@) {
                Some(rm_message(cmd))
            } else {
                None
            },
        }
    }
}

/// Validate that a `CommandExit` command contains no mutating verb.
///
/// Returns a descriptive error naming the first verb found.
pub fn validate_command(cmd: &str) -> (r: Result<(), String>)
    ensures
        match command_error(cmd@) {
            Some(msg) => r matches Err(e) && e@ == msg,
            None => r is Ok,
        },
{
    let c = chars_of(cmd);
    let ts = trim_start_exec(&c);
    let rm_space = chars_of("rm ");
    let t = trim_exec(&c);
    let rm = chars_of("rm");
    if starts_with_exec(&ts, &rm_space) || chars_eq(&t, &rm) {
        let mut msg = "CommandExit cmd ".to_owned();
        let q = debug_quoted(cmd);
        append_str(&mut msg, q.as_str());
        append_str(&mut msg, " contains mutating verb 'rm'");
        return Err(msg);
    }
    let verbs = mutating_verbs_exec();
    let n = verbs.len();
    let mut k: usize = 0;
    while k < n
        invariant
            n == mutating_verbs().len(),
            verbs@.map_values(|v: &str| v@) == mutating_verbs(),
            c@ == cmd@,
            !starts_with_rm(cmd@),
            rm@ == "rm"@,
            first_verb_from(cmd@, 0) == first_verb_from(cmd@, k as int),
        decreases n - k,
    {
        let verb = verbs[k];
        let vc = chars_of(verb);
        assert(vc@ == mutating_verbs()[k as int]);
        if contains_exec(&c, &vc) {
            let mut msg = "CommandExit cmd ".to_owned();
            let q = debug_quoted(cmd);
            append_str(&mut msg, q.as_str());
            append_str(&mut msg, " contains mutating verb ");
            let qv = debug_quoted(verb);
            append_str(&mut msg, qv.as_str());
            return Err(msg);
        }
        k = k + 1;
    }
    if has_word_exec(&c, &rm) {
        let mut msg = "CommandExit cmd ".to_owned();
        let q = debug_quoted(cmd);
        append_str(&mut msg, q.as_str());
        append_str(&mut msg, " contains mutating verb 'rm'");
        return Err(msg);
    }
    Ok(())
}

// ── Registry errors and checks ───────────────────────────────────────────────

/// Errors that can occur when loading a registry.
#[derive(Debug)]
pub enum RegistryError {
    /// The registry file could not be read.
    Io(String),
    /// The registry file could not be parsed.
    Parse(String),
    /// A `CommandExit` assertion contains a mutating verb.
    MutatingCommand(String),
}

/// The message of a registry error.
pub open spec fn registry_error_message(e: RegistryError) -> Seq<char> {
    match e {
        RegistryError::Io(m) => "registry I/O error: "@ + m@,
        RegistryError::Parse(m) => "registry parse error: "@ + m@,
        RegistryError::MutatingCommand(m) => "registry safety error: "@ + m@,
    }
}

impl RegistryError {
    /// The human-readable message of this error.
    pub fn message(&self) -> (r: String)
        ensures
            r@ == registry_error_message(*self),
    {
        match self {
            RegistryError::Io(m) => {
                let mut s = "registry I/O error: ".to_owned();
                append_str(&mut s, m.as_str());
                s
            },
            RegistryError::Parse(m) => {
                let mut s = "registry parse error: ".to_owned();
                append_str(&mut s, m.as_str());
                s
            },
            RegistryError::MutatingCommand(m) => {
                let mut s = "registry safety error: ".to_owned();
                append_str(&mut s, m.as_str());
                s
            },
        }
    }
}

/// The command of an entry whose assertion is `CommandExit`, if it is one.
pub open spec fn entry_command(e: EntryView) -> Option<Seq<char>> {
    match e.assertion {
        AssertionView::CommandExit { cmd, .. } => Some(cmd),
        _ => None,
    }
}

/// The error of entry `i`, if its assertion is an unsafe command.
pub open spec fn entry_error(es: Seq<EntryView>, i: int) -> Option<Seq<char>> {
    match entry_command(es[i]) {
        Some(cmd) => command_error(cmd),
        None => None,
    }
}

/// The first unsafe-command error among the entries from index `i` on.
pub open spec fn first_error_from(es: Seq<EntryView>, i: int) -> Option<Seq<char>>
    decreases es.len() - i,
{
    if i < 0 || i >= es.len() {
        None
    } else {
        match entry_error(es, i) {
            Some(m) => Some(m),
            None => first_error_from(es, i + 1),
        }
    }
}

/// Loader for registry files: the program parses the TOML text into a
/// [`WarrantRegistry`]; this type holds the checks applied after parsing.
pub struct RegistryLoader;

impl RegistryLoader {
    /// Check every `CommandExit` assertion of a parsed registry: the first
    /// command holding a mutating verb is reported as `MutatingCommand`.
    pub fn validate(registry: &WarrantRegistry) -> (r: Result<(), RegistryError>)
        ensures
            match first_error_from(registry@, 0) {
                Some(m) => r matches Err(RegistryError::MutatingCommand(e)) && e@ == m,
                None => r is Ok,
            },
    {
        let n = registry.entries.len();
        let mut i: usize = 0;
        while i < n
            invariant
                n == registry@.len(),
                first_error_from(registry@, 0) == first_error_from(registry@, i as int),
            decreases n - i,
        {
            match &registry.entries[i].assertion {
                AssertionSpec::CommandExit { cmd, .. } => {
                    match validate_command(cmd.as_str()) {
                        Err(m) => {
                            return Err(RegistryError::MutatingCommand(m));
                        },
                        Ok(()) => {},
                    }
                },
                _ => {},
            }
            i = i + 1;
        }
        Ok(())
    }

    /// The built-in seed registry, as TOML text.
    pub fn seed_toml() -> (r: &'static str)
        ensures
            r@ == seed_registry_text(),
    {
        "[[warrant]]\nsource = \"PRD-ctrace-session-end-resilient.md\"\n\n[warrant.assertion]\ntype = \"grep_absent\"\npath = \"/home/user/scripts/ctrace-session-end.sh\"\npattern = \"scribe\"\n"
    }
}

/// The seed registry: one grep-absent warrant for the session-end hook.
pub open spec fn seed_registry_text() -> Seq<char> {
    "[[warrant]]\nsource = \"PRD-ctrace-session-end-resilient.md\"\n\n[warrant.assertion]\ntype = \"grep_absent\"\npath = \"/home/user/scripts/ctrace-session-end.sh\"\npattern = \"scribe\"\n"@
}


/// A registry that passes the check holds no unsafe command, and one that
/// fails it holds one.
pub proof fn lemma_check_finds_every_unsafe_command(es: Seq<EntryView>, i: int)
    requires
        0 <= i,
    ensures
        first_error_from(es, i) is None <==> forall|k: int|
            i <= k < es.len() ==> #[trigger] entry_error(es, k) is None,
    decreases es.len() - i,
{
    if i < es.len() {
        lemma_check_finds_every_unsafe_command(es, i + 1);
    }
}

/// `rm` as a word anywhere in a command, such as at the end of a pipeline,
/// is refused.
pub proof fn lemma_rm_word_refused(cmd: Seq<char>)
    requires
        has_word(cmd, "rm"@),
    ensures
        command_error(cmd) is Some,
{
}

/// `rm` at the start of a command (after whitespace) is refused, whatever
/// follows it.
pub proof fn lemma_leading_rm_refused(cmd: Seq<char>)
    requires
        starts_with(trim_start(cmd), "rm "@),
    ensures
        command_error(cmd) is Some,
{
}

} // verus!
