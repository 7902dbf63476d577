//! Name normalisation and small value types shared by the tools around the
//! resolver.

use crate::text::{concat3, replace_char, replaced, split, split_on, texts};
use crate::value::str_eq;
use vstd::prelude::*;

verus! {

/// `input` with every `-` turned into `_`.
pub fn kebab_to_snake_case(input: &str) -> (out: String)
    ensures
        out@ == replaced(input@, '-', "_"@),
{
    replace_char(input, '-', "_")
}

/// `input` with every `_` turned into `-`.
pub fn snake_case_to_kebab(input: &str) -> (out: String)
    ensures
        out@ == replaced(input@, '_', "-"@),
{
    replace_char(input, '_', "-")
}

/// The lower-case form of a text, by the Unicode rules for lower-casing.
pub uninterp spec fn lowercase(text: Seq<char>) -> Seq<char>;

/// `str::to_lowercase`.
#[verifier::external_body]
fn to_lowercase(text: &str) -> (out: String)
    ensures
        out@ == lowercase(text@),
{
    text.to_lowercase()
}

/// A name as an identifier: lower case, with `-`, `.` and space turned into
/// `_` and every `/` removed.
pub open spec fn normalized(name: Seq<char>) -> Seq<char> {
    replaced(
        replaced(replaced(replaced(lowercase(name), '-', "_"@), '/', ""@), '.', "_"@),
        ' ',
        "_"@,
    )
}

/// Turns a stack's name into a safe identifier.
pub fn normalize_name(name: &str) -> (out: String)
    ensures
        out@ == normalized(name@),
{
    let lower = to_lowercase(name);
    let a = replace_char(lower.as_str(), '-', "_");
    let b = replace_char(a.as_str(), '/', "");
    let c = replace_char(b.as_str(), '.', "_");
    replace_char(c.as_str(), ' ', "_")
}

/// The SHA-256 digest of the UTF-8 bytes of a text.
pub uninterp spec fn sha256_digest(text: Seq<char>) -> Seq<u8>;

/// The base32 text of a sequence of bytes, in the standard alphabet with
/// padding.
pub uninterp spec fn base32(bytes: Seq<u8>) -> Seq<char>;

/// `sha2::Sha256::digest` on the bytes of a string.
#[verifier::external_body]
fn sha256_of(data: &str) -> (digest: Vec<u8>)
    ensures
        digest@ == sha256_digest(data@),
{
    <sha2::Sha256 as sha2::Digest>::digest(data.as_bytes()).to_vec()
}

/// `data_encoding::BASE32.encode`: the text is made of the letters `A` to
/// `Z`, the digits `2` to `7` and the padding `=`, so it holds no `_`.
#[verifier::external_body]
fn base32_of(bytes: &Vec<u8>) -> (text: String)
    ensures
        text@ == base32(bytes@),
        !text@.contains('_'),
{
    data_encoding::BASE32.encode(bytes)
}

/// The name that a content goes by: the base32 text of its SHA-256 digest.
pub open spec fn content_hash(data: Seq<char>) -> Seq<char> {
    base32(sha256_digest(data))
}

/// The name that a content goes by.
pub fn hash_of(data: &str) -> (hash: String)
    ensures
        hash@ == content_hash(data@),
        !hash@.contains('_'),
{
    let digest = sha256_of(data);
    base32_of(&digest)
}

/// Whether `data` hashes to `expected_hash`.
pub fn checksum(data: String, expected_hash: String) -> (same: bool)
    ensures
        same == (content_hash(data@) == expected_hash@),
{
    let hash = hash_of(data.as_str());
    hash == expected_hash
}

/// The repository and the stack that a stack's reference names: what
/// stands before and after the first `:`, or no repository where there is
/// no `:`.
pub open spec fn reference_parts(reference: Seq<char>) -> (Seq<char>, Seq<char>) {
    let parts = split(reference, ':');
    if parts.len() >= 2 {
        (parts[0], parts[1])
    } else {
        (Seq::empty(), reference)
    }
}

/// Takes a stack's reference apart into repository and stack.
pub fn stack_reference(reference: &str) -> (parts: (String, String))
    ensures
        (parts.0@, parts.1@) == reference_parts(reference@),
{
    let parts = split_on(reference, ':');
    if parts.len() >= 2 {
        assert(texts(parts@)[0] == parts@[0]@ && texts(parts@)[1] == parts@[1]@);
        (parts[0].clone(), parts[1].clone())
    } else {
        (String::new(), reference.to_owned())
    }
}

/// The repository a stack is taken from: the one its reference names; the
/// main repository where it names none and at most one repository holds the
/// stack; none where several hold it and the reference does not say which.
pub fn repository_for(named: &str, holders: usize) -> (repository: Option<String>)
    ensures
        repository is None == (named@.len() == 0 && holders > 1),
        repository is Some ==> repository->0@ == if named@.len() == 0 {
            "torb-artifacts"@
        } else {
            named@
        },
{
    if named.is_empty() {
        if holders > 1 {
            None
        } else {
            Some("torb-artifacts".to_owned())
        }
    } else {
        Some(named.to_owned())
    }
}

/// What can go wrong around the tools the stack is handled with.
#[derive(Debug, PartialEq)]
pub enum TorbUtilityErrors {
    UnableToRunCommandInShell { command: String, shell: String, reason: String },
    UnableToRunCommand { command: String, reason: String },
    UnsupportedKind,
    ResourceNotFound,
}

impl TorbUtilityErrors {
    /// The sentence shown for the error.
    pub fn message(&self) -> (text: String)
        ensures
            text@ == match *self {
                TorbUtilityErrors::UnableToRunCommandInShell { command, shell, reason } =>
                    "Unable to run this command:\n\n"@ + command@ + ", \n\nShell: "@ + shell@
                        + ", \n\nReason:\n\n"@ + reason@,
                TorbUtilityErrors::UnableToRunCommand { command, reason } =>
                    "Unable to run this command:\n\n"@ + command@
                        + ", \n\nbecause of this reason: \n\n"@ + reason@,
                TorbUtilityErrors::UnsupportedKind =>
                    "Resource did not match Torb supported Kind, supported: StatefulSet, Deployment, DaemonSet"@,
                TorbUtilityErrors::ResourceNotFound => "Resource not found."@,
            },
    {
        match self {
            TorbUtilityErrors::UnableToRunCommandInShell { command, shell, reason } => {
                let mut text = concat3(
                    "Unable to run this command:\n\n",
                    command.as_str(),
                    ", \n\nShell: ",
                );
                text.append(shell.as_str());
                text.append(", \n\nReason:\n\n");
                text.append(reason.as_str());
                text
            },
            TorbUtilityErrors::UnableToRunCommand { command, reason } => {
                let mut text = concat3(
                    "Unable to run this command:\n\n",
                    command.as_str(),
                    ", \n\nbecause of this reason: \n\n",
                );
                text.append(reason.as_str());
                text
            },
            TorbUtilityErrors::UnsupportedKind => {
                "Resource did not match Torb supported Kind, supported: StatefulSet, Deployment, DaemonSet".to_owned()
            },
            TorbUtilityErrors::ResourceNotFound => "Resource not found.".to_owned(),
        }
    }
}

/// A command to run: the program, its arguments, and the directory to run
/// it in.
#[derive(Debug, PartialEq)]
pub struct CommandConfig<'a> {
    pub command: &'a str,
    pub args: Vec<&'a str>,
    pub working_dir: Option<&'a str>,
}

impl<'a> CommandConfig<'a> {
    pub fn new(command: &'a str, args: Vec<&'a str>, working_dir: Option<&'a str>) -> (config:
        CommandConfig<'a>)
        ensures
            config.command == command,
            config.args == args,
            config.working_dir == working_dir,
    {
        CommandConfig { command, args, working_dir }
    }
}

/// The kinds of workload that can be patched in place.
#[derive(Debug, PartialEq, Eq)]
pub enum ResourceKind {
    StatefulSet,
    DaemonSet,
    Deployment,
}

/// The kind that a resource's `kind` field names, if it is a supported one.
pub open spec fn kind_named(kind: Seq<char>) -> Option<ResourceKind> {
    if kind == "Deployment"@ {
        Some(ResourceKind::Deployment)
    } else if kind == "DaemonSet"@ {
        Some(ResourceKind::DaemonSet)
    } else if kind == "StatefulSet"@ {
        Some(ResourceKind::StatefulSet)
    } else {
        None
    }
}

/// The position of the last item named `name`, before position `upto`.
pub open spec fn last_named(items: Seq<(String, String)>, name: Seq<char>, upto: int) -> Option<int>
    decreases upto,
{
    if upto <= 0 || upto > items.len() {
        None
    } else if items[upto - 1].0@ == name {
        Some(upto - 1)
    } else {
        last_named(items, name, upto - 1)
    }
}

/// Picks the kind of the resource called `name` out of a listing of
/// resources, each given by its name and its kind. Where several carry the
/// name, the last one counts.
pub fn resource_kind_among(name: &str, items: &Vec<(String, String)>) -> (found: Result<
    ResourceKind,
    TorbUtilityErrors,
>)
    ensures
        match last_named(items@, name@, items@.len() as int) {
            None => found == Err::<ResourceKind, TorbUtilityErrors>(
                TorbUtilityErrors::ResourceNotFound,
            ),
            Some(at) => match kind_named(items@[at].1@) {
                Some(kind) => found == Ok::<ResourceKind, TorbUtilityErrors>(kind),
                None => found == Err::<ResourceKind, TorbUtilityErrors>(
                    TorbUtilityErrors::UnsupportedKind,
                ),
            },
        },
{
    let mut i: usize = items.len();
    while i > 0
        invariant
            i <= items@.len(),
            last_named(items@, name@, items@.len() as int) == last_named(items@, name@, i as int),
        decreases i,
    {
        let item = &items[i - 1];
        if str_eq(item.0.as_str(), name) {
            let kind = item.1.as_str();
            if str_eq(kind, "Deployment") {
                return Ok(ResourceKind::Deployment);
            } else if str_eq(kind, "DaemonSet") {
                return Ok(ResourceKind::DaemonSet);
            } else if str_eq(kind, "StatefulSet") {
                return Ok(ResourceKind::StatefulSet);
            } else {
                return Err(TorbUtilityErrors::UnsupportedKind);
            }
        }
        i -= 1;
    }
    Err(TorbUtilityErrors::ResourceNotFound)
}

/// What to show around the outcome of a step: a headline for success, one
/// for failure, a warning, the context of a failure, and what the user can
/// try.
#[derive(Debug, PartialEq)]
pub struct PrettyContext<'a> {
    pub success_marquee_msg: Option<&'a str>,
    pub error_marquee_msg: Option<&'a str>,
    pub warning: Option<&'a str>,
    pub error_context: &'a str,
    pub suggestions: Vec<&'a str>,
}

impl<'a> Default for PrettyContext<'a> {
    fn default() -> (context: PrettyContext<'a>)
        ensures
            context.success_marquee_msg is None,
            context.error_marquee_msg is None,
            context.warning is None,
            context.error_context@ == ""@,
            context.suggestions@.len() == 0,
    {
        PrettyContext {
            success_marquee_msg: None,
            error_marquee_msg: None,
            warning: None,
            error_context: "",
            suggestions: Vec::new(),
        }
    }
}

impl<'a> PrettyContext<'a> {
    pub fn success(&mut self, msg: &'a str) -> (context: &mut Self)
        ensures
            *context == (PrettyContext { success_marquee_msg: Some(msg), ..*old(self) }),
            *final(self) == *final(context),
    {
        self.success_marquee_msg = Some(msg);
        self
    }

    pub fn error(&mut self, msg: &'a str) -> (context: &mut Self)
        ensures
            *context == (PrettyContext { error_marquee_msg: Some(msg), ..*old(self) }),
            *final(self) == *final(context),
    {
        self.error_marquee_msg = Some(msg);
        self
    }

    pub fn context(&mut self, msg: &'a str) -> (context: &mut Self)
        ensures
            *context == (PrettyContext { error_context: msg, ..*old(self) }),
            *final(self) == *final(context),
    {
        self.error_context = msg;
        self
    }

    pub fn suggestions(&mut self, msgs: Vec<&'a str>) -> (context: &mut Self)
        ensures
            *context == (PrettyContext { suggestions: msgs, ..*old(self) }),
            *final(self) == *final(context),
    {
        self.suggestions = msgs;
        self
    }

    pub fn warn(&mut self, msg: &'a str) -> (context: &mut Self)
        ensures
            *context == (PrettyContext { warning: Some(msg), ..*old(self) }),
            *final(self) == *final(context),
    {
        self.warning = Some(msg);
        self
    }

    /// A context of its own with what was set so far.
    pub fn pretty(&mut self) -> (context: Self)
        ensures
            *final(self) == *old(self),
            context.success_marquee_msg == old(self).success_marquee_msg,
            context.error_marquee_msg == old(self).error_marquee_msg,
            context.warning == old(self).warning,
            context.error_context == old(self).error_context,
            context.suggestions@ == old(self).suggestions@,
    {
        let mut suggestions: Vec<&'a str> = Vec::new();
        let mut i: usize = 0;
        while i < self.suggestions.len()
            invariant
                i <= self.suggestions@.len(),
                suggestions@ == self.suggestions@.take(i as int),
            decreases self.suggestions@.len() - i,
        {
            suggestions.push(self.suggestions[i]);
            assert(self.suggestions@.take(i as int).push(self.suggestions@[i as int])
                =~= self.suggestions@.take(i + 1));
            i += 1;
        }
        assert(self.suggestions@.take(i as int) =~= self.suggestions@);
        PrettyContext {
            success_marquee_msg: self.success_marquee_msg,
            error_marquee_msg: self.error_marquee_msg,
            warning: self.warning,
            error_context: self.error_context,
            suggestions,
        }
    }
}

} // verus!
