//! Where the OpenEngine schema comes from: an immutable module or a pinned, clean checkout.

use vstd::prelude::*;
use vstd::utf8::decode_utf8;
use vstd::utf8::encode_utf8;
use vstd::utf8::valid_utf8;

use crate::endpoints::strip_prefix;
use crate::events::copy_bytes;
use crate::foreign::lossy;
use crate::foreign::lossy_text;
use crate::foreign::utf8_fault;
use crate::foreign::utf8_text;
use crate::paths::below;
use crate::paths::join_path;
use crate::paths::lies_within;
use crate::paths::names_below_lie_within;
use crate::paths::relative_path;
use crate::paths::way;
use crate::text::begins_with;
use crate::text::chars_of;
use crate::text::is_lower_hex_digit;
use crate::text::join2;
use crate::text::join3;
use crate::text::join4;
use crate::text::join5;
use crate::text::parts_split_again;
use crate::text::rsplit_once;
use crate::text::same;
use crate::text::split_at_last;
use crate::text::trim;
use crate::text::trimmed;

verus! {

/// What the name of the module begins with; the commit follows.
pub const BSR_MODULE_PREFIX: &'static str = "buf.build/openengine/openengine:";

/// Where the schema begins, below its root.
pub const ENTRYPOINT: &'static str = "openengine/v1/openengine.proto";

/// The schema, and which release of it that is.
#[derive(Debug)]
pub struct SchemaSource {
    pub proto_root: Vec<u8>,
    pub release: String,
}

/// This many lower-case hexadecimal digits.
pub open spec fn is_hex(value: Seq<char>, len: nat) -> bool {
    &&& value.len() == len
    &&& forall|i: int| 0 <= i < len ==> is_lower_hex_digit(#[trigger] value[i])
}

/// Whether a text consists of this many lower-case hexadecimal digits.
pub fn is_lower_hex(value: &str, len: usize) -> (found: bool)
    ensures
        found == is_hex(value@, len as nat),
{
    let chars = chars_of(value);
    if chars.len() != len {
        return false;
    }
    let mut i: usize = 0;
    while i < len
        invariant
            i <= len,
            chars@ == value@,
            chars@.len() == len,
            forall|j: int| 0 <= j < i ==> is_lower_hex_digit(#[trigger] value@[j]),
        decreases len - i,
    {
        let c: char = chars[i];
        if !(('0' <= c && c <= '9') || ('a' <= c && c <= 'f')) {
            assert(!is_lower_hex_digit(value@[i as int]));
            return false;
        }
        i += 1;
    }
    true
}

/// The commit that a module names, or why it names none.
pub open spec fn module_commit(module: Seq<char>) -> Result<Seq<char>, Seq<char>> {
    let commit = module.skip(BSR_MODULE_PREFIX@.len() as int);
    if !BSR_MODULE_PREFIX@.is_prefix_of(module) {
        Err(
            "OPENENGINE_BSR_MODULE must be `"@ + BSR_MODULE_PREFIX@
                + "<32-lowercase-hex-commit>`, got `"@ + module + "`"@,
        )
    } else if !is_hex(commit, 32) {
        Err(
            "OPENENGINE_BSR_MODULE must end in exactly 32 lowercase hexadecimal characters; mutable labels such as `main` are not allowed, got `"@
                + module + "`"@,
        )
    } else {
        Ok(commit)
    }
}

/// A text or an error, by its contents.
pub open spec fn contents_of(outcome: Result<String, String>) -> Result<Seq<char>, Seq<char>> {
    match outcome {
        Ok(text) => Ok(text@),
        Err(error) => Err(error@),
    }
}

/// Reads the commit that a module names. A label that can move is refused.
pub fn parse_bsr_module(module: &str) -> (commit: Result<String, String>)
    ensures
        contents_of(commit) == module_commit(module@),
{
    let commit = match strip_prefix(module, BSR_MODULE_PREFIX) {
        Some(commit) => commit,
        None => {
            return Err(
                join5(
                    "OPENENGINE_BSR_MODULE must be `",
                    BSR_MODULE_PREFIX,
                    "<32-lowercase-hex-commit>`, got `",
                    module,
                    "`",
                ),
            );
        },
    };
    if !is_lower_hex(commit, 32) {
        return Err(
            join3(
                "OPENENGINE_BSR_MODULE must end in exactly 32 lowercase hexadecimal characters; mutable labels such as `main` are not allowed, got `",
                module,
                "`",
            ),
        );
    }
    Ok(commit.to_string())
}

/// Why a release is not an exact identity, if it is not.
pub open spec fn identity_fault(release: Seq<char>) -> Option<Seq<char>> {
    if is_hex(release, 32) || is_hex(release, 40) {
        None
    } else {
        Some(
            "OPENENGINE_SCHEMA_RELEASE must be an exact 32-hex BSR or 40-hex source commit, got `"@
                + release + "`"@,
        )
    }
}

/// Checks that a release is an exact identity.
pub fn validate_release_identity(release: &str) -> (checked: Result<(), String>)
    ensures
        match checked {
            Ok(()) => identity_fault(release@) is None,
            Err(error) => identity_fault(release@) == Some(error@),
        },
{
    if is_lower_hex(release, 32) || is_lower_hex(release, 40) {
        Ok(())
    } else {
        Err(
            join3(
                "OPENENGINE_SCHEMA_RELEASE must be an exact 32-hex BSR or 40-hex source commit, got `",
                release,
                "`",
            ),
        )
    }
}

/// The path that a command printed, or why there is none.
pub open spec fn printed_path(stdout: Seq<u8>, name: Seq<char>) -> Result<Seq<u8>, Seq<char>> {
    if !valid_utf8(stdout) {
        Err(name + " is not valid UTF-8: "@ + utf8_fault(stdout))
    } else if trimmed(decode_utf8(stdout)).len() == 0 {
        Err(name + " is empty"@)
    } else {
        Ok(encode_utf8(trimmed(decode_utf8(stdout))))
    }
}

/// A path or an error, by its contents.
pub open spec fn path_of(outcome: Result<Vec<u8>, String>) -> Result<Seq<u8>, Seq<char>> {
    match outcome {
        Ok(path) => Ok(path@),
        Err(error) => Err(error@),
    }
}

/// Reads the path that a command printed.
pub fn parse_path_output(stdout: &[u8], name: &str) -> (path: Result<Vec<u8>, String>)
    ensures
        path_of(path) == printed_path(stdout@, name@),
{
    match utf8_text(stdout) {
        Err(error) => Err(join3(name, " is not valid UTF-8: ", error.as_str())),
        Ok(text) => {
            let path = trim(text.as_str());
            if path.is_empty() {
                Err(join2(name, " is empty"))
            } else {
                Ok(path.as_bytes_vec())
            }
        },
    }
}

/// What a command left behind.
#[derive(Debug)]
pub struct CommandOutput {
    pub success: bool,
    pub stdout: Vec<u8>,
    pub stderr: Vec<u8>,
}

/// What a command left behind, by its contents.
pub ghost struct OutputModel {
    pub success: bool,
    pub stdout: Seq<u8>,
    pub stderr: Seq<u8>,
}

/// A command's output or the error of starting it, by its contents.
pub open spec fn output_of(output: Result<CommandOutput, String>) -> Result<OutputModel, Seq<char>> {
    match output {
        Ok(output) => Ok(
            OutputModel {
                success: output.success,
                stdout: output.stdout@,
                stderr: output.stderr@,
            },
        ),
        Err(error) => Err(error@),
    }
}

/// The text that a git command printed, or why there is none.
pub open spec fn git_text(arguments: Seq<char>, output: Result<OutputModel, Seq<char>>) -> Result<
    Seq<char>,
    Seq<char>,
> {
    match output {
        Err(error) => Err("failed to run `git "@ + arguments + "`: "@ + error),
        Ok(output) => if !output.success {
            Err("`git "@ + arguments + "` failed: "@ + trimmed(lossy(output.stderr)))
        } else if !valid_utf8(output.stdout) {
            Err("`git "@ + arguments + "` returned invalid UTF-8: "@ + utf8_fault(output.stdout))
        } else {
            Ok(trimmed(decode_utf8(output.stdout)))
        },
    }
}

/// Reads the text that a git command printed.
pub fn checked_git_stdout(arguments: &str, output: &Result<CommandOutput, String>) -> (text: Result<
    String,
    String,
>)
    ensures
        contents_of(text) == git_text(arguments@, output_of(*output)),
{
    match output {
        Err(error) => Err(join4("failed to run `git ", arguments, "`: ", error.as_str())),
        Ok(output) => {
            if !output.success {
                let stderr = lossy_text(output.stderr.as_slice());
                return Err(join4("`git ", arguments, "` failed: ", trim(stderr.as_str())));
            }
            match utf8_text(output.stdout.as_slice()) {
                Ok(text) => Ok(trim(text.as_str()).to_string()),
                Err(error) => Err(
                    join4("`git ", arguments, "` returned invalid UTF-8: ", error.as_str()),
                ),
            }
        },
    }
}

/// What the machine says of a checkout: whether the schema begins in a nested `proto` directory
/// or directly below the root, the canonical root of the schema, where git finds the checkout,
/// its canonical root, its commit, and what has changed below the schema.
pub ghost struct Checkout {
    pub nested: bool,
    pub direct: bool,
    pub proto_root: Result<Seq<u8>, Seq<char>>,
    pub toplevel: Result<OutputModel, Seq<char>>,
    pub git_root: Result<Seq<u8>, Seq<char>>,
    pub head: Result<OutputModel, Seq<char>>,
    pub status: Result<OutputModel, Seq<char>>,
}

/// The root of the schema before it is made canonical.
pub open spec fn chosen_root(root: Seq<u8>, nested: bool) -> Seq<u8> {
    if nested {
        below(root, encode_utf8("proto"@))
    } else {
        root
    }
}

/// The canonical root of the schema, or why there is none.
pub open spec fn schema_root(root: Seq<u8>, checkout: Checkout) -> Result<Seq<u8>, Seq<char>> {
    if !checkout.nested && !checkout.direct {
        Err(
            "OpenEngine schema entrypoint not found at "@ + lossy(
                below(root, encode_utf8(ENTRYPOINT@)),
            )
                + "; OPENENGINE_PROTO_ROOT must name the repository or its `proto` directory"@,
        )
    } else {
        match checkout.proto_root {
            Ok(proto_root) => Ok(proto_root),
            Err(error) => Err(
                "failed to canonicalize OpenEngine proto root "@ + lossy(
                    chosen_root(root, checkout.nested),
                ) + ": "@ + error,
            ),
        }
    }
}

/// The release of a schema outside git.
pub open spec fn stated_release(explicit: Option<&str>) -> Result<Seq<char>, Seq<char>> {
    match explicit {
        None => Err(
            "OPENENGINE_PROTO_ROOT has no Git metadata; set OPENENGINE_SCHEMA_RELEASE to its exact 32-hex BSR or 40-hex source commit"@,
        ),
        Some(release) => match identity_fault(release@) {
            Some(error) => Err(error),
            None => Ok(release@),
        },
    }
}

/// Why an explicit release contradicts the commit of a checkout, if it does.
pub open spec fn release_conflict(explicit: Option<&str>, head: Seq<char>) -> Option<Seq<char>> {
    match explicit {
        None => None,
        Some(release) => if identity_fault(release@) is Some {
            identity_fault(release@)
        } else if release@ != head {
            Some(
                "OPENENGINE_SCHEMA_RELEASE `"@ + release@ + "` does not match OpenEngine Git HEAD `"@
                    + head + "`"@,
            )
        } else {
            None
        },
    }
}

/// Why a schema is not clean, if it is not.
pub open spec fn uncleanliness(
    proto_root: Seq<u8>,
    expected: Seq<char>,
    status: Result<OutputModel, Seq<char>>,
) -> Option<Seq<char>> {
    match status {
        Err(error) => Some("failed to inspect OpenEngine proto cleanliness: "@ + error),
        Ok(status) => if !status.success {
            Some(
                "failed to inspect OpenEngine proto cleanliness: "@ + trimmed(lossy(status.stderr)),
            )
        } else if status.stdout.len() > 0 {
            Some(
                "OPENENGINE_PROTO_ROOT must be clean at `"@ + expected
                    + "`; commit or remove changes under "@ + lossy(proto_root),
            )
        } else {
            None
        },
    }
}

/// The release of a schema in a checkout.
pub open spec fn pinned_release(
    proto_root: Seq<u8>,
    git_root: Seq<u8>,
    expected: Seq<char>,
    explicit: Option<&str>,
    checkout: Checkout,
) -> Result<Seq<char>, Seq<char>> {
    match git_text("rev-parse --verify HEAD"@, checkout.head) {
        Err(error) => Err(error),
        Ok(head) => if head != expected {
            Err(
                "OPENENGINE_PROTO_ROOT is at Git commit `"@ + head + "`, expected `"@ + expected
                    + "`"@,
            )
        } else if release_conflict(explicit, head) is Some {
            Err(release_conflict(explicit, head)->Some_0)
        } else if !lies_within(proto_root, git_root) {
            Err(
                "OpenEngine proto root "@ + lossy(proto_root) + " is outside Git root "@ + lossy(
                    git_root,
                ),
            )
        } else if uncleanliness(proto_root, expected, checkout.status) is Some {
            Err(uncleanliness(proto_root, expected, checkout.status)->Some_0)
        } else {
            Ok(head)
        },
    }
}

/// The schema in a directory, or why it is refused.
pub open spec fn resolved(
    root: Seq<u8>,
    expected: Seq<char>,
    explicit: Option<&str>,
    checkout: Checkout,
) -> Result<(Seq<u8>, Seq<char>), Seq<char>> {
    if !is_hex(expected, 40) {
        Err("the pinned OpenEngine source commit must be exactly 40 lowercase hex"@)
    } else {
        match schema_root(root, checkout) {
            Err(error) => Err(error),
            Ok(proto_root) => {
                let release = match checkout.toplevel {
                    Err(error) => Err("failed to inspect OpenEngine Git metadata: "@ + error),
                    Ok(git) => if !git.success {
                        stated_release(explicit)
                    } else {
                        match printed_path(git.stdout, "OpenEngine Git root"@) {
                            Err(error) => Err(error),
                            Ok(path) => match checkout.git_root {
                                Err(error) => Err(
                                    "failed to canonicalize OpenEngine Git root "@ + lossy(path)
                                        + ": "@ + error,
                                ),
                                Ok(git_root) => pinned_release(
                                    proto_root,
                                    git_root,
                                    expected,
                                    explicit,
                                    checkout,
                                ),
                            },
                        }
                    },
                };
                match release {
                    Ok(release) => Ok((proto_root, release)),
                    Err(error) => Err(error),
                }
            },
        }
    }
}

/// What is known of a checkout.
#[derive(Debug)]
pub struct SourceFindings {
    pub nested: Option<bool>,
    pub direct: Option<bool>,
    pub proto_root: Option<Result<Vec<u8>, String>>,
    pub toplevel: Option<Result<CommandOutput, String>>,
    pub git_root: Option<Result<Vec<u8>, String>>,
    pub head: Option<Result<CommandOutput, String>>,
    pub status: Option<Result<CommandOutput, String>>,
}

/// A question to the machine, or what became of the schema.
#[derive(Debug)]
pub enum SourceStep {
    /// Is this a file, with the schema in a nested `proto` directory?
    NestedEntrypoint(Vec<u8>),
    /// Is this a file, with the schema directly below the root?
    Entrypoint(Vec<u8>),
    /// Which is the canonical root of the schema?
    CanonicalizeProtoRoot(Vec<u8>),
    /// What does `git rev-parse --show-toplevel` say in this directory?
    InspectToplevel(Vec<u8>),
    /// Which is the canonical root of the checkout?
    CanonicalizeGitRoot(Vec<u8>),
    /// What does `git rev-parse --verify HEAD` say in this directory?
    ReadHead(Vec<u8>),
    /// What does `git status --porcelain=v1 --untracked-files=all` say in this directory of what
    /// lies below the relative path?
    InspectStatus { git_root: Vec<u8>, relative: Vec<u8> },
    /// The schema, or why it is refused.
    Done(Result<SchemaSource, String>),
}

/// What became of a schema, by its contents.
pub open spec fn source_of(outcome: Result<SchemaSource, String>) -> Result<
    (Seq<u8>, Seq<char>),
    Seq<char>,
> {
    match outcome {
        Ok(source) => Ok((source.proto_root@, source.release@)),
        Err(error) => Err(error@),
    }
}

/// The path that git is asked about: the way to the schema, or a dot where that is empty.
pub open spec fn status_path(proto_root: Seq<u8>, git_root: Seq<u8>) -> Seq<u8> {
    if way(proto_root, git_root).len() == 0 {
        seq![0x2eu8]
    } else {
        way(proto_root, git_root)
    }
}

impl SourceFindings {
    /// Nothing is known.
    pub fn new() -> (findings: SourceFindings)
        ensures
            findings == (SourceFindings {
                nested: None,
                direct: None,
                proto_root: None,
                toplevel: None,
                git_root: None,
                head: None,
                status: None,
            }),
    {
        SourceFindings {
            nested: None,
            direct: None,
            proto_root: None,
            toplevel: None,
            git_root: None,
            head: None,
            status: None,
        }
    }

    /// The findings are those of this checkout.
    pub open spec fn holds_of(self, checkout: Checkout) -> bool {
        &&& self.nested matches Some(nested) ==> checkout.nested == nested
        &&& self.direct matches Some(direct) ==> checkout.direct == direct
        &&& self.proto_root matches Some(found) ==> checkout.proto_root == path_of(found)
        &&& self.toplevel matches Some(found) ==> checkout.toplevel == output_of(found)
        &&& self.git_root matches Some(found) ==> checkout.git_root == path_of(found)
        &&& self.head matches Some(found) ==> checkout.head == output_of(found)
        &&& self.status matches Some(found) ==> checkout.status == output_of(found)
    }

    /// What a step asks is not known yet, and it is asked of the right place.
    pub open spec fn leaves_open(self, root: Seq<u8>, step: SourceStep) -> bool {
        match step {
            SourceStep::NestedEntrypoint(path) => self.nested is None && path@ == below(
                chosen_root(root, true),
                encode_utf8(ENTRYPOINT@),
            ),
            SourceStep::Entrypoint(path) => self.nested == Some(false) && self.direct is None
                && path@ == below(root, encode_utf8(ENTRYPOINT@)),
            SourceStep::CanonicalizeProtoRoot(path) => {
                &&& self.proto_root is None
                &&& self.nested is Some
                &&& self.nested->Some_0 || self.direct == Some(true)
                &&& path@ == chosen_root(root, self.nested->Some_0)
            },
            SourceStep::InspectToplevel(path) => {
                &&& self.toplevel is None
                &&& self.proto_root matches Some(Ok(proto_root))
                &&& path@ == proto_root@
            },
            SourceStep::CanonicalizeGitRoot(path) => {
                &&& self.git_root is None
                &&& self.toplevel matches Some(Ok(git))
                &&& git.success
                &&& printed_path(git.stdout@, "OpenEngine Git root"@) == Ok::<
                    Seq<u8>,
                    Seq<char>,
                >(path@)
            },
            SourceStep::ReadHead(path) => {
                &&& self.head is None
                &&& self.git_root matches Some(Ok(git_root))
                &&& path@ == git_root@
            },
            SourceStep::InspectStatus { git_root, relative } => {
                &&& self.status is None
                &&& self.head is Some
                &&& self.git_root matches Some(Ok(checkout))
                &&& git_root@ == checkout@
                &&& self.proto_root matches Some(Ok(proto_root))
                &&& relative@ == status_path(proto_root@, checkout@)
            },
            SourceStep::Done(_) => true,
        }
    }
}

/// What is known of the root of the schema: a question, or the root.
pub enum RootStep {
    Ask(SourceStep),
    Known(Result<Vec<u8>, String>),
}

/// Finds the canonical root of the schema, or the question that comes next.
pub fn schema_proto_root(root: &Vec<u8>, findings: &SourceFindings) -> (step: RootStep)
    ensures
        match step {
            RootStep::Ask(step) => {
                &&& step is NestedEntrypoint || step is Entrypoint || step is CanonicalizeProtoRoot
                &&& findings.leaves_open(root@, step)
            },
            RootStep::Known(outcome) => {
                &&& outcome matches Ok(path) ==> (findings.proto_root matches Some(Ok(found))
                    && found@ == path@)
                &&& forall|checkout: Checkout| #[trigger]
                    findings.holds_of(checkout) ==> schema_root(root@, checkout) == path_of(outcome)
            },
        },
{
    let proto_root = join_path(root, "proto");
    let nested = match findings.nested {
        None => {
            return RootStep::Ask(
                SourceStep::NestedEntrypoint(join_path(&proto_root, ENTRYPOINT)),
            );
        },
        Some(nested) => nested,
    };
    let proto_root = if nested {
        proto_root
    } else {
        copy_bytes(root)
    };
    if !nested {
        let entrypoint = join_path(root, ENTRYPOINT);
        match findings.direct {
            None => {
                return RootStep::Ask(SourceStep::Entrypoint(entrypoint));
            },
            Some(direct) => {
                if !direct {
                    return RootStep::Known(
                        Err(
                            join3(
                                "OpenEngine schema entrypoint not found at ",
                                lossy_text(entrypoint.as_slice()).as_str(),
                                "; OPENENGINE_PROTO_ROOT must name the repository or its `proto` directory",
                            ),
                        ),
                    );
                }
            },
        }
    }
    match &findings.proto_root {
        None => RootStep::Ask(SourceStep::CanonicalizeProtoRoot(proto_root)),
        Some(Ok(canonical)) => RootStep::Known(Ok(copy_bytes(canonical))),
        Some(Err(error)) => RootStep::Known(
            Err(
                join4(
                    "failed to canonicalize OpenEngine proto root ",
                    lossy_text(proto_root.as_slice()).as_str(),
                    ": ",
                    error.as_str(),
                ),
            ),
        ),
    }
}

/// What is known of the release of a schema: a question, or the release.
pub enum ReleaseStep {
    Ask(SourceStep),
    Known(Result<String, String>),
}

/// Finds the release of a schema in a checkout, or the question that comes next.
pub fn checkout_release(
    root: &Vec<u8>,
    proto_root: &Vec<u8>,
    git_root: &Vec<u8>,
    expected_git_commit: &str,
    explicit_release: Option<&str>,
    findings: &SourceFindings,
) -> (step: ReleaseStep)
    requires
        findings.proto_root matches Some(Ok(found)) && found@ == proto_root@,
        findings.git_root matches Some(Ok(found)) && found@ == git_root@,
    ensures
        match step {
            ReleaseStep::Ask(step) => {
                &&& step is ReadHead || step is InspectStatus
                &&& findings.leaves_open(root@, step)
            },
            ReleaseStep::Known(outcome) => forall|checkout: Checkout| #[trigger]
                findings.holds_of(checkout) ==> pinned_release(
                    proto_root@,
                    git_root@,
                    expected_git_commit@,
                    explicit_release,
                    checkout,
                ) == contents_of(outcome),
        },
{
    let head = match &findings.head {
        None => {
            return ReleaseStep::Ask(SourceStep::ReadHead(copy_bytes(git_root)));
        },
        Some(output) => match checked_git_stdout("rev-parse --verify HEAD", output) {
            Ok(head) => head,
            Err(error) => {
                return ReleaseStep::Known(Err(error));
            },
        },
    };
    if !same(head.as_str(), expected_git_commit) {
        return ReleaseStep::Known(
            Err(
                join5(
                    "OPENENGINE_PROTO_ROOT is at Git commit `",
                    head.as_str(),
                    "`, expected `",
                    expected_git_commit,
                    "`",
                ),
            ),
        );
    }
    if let Some(release) = explicit_release {
        if let Err(error) = validate_release_identity(release) {
            return ReleaseStep::Known(Err(error));
        }
        if !same(release, head.as_str()) {
            return ReleaseStep::Known(
                Err(
                    join5(
                        "OPENENGINE_SCHEMA_RELEASE `",
                        release,
                        "` does not match OpenEngine Git HEAD `",
                        head.as_str(),
                        "`",
                    ),
                ),
            );
        }
    }
    let mut relative = match relative_path(proto_root, git_root) {
        Some(relative) => relative,
        None => {
            return ReleaseStep::Known(
                Err(
                    join4(
                        "OpenEngine proto root ",
                        lossy_text(proto_root.as_slice()).as_str(),
                        " is outside Git root ",
                        lossy_text(git_root.as_slice()).as_str(),
                    ),
                ),
            );
        },
    };
    if relative.len() == 0 {
        relative.push(0x2e);
        assert(relative@ == seq![0x2eu8]);
    }
    match &findings.status {
        None => ReleaseStep::Ask(
            SourceStep::InspectStatus { git_root: copy_bytes(git_root), relative },
        ),
        Some(Err(error)) => ReleaseStep::Known(
            Err(join2("failed to inspect OpenEngine proto cleanliness: ", error.as_str())),
        ),
        Some(Ok(status)) => {
            if !status.success {
                let stderr = lossy_text(status.stderr.as_slice());
                return ReleaseStep::Known(
                    Err(
                        join2(
                            "failed to inspect OpenEngine proto cleanliness: ",
                            trim(stderr.as_str()),
                        ),
                    ),
                );
            }
            if status.stdout.len() > 0 {
                return ReleaseStep::Known(
                    Err(
                        join4(
                            "OPENENGINE_PROTO_ROOT must be clean at `",
                            expected_git_commit,
                            "`; commit or remove changes under ",
                            lossy_text(proto_root.as_slice()).as_str(),
                        ),
                    ),
                );
            }
            ReleaseStep::Known(Ok(head))
        },
    }
}

/// Finds the schema in a directory, or the question to the machine that comes next. A checkout
/// has to be at the expected commit and clean below the schema; a directory outside git needs an
/// explicit release. What became of the schema holds whatever is not known yet.
pub fn resolve_local_source(
    root: &Vec<u8>,
    expected_git_commit: &str,
    explicit_release: Option<&str>,
    findings: &SourceFindings,
) -> (step: SourceStep)
    ensures
        findings.leaves_open(root@, step),
        !is_hex(expected_git_commit@, 40) ==> step is Done,
        step matches SourceStep::Done(outcome) ==> forall|checkout: Checkout| #[trigger]
            findings.holds_of(checkout) ==> resolved(
                root@,
                expected_git_commit@,
                explicit_release,
                checkout,
            ) == source_of(outcome),
{
    if !is_lower_hex(expected_git_commit, 40) {
        return SourceStep::Done(
            Err(
                "the pinned OpenEngine source commit must be exactly 40 lowercase hex".to_string(),
            ),
        );
    }
    let proto_root = match schema_proto_root(root, findings) {
        RootStep::Ask(step) => {
            return step;
        },
        RootStep::Known(Ok(proto_root)) => proto_root,
        RootStep::Known(Err(error)) => {
            return SourceStep::Done(Err(error));
        },
    };
    let git = match &findings.toplevel {
        None => {
            return SourceStep::InspectToplevel(proto_root);
        },
        Some(Err(error)) => {
            return SourceStep::Done(
                Err(join2("failed to inspect OpenEngine Git metadata: ", error.as_str())),
            );
        },
        Some(Ok(git)) => git,
    };
    if !git.success {
        let release = match explicit_release {
            Some(release) => release,
            None => {
                return SourceStep::Done(
                    Err(
                        "OPENENGINE_PROTO_ROOT has no Git metadata; set OPENENGINE_SCHEMA_RELEASE to its exact 32-hex BSR or 40-hex source commit".to_string(),
                    ),
                );
            },
        };
        return match validate_release_identity(release) {
            Ok(()) => SourceStep::Done(
                Ok(SchemaSource { proto_root, release: release.to_string() }),
            ),
            Err(error) => SourceStep::Done(Err(error)),
        };
    }
    let path = match parse_path_output(git.stdout.as_slice(), "OpenEngine Git root") {
        Ok(path) => path,
        Err(error) => {
            return SourceStep::Done(Err(error));
        },
    };
    let git_root = match &findings.git_root {
        None => {
            return SourceStep::CanonicalizeGitRoot(path);
        },
        Some(Err(error)) => {
            return SourceStep::Done(
                Err(
                    join4(
                        "failed to canonicalize OpenEngine Git root ",
                        lossy_text(path.as_slice()).as_str(),
                        ": ",
                        error.as_str(),
                    ),
                ),
            );
        },
        Some(Ok(git_root)) => git_root,
    };
    match checkout_release(
        root,
        &proto_root,
        git_root,
        expected_git_commit,
        explicit_release,
        findings,
    ) {
        ReleaseStep::Ask(step) => step,
        ReleaseStep::Known(Ok(release)) => SourceStep::Done(
            Ok(SchemaSource { proto_root, release }),
        ),
        ReleaseStep::Known(Err(error)) => SourceStep::Done(Err(error)),
    }
}

/// The release that a module names for an export, or why it names none.
pub open spec fn exported_release(module: Seq<char>) -> Result<Seq<char>, Seq<char>> {
    if !BSR_MODULE_PREFIX@.is_prefix_of(module) {
        Err(
            "OPENENGINE_BSR_MODULE must be an immutable `buf.build/openengine/openengine:<commit>` input, got `"@
                + module + "`"@,
        )
    } else {
        match split_at_last(module, ':') {
            Some((_, commit)) => if commit.len() > 0 {
                Ok(commit)
            } else {
                Err("OPENENGINE_BSR_MODULE is missing its immutable commit"@)
            },
            None => Err("OPENENGINE_BSR_MODULE is missing its immutable commit"@),
        }
    }
}

/// Reads the release that a module names for an export.
pub fn export_release(module: &str) -> (release: Result<String, String>)
    ensures
        contents_of(release) == exported_release(module@),
{
    if !begins_with(module, BSR_MODULE_PREFIX) {
        return Err(
            join3(
                "OPENENGINE_BSR_MODULE must be an immutable `buf.build/openengine/openengine:<commit>` input, got `",
                module,
                "`",
            ),
        );
    }
    match rsplit_once(module, ':') {
        Some((_, commit)) => {
            if commit.is_empty() {
                Err("OPENENGINE_BSR_MODULE is missing its immutable commit".to_string())
            } else {
                Ok(commit.to_string())
            }
        },
        None => Err("OPENENGINE_BSR_MODULE is missing its immutable commit".to_string()),
    }
}

/// A module that is taken names its commit in full: what follows the prefix is the commit, and
/// the commit cannot move.
pub proof fn module_names_its_commit(module: Seq<char>)
    ensures
        module_commit(module) matches Ok(commit) ==> module == BSR_MODULE_PREFIX@ + commit
            && is_hex(commit, 32),
        forall|commit: Seq<char>|
            is_hex(commit, 32) && module == BSR_MODULE_PREFIX@ + commit ==> module_commit(module)
                == Ok::<Seq<char>, Seq<char>>(commit),
{
    let prefix = BSR_MODULE_PREFIX@;
    if prefix.is_prefix_of(module) {
        assert(module == prefix + module.skip(prefix.len() as int));
    }
    assert forall|commit: Seq<char>|
        is_hex(commit, 32) && module == prefix + commit implies module_commit(module) == Ok::<
        Seq<char>,
        Seq<char>,
    >(commit) by {
        assert(module.take(prefix.len() as int) == prefix);
        assert(prefix.is_prefix_of(module));
        assert(module.skip(prefix.len() as int) == commit);
    }
}

/// A schema that is taken has an exact identity. One in a checkout is that of the pinned commit,
/// nothing has changed below it, and an explicit release says the same.
pub proof fn source_is_pinned(
    root: Seq<u8>,
    expected: Seq<char>,
    explicit: Option<&str>,
    checkout: Checkout,
)
    requires
        resolved(root, expected, explicit, checkout) is Ok,
    ensures
        ({
            let (_, release) = resolved(root, expected, explicit, checkout)->Ok_0;
            &&& is_hex(release, 32) || is_hex(release, 40)
            &&& explicit matches Some(stated) ==> stated@ == release
            &&& checkout.toplevel->Ok_0.success ==> {
                &&& release == expected
                &&& checkout.status->Ok_0.success
                &&& checkout.status->Ok_0.stdout.len() == 0
            }
        }),
{
}

/// A release is an exact identity if and only if it is 32 or 40 characters long and holds nothing
/// but decimal digits and the letters from a to f.
pub proof fn identities_are_exact(release: Seq<char>)
    ensures
        identity_fault(release) is None <==> (release.len() == 32 || release.len() == 40) && forall|
            i: int,
        |
            0 <= i < release.len() ==> ('0' <= #[trigger] release[i] <= '9') || ('a' <= release[i]
                <= 'f'),
{
}

/// The path that a command prints is what it prints without the white space around it; what is no
/// text, or shows nothing, is no path.
pub proof fn printed_paths_are_trimmed(stdout: Seq<u8>, name: Seq<char>)
    ensures
        printed_path(stdout, name) is Ok <==> valid_utf8(stdout) && trimmed(
            decode_utf8(stdout),
        ).len() > 0,
        printed_path(stdout, name) matches Ok(path) ==> path == encode_utf8(
            trimmed(decode_utf8(stdout)),
        ),
        printed_path(stdout, name) matches Err(error) ==> name.is_prefix_of(error),
{
    if printed_path(stdout, name) is Err {
        let error = printed_path(stdout, name)->Err_0;
        assert(error.take(name.len() as int) =~= name);
    }
}

/// The text of a git command is what it prints without the white space around it, and only of a
/// command that ran and succeeded.
pub proof fn git_texts_need_success(arguments: Seq<char>, output: Result<OutputModel, Seq<char>>)
    ensures
        git_text(arguments, output) is Ok <==> output is Ok && output->Ok_0.success && valid_utf8(
            output->Ok_0.stdout,
        ),
        git_text(arguments, output) matches Ok(text) ==> text == trimmed(
            decode_utf8(output->Ok_0.stdout),
        ),
{
}

/// A schema is clean if and only if git could tell its status and had nothing to tell.
pub proof fn silence_is_cleanliness(
    proto_root: Seq<u8>,
    expected: Seq<char>,
    status: Result<OutputModel, Seq<char>>,
)
    ensures
        uncleanliness(proto_root, expected, status) is None <==> status is Ok
            && status->Ok_0.success && status->Ok_0.stdout.len() == 0,
{
}

/// An explicit release agrees with a checkout if and only if it is an exact identity and that of
/// the checkout; outside git it is taken if and only if it is an exact identity, and needed.
pub proof fn explicit_releases_agree(release: &str, head: Seq<char>)
    ensures
        release_conflict(None, head) is None,
        release_conflict(Some(release), head) is None <==> identity_fault(release@) is None
            && release@ == head,
        stated_release(None) is Err,
        stated_release(Some(release)) is Ok <==> identity_fault(release@) is None,
        stated_release(Some(release)) matches Ok(taken) ==> taken == release@,
{
}

/// The schema stands below the directory `proto` where its entry stands there, and else in the
/// directory that is given; it is found if and only if its entry stands in one of the two and the
/// directory can be resolved.
pub proof fn schemas_are_found_by_their_entry(root: Seq<u8>, checkout: Checkout)
    ensures
        schema_root(root, checkout) is Ok <==> (checkout.nested || checkout.direct)
            && checkout.proto_root is Ok,
        schema_root(root, checkout) matches Ok(found) ==> Ok::<Seq<u8>, Seq<char>>(found)
            == checkout.proto_root,
        chosen_root(root, true) == below(root, encode_utf8("proto"@)),
        chosen_root(root, false) == root,
{
}

/// A clean checkout of the pinned commit is taken, under that commit, with an explicit release that
/// says the same or without one.
pub proof fn clean_checkouts_are_taken(
    root: Seq<u8>,
    expected: Seq<char>,
    explicit: Option<&str>,
    checkout: Checkout,
)
    requires
        is_hex(expected, 40),
        checkout.nested || checkout.direct,
        checkout.proto_root is Ok,
        checkout.toplevel matches Ok(git) && git.success && valid_utf8(git.stdout) && trimmed(
            decode_utf8(git.stdout),
        ).len() > 0,
        checkout.git_root is Ok,
        lies_within(checkout.proto_root->Ok_0, checkout.git_root->Ok_0),
        checkout.head matches Ok(head) && head.success && valid_utf8(head.stdout) && trimmed(
            decode_utf8(head.stdout),
        ) == expected,
        checkout.status matches Ok(status) && status.success && status.stdout.len() == 0,
        explicit matches Some(release) ==> release@ == expected,
    ensures
        resolved(root, expected, explicit, checkout) == Ok::<(Seq<u8>, Seq<char>), Seq<char>>(
            (checkout.proto_root->Ok_0, expected),
        ),
{
}

/// A checkout of another commit, one that is not clean, and one that the schema lies outside of are
/// refused, and so is a directory outside git without an explicit release.
pub proof fn unpinned_sources_are_refused(
    root: Seq<u8>,
    expected: Seq<char>,
    explicit: Option<&str>,
    checkout: Checkout,
)
    ensures
        checkout.toplevel is Ok && checkout.toplevel->Ok_0.success && checkout.head is Ok
            && valid_utf8(checkout.head->Ok_0.stdout) && trimmed(
            decode_utf8(checkout.head->Ok_0.stdout),
        ) != expected ==> resolved(root, expected, explicit, checkout) is Err,
        checkout.toplevel is Ok && checkout.toplevel->Ok_0.success && checkout.status is Ok
            && checkout.status->Ok_0.stdout.len() > 0 ==> resolved(
            root,
            expected,
            explicit,
            checkout,
        ) is Err,
        checkout.toplevel is Ok && checkout.toplevel->Ok_0.success && checkout.proto_root is Ok
            && checkout.git_root is Ok && !lies_within(
            checkout.proto_root->Ok_0,
            checkout.git_root->Ok_0,
        ) ==> resolved(root, expected, explicit, checkout) is Err,
        checkout.toplevel is Ok && !checkout.toplevel->Ok_0.success && explicit is None ==> resolved(
            root,
            expected,
            explicit,
            checkout,
        ) is Err,
        expected.len() != 40 ==> resolved(root, expected, explicit, checkout) is Err,
{
}

/// A schema outside git is taken under its explicit release.
pub proof fn stated_sources_are_taken(
    root: Seq<u8>,
    expected: Seq<char>,
    release: &str,
    checkout: Checkout,
)
    requires
        is_hex(expected, 40),
        is_hex(release@, 32) || is_hex(release@, 40),
        checkout.nested || checkout.direct,
        checkout.proto_root is Ok,
        checkout.toplevel matches Ok(git) && !git.success,
    ensures
        resolved(root, expected, Some(release), checkout) == Ok::<
            (Seq<u8>, Seq<char>),
            Seq<char>,
        >((checkout.proto_root->Ok_0, release@)),
{
}

/// The release of an exported module is what stands behind its last colon; a module of another
/// place, or without a commit, has none.
pub proof fn exports_name_their_commit(module: Seq<char>, commit: Seq<char>)
    ensures
        module == BSR_MODULE_PREFIX@ + commit && commit.len() > 0 && !commit.contains(':')
            ==> exported_release(module) == Ok::<Seq<char>, Seq<char>>(commit),
        module == BSR_MODULE_PREFIX@ ==> exported_release(module) is Err,
        !BSR_MODULE_PREFIX@.is_prefix_of(module) ==> exported_release(module) is Err,
{
    reveal_strlit("buf.build/openengine/openengine:");
    let prefix = BSR_MODULE_PREFIX@;
    let front = prefix.drop_last();
    assert(prefix =~= front + seq![':']);
    if module == prefix + commit {
        assert(module =~= front + seq![':'] + commit);
        assert(module.take(prefix.len() as int) =~= prefix);
        if !commit.contains(':') {
            parts_split_again(front, ':', commit);
        }
    }
    if module == prefix {
        assert(module =~= front + seq![':'] + Seq::<char>::empty());
        parts_split_again(front, ':', Seq::empty());
    }
}

/// Git is asked about the whole checkout where the schema is the checkout, and about the way to the
/// schema where it stands below.
pub proof fn git_is_asked_about_the_schema(git_root: Seq<u8>, name: Seq<u8>)
    requires
        git_root.len() > 0,
        name.len() > 0,
        name != seq![0x2eu8],
        !name.contains(0x2f),
    ensures
        status_path(git_root, git_root) == seq![0x2eu8],
        status_path(below(git_root, name), git_root) == name,
{
    names_below_lie_within(git_root, name);
}

/// What is known of a checkout is what was found: each finding says what was asked, and of nothing
/// else.
pub proof fn findings_are_what_was_found(findings: SourceFindings, checkout: Checkout)
    requires
        findings.holds_of(checkout),
    ensures
        findings.nested is Some ==> findings.nested->Some_0 == checkout.nested,
        findings.direct is Some ==> findings.direct->Some_0 == checkout.direct,
        findings.proto_root matches Some(Ok(path)) ==> checkout.proto_root == Ok::<
            Seq<u8>,
            Seq<char>,
        >(path@),
        findings.proto_root matches Some(Err(error)) ==> checkout.proto_root == Err::<
            Seq<u8>,
            Seq<char>,
        >(error@),
        findings.git_root matches Some(Ok(path)) ==> checkout.git_root == Ok::<
            Seq<u8>,
            Seq<char>,
        >(path@),
        findings.git_root matches Some(Err(error)) ==> checkout.git_root == Err::<
            Seq<u8>,
            Seq<char>,
        >(error@),
        findings.toplevel matches Some(Ok(output)) ==> checkout.toplevel is Ok
            && checkout.toplevel->Ok_0.success == output.success && checkout.toplevel->Ok_0.stdout
            == output.stdout@ && checkout.toplevel->Ok_0.stderr == output.stderr@,
        findings.head matches Some(Ok(output)) ==> checkout.head is Ok
            && checkout.head->Ok_0.success == output.success && checkout.head->Ok_0.stdout
            == output.stdout@ && checkout.head->Ok_0.stderr == output.stderr@,
        findings.status matches Some(Ok(output)) ==> checkout.status is Ok
            && checkout.status->Ok_0.success == output.success && checkout.status->Ok_0.stdout
            == output.stdout@ && checkout.status->Ok_0.stderr == output.stderr@,
{
}

/// Nothing is asked twice: a step asks for what is still missing, and only once what it builds on
/// is known.
pub proof fn steps_ask_what_is_missing(findings: SourceFindings, root: Seq<u8>, step: SourceStep)
    requires
        findings.leaves_open(root, step),
    ensures
        step is NestedEntrypoint ==> findings.nested is None,
        step is Entrypoint ==> findings.nested == Some(false) && findings.direct is None,
        step is CanonicalizeProtoRoot ==> findings.proto_root is None && findings.nested is Some
            && (findings.nested == Some(true) || findings.direct == Some(true)),
        step is InspectToplevel ==> findings.toplevel is None && findings.proto_root is Some
            && findings.proto_root->Some_0 is Ok,
        step is CanonicalizeGitRoot ==> findings.git_root is None && findings.toplevel is Some
            && findings.toplevel->Some_0 is Ok && findings.toplevel->Some_0->Ok_0.success,
        step is ReadHead ==> findings.head is None && findings.git_root is Some
            && findings.git_root->Some_0 is Ok,
        step is InspectStatus ==> findings.status is None && findings.head is Some
            && findings.git_root is Some && findings.git_root->Some_0 is Ok
            && findings.proto_root is Some && findings.proto_root->Some_0 is Ok,
{
}

} // verus!
