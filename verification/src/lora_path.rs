//! Which paths adapters may be loaded from.

use vstd::prelude::*;

use crate::foreign::lossy;
use crate::foreign::lossy_text;
use crate::paths::lies_within;
use crate::paths::starts_with;
use crate::text::chars_of;

verus! {

/// The variable that names the directories that adapters may be loaded from at run time.
pub const RUNTIME_LORA_ALLOWED_PATH_PREFIXES_ENV: &'static str =
    "VLLM_RUNTIME_LORA_ALLOWED_PATH_PREFIXES";

/// What a path may name.
#[derive(Clone, Copy, Debug, PartialEq, Eq, Structural)]
pub enum LoraPathMode {
    LocalOrRemote,
    LocalDirectory,
}

/// Why an adapter may not be loaded from a path.
#[derive(Debug)]
pub enum LoraPathError {
    MissingAllowedPrefixes,
    MustBeAbsolute,
    InvalidPath { source: String },
    InvalidPrefix { source: String },
    NotDirectory,
    OutsideAllowedPrefixes,
}

/// The directories that are named, without the empty ones.
pub open spec fn named_prefixes(paths: Seq<Vec<u8>>) -> Seq<Vec<u8>>
    decreases paths.len(),
{
    if paths.len() == 0 {
        Seq::empty()
    } else if paths.last()@.len() > 0 {
        named_prefixes(paths.drop_last()).push(paths.last())
    } else {
        named_prefixes(paths.drop_last())
    }
}

/// The directories that adapters may be loaded from, given those that the variable lists. There
/// are none where the variable is not set or lists only empty ones.
pub fn runtime_lora_allowed_path_prefixes(listed: Option<Vec<Vec<u8>>>) -> (prefixes: Option<
    Vec<Vec<u8>>,
>)
    ensures
        match (listed, prefixes) {
            (None, prefixes) => prefixes is None,
            (Some(listed), Some(prefixes)) => prefixes@.len() > 0 && prefixes@ == named_prefixes(
                listed@,
            ),
            (Some(listed), None) => named_prefixes(listed@).len() == 0,
        },
{
    let mut listed = match listed {
        Some(listed) => listed,
        None => {
            return None;
        },
    };
    let ghost all = listed@;
    let mut prefixes: Vec<Vec<u8>> = Vec::new();
    let mut taken: Ghost<int> = Ghost(0);
    assert(all.skip(0) == all);
    while listed.len() > 0
        invariant
            0 <= taken@ <= all.len(),
            listed@ == all.skip(taken@),
            prefixes@ == named_prefixes(all.take(taken@)),
        decreases listed@.len(),
    {
        let path = listed.remove(0);
        proof {
            assert(path == all[taken@]);
            assert(all.take(taken@ + 1).drop_last() == all.take(taken@));
            assert(listed@ == all.skip(taken@ + 1));
            taken@ = taken@ + 1;
        }
        if path.len() > 0 {
            prefixes.push(path);
        }
    }
    assert(all.take(taken@) == all);
    if prefixes.len() == 0 {
        None
    } else {
        Some(prefixes)
    }
}

/// Two dots stand at this place as a component of a path.
pub open spec fn is_parent_at(path: Seq<char>, at: int) -> bool {
    &&& 0 <= at
    &&& at + 2 <= path.len()
    &&& path[at] == '.'
    &&& path[at + 1] == '.'
    &&& at == 0 || path[at - 1] == '/'
    &&& at + 2 == path.len() || path[at + 2] == '/'
}

/// A component of the path leads to the parent.
pub open spec fn has_parent(path: Seq<char>) -> bool {
    exists|at: int| is_parent_at(path, at)
}

/// The path begins at the root.
pub open spec fn is_absolute_path(path: Seq<char>) -> bool {
    path.len() > 0 && path[0] == '/'
}

/// The path is written as one of the machine's own.
pub open spec fn looks_local(path: Seq<char>) -> bool {
    ||| is_absolute_path(path)
    ||| path.len() > 0 && path[0] == '~'
    ||| path.len() > 0 && path[0] == '.'
    ||| has_parent(path)
}

/// Whether a path begins at the root.
pub fn is_absolute(path: &str) -> (absolute: bool)
    ensures
        absolute == is_absolute_path(path@),
{
    !path.is_empty() && path.get_char(0) == '/'
}

/// Whether a path is written as one of the machine's own: from the root, the home or the working
/// directory, or through a parent.
pub fn looks_like_local_lora_path(path: &str) -> (local: bool)
    ensures
        local == looks_local(path@),
{
    let chars = chars_of(path);
    if chars.len() > 0 && (chars[0] == '/' || chars[0] == '~' || chars[0] == '.') {
        return true;
    }
    let mut i: usize = 0;
    while i < chars.len()
        invariant
            i <= chars@.len(),
            chars@ == path@,
            forall|at: int| 0 <= at < i ==> !#[trigger] is_parent_at(path@, at),
        decreases chars@.len() - i,
    {
        let rest: usize = chars.len() - i;
        if rest >= 2 && chars[i] == '.' && chars[i + 1] == '.' && (i == 0 || chars[i - 1] == '/')
            && (rest == 2 || chars[i + 2] == '/') {
            assert(is_parent_at(path@, i as int));
            return true;
        }
        i += 1;
    }
    false
}

/// What the file system says of the path of an adapter and of the allowed directories: whether
/// something is there, the canonical path, whether that is a directory, and the canonical paths
/// of the allowed directories.
pub ghost struct FileSystem {
    pub exists: bool,
    pub canonical: Result<Seq<u8>, Seq<char>>,
    pub directory: Result<bool, Seq<char>>,
    pub prefixes: Seq<Result<Seq<u8>, Seq<char>>>,
}

/// What is known of the file system.
#[derive(Debug)]
pub struct PathFindings {
    pub exists: Option<bool>,
    pub canonical: Option<Result<Vec<u8>, String>>,
    pub directory: Option<Result<bool, String>>,
    pub prefixes: Vec<Vec<u8>>,
    pub prefix_failure: Option<String>,
}

/// A question to the file system, or the decision on a path.
#[derive(Debug)]
pub enum PathStep {
    /// Is something at the path?
    Exists,
    /// Which is the canonical path?
    Canonicalize,
    /// Is there a directory at the canonical path?
    IsDirectory,
    /// Which is the canonical path of this allowed directory?
    CanonicalizePrefix(usize),
    /// What is decided: the canonical path, nothing for a remote adapter, or why it is refused.
    Done(Result<Option<String>, LoraPathError>),
}

/// A decision, by its contents.
pub ghost enum PathDecision {
    Remote,
    Local(Seq<char>),
    MissingAllowedPrefixes,
    MustBeAbsolute,
    InvalidPath(Seq<char>),
    InvalidPrefix(Seq<char>),
    NotDirectory,
    OutsideAllowedPrefixes,
}

/// What a decision says.
pub open spec fn decision_of(outcome: Result<Option<String>, LoraPathError>) -> PathDecision {
    match outcome {
        Ok(None) => PathDecision::Remote,
        Ok(Some(path)) => PathDecision::Local(path@),
        Err(LoraPathError::MissingAllowedPrefixes) => PathDecision::MissingAllowedPrefixes,
        Err(LoraPathError::MustBeAbsolute) => PathDecision::MustBeAbsolute,
        Err(LoraPathError::InvalidPath { source }) => PathDecision::InvalidPath(source@),
        Err(LoraPathError::InvalidPrefix { source }) => PathDecision::InvalidPrefix(source@),
        Err(LoraPathError::NotDirectory) => PathDecision::NotDirectory,
        Err(LoraPathError::OutsideAllowedPrefixes) => PathDecision::OutsideAllowedPrefixes,
    }
}

/// The first allowed directory without a canonical path.
pub open spec fn first_failure(prefixes: Seq<Result<Seq<u8>, Seq<char>>>) -> Option<Seq<char>>
    decreases prefixes.len(),
{
    if prefixes.len() == 0 {
        None
    } else {
        match (first_failure(prefixes.drop_last()), prefixes.last()) {
            (Some(error), _) => Some(error),
            (None, Err(error)) => Some(error),
            (None, Ok(_)) => None,
        }
    }
}

/// A path lies at or below one of the allowed directories.
pub open spec fn is_allowed(path: Seq<u8>, prefixes: Seq<Result<Seq<u8>, Seq<char>>>) -> bool {
    exists|i: int|
        0 <= i < prefixes.len() && #[trigger] prefixes[i] is Ok && lies_within(
            path,
            prefixes[i]->Ok_0,
        )
}

/// The decision on a path. `limited` tells whether there are allowed directories.
pub open spec fn judged(
    path: Seq<char>,
    limited: bool,
    mode: LoraPathMode,
    files: FileSystem,
) -> PathDecision {
    if mode == LoraPathMode::LocalOrRemote && !looks_local(path) && !files.exists {
        PathDecision::Remote
    } else if mode == LoraPathMode::LocalDirectory && !is_absolute_path(path) {
        PathDecision::MustBeAbsolute
    } else if mode == LoraPathMode::LocalDirectory && files.canonical is Err {
        PathDecision::InvalidPath(files.canonical->Err_0)
    } else if mode == LoraPathMode::LocalDirectory && files.directory is Err {
        PathDecision::InvalidPath(files.directory->Err_0)
    } else if mode == LoraPathMode::LocalDirectory && !files.directory->Ok_0 {
        PathDecision::NotDirectory
    } else if !limited {
        PathDecision::MissingAllowedPrefixes
    } else if !is_absolute_path(path) {
        PathDecision::MustBeAbsolute
    } else if files.canonical is Err {
        PathDecision::InvalidPath(files.canonical->Err_0)
    } else if first_failure(files.prefixes) is Some {
        PathDecision::InvalidPrefix(first_failure(files.prefixes)->Some_0)
    } else if is_allowed(files.canonical->Ok_0, files.prefixes) {
        PathDecision::Local(lossy(files.canonical->Ok_0))
    } else {
        PathDecision::OutsideAllowedPrefixes
    }
}

/// How many directories are allowed.
pub open spec fn allowed_count(allowed: Option<usize>) -> nat {
    match allowed {
        Some(n) => n as nat,
        None => 0,
    }
}

impl PathFindings {
    /// Nothing is known.
    pub fn new() -> (findings: PathFindings)
        ensures
            findings.exists is None,
            findings.canonical is None,
            findings.directory is None,
            findings.prefixes@.len() == 0,
            findings.prefix_failure is None,
    {
        PathFindings {
            exists: None,
            canonical: None,
            directory: None,
            prefixes: Vec::new(),
            prefix_failure: None,
        }
    }

    /// The findings are those of this file system, for this many allowed directories.
    pub open spec fn holds_of(self, files: FileSystem, allowed: nat) -> bool {
        &&& files.prefixes.len() == allowed
        &&& self.exists matches Some(exists) ==> exists == files.exists
        &&& match self.canonical {
            Some(Ok(path)) => files.canonical == Ok::<Seq<u8>, Seq<char>>(path@),
            Some(Err(error)) => files.canonical == Err::<Seq<u8>, Seq<char>>(error@),
            None => true,
        }
        &&& match self.directory {
            Some(Ok(directory)) => files.directory == Ok::<bool, Seq<char>>(directory),
            Some(Err(error)) => files.directory == Err::<bool, Seq<char>>(error@),
            None => true,
        }
        &&& self.prefixes@.len() <= allowed
        &&& forall|i: int|
            0 <= i < self.prefixes@.len() ==> #[trigger] files.prefixes[i] == Ok::<
                Seq<u8>,
                Seq<char>,
            >(self.prefixes@[i]@)
        &&& self.prefix_failure matches Some(error) ==> self.prefixes@.len() < allowed
            && files.prefixes[self.prefixes@.len() as int] == Err::<Seq<u8>, Seq<char>>(error@)
    }

    /// What a step asks is not known yet.
    pub open spec fn leaves_open(self, step: PathStep, allowed: nat) -> bool {
        match step {
            PathStep::Exists => self.exists is None,
            PathStep::Canonicalize => self.canonical is None,
            PathStep::IsDirectory => self.directory is None && self.canonical matches Some(Ok(_)),
            PathStep::CanonicalizePrefix(i) => i == self.prefixes@.len() && i < allowed
                && self.prefix_failure is None,
            PathStep::Done(_) => true,
        }
    }
}

proof fn lemma_no_failure(prefixes: Seq<Result<Seq<u8>, Seq<char>>>, n: int)
    requires
        0 <= n <= prefixes.len(),
        forall|i: int| 0 <= i < n ==> #[trigger] prefixes[i] is Ok,
    ensures
        first_failure(prefixes.take(n)) is None,
    decreases n,
{
    if n > 0 {
        lemma_no_failure(prefixes, n - 1);
        assert(prefixes.take(n).drop_last() == prefixes.take(n - 1));
    }
}

proof fn lemma_first_failure(prefixes: Seq<Result<Seq<u8>, Seq<char>>>, at: int, n: int)
    requires
        0 <= at < n <= prefixes.len(),
        forall|i: int| 0 <= i < at ==> #[trigger] prefixes[i] is Ok,
        prefixes[at] is Err,
    ensures
        first_failure(prefixes.take(n)) == Some(prefixes[at]->Err_0),
    decreases n,
{
    assert(prefixes.take(n).drop_last() == prefixes.take(n - 1));
    if n - 1 > at {
        lemma_first_failure(prefixes, at, n - 1);
    } else {
        lemma_no_failure(prefixes, at);
    }
}

/// Whether a path lies at or below one of these directories.
fn within_any(path: &Vec<u8>, directories: &Vec<Vec<u8>>) -> (found: bool)
    ensures
        found == exists|i: int|
            0 <= i < directories@.len() && lies_within(path@, (#[trigger] directories@[i])@),
{
    let mut i: usize = 0;
    while i < directories.len()
        invariant
            i <= directories@.len(),
            forall|j: int| 0 <= j < i ==> !lies_within(path@, (#[trigger] directories@[j])@),
        decreases directories@.len() - i,
    {
        if starts_with(path, &directories[i]) {
            return true;
        }
        i += 1;
    }
    false
}

/// Decides whether an adapter may be loaded from a path, or which question to the file system
/// comes next. A decision holds whatever is not known yet. `allowed` is the number of allowed
/// directories, where there is a list of them.
pub fn validate_lora_path_access(
    lora_path: &str,
    allowed: Option<usize>,
    mode: LoraPathMode,
    findings: &PathFindings,
) -> (step: PathStep)
    requires
        allowed matches Some(n) ==> findings.prefixes@.len() <= n,
        allowed is None ==> findings.prefixes@.len() == 0,
        findings.prefix_failure is Some ==> (allowed matches Some(n) && findings.prefixes@.len()
            < n),
    ensures
        findings.leaves_open(step, allowed_count(allowed)),
        step matches PathStep::Done(outcome) ==> forall|files: FileSystem| #[trigger]
            findings.holds_of(files, allowed_count(allowed)) ==> judged(
                lora_path@,
                allowed is Some,
                mode,
                files,
            ) == decision_of(outcome),
{
    let absolute = is_absolute(lora_path);
    if let LoraPathMode::LocalOrRemote = mode {
        if !looks_like_local_lora_path(lora_path) {
            match findings.exists {
                None => {
                    return PathStep::Exists;
                },
                Some(exists) => {
                    if !exists {
                        return PathStep::Done(Ok(None));
                    }
                },
            }
        }
    } else {
        if !absolute {
            return PathStep::Done(Err(LoraPathError::MustBeAbsolute));
        }
        match &findings.canonical {
            None => {
                return PathStep::Canonicalize;
            },
            Some(Err(error)) => {
                return PathStep::Done(Err(LoraPathError::InvalidPath { source: error.clone() }));
            },
            Some(Ok(_)) => {},
        }
        match &findings.directory {
            None => {
                return PathStep::IsDirectory;
            },
            Some(Err(error)) => {
                return PathStep::Done(Err(LoraPathError::InvalidPath { source: error.clone() }));
            },
            Some(Ok(directory)) => {
                if !*directory {
                    return PathStep::Done(Err(LoraPathError::NotDirectory));
                }
            },
        }
    }
    let allowed: usize = match allowed {
        Some(allowed) => allowed,
        None => {
            return PathStep::Done(Err(LoraPathError::MissingAllowedPrefixes));
        },
    };
    if !absolute {
        return PathStep::Done(Err(LoraPathError::MustBeAbsolute));
    }
    let canonical = match &findings.canonical {
        None => {
            return PathStep::Canonicalize;
        },
        Some(Err(error)) => {
            return PathStep::Done(Err(LoraPathError::InvalidPath { source: error.clone() }));
        },
        Some(Ok(canonical)) => canonical,
    };
    let known: usize = findings.prefixes.len();
    if let Some(error) = &findings.prefix_failure {
        proof {
            assert forall|files: FileSystem| #[trigger]
                findings.holds_of(files, allowed as nat) implies first_failure(files.prefixes)
                == Some(error@) by {
                lemma_first_failure(files.prefixes, known as int, allowed as int);
                assert(files.prefixes.take(allowed as int) == files.prefixes);
            }
        }
        return PathStep::Done(Err(LoraPathError::InvalidPrefix { source: error.clone() }));
    }
    if known < allowed {
        return PathStep::CanonicalizePrefix(known);
    }
    proof {
        assert forall|files: FileSystem| #[trigger]
            findings.holds_of(files, allowed as nat) implies first_failure(
            files.prefixes,
        ) is None by {
            lemma_no_failure(files.prefixes, allowed as int);
            assert(files.prefixes.take(allowed as int) == files.prefixes);
        }
    }
    if within_any(canonical, &findings.prefixes) {
        proof {
            let i = choose|i: int|
                0 <= i < findings.prefixes@.len() && lies_within(
                    canonical@,
                    (#[trigger] findings.prefixes@[i])@,
                );
            assert forall|files: FileSystem| #[trigger]
                findings.holds_of(files, allowed as nat) implies is_allowed(
                canonical@,
                files.prefixes,
            ) by {
                assert(files.prefixes[i] is Ok);
            }
        }
        return PathStep::Done(Ok(Some(lossy_text(canonical.as_slice()))));
    }
    proof {
        assert forall|files: FileSystem| #[trigger]
            findings.holds_of(files, allowed as nat) implies !is_allowed(
            canonical@,
            files.prefixes,
        ) by {
            assert forall|i: int|
                0 <= i < files.prefixes.len() && #[trigger] files.prefixes[i] is Ok implies !lies_within(
                canonical@,
                files.prefixes[i]->Ok_0,
            ) by {
                assert(!lies_within(canonical@, findings.prefixes@[i]@));
            }
        }
    }
    PathStep::Done(Err(LoraPathError::OutsideAllowedPrefixes))
}

/// An adapter is loaded from a local path only where the path is absolute and its canonical form
/// lies at or below an allowed directory.
pub proof fn local_adapters_stay_inside(
    path: Seq<char>,
    limited: bool,
    mode: LoraPathMode,
    files: FileSystem,
)
    requires
        judged(path, limited, mode, files) is Local,
    ensures
        limited,
        is_absolute_path(path),
        files.canonical matches Ok(canonical) && is_allowed(canonical, files.prefixes),
        mode == LoraPathMode::LocalDirectory ==> files.directory == Ok::<bool, Seq<char>>(true),
{
}

/// A path that is written as one of the machine's own is never taken for a remote adapter.
pub proof fn local_paths_are_checked(
    path: Seq<char>,
    limited: bool,
    mode: LoraPathMode,
    files: FileSystem,
)
    requires
        looks_local(path),
    ensures
        !(judged(path, limited, mode, files) is Remote),
{
}

/// The allowed directories are those that are listed, one by one and in order, without the empty
/// ones.
pub proof fn prefixes_are_those_that_are_named(
    front: Seq<Vec<u8>>,
    back: Seq<Vec<u8>>,
    path: Vec<u8>,
)
    ensures
        named_prefixes(front + back) == named_prefixes(front) + named_prefixes(back),
        path@.len() > 0 ==> named_prefixes(seq![path]) == seq![path],
        path@.len() == 0 ==> named_prefixes(seq![path]).len() == 0,
    decreases back.len(),
{
    reveal_with_fuel(named_prefixes, 2);
    assert(seq![path].drop_last() =~= Seq::<Vec<u8>>::empty());
    assert(Seq::<Vec<u8>>::empty().push(path) =~= seq![path]);
    if back.len() == 0 {
        assert(front + back =~= front);
        assert(named_prefixes(front) + named_prefixes(back) =~= named_prefixes(front));
    } else {
        prefixes_are_those_that_are_named(front, back.drop_last(), path);
        assert((front + back).drop_last() =~= front + back.drop_last());
        assert(named_prefixes(front + back) =~= named_prefixes(front) + named_prefixes(back));
    }
}

/// A path is written as one of the machine's own if and only if it begins with a slash, a tilde or
/// a dot, or goes through a parent somewhere.
pub proof fn local_paths_show_it(front: Seq<char>, back: Seq<char>, path: Seq<char>)
    ensures
        looks_local(seq!['/'] + back),
        looks_local(seq!['~'] + back),
        looks_local(seq!['.'] + back),
        looks_local(front + seq!['/', '.', '.', '/'] + back),
        looks_local(front + seq!['/', '.', '.']),
        path.len() > 0 && path[0] != '/' && path[0] != '~' && path[0] != '.' && !(exists|at: int|
            0 <= at < path.len() - 1 && #[trigger] path[at] == '.' && path[at + 1] == '.')
            ==> !looks_local(path),
        !looks_local(Seq::empty()),
{
    assert((seq!['/'] + back)[0] == '/');
    assert((seq!['~'] + back)[0] == '~');
    assert((seq!['.'] + back)[0] == '.');
    assert(is_parent_at(front + seq!['/', '.', '.', '/'] + back, front.len() as int + 1));
    assert(is_parent_at(front + seq!['/', '.', '.'], front.len() as int + 1));
    if has_parent(path) {
        let at = choose|at: int| is_parent_at(path, at);
        assert(path[at] == '.' && path[at + 1] == '.');
    }
    if has_parent(Seq::empty()) {
        let at = choose|at: int| is_parent_at(Seq::empty(), at);
    }
}

/// The allowed directories are in order if and only if each has a canonical path; else the first
/// that has none is told.
pub proof fn first_bad_prefix_is_told(prefixes: Seq<Result<Seq<u8>, Seq<char>>>, at: int)
    ensures
        (forall|i: int| 0 <= i < prefixes.len() ==> #[trigger] prefixes[i] is Ok) ==> first_failure(
            prefixes,
        ) is None,
        0 <= at < prefixes.len() && prefixes[at] is Err && (forall|i: int|
            0 <= i < at ==> #[trigger] prefixes[i] is Ok) ==> first_failure(prefixes) == Some(
            prefixes[at]->Err_0,
        ),
{
    assert(prefixes.take(prefixes.len() as int) =~= prefixes);
    if forall|i: int| 0 <= i < prefixes.len() ==> #[trigger] prefixes[i] is Ok {
        lemma_no_failure(prefixes, prefixes.len() as int);
    }
    if 0 <= at < prefixes.len() && prefixes[at] is Err && (forall|i: int|
        0 <= i < at ==> #[trigger] prefixes[i] is Ok) {
        lemma_first_failure(prefixes, at, prefixes.len() as int);
    }
}

/// An adapter is remote if and only if remote ones are accepted, its path is not written as one of
/// the machine's own, and nothing stands there.
pub proof fn remote_adapters_are_not_here(
    path: Seq<char>,
    limited: bool,
    mode: LoraPathMode,
    files: FileSystem,
)
    ensures
        judged(path, limited, mode, files) is Remote <==> mode == LoraPathMode::LocalOrRemote
            && !looks_local(path) && !files.exists,
{
}

/// An adapter on the machine is accepted, under its canonical path, if its path begins at the root
/// and its canonical path lies within an allowed directory; where a directory is asked for, one has
/// to stand there.
pub proof fn inner_paths_are_accepted(
    path: Seq<char>,
    mode: LoraPathMode,
    files: FileSystem,
    i: int,
)
    requires
        path.len() > 0,
        path[0] == '/',
        files.canonical is Ok,
        mode == LoraPathMode::LocalDirectory ==> files.directory == Ok::<bool, Seq<char>>(true),
        forall|k: int| 0 <= k < files.prefixes.len() ==> #[trigger] files.prefixes[k] is Ok,
        0 <= i < files.prefixes.len(),
        lies_within(files.canonical->Ok_0, files.prefixes[i]->Ok_0),
    ensures
        judged(path, true, mode, files) == PathDecision::Local(lossy(files.canonical->Ok_0)),
{
    first_bad_prefix_is_told(files.prefixes, 0);
    assert(files.prefixes[i] is Ok);
}

/// What is refused is refused for what is wrong with it: a relative path, a path that cannot be
/// resolved, a file where a directory is asked for, a missing list of allowed directories, or a
/// place outside all of them.
pub proof fn paths_are_refused_for_their_fault(
    path: Seq<char>,
    limited: bool,
    mode: LoraPathMode,
    files: FileSystem,
)
    ensures
        judged(path, limited, mode, files) is NotDirectory ==> mode == LoraPathMode::LocalDirectory
            && files.directory == Ok::<bool, Seq<char>>(false),
        judged(path, limited, mode, files) is MustBeAbsolute ==> path.len() == 0 || path[0] != '/',
        judged(path, limited, mode, files) is MissingAllowedPrefixes ==> !limited,
        judged(path, limited, mode, files) is OutsideAllowedPrefixes ==> {
            &&& limited
            &&& files.canonical is Ok
            &&& forall|i: int|
                0 <= i < files.prefixes.len() && #[trigger] files.prefixes[i] is Ok ==> !lies_within(
                    files.canonical->Ok_0,
                    files.prefixes[i]->Ok_0,
                )
        },
        judged(path, limited, mode, files) matches PathDecision::InvalidPath(error) ==> (
        files.canonical is Err && error == files.canonical->Err_0) || (mode
            == LoraPathMode::LocalDirectory && files.directory is Err && error
            == files.directory->Err_0),
        mode == LoraPathMode::LocalDirectory && path.len() > 0 && path[0] == '/' && files.canonical
            is Ok && files.directory == Ok::<bool, Seq<char>>(false) ==> judged(
            path,
            limited,
            mode,
            files,
        ) is NotDirectory,
        mode == LoraPathMode::LocalDirectory && (path.len() == 0 || path[0] != '/') ==> judged(
            path,
            limited,
            mode,
            files,
        ) is MustBeAbsolute,
        mode == LoraPathMode::LocalOrRemote && looks_local(path) && !limited ==> judged(
            path,
            limited,
            mode,
            files,
        ) is MissingAllowedPrefixes,
{
}

/// A decision says what was decided, and no two decisions say the same.
pub proof fn decisions_are_told_apart(path: String, error: String)
    ensures
        decision_of(Ok(None)) is Remote,
        decision_of(Ok(Some(path))) == PathDecision::Local(path@),
        decision_of(Err(LoraPathError::MissingAllowedPrefixes)) is MissingAllowedPrefixes,
        decision_of(Err(LoraPathError::MustBeAbsolute)) is MustBeAbsolute,
        decision_of(Err(LoraPathError::InvalidPath { source: error })) == PathDecision::InvalidPath(
            error@,
        ),
        decision_of(Err(LoraPathError::InvalidPrefix { source: error }))
            == PathDecision::InvalidPrefix(error@),
        decision_of(Err(LoraPathError::NotDirectory)) is NotDirectory,
        decision_of(Err(LoraPathError::OutsideAllowedPrefixes)) is OutsideAllowedPrefixes,
{
}

/// Two dots lead to the parent only as a whole component: between other characters they are part
/// of a name.
pub proof fn dots_within_names_are_names(path: Seq<char>)
    requires
        path.len() > 0,
        path[0] != '/' && path[0] != '~' && path[0] != '.',
        forall|at: int|
            0 <= at < path.len() - 1 && #[trigger] path[at] == '.' && path[at + 1] == '.' ==> (at
                > 0 && path[at - 1] != '/') || (at + 2 < path.len() && path[at + 2] != '/'),
    ensures
        !looks_local(path),
{
    if has_parent(path) {
        let at = choose|at: int| is_parent_at(path, at);
        assert(path[at] == '.' && path[at + 1] == '.');
    }
}

/// Nothing is asked twice: a step asks for what is still missing, a directory only of a canonical
/// path, and the allowed directories one after the other up to the first that has none.
pub proof fn steps_ask_what_is_missing(findings: PathFindings, step: PathStep, allowed: nat)
    requires
        findings.leaves_open(step, allowed),
    ensures
        step is Exists ==> findings.exists is None,
        step is Canonicalize ==> findings.canonical is None,
        step is IsDirectory ==> findings.directory is None && findings.canonical is Some
            && findings.canonical->Some_0 is Ok,
        step matches PathStep::CanonicalizePrefix(i) ==> findings.prefixes@.len() == i && i
            < allowed && findings.prefix_failure is None,
{
}

} // verus!
