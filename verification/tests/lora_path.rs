use vllm_server::lora_path::looks_like_local_lora_path;
use vllm_server::lora_path::runtime_lora_allowed_path_prefixes;
use vllm_server::lora_path::validate_lora_path_access;
use vllm_server::lora_path::LoraPathError;
use vllm_server::lora_path::LoraPathMode;
use vllm_server::lora_path::PathFindings;
use vllm_server::lora_path::PathStep;
use vllm_server::paths::join_path;
use vllm_server::paths::relative_path;
use vllm_server::paths::split_path;
use vllm_server::paths::starts_with;

struct Files {
    exists: bool,
    canonical: Result<&'static [u8], &'static str>,
    directory: Result<bool, &'static str>,
    prefixes: Vec<Result<&'static [u8], &'static str>>,
    questions: usize,
}

fn files() -> Files {
    Files {
        exists: false,
        canonical: Ok(b"/adapters/a"),
        directory: Ok(true),
        prefixes: vec![Ok(b"/other"), Ok(b"/adapters")],
        questions: 0,
    }
}

fn run(
    path: &str,
    limited: bool,
    mode: LoraPathMode,
    files: &mut Files,
) -> Result<Option<String>, LoraPathError> {
    let allowed = if limited { Some(files.prefixes.len()) } else { None };
    let mut findings = PathFindings::new();
    loop {
        match validate_lora_path_access(path, allowed, mode, &findings) {
            PathStep::Exists => findings.exists = Some(files.exists),
            PathStep::Canonicalize => {
                findings.canonical =
                    Some(files.canonical.map(|path| path.to_vec()).map_err(str::to_string))
            }
            PathStep::IsDirectory => {
                findings.directory = Some(files.directory.map_err(str::to_string))
            }
            PathStep::CanonicalizePrefix(i) => match files.prefixes[i] {
                Ok(prefix) => findings.prefixes.push(prefix.to_vec()),
                Err(error) => findings.prefix_failure = Some(error.to_string()),
            },
            PathStep::Done(outcome) => return outcome,
        }
        files.questions += 1;
    }
}

#[test]
fn remote_adapters_need_no_path() {
    let mut files = files();
    let outcome = run("org/adapter", false, LoraPathMode::LocalOrRemote, &mut files);
    assert!(matches!(outcome, Ok(None)));
    assert_eq!(files.questions, 1);
}

#[test]
fn adapter_below_an_allowed_directory_is_taken() {
    for mode in [LoraPathMode::LocalOrRemote, LoraPathMode::LocalDirectory] {
        let outcome = run("/adapters/link", true, mode, &mut files());
        assert!(matches!(outcome, Ok(Some(path)) if path == "/adapters/a"));
    }
}

#[test]
fn canonical_path_that_is_no_text_is_shown_with_replacements() {
    let mut files = Files { canonical: Ok(b"/adapters/\xff"), ..files() };
    let outcome = run("/adapters/x", true, LoraPathMode::LocalOrRemote, &mut files);
    assert!(matches!(outcome, Ok(Some(path)) if path == "/adapters/\u{fffd}"));
}

#[test]
fn adapter_outside_the_allowed_directories_is_refused() {
    let mut files = Files { canonical: Ok(b"/adapters-evil/a"), ..files() };
    let outcome = run("/adapters/../adapters-evil/a", true, LoraPathMode::LocalOrRemote, &mut files);
    assert!(matches!(outcome, Err(LoraPathError::OutsideAllowedPrefixes)));
}

#[test]
fn local_path_without_allowed_directories_is_refused() {
    let outcome = run("/adapters/a", false, LoraPathMode::LocalOrRemote, &mut files());
    assert!(matches!(outcome, Err(LoraPathError::MissingAllowedPrefixes)));
    let mut files = Files { exists: true, ..files() };
    let outcome = run("org/adapter", false, LoraPathMode::LocalOrRemote, &mut files);
    assert!(matches!(outcome, Err(LoraPathError::MissingAllowedPrefixes)));
}

#[test]
fn relative_path_is_refused() {
    let outcome = run("./a", true, LoraPathMode::LocalOrRemote, &mut files());
    assert!(matches!(outcome, Err(LoraPathError::MustBeAbsolute)));
    let outcome = run("a", true, LoraPathMode::LocalDirectory, &mut files());
    assert!(matches!(outcome, Err(LoraPathError::MustBeAbsolute)));
}

#[test]
fn path_that_cannot_be_looked_at_is_refused() {
    let mut missing = Files { canonical: Err("gone"), ..files() };
    let outcome = run("/a", true, LoraPathMode::LocalOrRemote, &mut missing);
    assert!(matches!(outcome, Err(LoraPathError::InvalidPath { source }) if source == "gone"));
    let mut hidden = Files { directory: Err("hidden"), ..files() };
    let outcome = run("/a", true, LoraPathMode::LocalDirectory, &mut hidden);
    assert!(matches!(outcome, Err(LoraPathError::InvalidPath { source }) if source == "hidden"));
    let mut file = Files { directory: Ok(false), ..files() };
    let outcome = run("/a", true, LoraPathMode::LocalDirectory, &mut file);
    assert!(matches!(outcome, Err(LoraPathError::NotDirectory)));
    let mut broken = Files { prefixes: vec![Ok(b"/adapters"), Err("bad")], ..files() };
    let outcome = run("/a", true, LoraPathMode::LocalOrRemote, &mut broken);
    assert!(matches!(outcome, Err(LoraPathError::InvalidPrefix { source }) if source == "bad"));
}

#[test]
fn local_paths_are_known_by_their_spelling() {
    for path in ["/a", "~/a", "./a", "../a", "a/../b", "a/..", ".hidden"] {
        assert!(looks_like_local_lora_path(path), "{path}");
    }
    for path in ["", "org/adapter", "a..b", "a/..b", "a/b..", "a/.../b"] {
        assert!(!looks_like_local_lora_path(path), "{path}");
    }
}

#[test]
fn empty_prefixes_do_not_count() {
    assert!(runtime_lora_allowed_path_prefixes(None).is_none());
    assert!(runtime_lora_allowed_path_prefixes(Some(vec![Vec::new()])).is_none());
    assert_eq!(
        runtime_lora_allowed_path_prefixes(Some(vec![b"/a".to_vec(), Vec::new(), b"/b".to_vec()])),
        Some(vec![b"/a".to_vec(), b"/b".to_vec()])
    );
}

#[test]
fn paths_are_compared_by_components() {
    let path = |text: &str| text.as_bytes().to_vec();
    let cases = ["", "/", "a", "./a", "/a", "/a/b", "/a//b/", "/a/./b", "/ab", "/a/../b", "a/b"];
    for left in cases {
        for right in cases {
            assert_eq!(
                starts_with(&path(left), &path(right)),
                std::path::Path::new(left).starts_with(right),
                "{left} {right}"
            );
        }
    }
    assert_eq!(split_path(&path("/a//./b/")), vec![path("a"), path("b")]);
    assert_eq!(relative_path(&path("/a/b/c"), &path("/a")), Some(path("b/c")));
    assert_eq!(relative_path(&path("/a"), &path("/a")), Some(path("")));
    assert_eq!(relative_path(&path("/ab"), &path("/a")), None);
    assert_eq!(join_path(&path("/a"), "b/c"), path("/a/b/c"));
    assert_eq!(join_path(&path("/"), "b"), path("/b"));
    assert_eq!(join_path(&path(""), "b"), path("b"));
}
