use vllm_server::provenance::checked_git_stdout;
use vllm_server::provenance::export_release;
use vllm_server::provenance::is_lower_hex;
use vllm_server::provenance::parse_bsr_module;
use vllm_server::provenance::parse_path_output;
use vllm_server::provenance::resolve_local_source;
use vllm_server::provenance::CommandOutput;
use vllm_server::provenance::SchemaSource;
use vllm_server::provenance::SourceFindings;
use vllm_server::provenance::SourceStep;

const SOURCE_COMMIT: &str = "57cd5033554cd22ab9645ae6c17f34d7fa9f5bb0";

/// A checkout at /work/engine, as the machine would describe it.
struct Machine {
    nested: bool,
    direct: bool,
    versioned: bool,
    head: String,
    dirty: bool,
    asked: Vec<String>,
}

fn output(success: bool, stdout: &str) -> Result<CommandOutput, String> {
    Ok(CommandOutput {
        success,
        stdout: stdout.as_bytes().to_vec(),
        stderr: b"fatal: not a git repository\n".to_vec(),
    })
}

fn text(path: &[u8]) -> String {
    String::from_utf8(path.to_vec()).unwrap()
}

fn resolve(
    machine: &mut Machine,
    expected: &str,
    explicit: Option<&str>,
) -> Result<SchemaSource, String> {
    let root = b"/work/engine".to_vec();
    let mut findings = SourceFindings::new();
    loop {
        match resolve_local_source(&root, expected, explicit, &findings) {
            SourceStep::NestedEntrypoint(path) => {
                assert_eq!(text(&path), "/work/engine/proto/openengine/v1/openengine.proto");
                findings.nested = Some(machine.nested);
            }
            SourceStep::Entrypoint(path) => {
                assert_eq!(text(&path), "/work/engine/openengine/v1/openengine.proto");
                findings.direct = Some(machine.direct);
            }
            SourceStep::CanonicalizeProtoRoot(path) => findings.proto_root = Some(Ok(path)),
            SourceStep::InspectToplevel(path) => {
                machine.asked.push(text(&path));
                findings.toplevel = Some(output(machine.versioned, "/work/engine\n"));
            }
            SourceStep::CanonicalizeGitRoot(path) => {
                assert_eq!(text(&path), "/work/engine");
                findings.git_root = Some(Ok(path));
            }
            SourceStep::ReadHead(path) => {
                assert_eq!(text(&path), "/work/engine");
                findings.head = Some(output(true, &format!("{}\n", machine.head)));
            }
            SourceStep::InspectStatus { git_root, relative } => {
                assert_eq!(text(&git_root), "/work/engine");
                machine.asked.push(text(&relative));
                let changed = if machine.dirty { " M openengine.proto\n" } else { "" };
                findings.status = Some(output(true, changed));
            }
            SourceStep::Done(outcome) => return outcome,
        }
    }
}

fn machine() -> Machine {
    Machine {
        nested: true,
        direct: false,
        versioned: true,
        head: SOURCE_COMMIT.to_string(),
        dirty: false,
        asked: Vec::new(),
    }
}

#[test]
fn bsr_module_requires_exact_immutable_commit() {
    let commit = "0123456789abcdef0123456789abcdef";
    assert_eq!(
        parse_bsr_module(&format!("buf.build/openengine/openengine:{commit}")).unwrap(),
        commit
    );
    for invalid in [
        "buf.build/openengine/openengine:main",
        "buf.build/openengine/openengine:0123456789abcdef0123456789abcde",
        "buf.build/openengine/openengine:0123456789abcdef0123456789abcdef0",
        "buf.build/openengine/openengine:0123456789ABCDEF0123456789ABCDEF",
        "buf.build/other/openengine:0123456789abcdef0123456789abcdef",
    ] {
        assert!(parse_bsr_module(invalid).is_err(), "{invalid} was accepted");
    }
}

#[test]
fn metadata_free_source_requires_explicit_exact_identity() {
    let mut unversioned = Machine { versioned: false, ..machine() };

    let error = resolve(&mut unversioned, SOURCE_COMMIT, None)
        .err()
        .expect("metadata-free source must require an identity");
    assert!(error.contains("OPENENGINE_SCHEMA_RELEASE"));

    let source = resolve(&mut unversioned, SOURCE_COMMIT, Some(SOURCE_COMMIT))
        .expect("exact source identity");
    assert_eq!(source.release, SOURCE_COMMIT);
    assert!(resolve(&mut unversioned, SOURCE_COMMIT, Some("main")).is_err());
}

#[test]
fn git_source_requires_pinned_head_and_clean_proto() {
    let mut checkout = machine();
    let source =
        resolve(&mut checkout, SOURCE_COMMIT, None).expect("clean pinned Git source");
    assert_eq!(source.release, SOURCE_COMMIT);
    assert_eq!(text(&source.proto_root), "/work/engine/proto");
    assert_eq!(checkout.asked, ["/work/engine/proto", "proto"]);

    let wrong_head = "0000000000000000000000000000000000000000";
    let error = resolve(&mut checkout, wrong_head, None).err().expect("wrong Git HEAD must fail");
    assert!(error.contains("expected"));

    let mut dirty = Machine { dirty: true, ..machine() };
    let error = resolve(&mut dirty, SOURCE_COMMIT, None).err().expect("dirty proto must fail");
    assert!(error.contains("must be clean"));
}

#[test]
fn schema_below_the_root_itself_is_found() {
    let mut flat = Machine { nested: false, direct: true, ..machine() };
    let source = resolve(&mut flat, SOURCE_COMMIT, None).unwrap();
    assert_eq!(text(&source.proto_root), "/work/engine");
    assert_eq!(flat.asked, ["/work/engine", "."]);
}

#[test]
fn schema_that_is_nowhere_is_refused() {
    let mut empty = Machine { nested: false, direct: false, ..machine() };
    let error = resolve(&mut empty, SOURCE_COMMIT, None).err().unwrap();
    assert_eq!(
        error,
        "OpenEngine schema entrypoint not found at \
         /work/engine/openengine/v1/openengine.proto; \
         OPENENGINE_PROTO_ROOT must name the repository or its `proto` directory"
    );
}

#[test]
fn explicit_release_has_to_match_the_checkout() {
    let mut checkout = machine();
    let other = "0123456789abcdef0123456789abcdef";
    let error = resolve(&mut checkout, SOURCE_COMMIT, Some(other)).err().unwrap();
    assert_eq!(
        error,
        format!(
            "OPENENGINE_SCHEMA_RELEASE `{other}` does not match OpenEngine Git HEAD \
             `{SOURCE_COMMIT}`"
        )
    );
    assert!(resolve(&mut checkout, SOURCE_COMMIT, Some(SOURCE_COMMIT)).is_ok());
    assert!(resolve(&mut checkout, "main", None).is_err());
}

#[test]
fn command_output_is_read_as_text() {
    assert_eq!(
        checked_git_stdout("rev-parse HEAD", &output(true, " abc \n")),
        Ok("abc".to_string())
    );
    assert_eq!(
        checked_git_stdout("rev-parse HEAD", &output(false, "")),
        Err("`git rev-parse HEAD` failed: fatal: not a git repository".to_string())
    );
    assert_eq!(
        checked_git_stdout("rev-parse HEAD", &Err("no git".to_string())),
        Err("failed to run `git rev-parse HEAD`: no git".to_string())
    );
    let bytes = vec![0x61, 0xff];
    let fault = std::str::from_utf8(&bytes).unwrap_err().to_string();
    let invalid = Ok(CommandOutput { success: true, stdout: bytes, stderr: Vec::new() });
    assert_eq!(
        checked_git_stdout("rev-parse HEAD", &invalid),
        Err(format!("`git rev-parse HEAD` returned invalid UTF-8: {fault}"))
    );
}

#[test]
fn error_output_that_is_no_text_is_shown_with_replacements() {
    let failed = Ok(CommandOutput {
        success: false,
        stdout: Vec::new(),
        stderr: vec![b'\n', 0x61, 0xff, b' '],
    });
    assert_eq!(
        checked_git_stdout("status", &failed),
        Err("`git status` failed: a\u{fffd}".to_string())
    );
}

#[test]
fn printed_path_is_trimmed() {
    assert_eq!(parse_path_output(b" /work \n", "root"), Ok(b"/work".to_vec()));
    assert_eq!(parse_path_output(b" \n", "root"), Err("root is empty".to_string()));
    let fault = std::str::from_utf8(&[0xc3]).unwrap_err().to_string();
    assert_eq!(
        parse_path_output(&[0xc3], "root"),
        Err(format!("root is not valid UTF-8: {fault}"))
    );
}

#[test]
fn hexadecimal_digits_are_counted() {
    assert!(is_lower_hex("0af", 3));
    assert!(!is_lower_hex("0af", 2));
    assert!(!is_lower_hex("0ag", 3));
    assert!(!is_lower_hex("0AF", 3));
    assert!(!is_lower_hex("\u{e9}a", 3));
}

#[test]
fn export_needs_a_commit() {
    assert_eq!(export_release("buf.build/openengine/openengine:main"), Ok("main".to_string()));
    assert_eq!(
        export_release("buf.build/openengine/openengine:"),
        Err("OPENENGINE_BSR_MODULE is missing its immutable commit".to_string())
    );
    assert!(export_release("buf.build/other:main").is_err());
}
