use compact::catalogue::{load_compiler_version, AssetRef, FormatError, MidnightArtifacts, RawRelease};
use compact::cli::{parse_compile_arguments, CompileRequest, ExternalCommandError};
use compact::console::{Color, Icons, Style, TextStyle};
use compact::install::{
    check_unpack, check_status, CheckStatus, InstallEvent, InstallOutcome, InstallPipeline, InstallStep,
    Stage, UnexpectedEvent, UnpackReport,
};
use compact::layout::{decompose, LayoutError, ToolchainPath};
use compact::link::{confirm_activation, must_remove_before_link, resolve, ExistingEntry, LinkRead, StateError};
use compact::version::{Version, VersionSpec};
use compact::{Command, CommandLineArguments, CompactDirectory, Target};

fn path(parts: &[&str]) -> ToolchainPath {
    ToolchainPath::new(parts.iter().map(|p| p.to_string()).collect())
}

fn parts(p: &ToolchainPath) -> Vec<&str> {
    p.components.iter().map(|c| c.as_str()).collect()
}

fn asset(name: &str) -> AssetRef {
    AssetRef::new(name.to_string(), format!("https://example.invalid/{name}"))
}

fn raw(tag: &str, names: &[&str]) -> RawRelease {
    RawRelease { tag_name: tag.to_string(), assets: names.iter().map(|n| asset(n)).collect() }
}

fn full(tag: &str) -> RawRelease {
    raw(tag, &["compactc-x86_64-unknown-linux-musl.zip", "compactc-aarch64-apple-darwin.zip"])
}

fn root() -> CompactDirectory {
    CompactDirectory(path(&["/", "home", "u", ".compact"]))
}

fn cfg(target: Target) -> CommandLineArguments {
    CommandLineArguments {
        target,
        directory: root(),
        command: Command::Check,
        style: Style::default(),
        icons: Icons::default(),
    }
}

#[test]
fn release_record_loads() {
    let c = load_compiler_version(full("compactc-v0.29.1")).unwrap();
    assert_eq!(c.version, Version::new(0, 29, 1));
    assert_eq!(c.macos.name, "compactc-aarch64-apple-darwin.zip");
    assert_eq!(c.linux.name, "compactc-x86_64-unknown-linux-musl.zip");
}

#[test]
fn release_record_last_asset_of_a_family_wins() {
    let c = load_compiler_version(raw(
        "compactc-v1.0.0",
        &["a-linux", "b-apple-darwin", "c-linux", "d-apple-darwin"],
    ))
    .unwrap();
    assert_eq!(c.linux.name, "c-linux");
    assert_eq!(c.macos.name, "d-apple-darwin");
}

#[test]
fn release_record_errors() {
    assert_eq!(
        load_compiler_version(full("v0.29.1")).unwrap_err(),
        FormatError::InvalidTag { tag: "v0.29.1".to_string() }
    );
    assert!(matches!(
        load_compiler_version(full("compactc-v0.29")).unwrap_err(),
        FormatError::InvalidVersion { tag, .. } if tag == "compactc-v0.29"
    ));
    assert_eq!(
        load_compiler_version(raw("compactc-v1.0.0", &["x-linux", "x-windows", "y-plan9"])).unwrap_err(),
        FormatError::UnsupportedPlatform { tag: "compactc-v1.0.0".to_string(), asset: "x-windows".to_string() }
    );
    assert_eq!(
        load_compiler_version(raw("compactc-v1.0.0", &["x-linux"])).unwrap_err(),
        FormatError::MissingMacos { tag: "compactc-v1.0.0".to_string() }
    );
    assert_eq!(
        load_compiler_version(raw("compactc-v1.0.0", &["x-apple-darwin"])).unwrap_err(),
        FormatError::MissingLinux { tag: "compactc-v1.0.0".to_string() }
    );
}

#[test]
fn catalogue_load_fails_on_first_bad_record() {
    let e = MidnightArtifacts::from_releases(vec![
        full("compactc-v0.1.0"),
        full("nightly"),
        raw("compactc-v0.2.0", &["x"]),
    ])
    .unwrap_err();
    assert_eq!(e, FormatError::InvalidTag { tag: "nightly".to_string() });
}

#[test]
fn catalogue_load_orders_versions() {
    let cat = MidnightArtifacts::from_releases(vec![
        full("compactc-v0.29.0"),
        full("compactc-v0.28.0"),
        full("compactc-v0.29.1"),
    ])
    .unwrap();
    assert_eq!(
        cat.versions(),
        vec![Version::new(0, 28, 0), Version::new(0, 29, 0), Version::new(0, 29, 1)]
    );
}

#[test]
fn layout_paths() {
    let dir = root();
    assert_eq!(parts(&dir.bin_dir()), vec!["/", "home", "u", ".compact", "bin"]);
    assert_eq!(parts(&dir.versions_dir()), vec!["/", "home", "u", ".compact", "versions"]);
    assert_eq!(parts(&dir.link_path()), vec!["/", "home", "u", ".compact", "bin", "compactc"]);
    let under = CompactDirectory::under_home(&path(&["/", "home", "u"]));
    assert_eq!(under, dir);
    let c = load_compiler_version(full("compactc-v0.29.1")).unwrap();
    let a = c.compiler(&cfg(Target::x86_64UnknownLinuxMusl));
    assert_eq!(
        parts(&a.path_compactc()),
        vec!["/", "home", "u", ".compact", "versions", "0.29.1", "x86_64-unknown-linux-musl", "compactc"]
    );
    assert_eq!(
        parts(&a.path_zip()),
        vec!["/", "home", "u", ".compact", "versions", "0.29.1", "x86_64-unknown-linux-musl", "artifact"]
    );
    assert_eq!(a.download_url(), "https://example.invalid/compactc-x86_64-unknown-linux-musl.zip");
    let m = c.compiler(&cfg(Target::Aarch64AppleDarwin));
    assert_eq!(m.asset.name, "compactc-aarch64-apple-darwin.zip");
}

#[test]
fn layout_decompose_round_trips() {
    let dir = root();
    for target in [Target::x86_64UnknownLinuxMusl, Target::x86_64AppleDarwin, Target::Aarch64AppleDarwin] {
        for version in [Version::new(0, 0, 0), Version::new(0, 29, 1), Version::new(10, 200, 3000)] {
            let entry = dir.compiler_dir(version, target).join("compactc");
            assert_eq!(decompose(&entry).unwrap(), (version, target));
        }
    }
}

#[test]
fn layout_decompose_errors() {
    assert_eq!(decompose(&path(&["a", "b"])).unwrap_err(), LayoutError::TooShort);
    assert_eq!(
        decompose(&path(&["0.1.0", "windows", "compactc"])).unwrap_err(),
        LayoutError::UnknownTarget { name: "windows".to_string() }
    );
    assert!(matches!(
        decompose(&path(&["latest", "x86_64-apple-darwin", "compactc"])).unwrap_err(),
        LayoutError::InvalidVersion { .. }
    ));
}

#[test]
fn targets_by_name() {
    assert_eq!(Target::Aarch64AppleDarwin.name(), "aarch64-apple-darwin");
    assert_eq!(Target::from_name("x86_64-apple-darwin"), Some(Target::x86_64AppleDarwin));
    assert_eq!(Target::from_name("aarch64-apple-darwin"), Some(Target::Aarch64AppleDarwin));
    assert_eq!(Target::from_name("x86_64-unknown-linux-musl"), Some(Target::x86_64UnknownLinuxMusl));
    assert_eq!(Target::from_name("riscv"), None);
    assert_eq!(Target::for_platform("linux", "x86_64"), Some(Target::x86_64UnknownLinuxMusl));
    assert_eq!(Target::for_platform("macos", "aarch64"), Some(Target::Aarch64AppleDarwin));
    assert_eq!(Target::for_platform("windows", "x86_64"), None);
    assert!(!Target::x86_64UnknownLinuxMusl.is_macos());
}

#[test]
fn link_resolves_to_activated_version() {
    let dir = root();
    let entry = dir.compiler_dir(Version::new(0, 29, 1), Target::x86_64AppleDarwin).join("compactc");
    let r = resolve(LinkRead::Points { path: entry, is_file: true }).unwrap();
    assert_eq!(r, Some((Version::new(0, 29, 1), Target::x86_64AppleDarwin)));
}

#[test]
fn link_missing_is_unset() {
    assert_eq!(resolve(LinkRead::Missing).unwrap(), None);
}

#[test]
fn dangling_link_is_state_error() {
    let dir = root();
    let entry = dir.compiler_dir(Version::new(0, 29, 1), Target::x86_64AppleDarwin).join("compactc");
    assert!(matches!(
        resolve(LinkRead::Points { path: entry, is_file: false }),
        Err(StateError::NotAFile { .. })
    ));
}

#[test]
fn link_state_errors() {
    assert!(matches!(
        resolve(LinkRead::Failed { reason: "denied".to_string() }),
        Err(StateError::ReadFailed { reason }) if reason == "denied"
    ));
    assert!(matches!(
        resolve(LinkRead::Points { path: path(&["/", "usr", "bin", "cc"]), is_file: true }),
        Err(StateError::Unrecognised { .. })
    ));
    assert!(matches!(must_remove_before_link(ExistingEntry::Other), Err(StateError::NotALink)));
    assert!(matches!(must_remove_before_link(ExistingEntry::Link), Ok(true)));
    assert!(matches!(must_remove_before_link(ExistingEntry::Absent), Ok(false)));
}

#[test]
fn activation_check_detects_other_version() {
    let dir = root();
    let old = dir.compiler_dir(Version::new(0, 28, 0), Target::x86_64UnknownLinuxMusl).join("compactc");
    let r = confirm_activation(Version::new(0, 29, 1), LinkRead::Points { path: old, is_file: true });
    assert!(matches!(
        r,
        Err(StateError::UnexpectedVersion { expected, found })
            if expected == Version::new(0, 29, 1) && found == Version::new(0, 28, 0)
    ));
    assert!(matches!(confirm_activation(Version::new(0, 29, 1), LinkRead::Missing), Err(StateError::Vanished)));
}

#[test]
fn second_install_does_no_transfer() {
    let mut cat = MidnightArtifacts::from_releases(vec![full("compactc-v0.29.1")]).unwrap();
    let mut p = InstallPipeline::start(&cfg(Target::x86_64UnknownLinuxMusl), &mut cat, None, true).unwrap();
    let step = p.advance(InstallEvent::Probed { entrypoint_present: true, archive_present: true }).unwrap();
    assert_eq!(step, InstallStep::Activate);
    assert_eq!(p.advance(InstallEvent::Activated).unwrap(), InstallStep::Finish);
    assert_eq!(
        p.outcome(),
        InstallOutcome { version: Version::new(0, 29, 1), installed: false, activated: true }
    );

    let mut cat = MidnightArtifacts::from_releases(vec![full("compactc-v0.29.1")]).unwrap();
    let mut q = InstallPipeline::start(&cfg(Target::x86_64UnknownLinuxMusl), &mut cat, None, false).unwrap();
    let step = q.advance(InstallEvent::Probed { entrypoint_present: true, archive_present: false }).unwrap();
    assert_eq!(step, InstallStep::Finish);
    assert!(!q.outcome().installed);
}

#[test]
fn cached_archive_is_not_downloaded_again() {
    let mut cat = MidnightArtifacts::from_releases(vec![full("compactc-v0.29.1")]).unwrap();
    let mut p = InstallPipeline::start(&cfg(Target::x86_64UnknownLinuxMusl), &mut cat, None, false).unwrap();
    let step = p.advance(InstallEvent::Probed { entrypoint_present: false, archive_present: true }).unwrap();
    assert_eq!(step, InstallStep::Unpack);
    assert_eq!(p.advance(InstallEvent::Unpacked).unwrap(), InstallStep::Finish);
    assert_eq!(
        p.outcome(),
        InstallOutcome { version: Version::new(0, 29, 1), installed: true, activated: false }
    );
}

#[test]
fn out_of_order_event_is_refused() {
    let mut cat = MidnightArtifacts::from_releases(vec![full("compactc-v0.29.1")]).unwrap();
    let mut p = InstallPipeline::start(&cfg(Target::x86_64UnknownLinuxMusl), &mut cat, None, false).unwrap();
    assert_eq!(
        p.advance(InstallEvent::Unpacked),
        Err(UnexpectedEvent { stage: Stage::Probing, event: InstallEvent::Unpacked })
    );
    assert_eq!(p.stage, Stage::Probing);
}

#[test]
fn pipeline_start_without_match_fails() {
    let mut cat = MidnightArtifacts::from_releases(vec![full("compactc-v0.29.1")]).unwrap();
    let r = InstallPipeline::start(&cfg(Target::x86_64UnknownLinuxMusl), &mut cat, Some(VersionSpec::Partial(0, 30)), true);
    assert!(r.is_err());
    let mut empty = MidnightArtifacts::new();
    assert!(InstallPipeline::start(&cfg(Target::x86_64UnknownLinuxMusl), &mut empty, None, true).is_err());
}

#[test]
fn end_to_end_partial_install_and_check() {
    let releases = || {
        vec![full("compactc-v0.28.0"), full("compactc-v0.29.0"), full("compactc-v0.29.1")]
    };
    let mut cat = MidnightArtifacts::from_releases(releases()).unwrap();
    let spec = VersionSpec::parse("0.29").unwrap();
    assert_eq!(spec, VersionSpec::Partial(0, 29));
    let target = Target::x86_64UnknownLinuxMusl;
    let mut p = InstallPipeline::start(&cfg(target), &mut cat, Some(spec), true).unwrap();
    assert_eq!(p.compiler.version, Version::new(0, 29, 1));
    assert_eq!(cat.len(), 2);

    let step = p.advance(InstallEvent::Probed { entrypoint_present: false, archive_present: false }).unwrap();
    assert_eq!(step, InstallStep::Download);
    assert_eq!(p.advance(InstallEvent::Downloaded).unwrap(), InstallStep::Unpack);
    assert_eq!(p.advance(InstallEvent::Unpacked).unwrap(), InstallStep::Activate);

    let written = p.compiler.path_compactc();
    assert_eq!(
        parts(&written),
        vec!["/", "home", "u", ".compact", "versions", "0.29.1", "x86_64-unknown-linux-musl", "compactc"]
    );
    let (v, t) = confirm_activation(p.compiler.version, LinkRead::Points { path: written, is_file: true }).unwrap();
    assert_eq!((v, t), (Version::new(0, 29, 1), target));
    assert_eq!(p.advance(InstallEvent::Activated).unwrap(), InstallStep::Finish);
    assert_eq!(
        p.outcome(),
        InstallOutcome { version: Version::new(0, 29, 1), installed: true, activated: true }
    );

    let mut fresh = MidnightArtifacts::from_releases(releases()).unwrap();
    let (latest, _) = fresh.select(None).unwrap();
    assert_eq!(check_status(Some(v), latest), CheckStatus::UpToDate { current: v });
}

#[test]
fn check_status_cases() {
    let latest = Version::new(0, 29, 1);
    assert_eq!(check_status(None, latest), CheckStatus::NotInstalled { latest });
    let old = Version::new(0, 28, 0);
    assert_eq!(check_status(Some(old), latest), CheckStatus::UpdateAvailable { current: old, latest });
    let newer = Version::new(1, 0, 0);
    assert_eq!(check_status(Some(newer), latest), CheckStatus::UpToDate { current: newer });
}

#[test]
fn unpack_failure_carries_diagnostics() {
    let report = UnpackReport {
        success: false,
        status: "exit status: 9".to_string(),
        stderr: "bad zip".to_string(),
        program: "unzip".to_string(),
        working_dir: path(&["/", "tmp"]),
    };
    let e = check_unpack(report).unwrap_err();
    assert_eq!(e.status, "exit status: 9");
    assert_eq!(e.stderr, "bad zip");
    assert_eq!(e.program, "unzip");
    assert_eq!(parts(&e.working_dir), vec!["/", "tmp"]);
    let ok = UnpackReport {
        success: true,
        status: "exit status: 0".to_string(),
        stderr: String::new(),
        program: "unzip".to_string(),
        working_dir: path(&["/"]),
    };
    assert!(check_unpack(ok).is_ok());
}

#[test]
fn compile_arguments() {
    let args = |a: &[&str]| a.iter().map(|s| s.to_string()).collect::<Vec<_>>();
    assert_eq!(
        parse_compile_arguments(&args(&["compile", "+0.21.0", "src", "+0.22.1", "out"])).unwrap(),
        CompileRequest { version: Some(Version::new(0, 22, 1)), arguments: args(&["src", "out"]) }
    );
    assert_eq!(
        parse_compile_arguments(&args(&["compile", "--help"])).unwrap(),
        CompileRequest { version: None, arguments: args(&["--help"]) }
    );
    assert_eq!(parse_compile_arguments(&args(&[])).unwrap_err(), ExternalCommandError::MissingCommand);
    assert_eq!(
        parse_compile_arguments(&args(&["build"])).unwrap_err(),
        ExternalCommandError::UnknownCommand { command: "build".to_string() }
    );
    assert!(matches!(
        parse_compile_arguments(&args(&["compile", "+latest"])).unwrap_err(),
        ExternalCommandError::InvalidVersion { error } if error.text == "latest"
    ));
}

#[test]
fn console_styles() {
    let style = Style::default();
    let label = style.label();
    assert_eq!(label.content, "compact");
    assert_eq!(label.style, TextStyle { color: Color::Magenta, bold: true, italic: false });
    assert_eq!(style.version(Version::new(1, 2, 3)).style.color, Color::Cyan);
    assert_eq!(style.target(Target::x86_64AppleDarwin).content, Target::x86_64AppleDarwin);
    assert!(style.artifact("installed versions").style.italic);
    assert_eq!(style.version_raw("0.29.1").content, "0.29.1");
    assert_eq!(style.success("default").style.color, Color::Green);
    assert_eq!(style.warn("Update Available").style.color, Color::Yellow);
    let icons = Icons::default();
    assert_eq!(icons.arrow.plain, "->");
    assert_eq!(icons.arrow.fancy, "\u{2192}");
}
