use zs::build::Arch;
use zs::cli::{parse_args, CliError, Command, Required, SetupCommand};
use zs::lexer::LexFailure;

const CWD: &str = "/home/dev/project";

fn parse(args: &[&str]) -> Result<Command, CliError> {
    parse_args(CWD, args.iter().map(|s| s.to_string()).collect())
}

fn missing(args: &[&str]) -> Required {
    match parse(args) {
        Err(CliError::Missing(r)) => r,
        other => panic!("expected a missing argument, got {other:?}"),
    }
}

#[test]
fn build_full_command_line() {
    let cmd = parse(&[
        "build",
        "--package", "com.example.app",
        "--manifest", "AndroidManifest.xml",
        "--java", "src/Main.java",
        "--java", "/abs/Other.java",
        "--jar", "libs/a.jar",
        "--resources", "res",
        "--sysmodules", "/opt/sysmodules",
        "--lib", "target/libmain.so",
        "--output", "out",
        "--jdk", "/opt/jdk",
        "--android-platform", "/sdk/platforms/android-36",
        "--android-build-tools", "/sdk/build-tools/36.0.0",
        "--arch", "arm64",
    ])
    .unwrap();
    let Command::Build(a) = cmd else { panic!("not a build") };
    assert_eq!(a.package, "com.example.app");
    assert_eq!(a.manifest, "/home/dev/project/AndroidManifest.xml");
    assert_eq!(a.java_files, vec!["/home/dev/project/src/Main.java", "/abs/Other.java"]);
    assert_eq!(a.jars, vec!["/home/dev/project/libs/a.jar"]);
    assert_eq!(a.resources.as_deref(), Some("/home/dev/project/res"));
    assert_eq!(a.sysmodules.as_deref(), Some("/opt/sysmodules"));
    assert_eq!(a.libs, vec!["/home/dev/project/target/libmain.so"]);
    assert_eq!(a.output, "/home/dev/project/out");
    assert_eq!(a.jdk, "/opt/jdk");
    assert_eq!(a.android_platform, "/sdk/platforms/android-36");
    assert_eq!(a.android_build_tools, "/sdk/build-tools/36.0.0");
    assert_eq!(a.arch, Arch::Arm64);
}

#[test]
fn build_default_output_and_equals_values() {
    let cmd = parse(&[
        "build", "--package=p", "--manifest=m.xml", "--java=A.java", "--jdk=/j",
        "--android-platform=/p", "--android-build-tools=/b", "--arch=amd64",
    ])
    .unwrap();
    let Command::Build(a) = cmd else { panic!("not a build") };
    assert_eq!(a.output, "/home/dev/project/.zs/build");
    assert_eq!(a.arch, Arch::Amd64);
    assert_eq!(a.package, "p");
    assert!(a.resources.is_none() && a.sysmodules.is_none() && a.jars.is_empty() && a.libs.is_empty());
}

#[test]
fn build_last_single_value_wins() {
    let cmd = parse(&[
        "build", "--package", "first", "--package", "second", "--manifest", "m", "--java", "A.java",
        "--jdk", "/j", "--android-platform", "/p", "--android-build-tools", "/b", "--arch", "arm64",
        "--arch", "amd64",
    ])
    .unwrap();
    let Command::Build(a) = cmd else { panic!("not a build") };
    assert_eq!(a.package, "second");
    assert_eq!(a.arch, Arch::Amd64);
}

#[test]
fn build_reports_missing_in_order() {
    assert_eq!(missing(&["build"]), Required::Package);
    assert_eq!(missing(&["build", "--package", "p"]), Required::Manifest);
    assert_eq!(missing(&["build", "--package", "p", "--manifest", "m"]), Required::JavaFiles);
    assert_eq!(missing(&["build", "--package", "p", "--manifest", "m", "--java", "A"]), Required::Jdk);
    assert_eq!(
        missing(&["build", "--package", "p", "--manifest", "m", "--java", "A", "--jdk", "/j"]),
        Required::AndroidPlatform
    );
    assert_eq!(
        missing(&["build", "--package", "p", "--manifest", "m", "--java", "A", "--jdk", "/j", "--android-platform", "/p"]),
        Required::AndroidBuildTools
    );
    assert_eq!(
        missing(&[
            "build", "--package", "p", "--manifest", "m", "--java", "A", "--jdk", "/j", "--android-platform", "/p",
            "--android-build-tools", "/b",
        ]),
        Required::Arch
    );
}

#[test]
fn build_rejects_unknown_arch() {
    match parse(&["build", "--arch", "riscv"]) {
        Err(CliError::UnsupportedArch(v)) => assert_eq!(v, "riscv"),
        other => panic!("{other:?}"),
    }
}

#[test]
fn unknown_option_and_positional_are_refused() {
    match parse(&["build", "--frobnicate"]) {
        Err(CliError::UnexpectedOption(o)) => assert_eq!(o, "--frobnicate"),
        other => panic!("{other:?}"),
    }
    match parse(&["build", "-x"]) {
        Err(CliError::UnexpectedOption(o)) => assert_eq!(o, "-x"),
        other => panic!("{other:?}"),
    }
    match parse(&["build", "stray"]) {
        Err(CliError::UnexpectedArgument(v)) => assert_eq!(v, "stray"),
        other => panic!("{other:?}"),
    }
}

#[test]
fn unknown_option_stops_before_later_lexer_errors() {
    match parse(&["build", "--bogus", "--package"]) {
        Err(CliError::UnexpectedOption(o)) => assert_eq!(o, "--bogus"),
        other => panic!("{other:?}"),
    }
}

#[test]
fn lexer_failures_are_reported() {
    match parse(&["build", "--package"]) {
        Err(CliError::Lexer(LexFailure::MissingValue(Some(o)))) => assert_eq!(o, "--package"),
        other => panic!("{other:?}"),
    }
    match parse(&["deploy", "app.apk", "--package", "p", "--launch=yes"]) {
        Err(CliError::Lexer(LexFailure::UnexpectedValue(o, v))) => {
            assert_eq!(o, "--launch");
            assert_eq!(v, "yes");
        }
        other => panic!("{other:?}"),
    }
}

#[test]
fn command_selection_errors() {
    assert!(matches!(parse(&[]), Err(CliError::MissingCommand)));
    match parse(&["explode"]) {
        Err(CliError::UnsupportedCommand(c)) => assert_eq!(c, "explode"),
        other => panic!("{other:?}"),
    }
    match parse(&["--help"]) {
        Err(CliError::UnexpectedOption(o)) => assert_eq!(o, "--help"),
        other => panic!("{other:?}"),
    }
    assert!(matches!(parse(&["setup"]), Err(CliError::MissingSetupTarget)));
    match parse(&["setup", "nothing"]) {
        Err(CliError::UnsupportedSetupTarget(t)) => assert_eq!(t, "nothing"),
        other => panic!("{other:?}"),
    }
}

#[test]
fn sign_command_line() {
    let cmd = parse(&["sign", "out/app.apk", "--android-build-tools", "/bt", "--keystore", "debug.keystore"]).unwrap();
    let Command::Sign(a) = cmd else { panic!("not sign") };
    assert_eq!(a.apk, "/home/dev/project/out/app.apk");
    assert_eq!(a.android_build_tools, "/bt");
    assert_eq!(a.keystore, "/home/dev/project/debug.keystore");
    assert!(matches!(parse(&["sign", "a.apk", "b.apk"]), Err(CliError::ExtraPositional)));
    assert_eq!(missing(&["sign"]), Required::SignApk);
    assert_eq!(missing(&["sign", "a.apk"]), Required::AndroidBuildTools);
    assert_eq!(missing(&["sign", "a.apk", "--android-build-tools", "/bt"]), Required::Keystore);
}

#[test]
fn deploy_command_line() {
    let cmd = parse(&["deploy", "app.apk", "--package", "com.x", "--launch"]).unwrap();
    let Command::Deploy(a) = cmd else { panic!("not deploy") };
    assert_eq!(a.apk, "/home/dev/project/app.apk");
    assert_eq!(a.package, "com.x");
    assert!(a.launch);
    let Command::Deploy(b) = parse(&["deploy", "app.apk", "--package", "com.x"]).unwrap() else { panic!() };
    assert!(!b.launch);
    assert_eq!(missing(&["deploy", "--package", "p"]), Required::DeployApk);
    assert_eq!(missing(&["deploy", "a.apk"]), Required::Package);
    assert!(matches!(parse(&["deploy", "a.apk", "b.apk"]), Err(CliError::ExtraPositional)));
}

#[test]
fn fetch_command_line() {
    let cmd = parse(&["fetch", "androidx.core:core:1.13.1", "a:b:c:ignored", "--output", "deps", "--coursier", "/bin/cs"]).unwrap();
    let Command::Fetch(a) = cmd else { panic!("not fetch") };
    assert_eq!(a.dependencies.len(), 2);
    assert_eq!(a.dependencies[0].group, "androidx.core");
    assert_eq!(a.dependencies[0].artifact, "core");
    assert_eq!(a.dependencies[0].version, "1.13.1");
    assert_eq!(a.dependencies[1].version, "c");
    assert_eq!(a.output, "/home/dev/project/deps");
    assert_eq!(a.coursier.as_deref(), Some("/bin/cs"));
    assert!(matches!(parse(&["fetch", "not-a-coordinate"]), Err(CliError::InvalidDependency)));
    assert_eq!(missing(&["fetch", "--output", "x"]), Required::Dependencies);
    assert_eq!(missing(&["fetch", "a:b:c"]), Required::Output);
}

#[test]
fn setup_command_lines() {
    let Command::Setup(SetupCommand::Keystore(k)) = parse(&["setup", "keystore", "--keytool", "/jdk/bin/keytool", "--output", "ks"]).unwrap() else {
        panic!()
    };
    assert_eq!(k.keytool, "/jdk/bin/keytool");
    assert_eq!(k.output, "/home/dev/project/ks");
    assert_eq!(missing(&["setup", "keystore", "--output", "ks"]), Required::Keytool);

    let Command::Setup(SetupCommand::Sysmodules(s)) = parse(&[
        "setup", "sysmodules", "--jdk", "/jdk", "--android-platform", "/p", "--workdir", "w", "--output", "o",
    ])
    .unwrap() else {
        panic!()
    };
    assert!(s.clean);
    assert_eq!(s.workdir, "/home/dev/project/w");
    let Command::Setup(SetupCommand::Sysmodules(t)) = parse(&[
        "setup", "sysmodules", "--jdk", "/jdk", "--android-platform", "/p", "--workdir", "w", "--output", "o", "--no-clean",
    ])
    .unwrap() else {
        panic!()
    };
    assert!(!t.clean);
    assert_eq!(missing(&["setup", "sysmodules", "--jdk", "/jdk", "--android-platform", "/p", "--output", "o"]), Required::Workdir);
}

#[test]
fn same_arguments_same_command() {
    let args = ["fetch", "a:b:c", "--output", "o", "d:e:f"];
    assert_eq!(format!("{:?}", parse(&args)), format!("{:?}", parse(&args)));
    let bad = ["build", "--package"];
    assert_eq!(format!("{:?}", parse(&bad)), format!("{:?}", parse(&bad)));
}

#[test]
fn parsed_paths_are_absolute_under_absolute_cwd() {
    let Command::Build(a) = parse(&[
        "build", "--package", "p", "--manifest", "../m.xml", "--java", "", "--jar", "j.jar", "--lib", "./l.so",
        "--jdk", "jdk", "--android-platform", "p", "--android-build-tools", "b", "--arch", "arm64",
    ])
    .unwrap() else {
        panic!()
    };
    let mut paths = vec![a.manifest, a.output, a.jdk, a.android_platform, a.android_build_tools];
    paths.extend(a.java_files);
    paths.extend(a.jars);
    paths.extend(a.libs);
    for p in paths {
        assert!(p.starts_with('/'), "{p:?}");
        assert_eq!(zs::paths::resolve(CWD, p.clone()), p);
    }
}

fn message(args: &[&str]) -> String {
    match parse(args) {
        Err(e) => e.message(),
        Ok(c) => panic!("expected a refusal, got {c:?}"),
    }
}

#[test]
fn refusal_messages() {
    assert_eq!(message(&["build", "--package"]), "missing argument for option '--package'");
    assert_eq!(
        message(&["deploy", "app.apk", "--package", "p", "--launch=it's"]),
        lexopt::Error::UnexpectedValue { option: "--launch".to_string(), value: "it's".into() }.to_string()
    );
    assert_eq!(message(&[]), "missing command");
    assert_eq!(message(&["explode"]), "unsupported command: explode");
    assert_eq!(message(&["--help"]), "invalid option '--help'");
    assert_eq!(message(&["-x"]), "invalid option '-x'");
    assert_eq!(message(&["setup"]), "missing setup target: expected `keystore` or `sysmodules`");
    assert_eq!(message(&["setup", "gpu"]), "unsupported setup target: gpu");
    assert_eq!(
        message(&["setup", "keystore", "extra \"quoted\" it's"]),
        lexopt::Error::UnexpectedArgument("extra \"quoted\" it's".into()).to_string()
    );
    assert_eq!(message(&["setup", "keystore", "x"]), "unexpected argument \"x\"");
    assert_eq!(message(&["build", "--arch", "mips"]), "unsupported --arch value: mips");
    assert_eq!(message(&["sign", "a.apk", "b.apk"]), "unexpected extra positional argument");
    assert_eq!(message(&["fetch", "a:b"]), "dependency must be group:artifact:version");
    assert_eq!(message(&["fetch"]), "missing dependencies after `fetch`");
    assert_eq!(message(&["deploy", "app.apk"]), "missing --package");
    assert_eq!(message(&["sign", "--keystore", "k"]), "missing apk path after `sign`");
    assert_eq!(message(&["build", "--package", "p", "--manifest", "m"]), "missing --java (repeatable)");
}
