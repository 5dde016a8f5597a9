use owo_colors::OwoColorize;

use zs::build::{
    compile_dex_command, compile_java_command, generate_r_java_command, java_classpath, native_lib_destination,
    native_lib_dir_of, package_apk_command, written_classes_in, Arch, BuildContext, Opts, WorkDir,
};
use zs::cli::{parse_args, Command};
use zs::setup::{keystore, sysmodules};
use zs::tasks::{deploy, plan, sign, Task};
use zs::tasks::deploy::{first_deploy_stage, next_deploy_step, DeployNext, DeployStage};
use zs::tools::{AndroidBuildTools, AndroidPlatform, Jdk};
use zs::utils::{done_card, stage_card, CommandSpec};

fn argv(cmd: &CommandSpec) -> Vec<String> {
    let mut v = vec![cmd.program.clone()];
    v.extend(cmd.args.iter().cloned());
    v
}

fn strs(v: &[&str]) -> Vec<String> {
    v.iter().map(|s| s.to_string()).collect()
}

fn ctx(resources: Option<&str>, sysmodules: Option<&str>) -> BuildContext {
    BuildContext::from_opts(Opts {
        package: "com.example.app".into(),
        manifest: "/p/AndroidManifest.xml".into(),
        java: strs(&["/p/src/Main.java"]),
        jars: strs(&["/p/libs/a.jar"]),
        sysmodules: sysmodules.map(String::from),
        resources: resources.map(String::from),
        libs: strs(&["/p/libmain.so"]),
        arch: Arch::Arm64,
        jdk: "/jdk".into(),
        platform: "/sdk/android-36".into(),
        build_tools: "/sdk/bt".into(),
        workdir: "/p/.zs/build".into(),
    })
}

#[test]
fn arch_names() {
    assert_eq!(Arch::from_cli_arg("amd64").unwrap(), Arch::Amd64);
    assert_eq!(Arch::from_cli_arg("arm64").unwrap(), Arch::Arm64);
    assert_eq!(Arch::from_cli_arg("x86").unwrap_err().value, "x86");
    assert_eq!(Arch::Amd64.rustc(), "x86_64-linux-android");
    assert_eq!(Arch::Arm64.rustc(), "aarch64-linux-android");
    assert_eq!(Arch::Amd64.aapt(), "x86_64");
    assert_eq!(Arch::Arm64.aapt(), "arm64-v8a");
}

#[test]
fn tool_paths() {
    let jdk = Jdk::new("/opt/jdk".into());
    assert_eq!(jdk.root(), "/opt/jdk");
    assert_eq!(jdk.jar(), "/opt/jdk/bin/jar");
    assert_eq!(jdk.javac(), "/opt/jdk/bin/javac");
    assert_eq!(jdk.jvm(), "/opt/jdk/bin/java");
    assert_eq!(jdk.jmod(), "/opt/jdk/bin/jmod");
    assert_eq!(jdk.jlink(), "/opt/jdk/bin/jlink");
    let p = AndroidPlatform::new("/sdk/platforms/android-36/".into());
    assert_eq!(p.root(), "/sdk/platforms/android-36/");
    assert_eq!(p.android_jar(), "/sdk/platforms/android-36/android.jar");
    assert_eq!(p.platform_modules(), "/sdk/platforms/android-36/core-for-system-modules.jar");
    let bt = AndroidBuildTools::new("/sdk/bt".into());
    assert_eq!(bt.root(), "/sdk/bt");
    assert_eq!(bt.aapt(), "/sdk/bt/aapt");
    assert_eq!(bt.apksigner(), "/sdk/bt/apksigner");
    assert_eq!(bt.apksigner_jar(), "/sdk/bt/lib/apksigner.jar");
    assert_eq!(bt.d8_jar(), "/sdk/bt/lib/d8.jar");
}

#[test]
fn workdir_paths() {
    let w = WorkDir::new("/out".into());
    assert_eq!(w.root(), "/out");
    assert_eq!(w.java(), "/out/java");
    assert_eq!(w.dex(), "/out/dex");
    assert_eq!(w.apk(), "/out/app.apk");
}

#[test]
fn r_java_command_with_and_without_resources() {
    assert_eq!(
        argv(&generate_r_java_command(&ctx(Some("/p/res"), None))),
        strs(&[
            "/sdk/bt/aapt", "package", "-m", "-M", "/p/AndroidManifest.xml", "-I", "/sdk/android-36/android.jar", "-J",
            "/p/.zs/build/java", "-S", "/p/res", "-v",
        ])
    );
    assert_eq!(
        argv(&generate_r_java_command(&ctx(None, None))),
        strs(&[
            "/sdk/bt/aapt", "package", "-m", "-M", "/p/AndroidManifest.xml", "-I", "/sdk/android-36/android.jar", "-J",
            "/p/.zs/build/java", "-v",
        ])
    );
}

#[test]
fn javac_command_and_classpath() {
    let c = ctx(None, Some("/sys"));
    assert_eq!(java_classpath(&c).unwrap(), "/sdk/android-36/android.jar:/p/libs/a.jar");
    assert_eq!(
        argv(&compile_java_command(&c).unwrap()),
        strs(&[
            "/jdk/bin/javac", "--system", "/sys", "-classpath", "/sdk/android-36/android.jar:/p/libs/a.jar", "-source",
            "17", "-target", "17", "/p/src/Main.java", "/p/.zs/build/java/com/example/app/R.java", "-d",
            "/p/.zs/build/java", "-encoding", "UTF-8", "-Xlint", "-deprecation", "-verbose",
        ])
    );
}

#[test]
fn classpath_refuses_separator_in_entry() {
    let mut c = ctx(None, None);
    c.jars.push("/weird:path.jar".into());
    assert!(java_classpath(&c).is_err());
    assert!(compile_java_command(&c).is_err());
}

#[test]
fn javac_log_written_classes() {
    let log = "[parsing started SimpleFileObject[/p/src/Main.java]]\n\
               [wrote /p/.zs/build/java/com/example/app/Main.class]\n\
               [wrote /p/.zs/build/java/com/example/app/R.class]\r\n\
               [wrote /p/notes.txt]\n\
               [total 512ms]\n\
               [wrote /p/.zs/build/java/com/example/app/R$string.class]";
    assert_eq!(
        written_classes_in(log),
        strs(&[
            "/p/.zs/build/java/com/example/app/Main.class",
            "/p/.zs/build/java/com/example/app/R.class",
            "/p/.zs/build/java/com/example/app/R$string.class",
        ])
    );
    assert!(written_classes_in("").is_empty());
    assert!(written_classes_in("[wrote ]").is_empty());
}

#[test]
fn dex_and_package_commands() {
    let c = ctx(Some("/p/res"), None);
    let classes = strs(&["/p/.zs/build/java/A.class"]);
    assert_eq!(
        argv(&compile_dex_command(&c, &classes)),
        strs(&[
            "/jdk/bin/java", "-cp", "/sdk/bt/lib/d8.jar", "com.android.tools.r8.D8", "--lib", "/sdk/android-36/android.jar",
            "/p/.zs/build/java/A.class", "/p/libs/a.jar", "--release", "--output", "/p/.zs/build/dex",
        ])
    );
    assert_eq!(native_lib_dir_of(&c), "/p/.zs/build/dex/lib/arm64-v8a");
    assert_eq!(
        native_lib_destination("/p/.zs/build/dex/lib/arm64-v8a", "/p/target/libmain.so").as_deref(),
        Some("/p/.zs/build/dex/lib/arm64-v8a/libmain.so")
    );
    assert_eq!(native_lib_destination("/lib", "/"), None);
    assert_eq!(
        argv(&package_apk_command(&c)),
        strs(&[
            "/sdk/bt/aapt", "package", "-f", "--min-sdk-version", "21", "--target-sdk-version", "36",
            "--error-on-failed-insert", "--error-on-missing-config-entry", "--debug-mode", "-M",
            "/p/AndroidManifest.xml", "-0", "dex", "-0", "so", "-S", "/p/res", "-I", "/sdk/android-36/android.jar", "-F",
            "/p/.zs/build/app.apk", "/p/.zs/build/java", "/p/.zs/build/dex",
        ])
    );
}

#[test]
fn keystore_sign_and_deploy_commands() {
    let k = keystore::Opts { keytool: "/jdk/bin/keytool".into(), output: "/p/debug.keystore".into() };
    assert_eq!(
        argv(&keystore::generate_command(&k)),
        strs(&[
            "/jdk/bin/keytool", "-genkey", "-v", "-keystore", "/p/debug.keystore", "-storepass", "android", "-keypass",
            "android", "-alias", "android", "-keyalg", "RSA", "-keysize", "2048", "-validity", "10000", "-dname",
            "C=US, O=Android, CN=Android Debug",
        ])
    );
    let s = sign::Opts { apk: "/p/app.apk".into(), keystore: "/p/ks".into(), build_tools: AndroidBuildTools::new("/bt".into()) };
    assert_eq!(
        argv(&sign::sign_command(&s)),
        strs(&[
            "java", "-jar", "/bt/lib/apksigner.jar", "sign", "--ks", "/p/ks", "--ks-key-alias", "android", "--ks-pass",
            "pass:android", "--key-pass", "pass:android", "--in", "/p/app.apk",
        ])
    );
    let d = deploy::Opts { apk: "/p/app.apk".into(), package: "com.x".into(), launch: true, device: Some("emulator-5554".into()) };
    let p = deploy::plan(&d);
    assert_eq!(argv(&p.uninstall), strs(&["adb", "-s", "emulator-5554", "uninstall", "com.x"]));
    assert_eq!(argv(&p.install), strs(&["adb", "-s", "emulator-5554", "install", "/p/app.apk"]));
    assert_eq!(
        argv(p.launch.as_ref().unwrap()),
        strs(&["adb", "-s", "emulator-5554", "shell", "am", "start", "-n", "com.x/.MainActivity"])
    );
    let quiet = deploy::plan(&deploy::Opts { launch: false, device: None, ..d });
    assert!(quiet.launch.is_none());
    assert_eq!(argv(&quiet.install), strs(&["adb", "install", "/p/app.apk"]));
}

#[test]
fn cards_match_owo_colors() {
    let want = format!(
        "{} {} :: {}",
        "BUILD".bold().truecolor(255, 190, 120),
        "2/4".truecolor(255, 215, 168),
        "Compile Java".bold().truecolor(255, 245, 232)
    );
    assert_eq!(stage_card(2, 4, "Compile Java"), want);
    assert_eq!(
        stage_card(2, 4, "Compile Java"),
        "\u{1b}[38;2;255;190;120m\u{1b}[1mBUILD\u{1b}[0m\u{1b}[39m \u{1b}[38;2;255;215;168m2/4\u{1b}[39m :: \u{1b}[38;2;255;245;232m\u{1b}[1mCompile Java\u{1b}[0m\u{1b}[39m"
    );
    assert_eq!(done_card(), format!("{}", "[DONE]".bold().truecolor(120, 236, 160)));
    let jdk = format!(
        "{} {} :: {}",
        "JAVA-IMAGE".bold().truecolor(184, 219, 255),
        "10/5".bold().truecolor(197, 228, 255),
        "Link".bold().truecolor(226, 242, 255)
    );
    assert_eq!(sysmodules::jdk_stage_card(10, 5, "Link"), jdk);
}

#[test]
fn plan_takes_over_options() {
    let cmd = parse_args("/w", strs(&["deploy", "a.apk", "--package", "com.y", "--launch"])).unwrap();
    match plan(cmd) {
        Task::Deploy(o) => {
            assert_eq!(o.apk, "/w/a.apk");
            assert_eq!(o.package, "com.y");
            assert!(o.launch);
            assert!(o.device.is_none());
        }
        other => panic!("{other:?}"),
    }
    let cmd = parse_args("/w", strs(&["sign", "a.apk", "--android-build-tools", "/bt", "--keystore", "k"])).unwrap();
    match plan(cmd) {
        Task::Sign(o) => {
            assert_eq!(o.build_tools.apksigner_jar(), "/bt/lib/apksigner.jar");
            assert_eq!(o.keystore, "/w/k");
        }
        other => panic!("{other:?}"),
    }
    let cmd = parse_args(
        "/w",
        strs(&["setup", "sysmodules", "--jdk", "/j", "--android-platform", "/p", "--workdir", "wd", "--output", "o"]),
    )
    .unwrap();
    match plan(cmd) {
        Task::SetupSysmodules(o) => {
            assert_eq!(o.jdk.javac(), "/j/bin/javac");
            assert_eq!(o.platform.android_jar(), "/p/android.jar");
            assert_eq!(o.workdir, "/w/wd");
            assert!(o.clean);
        }
        other => panic!("{other:?}"),
    }
    let cmd = parse_args(
        "/w",
        strs(&[
            "build", "--package", "p", "--manifest", "m", "--java", "J", "--jdk", "/j", "--android-platform", "/p",
            "--android-build-tools", "/b", "--arch", "amd64",
        ]),
    )
    .unwrap();
    assert!(matches!(cmd, Command::Build(_)));
    match plan(cmd) {
        Task::Build(o) => {
            assert_eq!(o.workdir, "/w/.zs/build");
            assert_eq!(o.platform, "/p");
            assert_eq!(o.arch, Arch::Amd64);
        }
        other => panic!("{other:?}"),
    }
}

#[test]
fn deploy_ignores_failed_uninstall_only() {
    let opts = |launch: bool| deploy::Opts {
        apk: "/w/app.apk".to_string(),
        package: "com.example.app".to_string(),
        launch,
        device: None,
    };
    let with_launch = deploy::plan(&opts(true));
    let without = deploy::plan(&opts(false));
    assert_eq!(first_deploy_stage(), DeployStage::Uninstall);
    for ok in [true, false] {
        assert_eq!(next_deploy_step(&with_launch, DeployStage::Uninstall, ok), DeployNext::Run(DeployStage::Install));
    }
    assert_eq!(next_deploy_step(&with_launch, DeployStage::Install, true), DeployNext::Run(DeployStage::Launch));
    assert_eq!(next_deploy_step(&without, DeployStage::Install, true), DeployNext::Done);
    assert_eq!(next_deploy_step(&with_launch, DeployStage::Install, false), DeployNext::Fail);
    assert_eq!(next_deploy_step(&with_launch, DeployStage::Launch, true), DeployNext::Done);
    assert_eq!(next_deploy_step(&with_launch, DeployStage::Launch, false), DeployNext::Fail);
}

#[test]
fn file_name_matches_std_path() {
    let paths = [
        "a/b", "a/b/", "a/b//", "a/.", "a/./", "a/./.", "a/..", "a/../", "/", "", ".", "..", "./a", "./",
        "a//b", "/.", "/..", "...", "a/.b", ".hidden", "a/b.c/", "x/y/z.so", "//", "a/.../",
    ];
    for p in paths {
        let expected = std::path::Path::new(p).file_name().map(|n| {
            let n = n.to_str().unwrap();
            zs::paths::join_path("/lib", n)
        });
        assert_eq!(native_lib_destination("/lib", p), expected, "path {p:?}");
    }
}
