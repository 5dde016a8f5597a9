use std::collections::BTreeSet;

use zs::fetch::{
    artifact_attempts, first_download_action, next_download_action, DownloadAction, dependency_dir_of, dependency_list, is_android_archive, maven_mirrors, parse_resolved, pom_attempts,
    remote_url, resolve_command, Dependency,
};
use zs::setup::sysmodules::{
    compile_base_module, create_base_jmod, jmod_describe, jmod_version, jrt_fs_copy, link, list_core_jar,
    module_info_source, module_version, patch_core_jar, target_platform, Opts,
};
use zs::tools::{AndroidPlatform, Jdk};
use zs::utils::CommandSpec;

fn argv(cmd: &CommandSpec) -> Vec<String> {
    let mut v = vec![cmd.program.clone()];
    v.extend(cmd.args.iter().cloned());
    v
}

fn strs(v: &[&str]) -> Vec<String> {
    v.iter().map(|s| s.to_string()).collect()
}

fn dep(s: &str) -> Dependency {
    Dependency::parse(s).unwrap()
}

/// The descriptor computed independently, with a `BTreeSet` of packages.
fn reference_module_info(listing: &str) -> String {
    let mut core_pkgs = BTreeSet::new();
    for line in listing.lines() {
        if !line.ends_with(".class") {
            continue;
        }
        let Some((dir, _)) = line.rsplit_once('/') else {
            continue;
        };
        core_pkgs.insert(dir.replace('/', "."));
    }
    let mut module_info = String::from("module java.base {\n");
    for pkg in core_pkgs.iter() {
        module_info.push_str("\texports ");
        module_info.push_str(pkg);
        module_info.push_str(";\n");
    }
    module_info.push_str("}\n");
    module_info
}

#[test]
fn module_info_exports_each_package_once_sorted() {
    let listing = "META-INF/\nMETA-INF/MANIFEST.MF\njava/lang/Object.class\njava/lang/String.class\n\
                   java/io/File.class\nTopLevel.class\njava/util/concurrent/atomic/AtomicInteger.class\n\
                   java/util/List.class\nandroid/system/Os.class\njava/lang/Object.class\nresources/x.properties\n";
    let text = module_info_source(listing);
    assert_eq!(
        text,
        "module java.base {\n\texports android.system;\n\texports java.io;\n\texports java.lang;\n\texports java.util;\n\texports java.util.concurrent.atomic;\n}\n"
    );
    assert_eq!(text, reference_module_info(listing));
    assert_eq!(module_info_source(""), "module java.base {\n}\n");
}

#[test]
fn module_info_matches_btreeset_on_unordered_listing() {
    let mut listing = String::new();
    for i in (0..60).rev() {
        listing.push_str(&format!("p{}/q{}/C{}.class\r\n", i % 7, i % 3, i));
    }
    listing.push_str("z/Last.class");
    assert_eq!(module_info_source(&listing), reference_module_info(&listing));
}

fn opts() -> Opts {
    Opts {
        jdk: Jdk::new("/jdk".into()),
        platform: AndroidPlatform::new("/sdk/android-36".into()),
        workdir: "/tmp/sys".into(),
        output: "/out/sysmodules".into(),
        clean: true,
    }
}

#[test]
fn sysmodules_paths_and_commands() {
    let o = opts();
    assert_eq!(o.module_info_java(), "/tmp/sys/module-info.java");
    assert_eq!(o.module_info_class(), "/tmp/sys/module-info.class");
    assert_eq!(o.module_info_jmod(), "/tmp/sys/java.base.jmod");
    assert_eq!(o.patched_platform_modules(), "/tmp/sys/core-for-system-modules.patched.jar");
    assert_eq!(argv(&list_core_jar(&o)), strs(&["/jdk/bin/jar", "--list", "--file", "/sdk/android-36/core-for-system-modules.jar"]));
    assert_eq!(
        argv(&compile_base_module(&o)),
        strs(&[
            "/jdk/bin/javac", "--system=none", "--patch-module", "java.base=/sdk/android-36/core-for-system-modules.jar", "-d",
            "/tmp/sys", "/tmp/sys/module-info.java",
        ])
    );
    assert_eq!(
        argv(&patch_core_jar(&o)),
        strs(&["/jdk/bin/jar", "--update", "--file", "/tmp/sys/core-for-system-modules.patched.jar", "-C", "/tmp/sys", "module-info.class"])
    );
    assert_eq!(argv(&jmod_version(&o)), strs(&["/jdk/bin/jmod", "--version"]));
    assert_eq!(argv(&jmod_describe(&o)), strs(&["/jdk/bin/jmod", "describe", "/jdk/jmods/java.base.jmod"]));
    assert_eq!(
        argv(&create_base_jmod(&o, "21.0.2".into(), "linux-amd64".into())),
        strs(&[
            "/jdk/bin/jmod", "create", "--class-path", "/tmp/sys/core-for-system-modules.patched.jar", "--module-version",
            "21.0.2", "--target-platform", "linux-amd64", "/tmp/sys/java.base.jmod",
        ])
    );
    assert_eq!(
        argv(&link(&o)),
        strs(&[
            "/jdk/bin/jlink", "--module-path", "/tmp/sys/java.base.jmod", "--add-modules", "java.base", "--disable-plugin",
            "system-modules", "--endian", "little", "--output", "/out/sysmodules",
        ])
    );
    assert_eq!(jrt_fs_copy(&o), ("/jdk/lib/jrt-fs.jar".to_string(), "/out/sysmodules/lib/jrt-fs.jar".to_string()));
}

#[test]
fn jmod_output_parsing() {
    assert_eq!(module_version("21.0.2\n"), "21.0.2");
    let describe = "java.base@21.0.2\nexports java.io\nplatform linux-amd64 \nplatform other\n";
    assert_eq!(target_platform(describe).unwrap(), "linux-amd64");
    assert!(target_platform("java.base@21\nexports java.io\n").is_err());
}

#[test]
fn dependency_notation() {
    let d = dep("androidx.core:core:1.13.1");
    assert_eq!(d.to_text(), "androidx.core:core:1.13.1");
    assert_eq!(dep("g:a:v:extra:more").version, "v");
    for bad in ["", "g", "g:a", "g:a:", ":a:v", "g::v", "::", "g:a::x"] {
        assert!(Dependency::parse(bad).is_err(), "{bad:?}");
    }
    let again = Dependency::parse(&d.to_text()).unwrap();
    assert_eq!((again.group, again.artifact, again.version), (d.group.clone(), d.artifact.clone(), d.version.clone()));
}

#[test]
fn maven_locations() {
    let d = dep("androidx.core:core:1.13.1");
    assert_eq!(maven_mirrors(), strs(&["https://maven.google.com", "https://repo.maven.apache.org/maven2"]));
    assert_eq!(
        remote_url("https://maven.google.com", &d, "core-1.13.1.pom"),
        "https://maven.google.com/androidx/core/core/1.13.1/core-1.13.1.pom"
    );
    let poms: Vec<(String, String)> = pom_attempts(&d).into_iter().map(|a| (a.url, a.file)).collect();
    assert_eq!(
        poms,
        vec![
            ("https://maven.google.com/androidx/core/core/1.13.1/core-1.13.1.pom".to_string(), "core-1.13.1.pom".to_string()),
            (
                "https://repo.maven.apache.org/maven2/androidx/core/core/1.13.1/core-1.13.1.pom".to_string(),
                "core-1.13.1.pom".to_string()
            ),
        ]
    );
    let files: Vec<(String, String)> = artifact_attempts(&d).into_iter().map(|a| (a.url, a.file)).collect();
    assert_eq!(files.len(), 4);
    assert_eq!(files[0].0, "https://maven.google.com/androidx/core/core/1.13.1/core-1.13.1.aar");
    assert_eq!(files[1].1, "core-1.13.1.jar");
    assert_eq!(files[2].0, "https://repo.maven.apache.org/maven2/androidx/core/core/1.13.1/core-1.13.1.aar");
    assert_eq!(files[3].0, "https://repo.maven.apache.org/maven2/androidx/core/core/1.13.1/core-1.13.1.jar");
    assert_eq!(dependency_dir_of("/deps", &d), "/deps/androidx.core/core/1.13.1");
    assert!(is_android_archive("/deps/x/core-1.13.1.aar"));
    assert!(!is_android_archive("/deps/x/core-1.13.1.jar"));
    assert!(!is_android_archive("/deps/x/.aar"));
    assert!(is_android_archive("/deps/x/core.1.aar"));
    assert!(!is_android_archive("/deps/x/aar"));
    assert!(!is_android_archive("/deps/x/core.aar."));
}

#[test]
fn coursier_command_and_output() {
    let deps = vec![dep("a.b:c:1"), dep("d:e:2")];
    assert_eq!(dependency_list(&deps), "a.b:c:1\nd:e:2");
    assert_eq!(
        argv(&resolve_command("/bin/cs", &deps, "/deps")),
        strs(&[
            "/bin/cs", "resolve", "--cache", "/deps/.coursier", "-r", "https://maven.google.com", "-r",
            "https://repo.maven.apache.org/maven2", "a.b:c:1", "d:e:2",
        ])
    );
    let out = "  androidx.annotation:annotation:1.8.0  \nwarning: something\nandroidx.core:core:1.13.1\n\n";
    let resolved = parse_resolved(out).unwrap();
    let texts: Vec<String> = resolved.iter().map(Dependency::to_text).collect();
    assert_eq!(texts, strs(&["androidx.annotation:annotation:1.8.0", "androidx.core:core:1.13.1"]));
    assert!(parse_resolved("nothing here\n").is_err());
}

#[test]
fn two_colon_notation_reads_back_unchanged() {
    for text in ["androidx.core:core:1.13.1", "a:b:c", "com.example:lib-x:2.0.0-rc1"] {
        let d = Dependency::parse(text).unwrap();
        assert_eq!(d.to_text(), text);
    }
    // A fourth field is dropped, so that text does not come back.
    let d = Dependency::parse("a:b:c:d").unwrap();
    assert_eq!(d.to_text(), "a:b:c");
}

#[test]
fn downloads_stop_at_first_success() {
    assert_eq!(first_download_action(4), DownloadAction::Try(0));
    assert_eq!(first_download_action(0), DownloadAction::GiveUp(None));
    assert_eq!(next_download_action(4, 0, false), DownloadAction::Try(1));
    assert_eq!(next_download_action(4, 1, true), DownloadAction::Save(1));
    assert_eq!(next_download_action(4, 3, false), DownloadAction::GiveUp(Some(3)));
    assert_eq!(next_download_action(4, 3, true), DownloadAction::Save(3));

    // Driving the search over given outcomes.
    let run = |outcomes: &[bool]| {
        let mut a = first_download_action(outcomes.len());
        loop {
            match a {
                DownloadAction::Try(i) => a = next_download_action(outcomes.len(), i, outcomes[i]),
                other => return other,
            }
        }
    };
    assert_eq!(run(&[false, false, true, true]), DownloadAction::Save(2));
    assert_eq!(run(&[true, false]), DownloadAction::Save(0));
    assert_eq!(run(&[false, false]), DownloadAction::GiveUp(Some(1)));
}
