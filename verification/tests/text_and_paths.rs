use std::path::{Path, PathBuf};

use zs::paths::{join_path, path_is_absolute, rel, resolve};
use zs::text::{chars_lt, decimal_string, join_with, replace_char_str, split_lines, str_eq, to_chars, trim_str};
use zs::utils::{format_arg, format_cmd, CommandSpec};

fn std_join(base: &str, rel: &str) -> String {
    Path::new(base).join(rel).to_string_lossy().into_owned()
}

#[test]
fn join_matches_std_path_join() {
    let bases = ["", "/", "/opt/jdk", "/opt/jdk/", "rel", "rel/dir/", "a//"];
    let rels = ["", "bin/javac", "/abs/path", "x", "./y", "../z", "a/b/"];
    for b in bases {
        for r in rels {
            assert_eq!(join_path(b, r), std_join(b, r), "join({b:?}, {r:?})");
        }
    }
}

#[test]
fn join_absolute_replaces_base() {
    assert_eq!(join_path("/etc", "/bin/sh"), "/bin/sh");
    assert_eq!(join_path("/etc", "passwd"), "/etc/passwd");
}

#[test]
fn resolve_relative_and_absolute() {
    assert_eq!(resolve("/home/me/app", "src/Main.java".to_string()), "/home/me/app/src/Main.java");
    assert_eq!(resolve("/home/me/app", "/tmp/x.jar".to_string()), "/tmp/x.jar");
    assert_eq!(resolve("/home/me/app", "".to_string()), std_join("/home/me/app", ""));
}

#[test]
fn resolve_twice_is_resolve_once() {
    let cwd = "/work";
    for p in ["a", "a/b", "/abs", "", "../up"] {
        let once = resolve(cwd, p.to_string());
        let twice = resolve(cwd, once.clone());
        assert_eq!(once, twice);
        assert!(path_is_absolute(&once));
    }
}

#[test]
fn rel_strips_cwd_prefix() {
    assert_eq!(rel("/home/me/app/out", "/home/me/app"), "out");
    assert_eq!(rel("/other/place", "/home/me/app"), "/other/place");
    assert_eq!(rel("/home/me/application", "/home/me/app"), "/home/me/application");
}

#[test]
fn format_arg_shows_paths_under_cwd_relative() {
    assert_eq!(format_arg("/work/build/app.apk", "/work"), "build/app.apk");
    assert_eq!(format_arg("relative/path", "/work"), "relative/path");
    assert_eq!(format_arg("/elsewhere/x", "/work"), "/elsewhere/x");
    assert_eq!(format_arg("-classpath", "/work"), "-classpath");
}

#[test]
fn format_cmd_joins_with_spaces() {
    let mut cmd = CommandSpec::new("/work/tools/aapt".to_string());
    assert_eq!(format_cmd(&cmd, "/work"), "tools/aapt");
    cmd.arg("package".to_string());
    cmd.arg_str("-M");
    cmd.arg("/work/AndroidManifest.xml".to_string());
    cmd.arg("/opt/sdk/android.jar".to_string());
    assert_eq!(format_cmd(&cmd, "/work"), "tools/aapt package -M AndroidManifest.xml /opt/sdk/android.jar");
}

#[test]
fn split_lines_matches_str_lines() {
    let cases = ["", "a", "a\n", "a\nb", "a\r\nb\r\n", "\n\n", "x\r", "x\ry\n", "one\n\ntwo\n", "\r\n"];
    for c in cases {
        let got: Vec<String> = split_lines(c).into_iter().map(|l| l.into_iter().collect()).collect();
        let want: Vec<String> = c.lines().map(str::to_string).collect();
        assert_eq!(got, want, "lines of {c:?}");
    }
}

#[test]
fn trim_matches_str_trim() {
    let cases = ["", "  ", " x ", "\t17.0.2\n", "\u{a0}a b\u{3000}", "abc", "\u{85}z"];
    for c in cases {
        assert_eq!(trim_str(c), c.trim(), "trim of {c:?}");
    }
}

#[test]
fn decimal_matches_to_string() {
    for n in [0usize, 1, 9, 10, 42, 100, 255, 1234567, usize::MAX] {
        assert_eq!(decimal_string(n), n.to_string());
    }
}

#[test]
fn replace_char_matches_str_replace() {
    assert_eq!(replace_char_str("com.example.app", '.', "/"), "com.example.app".replace('.', "/"));
    assert_eq!(replace_char_str("java/lang", '/', "."), "java.lang");
    assert_eq!(replace_char_str("", '.', "/"), "");
}

#[test]
fn char_order_matches_string_order() {
    let words = ["", "a", "b", "ab", "abc", "java.lang", "java.io", "java", "é", "z", "Z"];
    for a in words {
        for b in words {
            assert_eq!(chars_lt(&to_chars(a), &to_chars(b)), a < b, "{a:?} < {b:?}");
        }
    }
}

#[test]
fn str_eq_and_join_with() {
    assert!(str_eq("abc", "abc"));
    assert!(!str_eq("abc", "abd"));
    assert!(!str_eq("ab", "abc"));
    let words = vec!["a".to_string(), "b".to_string(), "c".to_string()];
    assert_eq!(join_with(&words, ':'), "a:b:c");
    assert_eq!(join_with(&Vec::new(), ':'), "");
    let p: PathBuf = ["/x", "y"].iter().collect();
    assert_eq!(join_path("/x", "y"), p.to_string_lossy());
}
