//! Builds a minimal Java runtime image used as the `javac --system` input when
//! compiling Android app Java sources.
//!
//! Pipeline:
//! 1. Generate a `module-info.java` for `java.base` that exports every package
//!    found in Android's `core-for-system-modules.jar`.
//! 2. Compile that descriptor into `module-info.class`.
//! 3. Patch `module-info.class` into a copy of `core-for-system-modules.jar`.
//! 4. Create `java.base.jmod` from the patched jar (required by `jlink`).
//! 5. Link a minimal runtime image containing only `java.base`; this directory is
//!    then passed to `javac --system`.
//!
//! This is necessary because Android's core jar is not directly consumable as a
//! complete module image for `javac --system`.
//!
//! The packages of stage 1 form a set kept in order. They are held as a
//! strictly sorted `Vec` of character rows (`insert_sorted` keeps it so) rather
//! than a `BTreeSet<String>`: with `String` items, the set's operations verify
//! without Verus learning anything about their contents, while the sorted list
//! lets the contract state the exact package set and the order of the exports.
use vstd::prelude::*;

use crate::paths::{join, join_path};
use crate::text::{
    has_char, last_index_of, lemma_last_index_of, lemma_replace_char_single, swap_char,
    char_rows, chars_lt, concat2, copy_str, ends_with_at, has_prefix, has_suffix, lines,
    lemma_seq_lt_total, lemma_seq_lt_transitive, push_chars,
    replace_char, seq_lt, split_lines, starts_with_at, strictly_sorted, string_from, trim,
    trim_bounds,
};
use crate::tools;
use crate::utils::{
    CommandSpec, CommandSpecView, bold_colored, card, format_step_count, join_card, paint_bold,
    step_count,
};

verus! {

/// What `setup sysmodules` is asked to do.
#[derive(Debug)]
pub struct Opts {
    pub jdk: tools::Jdk,
    pub platform: tools::AndroidPlatform,
    pub workdir: String,
    pub output: String,
    pub clean: bool,
}

impl Opts {
    /// `module-info.java` in the work directory.
    pub fn module_info_java(&self) -> (r: String)
        ensures
            r@ == join(self.workdir@, "module-info.java"@),
    {
        join_path(self.workdir.as_str(), "module-info.java")
    }

    /// `module-info.class` in the work directory.
    pub fn module_info_class(&self) -> (r: String)
        ensures
            r@ == join(self.workdir@, "module-info.class"@),
    {
        join_path(self.workdir.as_str(), "module-info.class")
    }

    /// The `java.base.jmod` that stage 4 creates in the work directory and
    /// stage 5 hands to `jlink`.
    pub fn module_info_jmod(&self) -> (r: String)
        ensures
            r@ == join(self.workdir@, "java.base.jmod"@),
    {
        join_path(self.workdir.as_str(), "java.base.jmod")
    }

    /// The patched copy of the platform's core jar, in the work directory.
    pub fn patched_platform_modules(&self) -> (r: String)
        ensures
            r@ == join(self.workdir@, "core-for-system-modules.patched.jar"@),
    {
        join_path(self.workdir.as_str(), "core-for-system-modules.patched.jar")
    }
}

// ---------------------------------------------------------------------------
// Stage 1: the packages of the core jar, and the module descriptor
// ---------------------------------------------------------------------------

/// The package of a jar entry: for a `.class` entry in a directory, the
/// directory with `/` read as `.`; nothing for other entries and for classes
/// with no package.
pub open spec fn class_package(entry: Seq<char>) -> Option<Seq<char>> {
    if has_suffix(entry, ".class"@) && last_index_of(entry, '/') >= 0 {
        Some(replace_char(entry.take(last_index_of(entry, '/')), '/', seq!['.']))
    } else {
        None
    }
}

/// The packages of the given jar entries.
pub open spec fn package_set(entries: Seq<Seq<char>>) -> Set<Seq<char>>
    decreases entries.len(),
{
    if entries.len() == 0 {
        Set::empty()
    } else {
        let prev = package_set(entries.drop_last());
        match class_package(entries.last()) {
            Some(p) => prev.insert(p),
            None => prev,
        }
    }
}

/// `lo..hi` of `cs` with every `from` replaced by `to`.
fn replace_in(cs: &[char], lo: usize, hi: usize, from: char, to: char) -> (res: Vec<char>)
    requires
        lo <= hi <= cs@.len(),
    ensures
        res@ == replace_char(cs@.subrange(lo as int, hi as int), from, seq![to]),
{
    let mut res: Vec<char> = Vec::new();
    let mut i = lo;
    while i < hi
        invariant
            lo <= i <= hi <= cs@.len(),
            res@ == replace_char(cs@.subrange(lo as int, i as int), from, seq![to]),
        decreases hi - i,
    {
        assert(cs@.subrange(lo as int, i + 1).drop_last() =~= cs@.subrange(lo as int, i as int));
        if cs[i] == from {
            res.push(to);
        } else {
            res.push(cs[i]);
        }
        assert(res@ =~= replace_char(cs@.subrange(lo as int, i + 1), from, seq![to]));
        i = i + 1;
    }
    res
}

/// The package of a jar entry.
pub fn package_of_entry(entry: &Vec<char>) -> (res: Option<Vec<char>>)
    ensures
        match res {
            Some(p) => class_package(entry@) == Some(p@),
            None => class_package(entry@) is None,
        },
{
    let n = entry.len();
    assert(entry@.subrange(0, n as int) == entry@);
    if !ends_with_at(entry.as_slice(), n, ".class") {
        return None;
    }
    let mut j = n;
    while j > 0 && entry[j - 1] != '/'
        invariant
            j <= n,
            n == entry@.len(),
            last_index_of(entry@, '/') == last_index_of(entry@.take(j as int), '/'),
        decreases j,
    {
        assert(entry@.take(j as int).drop_last() =~= entry@.take(j - 1));
        j = j - 1;
    }
    if j == 0 {
        assert(entry@.take(0) =~= Seq::<char>::empty());
        return None;
    }
    assert(last_index_of(entry@.take(j as int), '/') == j - 1);
    assert(entry@.take(j - 1) == entry@.subrange(0, j - 1));
    Some(replace_in(entry.as_slice(), 0, j - 1, '/', '.'))
}

/// Inserts `x` into a strictly sorted list, unless it is there already.
pub fn insert_sorted(v: &mut Vec<Vec<char>>, x: Vec<char>)
    requires
        strictly_sorted(char_rows(old(v)@)),
    ensures
        strictly_sorted(char_rows(final(v)@)),
        char_rows(final(v)@).to_set() == char_rows(old(v)@).to_set().insert(x@),
{
    let ghost s = char_rows(v@);
    let mut lo: usize = 0;
    let mut hi: usize = v.len();
    while lo < hi
        invariant
            s == char_rows(v@),
            s.len() == v@.len(),
            lo <= hi <= v@.len(),
            forall|i: int| 0 <= i < lo ==> seq_lt(#[trigger] s[i], x@),
            forall|i: int| hi <= i < s.len() ==> !seq_lt(#[trigger] s[i], x@),
            strictly_sorted(s),
        decreases hi - lo,
    {
        let mid = lo + (hi - lo) / 2;
        assert(s[mid as int] == v@[mid as int]@);
        if chars_lt(v[mid].as_slice(), x.as_slice()) {
            assert forall|i: int| 0 <= i < mid + 1 implies seq_lt(#[trigger] s[i], x@) by {
                if i < mid {
                    lemma_seq_lt_transitive(s[i], s[mid as int], x@);
                }
            }
            lo = mid + 1;
        } else {
            assert forall|i: int| mid <= i < s.len() implies !seq_lt(#[trigger] s[i], x@) by {
                if i > mid {
                    if seq_lt(s[i], x@) {
                        lemma_seq_lt_transitive(s[mid as int], s[i], x@);
                    }
                }
            }
            hi = mid;
        }
    }
    let pos = lo;
    if pos < v.len() {
        assert(s[pos as int] == v@[pos as int]@);
        if !chars_lt(x.as_slice(), v[pos].as_slice()) {
            // Neither sorts before the other: `x` is there already.
            proof {
                lemma_seq_lt_total(s[pos as int], x@);
                assert(s.to_set().contains(x@));
                assert(s.to_set().insert(x@) =~= s.to_set());
            }
            return;
        }
    }
    let ghost xv = x@;
    v.insert(pos, x);
    let ghost t = char_rows(v@);
    assert(t =~= s.insert(pos as int, xv));
    assert forall|i: int, j: int| 0 <= i < j < t.len() implies seq_lt(#[trigger] t[i], #[trigger] t[j]) by {
        if j < pos {
        } else if j == pos {
        } else if i < pos {
            assert(t[j] == s[j - 1]);
            if pos < s.len() {
                assert(seq_lt(xv, s[pos as int]));
                if j - 1 > pos {
                    lemma_seq_lt_transitive(xv, s[pos as int], s[j - 1]);
                }
                lemma_seq_lt_transitive(s[i], xv, s[j - 1]);
            }
        } else if i == pos {
            assert(seq_lt(xv, s[pos as int]));
            if j - 1 > pos {
                lemma_seq_lt_transitive(xv, s[pos as int], s[j - 1]);
            }
        } else {
            assert(t[i] == s[i - 1]);
            assert(t[j] == s[j - 1]);
        }
    }
    assert forall|y: Seq<char>| #[trigger] t.to_set().contains(y) <==> s.to_set().insert(xv).contains(y) by {
        if t.to_set().contains(y) {
            let k = choose|k: int| 0 <= k < t.len() && t[k] == y;
            if k < pos {
                assert(s[k] == y);
            } else if k > pos {
                assert(s[k - 1] == y);
            }
        }
        if s.to_set().contains(y) {
            let k = choose|k: int| 0 <= k < s.len() && s[k] == y;
            if k < pos {
                assert(t[k] == y);
            } else {
                assert(t[k + 1] == y);
            }
        }
        if y == xv {
            assert(t[pos as int] == xv);
        }
    }
    assert(t.to_set() =~= s.to_set().insert(xv));
}

/// The packages of a `jar --list` listing, each once, in `String` order.
pub fn discovered_packages(listing: &str) -> (res: Vec<Vec<char>>)
    ensures
        strictly_sorted(char_rows(res@)),
        char_rows(res@).to_set() == package_set(lines(listing@)),
{
    let ls = split_lines(listing);
    let ghost lv = char_rows(ls@);
    let mut pkgs: Vec<Vec<char>> = Vec::new();
    assert(char_rows(pkgs@).to_set() =~= Set::<Seq<char>>::empty());
    let mut i: usize = 0;
    while i < ls.len()
        invariant
            lv == char_rows(ls@),
            lv == lines(listing@),
            i <= ls@.len(),
            strictly_sorted(char_rows(pkgs@)),
            char_rows(pkgs@).to_set() == package_set(lv.take(i as int)),
        decreases ls@.len() - i,
    {
        assert(lv.take(i + 1).drop_last() =~= lv.take(i as int));
        assert(lv[i as int] == ls@[i as int]@);
        match package_of_entry(&ls[i]) {
            Some(p) => insert_sorted(&mut pkgs, p),
            None => {},
        }
        i = i + 1;
    }
    assert(lv.take(ls@.len() as int) =~= lv);
    pkgs
}

/// The export lines for the given packages: `\texports <package>;\n` each.
pub open spec fn exports(pkgs: Seq<Seq<char>>) -> Seq<char>
    decreases pkgs.len(),
{
    if pkgs.len() == 0 {
        Seq::empty()
    } else {
        exports(pkgs.drop_last()) + "\texports "@ + pkgs.last() + ";\n"@
    }
}

/// The descriptor of `java.base` exporting the given packages.
pub open spec fn module_info_text(pkgs: Seq<Seq<char>>) -> Seq<char> {
    "module java.base {\n"@ + exports(pkgs) + "}\n"@
}

/// The descriptor of `java.base` exporting the given packages, in order.
pub fn module_info_for(pkgs: &Vec<Vec<char>>) -> (res: String)
    ensures
        res@ == module_info_text(char_rows(pkgs@)),
{
    let ghost ps = char_rows(pkgs@);
    let mut out = copy_str("module java.base {\n");
    let mut i: usize = 0;
    while i < pkgs.len()
        invariant
            ps == char_rows(pkgs@),
            i <= pkgs@.len(),
            out@ == "module java.base {\n"@ + exports(ps.take(i as int)),
        decreases pkgs@.len() - i,
    {
        assert(ps.take(i + 1).drop_last() =~= ps.take(i as int));
        assert(ps[i as int] == pkgs@[i as int]@);
        out.append("\texports ");
        assert(pkgs@[i as int]@.subrange(0, pkgs@[i as int]@.len() as int) == pkgs@[i as int]@);
        push_chars(&mut out, pkgs[i].as_slice(), 0, pkgs[i].len());
        out.append(";\n");
        assert(out@ =~= "module java.base {\n"@ + exports(ps.take(i + 1)));
        i = i + 1;
    }
    assert(ps.take(pkgs@.len() as int) =~= ps);
    out.append("}\n");
    out
}

/// The `module-info.java` for a `jar --list` listing of the core jar: every
/// package that holds a class is exported, each once, in `String` order.
pub fn module_info_source(listing: &str) -> (res: String)
    ensures
        exists|pkgs: Seq<Seq<char>>|
            #![trigger module_info_text(pkgs)]
            strictly_sorted(pkgs) && pkgs.to_set() == package_set(lines(listing@)) && res@
                == module_info_text(pkgs),
{
    let pkgs = discovered_packages(listing);
    let res = module_info_for(&pkgs);
    assert(module_info_text(char_rows(pkgs@)) == res@);
    res
}

} // verus!

verus! {

/// `jar --list --file <core jar>`: lists the entries of the platform's core jar.
pub open spec fn list_core_jar_command(opts: Opts) -> CommandSpecView {
    CommandSpecView {
        program: join(opts.jdk@, "bin/jar"@),
        args: seq!["--list"@, "--file"@, join(opts.platform@, "core-for-system-modules.jar"@)],
    }
}

/// The listing command of stage 1.
pub fn list_core_jar(opts: &Opts) -> (cmd: CommandSpec)
    ensures
        cmd@ == list_core_jar_command(*opts),
{
    let mut cmd = CommandSpec::new(opts.jdk.jar());
    cmd.arg_str("--list");
    cmd.arg_str("--file");
    cmd.arg(opts.platform.platform_modules());
    assert(cmd@.args =~= list_core_jar_command(*opts).args);
    cmd
}

// ---------------------------------------------------------------------------
// Stage 2: compiling the descriptor against the core jar alone
// ---------------------------------------------------------------------------

/// `javac --system=none --patch-module java.base=<core jar> -d <workdir> module-info.java`
pub open spec fn compile_base_module_command(opts: Opts) -> CommandSpecView {
    CommandSpecView {
        program: join(opts.jdk@, "bin/javac"@),
        args: seq![
            "--system=none"@,
            "--patch-module"@,
            "java.base="@ + join(opts.platform@, "core-for-system-modules.jar"@),
            "-d"@,
            opts.workdir@,
            join(opts.workdir@, "module-info.java"@),
        ],
    }
}

/// The command of stage 2.
pub fn compile_base_module(opts: &Opts) -> (cmd: CommandSpec)
    ensures
        cmd@ == compile_base_module_command(*opts),
{
    let mut cmd = CommandSpec::new(opts.jdk.javac());
    cmd.arg_str("--system=none");
    cmd.arg_str("--patch-module");
    cmd.arg(concat2("java.base=", opts.platform.platform_modules().as_str()));
    cmd.arg_str("-d");
    cmd.arg_str(opts.workdir.as_str());
    cmd.arg(opts.module_info_java());
    assert(cmd@.args =~= compile_base_module_command(*opts).args);
    cmd
}

// ---------------------------------------------------------------------------
// Stage 3: patching the descriptor into a copy of the core jar
// ---------------------------------------------------------------------------

/// `jar --update --file <patched jar> -C <workdir> module-info.class`: the entry
/// is added under its bare name, not the host path.
pub open spec fn patch_core_jar_command(opts: Opts) -> CommandSpecView {
    CommandSpecView {
        program: join(opts.jdk@, "bin/jar"@),
        args: seq![
            "--update"@,
            "--file"@,
            join(opts.workdir@, "core-for-system-modules.patched.jar"@),
            "-C"@,
            opts.workdir@,
            "module-info.class"@,
        ],
    }
}

/// The command of stage 3 (after the core jar has been copied to the patched path).
pub fn patch_core_jar(opts: &Opts) -> (cmd: CommandSpec)
    ensures
        cmd@ == patch_core_jar_command(*opts),
{
    let mut cmd = CommandSpec::new(opts.jdk.jar());
    cmd.arg_str("--update");
    cmd.arg_str("--file");
    cmd.arg(opts.patched_platform_modules());
    cmd.arg_str("-C");
    cmd.arg_str(opts.workdir.as_str());
    cmd.arg_str("module-info.class");
    assert(cmd@.args =~= patch_core_jar_command(*opts).args);
    cmd
}

// ---------------------------------------------------------------------------
// Stage 4: the jmod, with the host JDK's version and platform
// ---------------------------------------------------------------------------

/// `jmod --version`
pub open spec fn jmod_version_command(opts: Opts) -> CommandSpecView {
    CommandSpecView { program: join(opts.jdk@, "bin/jmod"@), args: seq!["--version"@] }
}

/// The command that asks the host JDK's module version.
pub fn jmod_version(opts: &Opts) -> (cmd: CommandSpec)
    ensures
        cmd@ == jmod_version_command(*opts),
{
    let mut cmd = CommandSpec::new(opts.jdk.jmod());
    cmd.arg_str("--version");
    assert(cmd@.args =~= jmod_version_command(*opts).args);
    cmd
}

/// The module version in the output of `jmod --version`: the output trimmed.
pub fn module_version(output: &str) -> (res: String)
    ensures
        res@ == trim(output@),
{
    crate::text::trim_str(output)
}

/// `jmod describe <jdk>/jmods/java.base.jmod`
pub open spec fn jmod_describe_command(opts: Opts) -> CommandSpecView {
    CommandSpecView {
        program: join(opts.jdk@, "bin/jmod"@),
        args: seq!["describe"@, join(opts.jdk@, "jmods/java.base.jmod"@)],
    }
}

/// The command that describes the host JDK's `java.base`.
pub fn jmod_describe(opts: &Opts) -> (cmd: CommandSpec)
    ensures
        cmd@ == jmod_describe_command(*opts),
{
    let mut cmd = CommandSpec::new(opts.jdk.jmod());
    cmd.arg_str("describe");
    cmd.arg(join_path(opts.jdk.root().as_str(), "jmods/java.base.jmod"));
    assert(cmd@.args =~= jmod_describe_command(*opts).args);
    cmd
}

/// The rest of the first line that starts with `platform `, if any.
pub open spec fn first_platform_line(ls: Seq<Seq<char>>) -> Option<Seq<char>>
    decreases ls.len(),
{
    if ls.len() == 0 {
        None
    } else if has_prefix(ls[0], "platform "@) {
        Some(ls[0].skip("platform "@.len() as int))
    } else {
        first_platform_line(ls.drop_first())
    }
}

/// No `platform ` line in the output of `jmod describe`.
#[derive(Debug, Clone, Copy, PartialEq, Eq, Structural)]
pub struct MissingPlatform;

/// The target platform in the output of `jmod describe`: the rest of the first
/// `platform ` line, trimmed.
pub fn target_platform(describe: &str) -> (res: Result<String, MissingPlatform>)
    ensures
        match res {
            Ok(p) => first_platform_line(lines(describe@)) matches Some(l) && p@ == trim(l),
            Err(_) => first_platform_line(lines(describe@)) is None,
        },
{
    let ls = split_lines(describe);
    let ghost lv = char_rows(ls@);
    let mut i: usize = 0;
    assert(lv.skip(0) =~= lv);
    while i < ls.len()
        invariant
            lv == char_rows(ls@),
            lv == lines(describe@),
            i <= ls@.len(),
            first_platform_line(lv) == first_platform_line(lv.skip(i as int)),
        decreases ls@.len() - i,
    {
        assert(lv.skip(i as int)[0] == ls@[i as int]@);
        assert(lv.skip(i as int).drop_first() =~= lv.skip(i + 1));
        let line = &ls[i];
        let n = line.len();
        assert(line@.subrange(0, n as int) == line@);
        if starts_with_at(line.as_slice(), 0, "platform ") {
            let p = "platform ".unicode_len();
            assert(line@.skip(p as int) == line@.subrange(p as int, n as int));
            let (a, b) = trim_bounds(line.as_slice(), p, n);
            return Ok(string_from(line.as_slice(), a, b));
        }
        i = i + 1;
    }
    Err(MissingPlatform)
}

/// `jmod create --class-path <patched jar> --module-version <v> --target-platform <p> <jmod>`
pub open spec fn create_jmod_command(opts: Opts, version: Seq<char>, platform: Seq<char>) -> CommandSpecView {
    CommandSpecView {
        program: join(opts.jdk@, "bin/jmod"@),
        args: seq![
            "create"@,
            "--class-path"@,
            join(opts.workdir@, "core-for-system-modules.patched.jar"@),
            "--module-version"@,
            version,
            "--target-platform"@,
            platform,
            join(opts.workdir@, "java.base.jmod"@),
        ],
    }
}

/// The command of stage 4.
pub fn create_base_jmod(opts: &Opts, version: String, platform: String) -> (cmd: CommandSpec)
    ensures
        cmd@ == create_jmod_command(*opts, version@, platform@),
{
    let mut cmd = CommandSpec::new(opts.jdk.jmod());
    cmd.arg_str("create");
    cmd.arg_str("--class-path");
    cmd.arg(opts.patched_platform_modules());
    cmd.arg_str("--module-version");
    cmd.arg(version);
    cmd.arg_str("--target-platform");
    cmd.arg(platform);
    cmd.arg(opts.module_info_jmod());
    assert(cmd@.args =~= create_jmod_command(*opts, version@, platform@).args);
    cmd
}

// ---------------------------------------------------------------------------
// Stage 5: the runtime image
// ---------------------------------------------------------------------------

/// `jlink` of `java.base` alone into the output directory.
pub open spec fn link_command(opts: Opts) -> CommandSpecView {
    CommandSpecView {
        program: join(opts.jdk@, "bin/jlink"@),
        args: seq![
            "--module-path"@,
            join(opts.workdir@, "java.base.jmod"@),
            "--add-modules"@,
            "java.base"@,
            "--disable-plugin"@,
            "system-modules"@,
            "--endian"@,
            "little"@,
            "--output"@,
            opts.output@,
        ],
    }
}

/// The command of stage 5.
pub fn link(opts: &Opts) -> (cmd: CommandSpec)
    ensures
        cmd@ == link_command(*opts),
{
    let mut cmd = CommandSpec::new(opts.jdk.jlink());
    cmd.arg_str("--module-path");
    cmd.arg(opts.module_info_jmod());
    cmd.arg_str("--add-modules");
    cmd.arg_str("java.base");
    cmd.arg_str("--disable-plugin");
    cmd.arg_str("system-modules");
    cmd.arg_str("--endian");
    cmd.arg_str("little");
    cmd.arg_str("--output");
    cmd.arg_str(opts.output.as_str());
    assert(cmd@.args =~= link_command(*opts).args);
    cmd
}

/// The JRT file system provider copied into the image: from the JDK's
/// `lib/jrt-fs.jar` to the image's.
pub fn jrt_fs_copy(opts: &Opts) -> (res: (String, String))
    ensures
        res.0@ == join(opts.jdk@, "lib/jrt-fs.jar"@),
        res.1@ == join(opts.output@, "lib/jrt-fs.jar"@),
{
    (
        join_path(opts.jdk.root().as_str(), "lib/jrt-fs.jar"),
        join_path(opts.output.as_str(), "lib/jrt-fs.jar"),
    )
}

/// The card that announces a stage of the image: `JAVA-IMAGE step/total :: title`.
pub fn jdk_stage_card(step: usize, total: usize, title: &str) -> (s: String)
    ensures
        s@ == card(
            bold_colored("JAVA-IMAGE"@, 184, 219, 255),
            bold_colored(step_count(step, total), 197, 228, 255),
            bold_colored(title@, 226, 242, 255),
        ),
{
    let label = paint_bold("JAVA-IMAGE", 184, 219, 255);
    let title = paint_bold(title, 226, 242, 255);
    let count = format_step_count(step, total);
    let count = paint_bold(count.as_str(), 197, 228, 255);
    join_card(label, count, title)
}

} // verus!

verus! {

// ---------------------------------------------------------------------------
// Laws of the package discovery and of the platform line
// ---------------------------------------------------------------------------

/// The packages of a listing are exactly those of its class entries.
pub proof fn lemma_package_set_members(entries: Seq<Seq<char>>, p: Seq<char>)
    ensures
        package_set(entries).contains(p) <==> exists|i: int|
            0 <= i < entries.len() && #[trigger] class_package(entries[i]) == Some(p),
    decreases entries.len(),
{
    if entries.len() > 0 {
        let prev = entries.drop_last();
        lemma_package_set_members(prev, p);
        if package_set(entries).contains(p) && !(class_package(entries.last()) == Some(p)) {
            let i = choose|i: int| 0 <= i < prev.len() && #[trigger] class_package(prev[i]) == Some(p);
            assert(entries[i] == prev[i]);
        }
        if exists|i: int| 0 <= i < entries.len() && #[trigger] class_package(entries[i]) == Some(p) {
            let i = choose|i: int| 0 <= i < entries.len() && #[trigger] class_package(entries[i]) == Some(p);
            if i < prev.len() {
                assert(prev[i] == entries[i]);
            }
        }
    }
}

/// A class entry `<dir>/<name>.class` belongs to the package named by its
/// directory, with every `/` made a `.`.
pub proof fn lemma_class_entry_package(dir: Seq<char>, name: Seq<char>)
    requires
        !has_char(name, '/'),
        has_suffix(name, ".class"@),
    ensures
        class_package(dir + seq!['/'] + name) == Some(swap_char(dir, '/', '.')),
{
    reveal_strlit(".class");
    let e = dir + seq!['/'] + name;
    lemma_last_index_of(e, '/');
    let k = dir.len() as int;
    assert(e[k] == '/');
    assert forall|j: int| k < j < e.len() implies e[j] != '/' by {
        assert(e[j] == name[j - k - 1]);
        if e[j] == '/' {
            assert(has_char(name, '/'));
        }
    }
    assert(last_index_of(e, '/') == k);
    assert(e.subrange(e.len() - 6, e.len() as int) =~= name.subrange(name.len() - 6, name.len() as int));
    assert(e.take(k) =~= dir);
    lemma_replace_char_single(dir, '/', '.');
}

/// The platform given to `jmod create` is what follows `platform ` on the
/// first line of `jmod describe` that starts so; there is none only where no
/// line does.
pub proof fn lemma_first_platform_line(ls: Seq<Seq<char>>)
    ensures
        match first_platform_line(ls) {
            Some(p) => exists|i: int| #![trigger ls[i]]
                0 <= i < ls.len() && has_prefix(ls[i], "platform "@) && p == ls[i].skip(9)
                    && forall|j: int| 0 <= j < i ==> !has_prefix(#[trigger] ls[j], "platform "@),
            None => forall|j: int| 0 <= j < ls.len() ==> !has_prefix(#[trigger] ls[j], "platform "@),
        },
    decreases ls.len(),
{
    reveal_strlit("platform ");
    if ls.len() > 0 && !has_prefix(ls[0], "platform "@) {
        let rest = ls.drop_first();
        lemma_first_platform_line(rest);
        match first_platform_line(rest) {
            Some(p) => {
                let i = choose|i: int| #![trigger rest[i]]
                    0 <= i < rest.len() && has_prefix(rest[i], "platform "@) && p == rest[i].skip(9)
                        && forall|j: int| 0 <= j < i ==> !has_prefix(#[trigger] rest[j], "platform "@);
                assert(ls[i + 1] == rest[i]);
                assert forall|j: int| 0 <= j < i + 1 implies !has_prefix(#[trigger] ls[j], "platform "@) by {
                    if j > 0 {
                        assert(ls[j] == rest[j - 1]);
                    }
                }
            },
            None => {
                assert forall|j: int| 0 <= j < ls.len() implies !has_prefix(#[trigger] ls[j], "platform "@) by {
                    if j > 0 {
                        assert(ls[j] == rest[j - 1]);
                    }
                }
            },
        }
    }
}

} // verus!
