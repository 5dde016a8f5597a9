//! `build`: from Java sources and native libraries to an unsigned APK, in four
//! stages, each a command of the Android SDK or the JDK.
mod arch;

pub use self::arch::{Arch, UnsupportedArch, abi_name, arch_named, rustc_triple};

use vstd::prelude::*;

use crate::paths::{join, join_path, path_file_name, opt_view, file_name};
use crate::text::{
    char_rows, has_prefix, has_suffix, has_char, joined, join_with, lines,
    replace_char, replace_char_str, split_lines, str_has_char, starts_with_at, string_from,
    string_views,
};
use crate::tools;
use crate::utils::{CommandSpec, CommandSpecView};

verus! {

/// What `build` is asked to do.
#[derive(Debug)]
pub struct Opts {
    // Inputs from the command line.
    pub package: String,
    pub manifest: String,
    pub java: Vec<String>,
    pub jars: Vec<String>,
    pub sysmodules: Option<String>,
    pub resources: Option<String>,
    pub libs: Vec<String>,
    pub arch: Arch,
    // Tool locations.
    pub jdk: String,
    pub platform: String,
    pub build_tools: String,
    // Build output directory.
    pub workdir: String,
}

/// The output directory of a build.
#[derive(Debug)]
pub struct WorkDir {
    root: String,
}

impl View for WorkDir {
    type V = Seq<char>;

    closed spec fn view(&self) -> Seq<char> {
        self.root@
    }
}

impl WorkDir {
    /// The output directory at `at`.
    pub fn new(at: String) -> (w: WorkDir)
        ensures
            w@ == at@,
    {
        WorkDir { root: at }
    }

    /// The directory itself.
    pub fn root(&self) -> (r: &String)
        ensures
            r@ == self@,
    {
        &self.root
    }

    /// `java/`: generated sources and compiled classes.
    pub fn java(&self) -> (r: String)
        ensures
            r@ == join(self@, "java"@),
    {
        join_path(self.root.as_str(), "java")
    }

    /// `dex/`: the DEX output and the native libraries.
    pub fn dex(&self) -> (r: String)
        ensures
            r@ == join(self@, "dex"@),
    {
        join_path(self.root.as_str(), "dex")
    }

    /// `app.apk`: the package.
    pub fn apk(&self) -> (r: String)
        ensures
            r@ == join(self@, "app.apk"@),
    {
        join_path(self.root.as_str(), "app.apk")
    }
}

/// A build with its tools resolved.
#[derive(Debug)]
pub struct BuildContext {
    // Inputs.
    pub package: String,
    pub manifest: String,
    pub java: Vec<String>,
    pub jars: Vec<String>,
    pub sysmodules: Option<String>,
    pub resources: Option<String>,
    pub libs: Vec<String>,
    pub arch: Arch,
    // Resolved tools.
    pub jdk: tools::Jdk,
    pub platform: tools::AndroidPlatform,
    pub build_tools: tools::AndroidBuildTools,
    // Workspace.
    pub workdir: WorkDir,
}

impl BuildContext {
    /// The context of a build: the same inputs, the tools found at the given places.
    pub fn from_opts(opts: Opts) -> (ctx: BuildContext)
        ensures
            ctx.package@ == opts.package@,
            ctx.manifest@ == opts.manifest@,
            string_views(ctx.java@) == string_views(opts.java@),
            string_views(ctx.jars@) == string_views(opts.jars@),
            opt_view(ctx.sysmodules) == opt_view(opts.sysmodules),
            opt_view(ctx.resources) == opt_view(opts.resources),
            string_views(ctx.libs@) == string_views(opts.libs@),
            ctx.arch == opts.arch,
            ctx.jdk@ == opts.jdk@,
            ctx.platform@ == opts.platform@,
            ctx.build_tools@ == opts.build_tools@,
            ctx.workdir@ == opts.workdir@,
    {
        BuildContext {
            jdk: tools::Jdk::new(opts.jdk),
            platform: tools::AndroidPlatform::new(opts.platform),
            build_tools: tools::AndroidBuildTools::new(opts.build_tools),
            package: opts.package,
            manifest: opts.manifest,
            java: opts.java,
            jars: opts.jars,
            sysmodules: opts.sysmodules,
            resources: opts.resources,
            libs: opts.libs,
            arch: opts.arch,
            workdir: WorkDir::new(opts.workdir),
        }
    }
}

/// `-S <resources>` where resources are given, else nothing.
pub open spec fn resources_args(resources: Option<Seq<char>>) -> Seq<Seq<char>> {
    match resources {
        Some(r) => seq!["-S"@, r],
        None => Seq::empty(),
    }
}

/// Stage 1: `aapt package -m` writes `R.java` for the manifest and resources.
pub open spec fn r_java_command(ctx: BuildContext) -> CommandSpecView {
    CommandSpecView {
        program: join(ctx.build_tools@, "aapt"@),
        args: seq!["package"@, "-m"@, "-M"@, ctx.manifest@, "-I"@, join(ctx.platform@, "android.jar"@), "-J"@, join(ctx.workdir@, "java"@)]
            + resources_args(opt_view(ctx.resources)) + seq!["-v"@],
    }
}

/// Adds `-S <resources>` where resources are given.
fn push_resources(cmd: &mut CommandSpec, resources: &Option<String>)
    ensures
        final(cmd)@.program == old(cmd)@.program,
        final(cmd)@.args == old(cmd)@.args + resources_args(opt_view(*resources)),
{
    match resources {
        Some(r) => {
            cmd.arg_str("-S");
            cmd.arg_str(r.as_str());
        },
        None => {
            assert(old(cmd)@.args + Seq::<Seq<char>>::empty() =~= old(cmd)@.args);
        },
    }
}

/// The command of stage 1.
pub fn generate_r_java_command(ctx: &BuildContext) -> (cmd: CommandSpec)
    ensures
        cmd@ == r_java_command(*ctx),
{
    let mut cmd = CommandSpec::new(ctx.build_tools.aapt());
    cmd.arg_str("package");
    cmd.arg_str("-m");
    cmd.arg_str("-M");
    cmd.arg_str(ctx.manifest.as_str());
    cmd.arg_str("-I");
    cmd.arg(ctx.platform.android_jar());
    cmd.arg_str("-J");
    cmd.arg(ctx.workdir.java());
    push_resources(&mut cmd, &ctx.resources);
    cmd.arg_str("-v");
    assert(cmd@.args =~= r_java_command(*ctx).args);
    cmd
}

/// A class path cannot hold an entry that contains the separator `:`.
#[derive(Debug, Clone, Copy, PartialEq, Eq, Structural)]
pub struct ClasspathError;

/// The class path for `javac`: the platform's `android.jar`, then the `--jar`s.
pub open spec fn classpath_entries(ctx: BuildContext) -> Seq<Seq<char>> {
    seq![join(ctx.platform@, "android.jar"@)] + string_views(ctx.jars@)
}

/// The class path entries joined as `std::env::join_paths` joins them on Unix,
/// or nothing where an entry contains `:`.
pub open spec fn classpath(entries: Seq<Seq<char>>) -> Option<Seq<char>> {
    if exists|i: int| 0 <= i < entries.len() && has_char(#[trigger] entries[i], ':') {
        None
    } else {
        Some(joined(entries, ':'))
    }
}

/// `R.java` under the generated sources, in the directory of the package.
pub open spec fn r_java_path(ctx: BuildContext) -> Seq<char> {
    join(join(join(ctx.workdir@, "java"@), replace_char(ctx.package@, '.', "/"@)), "R.java"@)
}

/// `--system <sysmodules>` where a system image is given, else nothing.
pub open spec fn system_args(sysmodules: Option<Seq<char>>) -> Seq<Seq<char>> {
    match sysmodules {
        Some(s) => seq!["--system"@, s],
        None => Seq::empty(),
    }
}

/// Stage 2: `javac` compiles the sources and `R.java`, verbosely, so that the
/// classes it writes can be read from its log.
pub open spec fn javac_command(ctx: BuildContext, cp: Seq<char>) -> CommandSpecView {
    CommandSpecView {
        program: join(ctx.jdk@, "bin/javac"@),
        args: system_args(opt_view(ctx.sysmodules)) + seq!["-classpath"@, cp, "-source"@, "17"@, "-target"@, "17"@]
            + string_views(ctx.java@) + seq![r_java_path(ctx), "-d"@, join(ctx.workdir@, "java"@), "-encoding"@, "UTF-8"@, "-Xlint"@, "-deprecation"@, "-verbose"@],
    }
}

/// The class path for `javac`.
pub fn java_classpath(ctx: &BuildContext) -> (res: Result<String, ClasspathError>)
    ensures
        match res {
            Ok(cp) => classpath(classpath_entries(*ctx)) == Some(cp@),
            Err(_) => classpath(classpath_entries(*ctx)) is None,
        },
{
    let mut entries: Vec<String> = Vec::new();
    entries.push(ctx.platform.android_jar());
    let mut i: usize = 0;
    while i < ctx.jars.len()
        invariant
            i <= ctx.jars@.len(),
            string_views(entries@) == seq![join(ctx.platform@, "android.jar"@)] + string_views(
                ctx.jars@.take(i as int),
            ),
        decreases ctx.jars@.len() - i,
    {
        let ghost before = entries@;
        entries.push(crate::text::copy_str(ctx.jars[i].as_str()));
        assert(string_views(entries@) =~= string_views(before).push(ctx.jars@[i as int]@));
        assert(string_views(ctx.jars@.take(i + 1)) =~= string_views(ctx.jars@.take(i as int)).push(
            ctx.jars@[i as int]@,
        ));
        i = i + 1;
    }
    assert(ctx.jars@.take(ctx.jars@.len() as int) =~= ctx.jars@);
    let ghost es = string_views(entries@);
    assert(es == classpath_entries(*ctx));
    let mut k: usize = 0;
    while k < entries.len()
        invariant
            es == string_views(entries@),
            es == classpath_entries(*ctx),
            k <= entries@.len(),
            forall|j: int| 0 <= j < k ==> !has_char(#[trigger] es[j], ':'),
        decreases entries@.len() - k,
    {
        assert(es[k as int] == entries@[k as int]@);
        if str_has_char(entries[k].as_str(), ':') {
            assert(has_char(es[k as int], ':'));
            assert(classpath_entries(*ctx)[k as int] == es[k as int]);
            return Err(ClasspathError);
        }
        k = k + 1;
    }
    Ok(join_with(&entries, ':'))
}

/// The command of stage 2, or the class path error.
pub fn compile_java_command(ctx: &BuildContext) -> (res: Result<CommandSpec, ClasspathError>)
    ensures
        match res {
            Ok(cmd) => classpath(classpath_entries(*ctx)) matches Some(cp) && cmd@ == javac_command(
                *ctx,
                cp,
            ),
            Err(_) => classpath(classpath_entries(*ctx)) is None,
        },
{
    let cp = match java_classpath(ctx) {
        Ok(cp) => cp,
        Err(e) => return Err(e),
    };
    let mut cmd = CommandSpec::new(ctx.jdk.javac());
    match &ctx.sysmodules {
        Some(s) => {
            cmd.arg_str("--system");
            cmd.arg_str(s.as_str());
        },
        None => {},
    }
    cmd.arg_str("-classpath");
    cmd.arg(cp);
    cmd.arg_str("-source");
    cmd.arg_str("17");
    cmd.arg_str("-target");
    cmd.arg_str("17");
    let ghost head = cmd@.args;
    let mut i: usize = 0;
    while i < ctx.java.len()
        invariant
            i <= ctx.java@.len(),
            cmd@.program == join(ctx.jdk@, "bin/javac"@),
            cmd@.args == head + string_views(ctx.java@.take(i as int)),
        decreases ctx.java@.len() - i,
    {
        cmd.arg_str(ctx.java[i].as_str());
        assert(string_views(ctx.java@.take(i + 1)) =~= string_views(ctx.java@.take(i as int)).push(
            ctx.java@[i as int]@,
        ));
        i = i + 1;
    }
    assert(ctx.java@.take(ctx.java@.len() as int) =~= ctx.java@);
    let package_dir = replace_char_str(ctx.package.as_str(), '.', "/");
    let r_java = join_path(join_path(ctx.workdir.java().as_str(), package_dir.as_str()).as_str(), "R.java");
    cmd.arg(r_java);
    cmd.arg_str("-d");
    cmd.arg(ctx.workdir.java());
    cmd.arg_str("-encoding");
    cmd.arg_str("UTF-8");
    cmd.arg_str("-Xlint");
    cmd.arg_str("-deprecation");
    cmd.arg_str("-verbose");
    proof {
        let cpv = classpath(classpath_entries(*ctx))->0;
        assert(cmd@.args =~= javac_command(*ctx, cpv).args);
    }
    Ok(cmd)
}

/// The class file that a line of `javac -verbose` reports as written:
/// `[wrote <path>.class]`.
pub open spec fn written_class(line: Seq<char>) -> Option<Seq<char>> {
    let p = "[wrote "@.len();
    if has_prefix(line, "[wrote "@) && line.len() > p && line.last() == ']' && has_suffix(
        line.subrange(p as int, line.len() - 1),
        ".class"@,
    ) {
        Some(line.subrange(p as int, line.len() - 1))
    } else {
        None
    }
}

/// The class files reported as written by the given log lines, in order.
pub open spec fn written_classes(ls: Seq<Seq<char>>) -> Seq<Seq<char>>
    decreases ls.len(),
{
    if ls.len() == 0 {
        Seq::empty()
    } else {
        let prev = written_classes(ls.drop_last());
        match written_class(ls.last()) {
            Some(c) => prev.push(c),
            None => prev,
        }
    }
}

/// The class file a log line reports as written, if it reports one.
fn written_class_of(line: &Vec<char>) -> (res: Option<String>)
    ensures
        opt_view(res) == written_class(line@),
{
    let n = line.len();
    assert(line@.subrange(0, n as int) == line@);
    if !starts_with_at(line.as_slice(), 0, "[wrote ") {
        return None;
    }
    let p = "[wrote ".unicode_len();
    if n <= p || line[n - 1] != ']' {
        return None;
    }
    assert(line@.subrange(p as int, n - 1) == line@.subrange(0, n - 1).subrange(p as int, n - 1));
    let s = string_from(line.as_slice(), p, n - 1);
    let ok = crate::text::str_ends_with(s.as_str(), ".class");
    if ok {
        Some(s)
    } else {
        None
    }
}

/// The class files that `javac -verbose` reports having written, in order.
pub fn written_classes_in(log: &str) -> (res: Vec<String>)
    ensures
        string_views(res@) == written_classes(lines(log@)),
{
    let ls = split_lines(log);
    let ghost lv = char_rows(ls@);
    let mut out: Vec<String> = Vec::new();
    let mut i: usize = 0;
    while i < ls.len()
        invariant
            lv == char_rows(ls@),
            lv == lines(log@),
            i <= ls@.len(),
            string_views(out@) == written_classes(lv.take(i as int)),
        decreases ls@.len() - i,
    {
        assert(lv.take(i + 1).drop_last() =~= lv.take(i as int));
        assert(lv[i as int] == ls@[i as int]@);
        match written_class_of(&ls[i]) {
            Some(c) => {
                let ghost before = out@;
                out.push(c);
                assert(string_views(out@) =~= string_views(before).push(c@));
            },
            None => {},
        }
        i = i + 1;
    }
    assert(lv.take(ls@.len() as int) =~= lv);
    out
}

/// Stage 3: `d8` turns the classes and jars into DEX.
pub open spec fn d8_command(ctx: BuildContext, classes: Seq<Seq<char>>) -> CommandSpecView {
    CommandSpecView {
        program: join(ctx.jdk@, "bin/java"@),
        args: seq!["-cp"@, join(ctx.build_tools@, "lib/d8.jar"@), "com.android.tools.r8.D8"@, "--lib"@, join(ctx.platform@, "android.jar"@)]
            + classes + string_views(ctx.jars@) + seq!["--release"@, "--output"@, join(ctx.workdir@, "dex"@)],
    }
}

/// Adds each string of `items`.
fn push_all(cmd: &mut CommandSpec, items: &Vec<String>)
    ensures
        final(cmd)@.program == old(cmd)@.program,
        final(cmd)@.args == old(cmd)@.args + string_views(items@),
{
    let mut i: usize = 0;
    while i < items.len()
        invariant
            i <= items@.len(),
            cmd@.program == old(cmd)@.program,
            cmd@.args == old(cmd)@.args + string_views(items@.take(i as int)),
        decreases items@.len() - i,
    {
        cmd.arg_str(items[i].as_str());
        assert(string_views(items@.take(i + 1)) =~= string_views(items@.take(i as int)).push(
            items@[i as int]@,
        ));
        i = i + 1;
    }
    assert(items@.take(items@.len() as int) =~= items@);
}

/// The command of stage 3.
pub fn compile_dex_command(ctx: &BuildContext, classes: &Vec<String>) -> (cmd: CommandSpec)
    ensures
        cmd@ == d8_command(*ctx, string_views(classes@)),
{
    let mut cmd = CommandSpec::new(ctx.jdk.jvm());
    cmd.arg_str("-cp");
    cmd.arg(ctx.build_tools.d8_jar());
    cmd.arg_str("com.android.tools.r8.D8");
    cmd.arg_str("--lib");
    cmd.arg(ctx.platform.android_jar());
    push_all(&mut cmd, classes);
    push_all(&mut cmd, &ctx.jars);
    cmd.arg_str("--release");
    cmd.arg_str("--output");
    cmd.arg(ctx.workdir.dex());
    assert(cmd@.args =~= d8_command(*ctx, string_views(classes@)).args);
    cmd
}

/// Where the native libraries go: `dex/lib/<abi>`.
pub open spec fn native_lib_dir(ctx: BuildContext) -> Seq<char> {
    join(join(join(ctx.workdir@, "dex"@), "lib"@), abi_name(ctx.arch))
}

/// The directory for the native libraries.
pub fn native_lib_dir_of(ctx: &BuildContext) -> (res: String)
    ensures
        res@ == native_lib_dir(*ctx),
{
    let lib = join_path(ctx.workdir.dex().as_str(), "lib");
    join_path(lib.as_str(), ctx.arch.aapt())
}

/// Where a native library is copied to: its file name under `lib_dir`; nothing
/// where the path has no file name.
pub fn native_lib_destination(lib_dir: &str, native_file: &str) -> (res: Option<String>)
    ensures
        opt_view(res) == (match path_file_name(native_file@) {
            Some(n) => Some(join(lib_dir@, n)),
            None => None,
        }),
{
    match file_name(native_file) {
        Some(n) => Some(join_path(lib_dir, n.as_str())),
        None => None,
    }
}

/// Stage 4: `aapt package -f` packs manifest, resources, classes and libraries.
pub open spec fn package_command(ctx: BuildContext) -> CommandSpecView {
    CommandSpecView {
        program: join(ctx.build_tools@, "aapt"@),
        args: seq!["package"@, "-f"@, "--min-sdk-version"@, "21"@, "--target-sdk-version"@, "36"@, "--error-on-failed-insert"@, "--error-on-missing-config-entry"@, "--debug-mode"@, "-M"@, ctx.manifest@, "-0"@, "dex"@, "-0"@, "so"@]
            + resources_args(opt_view(ctx.resources)) + seq!["-I"@, join(ctx.platform@, "android.jar"@), "-F"@, join(ctx.workdir@, "app.apk"@), join(ctx.workdir@, "java"@), join(ctx.workdir@, "dex"@)],
    }
}

/// The command of stage 4.
pub fn package_apk_command(ctx: &BuildContext) -> (cmd: CommandSpec)
    ensures
        cmd@ == package_command(*ctx),
{
    let mut cmd = CommandSpec::new(ctx.build_tools.aapt());
    cmd.arg_str("package");
    cmd.arg_str("-f");
    cmd.arg_str("--min-sdk-version");
    cmd.arg_str("21");
    cmd.arg_str("--target-sdk-version");
    cmd.arg_str("36");
    cmd.arg_str("--error-on-failed-insert");
    cmd.arg_str("--error-on-missing-config-entry");
    cmd.arg_str("--debug-mode");
    cmd.arg_str("-M");
    cmd.arg_str(ctx.manifest.as_str());
    cmd.arg_str("-0");
    cmd.arg_str("dex");
    cmd.arg_str("-0");
    cmd.arg_str("so");
    push_resources(&mut cmd, &ctx.resources);
    cmd.arg_str("-I");
    cmd.arg(ctx.platform.android_jar());
    cmd.arg_str("-F");
    cmd.arg(ctx.workdir.apk());
    cmd.arg(ctx.workdir.java());
    cmd.arg(ctx.workdir.dex());
    assert(cmd@.args =~= package_command(*ctx).args);
    cmd
}

// ---------------------------------------------------------------------------
// Laws of the compile commands
// ---------------------------------------------------------------------------

/// `javac` is handed every Java source of the build, unfiltered and in order,
/// right after `-classpath <cp> -source 17 -target 17` and right before the
/// generated `R.java`.
pub proof fn lemma_javac_passes_every_source(ctx: BuildContext, cp: Seq<char>)
    ensures
        ({
            let args = javac_command(ctx, cp).args;
            let k = system_args(opt_view(ctx.sysmodules)).len() as int + 6;
            let n = ctx.java@.len() as int;
            &&& args.len() == k + n + 8
            &&& args[k - 6] == "-classpath"@ && args[k - 5] == cp
            &&& args[k - 4] == "-source"@ && args[k - 3] == "17"@
            &&& args[k - 2] == "-target"@ && args[k - 1] == "17"@
            &&& forall|i: int| 0 <= i < n ==> #[trigger] args[k + i] == ctx.java@[i]@
            &&& args[k + n] == r_java_path(ctx)
        }),
{
}

/// `d8` is handed every class file given, unfiltered and in order, then every
/// jar of the build, between the fixed leading and trailing arguments.
pub proof fn lemma_d8_passes_every_class(ctx: BuildContext, classes: Seq<Seq<char>>)
    ensures
        ({
            let args = d8_command(ctx, classes).args;
            let c = classes.len() as int;
            let j = ctx.jars@.len() as int;
            &&& args.len() == 5 + c + j + 3
            &&& args[3] == "--lib"@ && args[4] == join(ctx.platform@, "android.jar"@)
            &&& forall|i: int| 0 <= i < c ==> #[trigger] args[5 + i] == classes[i]
            &&& forall|i: int| 0 <= i < j ==> #[trigger] args[5 + c + i] == ctx.jars@[i]@
            &&& args[5 + c + j] == "--release"@
        }),
{
}

/// The generated `R.java` lies in the package's directory under the generated
/// sources: the package with every `.` made a `/`.
pub proof fn lemma_r_java_in_package_dir(ctx: BuildContext)
    ensures
        r_java_path(ctx) == join(
            join(join(ctx.workdir@, "java"@), crate::fetch::dots_to_slashes(ctx.package@)),
            "R.java"@,
        ),
{
    crate::fetch::lemma_replace_dots(ctx.package@);
}

/// The classes read from javac's log are, in order, the class file of every
/// line that reports one, and nothing else.
pub proof fn lemma_written_classes_keep_every_report(ls: Seq<Seq<char>>)
    ensures
        written_classes(ls) == ls.filter_map(|l: Seq<char>| written_class(l)),
    decreases ls.len(),
{
    if ls.len() > 0 {
        lemma_written_classes_keep_every_report(ls.drop_last());
        assert(ls.filter_map(|l: Seq<char>| written_class(l)) =~= written_classes(ls));
    }
}

/// A line `[wrote <path>]` reports `<path>` whenever it names a `.class` file,
/// whatever else the path holds (`$`, dots, slashes).
pub proof fn lemma_wrote_line_reports_its_class(path: Seq<char>)
    requires
        has_suffix(path, ".class"@),
    ensures
        written_class("[wrote "@ + path + seq![']']) == Some(path),
{
    reveal_strlit("[wrote ");
    reveal_strlit(".class");
    let line = "[wrote "@ + path + seq![']'];
    assert(line.subrange(0, 7) =~= "[wrote "@);
    assert(line.subrange(7, line.len() - 1) =~= path);
}

} // verus!
