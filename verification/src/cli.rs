//! The command line: which subcommand runs and with what arguments.
//!
//! `lexopt` splits the arguments into items; each subcommand's grammar is a
//! step function from the arguments collected so far and one item (with the
//! value taken for it, where the option takes one) to the arguments collected
//! after it, and a final check of what was collected.
use vstd::prelude::*;

use crate::build::{Arch, arch_named};
use crate::fetch::{Dependency, DependencyView, parse_dependency};
use crate::lexer::{
    LexFailure, LexFailureView, LexItem, LexItemView, lex_failure, lex_next, lex_value,
    lexopt_failure, lexopt_from_args, lexopt_next, lexopt_value, parser_from_args, parser_pending,
};
use crate::paths::{is_absolute, join, join_path, lemma_join_absolute, opt_view, resolve};
use crate::text::{concat2, copy_str, os_debug, os_debug_text, push_char, str_eq, string_views};

verus! {

// ---------------------------------------------------------------------------
// Parsed commands
// ---------------------------------------------------------------------------

/// A parsed command line.
#[derive(Debug)]
pub enum Command {
    Build(BuildArgs),
    Sign(SignArgs),
    Deploy(DeployArgs),
    Fetch(FetchArgs),
    Setup(SetupCommand),
}

/// Arguments of `build`.
#[derive(Debug)]
pub struct BuildArgs {
    pub package: String,
    pub manifest: String,
    pub java_files: Vec<String>,
    pub jars: Vec<String>,
    pub resources: Option<String>,
    pub sysmodules: Option<String>,
    pub libs: Vec<String>,
    pub output: String,
    pub jdk: String,
    pub android_platform: String,
    pub android_build_tools: String,
    pub arch: Arch,
}

/// Arguments of `sign`.
#[derive(Debug)]
pub struct SignArgs {
    pub apk: String,
    pub android_build_tools: String,
    pub keystore: String,
}

/// Arguments of `deploy`.
#[derive(Debug)]
pub struct DeployArgs {
    pub apk: String,
    pub package: String,
    pub launch: bool,
}

/// Arguments of `fetch`.
#[derive(Debug)]
pub struct FetchArgs {
    pub dependencies: Vec<Dependency>,
    pub output: String,
    pub coursier: Option<String>,
}

/// The targets of `setup`.
#[derive(Debug)]
pub enum SetupCommand {
    Keystore(SetupKeystoreArgs),
    Sysmodules(SetupSysmodulesArgs),
}

/// Arguments of `setup keystore`.
#[derive(Debug)]
pub struct SetupKeystoreArgs {
    pub keytool: String,
    pub output: String,
}

/// Arguments of `setup sysmodules`.
#[derive(Debug)]
pub struct SetupSysmodulesArgs {
    pub jdk: String,
    pub android_platform: String,
    pub workdir: String,
    pub output: String,
    pub clean: bool,
}

pub struct BuildArgsView {
    pub package: Seq<char>,
    pub manifest: Seq<char>,
    pub java_files: Seq<Seq<char>>,
    pub jars: Seq<Seq<char>>,
    pub resources: Option<Seq<char>>,
    pub sysmodules: Option<Seq<char>>,
    pub libs: Seq<Seq<char>>,
    pub output: Seq<char>,
    pub jdk: Seq<char>,
    pub android_platform: Seq<char>,
    pub android_build_tools: Seq<char>,
    pub arch: Arch,
}

pub struct SignArgsView {
    pub apk: Seq<char>,
    pub android_build_tools: Seq<char>,
    pub keystore: Seq<char>,
}

pub struct DeployArgsView {
    pub apk: Seq<char>,
    pub package: Seq<char>,
    pub launch: bool,
}

pub struct FetchArgsView {
    pub dependencies: Seq<DependencyView>,
    pub output: Seq<char>,
    pub coursier: Option<Seq<char>>,
}

pub struct SetupKeystoreArgsView {
    pub keytool: Seq<char>,
    pub output: Seq<char>,
}

pub struct SetupSysmodulesArgsView {
    pub jdk: Seq<char>,
    pub android_platform: Seq<char>,
    pub workdir: Seq<char>,
    pub output: Seq<char>,
    pub clean: bool,
}

pub enum SetupCommandView {
    Keystore(SetupKeystoreArgsView),
    Sysmodules(SetupSysmodulesArgsView),
}

pub enum CommandView {
    Build(BuildArgsView),
    Sign(SignArgsView),
    Deploy(DeployArgsView),
    Fetch(FetchArgsView),
    Setup(SetupCommandView),
}

/// The views of a list of coordinates.
pub open spec fn dependency_views(v: Seq<Dependency>) -> Seq<DependencyView> {
    v.map_values(|d: Dependency| d@)
}

impl View for BuildArgs {
    type V = BuildArgsView;

    open spec fn view(&self) -> BuildArgsView {
        BuildArgsView {
            package: self.package@,
            manifest: self.manifest@,
            java_files: string_views(self.java_files@),
            jars: string_views(self.jars@),
            resources: opt_view(self.resources),
            sysmodules: opt_view(self.sysmodules),
            libs: string_views(self.libs@),
            output: self.output@,
            jdk: self.jdk@,
            android_platform: self.android_platform@,
            android_build_tools: self.android_build_tools@,
            arch: self.arch,
        }
    }
}

impl View for SignArgs {
    type V = SignArgsView;

    open spec fn view(&self) -> SignArgsView {
        SignArgsView {
            apk: self.apk@,
            android_build_tools: self.android_build_tools@,
            keystore: self.keystore@,
        }
    }
}

impl View for DeployArgs {
    type V = DeployArgsView;

    open spec fn view(&self) -> DeployArgsView {
        DeployArgsView { apk: self.apk@, package: self.package@, launch: self.launch }
    }
}

impl View for FetchArgs {
    type V = FetchArgsView;

    open spec fn view(&self) -> FetchArgsView {
        FetchArgsView {
            dependencies: dependency_views(self.dependencies@),
            output: self.output@,
            coursier: opt_view(self.coursier),
        }
    }
}

impl View for SetupKeystoreArgs {
    type V = SetupKeystoreArgsView;

    open spec fn view(&self) -> SetupKeystoreArgsView {
        SetupKeystoreArgsView { keytool: self.keytool@, output: self.output@ }
    }
}

impl View for SetupSysmodulesArgs {
    type V = SetupSysmodulesArgsView;

    open spec fn view(&self) -> SetupSysmodulesArgsView {
        SetupSysmodulesArgsView {
            jdk: self.jdk@,
            android_platform: self.android_platform@,
            workdir: self.workdir@,
            output: self.output@,
            clean: self.clean,
        }
    }
}

impl View for SetupCommand {
    type V = SetupCommandView;

    open spec fn view(&self) -> SetupCommandView {
        match self {
            SetupCommand::Keystore(a) => SetupCommandView::Keystore(a@),
            SetupCommand::Sysmodules(a) => SetupCommandView::Sysmodules(a@),
        }
    }
}

impl View for Command {
    type V = CommandView;

    open spec fn view(&self) -> CommandView {
        match self {
            Command::Build(a) => CommandView::Build(a@),
            Command::Sign(a) => CommandView::Sign(a@),
            Command::Deploy(a) => CommandView::Deploy(a@),
            Command::Fetch(a) => CommandView::Fetch(a@),
            Command::Setup(a) => CommandView::Setup(a@),
        }
    }
}

// ---------------------------------------------------------------------------
// Errors
// ---------------------------------------------------------------------------

/// Something a subcommand needs that the command line did not give.
#[derive(Clone, Copy, Debug, PartialEq, Eq, Structural)]
pub enum Required {
    /// `--package`
    Package,
    /// `--manifest`
    Manifest,
    /// at least one `--java`
    JavaFiles,
    /// `--jdk`
    Jdk,
    /// `--android-platform`
    AndroidPlatform,
    /// `--android-build-tools`
    AndroidBuildTools,
    /// `--arch`
    Arch,
    /// the APK path after `sign`
    SignApk,
    /// the APK path after `deploy`
    DeployApk,
    /// `--keystore`
    Keystore,
    /// `--output`
    Output,
    /// `--keytool`
    Keytool,
    /// `--workdir`
    Workdir,
    /// at least one coordinate after `fetch`
    Dependencies,
}

/// Why a command line was refused.
#[derive(Debug)]
pub enum CliError {
    /// The lexer refused to go on.
    Lexer(LexFailure),
    /// No subcommand at all.
    MissingCommand,
    /// A subcommand that does not exist.
    UnsupportedCommand(String),
    /// `setup` without a target.
    MissingSetupTarget,
    /// A `setup` target that does not exist.
    UnsupportedSetupTarget(String),
    /// An option this subcommand does not take, as written (`--name` or `-c`).
    UnexpectedOption(String),
    /// A positional argument where none is taken.
    UnexpectedArgument(String),
    /// An `--arch` value that names no architecture.
    UnsupportedArch(String),
    /// A second APK path.
    ExtraPositional,
    /// A coordinate that is not `group:artifact:version`.
    InvalidDependency,
    /// A required argument that is absent.
    Missing(Required),
}

pub enum CliErrorView {
    Lexer(LexFailureView),
    MissingCommand,
    UnsupportedCommand(Seq<char>),
    MissingSetupTarget,
    UnsupportedSetupTarget(Seq<char>),
    UnexpectedOption(Seq<char>),
    UnexpectedArgument(Seq<char>),
    UnsupportedArch(Seq<char>),
    ExtraPositional,
    InvalidDependency,
    Missing(Required),
}

impl View for CliError {
    type V = CliErrorView;

    open spec fn view(&self) -> CliErrorView {
        match self {
            CliError::Lexer(f) => CliErrorView::Lexer(f@),
            CliError::MissingCommand => CliErrorView::MissingCommand,
            CliError::UnsupportedCommand(s) => CliErrorView::UnsupportedCommand(s@),
            CliError::MissingSetupTarget => CliErrorView::MissingSetupTarget,
            CliError::UnsupportedSetupTarget(s) => CliErrorView::UnsupportedSetupTarget(s@),
            CliError::UnexpectedOption(s) => CliErrorView::UnexpectedOption(s@),
            CliError::UnexpectedArgument(s) => CliErrorView::UnexpectedArgument(s@),
            CliError::UnsupportedArch(s) => CliErrorView::UnsupportedArch(s@),
            CliError::ExtraPositional => CliErrorView::ExtraPositional,
            CliError::InvalidDependency => CliErrorView::InvalidDependency,
            CliError::Missing(r) => CliErrorView::Missing(*r),
        }
    }
}

/// The words for an absent argument.
pub open spec fn missing_message(r: Required) -> Seq<char> {
    match r {
        Required::Package => "missing --package"@,
        Required::Manifest => "missing --manifest"@,
        Required::JavaFiles => "missing --java (repeatable)"@,
        Required::Jdk => "missing --jdk"@,
        Required::AndroidPlatform => "missing --android-platform"@,
        Required::AndroidBuildTools => "missing --android-build-tools"@,
        Required::Arch => "missing --arch"@,
        Required::SignApk => "missing apk path after `sign`"@,
        Required::DeployApk => "missing apk path after `deploy`"@,
        Required::Keystore => "missing --keystore"@,
        Required::Output => "missing --output"@,
        Required::Keytool => "missing --keytool"@,
        Required::Workdir => "missing --workdir"@,
        Required::Dependencies => "missing dependencies after `fetch`"@,
    }
}

/// The words for a refused command line: lexopt's own for what the lexer
/// refused and for unwanted options and arguments, and the tool's for the rest.
pub open spec fn cli_message(e: CliErrorView) -> Seq<char> {
    match e {
        CliErrorView::Lexer(LexFailureView::MissingValue(None)) => "missing argument"@,
        CliErrorView::Lexer(LexFailureView::MissingValue(Some(o))) => "missing argument for option '"@
            + o + "'"@,
        CliErrorView::Lexer(LexFailureView::UnexpectedValue(o, v)) => "unexpected argument for option '"@
            + o + "': "@ + os_debug(v),
        CliErrorView::Lexer(LexFailureView::Other(m)) => m,
        CliErrorView::MissingCommand => "missing command"@,
        CliErrorView::UnsupportedCommand(c) => "unsupported command: "@ + c,
        CliErrorView::MissingSetupTarget => "missing setup target: expected `keystore` or `sysmodules`"@,
        CliErrorView::UnsupportedSetupTarget(t) => "unsupported setup target: "@ + t,
        CliErrorView::UnexpectedOption(o) => "invalid option '"@ + o + "'"@,
        CliErrorView::UnexpectedArgument(v) => "unexpected argument "@ + os_debug(v),
        CliErrorView::UnsupportedArch(v) => "unsupported --arch value: "@ + v,
        CliErrorView::ExtraPositional => "unexpected extra positional argument"@,
        CliErrorView::InvalidDependency => "dependency must be group:artifact:version"@,
        CliErrorView::Missing(r) => missing_message(r),
    }
}

/// The words for an absent argument.
pub fn missing_text(r: Required) -> (s: String)
    ensures
        s@ == missing_message(r),
{
    match r {
        Required::Package => copy_str("missing --package"),
        Required::Manifest => copy_str("missing --manifest"),
        Required::JavaFiles => copy_str("missing --java (repeatable)"),
        Required::Jdk => copy_str("missing --jdk"),
        Required::AndroidPlatform => copy_str("missing --android-platform"),
        Required::AndroidBuildTools => copy_str("missing --android-build-tools"),
        Required::Arch => copy_str("missing --arch"),
        Required::SignApk => copy_str("missing apk path after `sign`"),
        Required::DeployApk => copy_str("missing apk path after `deploy`"),
        Required::Keystore => copy_str("missing --keystore"),
        Required::Output => copy_str("missing --output"),
        Required::Keytool => copy_str("missing --keytool"),
        Required::Workdir => copy_str("missing --workdir"),
        Required::Dependencies => copy_str("missing dependencies after `fetch`"),
    }
}

/// `a`, then `b`, then `c`.
fn concat3(a: &str, b: &str, c: &str) -> (s: String)
    ensures
        s@ == a@ + b@ + c@,
{
    let mut s = concat2(a, b);
    s.append(c);
    s
}

impl CliError {
    /// The message shown for this refusal.
    pub fn message(&self) -> (s: String)
        ensures
            s@ == cli_message(self@),
    {
        match self {
            CliError::Lexer(LexFailure::MissingValue(None)) => copy_str("missing argument"),
            CliError::Lexer(LexFailure::MissingValue(Some(o))) => concat3(
                "missing argument for option '",
                o.as_str(),
                "'",
            ),
            CliError::Lexer(LexFailure::UnexpectedValue(o, v)) => {
                let shown = os_debug_text(v.as_str());
                let mut s = concat3("unexpected argument for option '", o.as_str(), "': ");
                s.append(shown.as_str());
                s
            },
            CliError::Lexer(LexFailure::Other(m)) => copy_str(m.as_str()),
            CliError::MissingCommand => copy_str("missing command"),
            CliError::UnsupportedCommand(c) => concat2("unsupported command: ", c.as_str()),
            CliError::MissingSetupTarget => copy_str(
                "missing setup target: expected `keystore` or `sysmodules`",
            ),
            CliError::UnsupportedSetupTarget(t) => concat2("unsupported setup target: ", t.as_str()),
            CliError::UnexpectedOption(o) => concat3("invalid option '", o.as_str(), "'"),
            CliError::UnexpectedArgument(v) => {
                let shown = os_debug_text(v.as_str());
                concat2("unexpected argument ", shown.as_str())
            },
            CliError::UnsupportedArch(v) => concat2("unsupported --arch value: ", v.as_str()),
            CliError::ExtraPositional => copy_str("unexpected extra positional argument"),
            CliError::InvalidDependency => copy_str("dependency must be group:artifact:version"),
            CliError::Missing(r) => missing_text(*r),
        }
    }
}

/// The view of a parse result.
pub open spec fn outcome_view(r: Result<Command, CliError>) -> Result<CommandView, CliErrorView> {
    match r {
        Ok(c) => Ok(c@),
        Err(e) => Err(e@),
    }
}

/// The error for an item that a grammar does not take, as `Arg::unexpected` words it.
pub open spec fn unexpected(item: LexItemView) -> CliErrorView {
    match item {
        LexItemView::Short(c) => CliErrorView::UnexpectedOption(seq!['-', c]),
        LexItemView::Long(n) => CliErrorView::UnexpectedOption(seq!['-', '-'] + n),
        LexItemView::Value(v) => CliErrorView::UnexpectedArgument(v),
    }
}

/// The error for an item that a grammar does not take.
pub fn unexpected_error(item: LexItem) -> (e: CliError)
    ensures
        e@ == unexpected(item@),
{
    match item {
        LexItem::Short(c) => {
            let mut s = String::new();
            push_char(&mut s, '-');
            push_char(&mut s, c);
            assert(s@ =~= seq!['-', c]);
            CliError::UnexpectedOption(s)
        },
        LexItem::Long(n) => {
            let mut s = String::new();
            push_char(&mut s, '-');
            push_char(&mut s, '-');
            s.append(n.as_str());
            assert(s@ =~= seq!['-', '-'] + n@);
            CliError::UnexpectedOption(s)
        },
        LexItem::Value(v) => CliError::UnexpectedArgument(v),
    }
}

// ---------------------------------------------------------------------------
// What has been collected so far
// ---------------------------------------------------------------------------

/// The arguments collected so far, for any subcommand.
#[derive(Debug)]
pub struct Collected {
    pub package: Option<String>,
    pub manifest: Option<String>,
    pub java_files: Vec<String>,
    pub jars: Vec<String>,
    pub resources: Option<String>,
    pub sysmodules: Option<String>,
    pub libs: Vec<String>,
    pub output: Option<String>,
    pub jdk: Option<String>,
    pub android_platform: Option<String>,
    pub android_build_tools: Option<String>,
    pub arch: Option<Arch>,
    pub apk: Option<String>,
    pub keystore: Option<String>,
    pub launch: bool,
    pub dependencies: Vec<Dependency>,
    pub coursier: Option<String>,
    pub keytool: Option<String>,
    pub workdir: Option<String>,
    pub clean: bool,
}

pub struct CollectedView {
    pub package: Option<Seq<char>>,
    pub manifest: Option<Seq<char>>,
    pub java_files: Seq<Seq<char>>,
    pub jars: Seq<Seq<char>>,
    pub resources: Option<Seq<char>>,
    pub sysmodules: Option<Seq<char>>,
    pub libs: Seq<Seq<char>>,
    pub output: Option<Seq<char>>,
    pub jdk: Option<Seq<char>>,
    pub android_platform: Option<Seq<char>>,
    pub android_build_tools: Option<Seq<char>>,
    pub arch: Option<Arch>,
    pub apk: Option<Seq<char>>,
    pub keystore: Option<Seq<char>>,
    pub launch: bool,
    pub dependencies: Seq<DependencyView>,
    pub coursier: Option<Seq<char>>,
    pub keytool: Option<Seq<char>>,
    pub workdir: Option<Seq<char>>,
    pub clean: bool,
}

impl View for Collected {
    type V = CollectedView;

    open spec fn view(&self) -> CollectedView {
        CollectedView {
            package: opt_view(self.package),
            manifest: opt_view(self.manifest),
            java_files: string_views(self.java_files@),
            jars: string_views(self.jars@),
            resources: opt_view(self.resources),
            sysmodules: opt_view(self.sysmodules),
            libs: string_views(self.libs@),
            output: opt_view(self.output),
            jdk: opt_view(self.jdk),
            android_platform: opt_view(self.android_platform),
            android_build_tools: opt_view(self.android_build_tools),
            arch: self.arch,
            apk: opt_view(self.apk),
            keystore: opt_view(self.keystore),
            launch: self.launch,
            dependencies: dependency_views(self.dependencies@),
            coursier: opt_view(self.coursier),
            keytool: opt_view(self.keytool),
            workdir: opt_view(self.workdir),
            clean: self.clean,
        }
    }
}

/// Nothing collected yet: no options, `--launch` off, cleaning on.
pub open spec fn collected_init() -> CollectedView {
    CollectedView {
        package: None,
        manifest: None,
        java_files: Seq::empty(),
        jars: Seq::empty(),
        resources: None,
        sysmodules: None,
        libs: Seq::empty(),
        output: None,
        jdk: None,
        android_platform: None,
        android_build_tools: None,
        arch: None,
        apk: None,
        keystore: None,
        launch: false,
        dependencies: Seq::empty(),
        coursier: None,
        keytool: None,
        workdir: None,
        clean: true,
    }
}

impl Collected {
    /// Nothing collected yet.
    pub fn new() -> (c: Collected)
        ensures
            c@ == collected_init(),
    {
        let c = Collected {
            package: None,
            manifest: None,
            java_files: Vec::new(),
            jars: Vec::new(),
            resources: None,
            sysmodules: None,
            libs: Vec::new(),
            output: None,
            jdk: None,
            android_platform: None,
            android_build_tools: None,
            arch: None,
            apk: None,
            keystore: None,
            launch: false,
            dependencies: Vec::new(),
            coursier: None,
            keytool: None,
            workdir: None,
            clean: true,
        };
        assert(c@.java_files =~= Seq::<Seq<char>>::empty());
        assert(c@.jars =~= Seq::<Seq<char>>::empty());
        assert(c@.libs =~= Seq::<Seq<char>>::empty());
        assert(c@.dependencies =~= Seq::<DependencyView>::empty());
        c
    }
}

/// The result of a step: the arguments after it, or the error.
pub open spec fn step_view(r: Result<(), CliError>, acc: CollectedView) -> Result<CollectedView, CliErrorView> {
    match r {
        Ok(_) => Ok(acc),
        Err(e) => Err(e@),
    }
}

/// The value taken for an item; empty where none was taken.
pub open spec fn taken(value: Option<Seq<char>>) -> Seq<char> {
    match value {
        Some(v) => v,
        None => Seq::empty(),
    }
}

fn take_value(value: Option<String>) -> (v: String)
    ensures
        v@ == taken(opt_view(value)),
{
    match value {
        Some(v) => v,
        None => String::new(),
    }
}

/// Appends a string to a list, keeping the list of views in step.
fn push_string(v: &mut Vec<String>, s: String)
    ensures
        string_views(final(v)@) == string_views(old(v)@).push(s@),
{
    let ghost before = v@;
    v.push(s);
    assert(string_views(v@) =~= string_views(before).push(s@));
}

// ---------------------------------------------------------------------------
// The grammars
// ---------------------------------------------------------------------------

/// The subcommand grammars.
#[derive(Clone, Copy, Debug, PartialEq, Eq, Structural)]
pub enum Grammar {
    Build,
    Sign,
    Deploy,
    Fetch,
    SetupKeystore,
    SetupSysmodules,
}

/// The long options of `build`, all of which take a value.
pub open spec fn build_takes(n: Seq<char>) -> bool {
    ||| n == "package"@
    ||| n == "manifest"@
    ||| n == "java"@
    ||| n == "jar"@
    ||| n == "resources"@
    ||| n == "sysmodules"@
    ||| n == "output"@
    ||| n == "lib"@
    ||| n == "jdk"@
    ||| n == "android-platform"@
    ||| n == "android-build-tools"@
    ||| n == "arch"@
}

/// The long options of `sign` that take a value.
pub open spec fn sign_takes(n: Seq<char>) -> bool {
    n == "android-build-tools"@ || n == "keystore"@
}

/// The long options of `deploy` that take a value.
pub open spec fn deploy_takes(n: Seq<char>) -> bool {
    n == "package"@
}

/// The long options of `fetch` that take a value.
pub open spec fn fetch_takes(n: Seq<char>) -> bool {
    n == "output"@ || n == "coursier"@
}

/// The long options of `setup keystore` that take a value.
pub open spec fn keystore_takes(n: Seq<char>) -> bool {
    n == "keytool"@ || n == "output"@
}

/// The long options of `setup sysmodules` that take a value.
pub open spec fn sysmodules_takes(n: Seq<char>) -> bool {
    n == "jdk"@ || n == "android-platform"@ || n == "output"@ || n == "workdir"@
}

/// Whether the grammar takes a value after this item.
pub open spec fn takes_value(g: Grammar, item: LexItemView) -> bool {
    match item {
        LexItemView::Long(n) => match g {
            Grammar::Build => build_takes(n),
            Grammar::Sign => sign_takes(n),
            Grammar::Deploy => deploy_takes(n),
            Grammar::Fetch => fetch_takes(n),
            Grammar::SetupKeystore => keystore_takes(n),
            Grammar::SetupSysmodules => sysmodules_takes(n),
        },
        _ => false,
    }
}

/// One item of `build`.
pub open spec fn build_step(
    cwd: Seq<char>,
    acc: CollectedView,
    item: LexItemView,
    value: Option<Seq<char>>,
) -> Result<CollectedView, CliErrorView> {
    let v = taken(value);
    match item {
        LexItemView::Long(n) => if n == "package"@ {
            Ok(CollectedView { package: Some(v), ..acc })
        } else if n == "manifest"@ {
            Ok(CollectedView { manifest: Some(join(cwd, v)), ..acc })
        } else if n == "java"@ {
            Ok(CollectedView { java_files: acc.java_files.push(join(cwd, v)), ..acc })
        } else if n == "jar"@ {
            Ok(CollectedView { jars: acc.jars.push(join(cwd, v)), ..acc })
        } else if n == "resources"@ {
            Ok(CollectedView { resources: Some(join(cwd, v)), ..acc })
        } else if n == "sysmodules"@ {
            Ok(CollectedView { sysmodules: Some(join(cwd, v)), ..acc })
        } else if n == "output"@ {
            Ok(CollectedView { output: Some(join(cwd, v)), ..acc })
        } else if n == "lib"@ {
            Ok(CollectedView { libs: acc.libs.push(join(cwd, v)), ..acc })
        } else if n == "jdk"@ {
            Ok(CollectedView { jdk: Some(join(cwd, v)), ..acc })
        } else if n == "android-platform"@ {
            Ok(CollectedView { android_platform: Some(join(cwd, v)), ..acc })
        } else if n == "android-build-tools"@ {
            Ok(CollectedView { android_build_tools: Some(join(cwd, v)), ..acc })
        } else if n == "arch"@ {
            match arch_named(v) {
                Some(a) => Ok(CollectedView { arch: Some(a), ..acc }),
                None => Err(CliErrorView::UnsupportedArch(v)),
            }
        } else {
            Err(unexpected(item))
        },
        _ => Err(unexpected(item)),
    }
}

/// One item of `sign`.
pub open spec fn sign_step(
    cwd: Seq<char>,
    acc: CollectedView,
    item: LexItemView,
    value: Option<Seq<char>>,
) -> Result<CollectedView, CliErrorView> {
    let v = taken(value);
    match item {
        LexItemView::Long(n) => if n == "android-build-tools"@ {
            Ok(CollectedView { android_build_tools: Some(join(cwd, v)), ..acc })
        } else if n == "keystore"@ {
            Ok(CollectedView { keystore: Some(join(cwd, v)), ..acc })
        } else {
            Err(unexpected(item))
        },
        LexItemView::Value(p) => if acc.apk is Some {
            Err(CliErrorView::ExtraPositional)
        } else {
            Ok(CollectedView { apk: Some(join(cwd, p)), ..acc })
        },
        _ => Err(unexpected(item)),
    }
}

/// One item of `deploy`.
pub open spec fn deploy_step(
    cwd: Seq<char>,
    acc: CollectedView,
    item: LexItemView,
    value: Option<Seq<char>>,
) -> Result<CollectedView, CliErrorView> {
    let v = taken(value);
    match item {
        LexItemView::Long(n) => if n == "package"@ {
            Ok(CollectedView { package: Some(v), ..acc })
        } else if n == "launch"@ {
            Ok(CollectedView { launch: true, ..acc })
        } else {
            Err(unexpected(item))
        },
        LexItemView::Value(p) => if acc.apk is Some {
            Err(CliErrorView::ExtraPositional)
        } else {
            Ok(CollectedView { apk: Some(join(cwd, p)), ..acc })
        },
        _ => Err(unexpected(item)),
    }
}

/// One item of `fetch`.
pub open spec fn fetch_step(
    cwd: Seq<char>,
    acc: CollectedView,
    item: LexItemView,
    value: Option<Seq<char>>,
) -> Result<CollectedView, CliErrorView> {
    let v = taken(value);
    match item {
        LexItemView::Long(n) => if n == "output"@ {
            Ok(CollectedView { output: Some(join(cwd, v)), ..acc })
        } else if n == "coursier"@ {
            Ok(CollectedView { coursier: Some(join(cwd, v)), ..acc })
        } else {
            Err(unexpected(item))
        },
        LexItemView::Value(p) => match parse_dependency(p) {
            Some(d) => Ok(CollectedView { dependencies: acc.dependencies.push(d), ..acc }),
            None => Err(CliErrorView::InvalidDependency),
        },
        _ => Err(unexpected(item)),
    }
}

/// One item of `setup keystore`.
pub open spec fn keystore_step(
    cwd: Seq<char>,
    acc: CollectedView,
    item: LexItemView,
    value: Option<Seq<char>>,
) -> Result<CollectedView, CliErrorView> {
    let v = taken(value);
    match item {
        LexItemView::Long(n) => if n == "keytool"@ {
            Ok(CollectedView { keytool: Some(join(cwd, v)), ..acc })
        } else if n == "output"@ {
            Ok(CollectedView { output: Some(join(cwd, v)), ..acc })
        } else {
            Err(unexpected(item))
        },
        _ => Err(unexpected(item)),
    }
}

/// One item of `setup sysmodules`.
pub open spec fn sysmodules_step(
    cwd: Seq<char>,
    acc: CollectedView,
    item: LexItemView,
    value: Option<Seq<char>>,
) -> Result<CollectedView, CliErrorView> {
    let v = taken(value);
    match item {
        LexItemView::Long(n) => if n == "jdk"@ {
            Ok(CollectedView { jdk: Some(join(cwd, v)), ..acc })
        } else if n == "android-platform"@ {
            Ok(CollectedView { android_platform: Some(join(cwd, v)), ..acc })
        } else if n == "output"@ {
            Ok(CollectedView { output: Some(join(cwd, v)), ..acc })
        } else if n == "workdir"@ {
            Ok(CollectedView { workdir: Some(join(cwd, v)), ..acc })
        } else if n == "no-clean"@ {
            Ok(CollectedView { clean: false, ..acc })
        } else {
            Err(unexpected(item))
        },
        _ => Err(unexpected(item)),
    }
}

/// One item of the given grammar.
pub open spec fn grammar_step(
    g: Grammar,
    cwd: Seq<char>,
    acc: CollectedView,
    item: LexItemView,
    value: Option<Seq<char>>,
) -> Result<CollectedView, CliErrorView> {
    match g {
        Grammar::Build => build_step(cwd, acc, item, value),
        Grammar::Sign => sign_step(cwd, acc, item, value),
        Grammar::Deploy => deploy_step(cwd, acc, item, value),
        Grammar::Fetch => fetch_step(cwd, acc, item, value),
        Grammar::SetupKeystore => keystore_step(cwd, acc, item, value),
        Grammar::SetupSysmodules => sysmodules_step(cwd, acc, item, value),
    }
}

/// The check at the end of `build`, in the order the options are asked for;
/// the output directory defaults to `.zs/build` under `cwd`.
pub open spec fn build_finish(cwd: Seq<char>, acc: CollectedView) -> Result<CommandView, CliErrorView> {
    if acc.package is None {
        Err(CliErrorView::Missing(Required::Package))
    } else if acc.manifest is None {
        Err(CliErrorView::Missing(Required::Manifest))
    } else if acc.java_files.len() == 0 {
        Err(CliErrorView::Missing(Required::JavaFiles))
    } else if acc.jdk is None {
        Err(CliErrorView::Missing(Required::Jdk))
    } else if acc.android_platform is None {
        Err(CliErrorView::Missing(Required::AndroidPlatform))
    } else if acc.android_build_tools is None {
        Err(CliErrorView::Missing(Required::AndroidBuildTools))
    } else if acc.arch is None {
        Err(CliErrorView::Missing(Required::Arch))
    } else {
        Ok(
            CommandView::Build(
                BuildArgsView {
                    package: acc.package->0,
                    manifest: acc.manifest->0,
                    java_files: acc.java_files,
                    jars: acc.jars,
                    resources: acc.resources,
                    sysmodules: acc.sysmodules,
                    libs: acc.libs,
                    output: match acc.output {
                        Some(o) => o,
                        None => join(cwd, ".zs/build"@),
                    },
                    jdk: acc.jdk->0,
                    android_platform: acc.android_platform->0,
                    android_build_tools: acc.android_build_tools->0,
                    arch: acc.arch->0,
                },
            ),
        )
    }
}

/// The check at the end of `sign`.
pub open spec fn sign_finish(acc: CollectedView) -> Result<CommandView, CliErrorView> {
    if acc.apk is None {
        Err(CliErrorView::Missing(Required::SignApk))
    } else if acc.android_build_tools is None {
        Err(CliErrorView::Missing(Required::AndroidBuildTools))
    } else if acc.keystore is None {
        Err(CliErrorView::Missing(Required::Keystore))
    } else {
        Ok(
            CommandView::Sign(
                SignArgsView {
                    apk: acc.apk->0,
                    android_build_tools: acc.android_build_tools->0,
                    keystore: acc.keystore->0,
                },
            ),
        )
    }
}

/// The check at the end of `deploy`.
pub open spec fn deploy_finish(acc: CollectedView) -> Result<CommandView, CliErrorView> {
    if acc.apk is None {
        Err(CliErrorView::Missing(Required::DeployApk))
    } else if acc.package is None {
        Err(CliErrorView::Missing(Required::Package))
    } else {
        Ok(
            CommandView::Deploy(
                DeployArgsView { apk: acc.apk->0, package: acc.package->0, launch: acc.launch },
            ),
        )
    }
}

/// The check at the end of `fetch`.
pub open spec fn fetch_finish(acc: CollectedView) -> Result<CommandView, CliErrorView> {
    if acc.dependencies.len() == 0 {
        Err(CliErrorView::Missing(Required::Dependencies))
    } else if acc.output is None {
        Err(CliErrorView::Missing(Required::Output))
    } else {
        Ok(
            CommandView::Fetch(
                FetchArgsView {
                    dependencies: acc.dependencies,
                    output: acc.output->0,
                    coursier: acc.coursier,
                },
            ),
        )
    }
}

/// The check at the end of `setup keystore`.
pub open spec fn keystore_finish(acc: CollectedView) -> Result<CommandView, CliErrorView> {
    if acc.keytool is None {
        Err(CliErrorView::Missing(Required::Keytool))
    } else if acc.output is None {
        Err(CliErrorView::Missing(Required::Output))
    } else {
        Ok(
            CommandView::Setup(
                SetupCommandView::Keystore(
                    SetupKeystoreArgsView { keytool: acc.keytool->0, output: acc.output->0 },
                ),
            ),
        )
    }
}

/// The check at the end of `setup sysmodules`.
pub open spec fn sysmodules_finish(acc: CollectedView) -> Result<CommandView, CliErrorView> {
    if acc.jdk is None {
        Err(CliErrorView::Missing(Required::Jdk))
    } else if acc.android_platform is None {
        Err(CliErrorView::Missing(Required::AndroidPlatform))
    } else if acc.workdir is None {
        Err(CliErrorView::Missing(Required::Workdir))
    } else if acc.output is None {
        Err(CliErrorView::Missing(Required::Output))
    } else {
        Ok(
            CommandView::Setup(
                SetupCommandView::Sysmodules(
                    SetupSysmodulesArgsView {
                        jdk: acc.jdk->0,
                        android_platform: acc.android_platform->0,
                        workdir: acc.workdir->0,
                        output: acc.output->0,
                        clean: acc.clean,
                    },
                ),
            ),
        )
    }
}

/// The check at the end of the given grammar.
pub open spec fn grammar_finish(g: Grammar, cwd: Seq<char>, acc: CollectedView) -> Result<
    CommandView,
    CliErrorView,
> {
    match g {
        Grammar::Build => build_finish(cwd, acc),
        Grammar::Sign => sign_finish(acc),
        Grammar::Deploy => deploy_finish(acc),
        Grammar::Fetch => fetch_finish(acc),
        Grammar::SetupKeystore => keystore_finish(acc),
        Grammar::SetupSysmodules => sysmodules_finish(acc),
    }
}

} // verus!

verus! {

// ---------------------------------------------------------------------------
// The grammars, executable
// ---------------------------------------------------------------------------

/// One item of `build`.
pub fn parse_build_arg(cwd: &str, acc: &mut Collected, item: LexItem, value: Option<String>) -> (r:
    Result<(), CliError>)
    ensures
        step_view(r, final(acc)@) == build_step(cwd@, old(acc)@, item@, opt_view(value)),
{
    match item {
        LexItem::Long(n) => {
            let v = take_value(value);
            let name = n.as_str();
            if str_eq(name, "package") {
                acc.package = Some(v);
            } else if str_eq(name, "manifest") {
                acc.manifest = Some(resolve(cwd, v));
            } else if str_eq(name, "java") {
                push_string(&mut acc.java_files, resolve(cwd, v));
            } else if str_eq(name, "jar") {
                push_string(&mut acc.jars, resolve(cwd, v));
            } else if str_eq(name, "resources") {
                acc.resources = Some(resolve(cwd, v));
            } else if str_eq(name, "sysmodules") {
                acc.sysmodules = Some(resolve(cwd, v));
            } else if str_eq(name, "output") {
                acc.output = Some(resolve(cwd, v));
            } else if str_eq(name, "lib") {
                push_string(&mut acc.libs, resolve(cwd, v));
            } else if str_eq(name, "jdk") {
                acc.jdk = Some(resolve(cwd, v));
            } else if str_eq(name, "android-platform") {
                acc.android_platform = Some(resolve(cwd, v));
            } else if str_eq(name, "android-build-tools") {
                acc.android_build_tools = Some(resolve(cwd, v));
            } else if str_eq(name, "arch") {
                match Arch::from_cli_arg(v.as_str()) {
                    Ok(a) => {
                        acc.arch = Some(a);
                    },
                    Err(e) => {
                        return Err(CliError::UnsupportedArch(e.value));
                    },
                }
            } else {
                return Err(unexpected_error(LexItem::Long(n)));
            }
            Ok(())
        },
        other => Err(unexpected_error(other)),
    }
}

/// One item of `sign`.
pub fn parse_sign_arg(cwd: &str, acc: &mut Collected, item: LexItem, value: Option<String>) -> (r:
    Result<(), CliError>)
    ensures
        step_view(r, final(acc)@) == sign_step(cwd@, old(acc)@, item@, opt_view(value)),
{
    match item {
        LexItem::Long(n) => {
            let v = take_value(value);
            let name = n.as_str();
            if str_eq(name, "android-build-tools") {
                acc.android_build_tools = Some(resolve(cwd, v));
            } else if str_eq(name, "keystore") {
                acc.keystore = Some(resolve(cwd, v));
            } else {
                return Err(unexpected_error(LexItem::Long(n)));
            }
            Ok(())
        },
        LexItem::Value(p) => {
            if acc.apk.is_some() {
                return Err(CliError::ExtraPositional);
            }
            acc.apk = Some(resolve(cwd, p));
            Ok(())
        },
        other => Err(unexpected_error(other)),
    }
}

/// One item of `deploy`.
pub fn parse_deploy_arg(cwd: &str, acc: &mut Collected, item: LexItem, value: Option<String>) -> (r:
    Result<(), CliError>)
    ensures
        step_view(r, final(acc)@) == deploy_step(cwd@, old(acc)@, item@, opt_view(value)),
{
    match item {
        LexItem::Long(n) => {
            let v = take_value(value);
            let name = n.as_str();
            if str_eq(name, "package") {
                acc.package = Some(v);
            } else if str_eq(name, "launch") {
                acc.launch = true;
            } else {
                return Err(unexpected_error(LexItem::Long(n)));
            }
            Ok(())
        },
        LexItem::Value(p) => {
            if acc.apk.is_some() {
                return Err(CliError::ExtraPositional);
            }
            acc.apk = Some(resolve(cwd, p));
            Ok(())
        },
        other => Err(unexpected_error(other)),
    }
}

/// One item of `fetch`.
pub fn parse_fetch_arg(cwd: &str, acc: &mut Collected, item: LexItem, value: Option<String>) -> (r:
    Result<(), CliError>)
    ensures
        step_view(r, final(acc)@) == fetch_step(cwd@, old(acc)@, item@, opt_view(value)),
{
    match item {
        LexItem::Long(n) => {
            let v = take_value(value);
            let name = n.as_str();
            if str_eq(name, "output") {
                acc.output = Some(resolve(cwd, v));
            } else if str_eq(name, "coursier") {
                acc.coursier = Some(resolve(cwd, v));
            } else {
                return Err(unexpected_error(LexItem::Long(n)));
            }
            Ok(())
        },
        LexItem::Value(p) => {
            match Dependency::parse(p.as_str()) {
                Ok(d) => {
                    let ghost before = acc.dependencies@;
                    acc.dependencies.push(d);
                    assert(dependency_views(acc.dependencies@) =~= dependency_views(before).push(d@));
                    Ok(())
                },
                Err(_) => Err(CliError::InvalidDependency),
            }
        },
        other => Err(unexpected_error(other)),
    }
}

/// One item of `setup keystore`.
pub fn parse_setup_keystore_arg(
    cwd: &str,
    acc: &mut Collected,
    item: LexItem,
    value: Option<String>,
) -> (r: Result<(), CliError>)
    ensures
        step_view(r, final(acc)@) == keystore_step(cwd@, old(acc)@, item@, opt_view(value)),
{
    match item {
        LexItem::Long(n) => {
            let v = take_value(value);
            let name = n.as_str();
            if str_eq(name, "keytool") {
                acc.keytool = Some(resolve(cwd, v));
            } else if str_eq(name, "output") {
                acc.output = Some(resolve(cwd, v));
            } else {
                return Err(unexpected_error(LexItem::Long(n)));
            }
            Ok(())
        },
        other => Err(unexpected_error(other)),
    }
}

/// One item of `setup sysmodules`.
pub fn parse_setup_sysmodules_arg(
    cwd: &str,
    acc: &mut Collected,
    item: LexItem,
    value: Option<String>,
) -> (r: Result<(), CliError>)
    ensures
        step_view(r, final(acc)@) == sysmodules_step(cwd@, old(acc)@, item@, opt_view(value)),
{
    match item {
        LexItem::Long(n) => {
            let v = take_value(value);
            let name = n.as_str();
            if str_eq(name, "jdk") {
                acc.jdk = Some(resolve(cwd, v));
            } else if str_eq(name, "android-platform") {
                acc.android_platform = Some(resolve(cwd, v));
            } else if str_eq(name, "output") {
                acc.output = Some(resolve(cwd, v));
            } else if str_eq(name, "workdir") {
                acc.workdir = Some(resolve(cwd, v));
            } else if str_eq(name, "no-clean") {
                acc.clean = false;
            } else {
                return Err(unexpected_error(LexItem::Long(n)));
            }
            Ok(())
        },
        other => Err(unexpected_error(other)),
    }
}

} // verus!

verus! {

// ---------------------------------------------------------------------------
// Final checks, executable
// ---------------------------------------------------------------------------

/// The check at the end of `build`.
pub fn finish_build(cwd: &str, acc: Collected) -> (r: Result<Command, CliError>)
    ensures
        outcome_view(r) == build_finish(cwd@, acc@),
{
    let Collected {
        package,
        manifest,
        java_files,
        jars,
        resources,
        sysmodules,
        libs,
        output,
        jdk,
        android_platform,
        android_build_tools,
        arch,
        ..
    } = acc;
    let package = match package {
        Some(v) => v,
        None => return Err(CliError::Missing(Required::Package)),
    };
    let manifest = match manifest {
        Some(v) => v,
        None => return Err(CliError::Missing(Required::Manifest)),
    };
    if java_files.len() == 0 {
        return Err(CliError::Missing(Required::JavaFiles));
    }
    let jdk = match jdk {
        Some(v) => v,
        None => return Err(CliError::Missing(Required::Jdk)),
    };
    let android_platform = match android_platform {
        Some(v) => v,
        None => return Err(CliError::Missing(Required::AndroidPlatform)),
    };
    let android_build_tools = match android_build_tools {
        Some(v) => v,
        None => return Err(CliError::Missing(Required::AndroidBuildTools)),
    };
    let arch = match arch {
        Some(v) => v,
        None => return Err(CliError::Missing(Required::Arch)),
    };
    let output = match output {
        Some(o) => o,
        None => join_path(cwd, ".zs/build"),
    };
    Ok(
        Command::Build(
            BuildArgs {
                package,
                manifest,
                java_files,
                jars,
                resources,
                sysmodules,
                libs,
                output,
                jdk,
                android_platform,
                android_build_tools,
                arch,
            },
        ),
    )
}

/// The check at the end of `sign`.
pub fn finish_sign(acc: Collected) -> (r: Result<Command, CliError>)
    ensures
        outcome_view(r) == sign_finish(acc@),
{
    let Collected { apk, android_build_tools, keystore, .. } = acc;
    let apk = match apk {
        Some(v) => v,
        None => return Err(CliError::Missing(Required::SignApk)),
    };
    let android_build_tools = match android_build_tools {
        Some(v) => v,
        None => return Err(CliError::Missing(Required::AndroidBuildTools)),
    };
    let keystore = match keystore {
        Some(v) => v,
        None => return Err(CliError::Missing(Required::Keystore)),
    };
    Ok(Command::Sign(SignArgs { apk, android_build_tools, keystore }))
}

/// The check at the end of `deploy`.
pub fn finish_deploy(acc: Collected) -> (r: Result<Command, CliError>)
    ensures
        outcome_view(r) == deploy_finish(acc@),
{
    let Collected { apk, package, launch, .. } = acc;
    let apk = match apk {
        Some(v) => v,
        None => return Err(CliError::Missing(Required::DeployApk)),
    };
    let package = match package {
        Some(v) => v,
        None => return Err(CliError::Missing(Required::Package)),
    };
    Ok(Command::Deploy(DeployArgs { apk, package, launch }))
}

/// The check at the end of `fetch`.
pub fn finish_fetch(acc: Collected) -> (r: Result<Command, CliError>)
    ensures
        outcome_view(r) == fetch_finish(acc@),
{
    let Collected { dependencies, output, coursier, .. } = acc;
    if dependencies.len() == 0 {
        return Err(CliError::Missing(Required::Dependencies));
    }
    let output = match output {
        Some(v) => v,
        None => return Err(CliError::Missing(Required::Output)),
    };
    Ok(Command::Fetch(FetchArgs { dependencies, output, coursier }))
}

/// The check at the end of `setup keystore`.
pub fn finish_setup_keystore(acc: Collected) -> (r: Result<Command, CliError>)
    ensures
        outcome_view(r) == keystore_finish(acc@),
{
    let Collected { keytool, output, .. } = acc;
    let keytool = match keytool {
        Some(v) => v,
        None => return Err(CliError::Missing(Required::Keytool)),
    };
    let output = match output {
        Some(v) => v,
        None => return Err(CliError::Missing(Required::Output)),
    };
    Ok(Command::Setup(SetupCommand::Keystore(SetupKeystoreArgs { keytool, output })))
}

/// The check at the end of `setup sysmodules`.
pub fn finish_setup_sysmodules(acc: Collected) -> (r: Result<Command, CliError>)
    ensures
        outcome_view(r) == sysmodules_finish(acc@),
{
    let Collected { jdk, android_platform, workdir, output, clean, .. } = acc;
    let jdk = match jdk {
        Some(v) => v,
        None => return Err(CliError::Missing(Required::Jdk)),
    };
    let android_platform = match android_platform {
        Some(v) => v,
        None => return Err(CliError::Missing(Required::AndroidPlatform)),
    };
    let workdir = match workdir {
        Some(v) => v,
        None => return Err(CliError::Missing(Required::Workdir)),
    };
    let output = match output {
        Some(v) => v,
        None => return Err(CliError::Missing(Required::Output)),
    };
    Ok(
        Command::Setup(
            SetupCommand::Sysmodules(
                SetupSysmodulesArgs { jdk, android_platform, workdir, output, clean },
            ),
        ),
    )
}

// ---------------------------------------------------------------------------
// Dispatch over the grammars
// ---------------------------------------------------------------------------

/// Whether the grammar takes a value after this item.
pub fn grammar_takes_value(g: Grammar, item: &LexItem) -> (b: bool)
    ensures
        b == takes_value(g, item@),
{
    match item {
        LexItem::Long(n) => {
            let n = n.as_str();
            match g {
                Grammar::Build => str_eq(n, "package") || str_eq(n, "manifest") || str_eq(n, "java")
                    || str_eq(n, "jar") || str_eq(n, "resources") || str_eq(n, "sysmodules")
                    || str_eq(n, "output") || str_eq(n, "lib") || str_eq(n, "jdk") || str_eq(
                    n,
                    "android-platform",
                ) || str_eq(n, "android-build-tools") || str_eq(n, "arch"),
                Grammar::Sign => str_eq(n, "android-build-tools") || str_eq(n, "keystore"),
                Grammar::Deploy => str_eq(n, "package"),
                Grammar::Fetch => str_eq(n, "output") || str_eq(n, "coursier"),
                Grammar::SetupKeystore => str_eq(n, "keytool") || str_eq(n, "output"),
                Grammar::SetupSysmodules => str_eq(n, "jdk") || str_eq(n, "android-platform")
                    || str_eq(n, "output") || str_eq(n, "workdir"),
            }
        },
        _ => false,
    }
}

/// One item of the given grammar.
pub fn parse_grammar_arg(
    g: Grammar,
    cwd: &str,
    acc: &mut Collected,
    item: LexItem,
    value: Option<String>,
) -> (r: Result<(), CliError>)
    ensures
        step_view(r, final(acc)@) == grammar_step(g, cwd@, old(acc)@, item@, opt_view(value)),
{
    match g {
        Grammar::Build => parse_build_arg(cwd, acc, item, value),
        Grammar::Sign => parse_sign_arg(cwd, acc, item, value),
        Grammar::Deploy => parse_deploy_arg(cwd, acc, item, value),
        Grammar::Fetch => parse_fetch_arg(cwd, acc, item, value),
        Grammar::SetupKeystore => parse_setup_keystore_arg(cwd, acc, item, value),
        Grammar::SetupSysmodules => parse_setup_sysmodules_arg(cwd, acc, item, value),
    }
}

/// The check at the end of the given grammar.
pub fn finish_grammar(g: Grammar, cwd: &str, acc: Collected) -> (r: Result<Command, CliError>)
    ensures
        outcome_view(r) == grammar_finish(g, cwd@, acc@),
{
    match g {
        Grammar::Build => finish_build(cwd, acc),
        Grammar::Sign => finish_sign(acc),
        Grammar::Deploy => finish_deploy(acc),
        Grammar::Fetch => finish_fetch(acc),
        Grammar::SetupKeystore => finish_setup_keystore(acc),
        Grammar::SetupSysmodules => finish_setup_sysmodules(acc),
    }
}

// ---------------------------------------------------------------------------
// Running a grammar over the lexer's items
// ---------------------------------------------------------------------------

/// What a grammar makes of the rest of the command line, starting from the
/// arguments `acc` collected so far and the parser `p`: items are taken from
/// `lexopt` one by one, with a value after those that take one, until the
/// input ends (then the final check decides), the lexer fails, or a step fails.
/// `None` when more than `fuel` items would be needed.
pub open spec fn run_grammar(
    g: Grammar,
    cwd: Seq<char>,
    acc: CollectedView,
    p: lexopt::Parser,
    fuel: nat,
) -> Option<Result<CommandView, CliErrorView>>
    decreases fuel,
{
    if fuel == 0 {
        None
    } else {
        let (r, p1) = lexopt_next(p);
        match r {
            Err(e) => Some(Err(CliErrorView::Lexer(lexopt_failure(e)))),
            Ok(None) => Some(grammar_finish(g, cwd, acc)),
            Ok(Some(item)) => if takes_value(g, item) {
                let (v, p2) = lexopt_value(p1);
                match v {
                    Err(e) => Some(Err(CliErrorView::Lexer(lexopt_failure(e)))),
                    Ok(val) => match grammar_step(g, cwd, acc, item, Some(val)) {
                        Err(x) => Some(Err(x)),
                        Ok(a) => run_grammar(g, cwd, a, p2, (fuel - 1) as nat),
                    },
                }
            } else {
                match grammar_step(g, cwd, acc, item, None) {
                    Err(x) => Some(Err(x)),
                    Ok(a) => run_grammar(g, cwd, a, p1, (fuel - 1) as nat),
                }
            },
        }
    }
}

/// More fuel does not change an answer once there is one.
pub proof fn lemma_run_grammar_fuel(
    g: Grammar,
    cwd: Seq<char>,
    acc: CollectedView,
    p: lexopt::Parser,
    f1: nat,
    f2: nat,
)
    requires
        f1 <= f2,
        run_grammar(g, cwd, acc, p, f1) is Some,
    ensures
        run_grammar(g, cwd, acc, p, f2) == run_grammar(g, cwd, acc, p, f1),
    decreases f1,
{
    let (r, p1) = lexopt_next(p);
    if let Ok(Some(item)) = r {
        if takes_value(g, item) {
            let (v, p2) = lexopt_value(p1);
            if let Ok(val) = v {
                if let Ok(a) = grammar_step(g, cwd, acc, item, Some(val)) {
                    lemma_run_grammar_fuel(g, cwd, a, p2, (f1 - 1) as nat, (f2 - 1) as nat);
                }
            }
        } else {
            if let Ok(a) = grammar_step(g, cwd, acc, item, None) {
                lemma_run_grammar_fuel(g, cwd, a, p1, (f1 - 1) as nat, (f2 - 1) as nat);
            }
        }
    }
}

/// Runs a subcommand's grammar over the rest of the command line.
pub fn parse_grammar(g: Grammar, cwd: &str, p: &mut lexopt::Parser) -> (r: Result<Command, CliError>)
    ensures
        exists|fuel: nat| #[trigger] run_grammar(g, cwd@, collected_init(), *old(p), fuel) == Some(outcome_view(r)),
{
    let ghost p0 = *p;
    assert(p0 == *old(p));
    let mut acc = Collected::new();
    let ghost mut n: nat = 0;
    loop
        invariant
            p0 == *old(p),
            forall|f: nat| #[trigger] run_grammar(g, cwd@, collected_init(), p0, n + f) == run_grammar(g, cwd@, acc@, *p, f),
        decreases parser_pending(*p),
    {
        let ghost pa = *p;
        let ghost aa = acc@;
        assert(run_grammar(g, cwd@, collected_init(), p0, n + 1) == run_grammar(g, cwd@, aa, pa, 1));
        match lex_next(p) {
            Err(e) => {
                let f = lex_failure(e);
                let r = Err(CliError::Lexer(f));
                assert(run_grammar(g, cwd@, aa, pa, 1) == Some(outcome_view(r)));
                return r;
            },
            Ok(None) => {
                let r = finish_grammar(g, cwd, acc);
                assert(run_grammar(g, cwd@, aa, pa, 1) == Some(outcome_view(r)));
                return r;
            },
            Ok(Some(item)) => {
                let ghost iv = item@;
                let ghost p1 = *p;
                let value = if grammar_takes_value(g, &item) {
                    match lex_value(p) {
                        Ok(v) => Some(v),
                        Err(e) => {
                            let f = lex_failure(e);
                            let r = Err(CliError::Lexer(f));
                            assert(run_grammar(g, cwd@, aa, pa, 1) == Some(outcome_view(r)));
                            return r;
                        },
                    }
                } else {
                    None
                };
                let res = parse_grammar_arg(g, cwd, &mut acc, item, value);
                match res {
                    Err(e) => {
                        let r = Err(e);
                        assert(run_grammar(g, cwd@, aa, pa, 1) == Some(outcome_view(r)));
                        return r;
                    },
                    Ok(()) => {},
                }
                proof {
                    assert forall|f: nat| #[trigger] run_grammar(g, cwd@, collected_init(), p0, (n + 1) + f)
                        == run_grammar(g, cwd@, acc@, *p, f) by {
                        assert(run_grammar(g, cwd@, collected_init(), p0, n + (f + 1)) == run_grammar(g, cwd@, aa, pa, f + 1));
                        assert(n + (f + 1) == (n + 1) + f);
                    }
                    n = n + 1;
                }
            },
        }
    }
}

// ---------------------------------------------------------------------------
// Choosing the subcommand
// ---------------------------------------------------------------------------

/// The grammar of a subcommand name, other than `setup`.
pub open spec fn named_grammar(c: Seq<char>) -> Option<Grammar> {
    if c == "build"@ {
        Some(Grammar::Build)
    } else if c == "sign"@ {
        Some(Grammar::Sign)
    } else if c == "deploy"@ {
        Some(Grammar::Deploy)
    } else if c == "fetch"@ {
        Some(Grammar::Fetch)
    } else {
        None
    }
}

/// What `setup` makes of the rest of the command line: the target, then its grammar.
pub open spec fn setup_from(cwd: Seq<char>, p: lexopt::Parser, fuel: nat) -> Option<Result<CommandView, CliErrorView>> {
    let (r, p1) = lexopt_next(p);
    match r {
        Err(e) => Some(Err(CliErrorView::Lexer(lexopt_failure(e)))),
        Ok(None) => Some(Err(CliErrorView::MissingSetupTarget)),
        Ok(Some(LexItemView::Value(t))) => if t == "keystore"@ {
            run_grammar(Grammar::SetupKeystore, cwd, collected_init(), p1, fuel)
        } else if t == "sysmodules"@ {
            run_grammar(Grammar::SetupSysmodules, cwd, collected_init(), p1, fuel)
        } else {
            Some(Err(CliErrorView::UnsupportedSetupTarget(t)))
        },
        Ok(Some(item)) => Some(Err(unexpected(item))),
    }
}

/// What a command line comes to, read by the parser `p` with paths taken
/// relative to `cwd`: the subcommand named first, then its grammar over the
/// rest. `None` when more than `fuel` items would be needed.
pub open spec fn command_from(cwd: Seq<char>, p: lexopt::Parser, fuel: nat) -> Option<Result<CommandView, CliErrorView>> {
    let (r, p1) = lexopt_next(p);
    match r {
        Err(e) => Some(Err(CliErrorView::Lexer(lexopt_failure(e)))),
        Ok(None) => Some(Err(CliErrorView::MissingCommand)),
        Ok(Some(LexItemView::Value(c))) => match named_grammar(c) {
            Some(g) => run_grammar(g, cwd, collected_init(), p1, fuel),
            None => if c == "setup"@ {
                setup_from(cwd, p1, fuel)
            } else {
                Some(Err(CliErrorView::UnsupportedCommand(c)))
            },
        },
        Ok(Some(item)) => Some(Err(unexpected(item))),
    }
}

/// What a command line comes to does not depend on the fuel, once there is an answer.
pub proof fn lemma_command_from_fuel(cwd: Seq<char>, p: lexopt::Parser, f1: nat, f2: nat)
    requires
        f1 <= f2,
        command_from(cwd, p, f1) is Some,
    ensures
        command_from(cwd, p, f2) == command_from(cwd, p, f1),
{
    let (r, p1) = lexopt_next(p);
    if let Ok(Some(LexItemView::Value(c))) = r {
        match named_grammar(c) {
            Some(g) => lemma_run_grammar_fuel(g, cwd, collected_init(), p1, f1, f2),
            None => if c == "setup"@ {
                let (r2, p2) = lexopt_next(p1);
                if let Ok(Some(LexItemView::Value(t))) = r2 {
                    if t == "keystore"@ {
                        lemma_run_grammar_fuel(Grammar::SetupKeystore, cwd, collected_init(), p2, f1, f2);
                    } else if t == "sysmodules"@ {
                        lemma_run_grammar_fuel(Grammar::SetupSysmodules, cwd, collected_init(), p2, f1, f2);
                    }
                }
            },
        }
    }
}

/// A command line has at most one meaning: two answers for it, whatever the
/// fuel, are the same.
pub proof fn lemma_command_from_deterministic(cwd: Seq<char>, p: lexopt::Parser, f1: nat, f2: nat)
    requires
        command_from(cwd, p, f1) is Some,
        command_from(cwd, p, f2) is Some,
    ensures
        command_from(cwd, p, f1) == command_from(cwd, p, f2),
{
    if f1 <= f2 {
        lemma_command_from_fuel(cwd, p, f1, f2);
    } else {
        lemma_command_from_fuel(cwd, p, f2, f1);
    }
}

/// Reads the positional item that names a subcommand or target: the name, or
/// the error for what came instead.
fn next_name(p: &mut lexopt::Parser, missing: CliError) -> (r: Result<String, CliError>)
    ensures
        *final(p) == lexopt_next(*old(p)).1,
        match lexopt_next(*old(p)).0 {
            Err(e) => r matches Err(x) && x@ == CliErrorView::Lexer(lexopt_failure(e)),
            Ok(None) => r matches Err(x) && x@ == missing@,
            Ok(Some(LexItemView::Value(v))) => r matches Ok(s) && s@ == v,
            Ok(Some(item)) => r matches Err(x) && x@ == unexpected(item),
        },
{
    match lex_next(p) {
        Err(e) => Err(CliError::Lexer(lex_failure(e))),
        Ok(None) => Err(missing),
        Ok(Some(LexItem::Value(v))) => Ok(v),
        Ok(Some(item)) => Err(unexpected_error(item)),
    }
}

/// Parses a command line: the subcommand, then its arguments, with paths taken
/// relative to `cwd`.
pub fn parse_command(cwd: &str, p: &mut lexopt::Parser) -> (r: Result<Command, CliError>)
    ensures
        exists|fuel: nat| #[trigger] command_from(cwd@, *old(p), fuel) == Some(outcome_view(r)),
{
    let ghost p0 = *p;
    let cmd = match next_name(p, CliError::MissingCommand) {
        Ok(c) => c,
        Err(e) => {
            let r = Err(e);
            assert(command_from(cwd@, p0, 0) == Some(outcome_view(r)));
            return r;
        },
    };
    let ghost p1 = *p;
    let c = cmd.as_str();
    let g = if str_eq(c, "build") {
        Grammar::Build
    } else if str_eq(c, "sign") {
        Grammar::Sign
    } else if str_eq(c, "deploy") {
        Grammar::Deploy
    } else if str_eq(c, "fetch") {
        Grammar::Fetch
    } else if str_eq(c, "setup") {
        let t = match next_name(p, CliError::MissingSetupTarget) {
            Ok(t) => t,
            Err(e) => {
                let r = Err(e);
                assert(setup_from(cwd@, p1, 0) == Some(outcome_view(r)));
                assert(command_from(cwd@, p0, 0) == Some(outcome_view(r)));
                return r;
            },
        };
        let ghost p2 = *p;
        let sg = if str_eq(t.as_str(), "keystore") {
            Grammar::SetupKeystore
        } else if str_eq(t.as_str(), "sysmodules") {
            Grammar::SetupSysmodules
        } else {
            let r = Err(CliError::UnsupportedSetupTarget(t));
            assert(setup_from(cwd@, p1, 0) == Some(outcome_view(r)));
            assert(command_from(cwd@, p0, 0) == Some(outcome_view(r)));
            return r;
        };
        let r = parse_grammar(sg, cwd, p);
        let ghost fuel = choose|fuel: nat| #[trigger] run_grammar(sg, cwd@, collected_init(), p2, fuel) == Some(outcome_view(r));
        assert(setup_from(cwd@, p1, fuel) == Some(outcome_view(r)));
        assert(command_from(cwd@, p0, fuel) == Some(outcome_view(r)));
        return r;
    } else {
        let r = Err(CliError::UnsupportedCommand(cmd));
        assert(command_from(cwd@, p0, 0) == Some(outcome_view(r)));
        return r;
    };
    assert(named_grammar(c@) == Some(g));
    let r = parse_grammar(g, cwd, p);
    let ghost fuel = choose|fuel: nat| #[trigger] run_grammar(g, cwd@, collected_init(), p1, fuel) == Some(outcome_view(r));
    assert(command_from(cwd@, p0, fuel) == Some(outcome_view(r)));
    r
}

/// Parses the arguments after the program name, with paths taken relative to
/// `cwd`: the result is what the command line comes to as `lexopt` reads these
/// arguments.
pub fn parse_args(cwd: &str, args: Vec<String>) -> (r: Result<Command, CliError>)
    ensures
        exists|fuel: nat| #[trigger] command_from(cwd@, lexopt_from_args(string_views(args@)), fuel) == Some(outcome_view(r)),
{
    let mut p = parser_from_args(args);
    parse_command(cwd, &mut p)
}

} // verus!

verus! {

/// Every element is an absolute path.
pub open spec fn all_absolute(ps: Seq<Seq<char>>) -> bool {
    forall|i: int| 0 <= i < ps.len() ==> is_absolute(#[trigger] ps[i])
}

/// An optional path, where present, is absolute.
pub open spec fn absolute_if_some(p: Option<Seq<char>>) -> bool {
    p matches Some(x) ==> is_absolute(x)
}

/// Every path collected so far is absolute.
pub open spec fn collected_absolute(acc: CollectedView) -> bool {
    &&& absolute_if_some(acc.manifest)
    &&& all_absolute(acc.java_files)
    &&& all_absolute(acc.jars)
    &&& absolute_if_some(acc.resources)
    &&& absolute_if_some(acc.sysmodules)
    &&& all_absolute(acc.libs)
    &&& absolute_if_some(acc.output)
    &&& absolute_if_some(acc.jdk)
    &&& absolute_if_some(acc.android_platform)
    &&& absolute_if_some(acc.android_build_tools)
    &&& absolute_if_some(acc.apk)
    &&& absolute_if_some(acc.keystore)
    &&& absolute_if_some(acc.coursier)
    &&& absolute_if_some(acc.keytool)
    &&& absolute_if_some(acc.workdir)
}

/// Every path of a parsed command is absolute.
pub open spec fn command_absolute(c: CommandView) -> bool {
    match c {
        CommandView::Build(a) => {
            &&& is_absolute(a.manifest)
            &&& all_absolute(a.java_files)
            &&& all_absolute(a.jars)
            &&& absolute_if_some(a.resources)
            &&& absolute_if_some(a.sysmodules)
            &&& all_absolute(a.libs)
            &&& is_absolute(a.output)
            &&& is_absolute(a.jdk)
            &&& is_absolute(a.android_platform)
            &&& is_absolute(a.android_build_tools)
        },
        CommandView::Sign(a) => is_absolute(a.apk) && is_absolute(a.android_build_tools)
            && is_absolute(a.keystore),
        CommandView::Deploy(a) => is_absolute(a.apk),
        CommandView::Fetch(a) => is_absolute(a.output) && absolute_if_some(a.coursier),
        CommandView::Setup(SetupCommandView::Keystore(a)) => is_absolute(a.keytool) && is_absolute(
            a.output,
        ),
        CommandView::Setup(SetupCommandView::Sysmodules(a)) => is_absolute(a.jdk) && is_absolute(
            a.android_platform,
        ) && is_absolute(a.workdir) && is_absolute(a.output),
    }
}

/// A list that is kept or has one absolute path appended stays all absolute.
pub proof fn lemma_extended_absolute(before: Seq<Seq<char>>, after: Seq<Seq<char>>)
    requires
        all_absolute(before),
        after == before || (after.len() == before.len() + 1 && after.drop_last() == before
            && is_absolute(after.last())),
    ensures
        all_absolute(after),
{
    if after != before {
        assert forall|i: int| 0 <= i < after.len() implies is_absolute(#[trigger] after[i]) by {
            if i < before.len() {
                assert(after[i] == after.drop_last()[i]);
            }
        }
    }
}

/// The path lists after a step that keeps each list or appends `p` to it, an
/// absolute path, stay all absolute.
proof fn lemma_lists_absolute(acc: CollectedView, a: CollectedView, p: Seq<char>)
    requires
        collected_absolute(acc),
        is_absolute(p),
        a.java_files == acc.java_files || a.java_files == acc.java_files.push(p),
        a.jars == acc.jars || a.jars == acc.jars.push(p),
        a.libs == acc.libs || a.libs == acc.libs.push(p),
    ensures
        all_absolute(a.java_files),
        all_absolute(a.jars),
        all_absolute(a.libs),
{
    assert(acc.java_files.push(p).drop_last() =~= acc.java_files);
    assert(acc.jars.push(p).drop_last() =~= acc.jars);
    assert(acc.libs.push(p).drop_last() =~= acc.libs);
    lemma_extended_absolute(acc.java_files, a.java_files);
    lemma_extended_absolute(acc.jars, a.jars);
    lemma_extended_absolute(acc.libs, a.libs);
}

/// A step of `build` keeps every collected path absolute.
proof fn lemma_build_step_absolute(cwd: Seq<char>, acc: CollectedView, item: LexItemView, value: Option<Seq<char>>)
    requires
        is_absolute(cwd),
        collected_absolute(acc),
        is_absolute(join(cwd, taken(value))),
        item matches LexItemView::Value(v) ==> is_absolute(join(cwd, v)),
    ensures
        build_step(cwd, acc, item, value) matches Ok(a) ==> collected_absolute(a),
{
    if let Ok(a) = build_step(cwd, acc, item, value) {
        lemma_lists_absolute(acc, a, join(cwd, taken(value)));
    }
}

/// A step of `sign` keeps every collected path absolute.
proof fn lemma_sign_step_absolute(cwd: Seq<char>, acc: CollectedView, item: LexItemView, value: Option<Seq<char>>)
    requires
        is_absolute(cwd),
        collected_absolute(acc),
        is_absolute(join(cwd, taken(value))),
        item matches LexItemView::Value(v) ==> is_absolute(join(cwd, v)),
    ensures
        sign_step(cwd, acc, item, value) matches Ok(a) ==> collected_absolute(a),
{
    if let Ok(a) = sign_step(cwd, acc, item, value) {
        lemma_lists_absolute(acc, a, join(cwd, taken(value)));
    }
}

/// A step of `deploy` keeps every collected path absolute.
proof fn lemma_deploy_step_absolute(cwd: Seq<char>, acc: CollectedView, item: LexItemView, value: Option<Seq<char>>)
    requires
        is_absolute(cwd),
        collected_absolute(acc),
        is_absolute(join(cwd, taken(value))),
        item matches LexItemView::Value(v) ==> is_absolute(join(cwd, v)),
    ensures
        deploy_step(cwd, acc, item, value) matches Ok(a) ==> collected_absolute(a),
{
    if let Ok(a) = deploy_step(cwd, acc, item, value) {
        lemma_lists_absolute(acc, a, join(cwd, taken(value)));
    }
}

/// A step of `fetch` keeps every collected path absolute.
proof fn lemma_fetch_step_absolute(cwd: Seq<char>, acc: CollectedView, item: LexItemView, value: Option<Seq<char>>)
    requires
        is_absolute(cwd),
        collected_absolute(acc),
        is_absolute(join(cwd, taken(value))),
        item matches LexItemView::Value(v) ==> is_absolute(join(cwd, v)),
    ensures
        fetch_step(cwd, acc, item, value) matches Ok(a) ==> collected_absolute(a),
{
    if let Ok(a) = fetch_step(cwd, acc, item, value) {
        lemma_lists_absolute(acc, a, join(cwd, taken(value)));
    }
}

/// A step of `setup keystore` keeps every collected path absolute.
proof fn lemma_keystore_step_absolute(cwd: Seq<char>, acc: CollectedView, item: LexItemView, value: Option<Seq<char>>)
    requires
        is_absolute(cwd),
        collected_absolute(acc),
        is_absolute(join(cwd, taken(value))),
        item matches LexItemView::Value(v) ==> is_absolute(join(cwd, v)),
    ensures
        keystore_step(cwd, acc, item, value) matches Ok(a) ==> collected_absolute(a),
{
    if let Ok(a) = keystore_step(cwd, acc, item, value) {
        lemma_lists_absolute(acc, a, join(cwd, taken(value)));
    }
}

/// A step of `setup sysmodules` keeps every collected path absolute.
proof fn lemma_sysmodules_step_absolute(cwd: Seq<char>, acc: CollectedView, item: LexItemView, value: Option<Seq<char>>)
    requires
        is_absolute(cwd),
        collected_absolute(acc),
        is_absolute(join(cwd, taken(value))),
        item matches LexItemView::Value(v) ==> is_absolute(join(cwd, v)),
    ensures
        sysmodules_step(cwd, acc, item, value) matches Ok(a) ==> collected_absolute(a),
{
    if let Ok(a) = sysmodules_step(cwd, acc, item, value) {
        lemma_lists_absolute(acc, a, join(cwd, taken(value)));
    }
}

/// One step, of any grammar, keeps every collected path absolute.
pub proof fn lemma_step_keeps_absolute(
    g: Grammar,
    cwd: Seq<char>,
    acc: CollectedView,
    item: LexItemView,
    value: Option<Seq<char>>,
)
    requires
        is_absolute(cwd),
        collected_absolute(acc),
    ensures
        grammar_step(g, cwd, acc, item, value) matches Ok(a) ==> collected_absolute(a),
{
    lemma_join_absolute(cwd, taken(value));
    if let LexItemView::Value(v) = item {
        lemma_join_absolute(cwd, v);
    }
    match g {
        Grammar::Build => lemma_build_step_absolute(cwd, acc, item, value),
        Grammar::Sign => lemma_sign_step_absolute(cwd, acc, item, value),
        Grammar::Deploy => lemma_deploy_step_absolute(cwd, acc, item, value),
        Grammar::Fetch => lemma_fetch_step_absolute(cwd, acc, item, value),
        Grammar::SetupKeystore => lemma_keystore_step_absolute(cwd, acc, item, value),
        Grammar::SetupSysmodules => lemma_sysmodules_step_absolute(cwd, acc, item, value),
    }
}

/// A grammar run from an absolute working directory yields absolute paths only.
pub proof fn lemma_run_grammar_absolute(
    g: Grammar,
    cwd: Seq<char>,
    acc: CollectedView,
    p: lexopt::Parser,
    fuel: nat,
)
    requires
        is_absolute(cwd),
        collected_absolute(acc),
    ensures
        run_grammar(g, cwd, acc, p, fuel) matches Some(Ok(c)) ==> command_absolute(c),
    decreases fuel,
{
    if fuel > 0 {
        lemma_join_absolute(cwd, ".zs/build"@);
        let (r, p1) = lexopt_next(p);
        if let Ok(Some(item)) = r {
            if takes_value(g, item) {
                let (v, p2) = lexopt_value(p1);
                if let Ok(val) = v {
                    lemma_step_keeps_absolute(g, cwd, acc, item, Some(val));
                    if let Ok(a) = grammar_step(g, cwd, acc, item, Some(val)) {
                        lemma_run_grammar_absolute(g, cwd, a, p2, (fuel - 1) as nat);
                    }
                }
            } else {
                lemma_step_keeps_absolute(g, cwd, acc, item, None);
                if let Ok(a) = grammar_step(g, cwd, acc, item, None) {
                    lemma_run_grammar_absolute(g, cwd, a, p1, (fuel - 1) as nat);
                }
            }
        }
    }
}

/// Every path in a command line parsed against an absolute working directory
/// is absolute, whatever the arguments.
pub proof fn lemma_parsed_paths_absolute(cwd: Seq<char>, p: lexopt::Parser, fuel: nat)
    requires
        is_absolute(cwd),
    ensures
        command_from(cwd, p, fuel) matches Some(Ok(c)) ==> command_absolute(c),
{
    assert(collected_absolute(collected_init()));
    let (r, p1) = lexopt_next(p);
    if let Ok(Some(LexItemView::Value(c))) = r {
        match named_grammar(c) {
            Some(g) => lemma_run_grammar_absolute(g, cwd, collected_init(), p1, fuel),
            None => {
                let (r2, p2) = lexopt_next(p1);
                lemma_run_grammar_absolute(Grammar::SetupKeystore, cwd, collected_init(), p2, fuel);
                lemma_run_grammar_absolute(Grammar::SetupSysmodules, cwd, collected_init(), p2, fuel);
            },
        }
    }
}

// ---------------------------------------------------------------------------
// Laws of the repeatable options
// ---------------------------------------------------------------------------

/// `after` is `before` with `x` added at the end.
pub open spec fn appended<A>(after: Seq<A>, before: Seq<A>, x: A) -> bool {
    &&& after.len() == before.len() + 1
    &&& forall|i: int| 0 <= i < before.len() ==> after[i] == before[i]
    &&& after[before.len() as int] == x
}

/// `a` differs from `acc` at most in the list of native libraries.
pub open spec fn only_libs_differ(a: CollectedView, acc: CollectedView) -> bool {
    a == (CollectedView { libs: a.libs, ..acc })
}

/// `a` differs from `acc` at most in the list of Java sources.
pub open spec fn only_java_differs(a: CollectedView, acc: CollectedView) -> bool {
    a == (CollectedView { java_files: a.java_files, ..acc })
}

/// `a` differs from `acc` at most in the list of jars.
pub open spec fn only_jars_differ(a: CollectedView, acc: CollectedView) -> bool {
    a == (CollectedView { jars: a.jars, ..acc })
}

/// `a` differs from `acc` at most in the list of coordinates.
pub open spec fn only_dependencies_differ(a: CollectedView, acc: CollectedView) -> bool {
    a == (CollectedView { dependencies: a.dependencies, ..acc })
}

/// Every `--lib`, `--java` and `--jar` of `build` adds its path, resolved
/// against the working directory, after those collected before, whatever they
/// are, and leaves everything else as it was.
pub proof fn lemma_build_repeatable_options_append(cwd: Seq<char>, acc: CollectedView, v: Seq<char>)
    ensures
        (build_step(cwd, acc, LexItemView::Long("lib"@), Some(v)) matches Ok(a) && appended(
            a.libs,
            acc.libs,
            join(cwd, v),
        ) && only_libs_differ(a, acc)),
        (build_step(cwd, acc, LexItemView::Long("java"@), Some(v)) matches Ok(a) && appended(
            a.java_files,
            acc.java_files,
            join(cwd, v),
        ) && only_java_differs(a, acc)),
        (build_step(cwd, acc, LexItemView::Long("jar"@), Some(v)) matches Ok(a) && appended(
            a.jars,
            acc.jars,
            join(cwd, v),
        ) && only_jars_differ(a, acc)),
{
    reveal_strlit("package");
    reveal_strlit("manifest");
    reveal_strlit("java");
    reveal_strlit("jar");
    reveal_strlit("resources");
    reveal_strlit("sysmodules");
    reveal_strlit("output");
    reveal_strlit("lib");
    let x = join(cwd, v);
    // "lib" and "jar" differ in their first letter.
    assert("lib"@[0] != "jar"@[0]);
    assert(appended(acc.libs.push(x), acc.libs, x));
    assert(appended(acc.java_files.push(x), acc.java_files, x));
    assert(appended(acc.jars.push(x), acc.jars, x));
}

/// A finished `build` hands on the collected sources, jars and native
/// libraries unchanged: every one, in the order given.
pub proof fn lemma_build_finish_keeps_lists(cwd: Seq<char>, acc: CollectedView)
    ensures
        (build_finish(cwd, acc) matches Ok(CommandView::Build(b)) ==> b.libs == acc.libs
            && b.java_files == acc.java_files && b.jars == acc.jars),
{
}

/// Every coordinate after `fetch` that reads as one is added after those
/// collected before, and leaves everything else as it was.
pub proof fn lemma_fetch_coordinates_append(cwd: Seq<char>, acc: CollectedView, p: Seq<char>)
    ensures
        (parse_dependency(p) matches Some(d) ==> (fetch_step(cwd, acc, LexItemView::Value(p), None) matches Ok(a)
            && appended(a.dependencies, acc.dependencies, d) && only_dependencies_differ(a, acc))),
{
}

/// A finished `fetch` hands on every collected coordinate, in order.
pub proof fn lemma_fetch_finish_keeps_coordinates(acc: CollectedView)
    ensures
        (fetch_finish(acc) matches Ok(CommandView::Fetch(f)) ==> f.dependencies == acc.dependencies),
{
}

} // verus!
