//! What each command line asks to be done.
pub mod deploy;
pub mod sign;

use vstd::prelude::*;

use crate::build;
use crate::cli::{Command, CommandView, SetupCommand, dependency_views};
use crate::fetch;
use crate::paths::opt_view;
use crate::setup::{keystore, sysmodules};
use crate::text::string_views;
use crate::tools;

verus! {

/// A task with its options, ready to run.
#[derive(Debug)]
pub enum Task {
    SetupKeystore(keystore::Opts),
    SetupSysmodules(sysmodules::Opts),
    Build(build::Opts),
    Sign(sign::Opts),
    Deploy(deploy::Opts),
    Fetch(fetch::Opts),
}

/// The task that a parsed command line asks for, with its options taken over
/// field by field; `deploy` names no particular device.
pub open spec fn planned(cmd: CommandView, task: Task) -> bool {
    match cmd {
        CommandView::Setup(crate::cli::SetupCommandView::Keystore(a)) => task matches Task::SetupKeystore(o)
            && o.keytool@ == a.keytool && o.output@ == a.output,
        CommandView::Setup(crate::cli::SetupCommandView::Sysmodules(a)) => task matches Task::SetupSysmodules(o)
            && o.jdk@ == a.jdk && o.platform@ == a.android_platform && o.workdir@ == a.workdir
            && o.output@ == a.output && o.clean == a.clean,
        CommandView::Build(a) => task matches Task::Build(o) && o.package@ == a.package
            && o.manifest@ == a.manifest && string_views(o.java@) == a.java_files
            && string_views(o.jars@) == a.jars && opt_view(o.sysmodules) == a.sysmodules
            && opt_view(o.resources) == a.resources && string_views(o.libs@) == a.libs
            && o.arch == a.arch && o.jdk@ == a.jdk && o.platform@ == a.android_platform
            && o.build_tools@ == a.android_build_tools && o.workdir@ == a.output,
        CommandView::Sign(a) => task matches Task::Sign(o) && o.apk@ == a.apk && o.keystore@
            == a.keystore && o.build_tools@ == a.android_build_tools,
        CommandView::Deploy(a) => task matches Task::Deploy(o) && o.apk@ == a.apk && o.package@
            == a.package && o.launch == a.launch && o.device is None,
        CommandView::Fetch(a) => task matches Task::Fetch(o) && o.output@ == a.output
            && dependency_views(o.dependencies@) == a.dependencies && opt_view(o.coursier)
            == a.coursier,
    }
}

/// The task that a parsed command line asks for.
pub fn plan(cmd: Command) -> (task: Task)
    ensures
        planned(cmd@, task),
{
    match cmd {
        Command::Setup(SetupCommand::Keystore(args)) => Task::SetupKeystore(
            keystore::Opts { keytool: args.keytool, output: args.output },
        ),
        Command::Setup(SetupCommand::Sysmodules(args)) => Task::SetupSysmodules(
            sysmodules::Opts {
                jdk: tools::Jdk::new(args.jdk),
                platform: tools::AndroidPlatform::new(args.android_platform),
                workdir: args.workdir,
                output: args.output,
                clean: args.clean,
            },
        ),
        Command::Build(args) => Task::Build(
            build::Opts {
                package: args.package,
                platform: args.android_platform,
                build_tools: args.android_build_tools,
                manifest: args.manifest,
                java: args.java_files,
                jars: args.jars,
                sysmodules: args.sysmodules,
                resources: args.resources,
                libs: args.libs,
                arch: args.arch,
                jdk: args.jdk,
                workdir: args.output,
            },
        ),
        Command::Sign(args) => Task::Sign(
            sign::Opts {
                apk: args.apk,
                keystore: args.keystore,
                build_tools: tools::AndroidBuildTools::new(args.android_build_tools),
            },
        ),
        Command::Deploy(args) => Task::Deploy(
            deploy::Opts { apk: args.apk, package: args.package, launch: args.launch, device: None },
        ),
        Command::Fetch(args) => Task::Fetch(
            fetch::Opts {
                output: args.output,
                dependencies: args.dependencies,
                coursier: args.coursier,
            },
        ),
    }
}

} // verus!
