//! `deploy`: installs an APK with `adb`, replacing an older install, and
//! optionally starts it.
use vstd::prelude::*;

use crate::paths::opt_view;
use crate::text::copy_str;
use crate::utils::{CommandSpec, CommandSpecView};

verus! {

/// What `deploy` is asked to do.
#[derive(Debug)]
pub struct Opts {
    pub apk: String,
    pub package: String,
    pub launch: bool,
    pub device: Option<String>,
}

/// `-s <device>` where a device is named, else nothing.
pub open spec fn device_args(device: Option<Seq<char>>) -> Seq<Seq<char>> {
    match device {
        Some(d) => seq!["-s"@, d],
        None => Seq::empty(),
    }
}

/// `adb [-s device] uninstall <package>`
pub open spec fn uninstall_command(device: Option<Seq<char>>, package: Seq<char>) -> CommandSpecView {
    CommandSpecView { program: "adb"@, args: device_args(device) + seq!["uninstall"@, package] }
}

/// `adb [-s device] install <apk>`
pub open spec fn install_command(device: Option<Seq<char>>, apk: Seq<char>) -> CommandSpecView {
    CommandSpecView { program: "adb"@, args: device_args(device) + seq!["install"@, apk] }
}

/// `adb [-s device] shell am start -n <package>/.MainActivity`
pub open spec fn launch_command(device: Option<Seq<char>>, package: Seq<char>) -> CommandSpecView {
    CommandSpecView {
        program: "adb"@,
        args: device_args(device) + seq![
            "shell"@,
            "am"@,
            "start"@,
            "-n"@,
            package + "/.MainActivity"@,
        ],
    }
}

/// `adb` with the device selected, if one is named.
fn adb(device: &Option<String>) -> (cmd: CommandSpec)
    ensures
        cmd@.program == "adb"@,
        cmd@.args == device_args(opt_view(*device)),
{
    let mut cmd = CommandSpec::new(copy_str("adb"));
    match device {
        Some(d) => {
            cmd.arg_str("-s");
            cmd.arg_str(d.as_str());
            assert(cmd@.args =~= device_args(opt_view(*device)));
        },
        None => {},
    }
    cmd
}

/// The command that removes an installed package.
pub fn uninstall(device: &Option<String>, package: &str) -> (cmd: CommandSpec)
    ensures
        cmd@ == uninstall_command(opt_view(*device), package@),
{
    let mut cmd = adb(device);
    cmd.arg_str("uninstall");
    cmd.arg_str(package);
    assert(cmd@.args =~= uninstall_command(opt_view(*device), package@).args);
    cmd
}

/// The command that installs the APK.
pub fn install(device: &Option<String>, apk: &str) -> (cmd: CommandSpec)
    ensures
        cmd@ == install_command(opt_view(*device), apk@),
{
    let mut cmd = adb(device);
    cmd.arg_str("install");
    cmd.arg_str(apk);
    assert(cmd@.args =~= install_command(opt_view(*device), apk@).args);
    cmd
}

/// The command that starts the package's main activity.
pub fn launch(device: &Option<String>, package: &str) -> (cmd: CommandSpec)
    ensures
        cmd@ == launch_command(opt_view(*device), package@),
{
    let mut cmd = adb(device);
    cmd.arg_str("shell");
    cmd.arg_str("am");
    cmd.arg_str("start");
    cmd.arg_str("-n");
    cmd.arg(crate::text::concat2(package, "/.MainActivity"));
    assert(cmd@.args =~= launch_command(opt_view(*device), package@).args);
    cmd
}

/// The commands of a deployment, in order: an uninstall whose failure is
/// ignored, the install, and the launch where asked for.
#[derive(Debug)]
pub struct DeployPlan {
    pub uninstall: CommandSpec,
    pub install: CommandSpec,
    pub launch: Option<CommandSpec>,
}

/// The commands of a deployment.
pub fn plan(opts: &Opts) -> (p: DeployPlan)
    ensures
        p.uninstall@ == uninstall_command(opt_view(opts.device), opts.package@),
        p.install@ == install_command(opt_view(opts.device), opts.apk@),
        p.launch is Some == opts.launch,
        p.launch matches Some(l) ==> l@ == launch_command(opt_view(opts.device), opts.package@),
{
    DeployPlan {
        uninstall: uninstall(&opts.device, opts.package.as_str()),
        install: install(&opts.device, opts.apk.as_str()),
        launch: if opts.launch {
            Some(launch(&opts.device, opts.package.as_str()))
        } else {
            None
        },
    }
}

/// A command of a deployment.
#[derive(Clone, Copy, Debug, PartialEq, Eq, Structural)]
pub enum DeployStage {
    Uninstall,
    Install,
    Launch,
}

/// What follows a command of a deployment.
#[derive(Clone, Copy, Debug, PartialEq, Eq, Structural)]
pub enum DeployNext {
    /// Run this command next.
    Run(DeployStage),
    /// The deployment is complete.
    Done,
    /// The command failed; the deployment fails with it.
    Fail,
}

/// What follows `stage`, given whether it succeeded and whether a launch was
/// asked for: a failed uninstall (nothing to remove) is no failure; a failed
/// install or launch ends the deployment; the launch follows the install only
/// where asked for.
pub open spec fn deploy_after(launch: bool, stage: DeployStage, ok: bool) -> DeployNext {
    match stage {
        DeployStage::Uninstall => DeployNext::Run(DeployStage::Install),
        DeployStage::Install => if !ok {
            DeployNext::Fail
        } else if launch {
            DeployNext::Run(DeployStage::Launch)
        } else {
            DeployNext::Done
        },
        DeployStage::Launch => if ok {
            DeployNext::Done
        } else {
            DeployNext::Fail
        },
    }
}

/// The first command of a deployment: the uninstall.
pub fn first_deploy_stage() -> (s: DeployStage)
    ensures
        s == DeployStage::Uninstall,
{
    DeployStage::Uninstall
}

/// What follows a command of the planned deployment, as it went.
pub fn next_deploy_step(plan: &DeployPlan, stage: DeployStage, ok: bool) -> (n: DeployNext)
    ensures
        n == deploy_after(plan.launch is Some, stage, ok),
{
    match stage {
        DeployStage::Uninstall => DeployNext::Run(DeployStage::Install),
        DeployStage::Install => if !ok {
            DeployNext::Fail
        } else if plan.launch.is_some() {
            DeployNext::Run(DeployStage::Launch)
        } else {
            DeployNext::Done
        },
        DeployStage::Launch => if ok {
            DeployNext::Done
        } else {
            DeployNext::Fail
        },
    }
}

} // verus!
