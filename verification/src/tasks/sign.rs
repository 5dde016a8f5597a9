//! `sign`: signs an APK with the debug keystore.
use vstd::prelude::*;

use crate::paths::join;
use crate::tools;
use crate::utils::{CommandSpec, CommandSpecView};

verus! {

/// What `sign` is asked to do.
#[derive(Debug)]
pub struct Opts {
    pub apk: String,
    pub keystore: String,
    pub build_tools: tools::AndroidBuildTools,
}

/// `java -jar apksigner.jar sign` with the key `android` of the keystore, in place.
pub open spec fn apksigner_command(opts: Opts) -> CommandSpecView {
    CommandSpecView {
        program: "java"@,
        args: seq![
            "-jar"@,
            join(opts.build_tools@, "lib/apksigner.jar"@),
            "sign"@,
            "--ks"@,
            opts.keystore@,
            "--ks-key-alias"@,
            "android"@,
            "--ks-pass"@,
            "pass:android"@,
            "--key-pass"@,
            "pass:android"@,
            "--in"@,
            opts.apk@,
        ],
    }
}

/// The command that signs the APK.
pub fn sign_command(opts: &Opts) -> (cmd: CommandSpec)
    ensures
        cmd@ == apksigner_command(*opts),
{
    let mut cmd = CommandSpec::new(crate::text::copy_str("java"));
    cmd.arg_str("-jar");
    cmd.arg(opts.build_tools.apksigner_jar());
    cmd.arg_str("sign");
    cmd.arg_str("--ks");
    cmd.arg_str(opts.keystore.as_str());
    cmd.arg_str("--ks-key-alias");
    cmd.arg_str("android");
    cmd.arg_str("--ks-pass");
    cmd.arg_str("pass:android");
    cmd.arg_str("--key-pass");
    cmd.arg_str("pass:android");
    cmd.arg_str("--in");
    cmd.arg_str(opts.apk.as_str());
    assert(cmd@.args =~= apksigner_command(*opts).args);
    cmd
}

} // verus!
