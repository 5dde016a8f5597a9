//! The debug keystore that `sign` uses.
use vstd::prelude::*;

use crate::utils::{CommandSpec, CommandSpecView};

verus! {

/// What `setup keystore` is asked to do.
#[derive(Debug)]
pub struct Opts {
    pub keytool: String,
    pub output: String,
}

/// `keytool -genkey` of an RSA key aliased `android`, with the password
/// `android`, valid for 10000 days, in the keystore at the output path.
pub open spec fn keytool_command(opts: Opts) -> CommandSpecView {
    CommandSpecView {
        program: opts.keytool@,
        args: seq![
            "-genkey"@,
            "-v"@,
            "-keystore"@,
            opts.output@,
            "-storepass"@,
            "android"@,
            "-keypass"@,
            "android"@,
            "-alias"@,
            "android"@,
            "-keyalg"@,
            "RSA"@,
            "-keysize"@,
            "2048"@,
            "-validity"@,
            "10000"@,
            "-dname"@,
            "C=US, O=Android, CN=Android Debug"@,
        ],
    }
}

/// The command that generates the keystore.
pub fn generate_command(opts: &Opts) -> (cmd: CommandSpec)
    ensures
        cmd@ == keytool_command(*opts),
{
    let mut cmd = CommandSpec::new(crate::text::copy_str(opts.keytool.as_str()));
    cmd.arg_str("-genkey");
    cmd.arg_str("-v");
    cmd.arg_str("-keystore");
    cmd.arg_str(opts.output.as_str());
    cmd.arg_str("-storepass");
    cmd.arg_str("android");
    cmd.arg_str("-keypass");
    cmd.arg_str("android");
    cmd.arg_str("-alias");
    cmd.arg_str("android");
    cmd.arg_str("-keyalg");
    cmd.arg_str("RSA");
    cmd.arg_str("-keysize");
    cmd.arg_str("2048");
    cmd.arg_str("-validity");
    cmd.arg_str("10000");
    cmd.arg_str("-dname");
    cmd.arg_str("C=US, O=Android, CN=Android Debug");
    assert(cmd@.args =~= keytool_command(*opts).args);
    cmd
}

} // verus!
