//! Trunk serve and static-site build.
use vstd::prelude::*;

use crate::tasks::command::{extend_owned, texts, CommandSpec};

verus! {

pub const TRUNK_INSTALL: &'static str = "Install it with `cargo install --locked trunk --version 0.21.14`.";

/// `trunk --version`.
pub fn trunk_probe() -> (r: CommandSpec)
    ensures
        r@ == ("trunk"@, seq!["--version"@]),
{
    let c = CommandSpec::new("trunk").arg("--version");
    assert(c@.1 =~= seq!["--version"@]);
    c
}

/// `trunk serve [--release true] <extra>`.
pub fn serve_command(release: bool, extra: &Vec<String>) -> (r: CommandSpec)
    ensures
        r@ == ("trunk"@, seq!["serve"@] + (if release {
            seq!["--release"@, "true"@]
        } else {
            seq![]
        }) + texts(extra@)),
{
    let mut command = CommandSpec::new("trunk").arg("serve");
    if release {
        command = command.args(&["--release", "true"]);
    }
    extend_owned(&mut command.args, extra.clone());
    assert(command@.1 =~= seq!["serve"@] + (if release {
        seq!["--release"@, "true"@]
    } else {
        Seq::<Seq<char>>::empty()
    }) + texts(extra@));
    command
}

/// `trunk build`, with `--release` unless a debug site is asked for.
pub fn build_command(debug: bool) -> (r: CommandSpec)
    ensures
        r@ == ("trunk"@, if debug {
            seq!["build"@]
        } else {
            seq!["build"@, "--release"@]
        }),
{
    if debug {
        let c = CommandSpec::new("trunk").arg("build");
        assert(c@.1 =~= seq!["build"@]);
        c
    } else {
        let c = CommandSpec::new("trunk").args(&["build", "--release"]);
        assert(c@.1 =~= seq!["build"@, "--release"@]);
        c
    }
}

} // verus!
