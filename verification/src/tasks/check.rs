//! Canonically ordered repository checks.
use vstd::prelude::*;

use crate::tasks::command::{extend, extend_owned, str_texts, texts, CommandSpec};
use crate::tasks::features::{cargo_feature_args, FeatureArgs};
use crate::tasks::policy::{CHECK_ORDER, QUALITY_PACKAGE, WASM_TARGET};
use crate::text::owned;

verus! {

/// Selectable check steps.  Absence of a selector means all steps.
#[derive(Clone, Copy, Debug, PartialEq, Eq, Structural)]
pub enum CheckStep {
    Fmt,
    Check,
    Clippy,
    Test,
    Wasm,
}

pub const RUSTFMT_INSTALL: &'static str = "Install it with `rustup component add rustfmt`.";

pub const CLIPPY_INSTALL: &'static str = "Install it with `rustup component add clippy`.";

pub const WASM_TARGET_INSTALL: &'static str = "Install it with `rustup target add wasm32-unknown-unknown`.";

pub const CARGO_INSTALL: &'static str = "Install a Rust toolchain from https://rustup.rs/.";

/// The position of a step in the registry.
pub open spec fn rank(step: CheckStep) -> int {
    match step {
        CheckStep::Fmt => 0,
        CheckStep::Check => 1,
        CheckStep::Clippy => 2,
        CheckStep::Test => 3,
        CheckStep::Wasm => 4,
    }
}

/// Whether a step is selected: with `only` given, exactly those steps;
/// otherwise every step not excluded.
pub open spec fn wanted(step: CheckStep, only: Seq<CheckStep>, exclude: Seq<CheckStep>) -> bool {
    if only.len() == 0 {
        !exclude.contains(step)
    } else {
        only.contains(step)
    }
}

/// The steps of `order` that are selected, in the order of `order`.
pub open spec fn selected_steps(order: Seq<CheckStep>, only: Seq<CheckStep>, exclude: Seq<CheckStep>) -> Seq<CheckStep>
    decreases order.len(),
{
    if order.len() == 0 {
        seq![]
    } else {
        let p = selected_steps(order.drop_last(), only, exclude);
        if wanted(order.last(), only, exclude) {
            p.push(order.last())
        } else {
            p
        }
    }
}

fn contains_step(list: &[CheckStep], step: CheckStep) -> (r: bool)
    ensures
        r == list@.contains(step),
{
    let mut k: usize = 0;
    while k < list.len()
        invariant
            k <= list.len(),
            forall|i: int| 0 <= i < k ==> list@[i] != step,
        decreases list.len() - k,
    {
        if list[k] == step {
            assert(list@[k as int] == step);
            return true;
        }
        k = k + 1;
    }
    false
}

/// The selected steps in registry order; an empty selection is an error.
pub fn select_steps(only: &[CheckStep], exclude: &[CheckStep]) -> (r: Result<Vec<CheckStep>, String>)
    ensures
        match r {
            Ok(steps) => steps@ == selected_steps(CHECK_ORDER@, only@, exclude@) && steps@.len() > 0,
            Err(e) => selected_steps(CHECK_ORDER@, only@, exclude@).len() == 0
                && e@ == "the check selection is empty; choose at least one registered step"@,
        },
{
    let order = CHECK_ORDER;
    let mut selected: Vec<CheckStep> = Vec::new();
    let mut k: usize = 0;
    while k < 5
        invariant
            k <= 5,
            order@ == CHECK_ORDER@,
            order@.len() == 5,
            selected@ == selected_steps(order@.take(k as int), only@, exclude@),
        decreases 5 - k,
    {
        let step = order[k];
        let keep = if only.len() == 0 {
            !contains_step(exclude, step)
        } else {
            contains_step(only, step)
        };
        proof {
            let t = order@.take(k + 1);
            assert(t.drop_last() == order@.take(k as int));
            assert(t.last() == step);
        }
        if keep {
            selected.push(step);
        }
        k = k + 1;
    }
    assert(order@.take(5) == order@);
    if selected.len() == 0 {
        return Err(owned("the check selection is empty; choose at least one registered step"));
    }
    Ok(selected)
}

proof fn lemma_selected_from(order: Seq<CheckStep>, only: Seq<CheckStep>, exclude: Seq<CheckStep>)
    ensures
        forall|i: int| 0 <= i < selected_steps(order, only, exclude).len() ==> order.contains(
            #[trigger] selected_steps(order, only, exclude)[i],
        ),
    decreases order.len(),
{
    if order.len() > 0 {
        let p = order.drop_last();
        lemma_selected_from(p, only, exclude);
        let s = selected_steps(order, only, exclude);
        assert forall|i: int| 0 <= i < s.len() implies order.contains(#[trigger] s[i]) by {
            let sp = selected_steps(p, only, exclude);
            if i < sp.len() {
                assert(p.contains(sp[i]));
                let j = choose|j: int| 0 <= j < p.len() && p[j] == sp[i];
                assert(order[j] == sp[i]);
            } else {
                assert(s[i] == order.last());
                assert(order[order.len() - 1] == s[i]);
            }
        }
    }
}

proof fn lemma_selected_ranked(order: Seq<CheckStep>, only: Seq<CheckStep>, exclude: Seq<CheckStep>)
    requires
        forall|i: int, j: int| 0 <= i < j < order.len() ==> rank(order[i]) < rank(order[j]),
    ensures
        forall|i: int, j: int|
            0 <= i < j < selected_steps(order, only, exclude).len() ==> rank(
                selected_steps(order, only, exclude)[i],
            ) < rank(selected_steps(order, only, exclude)[j]),
    decreases order.len(),
{
    if order.len() > 0 {
        let p = order.drop_last();
        lemma_selected_ranked(p, only, exclude);
        lemma_selected_from(p, only, exclude);
        let sp = selected_steps(p, only, exclude);
        let s = selected_steps(order, only, exclude);
        assert forall|i: int, j: int| 0 <= i < j < s.len() implies rank(s[i]) < rank(s[j]) by {
            if j >= sp.len() {
                assert(s[j] == order.last());
                assert(p.contains(sp[i]));
                let q = choose|q: int| 0 <= q < p.len() && p[q] == sp[i];
                assert(rank(order[q]) < rank(order[order.len() - 1]));
            } else {
                assert(s[i] == sp[i] && s[j] == sp[j]);
            }
        }
    }
}

/// Whatever the selectors, the selected steps follow the registry order and
/// none repeats.
pub proof fn law_selection_is_canonical(only: Seq<CheckStep>, exclude: Seq<CheckStep>)
    ensures
        forall|i: int, j: int|
            0 <= i < j < selected_steps(CHECK_ORDER@, only, exclude).len() ==> rank(
                selected_steps(CHECK_ORDER@, only, exclude)[i],
            ) < rank(selected_steps(CHECK_ORDER@, only, exclude)[j]),
        forall|i: int, j: int|
            0 <= i < j < selected_steps(CHECK_ORDER@, only, exclude).len() ==> selected_steps(
                CHECK_ORDER@,
                only,
                exclude,
            )[i] != selected_steps(CHECK_ORDER@, only, exclude)[j],
        forall|i: int|
            0 <= i < selected_steps(CHECK_ORDER@, only, exclude).len() ==> wanted(
                #[trigger] selected_steps(CHECK_ORDER@, only, exclude)[i],
                only,
                exclude,
            ),
{
    let order = CHECK_ORDER@;
    assert(order[0] == CheckStep::Fmt && order[1] == CheckStep::Check && order[2] == CheckStep::Clippy
        && order[3] == CheckStep::Test && order[4] == CheckStep::Wasm);
    lemma_selected_ranked(order, only, exclude);
    lemma_selected_wanted(order, only, exclude);
}

proof fn lemma_selected_wanted(order: Seq<CheckStep>, only: Seq<CheckStep>, exclude: Seq<CheckStep>)
    ensures
        forall|i: int|
            0 <= i < selected_steps(order, only, exclude).len() ==> wanted(
                #[trigger] selected_steps(order, only, exclude)[i],
                only,
                exclude,
            ),
    decreases order.len(),
{
    if order.len() > 0 {
        let p = order.drop_last();
        lemma_selected_wanted(p, only, exclude);
        let sp = selected_steps(p, only, exclude);
        let s = selected_steps(order, only, exclude);
        assert forall|i: int| 0 <= i < s.len() implies wanted(#[trigger] s[i], only, exclude) by {
            if i < sp.len() {
                assert(s[i] == sp[i]);
            }
        }
    }
}

pub open spec fn cargo(args: Seq<Seq<char>>) -> (Seq<char>, Seq<Seq<char>>) {
    ("cargo"@, args)
}

/// `cargo <sub> --locked --workspace --all-targets <features> [-- -D warnings]`.
pub open spec fn quality_command(sub: Seq<char>, features: Seq<Seq<char>>, deny_warnings: bool) -> (Seq<char>, Seq<Seq<char>>) {
    cargo(seq![sub, "--locked"@, "--workspace"@, "--all-targets"@] + features + if deny_warnings {
        seq!["--"@, "-D"@, "warnings"@]
    } else {
        seq![]
    })
}

/// The command that runs a check step.
pub open spec fn step_command(step: CheckStep, features: Seq<Seq<char>>) -> (Seq<char>, Seq<Seq<char>>) {
    match step {
        CheckStep::Fmt => cargo(seq!["fmt"@, "--all"@, "--"@, "--check"@]),
        CheckStep::Check => quality_command("check"@, features, false),
        CheckStep::Clippy => quality_command("clippy"@, features, true),
        CheckStep::Test => quality_command("test"@, features, false),
        CheckStep::Wasm => cargo(
            seq!["clippy"@, "--locked"@, "--package"@, QUALITY_PACKAGE@, "--target"@, WASM_TARGET@]
                + features + seq!["--"@, "-D"@, "warnings"@],
        ),
    }
}

/// Every step that runs Clippy denies warnings: its command is a Cargo
/// command whose arguments end with `-- -D warnings`.  The other steps do not
/// run Clippy.
pub proof fn law_clippy_denies_warnings(step: CheckStep, features: Seq<Seq<char>>)
    ensures
        ({
            let (program, args) = step_command(step, features);
            &&& program == "cargo"@
            &&& args.len() >= 4
            &&& (args[0] == "clippy"@ <==> (step == CheckStep::Clippy || step == CheckStep::Wasm))
            &&& (step == CheckStep::Clippy || step == CheckStep::Wasm) ==> args.subrange(
                args.len() - 3,
                args.len() as int,
            ) == seq!["--"@, "-D"@, "warnings"@]
        }),
{
    reveal_strlit("clippy");
    reveal_strlit("fmt");
    reveal_strlit("check");
    reveal_strlit("test");
    assert("clippy"@.len() == 6 && "fmt"@.len() == 3 && "check"@.len() == 5 && "test"@.len() == 4);
    let args = step_command(step, features).1;
    if step == CheckStep::Clippy || step == CheckStep::Wasm {
        assert(args.subrange(args.len() - 3, args.len() as int) =~= seq!["--"@, "-D"@, "warnings"@]);
    }
}

pub open spec fn features_view(f: FeatureArgs) -> Seq<Seq<char>> {
    cargo_feature_args(f.all_features, texts(f.features@), f.no_default_features)
}

fn cargo_quality(subcommand: &str, features: &FeatureArgs, deny_warnings: bool) -> (r: CommandSpec)
    ensures
        r@ == quality_command(subcommand@, features_view(*features), deny_warnings),
{
    let mut command = CommandSpec::new("cargo").args(&[subcommand, "--locked", "--workspace", "--all-targets"]);
    extend_owned(&mut command.args, features.cargo_args());
    if deny_warnings {
        extend(&mut command.args, &["--", "-D", "warnings"]);
    }
    assert(command@.1 =~= quality_command(subcommand@, features_view(*features), deny_warnings).1);
    command
}

/// The command that runs `step`.
pub fn command_for(step: CheckStep, features: &FeatureArgs) -> (r: CommandSpec)
    ensures
        r@ == step_command(step, features_view(*features)),
{
    match step {
        CheckStep::Fmt => {
            let c = CommandSpec::new("cargo").args(&["fmt", "--all", "--", "--check"]);
            assert(c@.1 =~= seq!["fmt"@, "--all"@, "--"@, "--check"@]);
            c
        },
        CheckStep::Check => cargo_quality("check", features, false),
        CheckStep::Clippy => cargo_quality("clippy", features, true),
        CheckStep::Test => cargo_quality("test", features, false),
        CheckStep::Wasm => {
            let mut command = CommandSpec::new("cargo").args(
                &["clippy", "--locked", "--package", QUALITY_PACKAGE, "--target", WASM_TARGET],
            );
            extend_owned(&mut command.args, features.cargo_args());
            extend(&mut command.args, &["--", "-D", "warnings"]);
            assert(command@.1 =~= step_command(step, features_view(*features)).1);
            command
        },
    }
}

/// A tool that must be usable before the checks run.
pub struct Prerequisite {
    pub label: &'static str,
    pub command: CommandSpec,
    pub guidance: &'static str,
}

pub open spec fn has_step(steps: Seq<CheckStep>, step: CheckStep) -> bool {
    steps.contains(step)
}

/// The tools that a set of steps needs: Cargo always, rustfmt for `fmt`,
/// Clippy for `clippy` or `wasm`, and the wasm target for `wasm`.
pub open spec fn prerequisites(steps: Seq<CheckStep>) -> Seq<(Seq<char>, (Seq<char>, Seq<Seq<char>>), Seq<char>)> {
    seq![("Cargo"@, cargo(seq!["--version"@]), CARGO_INSTALL@)] + (if has_step(steps, CheckStep::Fmt) {
        seq![("rustfmt"@, cargo(seq!["fmt"@, "--version"@]), RUSTFMT_INSTALL@)]
    } else {
        seq![]
    }) + (if has_step(steps, CheckStep::Clippy) || has_step(steps, CheckStep::Wasm) {
        seq![("Clippy"@, cargo(seq!["clippy"@, "--version"@]), CLIPPY_INSTALL@)]
    } else {
        seq![]
    }) + (if has_step(steps, CheckStep::Wasm) {
        seq![
            (
                "wasm32-unknown-unknown"@,
                ("rustc"@, seq!["--print"@, "cfg"@, "--target"@, WASM_TARGET@]),
                WASM_TARGET_INSTALL@,
            ),
        ]
    } else {
        seq![]
    })
}

pub open spec fn prerequisite_view(p: Prerequisite) -> (Seq<char>, (Seq<char>, Seq<Seq<char>>), Seq<char>) {
    (p.label@, p.command@, p.guidance@)
}

fn prerequisite(label: &'static str, command: CommandSpec, guidance: &'static str) -> (r: Prerequisite)
    ensures
        prerequisite_view(r) == (label@, command@, guidance@),
{
    Prerequisite { label, command, guidance }
}

/// The tools to probe before running `steps`.
pub fn check_prerequisites(steps: &[CheckStep]) -> (r: Vec<Prerequisite>)
    ensures
        r@.map_values(|p: Prerequisite| prerequisite_view(p)) == prerequisites(steps@),
{
    let mut r: Vec<Prerequisite> = Vec::new();
    let c = CommandSpec::new("cargo").arg("--version");
    assert(c@.1 =~= seq!["--version"@]);
    r.push(prerequisite("Cargo", c, CARGO_INSTALL));
    let ghost base = seq![("Cargo"@, cargo(seq!["--version"@]), CARGO_INSTALL@)];
    assert(r@.map_values(|p: Prerequisite| prerequisite_view(p)) =~= base);
    let fmt = contains_step(steps, CheckStep::Fmt);
    let clippy = contains_step(steps, CheckStep::Clippy);
    let wasm = contains_step(steps, CheckStep::Wasm);
    if fmt {
        let c = CommandSpec::new("cargo").args(&["fmt", "--version"]);
        assert(c@.1 =~= seq!["fmt"@, "--version"@]);
        r.push(prerequisite("rustfmt", c, RUSTFMT_INSTALL));
    }
    let ghost with_fmt = base + (if fmt {
        seq![("rustfmt"@, cargo(seq!["fmt"@, "--version"@]), RUSTFMT_INSTALL@)]
    } else {
        Seq::empty()
    });
    assert(r@.map_values(|p: Prerequisite| prerequisite_view(p)) =~= with_fmt);
    if clippy || wasm {
        let c = CommandSpec::new("cargo").args(&["clippy", "--version"]);
        assert(c@.1 =~= seq!["clippy"@, "--version"@]);
        r.push(prerequisite("Clippy", c, CLIPPY_INSTALL));
    }
    let ghost with_clippy = with_fmt + (if clippy || wasm {
        seq![("Clippy"@, cargo(seq!["clippy"@, "--version"@]), CLIPPY_INSTALL@)]
    } else {
        Seq::empty()
    });
    assert(r@.map_values(|p: Prerequisite| prerequisite_view(p)) =~= with_clippy);
    if wasm {
        let c = CommandSpec::new("rustc").args(&["--print", "cfg", "--target", WASM_TARGET]);
        assert(c@.1 =~= seq!["--print"@, "cfg"@, "--target"@, WASM_TARGET@]);
        r.push(prerequisite("wasm32-unknown-unknown", c, WASM_TARGET_INSTALL));
    }
    assert(r@.map_values(|p: Prerequisite| prerequisite_view(p)) =~= prerequisites(steps@));
    r
}

} // verus!
