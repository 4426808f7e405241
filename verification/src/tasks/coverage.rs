//! Coverage generation with engine-specific reports.
use vstd::prelude::*;

use crate::proto::{decimal, push_decimal};
use crate::tasks::check::features_view;
use crate::tasks::command::{extend, extend_owned, str_texts, texts, CommandSpec};
use crate::tasks::features::FeatureArgs;
use crate::tasks::policy::{
    COVERAGE_FAIL_UNDER_LINES, COVERAGE_IGNORE_REGEX, LLVM_COV_REPORT, QUALITY_PACKAGE,
    TARPAULIN_REPORT,
};

verus! {

/// Supported coverage engines.
#[derive(Clone, Copy, Debug, PartialEq, Eq, Structural)]
pub enum CoverageEngine {
    LlvmCov,
    Tarpaulin,
}

impl Default for CoverageEngine {
    fn default() -> (r: Self)
        ensures
            r == CoverageEngine::LlvmCov,
    {
        CoverageEngine::LlvmCov
    }
}

pub const LLVM_INSTALL: &'static str = "Install it with `cargo install --locked cargo-llvm-cov`.";

pub const TARPAULIN_INSTALL: &'static str = "Install it with `cargo install --locked cargo-tarpaulin`.";

pub open spec fn label_of(engine: CoverageEngine) -> Seq<char> {
    match engine {
        CoverageEngine::LlvmCov => "cargo-llvm-cov"@,
        CoverageEngine::Tarpaulin => "cargo-tarpaulin"@,
    }
}

pub fn coverage_label(engine: CoverageEngine) -> (r: &'static str)
    ensures
        r@ == label_of(engine),
{
    match engine {
        CoverageEngine::LlvmCov => "cargo-llvm-cov",
        CoverageEngine::Tarpaulin => "cargo-tarpaulin",
    }
}

/// The version probe of an engine and the guidance shown when it fails.
pub fn coverage_probe(engine: CoverageEngine) -> (r: (CommandSpec, &'static str))
    ensures
        r.0@ == ("cargo"@, seq![
            match engine {
                CoverageEngine::LlvmCov => "llvm-cov"@,
                CoverageEngine::Tarpaulin => "tarpaulin"@,
            },
            "--version"@,
        ]),
        r.1@ == (match engine {
            CoverageEngine::LlvmCov => LLVM_INSTALL@,
            CoverageEngine::Tarpaulin => TARPAULIN_INSTALL@,
        }),
{
    match engine {
        CoverageEngine::LlvmCov => {
            let c = CommandSpec::new("cargo").args(&["llvm-cov", "--version"]);
            assert(c@.1 =~= seq!["llvm-cov"@, "--version"@]);
            (c, LLVM_INSTALL)
        },
        CoverageEngine::Tarpaulin => {
            let c = CommandSpec::new("cargo").args(&["tarpaulin", "--version"]);
            assert(c@.1 =~= seq!["tarpaulin"@, "--version"@]);
            (c, TARPAULIN_INSTALL)
        },
    }
}

/// The commands that generate a fresh report.
pub open spec fn coverage_commands(engine: CoverageEngine, features: Seq<Seq<char>>) -> Seq<(Seq<char>, Seq<Seq<char>>)> {
    let threshold = decimal(COVERAGE_FAIL_UNDER_LINES as nat);
    match engine {
        CoverageEngine::LlvmCov => seq![
            ("cargo"@, seq!["llvm-cov"@, "clean"@, "--workspace"@]),
            (
                "cargo"@,
                seq!["llvm-cov"@, "--locked"@, "--package"@, QUALITY_PACKAGE@, "--all-targets"@] + features
                    + seq![
                    "--ignore-filename-regex"@,
                    COVERAGE_IGNORE_REGEX@,
                    "--fail-under-lines"@,
                    threshold,
                    "--html"@,
                    "--output-dir"@,
                    "target/coverage/llvm-cov"@,
                ],
            ),
        ],
        CoverageEngine::Tarpaulin => seq![
            (
                "cargo"@,
                seq!["tarpaulin"@, "--locked"@, "--package"@, QUALITY_PACKAGE@, "--all-targets"@] + features
                    + seq![
                    "--exclude-files"@,
                    "src/app.rs"@,
                    "--exclude-files"@,
                    "src/lib.rs"@,
                    "--fail-under"@,
                    threshold,
                    "--out"@,
                    "Html"@,
                    "--output-dir"@,
                    "target/coverage/tarpaulin"@,
                ],
            ),
        ],
    }
}

pub open spec fn command_views(v: Seq<CommandSpec>) -> Seq<(Seq<char>, Seq<Seq<char>>)> {
    v.map_values(|c: CommandSpec| c@)
}

fn threshold_text() -> (r: String)
    ensures
        r@ == decimal(COVERAGE_FAIL_UNDER_LINES as nat),
{
    let mut r = String::new();
    push_decimal(&mut r, COVERAGE_FAIL_UNDER_LINES as u64);
    r
}

/// The commands that generate a fresh coverage report with `engine`.
pub fn commands(engine: CoverageEngine, features: &FeatureArgs) -> (r: Vec<CommandSpec>)
    ensures
        command_views(r@) == coverage_commands(engine, features_view(*features)),
{
    let threshold = threshold_text();
    match engine {
        CoverageEngine::LlvmCov => {
            let clean = CommandSpec::new("cargo").args(&["llvm-cov", "clean", "--workspace"]);
            let mut generate = CommandSpec::new("cargo").args(
                &["llvm-cov", "--locked", "--package", QUALITY_PACKAGE, "--all-targets"],
            );
            extend_owned(&mut generate.args, features.cargo_args());
            extend(
                &mut generate.args,
                &[
                    "--ignore-filename-regex",
                    COVERAGE_IGNORE_REGEX,
                    "--fail-under-lines",
                    threshold.as_str(),
                    "--html",
                    "--output-dir",
                    "target/coverage/llvm-cov",
                ],
            );
            let ghost spec = coverage_commands(engine, features_view(*features));
            assert(clean@.1 =~= spec[0].1);
            assert(generate@.1 =~= spec[1].1);
            let mut r: Vec<CommandSpec> = Vec::new();
            r.push(clean);
            r.push(generate);
            assert(command_views(r@) =~= coverage_commands(engine, features_view(*features)));
            r
        },
        CoverageEngine::Tarpaulin => {
            let mut generate = CommandSpec::new("cargo").args(
                &["tarpaulin", "--locked", "--package", QUALITY_PACKAGE, "--all-targets"],
            );
            extend_owned(&mut generate.args, features.cargo_args());
            extend(
                &mut generate.args,
                &[
                    "--exclude-files",
                    "src/app.rs",
                    "--exclude-files",
                    "src/lib.rs",
                    "--fail-under",
                    threshold.as_str(),
                    "--out",
                    "Html",
                    "--output-dir",
                    "target/coverage/tarpaulin",
                ],
            );
            let ghost spec = coverage_commands(engine, features_view(*features));
            assert(generate@.1 =~= spec[0].1);
            let mut r: Vec<CommandSpec> = Vec::new();
            r.push(generate);
            assert(command_views(r@) =~= coverage_commands(engine, features_view(*features)));
            r
        },
    }
}

/// Where an engine writes its report, relative to the workspace root.
pub fn report_relative(engine: CoverageEngine) -> (r: &'static str)
    ensures
        r@ == (match engine {
            CoverageEngine::LlvmCov => LLVM_COV_REPORT@,
            CoverageEngine::Tarpaulin => TARPAULIN_REPORT@,
        }),
{
    match engine {
        CoverageEngine::LlvmCov => LLVM_COV_REPORT,
        CoverageEngine::Tarpaulin => TARPAULIN_REPORT,
    }
}

/// The host family, for choosing how to open a file.
#[derive(Clone, Copy, Debug, PartialEq, Eq, Structural)]
pub enum HostOs {
    MacOs,
    Windows,
    Other,
}

/// The command that opens `report` with the host's default application.
pub fn open_command(os: HostOs, report: &str) -> (r: CommandSpec)
    ensures
        r@ == (match os {
            HostOs::MacOs => ("open"@, seq![report@]),
            HostOs::Windows => ("cmd"@, seq!["/C"@, "start"@, Seq::<char>::empty(), report@]),
            HostOs::Other => ("xdg-open"@, seq![report@]),
        }),
{
    match os {
        HostOs::MacOs => {
            let c = CommandSpec::new("open").arg(report);
            assert(c@.1 =~= seq![report@]);
            c
        },
        HostOs::Windows => {
            let c = CommandSpec::new("cmd").args(&["/C", "start", "", report]);
            proof {
                reveal_strlit("");
                assert(""@ =~= Seq::<char>::empty());
            }
            assert(c@.1 =~= seq!["/C"@, "start"@, Seq::<char>::empty(), report@]);
            c
        },
        HostOs::Other => {
            let c = CommandSpec::new("xdg-open").arg(report);
            assert(c@.1 =~= seq![report@]);
            c
        },
    }
}

} // verus!
