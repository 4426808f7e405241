//! Repository-owned seams for checks, coverage, images, and Trunk.
use vstd::prelude::*;

use crate::tasks::check::CheckStep;
use crate::tasks::image::ImageEngine;

verus! {

/// The registered checks, in the order they run.
pub const CHECK_ORDER: [CheckStep; 5] = [
    CheckStep::Fmt,
    CheckStep::Check,
    CheckStep::Clippy,
    CheckStep::Test,
    CheckStep::Wasm,
];

pub const QUALITY_PACKAGE: &'static str = "yaml-sigil-web";

pub const WASM_TARGET: &'static str = "wasm32-unknown-unknown";

/// The engines that `auto` tries, in order.
pub const IMAGE_AUTO_ORDER: [ImageEngine; 2] = [ImageEngine::Docker, ImageEngine::Buildah];

pub const IMAGE_FILE: &'static str = "Dockerfile";

pub const IMAGE_CONTEXT: &'static str = ".";

pub const IMAGE_TAG: &'static str = "yaml-sigil-web:local";

pub const IMAGE_DIST_PATH: &'static str = "/app/dist/index.html";

pub const LLVM_COV_REPORT: &'static str = "target/coverage/llvm-cov/html/index.html";

pub const TARPAULIN_REPORT: &'static str = "target/coverage/tarpaulin/tarpaulin-report.html";

pub const COVERAGE_IGNORE_REGEX: &'static str = "src/(app|lib)\\.rs";

pub const COVERAGE_FAIL_UNDER_LINES: u32 = 90;

} // verus!
