use yaml_sigil_web::tasks::check::{check_prerequisites, command_for, select_steps, CheckStep};
use yaml_sigil_web::tasks::command::{display, CommandSpec};
use yaml_sigil_web::tasks::coverage::{commands, open_command, report_relative, CoverageEngine, HostOs};
use yaml_sigil_web::tasks::features::{join_commas, parse_nonempty, FeatureArgs};
use yaml_sigil_web::tasks::image::{
    buildah_build_command, buildah_test_commands, engine_step, EngineStep, docker_build_command, docker_smoke_command, engine_candidates,
    engine_probe, no_engine_message, plan, temporary_name, ImageEngine,
};
use yaml_sigil_web::tasks::policy;
use yaml_sigil_web::tasks::process::{
    concise_output, launch_failure_message, missing_program_message, unusable_program_message,
};
use yaml_sigil_web::tasks::trunk::{build_command, serve_command};

fn owned(items: &[&str]) -> Vec<String> {
    items.iter().map(|s| s.to_string()).collect()
}

#[test]
fn selection_is_deduplicated_and_canonical() {
    let selected = select_steps(&[CheckStep::Test, CheckStep::Fmt, CheckStep::Test], &[])
        .expect("selection should work");
    assert_eq!(selected, vec![CheckStep::Fmt, CheckStep::Test]);
}

#[test]
fn exclusion_preserves_registry_order() {
    let selected = select_steps(&[], &[CheckStep::Clippy]).expect("selection should work");
    assert_eq!(
        selected,
        vec![CheckStep::Fmt, CheckStep::Check, CheckStep::Test, CheckStep::Wasm]
    );
}

#[test]
fn excluding_every_step_is_an_error() {
    assert!(select_steps(&[], &policy::CHECK_ORDER).is_err());
}

#[test]
fn fmt_does_not_receive_feature_arguments() {
    let command = command_for(CheckStep::Fmt, &FeatureArgs::default());
    assert!(!command.args.contains(&"--all-features".to_string()));
}

#[test]
fn wasm_targets_the_playground_package() {
    let command = command_for(CheckStep::Wasm, &FeatureArgs::default());
    assert!(command.args.contains(&"--target".to_string()));
    assert!(command.args.contains(&policy::WASM_TARGET.to_string()));
    assert!(command.args.contains(&policy::QUALITY_PACKAGE.to_string()));
    assert!(command.args.contains(&"-D".to_string()));
}

#[test]
fn coverage_engines_have_distinct_report_paths() {
    assert_ne!(policy::LLVM_COV_REPORT, policy::TARPAULIN_REPORT);
}

#[test]
fn explicit_features_reach_both_engines() {
    let features = FeatureArgs {
        all_features: false,
        features: vec!["alpha".to_string()],
        no_default_features: true,
    };
    for engine in [CoverageEngine::LlvmCov, CoverageEngine::Tarpaulin] {
        let generated = commands(engine, &features);
        let args = &generated.last().expect("generation command").args;
        assert!(args.contains(&"--no-default-features".to_string()));
        assert!(args.contains(&"alpha".to_string()));
        assert!(args.contains(&policy::QUALITY_PACKAGE.to_string()));
        assert!(args.contains(&policy::COVERAGE_FAIL_UNDER_LINES.to_string()));
    }
}

#[test]
fn host_coverage_excludes_the_dom_shell() {
    let llvm = commands(CoverageEngine::LlvmCov, &FeatureArgs::default());
    let llvm_args = &llvm.last().expect("generation command").args;
    assert!(llvm_args.contains(&"--ignore-filename-regex".to_string()));
    assert!(llvm_args.contains(&policy::COVERAGE_IGNORE_REGEX.to_string()));

    let tarpaulin = commands(CoverageEngine::Tarpaulin, &FeatureArgs::default());
    let tarpaulin_args = &tarpaulin[0].args;
    assert!(tarpaulin_args.contains(&"--exclude-files".to_string()));
    assert!(tarpaulin_args.contains(&"src/app.rs".to_string()));
    assert!(tarpaulin_args.contains(&"src/lib.rs".to_string()));
}

#[test]
fn auto_order_has_both_concrete_engines_once() {
    assert_eq!(policy::IMAGE_AUTO_ORDER.len(), 2);
    assert!(policy::IMAGE_AUTO_ORDER.contains(&ImageEngine::Docker));
    assert!(policy::IMAGE_AUTO_ORDER.contains(&ImageEngine::Buildah));
    assert_ne!(policy::IMAGE_AUTO_ORDER[0], policy::IMAGE_AUTO_ORDER[1]);
}

#[test]
fn single_image_uses_the_repository_dockerfile() {
    let planned = plan("yaml-sigil-web:test".to_string());
    assert_eq!(planned.file, "Dockerfile");
    assert_eq!(planned.context, ".");
    assert_eq!(planned.tag, "yaml-sigil-web:test");
}

#[test]
fn temporary_container_name_is_scoped() {
    assert!(temporary_name(4242, 17).starts_with("xtask-smoke-"));
    assert_eq!(temporary_name(4242, 17), "xtask-smoke-4242-17");
    assert_eq!(temporary_name(0, u64::MAX), "xtask-smoke-0-18446744073709551615");
}

#[test]
fn feature_defaults_and_explicit_combination_match_cargo() {
    assert_eq!(FeatureArgs::default().cargo_args(), vec!["--all-features".to_string()]);
    let explicit = FeatureArgs {
        all_features: false,
        features: vec!["alpha".to_string(), "beta".to_string()],
        no_default_features: true,
    };
    assert_eq!(
        explicit.cargo_args(),
        owned(&["--no-default-features", "--features", "alpha,beta"])
    );
}

#[test]
fn empty_probe_diagnostic_is_helpful() {
    assert_eq!(concise_output(b"", b""), "no diagnostic output");
}

#[test]
fn serve_forwards_release_and_extra_args() {
    let command = serve_command(true, &owned(&["--port", "9000"]));
    assert_eq!(command.args, owned(&["serve", "--release", "true", "--port", "9000"]));
}

#[test]
fn build_defaults_to_release() {
    assert_eq!(build_command(false).args, owned(&["build", "--release"]));
    assert_eq!(build_command(true).args, owned(&["build"]));
}

#[test]
fn selection_errors_and_only_lists() {
    let only = select_steps(&[CheckStep::Wasm, CheckStep::Check], &[CheckStep::Fmt]);
    assert_eq!(only.expect("only wins"), vec![CheckStep::Check, CheckStep::Wasm]);
    let all = select_steps(&[], &[]).expect("all");
    assert_eq!(all, policy::CHECK_ORDER.to_vec());
}

#[test]
fn prerequisites_follow_the_steps() {
    let steps = select_steps(&[], &[]).expect("all");
    let needed = check_prerequisites(&steps);
    assert!(!needed.is_empty());
    assert_eq!(needed[0].command.program, "cargo");
    assert_eq!(needed.len(), 4);
    let cargo_only = check_prerequisites(&[CheckStep::Test]);
    assert_eq!(cargo_only.len(), 1);
    assert_eq!(cargo_only[0].label, "Cargo");
}

#[test]
fn feature_helpers() {
    assert_eq!(join_commas(&owned(&["a", "b", "c"])), "a,b,c");
    assert_eq!(join_commas(&Vec::new()), "");
    assert_eq!(parse_nonempty(" alpha ").as_deref(), Ok("alpha"));
    assert!(parse_nonempty("   ").is_err());
    let both = FeatureArgs { all_features: true, features: vec![], no_default_features: true };
    assert_eq!(both.cargo_args(), owned(&["--all-features", "--no-default-features"]));
}

#[test]
fn engines_and_image_commands() {
    assert_eq!(engine_candidates(ImageEngine::Auto), policy::IMAGE_AUTO_ORDER.to_vec());
    assert_eq!(engine_candidates(ImageEngine::Buildah), vec![ImageEngine::Buildah]);
    assert!(engine_probe(ImageEngine::Auto).is_err());
    let docker = engine_probe(ImageEngine::Docker).expect("docker");
    assert_eq!(docker.command.program, "docker");
    let planned = plan(policy::IMAGE_TAG.to_string());
    let build = docker_build_command(&planned);
    assert_eq!(build.program, "docker");
    assert!(build.args.contains(&"Dockerfile".to_string()));
    assert!(build.args.contains(&policy::IMAGE_TAG.to_string()));
    let build = buildah_build_command(&planned);
    assert_eq!(build.program, "buildah");
    let smoke = docker_smoke_command("n", "t", "test", &["-f", "/x"]);
    assert_eq!(smoke.args.last().map(String::as_str), Some("/x"));
    assert_eq!(
        no_engine_message(&owned(&["docker: gone", "buildah: gone"])),
        "no usable OCI engine in configured auto order:\n- docker: gone\n- buildah: gone"
    );
}

#[test]
fn coverage_reports_and_openers() {
    assert_eq!(report_relative(CoverageEngine::LlvmCov), policy::LLVM_COV_REPORT);
    assert_eq!(report_relative(CoverageEngine::Tarpaulin), policy::TARPAULIN_REPORT);
    assert_eq!(open_command(HostOs::MacOs, "r.html").program, "open");
    assert_eq!(open_command(HostOs::Other, "r.html").program, "xdg-open");
}

#[test]
fn process_messages() {
    assert_eq!(concise_output(b"  out  ", b""), "out");
    let missing = missing_program_message("trunk", "Install it.");
    assert!(missing.contains("not installed or not on PATH"));
    assert!(missing.contains("Install it."));
    let unusable = unusable_program_message("cargo", "exit status: 1", "boom", "Repair it.");
    assert!(unusable.contains("installed but unusable"));
    assert!(unusable.contains("Repair it."));
    let failed = launch_failure_message("docker", "denied", "Fix it.");
    assert!(failed.contains("denied"));
    let spec = CommandSpec::new("cargo").arg("fmt");
    assert_eq!(display(&spec), "cargo fmt");
}

#[test]
fn engine_resolution_steps() {
    let none: Vec<String> = Vec::new();
    assert!(matches!(engine_step(ImageEngine::Buildah, &none), EngineStep::Probe(ImageEngine::Buildah)));
    match engine_step(ImageEngine::Buildah, &owned(&["buildah: gone"])) {
        EngineStep::Fail(m) => assert_eq!(m, "buildah: gone"),
        EngineStep::Probe(_) => panic!("a concrete engine is probed once"),
    }
    assert!(matches!(engine_step(ImageEngine::Auto, &none), EngineStep::Probe(ImageEngine::Docker)));
    assert!(matches!(
        engine_step(ImageEngine::Auto, &owned(&["docker: gone"])),
        EngineStep::Probe(ImageEngine::Buildah)
    ));
    match engine_step(ImageEngine::Auto, &owned(&["docker: gone", "buildah: gone"])) {
        EngineStep::Fail(m) => assert_eq!(
            m,
            "no usable OCI engine in configured auto order:\n- docker: gone\n- buildah: gone"
        ),
        EngineStep::Probe(_) => panic!("the auto order is exhausted"),
    }
}

#[test]
fn buildah_tests_then_cleans_up() {
    let (steps, cleanup) = buildah_test_commands("c1", "img:t");
    assert_eq!(steps.len(), 3);
    assert_eq!(steps[0].args, owned(&["from", "--name", "c1", "img:t"]));
    assert_eq!(steps[1].args, owned(&["run", "--network", "none", "c1", "--", "trunk", "--version"]));
    assert_eq!(
        steps[2].args,
        owned(&["run", "--network", "none", "c1", "--", "test", "-f", policy::IMAGE_DIST_PATH])
    );
    assert_eq!(cleanup.args, owned(&["rm", "c1"]));
}

#[test]
fn diagnostics_collapse_whitespace() {
    assert_eq!(concise_output(b"a  b\n", b""), "a b");
    assert_eq!(concise_output(b"out", b" e\n f "), "e f");
    assert_eq!(concise_output(&[b'x'; 500], b"").chars().count(), 400);
}
