//! Local OCI image builds with Docker and Buildah.
use vstd::prelude::*;

use crate::proto::{decimal, push_decimal};
use crate::tasks::command::{extend, str_texts, texts, CommandSpec};
use crate::tasks::policy::{IMAGE_AUTO_ORDER, IMAGE_CONTEXT, IMAGE_DIST_PATH, IMAGE_FILE};
use crate::text::{owned, push_str};

verus! {

/// Supported local OCI image engines.
#[derive(Clone, Copy, Debug, PartialEq, Eq, Structural)]
pub enum ImageEngine {
    Auto,
    Docker,
    Buildah,
}

impl Default for ImageEngine {
    fn default() -> (r: Self)
        ensures
            r == ImageEngine::Auto,
    {
        ImageEngine::Auto
    }
}

pub const DOCKER_GUIDANCE: &'static str = "Follow https://docs.docker.com/engine/install/ and verify the local daemon is reachable.";

pub const BUILDAH_GUIDANCE: &'static str = "Follow https://github.com/containers/buildah/blob/main/install.md and verify its storage/runtime setup.";

/// What to build: the repository's Dockerfile and context under a tag.
#[derive(Clone, Debug, PartialEq, Eq)]
pub struct ImagePlan {
    pub file: &'static str,
    pub context: &'static str,
    pub tag: String,
}

pub fn plan(tag: String) -> (r: ImagePlan)
    ensures
        r.file@ == IMAGE_FILE@,
        r.context@ == IMAGE_CONTEXT@,
        r.tag@ == tag@,
{
    ImagePlan { file: IMAGE_FILE, context: IMAGE_CONTEXT, tag }
}

/// The engines to try, in order: the requested one, or the auto order.
pub fn engine_candidates(requested: ImageEngine) -> (r: Vec<ImageEngine>)
    ensures
        r@ == (if requested == ImageEngine::Auto {
            IMAGE_AUTO_ORDER@
        } else {
            seq![requested]
        }),
{
    let mut r: Vec<ImageEngine> = Vec::new();
    if requested != ImageEngine::Auto {
        r.push(requested);
        assert(r@ =~= seq![requested]);
        return r;
    }
    let order = IMAGE_AUTO_ORDER;
    r.push(order[0]);
    r.push(order[1]);
    assert(r@ =~= IMAGE_AUTO_ORDER@);
    r
}

/// How to check that an engine is usable.
pub struct EngineProbe {
    pub label: &'static str,
    pub command: CommandSpec,
    pub guidance: &'static str,
}

/// The probe of a concrete engine; `auto` has none.
pub fn engine_probe(engine: ImageEngine) -> (r: Result<EngineProbe, String>)
    ensures
        match r {
            Ok(p) => match engine {
                ImageEngine::Docker => p.label@ == "Docker"@ && p.command@ == (
                    "docker"@,
                    seq!["info"@, "--format"@, "{{.ServerVersion}}"@],
                ) && p.guidance@ == DOCKER_GUIDANCE@,
                ImageEngine::Buildah => p.label@ == "Buildah"@ && p.command@ == (
                    "buildah"@,
                    seq!["info"@],
                ) && p.guidance@ == BUILDAH_GUIDANCE@,
                ImageEngine::Auto => false,
            },
            Err(e) => engine == ImageEngine::Auto && e@ == "auto is not an executable engine"@,
        },
{
    match engine {
        ImageEngine::Docker => {
            let c = CommandSpec::new("docker").args(&["info", "--format", "{{.ServerVersion}}"]);
            assert(c@.1 =~= seq!["info"@, "--format"@, "{{.ServerVersion}}"@]);
            Ok(EngineProbe { label: "Docker", command: c, guidance: DOCKER_GUIDANCE })
        },
        ImageEngine::Buildah => {
            let c = CommandSpec::new("buildah").arg("info");
            assert(c@.1 =~= seq!["info"@]);
            Ok(EngineProbe { label: "Buildah", command: c, guidance: BUILDAH_GUIDANCE })
        },
        ImageEngine::Auto => Err(owned("auto is not an executable engine")),
    }
}

/// `<tool> <verb> --tag <tag> --file <file> <context>`.
pub open spec fn build_view(tool: Seq<char>, verb: Seq<char>, plan: ImagePlan) -> (Seq<char>, Seq<Seq<char>>) {
    (tool, seq![verb, "--tag"@, plan.tag@, "--file"@, plan.file@, plan.context@])
}

fn build_command(tool: &str, verb: &str, plan: &ImagePlan) -> (r: CommandSpec)
    ensures
        r@ == build_view(tool@, verb@, *plan),
{
    let c = CommandSpec::new(tool).args(&[verb, "--tag", plan.tag.as_str(), "--file", plan.file, plan.context]);
    assert(c@.1 =~= build_view(tool@, verb@, *plan).1);
    c
}

/// `docker build --tag <tag> --file <file> <context>`.
pub fn docker_build_command(plan: &ImagePlan) -> (r: CommandSpec)
    ensures
        r@ == build_view("docker"@, "build"@, *plan),
{
    build_command("docker", "build", plan)
}

/// `buildah bud --tag <tag> --file <file> <context>`.
pub fn buildah_build_command(plan: &ImagePlan) -> (r: CommandSpec)
    ensures
        r@ == build_view("buildah"@, "bud"@, *plan),
{
    build_command("buildah", "bud", plan)
}

/// A throwaway container that runs `program` in the image without network.
pub fn docker_smoke_command(name: &str, tag: &str, program: &str, args: &[&str]) -> (r: CommandSpec)
    ensures
        r@ == (
            "docker"@,
            seq![
                "run"@,
                "--name"@,
                name@,
                "--rm"@,
                "--network"@,
                "none"@,
                "--entrypoint"@,
                program@,
                tag@,
            ] + str_texts(args@),
        ),
{
    let mut c = CommandSpec::new("docker").args(
        &["run", "--name", name, "--rm", "--network", "none", "--entrypoint", program, tag],
    );
    extend(&mut c.args, args);
    c
}

/// `docker rm --force <name>`.
pub fn docker_remove_command(name: &str) -> (r: CommandSpec)
    ensures
        r@ == ("docker"@, seq!["rm"@, "--force"@, name@]),
{
    let c = CommandSpec::new("docker").args(&["rm", "--force", name]);
    assert(c@.1 =~= seq!["rm"@, "--force"@, name@]);
    c
}

/// `buildah from --name <name> <tag>`.
pub fn buildah_from_command(name: &str, tag: &str) -> (r: CommandSpec)
    ensures
        r@ == ("buildah"@, seq!["from"@, "--name"@, name@, tag@]),
{
    let c = CommandSpec::new("buildah").args(&["from", "--name", name, tag]);
    assert(c@.1 =~= seq!["from"@, "--name"@, name@, tag@]);
    c
}

/// `buildah run --network none <name> -- <program> <args>`.
pub fn buildah_run_command(name: &str, program: &str, args: &[&str]) -> (r: CommandSpec)
    ensures
        r@ == ("buildah"@, seq!["run"@, "--network"@, "none"@, name@, "--"@, program@] + str_texts(args@)),
{
    let mut c = CommandSpec::new("buildah").args(&["run", "--network", "none", name, "--", program]);
    extend(&mut c.args, args);
    c
}

/// `buildah rm <name>`.
pub fn buildah_remove_command(name: &str) -> (r: CommandSpec)
    ensures
        r@ == ("buildah"@, seq!["rm"@, name@]),
{
    let c = CommandSpec::new("buildah").args(&["rm", name]);
    assert(c@.1 =~= seq!["rm"@, name@]);
    c
}

/// A program run inside a built image to check it.
pub struct SmokeCheck {
    pub program: &'static str,
    pub args: Vec<&'static str>,
}

pub open spec fn smoke_view(c: SmokeCheck) -> (Seq<char>, Seq<Seq<char>>) {
    (c.program@, str_texts(c.args@))
}

/// The checks of a built image, in order: Trunk answers, and the static site
/// was built into the image.
pub fn smoke_checks() -> (r: Vec<SmokeCheck>)
    ensures
        r@.map_values(|c: SmokeCheck| smoke_view(c)) == seq![
            ("trunk"@, seq!["--version"@]),
            ("test"@, seq!["-f"@, IMAGE_DIST_PATH@]),
        ],
{
    let mut trunk_args: Vec<&'static str> = Vec::new();
    trunk_args.push("--version");
    let mut test_args: Vec<&'static str> = Vec::new();
    test_args.push("-f");
    test_args.push(IMAGE_DIST_PATH);
    let mut r: Vec<SmokeCheck> = Vec::new();
    r.push(SmokeCheck { program: "trunk", args: trunk_args });
    r.push(SmokeCheck { program: "test", args: test_args });
    assert(str_texts(r@[0].args@) =~= seq!["--version"@]);
    assert(str_texts(r@[1].args@) =~= seq!["-f"@, IMAGE_DIST_PATH@]);
    assert(r@.map_values(|c: SmokeCheck| smoke_view(c)) =~= seq![
        ("trunk"@, seq!["--version"@]),
        ("test"@, seq!["-f"@, IMAGE_DIST_PATH@]),
    ]);
    r
}

/// `xtask-smoke-<pid>-<millis>`.
pub fn temporary_name(pid: u32, millis: u64) -> (r: String)
    ensures
        r@ == "xtask-smoke-"@ + decimal(pid as nat) + "-"@ + decimal(millis as nat),
{
    let mut r = owned("xtask-smoke-");
    push_decimal(&mut r, pid as u64);
    push_str(&mut r, "-");
    push_decimal(&mut r, millis);
    r
}

/// The failures of the auto order, one per line under a heading.
pub open spec fn bulleted(failures: Seq<Seq<char>>) -> Seq<char>
    decreases failures.len(),
{
    if failures.len() == 0 {
        seq![]
    } else {
        bulleted(failures.drop_last()) + "\n- "@ + failures.last()
    }
}

/// `no usable OCI engine in configured auto order:` followed by `\n- <failure>` for each failure.
pub fn no_engine_message(failures: &Vec<String>) -> (r: String)
    ensures
        r@ == "no usable OCI engine in configured auto order:"@ + bulleted(texts(failures@)),
{
    let mut r = owned("no usable OCI engine in configured auto order:");
    let mut k: usize = 0;
    while k < failures.len()
        invariant
            k <= failures.len(),
            r@ == "no usable OCI engine in configured auto order:"@ + bulleted(texts(failures@).take(k as int)),
        decreases failures.len() - k,
    {
        push_str(&mut r, "\n- ");
        push_str(&mut r, failures[k].as_str());
        proof {
            let t = texts(failures@).take(k + 1);
            assert(t.drop_last() == texts(failures@).take(k as int));
        }
        k = k + 1;
    }
    assert(texts(failures@).take(failures.len() as int) == texts(failures@));
    r
}

/// What resolving an engine does next.
pub enum EngineStep {
    /// Probe this engine; if it is usable, it is the engine.
    Probe(ImageEngine),
    /// No engine is usable; the message says why.
    Fail(String),
}

/// The next step of resolving `requested`, given the failure messages of the
/// engines probed so far (each was unusable).  A concrete engine is probed
/// once and its failure is the error; `auto` probes the auto order in turn
/// and fails with every failure listed.
pub open spec fn engine_step_of(requested: ImageEngine, failures: Seq<Seq<char>>) -> Result<ImageEngine, Seq<char>> {
    if requested != ImageEngine::Auto {
        if failures.len() == 0 {
            Ok(requested)
        } else {
            Err(failures[0])
        }
    } else if failures.len() < IMAGE_AUTO_ORDER@.len() {
        Ok(IMAGE_AUTO_ORDER@[failures.len() as int])
    } else {
        Err("no usable OCI engine in configured auto order:"@ + bulleted(failures))
    }
}

pub fn engine_step(requested: ImageEngine, failures: &Vec<String>) -> (r: EngineStep)
    ensures
        match r {
            EngineStep::Probe(e) => engine_step_of(requested, texts(failures@)) == Ok::<ImageEngine, Seq<char>>(e),
            EngineStep::Fail(m) => engine_step_of(requested, texts(failures@)) == Err::<ImageEngine, Seq<char>>(m@),
        },
{
    if requested != ImageEngine::Auto {
        if failures.len() == 0 {
            return EngineStep::Probe(requested);
        }
        return EngineStep::Fail(failures[0].clone());
    }
    let order = IMAGE_AUTO_ORDER;
    if failures.len() < 2 {
        return EngineStep::Probe(order[failures.len()]);
    }
    EngineStep::Fail(no_engine_message(failures))
}

/// Resolving an engine probes at most the auto order's length of engines,
/// and only the requested engine or the auto order's engines, in order.
pub proof fn law_engine_resolution_is_bounded(requested: ImageEngine, failures: Seq<Seq<char>>)
    ensures
        failures.len() >= IMAGE_AUTO_ORDER@.len() ==> engine_step_of(requested, failures) is Err,
        engine_step_of(requested, failures) matches Ok(e) ==> e != ImageEngine::Auto && (requested
            != ImageEngine::Auto ==> e == requested),
{
}

/// The commands that test a Buildah image under a working container `name`,
/// in order (create the container, then each smoke check), and the cleanup
/// that runs after them whatever happened.
pub fn buildah_test_commands(name: &str, tag: &str) -> (r: (Vec<CommandSpec>, CommandSpec))
    ensures
        r.0@.len() == 3,
        r.0@[0]@ == ("buildah"@, seq!["from"@, "--name"@, name@, tag@]),
        r.0@[1]@ == ("buildah"@, seq!["run"@, "--network"@, "none"@, name@, "--"@, "trunk"@, "--version"@]),
        r.0@[2]@ == ("buildah"@, seq![
            "run"@,
            "--network"@,
            "none"@,
            name@,
            "--"@,
            "test"@,
            "-f"@,
            IMAGE_DIST_PATH@,
        ]),
        r.1@ == ("buildah"@, seq!["rm"@, name@]),
{
    let checks = smoke_checks();
    let mut steps: Vec<CommandSpec> = Vec::new();
    steps.push(buildah_from_command(name, tag));
    proof {
        let m = checks@.map_values(|c: SmokeCheck| smoke_view(c));
        assert(m.len() == 2);
        assert(checks@.len() == 2);
        assert(m[0] == smoke_view(checks@[0]));
        assert(m[1] == smoke_view(checks@[1]));
    }
    let trunk = buildah_run_command(name, checks[0].program, checks[0].args.as_slice());
    let test = buildah_run_command(name, checks[1].program, checks[1].args.as_slice());
    assert(trunk@.1 =~= seq!["run"@, "--network"@, "none"@, name@, "--"@, "trunk"@, "--version"@]);
    assert(test@.1 =~= seq!["run"@, "--network"@, "none"@, name@, "--"@, "test"@, "-f"@, IMAGE_DIST_PATH@]);
    steps.push(trunk);
    steps.push(test);
    (steps, buildah_remove_command(name))
}

} // verus!
