//! The build executor: folds an ordered instruction sequence into a mutable
//! build state, deciding for every instruction what filesystem or process
//! effect the caller must perform. The caller performs each returned
//! [`BuildEffect`] (pulling the base image, running the command, copying the
//! file, creating the directory) and reports a `Run` command's exit status
//! back through [`command_outcome`].

use vstd::prelude::*;
use crate::instruction::Instruction;
use crate::registry::PullError;

verus! {

/// The mutable pair a build accumulates against: the materialized image
/// root, and the working directory effects resolve against.
#[derive(Debug, Clone, PartialEq, Eq)]
pub struct BuildContext {
    pub rootfs: String,
    pub workdir: String,
}

/// The metadata a build records for the image: the default command, the
/// entrypoint, environment variables and exposed ports, persisted alongside
/// the rootfs for whoever runs the image.
#[derive(Debug, Clone, PartialEq, Eq)]
pub struct ImageConfig {
    pub cmd: Option<String>,
    pub entrypoint: Option<String>,
    pub env_vars: Vec<(String, String)>,
    pub exposed_ports: Vec<u16>,
}

/// The state one build threads through its instruction sequence: absent
/// context until the first `FromImage`, then the context plus the recorded
/// image configuration.
#[derive(Debug, PartialEq, Eq)]
pub struct BuildState {
    pub context: Option<BuildContext>,
    pub config: ImageConfig,
}

/// What the caller must do to realize one instruction.
#[derive(Debug, PartialEq, Eq)]
pub enum BuildEffect {
    /// Create `dest`, pull `image` and extract its layers into `dest`.
    PullImage { image: String, dest: String },
    /// Run `command` through a shell with `cwd` as working directory, and
    /// report its exit status through [`command_outcome`].
    RunCommand { command: String, cwd: String },
    /// Copy `src` from the invoking filesystem to the absolute `dest`,
    /// creating intermediate directories.
    CopyFile { src: String, dest: String },
    /// As `CopyFile`, for an `Add` instruction: the caller decides whether it
    /// also fetches URLs or unpacks archives, and must document its choice.
    AddFile { src: String, dest: String },
    /// Create the directory `path`; it is the new working directory.
    MakeWorkdir { path: String },
    /// The instruction's metadata was recorded in the image configuration.
    Recorded,
    /// The instruction needs a build context but no `FromImage` has run: a
    /// reported no-op, never a crash.
    ContextMissing,
}

/// Why a build aborted: the failing instruction's index and the cause.
#[derive(Debug, Clone, Copy, PartialEq, Eq, Structural)]
pub enum BuildError {
    /// A `Run` command exited non-zero.
    Command { index: usize, exit_code: i32 },
    /// Pulling the base image failed.
    Pull { index: usize, error: PullError },
}

/// Resolving `rel` against `base`: an absolute `rel` stands alone, a
/// relative one goes under `base`.
pub open spec fn spec_path_join(base: Seq<char>, rel: Seq<char>) -> Seq<char> {
    if rel.len() > 0 && rel[0] == '/' {
        rel
    } else {
        base + seq!['/'] + rel
    }
}

fn join_under(base: &str, name: &str) -> (r: String)
    ensures
        r@ == base@ + seq!['/'] + name@,
{
    let mut s = base.to_owned();
    s.append("/");
    s.append(name);
    proof {
        reveal_strlit("/");
        assert("/"@ =~= seq!['/']);
        assert(s@ =~= base@ + seq!['/'] + name@);
    }
    s
}

/// Resolve `rel` against `base`, as [`spec_path_join`] says.
pub fn path_join(base: &str, rel: &str) -> (r: String)
    ensures
        r@ == spec_path_join(base@, rel@),
{
    if rel.unicode_len() > 0 && rel.get_char(0) == '/' {
        rel.to_owned()
    } else {
        join_under(base, rel)
    }
}

/// A relative working directory resolves against the current working
/// directory, not the root: two relative `Workdir` steps compose left to
/// right.
pub proof fn lemma_workdir_composes(w: Seq<char>, a: Seq<char>, b: Seq<char>)
    requires
        a.len() == 0 || a[0] != '/',
        b.len() == 0 || b[0] != '/',
    ensures
        spec_path_join(spec_path_join(w, a), b) == w + seq!['/'] + a + seq!['/'] + b,
{
    assert(spec_path_join(spec_path_join(w, a), b) =~= w + seq!['/'] + a + seq!['/'] + b);
}

/// How one instruction changes the build state and what effect it returns.
///
/// `FromImage` is the only instruction that creates (or restarts) the
/// context: it names a fresh build directory `staging_root/id`, to be
/// populated by a pull, and points both `rootfs` and `workdir` at it. Every
/// other instruction needs a context; before one exists it leaves the state
/// alone and reports [`BuildEffect::ContextMissing`]. With a context:
/// `Run` executes in the current working directory; `Copy` and `Add` land at
/// `dest` resolved against the working directory; `Workdir` resolves against
/// the current working directory, and updates it; `Cmd`, `Env`, `Expose` and
/// `EntryPoint` record their metadata in the image configuration.
pub open spec fn build_step_post(
    pre: BuildState,
    post: BuildState,
    inst: Instruction,
    staging_root: Seq<char>,
    id: Seq<char>,
    effect: BuildEffect,
) -> bool {
    match inst {
        Instruction::FromImage(image) => {
            let dest = staging_root + seq!['/'] + id;
            &&& post.config == pre.config
            &&& (post.context matches Some(c) && c.rootfs@ == dest && c.workdir@ == dest)
            &&& (effect matches BuildEffect::PullImage { image: im, dest: d } && im == image && d@
                == dest)
        },
        Instruction::Run(command) => match pre.context {
            Some(c) => {
                &&& post == pre
                &&& (effect matches BuildEffect::RunCommand { command: cm, cwd } && cm == command
                    && cwd == c.workdir)
            },
            None => post == pre && effect == BuildEffect::ContextMissing,
        },
        Instruction::Copy { src, dest } => match pre.context {
            Some(c) => {
                &&& post == pre
                &&& (effect matches BuildEffect::CopyFile { src: s, dest: d } && s == src && d@
                    == spec_path_join(c.workdir@, dest@))
            },
            None => post == pre && effect == BuildEffect::ContextMissing,
        },
        Instruction::Cmd(command) => match pre.context {
            Some(_) => {
                &&& post.context == pre.context
                &&& post.config.cmd == Some(command)
                &&& post.config.entrypoint == pre.config.entrypoint
                &&& post.config.env_vars == pre.config.env_vars
                &&& post.config.exposed_ports == pre.config.exposed_ports
                &&& effect == BuildEffect::Recorded
            },
            None => post == pre && effect == BuildEffect::ContextMissing,
        },
        Instruction::Workdir(dir) => match pre.context {
            Some(c) => {
                &&& post.config == pre.config
                &&& (post.context matches Some(c2) && c2.rootfs == c.rootfs && c2.workdir@
                    == spec_path_join(c.workdir@, dir@))
                &&& (effect matches BuildEffect::MakeWorkdir { path } && path@ == spec_path_join(
                    c.workdir@,
                    dir@,
                ))
            },
            None => post == pre && effect == BuildEffect::ContextMissing,
        },
        Instruction::Expose(port) => match pre.context {
            Some(_) => {
                &&& post.context == pre.context
                &&& post.config.exposed_ports@ == pre.config.exposed_ports@.push(port)
                &&& post.config.cmd == pre.config.cmd
                &&& post.config.entrypoint == pre.config.entrypoint
                &&& post.config.env_vars == pre.config.env_vars
                &&& effect == BuildEffect::Recorded
            },
            None => post == pre && effect == BuildEffect::ContextMissing,
        },
        Instruction::Env { key, value } => match pre.context {
            Some(_) => {
                &&& post.context == pre.context
                &&& post.config.env_vars@ == pre.config.env_vars@.push((key, value))
                &&& post.config.cmd == pre.config.cmd
                &&& post.config.entrypoint == pre.config.entrypoint
                &&& post.config.exposed_ports == pre.config.exposed_ports
                &&& effect == BuildEffect::Recorded
            },
            None => post == pre && effect == BuildEffect::ContextMissing,
        },
        Instruction::EntryPoint(command) => match pre.context {
            Some(_) => {
                &&& post.context == pre.context
                &&& post.config.entrypoint == Some(command)
                &&& post.config.cmd == pre.config.cmd
                &&& post.config.env_vars == pre.config.env_vars
                &&& post.config.exposed_ports == pre.config.exposed_ports
                &&& effect == BuildEffect::Recorded
            },
            None => post == pre && effect == BuildEffect::ContextMissing,
        },
        Instruction::Add { src, dest } => match pre.context {
            Some(c) => {
                &&& post == pre
                &&& (effect matches BuildEffect::AddFile { src: s, dest: d } && s == src && d@
                    == spec_path_join(c.workdir@, dest@))
            },
            None => post == pre && effect == BuildEffect::ContextMissing,
        },
    }
}

impl BuildState {
    /// The state a build starts in: no context, an empty image
    /// configuration.
    pub fn new() -> (s: BuildState)
        ensures
            s.context is None,
            s.config.cmd is None,
            s.config.entrypoint is None,
            s.config.env_vars@ == Seq::<(String, String)>::empty(),
            s.config.exposed_ports@ == Seq::<u16>::empty(),
    {
        BuildState {
            context: None,
            config: ImageConfig {
                cmd: None,
                entrypoint: None,
                env_vars: Vec::new(),
                exposed_ports: Vec::new(),
            },
        }
    }
}

/// Apply one instruction to the build state, with the build identifier a
/// `FromImage` would name its fresh build directory by.
pub fn apply_instruction(
    state: &mut BuildState,
    inst: &Instruction,
    staging_root: &str,
    build_id: &str,
) -> (effect: BuildEffect)
    ensures
        build_step_post(*old(state), *final(state), *inst, staging_root@, build_id@, effect),
{
    match inst {
        Instruction::FromImage(image) => {
            let dest = join_under(staging_root, build_id);
            state.context = Some(BuildContext { rootfs: dest.clone(), workdir: dest.clone() });
            BuildEffect::PullImage { image: image.clone(), dest }
        },
        Instruction::Run(command) => match &state.context {
            Some(c) => BuildEffect::RunCommand {
                command: command.clone(),
                cwd: c.workdir.clone(),
            },
            None => BuildEffect::ContextMissing,
        },
        Instruction::Copy { src, dest } => match &state.context {
            Some(c) => BuildEffect::CopyFile {
                src: src.clone(),
                dest: path_join(c.workdir.as_str(), dest.as_str()),
            },
            None => BuildEffect::ContextMissing,
        },
        Instruction::Cmd(command) => {
            if state.context.is_some() {
                state.config.cmd = Some(command.clone());
                BuildEffect::Recorded
            } else {
                BuildEffect::ContextMissing
            }
        },
        Instruction::Workdir(dir) => {
            let current = match &state.context {
                Some(c) => Some((c.rootfs.clone(), c.workdir.clone())),
                None => None,
            };
            match current {
                Some((rootfs, workdir)) => {
                    let new_workdir = path_join(workdir.as_str(), dir.as_str());
                    state.context = Some(
                        BuildContext { rootfs, workdir: new_workdir.clone() },
                    );
                    BuildEffect::MakeWorkdir { path: new_workdir }
                },
                None => BuildEffect::ContextMissing,
            }
        },
        Instruction::Expose(port) => {
            if state.context.is_some() {
                state.config.exposed_ports.push(*port);
                BuildEffect::Recorded
            } else {
                BuildEffect::ContextMissing
            }
        },
        Instruction::Env { key, value } => {
            if state.context.is_some() {
                state.config.env_vars.push((key.clone(), value.clone()));
                BuildEffect::Recorded
            } else {
                BuildEffect::ContextMissing
            }
        },
        Instruction::EntryPoint(command) => {
            if state.context.is_some() {
                state.config.entrypoint = Some(command.clone());
                BuildEffect::Recorded
            } else {
                BuildEffect::ContextMissing
            }
        },
        Instruction::Add { src, dest } => match &state.context {
            Some(c) => BuildEffect::AddFile {
                src: src.clone(),
                dest: path_join(c.workdir.as_str(), dest.as_str()),
            },
            None => BuildEffect::ContextMissing,
        },
    }
}

/// Relies on uuid::Uuid::new_v4 (rendered through its Display form): a fresh
/// random version-4 UUID in hyphenated form, 36 characters of hexadecimal
/// digits and hyphens; in particular, never a `/`.
#[verifier::external_body]
fn new_build_id() -> (r: String)
    ensures
        r@.len() == 36,
        forall|i: int| 0 <= i < r@.len() ==> r@[i] != '/',
{
    uuid::Uuid::new_v4().to_string()
}

/// Apply one instruction, generating a fresh build identifier for a
/// `FromImage` to name its build directory by.
pub fn build_step(state: &mut BuildState, inst: &Instruction, staging_root: &str) -> (effect:
    BuildEffect)
    ensures
        exists|id: Seq<char>|
            #![auto]
            id.len() == 36 && build_step_post(
                *old(state),
                *final(state),
                *inst,
                staging_root@,
                id,
                effect,
            ),
{
    let id = new_build_id();
    let effect = apply_instruction(state, inst, staging_root, id.as_str());
    proof {
        assert(id@.len() == 36 && build_step_post(
            *old(state),
            *state,
            *inst,
            staging_root@,
            id@,
            effect,
        ));
    }
    effect
}

/// A `Run` command owes a zero exit status: a non-zero status aborts the
/// build, reporting the failing instruction's index and the code; it is
/// never ignored.
pub fn command_outcome(index: usize, exit_code: i32) -> (r: Result<(), BuildError>)
    ensures
        exit_code == 0 ==> r == Ok::<(), BuildError>(()),
        exit_code != 0 ==> r == Err::<(), BuildError>(BuildError::Command { index, exit_code }),
{
    if exit_code == 0 {
        Ok(())
    } else {
        Err(BuildError::Command { index, exit_code })
    }
}

} // verus!
