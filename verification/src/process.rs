//! The process spawner's verified core.
//!
//! Spawning is fork followed by exec: after the fork the child rewires its
//! standard streams, drops credentials, changes directory, applies the
//! environment overrides and loads the program image, in exactly that order;
//! any failure ends the child at once with the failing step's errno encoded
//! into its exit status — the only channel back to the parent. This module
//! computes the child's ordered setup plan and makes the parent's decisions;
//! the adapter around the library performs the fork and executes the plan.

use vstd::prelude::*;
use vstd::slice::slice_to_vec;

use crate::addr::{lemma_vec_u8_deep_view, COLON, DOT, SLASH};
use crate::error::{demux_status, mux_status, spec_demux, spec_mux, Error, ERRNO_TABLE_LEN};

verus! {

/// Exit status of a finished process: success is exactly status zero.
pub struct ExitStatus {
    status: usize,
}

impl ExitStatus {
    pub closed spec fn view(&self) -> int {
        self.status as int
    }

    pub fn from_raw(status: usize) -> (r: ExitStatus)
        ensures
            r@ == status as int,
    {
        ExitStatus { status }
    }

    pub fn success(&self) -> (r: bool)
        ensures
            r == (self@ == 0),
    {
        self.status == 0
    }

    pub fn code(&self) -> (r: Option<i32>)
        ensures
            r matches Some(c) && c == self@ as i32,
    {
        Some(self.status as i32)
    }
}

/// How one standard stream of the spawned process is set up: both ends of a
/// pipe, a raw descriptor to move onto the slot, the parent's own stream, or
/// a closed slot.
#[derive(Clone, Copy, PartialEq, Eq, Structural, Debug)]
pub enum StdioType {
    Piped(usize, usize),
    Raw(usize),
    Inherit,
    Null,
}

/// A stream policy for one standard slot of the child.
#[derive(Clone, Copy)]
pub struct Stdio {
    inner: StdioType,
}

impl View for Stdio {
    type V = StdioType;

    closed spec fn view(&self) -> StdioType {
        self.inner
    }
}

impl Stdio {
    /// The child shares the parent's stream.
    pub fn inherit() -> (r: Stdio)
        ensures
            r@ == StdioType::Inherit,
    {
        Stdio { inner: StdioType::Inherit }
    }

    /// The child's slot is closed.
    pub fn null() -> (r: Stdio)
        ensures
            r@ == StdioType::Null,
    {
        Stdio { inner: StdioType::Null }
    }

    /// The given descriptor is moved onto the child's slot.
    pub fn raw(fd: usize) -> (r: Stdio)
        ensures
            r@ == StdioType::Raw(fd),
    {
        Stdio { inner: StdioType::Raw(fd) }
    }

    /// A pipe's two ends, as the pipe primitive returned them.
    pub fn piped(read_fd: usize, write_fd: usize) -> (r: Stdio)
        ensures
            r@ == StdioType::Piped(read_fd, write_fd),
    {
        Stdio { inner: StdioType::Piped(read_fd, write_fd) }
    }

    /// The policy for a freshly requested pipe: its two ends when the pipe
    /// primitive delivered them, a closed slot when it failed.
    pub fn piped_or_null(fds: Result<(usize, usize), i32>) -> (r: Stdio)
        ensures
            match fds {
                Ok(p) => r@ == StdioType::Piped(p.0, p.1),
                Err(_) => r@ == StdioType::Null,
            },
    {
        match fds {
            Ok(p) => Stdio { inner: StdioType::Piped(p.0, p.1) },
            Err(_) => Stdio { inner: StdioType::Null },
        }
    }
}

/// The write end of the pipe feeding the child's standard input.
pub struct ChildStdin {
    fd: usize,
}

impl ChildStdin {
    pub closed spec fn view(&self) -> usize {
        self.fd
    }

    pub fn from_fd(fd: usize) -> (r: ChildStdin)
        ensures
            r@ == fd,
    {
        ChildStdin { fd }
    }

    pub fn fd(&self) -> (r: usize)
        ensures
            r == self@,
    {
        self.fd
    }
}

/// The read end of the pipe fed by the child's standard output.
pub struct ChildStdout {
    fd: usize,
}

impl ChildStdout {
    pub closed spec fn view(&self) -> usize {
        self.fd
    }

    pub fn from_fd(fd: usize) -> (r: ChildStdout)
        ensures
            r@ == fd,
    {
        ChildStdout { fd }
    }

    pub fn fd(&self) -> (r: usize)
        ensures
            r == self@,
    {
        self.fd
    }
}

/// The read end of the pipe fed by the child's standard error.
pub struct ChildStderr {
    fd: usize,
}

impl ChildStderr {
    pub closed spec fn view(&self) -> usize {
        self.fd
    }

    pub fn from_fd(fd: usize) -> (r: ChildStderr)
        ensures
            r@ == fd,
    {
        ChildStderr { fd }
    }

    pub fn fd(&self) -> (r: usize)
        ensures
            r == self@,
    {
        self.fd
    }
}

/// The mathematical value of a spawned child: its pid and the descriptors of
/// the streams the parent retained.
#[verifier::ext_equal]
pub struct ChildV {
    pub pid: usize,
    pub stdin: Option<usize>,
    pub stdout: Option<usize>,
    pub stderr: Option<usize>,
}

/// A successfully spawned process: its pid and the parent's ends of the
/// pipes that were requested.
pub struct Child {
    pid: usize,
    pub stdin: Option<ChildStdin>,
    pub stdout: Option<ChildStdout>,
    pub stderr: Option<ChildStderr>,
}

impl View for Child {
    type V = ChildV;

    closed spec fn view(&self) -> ChildV {
        ChildV {
            pid: self.pid,
            stdin: match self.stdin {
                Some(s) => Some(s@),
                None => None,
            },
            stdout: match self.stdout {
                Some(s) => Some(s@),
                None => None,
            },
            stderr: match self.stderr {
                Some(s) => Some(s@),
                None => None,
            },
        }
    }
}

impl Child {
    pub fn id(&self) -> (r: u32)
        ensures
            r == self@.pid as u32,
    {
        self.pid as u32
    }
}

/// One environment override.
pub struct EnvVar {
    pub key: Vec<u8>,
    pub val: Vec<u8>,
}

impl View for EnvVar {
    type V = (Seq<u8>, Seq<u8>);

    open spec fn view(&self) -> (Seq<u8>, Seq<u8>) {
        (self.key@, self.val@)
    }
}

impl DeepView for EnvVar {
    type V = (Seq<u8>, Seq<u8>);

    open spec fn deep_view(&self) -> (Seq<u8>, Seq<u8>) {
        self@
    }
}

/// The mathematical value of a command under construction.
#[verifier::ext_equal]
pub struct CommandV {
    pub path: Seq<u8>,
    pub args: Seq<Seq<u8>>,
    pub uid: Option<u32>,
    pub gid: Option<u32>,
    pub dir: Option<Seq<u8>>,
    pub env: Seq<(Seq<u8>, Seq<u8>)>,
    pub stdin: StdioType,
    pub stdout: StdioType,
    pub stderr: StdioType,
}

/// A command under construction: program path, arguments, optional
/// credentials and working directory, environment overrides with unique
/// keys, and a stream policy per standard slot, all defaulting to Inherit.
pub struct Command {
    path: Vec<u8>,
    args: Vec<Vec<u8>>,
    uid: Option<u32>,
    gid: Option<u32>,
    dir: Option<Vec<u8>>,
    env: Vec<EnvVar>,
    stdin: Stdio,
    stdout: Stdio,
    stderr: Stdio,
}

impl View for Command {
    type V = CommandV;

    closed spec fn view(&self) -> CommandV {
        CommandV {
            path: self.path@,
            args: self.args.deep_view(),
            uid: self.uid,
            gid: self.gid,
            dir: match self.dir {
                Some(ref d) => Some(d@),
                None => None,
            },
            env: self.env.deep_view(),
            stdin: self.stdin@,
            stdout: self.stdout@,
            stderr: self.stderr@,
        }
    }
}

/// The environment overrides hold each key once.
pub open spec fn spec_env_wf(env: Seq<(Seq<u8>, Seq<u8>)>) -> bool {
    forall|i: int, j: int|
        0 <= i < j < env.len() ==> (#[trigger] env[i]).0 != (#[trigger] env[j]).0
}

/// Position of `key` among the overrides, or their count when it is absent.
pub open spec fn spec_env_index(env: Seq<(Seq<u8>, Seq<u8>)>, key: Seq<u8>) -> int
    decreases env.len(),
{
    if env.len() == 0 {
        0
    } else if env[0].0 == key {
        0
    } else {
        1 + spec_env_index(env.skip(1), key)
    }
}

pub proof fn lemma_env_index(env: Seq<(Seq<u8>, Seq<u8>)>, key: Seq<u8>)
    ensures
        0 <= spec_env_index(env, key) <= env.len(),
        spec_env_index(env, key) < env.len() ==> env[spec_env_index(env, key)].0 == key,
        forall|j: int| 0 <= j < spec_env_index(env, key) ==> (#[trigger] env[j]).0 != key,
    decreases env.len(),
{
    if env.len() == 0 {
    } else if env[0].0 == key {
    } else {
        lemma_env_index(env.skip(1), key);
        let p = spec_env_index(env, key);
        assert forall|j: int| 0 <= j < p implies (#[trigger] env[j]).0 != key by {
            if j >= 1 {
                assert(env.skip(1)[j - 1] == env[j]);
            }
        }
    }
}

/// Setting a key that is present replaces its value in place; a new key is
/// appended.
pub open spec fn spec_env_insert(
    env: Seq<(Seq<u8>, Seq<u8>)>,
    key: Seq<u8>,
    val: Seq<u8>,
) -> Seq<(Seq<u8>, Seq<u8>)> {
    let i = spec_env_index(env, key);
    if 0 <= i < env.len() {
        env.update(i, (key, val))
    } else {
        env.push((key, val))
    }
}

/// Inserting an override keeps the keys unique.
pub proof fn lemma_env_insert_wf(env: Seq<(Seq<u8>, Seq<u8>)>, key: Seq<u8>, val: Seq<u8>)
    requires
        spec_env_wf(env),
    ensures
        spec_env_wf(spec_env_insert(env, key, val)),
{
    lemma_env_index(env, key);
    let p = spec_env_index(env, key);
    let out = spec_env_insert(env, key, val);
    if 0 <= p < env.len() {
        assert forall|i: int, j: int| 0 <= i < j < out.len() implies (#[trigger] out[i]).0 != (
        #[trigger] out[j]).0 by {
            assert(env[p].0 == key);
        }
    } else {
        assert forall|i: int, j: int| 0 <= i < j < out.len() implies (#[trigger] out[i]).0 != (
        #[trigger] out[j]).0 by {
            if j == env.len() {
                assert(out[i] == env[i]);
            }
        }
    }
}

/// Compare two byte strings.
pub fn bytes_eq(a: &[u8], b: &[u8]) -> (r: bool)
    ensures
        r == (a@ == b@),
{
    if a.len() != b.len() {
        return false;
    }
    let mut i: usize = 0;
    while i < a.len()
        invariant
            0 <= i <= a@.len(),
            a@.len() == b@.len(),
            forall|j: int| 0 <= j < i ==> a@[j] == b@[j],
        decreases a@.len() - i,
    {
        if a[i] != b[i] {
            return false;
        }
        i = i + 1;
    }
    proof {
        assert(a@ =~= b@);
    }
    true
}

impl Command {
    /// Start building a command for the program at `path`: no arguments, no
    /// credential or directory change, no overrides, every stream inherited.
    pub fn new(path: &[u8]) -> (r: Command)
        ensures
            r@ == (CommandV {
                path: path@,
                args: Seq::empty(),
                uid: None,
                gid: None,
                dir: None,
                env: Seq::empty(),
                stdin: StdioType::Inherit,
                stdout: StdioType::Inherit,
                stderr: StdioType::Inherit,
            }),
            spec_env_wf(r@.env),
    {
        let r = Command {
            path: slice_to_vec(path),
            args: Vec::new(),
            uid: None,
            gid: None,
            dir: None,
            env: Vec::new(),
            stdin: Stdio::inherit(),
            stdout: Stdio::inherit(),
            stderr: Stdio::inherit(),
        };
        proof {
            assert(r@ =~= (CommandV {
                path: path@,
                args: Seq::empty(),
                uid: None,
                gid: None,
                dir: None,
                env: Seq::empty(),
                stdin: StdioType::Inherit,
                stdout: StdioType::Inherit,
                stderr: StdioType::Inherit,
            }));
        }
        r
    }

    /// Append one argument.
    pub fn arg(&mut self, arg: &[u8])
        ensures
            final(self)@ == (CommandV { args: old(self)@.args.push(arg@), ..old(self)@ }),
    {
        let ghost pre = self@;
        let ghost pre_args = self.args@;
        self.args.push(slice_to_vec(arg));
        proof {
            assert forall|k: int| 0 <= k < self.args@.len() implies self.args.deep_view()[k]
                == pre.args.push(arg@)[k] by {
                if k < pre_args.len() {
                    assert(self.args@[k] == pre_args[k]);
                }
            }
            assert(self@.args =~= pre.args.push(arg@));
            assert(self@ =~= (CommandV { args: pre.args.push(arg@), ..pre }));
        }
    }

    /// Run under this user id.
    pub fn uid(&mut self, id: u32)
        ensures
            final(self)@ == (CommandV { uid: Some(id), ..old(self)@ }),
    {
        self.uid = Some(id);
        proof {
            assert(self@ =~= (CommandV { uid: Some(id), ..old(self)@ }));
        }
    }

    /// Run under this group id.
    pub fn gid(&mut self, id: u32)
        ensures
            final(self)@ == (CommandV { gid: Some(id), ..old(self)@ }),
    {
        self.gid = Some(id);
        proof {
            assert(self@ =~= (CommandV { gid: Some(id), ..old(self)@ }));
        }
    }

    /// Run in this working directory.
    pub fn current_dir(&mut self, dir: &[u8])
        ensures
            final(self)@ == (CommandV { dir: Some(dir@), ..old(self)@ }),
    {
        self.dir = Some(slice_to_vec(dir));
        proof {
            assert(self@ =~= (CommandV { dir: Some(dir@), ..old(self)@ }));
        }
    }

    /// Set one environment override; a key already present keeps its place
    /// and takes the new value.
    pub fn env(&mut self, key: &[u8], val: &[u8])
        requires
            spec_env_wf(old(self)@.env),
        ensures
            final(self)@ == (CommandV {
                env: spec_env_insert(old(self)@.env, key@, val@),
                ..old(self)@
            }),
            spec_env_wf(final(self)@.env),
    {
        proof {
            lemma_env_index(self@.env, key@);
            lemma_env_insert_wf(self@.env, key@, val@);
        }
        let ghost pre = self@;
        let ghost pre_env = self.env@;
        let mut i: usize = 0;
        while i < self.env.len()
            invariant
                0 <= i <= self.env@.len(),
                *self == *old(self),
                pre == self@,
                pre_env == self.env@,
                spec_env_wf(pre.env),
                forall|j: int| 0 <= j < i ==> (#[trigger] self@.env[j]).0 != key@,
            decreases self.env@.len() - i,
        {
            proof {
                assert(self@.env[i as int] == self.env@[i as int]@);
            }
            if bytes_eq(self.env[i].key.as_slice(), key) {
                proof {
                    lemma_env_index(pre.env, key@);
                    lemma_env_insert_wf(pre.env, key@, val@);
                    assert(spec_env_index(pre.env, key@) == i as int);
                }
                self.env[i] = EnvVar { key: slice_to_vec(key), val: slice_to_vec(val) };
                proof {
                    assert forall|k: int| 0 <= k < self.env@.len() implies self.env.deep_view()[k]
                        == pre.env.update(i as int, (key@, val@))[k] by {
                        if k != i as int {
                            assert(self.env@[k] == pre_env[k]);
                        }
                    }
                    assert(self@.env =~= spec_env_insert(pre.env, key@, val@));
                    assert(self@ =~= (CommandV {
                        env: spec_env_insert(pre.env, key@, val@),
                        ..pre
                    }));
                }
                return ;
            }
            i = i + 1;
        }
        proof {
            lemma_env_index(pre.env, key@);
            lemma_env_insert_wf(pre.env, key@, val@);
            if spec_env_index(pre.env, key@) < pre.env.len() {
                assert(pre.env[spec_env_index(pre.env, key@)].0 == key@);
            }
            assert(spec_env_index(pre.env, key@) == pre.env.len());
        }
        self.env.push(EnvVar { key: slice_to_vec(key), val: slice_to_vec(val) });
        proof {
            assert forall|k: int| 0 <= k < self.env@.len() implies self.env.deep_view()[k]
                == pre.env.push((key@, val@))[k] by {
                if k < pre_env.len() {
                    assert(self.env@[k] == pre_env[k]);
                }
            }
            assert(self@.env =~= spec_env_insert(pre.env, key@, val@));
            assert(self@ =~= (CommandV { env: spec_env_insert(pre.env, key@, val@), ..pre }));
        }
    }

    /// Set the policy for the child's standard input.
    pub fn stdin(&mut self, cfg: Stdio)
        ensures
            final(self)@ == (CommandV { stdin: cfg@, ..old(self)@ }),
    {
        self.stdin = cfg;
        proof {
            assert(self@ =~= (CommandV { stdin: cfg@, ..old(self)@ }));
        }
    }

    /// Set the policy for the child's standard output.
    pub fn stdout(&mut self, cfg: Stdio)
        ensures
            final(self)@ == (CommandV { stdout: cfg@, ..old(self)@ }),
    {
        self.stdout = cfg;
        proof {
            assert(self@ =~= (CommandV { stdout: cfg@, ..old(self)@ }));
        }
    }

    /// Set the policy for the child's standard error.
    pub fn stderr(&mut self, cfg: Stdio)
        ensures
            final(self)@ == (CommandV { stderr: cfg@, ..old(self)@ }),
    {
        self.stderr = cfg;
        proof {
            assert(self@ =~= (CommandV { stderr: cfg@, ..old(self)@ }));
        }
    }
}

/// A path that names its scheme or a directory is used verbatim.
pub open spec fn spec_qualified(path: Seq<u8>) -> bool {
    path.contains(COLON) || path.contains(SLASH)
}

pub open spec fn spec_opt_bytes(o: Option<Vec<u8>>) -> Option<Seq<u8>> {
    match o {
        Some(v) => Some(v@),
        None => None,
    }
}

/// The program image the spawner will load: a qualified path verbatim; a
/// bare name appended to the PATH value — or to `.` when PATH is absent or
/// empty — with a slash between them unless one is already there.
pub open spec fn spec_resolved_path(path: Seq<u8>, path_var: Option<Seq<u8>>) -> Seq<u8> {
    if spec_qualified(path) {
        path
    } else {
        let base = match path_var {
            Some(v) => if v.len() > 0 {
                v
            } else {
                seq![DOT]
            },
            None => seq![DOT],
        };
        if base.last() == SLASH {
            base + path
        } else {
            base + seq![SLASH] + path
        }
    }
}

/// Whether `b` occurs in `s`.
pub fn bytes_contains(s: &[u8], b: u8) -> (r: bool)
    ensures
        r == s@.contains(b),
{
    let mut i: usize = 0;
    while i < s.len()
        invariant
            0 <= i <= s@.len(),
            forall|j: int| 0 <= j < i ==> s@[j] != b,
        decreases s@.len() - i,
    {
        if s[i] == b {
            return true;
        }
        i = i + 1;
    }
    false
}

/// Resolve the program image path against the PATH environment value.
pub fn resolve_image_path(path: &[u8], path_var: &Option<Vec<u8>>) -> (r: Vec<u8>)
    ensures
        r@ == spec_resolved_path(path@, spec_opt_bytes(*path_var)),
{
    if bytes_contains(path, COLON) || bytes_contains(path, SLASH) {
        return slice_to_vec(path);
    }
    let mut base: Vec<u8> = match path_var {
        Some(v) => {
            if v.len() > 0 {
                slice_to_vec(v.as_slice())
            } else {
                let mut d: Vec<u8> = Vec::new();
                d.push(DOT);
                d
            }
        },
        None => {
            let mut d: Vec<u8> = Vec::new();
            d.push(DOT);
            d
        },
    };
    let ghost basev = base@;
    if base[base.len() - 1] != SLASH {
        base.push(SLASH);
    }
    let mut out = base;
    let mut rest = slice_to_vec(path);
    out.append(&mut rest);
    proof {
        assert(basev.last() == basev[basev.len() - 1]);
        assert(out@ =~= spec_resolved_path(path@, spec_opt_bytes(*path_var)));
    }
    out
}

/// One step of the child's setup, executed in plan order before the program
/// image is loaded.
pub enum SetupStep {
    /// Close this descriptor.
    Close(usize),
    /// Duplicate this descriptor; the kernel hands out the lowest free slot,
    /// which the plan has just vacated.
    Dup(usize),
    /// Change the group id.
    SetGid(u32),
    /// Change the user id.
    SetUid(u32),
    /// Change the working directory.
    Chdir(Vec<u8>),
    /// Write one environment override through the named-slot mechanism.
    SetEnv(Vec<u8>, Vec<u8>),
    /// Load the program image with this argv; never returns on success.
    Exec(Vec<u8>, Vec<Vec<u8>>),
}

/// The mathematical value of a setup step.
#[verifier::ext_equal]
pub enum StepV {
    Close(usize),
    Dup(usize),
    SetGid(u32),
    SetUid(u32),
    Chdir(Seq<u8>),
    SetEnv(Seq<u8>, Seq<u8>),
    Exec(Seq<u8>, Seq<Seq<u8>>),
}

impl View for SetupStep {
    type V = StepV;

    open spec fn view(&self) -> StepV {
        match self {
            SetupStep::Close(fd) => StepV::Close(*fd),
            SetupStep::Dup(fd) => StepV::Dup(*fd),
            SetupStep::SetGid(g) => StepV::SetGid(*g),
            SetupStep::SetUid(u) => StepV::SetUid(*u),
            SetupStep::Chdir(d) => StepV::Chdir(d@),
            SetupStep::SetEnv(k, v) => StepV::SetEnv(k@, v@),
            SetupStep::Exec(p, argv) => StepV::Exec(p@, argv.deep_view()),
        }
    }
}

impl DeepView for SetupStep {
    type V = StepV;

    open spec fn deep_view(&self) -> StepV {
        self@
    }
}

/// The steps that rewire one standard slot: a pipe loses its parent-side
/// end, then the slot is vacated, the child's end is duplicated onto it and
/// the original closed; a raw descriptor is moved onto the slot the same
/// way; Null only closes the slot; Inherit touches nothing.
pub open spec fn spec_stdio_steps(s: StdioType, slot: usize) -> Seq<StepV> {
    match s {
        StdioType::Piped(r, w) => if slot == 0 {
            seq![StepV::Close(w), StepV::Close(slot), StepV::Dup(r), StepV::Close(r)]
        } else {
            seq![StepV::Close(r), StepV::Close(slot), StepV::Dup(w), StepV::Close(w)]
        },
        StdioType::Raw(fd) => seq![StepV::Close(slot), StepV::Dup(fd), StepV::Close(fd)],
        StdioType::Null => seq![StepV::Close(slot)],
        StdioType::Inherit => seq![],
    }
}

/// The credential steps: the group changes before the user, because
/// dropping user privilege first could forbid the group change.
pub open spec fn spec_cred_steps(gid: Option<u32>, uid: Option<u32>) -> Seq<StepV> {
    (match gid {
        Some(g) => seq![StepV::SetGid(g)],
        None => Seq::empty(),
    }) + (match uid {
        Some(u) => seq![StepV::SetUid(u)],
        None => Seq::empty(),
    })
}

pub open spec fn spec_dir_steps(dir: Option<Seq<u8>>) -> Seq<StepV> {
    match dir {
        Some(d) => seq![StepV::Chdir(d)],
        None => Seq::empty(),
    }
}

/// One step per environment override, in override order.
pub open spec fn spec_env_steps(env: Seq<(Seq<u8>, Seq<u8>)>) -> Seq<StepV>
    decreases env.len(),
{
    if env.len() == 0 {
        Seq::empty()
    } else {
        seq![StepV::SetEnv(env[0].0, env[0].1)] + spec_env_steps(env.skip(1))
    }
}

/// The argv handed to exec: the resolved path first, then the arguments.
pub open spec fn spec_argv(c: CommandV, resolved: Seq<u8>) -> Seq<Seq<u8>> {
    seq![resolved] + c.args
}

/// The child's whole plan, in the fixed order: stderr, stdout and stdin
/// rewiring; group then user credentials; working directory; every
/// environment override; finally exec. Stream rewiring completes before any
/// later step, so no later failure can corrupt where errors are reported;
/// once stderr is redirected, later failures are silent to the original
/// caller's terminal.
pub open spec fn spec_setup_plan(c: CommandV, resolved: Seq<u8>) -> Seq<StepV> {
    spec_stdio_steps(c.stderr, 2) + spec_stdio_steps(c.stdout, 1) + spec_stdio_steps(c.stdin, 0)
        + spec_cred_steps(c.gid, c.uid) + spec_dir_steps(c.dir) + spec_env_steps(c.env) + seq![
        StepV::Exec(resolved, spec_argv(c, resolved)),
    ]
}

fn push_step(plan: &mut Vec<SetupStep>, s: SetupStep)
    ensures
        final(plan).deep_view() == old(plan).deep_view().push(s@),
{
    let ghost pre_dv = plan.deep_view();
    let ghost pre_vs = plan@;
    let ghost sv = s@;
    plan.push(s);
    proof {
        assert forall|k: int| 0 <= k < plan@.len() implies plan.deep_view()[k] == pre_dv.push(
            sv,
        )[k] by {
            if k < pre_vs.len() {
                assert(plan@[k] == pre_vs[k]);
            }
        }
        assert(plan.deep_view() =~= pre_dv.push(sv));
    }
}

fn push_stdio_steps(plan: &mut Vec<SetupStep>, s: &Stdio, slot: usize)
    ensures
        final(plan).deep_view() == old(plan).deep_view() + spec_stdio_steps(s@, slot),
{
    let ghost pre = plan.deep_view();
    match s.inner {
        StdioType::Piped(r, w) => {
            if slot == 0 {
                push_step(plan, SetupStep::Close(w));
                push_step(plan, SetupStep::Close(slot));
                push_step(plan, SetupStep::Dup(r));
                push_step(plan, SetupStep::Close(r));
            } else {
                push_step(plan, SetupStep::Close(r));
                push_step(plan, SetupStep::Close(slot));
                push_step(plan, SetupStep::Dup(w));
                push_step(plan, SetupStep::Close(w));
            }
        },
        StdioType::Raw(fd) => {
            push_step(plan, SetupStep::Close(slot));
            push_step(plan, SetupStep::Dup(fd));
            push_step(plan, SetupStep::Close(fd));
        },
        StdioType::Null => {
            push_step(plan, SetupStep::Close(slot));
        },
        StdioType::Inherit => {},
    }
    proof {
        assert(plan.deep_view() =~= pre + spec_stdio_steps(s@, slot));
    }
}

proof fn lemma_env_steps_snoc(env: Seq<(Seq<u8>, Seq<u8>)>, i: int)
    requires
        0 <= i < env.len(),
    ensures
        spec_env_steps(env.take(i + 1)) == spec_env_steps(env.take(i)).push(
            StepV::SetEnv(env[i].0, env[i].1),
        ),
    decreases i,
{
    if i == 0 {
        assert(env.take(0) =~= Seq::<(Seq<u8>, Seq<u8>)>::empty());
        assert(env.take(1) =~= seq![env[0]]);
        assert(env.take(1).skip(1) =~= Seq::<(Seq<u8>, Seq<u8>)>::empty());
        assert(spec_env_steps(Seq::<(Seq<u8>, Seq<u8>)>::empty()) == Seq::<StepV>::empty());
        assert(env.take(1)[0] == env[0]);
        assert(spec_env_steps(env.take(1)) =~= spec_env_steps(env.take(0)).push(
            StepV::SetEnv(env[0].0, env[0].1),
        ));
    } else {
        lemma_env_steps_snoc(env.skip(1), i - 1);
        assert(env.take(i + 1).skip(1) =~= env.skip(1).take(i));
        assert(env.take(i).skip(1) =~= env.skip(1).take(i - 1));
        assert(env.take(i + 1)[0] == env[0]);
        assert(env.take(i)[0] == env[0]);
        assert(env.skip(1)[i - 1] == env[i]);
        assert(spec_env_steps(env.take(i + 1)) =~= spec_env_steps(env.take(i)).push(
            StepV::SetEnv(env[i].0, env[i].1),
        ));
    }
}

impl Command {
    /// The child's ordered setup plan for this command. `path_var` is the
    /// PATH environment value, if any, used to qualify a bare program name.
    pub fn setup_plan(&self, path_var: &Option<Vec<u8>>) -> (plan: Vec<SetupStep>)
        ensures
            plan.deep_view() == spec_setup_plan(
                self@,
                spec_resolved_path(self@.path, spec_opt_bytes(*path_var)),
            ),
    {
        let resolved = resolve_image_path(self.path.as_slice(), path_var);
        let ghost rv = resolved@;
        let mut plan: Vec<SetupStep> = Vec::new();
        proof {
            assert(plan.deep_view() =~= Seq::<StepV>::empty());
        }
        push_stdio_steps(&mut plan, &self.stderr, 2);
        push_stdio_steps(&mut plan, &self.stdout, 1);
        push_stdio_steps(&mut plan, &self.stdin, 0);
        let ghost after_stdio = plan.deep_view();
        if let Some(g) = self.gid {
            push_step(&mut plan, SetupStep::SetGid(g));
        }
        if let Some(u) = self.uid {
            push_step(&mut plan, SetupStep::SetUid(u));
        }
        proof {
            assert(plan.deep_view() =~= after_stdio + spec_cred_steps(self@.gid, self@.uid));
        }
        let ghost after_cred = plan.deep_view();
        if let Some(d) = &self.dir {
            push_step(&mut plan, SetupStep::Chdir(slice_to_vec(d.as_slice())));
        }
        proof {
            assert(plan.deep_view() =~= after_cred + spec_dir_steps(self@.dir));
        }
        let ghost after_dir = plan.deep_view();
        let mut i: usize = 0;
        proof {
            assert(self@.env.take(0) =~= Seq::<(Seq<u8>, Seq<u8>)>::empty());
            assert(plan.deep_view() =~= after_dir + spec_env_steps(self@.env.take(0)));
        }
        while i < self.env.len()
            invariant
                0 <= i <= self.env@.len(),
                self@ == View::view(self),
                self@.env.len() == self.env@.len(),
                plan.deep_view() == after_dir + spec_env_steps(self@.env.take(i as int)),
            decreases self.env@.len() - i,
        {
            proof {
                assert(self@.env[i as int] == self.env@[i as int]@);
            }
            push_step(
                &mut plan,
                SetupStep::SetEnv(
                    slice_to_vec(self.env[i].key.as_slice()),
                    slice_to_vec(self.env[i].val.as_slice()),
                ),
            );
            proof {
                lemma_env_steps_snoc(self@.env, i as int);
                assert(plan.deep_view() =~= after_dir + spec_env_steps(
                    self@.env.take(i as int + 1),
                ));
            }
            i = i + 1;
        }
        proof {
            assert(self@.env.take(self.env@.len() as int) =~= self@.env);
        }
        let mut argv: Vec<Vec<u8>> = Vec::new();
        argv.push(slice_to_vec(resolved.as_slice()));
        proof {
            lemma_vec_u8_deep_view(argv@[0]);
            assert(argv.deep_view()[0] == argv@[0].deep_view());
            assert(argv.deep_view() =~= seq![rv]);
        }
        let mut j: usize = 0;
        proof {
            assert(self@.args.take(0) =~= Seq::<Seq<u8>>::empty());
            assert(argv.deep_view() =~= seq![rv] + self@.args.take(0));
        }
        while j < self.args.len()
            invariant
                0 <= j <= self.args@.len(),
                self@ == View::view(self),
                self@.args.len() == self.args@.len(),
                argv.deep_view() == seq![rv] + self@.args.take(j as int),
            decreases self.args@.len() - j,
        {
            proof {
                assert(self@.args[j as int] == self.args@[j as int]@);
            }
            let ghost argv_dv = argv.deep_view();
            let ghost argv_vs = argv@;
            argv.push(slice_to_vec(self.args[j].as_slice()));
            proof {
                assert forall|k: int| 0 <= k < argv@.len() implies argv.deep_view()[k]
                    == argv_dv.push(self@.args[j as int])[k] by {
                    if k < argv_vs.len() {
                        assert(argv@[k] == argv_vs[k]);
                    } else {
                        lemma_vec_u8_deep_view(argv@[k]);
                        lemma_vec_u8_deep_view(self.args@[j as int]);
                    }
                }
                assert((seq![rv] + self@.args.take(j as int)).push(self@.args[j as int]) =~= seq![
                    rv,
                ] + self@.args.take(j as int + 1));
                assert(argv.deep_view() =~= seq![rv] + self@.args.take(j as int + 1));
            }
            j = j + 1;
        }
        proof {
            assert(self@.args.take(self.args@.len() as int) =~= self@.args);
            assert(argv.deep_view() =~= spec_argv(self@, rv));
        }
        push_step(&mut plan, SetupStep::Exec(resolved, argv));
        proof {
            assert(plan.deep_view() =~= spec_setup_plan(
                self@,
                spec_resolved_path(self@.path, spec_opt_bytes(*path_var)),
            ));
        }
        plan
    }
}

/// The descriptor the parent keeps as its stream for a slot: the write end
/// of the child's input pipe, the read end of an output or error pipe.
pub open spec fn spec_parent_stream(s: StdioType, slot: usize) -> Option<usize> {
    match s {
        StdioType::Piped(r, w) => if slot == 0 {
            Some(w)
        } else {
            Some(r)
        },
        _ => None,
    }
}

/// What the parent closes for a slot after a successful spawn: the pipe end
/// that belongs to the child, or a raw descriptor it was handed.
pub open spec fn spec_parent_closes_on_success(s: StdioType, slot: usize) -> Seq<usize> {
    match s {
        StdioType::Piped(r, w) => if slot == 0 {
            seq![r]
        } else {
            seq![w]
        },
        StdioType::Raw(fd) => seq![fd],
        _ => Seq::empty(),
    }
}

/// What the parent closes for a slot when the spawn failed: both pipe ends,
/// or the raw descriptor.
pub open spec fn spec_parent_closes_on_failure(s: StdioType, slot: usize) -> Seq<usize> {
    match s {
        StdioType::Piped(r, w) => if slot == 0 {
            seq![r, w]
        } else {
            seq![w, r]
        },
        StdioType::Raw(fd) => seq![fd],
        _ => Seq::empty(),
    }
}

/// The parent's verdict right after its first non-blocking wait.
pub enum SpawnOutcome {
    /// The child was already gone: its exit status decoded to an errno, so a
    /// setup step failed before the image loaded. The parent must close
    /// every listed descriptor; there is no child handle.
    Failed { error: Error, close_fds: Vec<usize> },
    /// The child runs. The parent closes the listed descriptors (the
    /// child's pipe ends and any raw descriptors) and keeps the streams on
    /// the handle.
    Spawned { child: Child, close_fds: Vec<usize> },
}

impl Command {
    /// Decide what a spawn came to, from the status of the first
    /// non-blocking wait on the child. A status carrying an encoded errno
    /// means a setup step failed: the spawn is reported as
    /// `SpawnSetupFailed` with that errno — never as a live child — and
    /// every pipe end and raw descriptor still owned by the parent is listed
    /// for closing. Any other status means the child runs: the parent keeps
    /// exactly one end of each pipe as the matching stream and closes the
    /// other.
    pub fn poll_spawn(&self, pid: usize, status: usize) -> (r: SpawnOutcome)
        requires
            status as int % 0x1_0000_0000 != 0x8000_0000,
        ensures
            match spec_demux(status) {
                Err(e) => r matches SpawnOutcome::Failed { error, close_fds } && error
                    == Error::SpawnSetupFailed(e) && close_fds@ == spec_parent_closes_on_failure(
                    self@.stdin,
                    0,
                ) + spec_parent_closes_on_failure(self@.stdout, 1)
                    + spec_parent_closes_on_failure(self@.stderr, 2),
                Ok(_) => r matches SpawnOutcome::Spawned { child, close_fds } && child@ == (ChildV {
                    pid,
                    stdin: spec_parent_stream(self@.stdin, 0),
                    stdout: spec_parent_stream(self@.stdout, 1),
                    stderr: spec_parent_stream(self@.stderr, 2),
                }) && close_fds@ == spec_parent_closes_on_success(self@.stdin, 0)
                    + spec_parent_closes_on_success(self@.stdout, 1)
                    + spec_parent_closes_on_success(self@.stderr, 2),
            },
    {
        match demux_status(status) {
            Err(e) => {
                let mut close_fds: Vec<usize> = Vec::new();
                match self.stdin.inner {
                    StdioType::Piped(r, w) => {
                        close_fds.push(r);
                        close_fds.push(w);
                    },
                    StdioType::Raw(fd) => {
                        close_fds.push(fd);
                    },
                    _ => {},
                }
                match self.stdout.inner {
                    StdioType::Piped(r, w) => {
                        close_fds.push(w);
                        close_fds.push(r);
                    },
                    StdioType::Raw(fd) => {
                        close_fds.push(fd);
                    },
                    _ => {},
                }
                match self.stderr.inner {
                    StdioType::Piped(r, w) => {
                        close_fds.push(w);
                        close_fds.push(r);
                    },
                    StdioType::Raw(fd) => {
                        close_fds.push(fd);
                    },
                    _ => {},
                }
                proof {
                    assert(close_fds@ =~= spec_parent_closes_on_failure(self@.stdin, 0)
                        + spec_parent_closes_on_failure(self@.stdout, 1)
                        + spec_parent_closes_on_failure(self@.stderr, 2));
                }
                SpawnOutcome::Failed { error: Error::SpawnSetupFailed(e), close_fds }
            },
            Ok(_) => {
                let mut close_fds: Vec<usize> = Vec::new();
                let stdin = match self.stdin.inner {
                    StdioType::Piped(r, w) => {
                        close_fds.push(r);
                        Some(ChildStdin::from_fd(w))
                    },
                    StdioType::Raw(fd) => {
                        close_fds.push(fd);
                        None
                    },
                    _ => None,
                };
                let stdout = match self.stdout.inner {
                    StdioType::Piped(r, w) => {
                        close_fds.push(w);
                        Some(ChildStdout::from_fd(r))
                    },
                    StdioType::Raw(fd) => {
                        close_fds.push(fd);
                        None
                    },
                    _ => None,
                };
                let stderr = match self.stderr.inner {
                    StdioType::Piped(r, w) => {
                        close_fds.push(w);
                        Some(ChildStderr::from_fd(r))
                    },
                    StdioType::Raw(fd) => {
                        close_fds.push(fd);
                        None
                    },
                    _ => None,
                };
                proof {
                    assert(close_fds@ =~= spec_parent_closes_on_success(self@.stdin, 0)
                        + spec_parent_closes_on_success(self@.stdout, 1)
                        + spec_parent_closes_on_success(self@.stderr, 2));
                }
                let child = Child { pid, stdin, stdout, stderr };
                proof {
                    assert(child@ =~= (ChildV {
                        pid,
                        stdin: spec_parent_stream(self@.stdin, 0),
                        stdout: spec_parent_stream(self@.stdout, 1),
                        stderr: spec_parent_stream(self@.stderr, 2),
                    }));
                }
                SpawnOutcome::Spawned { child, close_fds }
            },
        }
    }
}

/// The exit status a child reports when a setup step fails with `errno`:
/// the encoded errno is the only channel from the failed child to the
/// parent, and the parent's decoder recovers exactly this errno from it.
pub fn spawn_failure_status(errno: i32) -> (s: usize)
    requires
        1 <= errno < ERRNO_TABLE_LEN,
    ensures
        s == spec_mux(Err(errno)),
        spec_demux(s) == Result::<usize, i32>::Err(errno),
{
    proof {
        crate::error::lemma_status_round_trip(errno);
    }
    mux_status(Err(errno))
}

proof fn lemma_contains_left<T>(a: Seq<T>, b: Seq<T>, x: T)
    requires
        a.contains(x),
    ensures
        (a + b).contains(x),
{
    let i = choose|i: int| 0 <= i < a.len() && a[i] == x;
    assert((a + b)[i] == x);
}

proof fn lemma_contains_right<T>(a: Seq<T>, b: Seq<T>, x: T)
    requires
        b.contains(x),
    ensures
        (a + b).contains(x),
{
    let i = choose|i: int| 0 <= i < b.len() && b[i] == x;
    assert((a + b)[a.len() + i] == x);
}

/// For every piped slot, exactly one of the pipe's two descriptors ends up
/// with the parent and the other with the child, and neither process leaks
/// the other's end: the parent keeps one end as the stream and closes the
/// other, both on success and on failure; the child's plan closes the
/// parent's end, duplicates its own end onto the slot and closes the
/// original.
pub proof fn lemma_pipe_end_ownership(
    c: CommandV,
    resolved: Seq<u8>,
    slot: usize,
    r: usize,
    w: usize,
)
    requires
        slot == 0 && c.stdin == StdioType::Piped(r, w) || slot == 1 && c.stdout
            == StdioType::Piped(r, w) || slot == 2 && c.stderr == StdioType::Piped(r, w),
    ensures
        ({
            let s = if slot == 0 {
                c.stdin
            } else if slot == 1 {
                c.stdout
            } else {
                c.stderr
            };
            let parent_end = if slot == 0 {
                w
            } else {
                r
            };
            let child_end = if slot == 0 {
                r
            } else {
                w
            };
            let plan = spec_setup_plan(c, resolved);
            &&& spec_parent_stream(s, slot) == Some(parent_end)
            &&& spec_parent_closes_on_success(s, slot) == seq![child_end]
            &&& plan.contains(StepV::Close(parent_end))
            &&& plan.contains(StepV::Dup(child_end))
            &&& plan.contains(StepV::Close(child_end))
        }),
{
    let s = if slot == 0 {
        c.stdin
    } else if slot == 1 {
        c.stdout
    } else {
        c.stderr
    };
    let parent_end = if slot == 0 {
        w
    } else {
        r
    };
    let child_end = if slot == 0 {
        r
    } else {
        w
    };
    let seg = spec_stdio_steps(s, slot);
    assert(seg[0] == StepV::Close(parent_end));
    assert(seg[2] == StepV::Dup(child_end));
    assert(seg[3] == StepV::Close(child_end));
    assert(seg.contains(StepV::Close(parent_end)));
    assert(seg.contains(StepV::Dup(child_end)));
    assert(seg.contains(StepV::Close(child_end)));
    let s2 = spec_stdio_steps(c.stderr, 2);
    let s1 = spec_stdio_steps(c.stdout, 1);
    let s0 = spec_stdio_steps(c.stdin, 0);
    let stdio_part = s2 + s1 + s0;
    assert forall|x: StepV| seg.contains(x) implies stdio_part.contains(x) by {
        if slot == 2 {
            lemma_contains_left(s2, s1, x);
            lemma_contains_left(s2 + s1, s0, x);
        } else if slot == 1 {
            lemma_contains_right(s2, s1, x);
            lemma_contains_left(s2 + s1, s0, x);
        } else {
            lemma_contains_right(s2 + s1, s0, x);
        }
    }
    let plan = spec_setup_plan(c, resolved);
    assert forall|x: StepV| stdio_part.contains(x) implies plan.contains(x) by {
        lemma_contains_left(stdio_part, spec_cred_steps(c.gid, c.uid), x);
        lemma_contains_left(stdio_part + spec_cred_steps(c.gid, c.uid), spec_dir_steps(c.dir), x);
        lemma_contains_left(
            stdio_part + spec_cred_steps(c.gid, c.uid) + spec_dir_steps(c.dir),
            spec_env_steps(c.env),
            x,
        );
        lemma_contains_left(
            stdio_part + spec_cred_steps(c.gid, c.uid) + spec_dir_steps(c.dir) + spec_env_steps(
                c.env,
            ),
            seq![StepV::Exec(resolved, spec_argv(c, resolved))],
            x,
        );
    }
}

/// The plan's phases stand in the fixed order: all stream rewiring first,
/// then the credential changes, then the directory change, then the
/// environment overrides, and the exec as the very last step — a later
/// phase can never run with an earlier one unfinished.
pub proof fn lemma_plan_phases(c: CommandV, resolved: Seq<u8>)
    ensures
        ({
            let plan = spec_setup_plan(c, resolved);
            let stdio = spec_stdio_steps(c.stderr, 2) + spec_stdio_steps(c.stdout, 1)
                + spec_stdio_steps(c.stdin, 0);
            let creds = spec_cred_steps(c.gid, c.uid);
            let dir = spec_dir_steps(c.dir);
            let env = spec_env_steps(c.env);
            &&& plan.len() == stdio.len() + creds.len() + dir.len() + env.len() + 1
            &&& plan.take(stdio.len() as int) == stdio
            &&& plan.subrange(stdio.len() as int, (stdio.len() + creds.len()) as int) == creds
            &&& plan.subrange(
                (stdio.len() + creds.len()) as int,
                (stdio.len() + creds.len() + dir.len()) as int,
            ) == dir
            &&& plan.subrange(
                (stdio.len() + creds.len() + dir.len()) as int,
                (stdio.len() + creds.len() + dir.len() + env.len()) as int,
            ) == env
            &&& plan.last() == StepV::Exec(resolved, spec_argv(c, resolved))
        }),
{
    let plan = spec_setup_plan(c, resolved);
    let stdio = spec_stdio_steps(c.stderr, 2) + spec_stdio_steps(c.stdout, 1) + spec_stdio_steps(
        c.stdin,
        0,
    );
    let creds = spec_cred_steps(c.gid, c.uid);
    let dir = spec_dir_steps(c.dir);
    let env = spec_env_steps(c.env);
    assert(plan.take(stdio.len() as int) =~= stdio);
    assert(plan.subrange(stdio.len() as int, (stdio.len() + creds.len()) as int) =~= creds);
    assert(plan.subrange(
        (stdio.len() + creds.len()) as int,
        (stdio.len() + creds.len() + dir.len()) as int,
    ) =~= dir);
    assert(plan.subrange(
        (stdio.len() + creds.len() + dir.len()) as int,
        (stdio.len() + creds.len() + dir.len() + env.len()) as int,
    ) =~= env);
}

} // verus!
