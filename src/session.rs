//! The per-platform install → build → collect sequence, as a state machine.
//!
//! The session decides which step comes next; whoever drives it performs the
//! step (runs the package manager, copies the artifacts) and reports back
//! whether it succeeded.
use vstd::prelude::*;
use vstd::string::*;
use crate::platform::{Platform, platform_of, expansion_of};

verus! {

/// The step of the current platform that is due.
#[derive(Clone, Copy, Debug, PartialEq, Eq, Structural)]
pub enum Stage {
    Install,
    Build,
    Collect,
}

/// What the driver of a session is to do next.
#[derive(Clone, Copy, Debug, PartialEq, Eq, Structural)]
pub enum Step {
    /// Run the package manager's `install` in the project directory.
    Install(Platform),
    /// Run the package manager with the platform's build arguments.
    Build(Platform),
    /// Copy the platform's build output into its release subdirectory.
    Collect(Platform),
    /// Every platform has been handled.
    Finished,
}

/// Abstract state of a session.
pub struct SessionModel {
    /// The concrete platforms to handle, in order.
    pub targets: Seq<Platform>,
    /// Index of the platform being handled.
    pub current: int,
    /// The step of that platform that is due.
    pub stage: Stage,
    /// Success of each platform handled so far.
    pub results: Seq<bool>,
}

pub open spec fn model_wf(m: SessionModel) -> bool {
    &&& 0 <= m.current <= m.targets.len()
    &&& m.results.len() == m.current
    &&& m.current == m.targets.len() ==> m.stage == Stage::Install
}

/// A fresh session for a selection.
pub open spec fn initial_model(p: Platform) -> SessionModel {
    SessionModel { targets: expansion_of(p), current: 0, stage: Stage::Install, results: seq![] }
}

/// The step that is due in state `m`.
pub open spec fn step_of(m: SessionModel) -> Step {
    if m.current >= m.targets.len() {
        Step::Finished
    } else {
        let p = m.targets[m.current];
        match m.stage {
            Stage::Install => Step::Install(p),
            Stage::Build => Step::Build(p),
            Stage::Collect => Step::Collect(p),
        }
    }
}

/// How many steps can still come, at most, before the session finishes.
pub open spec fn remaining_steps(m: SessionModel) -> int {
    3 * (m.targets.len() - m.current) - match m.stage {
        Stage::Install => 0int,
        Stage::Build => 1int,
        Stage::Collect => 2int,
    }
}

/// The current platform is done, with result `ok`; the next one starts at
/// its install step.
pub open spec fn finish_platform(m: SessionModel, ok: bool) -> SessionModel {
    SessionModel {
        targets: m.targets,
        current: m.current + 1,
        stage: Stage::Install,
        results: m.results.push(ok),
    }
}

/// The state after the due step reported `ok`.
pub open spec fn advance_of(m: SessionModel, ok: bool) -> SessionModel {
    match m.stage {
        Stage::Install => if ok {
            SessionModel { stage: Stage::Build, ..m }
        } else {
            finish_platform(m, false)
        },
        Stage::Build => if ok {
            SessionModel { stage: Stage::Collect, ..m }
        } else {
            finish_platform(m, false)
        },
        Stage::Collect => finish_platform(m, ok),
    }
}

/// The state once the current platform's steps have all been reported, the
/// install, build and collect steps reporting `install_ok`, `build_ok` and
/// `collect_ok` for as long as they are reached.
pub open spec fn after_platform(
    m: SessionModel,
    install_ok: bool,
    build_ok: bool,
    collect_ok: bool,
) -> SessionModel {
    let s1 = advance_of(m, install_ok);
    let s2 = if s1.stage == Stage::Build {
        advance_of(s1, build_ok)
    } else {
        s1
    };
    if s2.stage == Stage::Collect {
        advance_of(s2, collect_ok)
    } else {
        s2
    }
}

/// The selection `All` stands for Windows, Linux and macOS, in that order,
/// and its session starts with the install step of Windows.
pub proof fn lemma_all_expands()
    ensures
        initial_model(Platform::All).targets == seq![
            Platform::Windows,
            Platform::Linux,
            Platform::MacOS,
        ],
        step_of(initial_model(Platform::All)) == Step::Install(Platform::Windows),
{
}

/// Platforms are handled one after another and independently: whatever
/// the steps of one platform report, the session records one result for that
/// platform alone (success only when all of its steps succeeded) and the
/// next platform starts at its install step.
pub proof fn lemma_platforms_independent(
    m: SessionModel,
    install_ok: bool,
    build_ok: bool,
    collect_ok: bool,
)
    requires
        model_wf(m),
        m.stage == Stage::Install,
        m.current < m.targets.len(),
    ensures
        after_platform(m, install_ok, build_ok, collect_ok) == finish_platform(
            m,
            install_ok && build_ok && collect_ok,
        ),
        model_wf(after_platform(m, install_ok, build_ok, collect_ok)),
        step_of(after_platform(m, install_ok, build_ok, collect_ok)) == (if m.current + 1
            < m.targets.len() {
            Step::Install(m.targets[m.current + 1])
        } else {
            Step::Finished
        }),
{
}

/// A failed install ends its platform as failed: the session moves past it,
/// so neither its build nor its collection is ever asked for, and the next
/// platform starts at its install step.
pub proof fn lemma_install_failure_skips_build(m: SessionModel)
    requires
        model_wf(m),
        m.stage == Stage::Install,
        m.current < m.targets.len(),
    ensures
        advance_of(m, false) == finish_platform(m, false),
        advance_of(m, false).current == m.current + 1,
        advance_of(m, false).results[m.current] == false,
        m.current + 1 < m.targets.len() ==> step_of(advance_of(m, false)) == Step::Install(
            m.targets[m.current + 1],
        ),
        m.current + 1 == m.targets.len() ==> step_of(advance_of(m, false)) == Step::Finished,
{
}

/// A failed build skips the collection of its platform, and the remaining
/// platforms still run.
pub proof fn lemma_build_failure_skips_collect(m: SessionModel)
    requires
        model_wf(m),
        m.stage == Stage::Build,
        m.current < m.targets.len(),
    ensures
        advance_of(m, false) == finish_platform(m, false),
        advance_of(m, false).results[m.current] == false,
        m.current + 1 < m.targets.len() ==> step_of(advance_of(m, false)) == Step::Install(
            m.targets[m.current + 1],
        ),
{
}

/// A platform token that names no platform.
#[derive(Clone, Debug)]
pub struct InvalidPlatform {
    pub token: String,
}

pub open spec fn invalid_message_of(token: Seq<char>) -> Seq<char> {
    "invalid platform argument: "@ + token + "; valid options: windows, linux, macos, all"@
}

impl InvalidPlatform {
    /// The diagnostic for the user: names the token and the valid options.
    pub fn message(&self) -> (r: String)
        ensures
            r@ == invalid_message_of(self.token@),
    {
        let head = String::from_str("invalid platform argument: ");
        let with_token = head.concat(self.token.as_str());
        with_token.concat("; valid options: windows, linux, macos, all")
    }
}

/// The state of a run over the platforms of one selection.
pub struct BuildSession {
    targets: Vec<Platform>,
    current: usize,
    stage: Stage,
    results: Vec<bool>,
}

impl View for BuildSession {
    type V = SessionModel;

    closed spec fn view(&self) -> SessionModel {
        SessionModel {
            targets: self.targets@,
            current: self.current as int,
            stage: self.stage,
            results: self.results@,
        }
    }
}

impl BuildSession {
    pub open spec fn wf(&self) -> bool {
        model_wf(self@)
    }

    /// A session over the platforms that `selection` stands for.
    pub fn new(selection: Platform) -> (r: BuildSession)
        ensures
            r.wf(),
            r@ == initial_model(selection),
    {
        let r = BuildSession {
            targets: selection.expand(),
            current: 0,
            stage: Stage::Install,
            results: Vec::new(),
        };
        proof {
            assert(r@.results =~= seq![]);
        }
        r
    }

    /// A session for the command-line token, `All` when there is none; an
    /// unknown token is refused before anything is run.
    pub fn start(token: Option<&str>) -> (r: Result<BuildSession, InvalidPlatform>)
        ensures
            match token {
                None => r matches Ok(s) && s.wf() && s@ == initial_model(Platform::All),
                Some(t) => match platform_of(t@) {
                    Some(p) => r matches Ok(s) && s.wf() && s@ == initial_model(p),
                    None => r matches Err(e) && e.token@ == t@,
                },
            },
    {
        match Platform::from_arg(token) {
            Some(p) => Ok(BuildSession::new(p)),
            None => {
                let t = token.unwrap();
                Err(InvalidPlatform { token: String::from_str(t) })
            },
        }
    }

    /// The step that is due.
    pub fn next_step(&self) -> (r: Step)
        requires
            self.wf(),
        ensures
            r == step_of(self@),
    {
        if self.current >= self.targets.len() {
            Step::Finished
        } else {
            let p = self.targets[self.current];
            match self.stage {
                Stage::Install => Step::Install(p),
                Stage::Build => Step::Build(p),
                Stage::Collect => Step::Collect(p),
            }
        }
    }

    /// Records whether the due step succeeded. A failed install or build
    /// ends the platform as failed, and the next platform starts.
    pub fn advance(&mut self, ok: bool)
        requires
            old(self).wf(),
            step_of(old(self)@) != Step::Finished,
        ensures
            final(self).wf(),
            final(self)@ == advance_of(old(self)@, ok),
            final(self)@.current >= old(self)@.current,
            0 <= remaining_steps(final(self)@) < remaining_steps(old(self)@),
    {
        match self.stage {
            Stage::Install => {
                if ok {
                    self.stage = Stage::Build;
                } else {
                    self.finish(false);
                }
            },
            Stage::Build => {
                if ok {
                    self.stage = Stage::Collect;
                } else {
                    self.finish(false);
                }
            },
            Stage::Collect => {
                self.finish(ok);
            },
        }
    }

    fn finish(&mut self, ok: bool)
        requires
            old(self).wf(),
            old(self).current < old(self).targets.len(),
        ensures
            final(self).wf(),
            final(self)@ == finish_platform(old(self)@, ok),
    {
        self.results.push(ok);
        self.current = self.current + 1;
        self.stage = Stage::Install;
    }

    /// Whether every platform has been handled.
    pub fn is_finished(&self) -> (r: bool)
        requires
            self.wf(),
        ensures
            r == (step_of(self@) == Step::Finished),
    {
        self.current >= self.targets.len()
    }

    /// The concrete platforms of this session, in order.
    pub fn targets(&self) -> (r: Vec<Platform>)
        ensures
            r@ == self@.targets,
    {
        let mut r: Vec<Platform> = Vec::new();
        let mut i: usize = 0;
        while i < self.targets.len()
            invariant
                i <= self.targets@.len(),
                r@ == self.targets@.subrange(0, i as int),
            decreases self.targets@.len() - i,
        {
            r.push(self.targets[i]);
            i = i + 1;
            proof {
                assert(r@ =~= self.targets@.subrange(0, i as int));
            }
        }
        proof {
            assert(r@ =~= self.targets@);
        }
        r
    }

    /// Success of each platform handled so far, in the order of `targets`.
    pub fn results(&self) -> (r: Vec<bool>)
        ensures
            r@ == self@.results,
    {
        let mut r: Vec<bool> = Vec::new();
        let mut i: usize = 0;
        while i < self.results.len()
            invariant
                i <= self.results@.len(),
                r@ == self.results@.subrange(0, i as int),
            decreases self.results@.len() - i,
        {
            r.push(self.results[i]);
            i = i + 1;
            proof {
                assert(r@ =~= self.results@.subrange(0, i as int));
            }
        }
        proof {
            assert(r@ =~= self.results@);
        }
        r
    }
}

} // verus!
