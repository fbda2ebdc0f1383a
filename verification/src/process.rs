//! Process supervision and the bounded retry policy.
//!
//! The supervisor is a state machine: at most one companion process is
//! tracked as alive, a start request while it runs is a no-op, and a stop
//! request leaves the state stopped once termination was attempted. The
//! spawning, killing and waiting happen outside the core, which only
//! decides; so do the waits between retries. Message send and receive are
//! retried a fixed number of times with a constant delay, and give up
//! with the last error once the bound is reached.

use vstd::prelude::*;

verus! {

/// A fault of the supervised process or its message channel.
#[derive(Clone, Copy, Debug, PartialEq, Eq, Structural)]
pub enum ProcessError {
    /// No candidate executable could be spawned.
    LaunchFailed,
    /// Waiting on the terminated process failed.
    WaitFailed,
    /// The retry bound was exhausted without a success.
    RetriesExhausted,
}

impl ProcessError {
    /// A short description, for logging outside the core.
    pub fn label(&self) -> (r: &'static str)
        ensures
            matches!(*self, ProcessError::LaunchFailed) ==> r@
                == "failed to start popup from any known location"@,
            matches!(*self, ProcessError::WaitFailed) ==> r@
                == "error waiting for popup process"@,
            matches!(*self, ProcessError::RetriesExhausted) ==> r@
                == "failed after maximum retries"@,
    {
        match self {
            ProcessError::LaunchFailed => "failed to start popup from any known location",
            ProcessError::WaitFailed => "error waiting for popup process",
            ProcessError::RetriesExhausted => "failed after maximum retries",
        }
    }
}

/// Whether the companion process is tracked as alive.
#[derive(Clone, Copy, Debug, PartialEq, Eq, Structural)]
pub enum PopupState {
    Stopped,
    Running,
}

/// How many live companion processes the state stands for.
pub open spec fn live_children(s: PopupState) -> nat {
    match s {
        PopupState::Running => 1,
        PopupState::Stopped => 0,
    }
}

/// What a start request directs.
#[derive(Clone, Copy, Debug, PartialEq, Eq, Structural)]
pub enum StartDirective {
    /// The process already runs; do nothing but warn.
    AlreadyRunning,
    /// Try the candidate executables in order.
    Spawn,
}

/// What a stop request directs.
#[derive(Clone, Copy, Debug, PartialEq, Eq, Structural)]
pub enum StopDirective {
    /// The process is not running; do nothing but warn.
    NotRunning,
    /// Send the termination signal and reap the child.
    Terminate,
}

/// The directive a start request yields in a given state.
pub open spec fn spec_start_directive(s: PopupState) -> StartDirective {
    match s {
        PopupState::Running => StartDirective::AlreadyRunning,
        PopupState::Stopped => StartDirective::Spawn,
    }
}

/// The directive a stop request yields in a given state.
pub open spec fn spec_stop_directive(s: PopupState) -> StopDirective {
    match s {
        PopupState::Running => StopDirective::Terminate,
        PopupState::Stopped => StopDirective::NotRunning,
    }
}

/// Single instance: no state stands for more than one live process, and
/// a start request directs a spawn exactly when none is live — so a
/// second start in a row spawns nothing.
pub proof fn lemma_single_instance(s: PopupState)
    ensures
        live_children(s) <= 1,
        (spec_start_directive(s) == StartDirective::Spawn) <==> (live_children(s) == 0),
{
}

/// The fixed retry policy: attempt count bound and constant delay.
#[derive(Clone, Copy, Debug, PartialEq, Eq, Structural)]
pub struct RetryPolicy {
    pub max_attempts: u32,
    pub delay_ms: u64,
}

/// What follows one attempt.
#[derive(Clone, Copy, Debug, PartialEq, Eq, Structural)]
pub enum RetryDecision {
    /// The attempt succeeded; stop.
    Succeeded,
    /// The attempt failed; wait the fixed delay and try again.
    RetryAfterDelay,
    /// The attempt failed and the bound is reached; give up with the
    /// last error.
    GiveUp,
}

/// The decision after an attempt, given how many attempts were already
/// made before it.
pub open spec fn spec_retry_decision(max: u32, attempts_made: u32, ok: bool) -> RetryDecision {
    if ok {
        RetryDecision::Succeeded
    } else if attempts_made + 1 >= max {
        RetryDecision::GiveUp
    } else {
        RetryDecision::RetryAfterDelay
    }
}

/// Retry bound: a failing attempt directs another try exactly while
/// fewer attempts than the maximum will have been made, and gives up
/// exactly on the maximum-th attempt — never earlier, never later.
pub proof fn lemma_retry_bound(max: u32, attempts_made: u32)
    requires
        attempts_made < max,
    ensures
        (spec_retry_decision(max, attempts_made, false) == RetryDecision::GiveUp) <==> (
        attempts_made + 1 == max),
        (spec_retry_decision(max, attempts_made, false) == RetryDecision::RetryAfterDelay) <==> (
        attempts_made + 1 < max),
{
}

/// The running count of one retried operation.
pub struct RetryRun {
    attempts: u32,
}

impl RetryRun {
    /// How many attempts have been made.
    pub closed spec fn spec_attempts(&self) -> u32 {
        self.attempts
    }

    /// A fresh run: nothing attempted yet.
    pub fn new() -> (r: RetryRun)
        ensures
            r.spec_attempts() == 0,
    {
        RetryRun { attempts: 0 }
    }

    /// Count one attempt and decide what follows it.
    pub fn on_attempt(&mut self, policy: &RetryPolicy, ok: bool) -> (d: RetryDecision)
        requires
            old(self).spec_attempts() < policy.max_attempts,
        ensures
            d == spec_retry_decision(policy.max_attempts, old(self).spec_attempts(), ok),
            final(self).spec_attempts() == old(self).spec_attempts() + 1,
    {
        self.attempts = self.attempts + 1;
        if ok {
            RetryDecision::Succeeded
        } else if self.attempts >= policy.max_attempts {
            RetryDecision::GiveUp
        } else {
            RetryDecision::RetryAfterDelay
        }
    }
}

/// The first index before `n` where the outcomes hold a success.
pub open spec fn first_success_before(s: Seq<bool>, n: int) -> Option<int> {
    if exists|i: int| 0 <= i < n && i < s.len() && s[i] {
        Some(choose|i: int|
            0 <= i < n && i < s.len() && s[i] && forall|j: int| 0 <= j < i ==> !s[j])
    } else {
        None
    }
}

proof fn lemma_first_success(s: Seq<bool>, n: int, i: int)
    requires
        0 <= i < n,
        i < s.len(),
        s[i],
        forall|j: int| 0 <= j < i ==> !s[j],
    ensures
        first_success_before(s, n) == Some(i),
{
    let w = choose|w: int|
        0 <= w < n && w < s.len() && s[w] && forall|j: int| 0 <= j < w ==> !s[j];
    if w < i {
        assert(!s[w]);
    }
    if i < w {
        assert(!s[i]);
    }
}

/// Drive one retried operation over a recorded list of attempt
/// outcomes: stop on the first success, reporting how many attempts it
/// took; give up once the bound is reached — after exactly the maximum
/// number of attempts, no more, no fewer.
pub fn run_attempts(policy: &RetryPolicy, outcomes: &Vec<bool>) -> (r: Result<u32, ProcessError>)
    requires
        policy.max_attempts >= 1,
        outcomes@.len() >= policy.max_attempts,
    ensures
        match first_success_before(outcomes@, policy.max_attempts as int) {
            Some(i) => r == Ok::<u32, ProcessError>((i + 1) as u32),
            None => r == Err::<u32, ProcessError>(ProcessError::RetriesExhausted),
        },
{
    let mut run = RetryRun::new();
    let mut k: u32 = 0;
    while k < policy.max_attempts
        invariant
            run.spec_attempts() == k,
            k <= policy.max_attempts,
            policy.max_attempts <= outcomes@.len(),
            forall|j: int| 0 <= j < k ==> !outcomes@[j],
        decreases policy.max_attempts - k,
    {
        let ok = outcomes[k as usize];
        let d = run.on_attempt(policy, ok);
        match d {
            RetryDecision::Succeeded => {
                proof {
                    lemma_first_success(outcomes@, policy.max_attempts as int, k as int);
                }
                return Ok(k + 1);
            },
            RetryDecision::GiveUp => {
                assert(k + 1 == policy.max_attempts);
                assert(forall|j: int|
                    0 <= j < policy.max_attempts ==> !outcomes@[j]);
                return Err(ProcessError::RetriesExhausted);
            },
            RetryDecision::RetryAfterDelay => {
                // The wait between attempts happens outside the core.
            },
        }
        k = k + 1;
    }
    assert(forall|j: int| 0 <= j < policy.max_attempts ==> !outcomes@[j]);
    Err(ProcessError::RetriesExhausted)
}

/// Supervises the companion process: its liveness state, the retry
/// policy for its message channel, and the candidate executable
/// locations, in the order they are tried.
pub struct ProcessManager {
    state: PopupState,
    retry: RetryPolicy,
    settle_delay_ms: u64,
    restart_delay_ms: u64,
    executable_paths: Vec<String>,
}

impl ProcessManager {
    /// The tracked liveness state.
    pub closed spec fn spec_state(&self) -> PopupState {
        self.state
    }

    /// The retry policy of the message channel.
    pub closed spec fn spec_retry(&self) -> RetryPolicy {
        self.retry
    }

    /// The candidate executable locations, in order.
    pub closed spec fn spec_paths(&self) -> Seq<Seq<char>> {
        crate::text::views_of(self.executable_paths@)
    }

    /// The constant delay after a successful spawn.
    pub closed spec fn spec_settle_delay_ms(&self) -> u64 {
        self.settle_delay_ms
    }

    /// The constant delay between the halves of a restart.
    pub closed spec fn spec_restart_delay_ms(&self) -> u64 {
        self.restart_delay_ms
    }

    /// A fresh supervisor: stopped, three attempts half a second apart,
    /// and the fixed ordered list of candidate locations.
    pub fn new() -> (r: ProcessManager)
        ensures
            r.spec_state() == PopupState::Stopped,
            r.spec_retry() == (RetryPolicy { max_attempts: 3, delay_ms: 500 }),
            r.spec_paths().len() == 7,
            r.spec_paths()[0] == "popup_ui"@,
            r.spec_paths()[1] == "./popup_ui"@,
            r.spec_paths()[2] == "./target/release/popup_ui"@,
            r.spec_paths()[3] == "./target/debug/popup_ui"@,
            r.spec_paths()[4] == "../target/release/popup_ui"@,
            r.spec_paths()[5] == "../target/debug/popup_ui"@,
            r.spec_paths()[6] == "./dist/bin/popup_ui"@,
    {
        let mut executable_paths: Vec<String> = Vec::new();
        executable_paths.push(String::from_str("popup_ui"));
        executable_paths.push(String::from_str("./popup_ui"));
        executable_paths.push(String::from_str("./target/release/popup_ui"));
        executable_paths.push(String::from_str("./target/debug/popup_ui"));
        executable_paths.push(String::from_str("../target/release/popup_ui"));
        executable_paths.push(String::from_str("../target/debug/popup_ui"));
        executable_paths.push(String::from_str("./dist/bin/popup_ui"));
        ProcessManager {
            state: PopupState::Stopped,
            retry: RetryPolicy { max_attempts: 3, delay_ms: 500 },
            settle_delay_ms: 500,
            restart_delay_ms: 300,
            executable_paths,
        }
    }

    /// Pure state query.
    pub fn is_popup_running(&self) -> (r: bool)
        ensures
            r == (self.spec_state() == PopupState::Running),
    {
        match self.state {
            PopupState::Running => true,
            PopupState::Stopped => false,
        }
    }

    /// The candidate executable locations, for the spawner outside the
    /// core.
    pub fn candidate_paths(&self) -> (r: &Vec<String>)
        ensures
            crate::text::views_of(r@) == self.spec_paths(),
    {
        &self.executable_paths
    }

    /// The constant delay after a successful spawn, before the process
    /// counts as settled.
    pub fn settle_delay_ms(&self) -> (r: u64)
        ensures
            r == self.spec_settle_delay_ms(),
    {
        self.settle_delay_ms
    }

    /// The constant delay between the stop and start of a restart.
    pub fn restart_delay_ms(&self) -> (r: u64)
        ensures
            r == self.spec_restart_delay_ms(),
    {
        self.restart_delay_ms
    }

    /// The retry policy of the message channel.
    pub fn retry_policy(&self) -> (r: RetryPolicy)
        ensures
            r == self.spec_retry(),
    {
        self.retry
    }

    /// Decide a start request: a no-op while running, otherwise a spawn
    /// of the candidates in order. The state does not change until the
    /// spawn outcome arrives.
    pub fn on_start_request(&mut self) -> (d: StartDirective)
        ensures
            d == spec_start_directive(old(self).spec_state()),
            final(self).spec_state() == old(self).spec_state(),
            final(self).spec_retry() == old(self).spec_retry(),
            final(self).spec_paths() == old(self).spec_paths(),
    {
        match self.state {
            PopupState::Running => StartDirective::AlreadyRunning,
            PopupState::Stopped => StartDirective::Spawn,
        }
    }

    /// Record the spawn outcome: running if some candidate spawned,
    /// stopped with the launch error if every candidate failed.
    pub fn on_spawn_outcome(&mut self, spawned: bool) -> (r: Result<(), ProcessError>)
        ensures
            final(self).spec_state() == (if spawned {
                PopupState::Running
            } else {
                PopupState::Stopped
            }),
            r is Ok <==> spawned,
            !spawned ==> r == Err::<(), ProcessError>(ProcessError::LaunchFailed),
            final(self).spec_retry() == old(self).spec_retry(),
            final(self).spec_paths() == old(self).spec_paths(),
    {
        if spawned {
            self.state = PopupState::Running;
            Ok(())
        } else {
            self.state = PopupState::Stopped;
            Err(ProcessError::LaunchFailed)
        }
    }

    /// Decide a stop request: terminate if running, warn if not; either
    /// way the state is stopped once termination was attempted.
    pub fn on_stop_request(&mut self) -> (d: StopDirective)
        ensures
            d == spec_stop_directive(old(self).spec_state()),
            final(self).spec_state() == PopupState::Stopped,
            final(self).spec_retry() == old(self).spec_retry(),
            final(self).spec_paths() == old(self).spec_paths(),
    {
        let d = match self.state {
            PopupState::Running => StopDirective::Terminate,
            PopupState::Stopped => StopDirective::NotRunning,
        };
        self.state = PopupState::Stopped;
        d
    }
}

} // verus!
