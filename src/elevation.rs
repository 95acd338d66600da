//! The elevation gateway: decides, for each request, whether the elevated
//! session may be used, which invocation of the elevation mechanism to run,
//! and how the mechanism's report changes the session state.
//!
//! Running the invocations is the caller's part: the gateway hands out
//! [`CommandRequest`]s and takes back [`CommandOutput`]s.
use vstd::prelude::*;

use crate::error::ElevationError;
use crate::session::{CacheView, ElevationCache, SECONDS_PER_MINUTE};
use crate::text::{seq_contains, str_contains, views};

verus! {

/// Lifetime of a confirmation in a gateway built by [`SecureElevation::new`].
pub const DEFAULT_CACHE_MINUTES: u64 = 45;

/// A program and its argument list; each argument is a discrete token, and
/// nothing is interpolated by a shell.
#[derive(Debug)]
pub struct CommandRequest {
    pub program: String,
    pub arguments: Vec<String>,
}

/// What a finished command reported.
#[derive(Debug)]
pub struct CommandOutput {
    /// The command exited successfully.
    pub success: bool,
    /// Its standard output.
    pub stdout: Vec<u8>,
    /// Its standard error, as text.
    pub stderr: String,
}

/// What the elevation mechanism's diagnostic text says about a failure.
#[derive(Debug, PartialEq, Eq, Structural)]
pub enum Diagnostic {
    /// The session expired: the mechanism asks for a password again.
    SessionExpired,
    /// The operation itself was refused.
    PermissionDenied,
    /// Anything else.
    Other,
}

/// The classification of a diagnostic text.
pub open spec fn diagnostic_of(stderr: Seq<char>) -> Diagnostic {
    if seq_contains(stderr, "a password is required"@) || seq_contains(
        stderr,
        "sorry, try again"@,
    ) {
        Diagnostic::SessionExpired
    } else if seq_contains(stderr, "Permission denied"@) || seq_contains(
        stderr,
        "permission denied"@,
    ) {
        Diagnostic::PermissionDenied
    } else {
        Diagnostic::Other
    }
}

/// Reads the elevation mechanism's diagnostic text. The phrases recognised
/// here are the only place where the mechanism's wording is known.
pub fn classify_diagnostic(stderr: &str) -> (r: Diagnostic)
    ensures
        r == diagnostic_of(stderr@),
{
    if str_contains(stderr, "a password is required") || str_contains(stderr, "sorry, try again") {
        Diagnostic::SessionExpired
    } else if str_contains(stderr, "Permission denied") || str_contains(
        stderr,
        "permission denied",
    ) {
        Diagnostic::PermissionDenied
    } else {
        Diagnostic::Other
    }
}

/// The view of a request: program and arguments as text.
pub open spec fn request_view(r: CommandRequest) -> (Seq<char>, Seq<Seq<char>>) {
    (r.program@, views(r.arguments@))
}

/// The invocation that runs `command args...` through the elevation
/// mechanism without letting it prompt.
pub open spec fn elevated_invocation(command: Seq<char>, args: Seq<Seq<char>>) -> (
    Seq<char>,
    Seq<Seq<char>>,
) {
    ("sudo"@, seq!["-n"@, command] + args)
}

/// Builds the non-prompting elevated invocation of `command args...`.
pub fn elevated_request(command: &str, args: &Vec<String>) -> (r: CommandRequest)
    ensures
        request_view(r) == elevated_invocation(command@, views(args@)),
{
    let mut arguments: Vec<String> = Vec::new();
    arguments.push(String::from_str("-n"));
    arguments.push(String::from_str(command));
    let mut i: usize = 0;
    while i < args.len()
        invariant
            i <= args@.len(),
            views(arguments@) == seq!["-n"@, command@] + views(args@.subrange(0, i as int)),
        decreases args@.len() - i,
    {
        let ghost before = arguments@;
        arguments.push(args[i].clone());
        proof {
            assert(views(arguments@) =~= views(before).push(args@[i as int]@));
            assert(args@.subrange(0, i + 1) =~= args@.subrange(0, i as int).push(args@[i as int]));
            assert(views(args@.subrange(0, i + 1)) =~= views(args@.subrange(0, i as int)).push(
                args@[i as int]@,
            ));
        }
        i = i + 1;
        proof {
            assert(views(arguments@) =~= seq!["-n"@, command@] + views(
                args@.subrange(0, i as int),
            ));
        }
    }
    assert(args@.subrange(0, args@.len() as int) =~= args@);
    CommandRequest { program: String::from_str("sudo"), arguments }
}

/// The invocation that establishes the session, prompting the operator if needed.
pub fn validation_request() -> (r: CommandRequest)
    ensures
        request_view(r) == ("sudo"@, seq!["-v"@]),
{
    let mut arguments: Vec<String> = Vec::new();
    arguments.push(String::from_str("-v"));
    assert(views(arguments@) =~= seq!["-v"@]);
    CommandRequest { program: String::from_str("sudo"), arguments }
}

/// The invocation that extends the session without prompting.
pub fn renewal_request() -> (r: CommandRequest)
    ensures
        request_view(r) == ("sudo"@, seq!["-n"@, "-v"@]),
{
    let mut arguments: Vec<String> = Vec::new();
    arguments.push(String::from_str("-n"));
    arguments.push(String::from_str("-v"));
    assert(views(arguments@) =~= seq!["-n"@, "-v"@]);
    CommandRequest { program: String::from_str("sudo"), arguments }
}

/// What `authenticate` has to do next.
#[derive(Debug, PartialEq, Eq, Structural)]
pub enum AuthPlan {
    /// The cached session is valid: nothing to run.
    Cached,
    /// Run [`validation_request`], which may prompt, and report its success
    /// to [`SecureElevation::complete_authentication`].
    Prompt,
}

/// What a background keeper does next.
#[derive(Debug, PartialEq, Eq, Structural)]
pub enum KeeperStep {
    /// Run [`renewal_request`] and report to [`SecureElevation::keeper_record_renewal`].
    Renew,
    /// Stop for good.
    Stop,
}

/// Abstract state of a background keeper.
pub struct KeeperView {
    /// Which start of the keeper this is.
    pub id: u64,
    /// Renewals performed so far.
    pub iterations: u64,
    /// Renewals allowed in all (one per minute of the cache lifetime).
    pub max_iterations: u64,
}

/// The background task that keeps the elevated session alive. One is handed
/// out by each successful authentication; it acts only while it is the
/// gateway's current keeper.
#[derive(Debug)]
pub struct SessionKeeper {
    id: u64,
    iterations: u64,
    max_iterations: u64,
}

impl View for SessionKeeper {
    type V = KeeperView;

    closed spec fn view(&self) -> KeeperView {
        KeeperView { id: self.id, iterations: self.iterations, max_iterations: self.max_iterations }
    }
}

/// Abstract state of a [`SecureElevation`].
pub struct GatewayView {
    pub cache: CacheView,
    /// The elevation mechanism is installed.
    pub sudo_available: bool,
    /// Id of the keeper that currently runs, if one does.
    pub keeper: Option<u64>,
    /// Id the next keeper will get.
    pub next_keeper: u64,
}

/// The id after `id`, wrapping at the top of the range.
pub open spec fn next_id(id: u64) -> u64 {
    if id < u64::MAX {
        (id + 1) as u64
    } else {
        0
    }
}

impl GatewayView {
    /// The state of a freshly built gateway with the default lifetime.
    pub open spec fn initial(sudo_available: bool) -> GatewayView {
        GatewayView {
            cache: CacheView {
                authenticated: false,
                last_auth: None,
                cache_duration: (DEFAULT_CACHE_MINUTES * SECONDS_PER_MINUTE) as u64,
            },
            sudo_available,
            keeper: None,
            next_keeper: 0,
        }
    }

    /// `is_authenticated` at `now`.
    pub open spec fn is_authenticated(self, now: u64) -> bool {
        self.cache.valid_at(now)
    }

    /// What `pre_authenticate` answers at `now`.
    pub open spec fn auth_plan(self, now: u64) -> Result<AuthPlan, ElevationError> {
        if !self.sudo_available {
            Err(ElevationError::SudoNotAvailable)
        } else if self.is_authenticated(now) {
            Ok(AuthPlan::Cached)
        } else {
            Ok(AuthPlan::Prompt)
        }
    }

    /// Whether an execution requested at `now` may go ahead, and if not, why.
    pub open spec fn execution_check(self, now: u64) -> Result<(), ElevationError> {
        if !self.sudo_available {
            Err(ElevationError::SudoNotAvailable)
        } else if !self.is_authenticated(now) {
            Err(ElevationError::AuthenticationRequired)
        } else {
            Ok(())
        }
    }

    /// State after a successful authentication at `now`: a fresh keeper replaces any other.
    pub open spec fn authenticated_at(self, now: u64) -> GatewayView {
        GatewayView {
            cache: self.cache.confirmed(now),
            keeper: Some(self.next_keeper),
            next_keeper: next_id(self.next_keeper),
            ..self
        }
    }

    /// State after an explicit invalidation (also after a rejected authentication).
    pub open spec fn invalidated(self) -> GatewayView {
        GatewayView { cache: self.cache.invalidated(), keeper: None, ..self }
    }

    /// State after a command reported `output`.
    pub open spec fn after_output(self, output: CommandOutput) -> GatewayView {
        if !output.success && diagnostic_of(output.stderr@) == Diagnostic::SessionExpired {
            self.invalidated()
        } else {
            self
        }
    }

    /// What `finish_execute` returns for `output`.
    pub open spec fn output_result(output: CommandOutput) -> Result<CommandOutput, ElevationError> {
        if output.success {
            Ok(output)
        } else {
            match diagnostic_of(output.stderr@) {
                Diagnostic::SessionExpired => Err(ElevationError::AccessDenied),
                Diagnostic::PermissionDenied => Err(ElevationError::PermissionDenied),
                Diagnostic::Other => Ok(output),
            }
        }
    }

    /// What the keeper `k` decides on a tick.
    pub open spec fn keeper_decision(self, k: KeeperView) -> KeeperStep {
        if self.keeper == Some(k.id) && self.cache.authenticated && k.iterations
            < k.max_iterations {
            KeeperStep::Renew
        } else {
            KeeperStep::Stop
        }
    }

    /// State after keeper `k` reported a renewal attempt: a keeper that is
    /// not current changes nothing; a failure marks the session lost and
    /// retires the keeper; a success that spends the last renewal retires it.
    pub open spec fn after_renewal(self, k: KeeperView, renewed: bool) -> GatewayView {
        if self.keeper != Some(k.id) {
            self
        } else if !renewed {
            GatewayView { cache: self.cache.session_lost(), keeper: None, ..self }
        } else if counted(k.iterations) < k.max_iterations {
            self
        } else {
            GatewayView { keeper: None, ..self }
        }
    }
}

/// A renewal count after one more renewal (it stops at the top of the range).
pub open spec fn counted(n: u64) -> u64 {
    if n < u64::MAX {
        (n + 1) as u64
    } else {
        n
    }
}

/// The synchronisation boundary of the privileged-session subsystem. Callers
/// share one instance behind a lock; every method below runs under it.
#[derive(Debug)]
pub struct SecureElevation {
    cache: ElevationCache,
    sudo_available: bool,
    keeper: Option<u64>,
    next_keeper: u64,
}

impl View for SecureElevation {
    type V = GatewayView;

    closed spec fn view(&self) -> GatewayView {
        GatewayView {
            cache: self.cache@,
            sudo_available: self.sudo_available,
            keeper: self.keeper,
            next_keeper: self.next_keeper,
        }
    }
}

impl SecureElevation {
    /// A gateway with a 45-minute cache and no session. `sudo_available`
    /// is the result of probing for the elevation mechanism.
    pub fn new(sudo_available: bool) -> (r: Self)
        ensures
            r@ == GatewayView::initial(sudo_available),
    {
        SecureElevation {
            cache: ElevationCache::new(DEFAULT_CACHE_MINUTES),
            sudo_available,
            keeper: None,
            next_keeper: 0,
        }
    }

    /// Whether the elevation mechanism is installed.
    pub fn sudo_available(&self) -> (r: bool)
        ensures
            r == self@.sudo_available,
    {
        self.sudo_available
    }

    /// Whether the cached session is valid at `now`.
    pub fn is_authenticated(&self, now: u64) -> (r: bool)
        ensures
            r == self@.is_authenticated(now),
    {
        self.cache.is_authenticated(now)
    }

    /// First half of `authenticate`: fails if the mechanism is missing,
    /// takes the fast path on a valid session, and otherwise asks for a prompt.
    pub fn pre_authenticate(&self, now: u64) -> (r: Result<AuthPlan, ElevationError>)
        ensures
            r == self@.auth_plan(now),
    {
        if !self.sudo_available {
            Err(ElevationError::SudoNotAvailable)
        } else if self.cache.is_authenticated(now) {
            Ok(AuthPlan::Cached)
        } else {
            Ok(AuthPlan::Prompt)
        }
    }

    /// Second half of `authenticate`, after the prompt ran at `now`. On
    /// success the session is confirmed and a fresh keeper is handed out,
    /// replacing any earlier one; on failure the session is left invalid and
    /// `AccessDenied` comes back.
    pub fn complete_authentication(&mut self, now: u64, prompt_succeeded: bool) -> (r: Result<
        SessionKeeper,
        ElevationError,
    >)
        ensures
            prompt_succeeded ==> final(self)@ == old(self)@.authenticated_at(now),
            !prompt_succeeded ==> final(self)@ == old(self)@.invalidated(),
            match r {
                Ok(k) => prompt_succeeded && k@ == (KeeperView {
                    id: old(self)@.next_keeper,
                    iterations: 0,
                    max_iterations: (old(self)@.cache.cache_duration / SECONDS_PER_MINUTE) as u64,
                }),
                Err(e) => !prompt_succeeded && e == ElevationError::AccessDenied,
            },
    {
        if prompt_succeeded {
            self.cache.confirm(now);
            let id = self.next_keeper;
            self.keeper = Some(id);
            self.next_keeper = if id < u64::MAX {
                id + 1
            } else {
                0
            };
            let max_iterations = self.cache.cache_duration_secs() / SECONDS_PER_MINUTE;
            Ok(SessionKeeper { id, iterations: 0, max_iterations })
        } else {
            self.cache.invalidate();
            self.keeper = None;
            Err(ElevationError::AccessDenied)
        }
    }

    /// First half of `execute`: the elevated invocation of `command args...`
    /// to run at `now`, or why none may run. Never prompts.
    pub fn execute_command(&self, now: u64, command: &str, args: &Vec<String>) -> (r: Result<
        CommandRequest,
        ElevationError,
    >)
        ensures
            match r {
                Ok(q) => self@.execution_check(now) is Ok && request_view(q)
                    == elevated_invocation(command@, views(args@)),
                Err(e) => self@.execution_check(now) == Err::<(), ElevationError>(e),
            },
    {
        if !self.sudo_available {
            return Err(ElevationError::SudoNotAvailable);
        }
        if !self.cache.is_authenticated(now) {
            return Err(ElevationError::AuthenticationRequired);
        }
        Ok(elevated_request(command, args))
    }

    /// Second half of `execute`: reads what the invocation reported. A
    /// diagnostic saying the session expired invalidates the session and
    /// yields `AccessDenied`; one saying permission was refused yields
    /// `PermissionDenied` and keeps the session; anything else is returned.
    pub fn finish_execute(&mut self, output: CommandOutput) -> (r: Result<
        CommandOutput,
        ElevationError,
    >)
        ensures
            final(self)@ == old(self)@.after_output(output),
            r == GatewayView::output_result(output),
    {
        if output.success {
            return Ok(output);
        }
        match classify_diagnostic(output.stderr.as_str()) {
            Diagnostic::SessionExpired => {
                self.invalidate_cache();
                Err(ElevationError::AccessDenied)
            },
            Diagnostic::PermissionDenied => Err(ElevationError::PermissionDenied),
            Diagnostic::Other => Ok(output),
        }
    }

    /// The invocation of `command args...` whose streams go to the
    /// operator's terminal, or why none may run. Never prompts; its report
    /// is not read for diagnostics.
    pub fn execute_command_interactive(
        &self,
        now: u64,
        command: &str,
        args: &Vec<String>,
    ) -> (r: Result<CommandRequest, ElevationError>)
        ensures
            match r {
                Ok(q) => self@.execution_check(now) is Ok && request_view(q)
                    == elevated_invocation(command@, views(args@)),
                Err(e) => self@.execution_check(now) == Err::<(), ElevationError>(e),
            },
    {
        self.execute_command(now, command, args)
    }

    /// Starts a batch: the requests run in order through `execute`, and the
    /// first failure ends it. Authentication comes first (see `pre_authenticate`).
    pub fn execute_batch_commands(&self, commands: Vec<CommandRequest>) -> (r: Result<
        BatchExecution,
        ElevationError,
    >)
        ensures
            match r {
                Ok(b) => self@.sudo_available && b@ == BatchView::start(commands@),
                Err(e) => !self@.sudo_available && e == ElevationError::SudoNotAvailable,
            },
    {
        if !self.sudo_available {
            return Err(ElevationError::SudoNotAvailable);
        }
        Ok(BatchExecution::new(commands))
    }

    /// Forgets the session and retires the running keeper. Idempotent.
    pub fn invalidate_cache(&mut self)
        ensures
            final(self)@ == old(self)@.invalidated(),
    {
        self.cache.invalidate();
        self.keeper = None;
    }

    /// A keeper's tick: renew only while it is the current keeper, the
    /// session flag is set, and renewals remain.
    pub fn keeper_tick(&self, keeper: &SessionKeeper) -> (r: KeeperStep)
        ensures
            r == self@.keeper_decision(keeper@),
    {
        let current = match self.keeper {
            Some(id) => id == keeper.id,
            None => false,
        };
        if current && self.cache.flag_set() && keeper.iterations < keeper.max_iterations {
            KeeperStep::Renew
        } else {
            KeeperStep::Stop
        }
    }

    /// A keeper reports whether the silent renewal succeeded. A keeper
    /// that is no longer current is told to stop and changes nothing. For
    /// the current one, a failure marks the session lost and retires the
    /// keeper; a success counts one renewal and leaves the confirmation time
    /// as it was. The answer is the keeper's next tick.
    pub fn keeper_record_renewal(&mut self, keeper: &mut SessionKeeper, renewed: bool) -> (r:
        KeeperStep)
        ensures
            final(self)@ == old(self)@.after_renewal(old(keeper)@, renewed),
            old(self)@.keeper == Some(old(keeper)@.id) ==> final(keeper)@ == (KeeperView {
                iterations: counted(old(keeper)@.iterations),
                ..old(keeper)@
            }),
            old(self)@.keeper != Some(old(keeper)@.id) ==> final(keeper)@ == old(keeper)@,
            r == final(self)@.keeper_decision(final(keeper)@),
    {
        let current = match self.keeper {
            Some(id) => id == keeper.id,
            None => false,
        };
        if !current {
            return KeeperStep::Stop;
        }
        if keeper.iterations < u64::MAX {
            keeper.iterations = keeper.iterations + 1;
        }
        if !renewed {
            self.cache.mark_session_lost();
            self.keeper = None;
        } else if keeper.iterations >= keeper.max_iterations {
            self.keeper = None;
        }
        self.keeper_tick(keeper)
    }
}

/// Abstract state of a [`BatchExecution`].
pub struct BatchView {
    pub requests: Seq<CommandRequest>,
    /// Outputs of the requests that ran, in order.
    pub outputs: Seq<CommandOutput>,
    /// The failure that ended the batch, if one did.
    pub failure: Option<ElevationError>,
}

impl BatchView {
    /// A batch over `requests` before anything ran.
    pub open spec fn start(requests: Seq<CommandRequest>) -> BatchView {
        BatchView { requests, outputs: Seq::empty(), failure: None }
    }

    /// The request to run next, if any.
    pub open spec fn next(self) -> Option<CommandRequest> {
        if self.failure is None && self.outputs.len() < self.requests.len() {
            Some(self.requests[self.outputs.len() as int])
        } else {
            None
        }
    }

    /// State after the next request gave `result`.
    pub open spec fn recorded(self, result: Result<CommandOutput, ElevationError>) -> BatchView {
        match result {
            Ok(o) => BatchView { outputs: self.outputs.push(o), ..self },
            Err(e) => BatchView { failure: Some(e), ..self },
        }
    }

    /// What the batch returns.
    pub open spec fn result(self) -> Result<Seq<CommandOutput>, ElevationError> {
        match self.failure {
            Some(e) => Err(e),
            None => Ok(self.outputs),
        }
    }

    /// No more outputs than requests.
    pub open spec fn wf(self) -> bool {
        self.outputs.len() <= self.requests.len()
    }
}

/// An ordered run of requests that stops at the first failure: later
/// requests are never handed out, and the batch's result is that failure.
#[derive(Debug)]
pub struct BatchExecution {
    requests: Vec<CommandRequest>,
    outputs: Vec<CommandOutput>,
    failure: Option<ElevationError>,
}

impl View for BatchExecution {
    type V = BatchView;

    closed spec fn view(&self) -> BatchView {
        BatchView { requests: self.requests@, outputs: self.outputs@, failure: self.failure }
    }
}

impl BatchExecution {
    /// A batch over `requests`, nothing run yet.
    pub fn new(requests: Vec<CommandRequest>) -> (r: Self)
        ensures
            r@ == BatchView::start(requests@),
    {
        BatchExecution { requests, outputs: Vec::new(), failure: None }
    }

    /// The request to run next, or `None` once the batch is over.
    pub fn next_request(&self) -> (r: Option<&CommandRequest>)
        ensures
            match r {
                Some(q) => self@.next() == Some(*q),
                None => self@.next() is None,
            },
    {
        if self.failure.is_none() && self.outputs.len() < self.requests.len() {
            Some(&self.requests[self.outputs.len()])
        } else {
            None
        }
    }

    /// Records what the request handed out last gave.
    pub fn record(&mut self, result: Result<CommandOutput, ElevationError>)
        requires
            old(self)@.next() is Some,
        ensures
            final(self)@ == old(self)@.recorded(result),
            final(self)@.wf(),
    {
        match result {
            Ok(o) => self.outputs.push(o),
            Err(e) => self.failure = Some(e),
        }
    }

    /// The batch's result: the first failure, or every output in order.
    pub fn into_result(self) -> (r: Result<Vec<CommandOutput>, ElevationError>)
        ensures
            match r {
                Ok(v) => self@.result() == Ok::<Seq<CommandOutput>, ElevationError>(v@),
                Err(e) => self@.result() == Err::<Seq<CommandOutput>, ElevationError>(e),
            },
    {
        match self.failure {
            Some(e) => Err(e),
            None => Ok(self.outputs),
        }
    }
}

/// The session counts as authenticated at `now` only inside the window that a
/// successful authentication opens: it needs a confirmation less than the
/// lifetime old; a successful authentication at `t` makes it hold exactly
/// while less than the lifetime has elapsed since `t`; an explicit
/// invalidation, or an output whose diagnostic reports an expired session,
/// ends it at every time; and no other step (an output, a keeper's renewal)
/// makes it hold where it did not.
pub proof fn lemma_authenticated_only_inside_window(
    g: GatewayView,
    now: u64,
    t: u64,
    output: CommandOutput,
    k: KeeperView,
    renewed: bool,
)
    ensures
        g.is_authenticated(now) ==> g.cache.holds_confirmation() && crate::session::elapsed(
            g.cache.last_auth->0,
            now,
        ) < g.cache.cache_duration,
        g.authenticated_at(t).is_authenticated(now) <==> crate::session::elapsed(t, now)
            < g.cache.cache_duration,
        !g.invalidated().is_authenticated(now),
        !output.success && diagnostic_of(output.stderr@) == Diagnostic::SessionExpired
            ==> !g.after_output(output).is_authenticated(now),
        g.after_output(output).is_authenticated(now) ==> g.is_authenticated(now),
        g.after_renewal(k, renewed).is_authenticated(now) ==> g.is_authenticated(now),
        !GatewayView::initial(g.sudo_available).is_authenticated(now),
{
}

/// Authenticating twice in a row prompts at most once: after a successful
/// authentication at `t1`, authenticating again at `t2`, while the lifetime
/// has not run out, takes the cached path.
pub proof fn lemma_second_authentication_is_cached(g: GatewayView, t1: u64, t2: u64)
    requires
        g.sudo_available,
        crate::session::elapsed(t1, t2) < g.cache.cache_duration,
    ensures
        g.authenticated_at(t1).auth_plan(t2) == Ok::<AuthPlan, ElevationError>(AuthPlan::Cached),
{
}

/// Before any authentication, execution fails with `AuthenticationRequired`
/// at every time, so no invocation is handed out to run; steps other than
/// authentication never change that.
pub proof fn lemma_execute_requires_authentication(
    g: GatewayView,
    now: u64,
    output: CommandOutput,
    k: KeeperView,
    renewed: bool,
)
    requires
        g.sudo_available,
        !g.cache.holds_confirmation(),
    ensures
        g.execution_check(now) == Err::<(), ElevationError>(ElevationError::AuthenticationRequired),
        GatewayView::initial(true).execution_check(now) == Err::<(), ElevationError>(
            ElevationError::AuthenticationRequired,
        ),
        !g.after_output(output).cache.holds_confirmation(),
        !g.after_renewal(k, renewed).cache.holds_confirmation(),
        !g.invalidated().cache.holds_confirmation(),
{
}

/// A batch `[a, b, c]` whose second request fails: `a` ran and its output is
/// kept, `c` is never handed out, and the batch's result is `b`'s failure.
pub proof fn lemma_batch_stops_at_first_failure(
    a: CommandRequest,
    b: CommandRequest,
    c: CommandRequest,
    out_a: CommandOutput,
    err_b: ElevationError,
)
    ensures
        ({
            let s0 = BatchView::start(seq![a, b, c]);
            let s1 = s0.recorded(Ok(out_a));
            let s2 = s1.recorded(Err(err_b));
            &&& s0.next() == Some(a)
            &&& s1.next() == Some(b)
            &&& s2.next() is None
            &&& s2.outputs == seq![out_a]
            &&& s2.result() == Err::<Seq<CommandOutput>, ElevationError>(err_b)
        }),
{
}

/// Once a batch has recorded a failure it hands out no further request, and
/// its result is that failure.
pub proof fn lemma_batch_failure_is_final(s: BatchView, e: ElevationError)
    requires
        s.next() is Some,
    ensures
        s.recorded(Err(e)).next() is None,
        s.recorded(Err(e)).outputs == s.outputs,
        s.recorded(Err(e)).result() == Err::<Seq<CommandOutput>, ElevationError>(e),
{
}

/// Invalidation is idempotent, and leaves the gateway unauthenticated at
/// every time, also when it never authenticated.
pub proof fn lemma_invalidate_idempotent(g: GatewayView, now: u64)
    ensures
        g.invalidated().invalidated() == g.invalidated(),
        !g.invalidated().is_authenticated(now),
        !GatewayView::initial(g.sudo_available).invalidated().is_authenticated(now),
{
}

/// At most one keeper acts for a gateway: two keepers that are both told to
/// renew are the same start of the keeper; and after an invalidation, or
/// after a newer authentication, no earlier keeper is told to renew.
pub proof fn lemma_single_acting_keeper(g: GatewayView, k1: KeeperView, k2: KeeperView, now: u64)
    ensures
        g.keeper_decision(k1) == KeeperStep::Renew && g.keeper_decision(k2) == KeeperStep::Renew
            ==> k1.id == k2.id,
        g.invalidated().keeper_decision(k1) == KeeperStep::Stop,
        k1.id != g.next_keeper ==> g.authenticated_at(now).keeper_decision(k1) == KeeperStep::Stop,
{
}

} // verus!
