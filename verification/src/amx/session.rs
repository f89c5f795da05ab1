//! The per-thread discipline of AMX sessions: nesting depth, the loaded
//! configuration, and the tile instruction each transition calls for.
//!
//! The state here is the whole of what a thread remembers between session
//! calls; whoever owns the thread-local storage applies each transition and
//! then executes the returned [`TileCommand`] on the hardware.

use vstd::prelude::*;
use crate::amx::config::{AmxConfig, lemma_same_is_equal};

verus! {

/// What a thread knows about its AMX sessions.
#[derive(Debug, Clone, Copy)]
pub struct AmxThreadState {
    /// How many sessions are open on the thread.
    pub depth: usize,
    /// The configuration loaded into the tile registers, if any.
    pub active: Option<AmxConfig>,
}

/// The tile instruction a session transition calls for.
#[derive(Debug, Clone, Copy, PartialEq, Eq, Structural)]
pub enum TileCommand {
    /// Nothing to execute.
    Keep,
    /// Execute `ldtilecfg` with the configuration just entered.
    Load,
    /// Execute `tilerelease`.
    Release,
}

/// Error returned when an AMX session cannot be entered safely.
#[derive(Debug, Clone, Copy, PartialEq, Eq, Structural)]
pub enum AmxSessionError {
    /// The current host cannot execute AMX tile instructions safely.
    UnsupportedTarget,
}

impl AmxSessionError {
    /// The error's message.
    pub fn message(&self) -> (s: &'static str)
        ensures
            s@ == "AMX tile instructions are not supported or enabled for this process"@,
    {
        "AMX tile instructions are not supported or enabled for this process"
    }
}

/// A thread with no open session and nothing loaded.
pub open spec fn idle_state() -> AmxThreadState {
    AmxThreadState { depth: 0, active: None }
}

/// Whether the loaded configuration already is `config`.
pub open spec fn holds_config(s: AmxThreadState, config: AmxConfig) -> bool {
    s.active matches Some(c) && c.same_spec(config)
}

/// Entering a session: one level deeper; the configuration is loaded unless
/// an enclosing session already holds the same one.
pub open spec fn enter_spec(s: AmxThreadState, config: AmxConfig) -> (AmxThreadState, TileCommand) {
    if s.depth > 0 && holds_config(s, config) {
        (AmxThreadState { depth: (s.depth + 1) as usize, active: s.active }, TileCommand::Keep)
    } else {
        (AmxThreadState { depth: (s.depth + 1) as usize, active: Some(config) }, TileCommand::Load)
    }
}

/// Leaving a session: one level up; leaving the outermost session releases
/// the tiles.
pub open spec fn exit_spec(s: AmxThreadState) -> (AmxThreadState, TileCommand) {
    if s.depth > 1 {
        (AmxThreadState { depth: (s.depth - 1) as usize, active: s.active }, TileCommand::Keep)
    } else {
        (idle_state(), TileCommand::Release)
    }
}

/// Releasing explicitly: the thread forgets every session; the tiles are
/// released when a configuration was loaded and the host runs AMX.
pub open spec fn release_spec(s: AmxThreadState, supported: bool) -> (AmxThreadState, TileCommand) {
    (idle_state(), if s.active is Some && supported { TileCommand::Release } else { TileCommand::Keep })
}

impl AmxThreadState {
    /// A thread before its first session.
    pub fn new() -> (s: Self)
        ensures
            s == idle_state(),
    {
        AmxThreadState { depth: 0, active: None }
    }
}

/// A session guard: while one is open the thread's tile registers hold a
/// configuration.
pub struct AmxSession {
    _private: (),
}

impl AmxSession {
    /// Whether a session is active on the thread.
    pub fn is_active(state: &AmxThreadState) -> (r: bool)
        ensures
            r == state.active is Some,
    {
        state.active.is_some()
    }

    /// Enters a session with `config` on a host that does (`supported`) or
    /// does not run AMX; on success returns the guard and the tile
    /// instruction to execute.
    pub fn new(state: &mut AmxThreadState, config: &AmxConfig, supported: bool) -> (r: Result<
        (AmxSession, TileCommand),
        AmxSessionError,
    >)
        requires
            old(state).depth < usize::MAX,
        ensures
            !supported ==> r == Err::<(AmxSession, TileCommand), AmxSessionError>(AmxSessionError::UnsupportedTarget)
                && *final(state) == *old(state),
            supported ==> (r matches Ok((_, cmd)) && (*final(state), cmd) == enter_spec(*old(state), *config)),
            supported && old(state).active != Some(*config) ==> (r matches Ok((_, cmd)) && cmd == TileCommand::Load
                && final(state).active == Some(*config)),
            supported ==> final(state).depth == old(state).depth + 1,
    {
        proof {
            lemma_enter_loads_a_different_config(*old(state), *config);
        }
        if !supported {
            return Err(AmxSessionError::UnsupportedTarget);
        }
        let depth = state.depth;
        state.depth = depth + 1;
        let cmd = if depth == 0 {
            state.active = Some(*config);
            TileCommand::Load
        } else {
            let same = match &state.active {
                Some(c) => c.same_as(config),
                None => false,
            };
            if same {
                TileCommand::Keep
            } else {
                state.active = Some(*config);
                TileCommand::Load
            }
        };
        Ok((AmxSession { _private: () }, cmd))
    }

    /// Releases the tile registers explicitly and forgets every open session.
    pub fn release(state: &mut AmxThreadState, supported: bool) -> (cmd: TileCommand)
        ensures
            (*final(state), cmd) == release_spec(*old(state), supported),
            *final(state) == idle_state(),
            cmd == TileCommand::Release <==> (old(state).active is Some && supported),
    {
        proof {
            lemma_release_releases_loaded_tiles(*old(state), supported);
        }
        let active = Self::is_active(state);
        let cmd = if active && supported { TileCommand::Release } else { TileCommand::Keep };
        state.active = None;
        state.depth = 0;
        cmd
    }

    /// Leaves the session: what dropping the guard does.
    pub fn exit(self, state: &mut AmxThreadState) -> (cmd: TileCommand)
        ensures
            (*final(state), cmd) == exit_spec(*old(state)),
            old(state).depth > 1 ==> cmd == TileCommand::Keep && final(state).active == old(state).active
                && final(state).depth == old(state).depth - 1,
            old(state).depth <= 1 ==> cmd == TileCommand::Release && *final(state) == idle_state(),
    {
        let depth = if state.depth > 0 {
            state.depth = state.depth - 1;
            state.depth
        } else {
            0
        };
        if depth == 0 {
            state.active = None;
            TileCommand::Release
        } else {
            TileCommand::Keep
        }
    }
}

/// A guard for one batch computation: loads its configuration on entry and
/// releases the tiles when it ends, whatever sessions were open.
pub struct AmxBatchSession;

/// Beginning a batch: the configuration is loaded; nesting is untouched.
pub open spec fn begin_batch_spec(s: AmxThreadState, config: AmxConfig) -> (AmxThreadState, TileCommand) {
    (AmxThreadState { depth: s.depth, active: Some(config) }, TileCommand::Load)
}

impl AmxBatchSession {
    /// Begins a batch computation with `config` on a host that does
    /// (`supported`) or does not run AMX.
    pub fn begin(state: &mut AmxThreadState, config: &AmxConfig, supported: bool) -> (r: Result<
        (AmxBatchSession, TileCommand),
        AmxSessionError,
    >)
        ensures
            !supported ==> r == Err::<(AmxBatchSession, TileCommand), AmxSessionError>(AmxSessionError::UnsupportedTarget)
                && *final(state) == *old(state),
            supported ==> (r matches Ok((_, cmd)) && (*final(state), cmd) == begin_batch_spec(*old(state), *config)),
            supported ==> (r matches Ok((_, cmd)) && cmd == TileCommand::Load && final(state).active == Some(*config)
                && final(state).depth == old(state).depth),
    {
        proof {
            lemma_batch_always_loads(*old(state), *config);
        }
        if !supported {
            return Err(AmxSessionError::UnsupportedTarget);
        }
        state.active = Some(*config);
        Ok((AmxBatchSession, TileCommand::Load))
    }

    /// Ends the batch: what dropping the guard does.
    pub fn end(self, state: &mut AmxThreadState) -> (cmd: TileCommand)
        ensures
            *final(state) == idle_state(),
            cmd == TileCommand::Release,
    {
        state.active = None;
        state.depth = 0;
        TileCommand::Release
    }
}

/// A session entered inside another session with the same configuration
/// and then left restores the thread exactly, and neither step touches the
/// tile registers.
pub proof fn lemma_nested_session_restores(s: AmxThreadState, config: AmxConfig)
    requires
        s.depth >= 1,
        s.depth < usize::MAX,
        holds_config(s, config),
    ensures
        enter_spec(s, config).1 == TileCommand::Keep,
        exit_spec(enter_spec(s, config).0).1 == TileCommand::Keep,
        exit_spec(enter_spec(s, config).0).0 == s,
{
}

/// The outermost session loads its configuration and, when left, releases
/// the tiles and returns the thread to idle.
pub proof fn lemma_outer_session_round_trip(config: AmxConfig)
    ensures
        enter_spec(idle_state(), config) == (AmxThreadState { depth: 1, active: Some(config) }, TileCommand::Load),
        exit_spec(enter_spec(idle_state(), config).0) == (idle_state(), TileCommand::Release),
{
}

/// `n` sessions entered with one configuration.
pub open spec fn enter_times(s: AmxThreadState, config: AmxConfig, n: nat) -> AmxThreadState
    decreases n,
{
    if n == 0 { s } else { enter_spec(enter_times(s, config, (n - 1) as nat), config).0 }
}

/// `n` sessions left.
pub open spec fn exit_times(s: AmxThreadState, n: nat) -> AmxThreadState
    decreases n,
{
    if n == 0 { s } else { exit_spec(exit_times(s, (n - 1) as nat)).0 }
}

/// However deeply sessions with one configuration nest, the configuration
/// stays active until the outermost one is left, and leaving them all
/// returns the thread to idle.
pub proof fn lemma_nesting_keeps_config_until_outer_exit(config: AmxConfig, n: nat, k: nat)
    requires
        1 <= n < usize::MAX,
        k <= n,
    ensures
        enter_times(idle_state(), config, n) == (AmxThreadState { depth: n as usize, active: Some(config) }),
        k < n ==> exit_times(enter_times(idle_state(), config, n), k)
            == (AmxThreadState { depth: (n - k) as usize, active: Some(config) }),
        exit_times(enter_times(idle_state(), config, n), n) == idle_state(),
    decreases n,
{
    lemma_enter_times(config, n);
    lemma_exit_times(config, n, k);
    lemma_exit_times(config, n, n);
}

proof fn lemma_enter_times(config: AmxConfig, n: nat)
    requires
        n < usize::MAX,
    ensures
        n >= 1 ==> enter_times(idle_state(), config, n) == (AmxThreadState { depth: n as usize, active: Some(config) }),
        n == 0 ==> enter_times(idle_state(), config, n) == idle_state(),
    decreases n,
{
    if n > 0 {
        lemma_enter_times(config, (n - 1) as nat);
        assert(config.same_spec(config));
    }
}

proof fn lemma_exit_times(config: AmxConfig, n: nat, k: nat)
    requires
        1 <= n < usize::MAX,
        k <= n,
    ensures
        k < n ==> exit_times(AmxThreadState { depth: n as usize, active: Some(config) }, k)
            == (AmxThreadState { depth: (n - k) as usize, active: Some(config) }),
        k == n ==> exit_times(AmxThreadState { depth: n as usize, active: Some(config) }, k) == idle_state(),
    decreases k,
{
    if k > 0 {
        lemma_exit_times(config, n, (k - 1) as nat);
    }
}

/// Entering a session with a configuration other than the one the thread
/// holds, at any depth, loads it: the tiles then hold exactly `config`.
/// Only the very same configuration, already loaded by an enclosing session,
/// is kept.
pub proof fn lemma_enter_loads_a_different_config(s: AmxThreadState, config: AmxConfig)
    requires
        s.depth < usize::MAX,
    ensures
        s.active != Some(config) ==> enter_spec(s, config).1 == TileCommand::Load
            && enter_spec(s, config).0.active == Some(config),
        enter_spec(s, config).1 == TileCommand::Keep ==> s.depth > 0 && s.active == Some(config),
        enter_spec(s, config).0.active == Some(config),
        enter_spec(s, config).0.depth == s.depth + 1,
{
    if let Some(c) = s.active {
        lemma_same_is_equal(c, config);
    }
}

/// Releasing explicitly always leaves the thread idle, and releases the tiles
/// exactly when a configuration is loaded on a host that runs AMX, whatever
/// the nesting depth.
pub proof fn lemma_release_releases_loaded_tiles(s: AmxThreadState, supported: bool)
    ensures
        release_spec(s, supported).0 == idle_state(),
        (release_spec(s, supported).1 == TileCommand::Release) <==> (s.active is Some && supported),
        (release_spec(s, supported).1 == TileCommand::Keep) <==> (s.active is None || !supported),
{
}

/// Beginning a batch always loads its own configuration, whatever sessions
/// are open and whatever they hold, and leaves the nesting depth alone.
pub proof fn lemma_batch_always_loads(s: AmxThreadState, config: AmxConfig)
    ensures
        begin_batch_spec(s, config).1 == TileCommand::Load,
        begin_batch_spec(s, config).0.active == Some(config),
        begin_batch_spec(s, config).0.depth == s.depth,
{
}

/// Leaving a nested session keeps the tiles and the loaded configuration
/// and goes one level up; leaving the outermost one releases the tiles and
/// leaves the thread idle.
pub proof fn lemma_exit_releases_only_outermost(s: AmxThreadState)
    ensures
        s.depth > 1 ==> exit_spec(s).1 == TileCommand::Keep && exit_spec(s).0.active == s.active
            && exit_spec(s).0.depth == s.depth - 1,
        s.depth <= 1 ==> exit_spec(s).1 == TileCommand::Release && exit_spec(s).0 == idle_state(),
{
}

} // verus!
