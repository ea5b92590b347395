//! The bridge to the native typesetting engine.
//!
//! The native engine is stateful and not reentrant, so every invocation
//! runs under a process-wide lock; the bridge pushes the engine's named
//! flag variables immediately before each call, lets the engine work the
//! I/O stack, and maps the engine's small completion code into a structured
//! result, fetching the fatal message while the lock is still held.
//!
//! The engine itself is outside this crate; one invocation's observable
//! behaviour enters as a plain `PassScript` value: the resources the engine
//! asks to read, the files it writes, the chatter it emits, and the
//! completion code it returns. The bridge is verified for every such
//! script.

use vstd::prelude::*;

use crate::errors::{ResolutionError, SessionError, StackError};
use crate::iostack::{spec_read, spec_write, IoStack, StackModel};

verus! {

/// The engine's non-fatal completion states. A fatal completion carries a
/// message and is reported as an error, never as a `TexResult`.
#[derive(Clone, Copy, Debug, Eq, PartialEq, Structural)]
pub enum TexResult {
    Spotless,
    Warnings,
    Errors,
}

/// Host-level overrides that reach the engine as flag variables.
#[derive(Clone, Copy, Debug, Eq, PartialEq, Structural)]
pub struct UnstableOptions {
    pub continue_on_errors: bool,
    pub shell_escape: bool,
}

impl Default for UnstableOptions {
    /// No overrides.
    fn default() -> (r: UnstableOptions)
        ensures
            r == (UnstableOptions { continue_on_errors: false, shell_escape: false }),
    {
        UnstableOptions { continue_on_errors: false, shell_escape: false }
    }
}

/// The engine's named integer variables, set write-only before each call.
#[derive(Clone, Copy, Debug, Eq, PartialEq, Structural)]
pub enum EngineVariable {
    HaltOnErrorP,
    ShellEscapeEnabled,
    InInitexMode,
    SynctexEnabled,
    SemanticPaginationEnabled,
}

/// One variable assignment pushed into the engine.
#[derive(Clone, Copy, Debug, Eq, PartialEq, Structural)]
pub struct EngineSetting {
    pub name: EngineVariable,
    pub value: i32,
}

/// What one engine invocation observably does: which resources it opens
/// for reading, what it writes, the chatter it emits, its completion code
/// (with the fatal message valid only for a fatal code), and whether the
/// convergence heuristic reports that auxiliary state changed.
#[derive(Debug)]
pub struct PassScript {
    pub reads: Vec<Vec<u8>>,
    pub writes: Vec<(Vec<u8>, Vec<u8>)>,
    pub chatter: Vec<u8>,
    pub completion_code: i32,
    pub fatal_message: String,
    pub aux_changed: bool,
}

/// The observable events of the bridge, in order, across all invocations.
#[derive(Clone, Copy, Debug, Eq, PartialEq, Structural)]
pub enum BridgeEvent {
    Acquire,
    EngineEntry,
    MessageFetch,
    Release,
}

/// The change an event makes to the number of invocations in flight.
pub open spec fn event_delta(e: BridgeEvent) -> int {
    match e {
        BridgeEvent::Acquire => 1,
        BridgeEvent::Release => -1,
        _ => 0,
    }
}

/// How many invocations are in flight after a trace of bridge events.
pub open spec fn active(evs: Seq<BridgeEvent>) -> int
    decreases evs.len(),
{
    if evs.len() == 0 {
        0
    } else {
        active(evs.drop_last()) + event_delta(evs.last())
    }
}

/// At every point of the trace, the number of invocations in flight is
/// between zero and one.
pub open spec fn prefix_wf(evs: Seq<BridgeEvent>) -> bool {
    forall|i: int| 0 <= i <= evs.len() ==> 0 <= active(#[trigger] evs.take(i)) <= 1
}

/// Appending one event changes the in-flight count by the event's delta.
pub proof fn lemma_active_push(evs: Seq<BridgeEvent>, e: BridgeEvent)
    ensures
        active(evs.push(e)) == active(evs) + event_delta(e),
{
    assert(evs.push(e).drop_last() =~= evs);
    assert(evs.push(e).last() == e);
}

/// A well-formed trace stays well-formed when an event keeps the in-flight
/// count within bounds.
pub proof fn lemma_prefix_wf_push(evs: Seq<BridgeEvent>, e: BridgeEvent)
    requires
        prefix_wf(evs),
        0 <= active(evs) + event_delta(e) <= 1,
    ensures
        prefix_wf(evs.push(e)),
        active(evs.push(e)) == active(evs) + event_delta(e),
{
    lemma_active_push(evs, e);
    assert forall|i: int| 0 <= i <= evs.push(e).len() implies 0 <= active(
        #[trigger] evs.push(e).take(i),
    ) <= 1 by {
        if i <= evs.len() {
            assert(evs.push(e).take(i) =~= evs.take(i));
        } else {
            assert(evs.push(e).take(i) =~= evs.push(e));
        }
    }
}

/// The process-wide mutual-exclusion lock around the native engine,
/// guarding the engine's global variable state. The event trace records
/// every acquisition, engine entry, message fetch and release that the
/// bridge performs.
#[derive(Debug)]
pub struct EngineLock {
    pub in_flight: u32,
    pub events: Vec<BridgeEvent>,
    pub variables: Vec<EngineSetting>,
}

impl EngineLock {
    /// The trace is well-formed and the in-flight counter agrees with it.
    pub open spec fn wf(&self) -> bool {
        prefix_wf(self.events@) && self.in_flight == active(self.events@)
    }

    /// A fresh, free lock with an empty trace.
    pub fn new() -> (r: EngineLock)
        ensures
            r.wf(),
            r.in_flight == 0,
            r.events@.len() == 0,
            r.variables@.len() == 0,
    {
        let r = EngineLock { in_flight: 0, events: Vec::new(), variables: Vec::new() };
        proof {
            assert forall|i: int| 0 <= i <= r.events@.len() implies 0 <= active(
                #[trigger] r.events@.take(i),
            ) <= 1 by {
                assert(r.events@.take(i) =~= r.events@);
            }
        }
        r
    }

    /// Take the lock; only a free lock can be taken, which is what makes
    /// overlapping invocations impossible.
    pub fn acquire(&mut self)
        requires
            old(self).wf(),
            old(self).in_flight == 0,
        ensures
            final(self).wf(),
            final(self).in_flight == 1,
            final(self).events@ == old(self).events@.push(BridgeEvent::Acquire),
            final(self).variables == old(self).variables,
    {
        proof {
            lemma_prefix_wf_push(self.events@, BridgeEvent::Acquire);
        }
        self.in_flight = 1;
        self.events.push(BridgeEvent::Acquire);
    }

    /// Record an event that neither takes nor frees the lock.
    pub fn mark(&mut self, e: BridgeEvent)
        requires
            old(self).wf(),
            old(self).in_flight == 1,
            event_delta(e) == 0,
        ensures
            final(self).wf(),
            final(self).in_flight == 1,
            final(self).events@ == old(self).events@.push(e),
            final(self).variables == old(self).variables,
    {
        proof {
            lemma_prefix_wf_push(self.events@, e);
        }
        self.events.push(e);
    }

    /// Free the lock.
    pub fn release(&mut self)
        requires
            old(self).wf(),
            old(self).in_flight == 1,
        ensures
            final(self).wf(),
            final(self).in_flight == 0,
            final(self).events@ == old(self).events@.push(BridgeEvent::Release),
            final(self).variables == old(self).variables,
    {
        proof {
            lemma_prefix_wf_push(self.events@, BridgeEvent::Release);
        }
        self.in_flight = 0;
        self.events.push(BridgeEvent::Release);
    }
}

/// Two engine invocations never overlap: at every point of a well-formed
/// bridge trace, at most one invocation is in flight.
pub proof fn lemma_mutual_exclusion(evs: Seq<BridgeEvent>)
    requires
        prefix_wf(evs),
    ensures
        forall|i: int| 0 <= i <= evs.len() ==> active(#[trigger] evs.take(i)) <= 1,
{
}

/// The flag variables one invocation pushes into the engine, in order:
/// halt-on-error (overridden to off when the host asked to continue past
/// errors), shell-escape permission, init-mode, SyncTeX generation, and
/// semantic pagination.
pub open spec fn spec_settings(e: TexEngine, u: UnstableOptions) -> Seq<EngineSetting> {
    seq![
        EngineSetting {
            name: EngineVariable::HaltOnErrorP,
            value: if e.halt_on_error && !u.continue_on_errors {
                1
            } else {
                0
            },
        },
        EngineSetting {
            name: EngineVariable::ShellEscapeEnabled,
            value: if u.shell_escape {
                1
            } else {
                0
            },
        },
        EngineSetting {
            name: EngineVariable::InInitexMode,
            value: if e.initex_mode {
                1
            } else {
                0
            },
        },
        EngineSetting {
            name: EngineVariable::SynctexEnabled,
            value: if e.synctex_enabled {
                1
            } else {
                0
            },
        },
        EngineSetting {
            name: EngineVariable::SemanticPaginationEnabled,
            value: if e.semantic_pagination_enabled {
                1
            } else {
                0
            },
        },
    ]
}

/// The structured result of one invocation.
pub enum PassResultModel {
    /// The engine completed with a non-fatal history code.
    Done(TexResult),
    /// A resource the engine asked for could not be resolved.
    Resolution(Seq<u8>, ResolutionError),
    /// A write the engine attempted was refused.
    Stack(Seq<u8>, StackError),
    /// The engine signaled a fatal condition with this message.
    EngineFatal(Seq<char>),
    /// The engine returned a code outside its protocol.
    Internal(i32),
}

/// Run the script's reads against the stack, stopping at the first
/// failure.
pub open spec fn spec_apply_reads(m: StackModel, reads: Seq<Vec<u8>>) -> (Option<
    (Seq<u8>, ResolutionError),
>, StackModel)
    decreases reads.len(),
{
    if reads.len() == 0 {
        (None, m)
    } else {
        let (r, m2) = spec_read(m, reads[0]@);
        match r {
            Ok(_) => spec_apply_reads(m2, reads.drop_first()),
            Err(e) => (Some((reads[0]@, e)), m2),
        }
    }
}

/// Run the script's writes against the stack, stopping at the first
/// refusal.
pub open spec fn spec_apply_writes(m: StackModel, writes: Seq<(Vec<u8>, Vec<u8>)>) -> (Option<
    (Seq<u8>, StackError),
>, StackModel)
    decreases writes.len(),
{
    if writes.len() == 0 {
        (None, m)
    } else {
        let (r, m2) = spec_write(m, writes[0].0@, writes[0].1@);
        match r {
            Ok(_) => spec_apply_writes(m2, writes.drop_first()),
            Err(e) => (Some((writes[0].0@, e)), m2),
        }
    }
}

/// The engine's completion protocol: codes zero through two are the
/// non-fatal histories, three is fatal with a message, and anything else
/// breaks the contract.
pub open spec fn spec_interpret_code(code: int, fatal_message: Seq<char>) -> PassResultModel {
    if code == 0 {
        PassResultModel::Done(TexResult::Spotless)
    } else if code == 1 {
        PassResultModel::Done(TexResult::Warnings)
    } else if code == 2 {
        PassResultModel::Done(TexResult::Errors)
    } else if code == 3 {
        PassResultModel::EngineFatal(fatal_message)
    } else {
        PassResultModel::Internal(code as i32)
    }
}

/// One whole invocation against the stack: the reads, then the writes,
/// then the chatter, then the completion code. A file fault aborts the
/// pass where it happened.
pub open spec fn spec_pass(m: StackModel, script: PassScript) -> (PassResultModel, StackModel) {
    let (rfault, m1) = spec_apply_reads(m, script.reads@);
    match rfault {
        Some((name, e)) => (PassResultModel::Resolution(name, e), m1),
        None => {
            let (wfault, m2) = spec_apply_writes(m1, script.writes@);
            match wfault {
                Some((name, e)) => (PassResultModel::Stack(name, e), m2),
                None => {
                    let m3 = StackModel { chatter: m2.chatter + script.chatter@, ..m2 };
                    (
                        spec_interpret_code(script.completion_code as int, script.fatal_message@),
                        m3,
                    )
                },
            }
        },
    }
}

/// Does the bridge's returned result realize the pass-result model?
pub open spec fn result_matches(r: Result<TexResult, SessionError>, pr: PassResultModel) -> bool {
    match pr {
        PassResultModel::Done(t) => r == Ok::<TexResult, SessionError>(t),
        PassResultModel::Resolution(name, e) => match r {
            Err(SessionError::Resolution(n, ee)) => n@ == name && ee == e,
            _ => false,
        },
        PassResultModel::Stack(name, e) => match r {
            Err(SessionError::Stack(n, ee)) => n@ == name && ee == e,
            _ => false,
        },
        PassResultModel::EngineFatal(msg) => match r {
            Err(SessionError::Engine(s)) => s@ == msg,
            _ => false,
        },
        PassResultModel::Internal(c) => match r {
            Err(SessionError::Internal(cc)) => cc == c,
            _ => false,
        },
    }
}

/// The trace one invocation appends: acquire, enter the engine, fetch the
/// fatal message while still holding the lock if the engine went fatal,
/// release.
pub open spec fn spec_pass_events(pr: PassResultModel) -> Seq<BridgeEvent> {
    if pr is EngineFatal {
        seq![
            BridgeEvent::Acquire,
            BridgeEvent::EngineEntry,
            BridgeEvent::MessageFetch,
            BridgeEvent::Release,
        ]
    } else {
        seq![BridgeEvent::Acquire, BridgeEvent::EngineEntry, BridgeEvent::Release]
    }
}

/// The engine configuration the host assembles before a run: the flags the
/// bridge pushes into the engine, and the pinned build date in seconds
/// since the epoch (zero for fully reproducible builds).
#[derive(Clone, Copy, Debug, Eq, PartialEq, Structural)]
pub struct TexEngine {
    pub halt_on_error: bool,
    pub initex_mode: bool,
    pub synctex_enabled: bool,
    pub semantic_pagination_enabled: bool,
    pub build_date: u64,
}

impl Default for TexEngine {
    /// Halt on errors, normal mode, no SyncTeX, no semantic pagination,
    /// epoch build date.
    fn default() -> (r: TexEngine)
        ensures
            r == (TexEngine {
                halt_on_error: true,
                initex_mode: false,
                synctex_enabled: false,
                semantic_pagination_enabled: false,
                build_date: 0,
            }),
    {
        TexEngine {
            halt_on_error: true,
            initex_mode: false,
            synctex_enabled: false,
            semantic_pagination_enabled: false,
            build_date: 0,
        }
    }
}

impl TexEngine {
    /// A fresh engine configuration with the default flags.
    pub fn new() -> (r: TexEngine)
        ensures
            r == (TexEngine {
                halt_on_error: true,
                initex_mode: false,
                synctex_enabled: false,
                semantic_pagination_enabled: false,
                build_date: 0,
            }),
    {
        TexEngine::default()
    }

    /// Configure whether the engine halts at the first error.
    pub fn halt_on_error_mode(&mut self, halt_on_error: bool) -> (r: &mut TexEngine)
        ensures
            *r == (TexEngine { halt_on_error, ..*old(self) }),
            *final(self) == *final(r),
    {
        self.halt_on_error = halt_on_error;
        self
    }

    /// Configure the engine to run in "initex" mode, in which it generates
    /// a format file that serializes the engine state rather than a
    /// document.
    pub fn initex_mode(&mut self, initex: bool) -> (r: &mut TexEngine)
        ensures
            *r == (TexEngine { initex_mode: initex, ..*old(self) }),
            *final(self) == *final(r),
    {
        self.initex_mode = initex;
        self
    }

    /// Configure the engine to produce SyncTeX data.
    pub fn synctex(&mut self, synctex_enabled: bool) -> (r: &mut TexEngine)
        ensures
            *r == (TexEngine { synctex_enabled, ..*old(self) }),
            *final(self) == *final(r),
    {
        self.synctex_enabled = synctex_enabled;
        self
    }

    /// Configure the engine to use semantic pagination, in which top-level
    /// boxes are output vertically as they are created and page breaks
    /// carry organizational meaning only.
    pub fn semantic_pagination(&mut self, enabled: bool) -> (r: &mut TexEngine)
        ensures
            *r == (TexEngine { semantic_pagination_enabled: enabled, ..*old(self) }),
            *final(self) == *final(r),
    {
        self.semantic_pagination_enabled = enabled;
        self
    }

    /// Pin the date and time the engine sees, in seconds since the epoch;
    /// reproducible builds keep the default of zero.
    pub fn build_date(&mut self, date: u64) -> (r: &mut TexEngine)
        ensures
            *r == (TexEngine { build_date: date, ..*old(self) }),
            *final(self) == *final(r),
    {
        self.build_date = date;
        self
    }

    /// The variable assignments this configuration pushes into the engine.
    fn build_settings(&self, unstables: &UnstableOptions) -> (r: Vec<EngineSetting>)
        ensures
            r@ == spec_settings(*self, *unstables),
    {
        let mut v: Vec<EngineSetting> = Vec::new();
        let halt = self.halt_on_error && !unstables.continue_on_errors;
        v.push(
            EngineSetting { name: EngineVariable::HaltOnErrorP, value: if halt { 1 } else { 0 } },
        );
        v.push(
            EngineSetting {
                name: EngineVariable::ShellEscapeEnabled,
                value: if unstables.shell_escape { 1 } else { 0 },
            },
        );
        v.push(
            EngineSetting {
                name: EngineVariable::InInitexMode,
                value: if self.initex_mode { 1 } else { 0 },
            },
        );
        v.push(
            EngineSetting {
                name: EngineVariable::SynctexEnabled,
                value: if self.synctex_enabled { 1 } else { 0 },
            },
        );
        v.push(
            EngineSetting {
                name: EngineVariable::SemanticPaginationEnabled,
                value: if self.semantic_pagination_enabled { 1 } else { 0 },
            },
        );
        assert(v@ =~= spec_settings(*self, *unstables));
        v
    }

    /// Run one engine invocation: take the process-wide lock, push the
    /// flag variables, let the engine work the I/O stack as the script
    /// describes, collect its chatter, map its completion code, and fetch
    /// the fatal message before the lock is released.
    pub fn process(
        &mut self,
        lock: &mut EngineLock,
        io: &mut IoStack,
        script: &PassScript,
        unstables: &UnstableOptions,
    ) -> (r: Result<TexResult, SessionError>)
        requires
            old(lock).wf(),
            old(lock).in_flight == 0,
            old(io).wf(),
        ensures
            *final(self) == *old(self),
            final(io).wf(),
            final(lock).wf(),
            final(lock).in_flight == 0,
            final(lock).variables@ == spec_settings(*old(self), *unstables),
            ({
                let (pr, m2) = spec_pass(old(io)@, *script);
                &&& final(io)@ == m2
                &&& result_matches(r, pr)
                &&& final(lock).events@ == old(lock).events@ + spec_pass_events(pr)
            }),
    {
        lock.acquire();
        lock.variables = self.build_settings(unstables);
        lock.mark(BridgeEvent::EngineEntry);

        let ghost m0 = io@;
        proof {
            assert(script.reads@.skip(0) =~= script.reads@);
        }
        let n_reads = script.reads.len();
        let mut i: usize = 0;
        while i < n_reads
            invariant
                io.wf(),
                i <= n_reads,
                n_reads == script.reads@.len(),
                m0 == old(io)@,
                lock.wf(),
                lock.in_flight == 1,
                lock.events@ == old(lock).events@.push(BridgeEvent::Acquire).push(
                    BridgeEvent::EngineEntry,
                ),
                lock.variables@ == spec_settings(*old(self), *unstables),
                spec_apply_reads(m0, script.reads@) == spec_apply_reads(
                    io@,
                    script.reads@.skip(i as int),
                ),
            decreases n_reads - i,
        {
            let ghost pre = io@;
            match io.open_read(script.reads[i].as_slice()) {
                Ok(_) => {
                    proof {
                        let rest = script.reads@.skip(i as int);
                        assert(rest[0] == script.reads@[i as int]);
                        assert(rest.drop_first() =~= script.reads@.skip(i + 1));
                    }
                    i += 1;
                },
                Err(e) => {
                    proof {
                        let rest = script.reads@.skip(i as int);
                        assert(rest[0] == script.reads@[i as int]);
                    }
                    let name = script.reads[i].clone();
                    assert(name@ =~= script.reads@[i as int]@);
                    lock.release();
                    assert(lock.events@ =~= old(lock).events@ + spec_pass_events(
                        spec_pass(m0, *script).0,
                    ));
                    return Err(SessionError::Resolution(name, e));
                },
            }
        }
        proof {
            assert(script.reads@.skip(n_reads as int) =~= Seq::<Vec<u8>>::empty());
        }

        let ghost m1 = io@;
        proof {
            assert(script.writes@.skip(0) =~= script.writes@);
        }
        let n_writes = script.writes.len();
        let mut w: usize = 0;
        while w < n_writes
            invariant
                io.wf(),
                w <= n_writes,
                n_writes == script.writes@.len(),
                m0 == old(io)@,
                lock.wf(),
                lock.in_flight == 1,
                lock.events@ == old(lock).events@.push(BridgeEvent::Acquire).push(
                    BridgeEvent::EngineEntry,
                ),
                lock.variables@ == spec_settings(*old(self), *unstables),
                spec_apply_reads(m0, script.reads@) == (
                    None::<(Seq<u8>, ResolutionError)>,
                    m1,
                ),
                spec_apply_writes(m1, script.writes@) == spec_apply_writes(
                    io@,
                    script.writes@.skip(w as int),
                ),
            decreases n_writes - w,
        {
            let contents = script.writes[w].1.clone();
            assert(contents@ =~= script.writes@[w as int].1@);
            match io.open_write(script.writes[w].0.as_slice(), contents) {
                Ok(_) => {
                    proof {
                        let rest = script.writes@.skip(w as int);
                        assert(rest[0] == script.writes@[w as int]);
                        assert(rest.drop_first() =~= script.writes@.skip(w + 1));
                    }
                    w += 1;
                },
                Err(e) => {
                    proof {
                        let rest = script.writes@.skip(w as int);
                        assert(rest[0] == script.writes@[w as int]);
                    }
                    let name = script.writes[w].0.clone();
                    assert(name@ =~= script.writes@[w as int].0@);
                    lock.release();
                    assert(lock.events@ =~= old(lock).events@ + spec_pass_events(
                        spec_pass(m0, *script).0,
                    ));
                    return Err(SessionError::Stack(name, e));
                },
            }
        }
        proof {
            assert(script.writes@.skip(n_writes as int) =~= Seq::<(Vec<u8>, Vec<u8>)>::empty());
        }

        io.append_chatter(script.chatter.as_slice());
        let ghost pr = spec_pass(m0, *script).0;
        proof {
            assert(io@ =~= spec_pass(m0, *script).1);
        }

        let code = script.completion_code;
        if code == 0 {
            lock.release();
            assert(lock.events@ =~= old(lock).events@ + spec_pass_events(pr));
            Ok(TexResult::Spotless)
        } else if code == 1 {
            lock.release();
            assert(lock.events@ =~= old(lock).events@ + spec_pass_events(pr));
            Ok(TexResult::Warnings)
        } else if code == 2 {
            lock.release();
            assert(lock.events@ =~= old(lock).events@ + spec_pass_events(pr));
            Ok(TexResult::Errors)
        } else if code == 3 {
            let msg = script.fatal_message.clone();
            lock.mark(BridgeEvent::MessageFetch);
            lock.release();
            assert(lock.events@ =~= old(lock).events@ + spec_pass_events(pr));
            Err(SessionError::Engine(msg))
        } else {
            lock.release();
            assert(lock.events@ =~= old(lock).events@ + spec_pass_events(pr));
            Err(SessionError::Internal(code))
        }
    }
}

} // verus!
