//! The session orchestrator: pass sequencing, convergence, dependency-file
//! generation, and post-convergence cleanup.
//!
//! A processing session owns the I/O stack and the engine configuration
//! for its lifetime. It validates the configuration before any engine
//! call, invokes the engine bridge once per pass (with a
//! bibliography-processing pass first when so configured), reruns while
//! the convergence heuristic reports changed auxiliary state and budget
//! remains — or exactly as many times as an explicit rerun count demands —
//! and on completion serializes the touched-resource record as a
//! Makefile-format rule and discards intermediates that were not asked
//! for. On an abort it still flushes the dependency record and, for an
//! engine fatal, drains the chatter sink for diagnostics.

use vstd::prelude::*;
use vstd::slice::slice_to_vec;
use vstd::string::StringSliceAdditionalSpecFns;

use crate::bytes::{bytes_eq, bytes_ends_with, push_bytes, spec_ends_with, FileMap};
use crate::config::{
    spec_format_ext, spec_validate, format_ext, OutputFormat, PassSetting, SessionConfig,
};
use crate::engine::{
    result_matches, spec_pass, EngineLock, PassResultModel, PassScript, TexEngine, TexResult,
};
use crate::errors::{ConfigError, SessionError};
use crate::iostack::{DepEntry, DepEntryModel, IoStack, StackModel};

verus! {

/// Names joined by single spaces.
pub open spec fn space_joined(names: Seq<Seq<u8>>) -> Seq<u8>
    decreases names.len(),
{
    if names.len() == 0 {
        Seq::<u8>::empty()
    } else if names.len() == 1 {
        names[0]
    } else {
        space_joined(names.drop_last()) + " ".spec_bytes() + names.last()
    }
}

/// The identifiers recorded in the given direction, in first-seen order.
pub open spec fn dir_names(rec: Seq<DepEntryModel>, write: bool) -> Seq<Seq<u8>>
    decreases rec.len(),
{
    if rec.len() == 0 {
        Seq::<Seq<u8>>::empty()
    } else if rec.last().write == write {
        dir_names(rec.drop_last(), write).push(rec.last().name)
    } else {
        dir_names(rec.drop_last(), write)
    }
}

/// The dependency file: one Makefile rule whose targets are the resources
/// written and whose prerequisites are the resources read.
pub open spec fn spec_dep_file(rec: Seq<DepEntryModel>) -> Seq<u8> {
    space_joined(dir_names(rec, true)) + ": ".spec_bytes() + space_joined(dir_names(rec, false))
        + "\n".spec_bytes()
}

/// Collect the recorded identifiers of one direction.
fn collect_names(record: &Vec<DepEntry>, write: bool) -> (r: Vec<Vec<u8>>)
    ensures
        r@.map_values(|v: Vec<u8>| v@) == dir_names(
            record@.map_values(|e: DepEntry| e@),
            write,
        ),
{
    let n = record.len();
    let mut r: Vec<Vec<u8>> = Vec::new();
    let mut i: usize = 0;
    while i < n
        invariant
            i <= n,
            n == record@.len(),
            r@.map_values(|v: Vec<u8>| v@) == dir_names(
                record@.map_values(|e: DepEntry| e@).take(i as int),
                write,
            ),
        decreases n - i,
    {
        let ghost rv = record@.map_values(|e: DepEntry| e@);
        proof {
            assert(rv.take(i + 1).drop_last() =~= rv.take(i as int));
            assert(rv.take(i + 1).last() == rv[i as int]);
        }
        if record[i].write == write {
            let name = record[i].name.clone();
            assert(name@ =~= record@[i as int].name@);
            r.push(name);
            proof {
                assert(r@.map_values(|v: Vec<u8>| v@) =~= dir_names(rv.take(i + 1), write));
            }
        } else {
            proof {
                assert(r@.map_values(|v: Vec<u8>| v@) =~= dir_names(rv.take(i + 1), write));
            }
        }
        i += 1;
    }
    proof {
        assert(record@.map_values(|e: DepEntry| e@).take(n as int) =~= record@.map_values(
            |e: DepEntry| e@,
        ));
    }
    r
}

/// Join names with single spaces.
fn join_space(names: &Vec<Vec<u8>>) -> (r: Vec<u8>)
    ensures
        r@ == space_joined(names@.map_values(|v: Vec<u8>| v@)),
{
    let n = names.len();
    let mut r: Vec<u8> = Vec::new();
    if n == 0 {
        assert(r@ =~= space_joined(names@.map_values(|v: Vec<u8>| v@)));
        return r;
    }
    push_bytes(&mut r, names[0].as_slice());
    proof {
        let nv = names@.map_values(|v: Vec<u8>| v@);
        assert(r@ =~= nv.take(1)[0]);
        assert(r@ =~= space_joined(nv.take(1)));
    }
    let mut i: usize = 1;
    while i < n
        invariant
            1 <= i <= n,
            n == names@.len(),
            r@ == space_joined(names@.map_values(|v: Vec<u8>| v@).take(i as int)),
        decreases n - i,
    {
        push_bytes(&mut r, " ".as_bytes());
        push_bytes(&mut r, names[i].as_slice());
        proof {
            let nv = names@.map_values(|v: Vec<u8>| v@);
            assert(nv.take(i + 1).drop_last() =~= nv.take(i as int));
            assert(nv.take(i + 1).last() == nv[i as int]);
            assert(r@ =~= space_joined(nv.take(i + 1)));
        }
        i += 1;
    }
    proof {
        assert(names@.map_values(|v: Vec<u8>| v@).take(n as int) =~= names@.map_values(
            |v: Vec<u8>| v@,
        ));
    }
    r
}

/// Serialize the touched-resource record as build-rule text.
pub fn make_dep_file(record: &Vec<DepEntry>) -> (r: Vec<u8>)
    ensures
        r@ == spec_dep_file(record@.map_values(|e: DepEntry| e@)),
{
    let writes = collect_names(record, true);
    let reads = collect_names(record, false);
    let mut r = join_space(&writes);
    push_bytes(&mut r, ": ".as_bytes());
    let joined_reads = join_space(&reads);
    push_bytes(&mut r, joined_reads.as_slice());
    push_bytes(&mut r, "\n".as_bytes());
    proof {
        assert(r@ =~= spec_dep_file(record@.map_values(|e: DepEntry| e@)));
    }
    r
}

/// The name the final artifact is produced under: the input's stem with
/// the output format's extension.
pub open spec fn spec_output_name(input: Seq<u8>, f: OutputFormat) -> Seq<u8> {
    (if spec_ends_with(input, ".tex".spec_bytes()) {
        input.take(input.len() - ".tex".spec_bytes().len())
    } else {
        input
    }) + ".".spec_bytes() + spec_format_ext(f)
}

/// Compute the final artifact's file name.
pub fn output_name(input: &[u8], f: OutputFormat) -> (r: Vec<u8>)
    ensures
        r@ == spec_output_name(input@, f),
{
    let mut r: Vec<u8>;
    if bytes_ends_with(input, ".tex".as_bytes()) {
        let suffix_len = ".tex".as_bytes().len();
        r = crate::bytes::copy_range(input, 0, input.len() - suffix_len);
    } else {
        r = slice_to_vec(input);
    }
    push_bytes(&mut r, ".".as_bytes());
    push_bytes(&mut r, format_ext(f));
    proof {
        assert(r@ =~= spec_output_name(input@, f));
    }
    r
}

/// Is an output-directory entry kept after convergence?
pub open spec fn spec_keep(
    name: Seq<u8>,
    keep_all: bool,
    keep_logs: bool,
    final_name: Seq<u8>,
) -> bool {
    keep_all || name == final_name || (keep_logs && spec_ends_with(name, ".log".spec_bytes()))
}

/// The output-directory entries that survive cleanup.
pub open spec fn spec_retained(
    out: Seq<(Seq<u8>, Seq<u8>)>,
    keep_all: bool,
    keep_logs: bool,
    final_name: Seq<u8>,
) -> Seq<(Seq<u8>, Seq<u8>)>
    decreases out.len(),
{
    if out.len() == 0 {
        Seq::<(Seq<u8>, Seq<u8>)>::empty()
    } else if spec_keep(out.last().0, keep_all, keep_logs, final_name) {
        spec_retained(out.drop_last(), keep_all, keep_logs, final_name).push(out.last())
    } else {
        spec_retained(out.drop_last(), keep_all, keep_logs, final_name)
    }
}

/// The names of the entries cleanup discards, reported but non-fatal.
pub open spec fn spec_cleaned(
    out: Seq<(Seq<u8>, Seq<u8>)>,
    keep_all: bool,
    keep_logs: bool,
    final_name: Seq<u8>,
) -> Seq<Seq<u8>>
    decreases out.len(),
{
    if out.len() == 0 {
        Seq::<Seq<u8>>::empty()
    } else if spec_keep(out.last().0, keep_all, keep_logs, final_name) {
        spec_cleaned(out.drop_last(), keep_all, keep_logs, final_name)
    } else {
        spec_cleaned(out.drop_last(), keep_all, keep_logs, final_name).push(out.last().0)
    }
}

/// The terminal outcome of a session, at the view level.
pub enum SessionResultModel {
    /// Validation rejected the configuration; no engine call was made.
    Config(ConfigError),
    /// The passes ran and ended with this result.
    Pass(PassResultModel),
}

/// Everything a session run determines, at the view level.
pub struct SpecSessionOut {
    pub result: SessionResultModel,
    pub invocations: int,
    pub stack: StackModel,
    pub outputs: Seq<(Seq<u8>, Seq<u8>)>,
    pub cleaned: Seq<Seq<u8>>,
    pub dep_file: Option<Seq<u8>>,
    pub dumped: Option<Seq<u8>>,
}

/// The result, final stack and pass count of the main engine loop.
pub struct SpecLoopOut {
    pub result: PassResultModel,
    pub stack: StackModel,
    pub passes: int,
}

/// Whether the rerun budget is an explicit count (run exactly that many
/// more passes) rather than an auto-detection allowance.
pub open spec fn spec_explicit(cfg: SessionConfig) -> bool {
    cfg.reruns is Some
}

/// How many reruns may follow the first engine pass.
pub open spec fn spec_rerun_budget(cfg: SessionConfig) -> int {
    match cfg.reruns {
        Some(k) => k as int,
        None => cfg.max_auto_reruns as int,
    }
}

/// The main engine loop from pass `idx`: run one pass; on a non-fatal
/// completion rerun while the budget lasts (always, for an explicit
/// count; only while the engine's auxiliary state changed, for
/// auto-detection); any fault ends the loop where it happened.
pub open spec fn spec_tex_loop(
    m: StackModel,
    scripts: Seq<PassScript>,
    idx: int,
    explicit: bool,
    budget: int,
) -> SpecLoopOut
    decreases budget,
{
    let (pr, m2) = spec_pass(m, scripts[idx]);
    match pr {
        PassResultModel::Done(t) => {
            let rerun = if explicit {
                budget > 0
            } else {
                budget > 0 && scripts[idx].aux_changed
            };
            if rerun {
                let rest = spec_tex_loop(m2, scripts, idx + 1, explicit, budget - 1);
                SpecLoopOut { result: rest.result, stack: rest.stack, passes: rest.passes + 1 }
            } else {
                SpecLoopOut { result: pr, stack: m2, passes: 1 }
            }
        },
        _ => SpecLoopOut { result: pr, stack: m2, passes: 1 },
    }
}

/// Wind a session down from its final pass result: flush the dependency
/// record if a dependency file was requested (also on an abort), drain
/// the chatter sink for an engine fatal, and clean intermediates out of
/// the output directory only after convergence.
pub open spec fn spec_conclude(
    cfg: SessionConfig,
    m: StackModel,
    pr: PassResultModel,
    inv: int,
) -> SpecSessionOut {
    let dep = if cfg.makefile_output is Some {
        Some(spec_dep_file(m.record))
    } else {
        None::<Seq<u8>>
    };
    let dumped = if pr is EngineFatal {
        Some(m.chatter)
    } else {
        None::<Seq<u8>>
    };
    let fname = spec_output_name(cfg.tex_input_name@, cfg.output_format);
    if pr is Done {
        SpecSessionOut {
            result: SessionResultModel::Pass(pr),
            invocations: inv,
            stack: m,
            outputs: spec_retained(m.output, cfg.keep_intermediates, cfg.keep_logs, fname),
            cleaned: spec_cleaned(m.output, cfg.keep_intermediates, cfg.keep_logs, fname),
            dep_file: dep,
            dumped,
        }
    } else {
        SpecSessionOut {
            result: SessionResultModel::Pass(pr),
            invocations: inv,
            stack: m,
            outputs: m.output,
            cleaned: Seq::<Seq<u8>>::empty(),
            dep_file: dep,
            dumped,
        }
    }
}

/// A whole session as a function of its configuration, the engine's
/// scripted behaviour, and the initial stack: validation first (an
/// invalid configuration makes no engine call), then the optional
/// bibliography pass, then the main engine loop, then wind-down.
pub open spec fn spec_session(
    cfg: SessionConfig,
    scripts: Seq<PassScript>,
    m0: StackModel,
) -> SpecSessionOut {
    match spec_validate(cfg) {
        Some(ce) => SpecSessionOut {
            result: SessionResultModel::Config(ce),
            invocations: 0,
            stack: m0,
            outputs: m0.output,
            cleaned: Seq::<Seq<u8>>::empty(),
            dep_file: None,
            dumped: None,
        },
        None => if cfg.pass is BibtexFirst {
            let (pr0, mb) = spec_pass(m0, scripts[0]);
            match pr0 {
                PassResultModel::Done(_) => {
                    let lo = spec_tex_loop(mb, scripts, 1, spec_explicit(cfg), spec_rerun_budget(cfg));
                    spec_conclude(cfg, lo.stack, lo.result, lo.passes + 1)
                },
                _ => spec_conclude(cfg, mb, pr0, 1),
            }
        } else {
            let lo = spec_tex_loop(m0, scripts, 0, spec_explicit(cfg), spec_rerun_budget(cfg));
            spec_conclude(cfg, lo.stack, lo.result, lo.passes)
        },
    }
}

/// How many scripted engine outcomes a session can consume at most.
pub open spec fn spec_required_scripts(cfg: SessionConfig) -> int {
    (if cfg.pass is BibtexFirst {
        1int
    } else {
        0int
    }) + 1 + spec_rerun_budget(cfg)
}

/// What a session run reports back to the host: the terminal result, how
/// many engine invocations were made, the serialized dependency file if
/// one was requested, the drained chatter stream on an engine fatal, and
/// the names of the intermediates discarded after convergence.
#[derive(Debug)]
pub struct SessionReport {
    pub result: Result<TexResult, SessionError>,
    pub invocations: usize,
    pub dep_file: Option<Vec<u8>>,
    pub dumped_chatter: Option<Vec<u8>>,
    pub cleaned: Vec<Vec<u8>>,
}

/// Does an executable report realize the view-level session outcome?
pub open spec fn report_matches(r: SessionReport, out: SpecSessionOut) -> bool {
    &&& match out.result {
        SessionResultModel::Config(ce) => r.result == Err::<TexResult, SessionError>(
            SessionError::Configuration(ce),
        ),
        SessionResultModel::Pass(pr) => result_matches(r.result, pr),
    }
    &&& r.invocations == out.invocations
    &&& match r.dep_file {
        Some(v) => out.dep_file == Some(v@),
        None => out.dep_file is None,
    }
    &&& match r.dumped_chatter {
        Some(v) => out.dumped == Some(v@),
        None => out.dumped is None,
    }
    &&& r.cleaned@.map_values(|v: Vec<u8>| v@) == out.cleaned
}

/// One document-processing session: the configuration, the engine
/// configuration derived from it, and the I/O stack it owns for its
/// lifetime.
#[derive(Debug)]
pub struct ProcessingSession {
    pub config: SessionConfig,
    pub engine: TexEngine,
    pub io: IoStack,
}

impl ProcessingSession {
    /// Build a session around a configuration and a freshly assembled
    /// stack; the engine flags follow the configuration (init mode for
    /// format generation, semantic pagination for the HTML path).
    pub fn new(config: SessionConfig, io: IoStack) -> (r: ProcessingSession)
        requires
            io.wf(),
        ensures
            r.io == io,
            r.io.wf(),
            r.engine == (TexEngine {
                halt_on_error: true,
                initex_mode: config.output_format is Fmt,
                synctex_enabled: config.synctex,
                semantic_pagination_enabled: config.output_format is Html,
                build_date: config.build_date,
            }),
            r.config == config,
    {
        let mut engine = TexEngine::new();
        engine.initex_mode(config.output_format == OutputFormat::Fmt);
        engine.synctex(config.synctex);
        engine.semantic_pagination(config.output_format == OutputFormat::Html);
        engine.build_date(config.build_date);
        ProcessingSession { config, engine, io }
    }

    /// Serialize the dependency record if one was requested, drain the
    /// chatter sink if asked, and, after convergence, discard the
    /// output-directory entries that were not asked to be kept.
    fn wrap_up(&mut self, converged: bool, dump: bool) -> (r: (
        Option<Vec<u8>>,
        Option<Vec<u8>>,
        Vec<Vec<u8>>,
    ))
        requires
            old(self).io.wf(),
        ensures
            final(self).io.wf(),
            final(self).config == old(self).config,
            final(self).engine == old(self).engine,
            ({
                let m = old(self).io@;
                let cfg = old(self).config;
                let fname = spec_output_name(cfg.tex_input_name@, cfg.output_format);
                &&& match r.0 {
                    Some(v) => cfg.makefile_output is Some && v@ == spec_dep_file(m.record),
                    None => cfg.makefile_output is None,
                }
                &&& match r.1 {
                    Some(v) => dump && v@ == m.chatter,
                    None => !dump,
                }
                &&& if converged {
                    &&& final(self).io@ == (StackModel {
                        output: spec_retained(
                            m.output,
                            cfg.keep_intermediates,
                            cfg.keep_logs,
                            fname,
                        ),
                        ..m
                    })
                    &&& r.2@.map_values(|v: Vec<u8>| v@) == spec_cleaned(
                        m.output,
                        cfg.keep_intermediates,
                        cfg.keep_logs,
                        fname,
                    )
                } else {
                    &&& final(self).io@ == m
                    &&& r.2@.map_values(|v: Vec<u8>| v@) == Seq::<Seq<u8>>::empty()
                }
            }),
    {
        let dep: Option<Vec<u8>> = match &self.config.makefile_output {
            Some(_) => Some(make_dep_file(&self.io.record)),
            None => None,
        };
        let dumped: Option<Vec<u8>> = if dump {
            let v = slice_to_vec(self.io.chatter.as_slice());
            Some(v)
        } else {
            None
        };
        let mut cleaned: Vec<Vec<u8>> = Vec::new();
        if converged {
            let fname = output_name(self.config.tex_input_name.as_slice(), self.config.output_format);
            let keep_all = self.config.keep_intermediates;
            let keep_logs = self.config.keep_logs;
            let n = self.io.output.entries.len();
            let mut kept: Vec<(Vec<u8>, Vec<u8>)> = Vec::new();
            let mut i: usize = 0;
            while i < n
                invariant
                    i <= n,
                    n == self.io.output.entries@.len(),
                    fname@ == spec_output_name(
                        self.config.tex_input_name@,
                        self.config.output_format,
                    ),
                    keep_all == self.config.keep_intermediates,
                    keep_logs == self.config.keep_logs,
                    kept@.map_values(|p: (Vec<u8>, Vec<u8>)| (p.0@, p.1@)) == spec_retained(
                        self.io.output@.take(i as int),
                        keep_all,
                        keep_logs,
                        fname@,
                    ),
                    cleaned@.map_values(|v: Vec<u8>| v@) == spec_cleaned(
                        self.io.output@.take(i as int),
                        keep_all,
                        keep_logs,
                        fname@,
                    ),
                decreases n - i,
            {
                let ghost ov = self.io.output@;
                proof {
                    assert(ov.take(i + 1).drop_last() =~= ov.take(i as int));
                    assert(ov.take(i + 1).last() == ov[i as int]);
                }
                let name = self.io.output.entries[i].0.clone();
                assert(name@ =~= self.io.output.entries@[i as int].0@);
                let keep = keep_all || bytes_eq(name.as_slice(), fname.as_slice()) || (keep_logs
                    && bytes_ends_with(name.as_slice(), ".log".as_bytes()));
                if keep {
                    let contents = self.io.output.entries[i].1.clone();
                    assert(contents@ =~= self.io.output.entries@[i as int].1@);
                    kept.push((name, contents));
                    proof {
                        assert(kept@.map_values(|p: (Vec<u8>, Vec<u8>)| (p.0@, p.1@))
                            =~= spec_retained(ov.take(i + 1), keep_all, keep_logs, fname@));
                        assert(cleaned@.map_values(|v: Vec<u8>| v@) =~= spec_cleaned(
                            ov.take(i + 1),
                            keep_all,
                            keep_logs,
                            fname@,
                        ));
                    }
                } else {
                    cleaned.push(name);
                    proof {
                        assert(kept@.map_values(|p: (Vec<u8>, Vec<u8>)| (p.0@, p.1@))
                            =~= spec_retained(ov.take(i + 1), keep_all, keep_logs, fname@));
                        assert(cleaned@.map_values(|v: Vec<u8>| v@) =~= spec_cleaned(
                            ov.take(i + 1),
                            keep_all,
                            keep_logs,
                            fname@,
                        ));
                    }
                }
                i += 1;
            }
            proof {
                assert(self.io.output@.take(n as int) =~= self.io.output@);
            }
            self.io.output = FileMap { entries: kept };
            proof {
                assert(final(self).io@ =~= (StackModel {
                    output: spec_retained(
                        old(self).io@.output,
                        old(self).config.keep_intermediates,
                        old(self).config.keep_logs,
                        spec_output_name(
                            old(self).config.tex_input_name@,
                            old(self).config.output_format,
                        ),
                    ),
                    ..old(self).io@
                }));
            }
        } else {
            proof {
                assert(cleaned@.map_values(|v: Vec<u8>| v@) =~= Seq::<Seq<u8>>::empty());
            }
        }
        (dep, dumped, cleaned)
    }

    /// Run the session to completion against the scripted engine
    /// behaviour: validation, the optional bibliography pass, the main
    /// engine loop under the process-wide lock, and wind-down. The whole
    /// outcome — result, invocation count, dependency file, drained
    /// chatter, cleanup — is the one `spec_session` assigns to the
    /// configuration, the scripts and the initial stack.
    pub fn run(&mut self, lock: &mut EngineLock, scripts: &Vec<PassScript>) -> (r: SessionReport)
        requires
            old(self).io.wf(),
            old(lock).wf(),
            old(lock).in_flight == 0,
            scripts@.len() >= spec_required_scripts(old(self).config),
        ensures
            final(self).config == old(self).config,
            final(self).io.wf(),
            final(lock).wf(),
            final(lock).in_flight == 0,
            ({
                let out = spec_session(old(self).config, scripts@, old(self).io@);
                &&& report_matches(r, out)
                &&& final(self).io@ == (StackModel { output: out.outputs, ..out.stack })
            }),
    {
        let ghost cfg0 = self.config;
        let ghost m0 = self.io@;
        if let Some(ce) = self.config.validate() {
            let report = SessionReport {
                result: Err(SessionError::Configuration(ce)),
                invocations: 0,
                dep_file: None,
                dumped_chatter: None,
                cleaned: Vec::new(),
            };
            proof {
                let out = spec_session(cfg0, scripts@, m0);
                assert(report.cleaned@.map_values(|v: Vec<u8>| v@) =~= out.cleaned);
                assert(final(self).io@ =~= (StackModel { output: out.outputs, ..out.stack }));
            }
            return report;
        }

        let mut bib_invocations: usize = 0;
        let start: usize;
        if self.config.pass == PassSetting::BibtexFirst {
            let r0 = self.engine.process(lock, &mut self.io, &scripts[0], &self.config.unstables);
            bib_invocations = 1;
            match r0 {
                Ok(_) => {
                    start = 1;
                },
                Err(e) => {
                    let dump = match &e {
                        SessionError::Engine(_) => true,
                        _ => false,
                    };
                    let (dep, dumped, cleaned) = self.wrap_up(false, dump);
                    let report = SessionReport {
                        result: Err(e),
                        invocations: 1,
                        dep_file: dep,
                        dumped_chatter: dumped,
                        cleaned,
                    };
                    return report;
                },
            }
        } else {
            start = 0;
        }

        let explicit = self.config.reruns.is_some();
        let budget0: u64 = match self.config.reruns {
            Some(k) => k,
            None => self.config.max_auto_reruns,
        };
        let ghost m_start = self.io@;
        let ghost t0 = spec_tex_loop(m_start, scripts@, start as int, explicit, budget0 as int);
        let n_scripts = scripts.len();
        let mut idx: usize = start;
        let mut budget: u64 = budget0;
        let mut outcome: Result<TexResult, SessionError> = Ok(TexResult::Spotless);
        loop
            invariant_except_break
                self.io.wf(),
                self.config == old(self).config,
                self.engine == old(self).engine,
                lock.wf(),
                lock.in_flight == 0,
                start <= idx,
                n_scripts == scripts@.len(),
                idx + budget + 1 <= n_scripts,
                explicit == (old(self).config.reruns is Some),
                t0.result == spec_tex_loop(
                    self.io@,
                    scripts@,
                    idx as int,
                    explicit,
                    budget as int,
                ).result,
                t0.stack == spec_tex_loop(
                    self.io@,
                    scripts@,
                    idx as int,
                    explicit,
                    budget as int,
                ).stack,
                t0.passes == idx - start + spec_tex_loop(
                    self.io@,
                    scripts@,
                    idx as int,
                    explicit,
                    budget as int,
                ).passes,
            ensures
                self.io.wf(),
                self.config == old(self).config,
                self.engine == old(self).engine,
                lock.wf(),
                lock.in_flight == 0,
                start <= idx,
                idx < scripts@.len(),
                t0.stack == self.io@,
                t0.passes == idx - start + 1,
                result_matches(outcome, t0.result),
            decreases budget,
        {
            let ghost m_pre = self.io@;
            let res = self.engine.process(
                lock,
                &mut self.io,
                &scripts[idx],
                &self.config.unstables,
            );
            proof {
                let (pr, m2) = spec_pass(m_pre, scripts@[idx as int]);
                assert(self.io@ == m2);
            }
            match res {
                Ok(t) => {
                    proof {
                        let (pr, m2) = spec_pass(m_pre, scripts@[idx as int]);
                        assert(pr == PassResultModel::Done(t));
                    }
                    let rerun = if explicit {
                        budget > 0
                    } else {
                        budget > 0 && scripts[idx].aux_changed
                    };
                    if rerun {
                        budget = budget - 1;
                        idx = idx + 1;
                    } else {
                        outcome = Ok(t);
                        break ;
                    }
                },
                Err(e) => {
                    outcome = Err(e);
                    break ;
                },
            }
        }

        let converged = outcome.is_ok();
        let dump = match &outcome {
            Err(SessionError::Engine(_)) => true,
            _ => false,
        };
        proof {
            assert(dump == (t0.result is EngineFatal));
        }
        let (dep, dumped, cleaned) = self.wrap_up(converged, dump);
        assert(bib_invocations == start);
        assert(idx + 1 <= n_scripts);
        let total: usize = bib_invocations + (idx - start) + 1;
        let report = SessionReport {
            result: outcome,
            invocations: total,
            dep_file: dep,
            dumped_chatter: dumped,
            cleaned,
        };
        report
    }
}

/// Running the same session configuration twice, against the same scripted
/// engine behaviour and the same untouched initial stack (cache included),
/// yields byte-identical dependency files and byte-identical final
/// outputs: the whole outcome is a function of the configuration — build
/// timestamp included — and the starting state alone.
pub proof fn lemma_session_idempotent(
    cfg1: SessionConfig,
    cfg2: SessionConfig,
    scripts: Seq<PassScript>,
    m1: StackModel,
    m2: StackModel,
)
    requires
        cfg1 == cfg2,
        m1 == m2,
    ensures
        spec_session(cfg1, scripts, m1).dep_file == spec_session(cfg2, scripts, m2).dep_file,
        spec_session(cfg1, scripts, m1).outputs == spec_session(cfg2, scripts, m2).outputs,
        spec_session(cfg1, scripts, m1).result == spec_session(cfg2, scripts, m2).result,
{
}

} // verus!
