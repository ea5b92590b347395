use tectonic::bytes::FileMap;
use tectonic::config::{OutputFormat, PassSetting, SessionConfig};
use tectonic::engine::{
    BridgeEvent, EngineLock, EngineSetting, EngineVariable, PassScript, TexEngine, TexResult,
    UnstableOptions,
};
use tectonic::errors::{ResolutionError, SessionError};
use tectonic::iostack::IoStack;
use tectonic::provider::{Bundle, CachedBundle};

fn b(s: &str) -> Vec<u8> {
    s.as_bytes().to_vec()
}

fn file_map(entries: &[(&str, &str)]) -> FileMap {
    let mut m = FileMap::new();
    for (k, v) in entries {
        m.set(b(k), b(v));
    }
    m
}

fn dir_bundle(entries: &[(&str, &str)]) -> Bundle {
    Bundle::Dir(file_map(entries))
}

fn basic_stack(bundle: Bundle) -> IoStack {
    IoStack::new(
        Vec::new(),
        b("doc.tex"),
        b("\\documentclass{article}"),
        FileMap::new(),
        FileMap::new(),
        bundle,
        b("<chatter>"),
    )
}

fn basic_config() -> SessionConfig {
    SessionConfig {
        format_name: b("latex"),
        output_format: OutputFormat::Pdf,
        pass: PassSetting::Default,
        reruns: None,
        max_auto_reruns: 2,
        keep_intermediates: false,
        keep_logs: false,
        synctex: false,
        print_stdout: false,
        tex_input_name: b("doc.tex"),
        makefile_output: None,
        build_date: 0,
        unstables: UnstableOptions { continue_on_errors: false, shell_escape: false },
    }
}

fn pass(reads: &[&str], writes: &[(&str, &str)], code: i32, aux_changed: bool) -> PassScript {
    PassScript {
        reads: reads.iter().map(|r| b(r)).collect(),
        writes: writes.iter().map(|(k, v)| (b(k), b(v))).collect(),
        chatter: Vec::new(),
        completion_code: code,
        fatal_message: String::new(),
        aux_changed,
    }
}

#[test]
fn missing_style_file_aborts_the_session() {
    let stack = basic_stack(dir_bundle(&[("article.cls", "class")]));
    let mut session = tectonic::driver::ProcessingSession::new(basic_config(), stack);
    let mut lock = EngineLock::new();
    let scripts = vec![
        pass(&["doc.tex", "missing.sty"], &[("doc.pdf", "output")], 0, false),
        pass(&[], &[], 0, false),
        pass(&[], &[], 0, false),
    ];
    let report = session.run(&mut lock, &scripts);
    match &report.result {
        Err(SessionError::Resolution(name, e)) => {
            assert_eq!(name, &b("missing.sty"));
            assert_eq!(*e, ResolutionError::NotFound);
        }
        other => panic!("expected a resolution fault, got {:?}", other),
    }
    assert_eq!(report.invocations, 1);
    // the pass aborted before its writes: no output was produced
    assert_eq!(session.io.output.len(), 0);
}

#[test]
fn bibtex_first_with_rerun_budget_runs_three_passes() {
    let stack = basic_stack(dir_bundle(&[]));
    let mut config = basic_config();
    config.pass = PassSetting::BibtexFirst;
    config.max_auto_reruns = 2;
    let mut session = tectonic::driver::ProcessingSession::new(config, stack);
    let mut lock = EngineLock::new();
    let scripts = vec![
        pass(&[], &[], 0, false),                              // bibtex
        pass(&["doc.tex"], &[], 1, true),                      // tex: warnings, aux changed
        pass(&["doc.tex"], &[("doc.pdf", "pdf")], 0, false),   // tex: clean, stable
        pass(&[], &[], 0, false),
    ];
    let report = session.run(&mut lock, &scripts);
    assert_eq!(report.invocations, 3);
    match report.result {
        Ok(TexResult::Spotless) => {}
        other => panic!("expected overall success, got {:?}", other),
    }
}

#[test]
fn fatal_engine_error_dumps_chatter_and_still_writes_dep_file() {
    let stack = basic_stack(dir_bundle(&[]));
    let mut config = basic_config();
    config.makefile_output = Some(b("deps.mk"));
    let mut session = tectonic::driver::ProcessingSession::new(config, stack);
    let mut lock = EngineLock::new();
    let mut script = pass(&["doc.tex"], &[], 3, false);
    script.chatter = b("! Undefined control sequence.");
    script.fatal_message = String::from("undefined control sequence");
    let scripts = vec![script, pass(&[], &[], 0, false), pass(&[], &[], 0, false)];
    let report = session.run(&mut lock, &scripts);
    match &report.result {
        Err(SessionError::Engine(msg)) => assert_eq!(msg, "undefined control sequence"),
        other => panic!("expected an engine fault, got {:?}", other),
    }
    assert_eq!(report.dumped_chatter, Some(b("! Undefined control sequence.")));
    assert_eq!(report.dep_file, Some(b(": doc.tex\n")));
}

#[test]
fn identical_sessions_produce_identical_dep_files_and_outputs() {
    let mut reports = Vec::new();
    let mut outputs = Vec::new();
    for _ in 0..2 {
        let stack = basic_stack(dir_bundle(&[("article.cls", "class")]));
        let mut config = basic_config();
        config.makefile_output = Some(b("deps.mk"));
        config.build_date = 1234567890;
        let mut session = tectonic::driver::ProcessingSession::new(config, stack);
        let mut lock = EngineLock::new();
        let scripts = vec![
            pass(&["doc.tex", "article.cls"], &[("doc.pdf", "the output")], 0, false),
            pass(&[], &[], 0, false),
            pass(&[], &[], 0, false),
        ];
        let report = session.run(&mut lock, &scripts);
        assert!(report.result.is_ok());
        reports.push(report.dep_file);
        outputs.push(session.io.output.get(b"doc.pdf".as_slice()));
    }
    assert_eq!(reports[0], reports[1]);
    assert_eq!(outputs[0], outputs[1]);
    assert_eq!(
        reports[0],
        Some(b("doc.pdf: doc.tex article.cls\n"))
    );
}

#[test]
fn cache_serves_fetched_resource_without_network() {
    let mut online = Bundle::Cached(CachedBundle {
        cache: FileMap::new(),
        remote: file_map(&[("plain.fmt", "format bytes")]),
        reachable: true,
        only_cached: false,
    });
    let fetched = online.lookup(b"plain.fmt".as_slice()).expect("fetch should succeed");
    assert_eq!(fetched, b("format bytes"));
    let cache = match online {
        Bundle::Cached(c) => c.cache,
        _ => unreachable!(),
    };
    // a later session, same cache directory, network forbidden and empty remote
    let mut offline = Bundle::Cached(CachedBundle {
        cache,
        remote: FileMap::new(),
        reachable: false,
        only_cached: true,
    });
    assert_eq!(
        offline.lookup(b"plain.fmt".as_slice()),
        Ok(b("format bytes"))
    );
    assert_eq!(
        offline.lookup(b"never-fetched.sty".as_slice()),
        Err(ResolutionError::NotCachedLocally)
    );
}

#[test]
fn unreachable_remote_without_cache_is_unavailable() {
    let mut bundle = Bundle::Cached(CachedBundle {
        cache: FileMap::new(),
        remote: file_map(&[("a.sty", "x")]),
        reachable: false,
        only_cached: false,
    });
    assert_eq!(
        bundle.lookup(b"a.sty".as_slice()),
        Err(ResolutionError::ResourceUnavailable)
    );
}

#[test]
fn bridge_trace_never_has_two_invocations_in_flight() {
    let stack = basic_stack(dir_bundle(&[]));
    let mut session = tectonic::driver::ProcessingSession::new(basic_config(), stack);
    let mut lock = EngineLock::new();
    let scripts = vec![
        pass(&["doc.tex"], &[], 0, false),
        pass(&[], &[], 0, false),
        pass(&[], &[], 0, false),
    ];
    let report = session.run(&mut lock, &scripts);
    assert!(report.result.is_ok());
    assert_eq!(lock.in_flight, 0);
    assert_eq!(
        lock.events,
        vec![BridgeEvent::Acquire, BridgeEvent::EngineEntry, BridgeEvent::Release]
    );
    // the in-flight counter stays at most one across every prefix
    let mut active = 0i64;
    for e in &lock.events {
        match e {
            BridgeEvent::Acquire => active += 1,
            BridgeEvent::Release => active -= 1,
            _ => {}
        }
        assert!(active <= 1 && active >= 0);
    }
}

#[test]
fn fatal_message_is_fetched_while_the_lock_is_held() {
    let mut engine = TexEngine::new();
    let mut lock = EngineLock::new();
    let mut io = basic_stack(dir_bundle(&[]));
    let mut script = pass(&[], &[], 3, false);
    script.fatal_message = String::from("boom");
    let unstables = UnstableOptions::default();
    let r = engine.process(&mut lock, &mut io, &script, &unstables);
    assert!(matches!(r, Err(SessionError::Engine(ref m)) if m == "boom"));
    assert_eq!(
        lock.events,
        vec![
            BridgeEvent::Acquire,
            BridgeEvent::EngineEntry,
            BridgeEvent::MessageFetch,
            BridgeEvent::Release,
        ]
    );
}

#[test]
fn engine_completion_codes_map_to_results() {
    let unstables = UnstableOptions::default();
    for (code, expect) in [
        (0, Ok(TexResult::Spotless)),
        (1, Ok(TexResult::Warnings)),
        (2, Ok(TexResult::Errors)),
    ] {
        let mut engine = TexEngine::new();
        let mut lock = EngineLock::new();
        let mut io = basic_stack(dir_bundle(&[]));
        let r = engine.process(&mut lock, &mut io, &pass(&[], &[], code, false), &unstables);
        assert_eq!(r, expect);
    }
    let mut engine = TexEngine::new();
    let mut lock = EngineLock::new();
    let mut io = basic_stack(dir_bundle(&[]));
    let r = engine.process(&mut lock, &mut io, &pass(&[], &[], 7, false), &unstables);
    assert!(matches!(r, Err(SessionError::Internal(7))));
}

#[test]
fn continue_on_errors_overrides_halt_on_error() {
    let mut engine = TexEngine::new();
    engine.halt_on_error_mode(true);
    let mut lock = EngineLock::new();
    let mut io = basic_stack(dir_bundle(&[]));
    let unstables = UnstableOptions { continue_on_errors: true, shell_escape: false };
    let r = engine.process(&mut lock, &mut io, &pass(&[], &[], 0, false), &unstables);
    assert!(r.is_ok());
    assert_eq!(
        lock.variables[0],
        EngineSetting { name: EngineVariable::HaltOnErrorP, value: 0 }
    );
    assert_eq!(
        lock.variables[1],
        EngineSetting { name: EngineVariable::ShellEscapeEnabled, value: 0 }
    );
}

#[test]
fn engine_builder_methods_chain() {
    let mut engine = TexEngine::new();
    assert!(engine.halt_on_error);
    assert!(!engine.initex_mode);
    assert_eq!(engine.build_date, 0);
    engine
        .halt_on_error_mode(false)
        .initex_mode(true)
        .synctex(true)
        .semantic_pagination(true)
        .build_date(42);
    assert!(!engine.halt_on_error);
    assert!(engine.initex_mode);
    assert!(engine.synctex_enabled);
    assert!(engine.semantic_pagination_enabled);
    assert_eq!(engine.build_date, 42);
}

#[test]
fn explicit_rerun_count_overrides_auto_detection() {
    let stack = basic_stack(dir_bundle(&[]));
    let mut config = basic_config();
    config.reruns = Some(2);
    let mut session = tectonic::driver::ProcessingSession::new(config, stack);
    let mut lock = EngineLock::new();
    // aux never changes, but the explicit count still forces two reruns
    let scripts = vec![
        pass(&["doc.tex"], &[], 0, false),
        pass(&["doc.tex"], &[], 0, false),
        pass(&["doc.tex"], &[], 0, false),
    ];
    let report = session.run(&mut lock, &scripts);
    assert_eq!(report.invocations, 3);
    assert!(report.result.is_ok());
}

#[test]
fn invalid_configuration_makes_no_engine_call() {
    let stack = basic_stack(dir_bundle(&[]));
    let mut config = basic_config();
    config.format_name = Vec::new();
    let mut session = tectonic::driver::ProcessingSession::new(config, stack);
    let mut lock = EngineLock::new();
    let scripts = vec![
        pass(&[], &[], 0, false),
        pass(&[], &[], 0, false),
        pass(&[], &[], 0, false),
    ];
    let report = session.run(&mut lock, &scripts);
    assert!(matches!(
        report.result,
        Err(SessionError::Configuration(tectonic::errors::ConfigError::EmptyFormatName))
    ));
    assert_eq!(report.invocations, 0);
    assert!(lock.events.is_empty());
}

#[test]
fn cleanup_keeps_only_the_final_artifact_by_default() {
    let stack = basic_stack(dir_bundle(&[]));
    let mut session = tectonic::driver::ProcessingSession::new(basic_config(), stack);
    let mut lock = EngineLock::new();
    let scripts = vec![
        pass(
            &["doc.tex"],
            &[("doc.aux", "aux"), ("doc.log", "log"), ("doc.pdf", "pdf")],
            0,
            false,
        ),
        pass(&[], &[], 0, false),
        pass(&[], &[], 0, false),
    ];
    let report = session.run(&mut lock, &scripts);
    assert!(report.result.is_ok());
    assert_eq!(report.cleaned, vec![b("doc.aux"), b("doc.log")]);
    assert!(session.io.output.get(b"doc.pdf".as_slice()).is_some());
    assert!(session.io.output.get(b"doc.aux".as_slice()).is_none());
}

#[test]
fn keep_logs_retains_log_files() {
    let stack = basic_stack(dir_bundle(&[]));
    let mut config = basic_config();
    config.keep_logs = true;
    let mut session = tectonic::driver::ProcessingSession::new(config, stack);
    let mut lock = EngineLock::new();
    let scripts = vec![
        pass(&["doc.tex"], &[("doc.log", "log"), ("doc.pdf", "pdf")], 0, false),
        pass(&[], &[], 0, false),
        pass(&[], &[], 0, false),
    ];
    let report = session.run(&mut lock, &scripts);
    assert!(report.result.is_ok());
    assert_eq!(report.cleaned, Vec::<Vec<u8>>::new());
    assert!(session.io.output.get(b"doc.log".as_slice()).is_some());
}

#[test]
fn keep_intermediates_retains_everything() {
    let stack = basic_stack(dir_bundle(&[]));
    let mut config = basic_config();
    config.keep_intermediates = true;
    let mut session = tectonic::driver::ProcessingSession::new(config, stack);
    let mut lock = EngineLock::new();
    let scripts = vec![
        pass(&["doc.tex"], &[("doc.aux", "aux"), ("doc.pdf", "pdf")], 0, false),
        pass(&[], &[], 0, false),
        pass(&[], &[], 0, false),
    ];
    let report = session.run(&mut lock, &scripts);
    assert!(report.result.is_ok());
    assert!(report.cleaned.is_empty());
    assert!(session.io.output.get(b"doc.aux".as_slice()).is_some());
}

#[test]
fn write_to_read_only_layer_fails_the_pass() {
    let stack = basic_stack(dir_bundle(&[]));
    let mut session = tectonic::driver::ProcessingSession::new(basic_config(), stack);
    let mut lock = EngineLock::new();
    let scripts = vec![
        pass(&[], &[("doc.tex", "overwrite the input")], 0, false),
        pass(&[], &[], 0, false),
        pass(&[], &[], 0, false),
    ];
    let report = session.run(&mut lock, &scripts);
    match &report.result {
        Err(SessionError::Stack(name, e)) => {
            assert_eq!(name, &b("doc.tex"));
            assert_eq!(*e, tectonic::errors::StackError::ReadOnlyLayer);
        }
        other => panic!("expected a stack fault, got {:?}", other),
    }
}
