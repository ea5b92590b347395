use tectonic::config::{
    parse_epoch, parse_output_format, parse_pass_setting, resolve_input, OutputFormat,
    PassSetting,
};
use tectonic::driver::{make_dep_file, output_name};
use tectonic::errors::{ConfigError, ErrorChain};
use tectonic::iostack::{DepEntry, LayerId};
use tectonic::status::{
    parse_chatter_level, parse_color_setting, ChatterLevel, ColorSetting, ColorSpecModel,
    FgColor, MessageKind, PlainStatusBackend, Stream, TermChunk, TermcolorStatusBackend,
};
use tectonic::stringpool::{length, split_command, PoolString, StringPool};

fn b(s: &str) -> Vec<u8> {
    s.as_bytes().to_vec()
}

fn u16s(s: &str) -> Vec<u16> {
    s.encode_utf16().collect()
}

#[test]
fn output_format_words_parse() {
    assert_eq!(parse_output_format(b"pdf".as_ref()), Some(OutputFormat::Pdf));
    assert_eq!(parse_output_format(b"html".as_ref()), Some(OutputFormat::Html));
    assert_eq!(parse_output_format(b"xdv".as_ref()), Some(OutputFormat::Xdv));
    assert_eq!(parse_output_format(b"aux".as_ref()), Some(OutputFormat::Aux));
    assert_eq!(parse_output_format(b"fmt".as_ref()), Some(OutputFormat::Fmt));
    assert_eq!(parse_output_format(b"docx".as_ref()), None);
}

#[test]
fn pass_setting_words_parse() {
    assert_eq!(parse_pass_setting(b"default".as_ref()), Some(PassSetting::Default));
    assert_eq!(parse_pass_setting(b"tex".as_ref()), Some(PassSetting::Tex));
    assert_eq!(
        parse_pass_setting(b"bibtex_first".as_ref()),
        Some(PassSetting::BibtexFirst)
    );
    assert_eq!(parse_pass_setting(b"bibtex".as_ref()), None);
}

#[test]
fn chatter_level_words_parse() {
    assert_eq!(parse_chatter_level(b"default".as_ref()), Some(ChatterLevel::Normal));
    assert_eq!(parse_chatter_level(b"minimal".as_ref()), Some(ChatterLevel::Minimal));
    assert_eq!(parse_chatter_level(b"loud".as_ref()), None);
}

#[test]
fn color_setting_words_parse() {
    assert_eq!(parse_color_setting(b"always".as_ref()), Some(ColorSetting::Always));
    assert_eq!(parse_color_setting(b"auto".as_ref()), Some(ColorSetting::Auto));
    assert_eq!(parse_color_setting(b"never".as_ref()), Some(ColorSetting::Never));
    assert_eq!(parse_color_setting(b"sometimes".as_ref()), None);
}

#[test]
fn input_paths_resolve_to_name_and_directory() {
    assert_eq!(
        resolve_input(b"-".as_ref()),
        Ok((b("texput.tex"), b("")))
    );
    assert_eq!(
        resolve_input(b"doc.tex".as_ref()),
        Ok((b("doc.tex"), b("")))
    );
    assert_eq!(
        resolve_input(b"path/to/doc.tex".as_ref()),
        Ok((b("doc.tex"), b("path/to")))
    );
    assert_eq!(resolve_input(b"dir/".as_ref()), Err(ConfigError::BadInputPath));
    assert_eq!(resolve_input(b"".as_ref()), Err(ConfigError::NoInputSpecified));
}

#[test]
fn epoch_strings_parse_exactly() {
    assert_eq!(parse_epoch(b"0".as_ref()), Some(0));
    assert_eq!(parse_epoch(b"1234567890".as_ref()), Some(1234567890));
    assert_eq!(parse_epoch(b"18446744073709551615".as_ref()), Some(u64::MAX));
    assert_eq!(parse_epoch(b"18446744073709551616".as_ref()), None);
    assert_eq!(parse_epoch(b"".as_ref()), None);
    assert_eq!(parse_epoch(b"12a4".as_ref()), None);
}

#[test]
fn final_artifact_names_follow_the_input_stem() {
    assert_eq!(output_name(b"doc.tex".as_ref(), OutputFormat::Pdf), b("doc.pdf"));
    assert_eq!(output_name(b"doc.tex".as_ref(), OutputFormat::Xdv), b("doc.xdv"));
    assert_eq!(output_name(b"notes".as_ref(), OutputFormat::Html), b("notes.html"));
    assert_eq!(output_name(b"texput.tex".as_ref(), OutputFormat::Fmt), b("texput.fmt"));
}

#[test]
fn dep_file_lists_writes_as_targets_and_reads_as_prerequisites() {
    let record = vec![
        DepEntry { name: b("doc.tex"), write: false, layer: LayerId::PrimaryInput },
        DepEntry { name: b("article.cls"), write: false, layer: LayerId::Bundle },
        DepEntry { name: b("doc.pdf"), write: true, layer: LayerId::OutputDir },
        DepEntry { name: b("doc.aux"), write: true, layer: LayerId::OutputDir },
    ];
    assert_eq!(
        make_dep_file(&record),
        b("doc.pdf doc.aux: doc.tex article.cls\n")
    );
    assert_eq!(make_dep_file(&Vec::new()), b(": \n"));
}

#[test]
fn plain_backend_renders_cause_chains() {
    let backend = PlainStatusBackend::new(ChatterLevel::Normal);
    let err = ErrorChain {
        messages: vec![String::from("top failure"), String::from("root cause")],
    };
    let lines = backend.ereport(MessageKind::Warning, &err);
    assert_eq!(lines.len(), 2);
    assert_eq!(lines[0].prefix, "warning:");
    assert_eq!(lines[0].text, "top failure");
    assert_eq!(lines[0].stream, Stream::Stderr);
    assert_eq!(lines[1].prefix, "caused by:");
    assert_eq!(lines[1].text, "root cause");
    assert_eq!(lines[1].stream, Stream::Stderr);

    let report = backend.report_error(&err);
    assert_eq!(report[0].prefix, "error:");
    assert_eq!(report[1].prefix, "caused by:");
}

#[test]
fn minimal_chatter_suppresses_notes_only() {
    let backend = PlainStatusBackend::new(ChatterLevel::Minimal);
    let err = ErrorChain::single(String::from("a note"));
    assert!(backend.ereport(MessageKind::Note, &err).is_empty());
    assert_eq!(backend.ereport(MessageKind::Error, &err).len(), 1);
    assert!(backend.note_highlighted("a", "b", "c").is_none());

    let chatty = PlainStatusBackend::new(ChatterLevel::Normal);
    let note = chatty.note_highlighted("pre ", "mid", " post").unwrap();
    assert_eq!(note.prefix, "note:");
    assert_eq!(note.text, "pre mid post");
    assert_eq!(note.stream, Stream::Stdout);
}

#[test]
fn plain_dump_frames_the_output_in_banners() {
    let backend = PlainStatusBackend::new(ChatterLevel::Normal);
    let (banner, bytes) = backend.dump_error_logs(b"raw engine log".as_ref());
    assert_eq!(banner.len(), 79);
    assert!(banner.chars().all(|c| c == '='));
    assert_eq!(bytes, b("raw engine log"));
}

#[test]
fn termcolor_backend_uses_the_fixed_styles() {
    let backend = TermcolorStatusBackend::new(ChatterLevel::Normal);
    assert_eq!(backend.note_spec, ColorSpecModel { fg: FgColor::Green, bold: true });
    assert_eq!(backend.highlight_spec, ColorSpecModel { fg: FgColor::Unset, bold: true });
    assert_eq!(backend.warning_spec, ColorSpecModel { fg: FgColor::Yellow, bold: true });
    assert_eq!(backend.error_spec, ColorSpecModel { fg: FgColor::Red, bold: true });
}

#[test]
fn termcolor_messages_style_the_prefix_only() {
    let backend = TermcolorStatusBackend::new(ChatterLevel::Normal);
    let chunks = backend.generic_message(MessageKind::Error, None, "it broke");
    assert_eq!(chunks.len(), 2);
    match &chunks[0] {
        TermChunk::Styled(stream, spec, text) => {
            assert_eq!(*stream, Stream::Stderr);
            assert_eq!(*spec, ColorSpecModel { fg: FgColor::Red, bold: true });
            assert_eq!(text, "error:");
        }
        other => panic!("expected a styled prefix, got {:?}", other),
    }
    match &chunks[1] {
        TermChunk::Unstyled(stream, text) => {
            assert_eq!(*stream, Stream::Stderr);
            assert_eq!(text, " it broke\n");
        }
        other => panic!("expected unstyled text, got {:?}", other),
    }
}

#[test]
fn termcolor_ereport_upgrades_causes_to_errors() {
    let backend = TermcolorStatusBackend::new(ChatterLevel::Normal);
    let err = ErrorChain {
        messages: vec![String::from("a note"), String::from("its cause")],
    };
    let chunks = backend.ereport(MessageKind::Note, &err);
    assert_eq!(chunks.len(), 4);
    match &chunks[0] {
        TermChunk::Styled(stream, _, text) => {
            assert_eq!(*stream, Stream::Stdout);
            assert_eq!(text, "note:");
        }
        other => panic!("expected a styled prefix, got {:?}", other),
    }
    match &chunks[2] {
        TermChunk::Styled(stream, spec, text) => {
            assert_eq!(*stream, Stream::Stderr);
            assert_eq!(*spec, ColorSpecModel { fg: FgColor::Red, bold: true });
            assert_eq!(text, "caused by:");
        }
        other => panic!("expected a styled prefix, got {:?}", other),
    }
}

#[test]
fn pool_strings_fetch_spans_and_characters() {
    let pool = StringPool {
        pool: u16s("helloworld"),
        starts: vec![0, 5, 10],
        str_ptr: 0x10000,
    };
    let first = PoolString::from(&pool, 0x10000);
    assert_eq!(first.as_slice(), u16s("hello"));
    let second = PoolString::from(&pool, 0x10001);
    assert_eq!(second.as_slice(), u16s("world"));
    // a number below the interning threshold is a bare character
    let ch = PoolString::from(&pool, 'A' as i32);
    assert_eq!(ch.as_slice(), vec![65u16]);
    // a number past the recorded spans falls back to a character too
    let past = PoolString::from(&pool, 0x10005);
    assert_eq!(past.as_slice(), vec![5u16]);
}

#[test]
fn string_lengths_follow_the_engine_rules() {
    let pool = StringPool {
        pool: u16s("helloworld"),
        starts: vec![0, 5, 10],
        str_ptr: 0x10000,
    };
    assert_eq!(length(&pool, 0x10000), 5);
    assert_eq!(length(&pool, 0x10001), 5);
    assert_eq!(length(&pool, 65), 1); // printable
    assert_eq!(length(&pool, 10), 3); // control
    assert_eq!(length(&pool, -3), 3); // below the printable range
    assert_eq!(length(&pool, 200), 4); // high latin
    assert_eq!(length(&pool, 1000), 8); // wide
}

#[test]
fn string_pool_equality_compares_code_units() {
    let pool = StringPool {
        pool: u16s("abcabcxyz"),
        starts: vec![0, 3, 6, 9],
        str_ptr: 0x10000,
    };
    assert!(tectonic::stringpool::str_eq_str(&pool, 0x10000, 0x10001));
    assert!(!tectonic::stringpool::str_eq_str(&pool, 0x10000, 0x10002));
    assert!(tectonic::stringpool::str_eq_str(&pool, 65, 65));
    assert!(!tectonic::stringpool::str_eq_str(&pool, 65, 66));
}

#[test]
fn current_string_is_read_by_length() {
    let pool = StringPool {
        pool: u16s("prefixcmd arg"),
        starts: vec![0, 6],
        str_ptr: 0x10001,
    };
    let current = PoolString::from_strptr_with_len(&pool, 7);
    assert_eq!(current.as_slice(), u16s("cmd arg"));
}

#[test]
fn shell_commands_split_on_blanks() {
    let (program, args) = split_command(&u16s("ls -l  /tmp")).unwrap();
    assert_eq!(program, u16s("ls"));
    assert_eq!(args, vec![u16s("-l"), u16s("/tmp")]);

    let (program, args) = split_command(&u16s("  solo  ")).unwrap();
    assert_eq!(program, u16s("solo"));
    assert!(args.is_empty());

    assert!(split_command(&u16s("")).is_none());
    assert!(split_command(&u16s("   \t ")).is_none());
}
