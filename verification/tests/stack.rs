use tectonic::bytes::FileMap;
use tectonic::errors::{ResolutionError, StackError};
use tectonic::iostack::{IoStack, LayerId};
use tectonic::provider::{
    resolve_bundle, ArchiveBundle, ArchiveEntry, Bundle, BundleOption, CachedBundle,
};

fn b(s: &str) -> Vec<u8> {
    s.as_bytes().to_vec()
}

fn file_map(entries: &[(&str, &str)]) -> FileMap {
    let mut m = FileMap::new();
    for (k, v) in entries {
        m.set(b(k), b(v));
    }
    m
}

fn stack_with(
    hidden: &[&str],
    output: &[(&str, &str)],
    format_cache: &[(&str, &str)],
    bundle: &[(&str, &str)],
) -> IoStack {
    IoStack::new(
        hidden.iter().map(|h| b(h)).collect(),
        b("doc.tex"),
        b("primary input"),
        file_map(output),
        file_map(format_cache),
        Bundle::Dir(file_map(bundle)),
        b("<chatter>"),
    )
}

#[test]
fn read_prefers_the_highest_priority_layer() {
    // the same identifier lives in the output directory, the format cache
    // and the bundle: the output directory wins
    let mut stack = stack_with(
        &[],
        &[("shared.aux", "from output")],
        &[("shared.aux", "from cache")],
        &[("shared.aux", "from bundle")],
    );
    let (bytes, layer) = stack.open_read(b"shared.aux".as_slice()).unwrap();
    assert_eq!(bytes, b("from output"));
    assert_eq!(layer, LayerId::OutputDir);

    // the format cache beats the bundle
    let mut stack = stack_with(
        &[],
        &[],
        &[("plain.fmt", "from cache")],
        &[("plain.fmt", "from bundle")],
    );
    let (bytes, layer) = stack.open_read(b"plain.fmt".as_slice()).unwrap();
    assert_eq!(bytes, b("from cache"));
    assert_eq!(layer, LayerId::FormatCache);

    // the primary input beats everything but the denial list
    let mut stack = stack_with(&[], &[("doc.tex", "an impostor")], &[], &[]);
    let (bytes, layer) = stack.open_read(b"doc.tex".as_slice()).unwrap();
    assert_eq!(bytes, b("primary input"));
    assert_eq!(layer, LayerId::PrimaryInput);
}

#[test]
fn hidden_identifier_is_never_found() {
    // every other layer could satisfy it; the denial list still wins
    let mut stack = stack_with(
        &["secret.cfg"],
        &[("secret.cfg", "from output")],
        &[("secret.cfg", "from cache")],
        &[("secret.cfg", "from bundle")],
    );
    assert_eq!(
        stack.open_read(b"secret.cfg".as_slice()),
        Err(ResolutionError::NotFound)
    );
    assert_eq!(
        stack.open_write(b"secret.cfg".as_slice(), b("x")),
        Err(StackError::NotFound)
    );
    // the hidden primary input is denied too
    let mut stack = stack_with(&["doc.tex"], &[], &[], &[]);
    assert_eq!(
        stack.open_read(b"doc.tex".as_slice()),
        Err(ResolutionError::NotFound)
    );
}

#[test]
fn writes_land_in_the_output_directory_and_read_back() {
    let mut stack = stack_with(&[], &[], &[], &[]);
    let layer = stack.open_write(b"doc.aux".as_slice(), b("aux contents")).unwrap();
    assert_eq!(layer, LayerId::OutputDir);
    let (bytes, layer) = stack.open_read(b"doc.aux".as_slice()).unwrap();
    assert_eq!(bytes, b("aux contents"));
    assert_eq!(layer, LayerId::OutputDir);
}

#[test]
fn chatter_writes_stay_in_memory_and_off_the_record() {
    let mut stack = stack_with(&[], &[], &[], &[]);
    let layer = stack.open_write(b"<chatter>".as_slice(), b("first ")).unwrap();
    assert_eq!(layer, LayerId::ChatterSink);
    stack.open_write(b"<chatter>".as_slice(), b("second")).unwrap();
    assert_eq!(stack.chatter, b("first second"));
    assert!(stack.record.is_empty());
    assert_eq!(stack.output.len(), 0);
}

#[test]
fn record_keeps_first_seen_order_and_drops_duplicates() {
    let mut stack = stack_with(&[], &[], &[], &[("a.sty", "a"), ("b.sty", "b")]);
    stack.open_read(b"b.sty".as_slice()).unwrap();
    stack.open_read(b"a.sty".as_slice()).unwrap();
    stack.open_read(b"b.sty".as_slice()).unwrap();
    stack.open_write(b"out.pdf".as_slice(), b("pdf")).unwrap();
    stack.open_write(b"out.pdf".as_slice(), b("pdf again")).unwrap();
    let touched: Vec<(Vec<u8>, bool)> = stack
        .record
        .iter()
        .map(|e| (e.name.clone(), e.write))
        .collect();
    assert_eq!(
        touched,
        vec![(b("b.sty"), false), (b("a.sty"), false), (b("out.pdf"), true)]
    );
}

#[test]
fn archive_bundle_serves_exact_ranges() {
    let blob = b("helloworld");
    let index = vec![
        ArchiveEntry { name: b("greeting"), offset: 0, length: 5 },
        ArchiveEntry { name: b("place"), offset: 5, length: 5 },
    ];
    let archive = ArchiveBundle::open(blob, index).unwrap();
    assert_eq!(archive.lookup(b"greeting".as_slice()), Some(b("hello")));
    assert_eq!(archive.lookup(b"place".as_slice()), Some(b("world")));
    assert_eq!(archive.lookup(b"absent".as_slice()), None);
}

#[test]
fn malformed_archive_index_is_corrupt() {
    let blob = b("short");
    let index = vec![ArchiveEntry { name: b("too-long"), offset: 2, length: 10 }];
    match ArchiveBundle::open(blob, index) {
        Err(ResolutionError::CorruptArchive) => {}
        other => panic!("expected a corrupt archive, got {:?}", other),
    }
}

#[test]
fn missing_local_bundle_path_is_fatal() {
    let r = resolve_bundle(
        BundleOption::LocalDir(None),
        FileMap::new(),
        true,
        FileMap::new(),
        false,
    );
    match r {
        Err(ResolutionError::InvalidBundlePath) => {}
        other => panic!("expected an invalid bundle path, got {:?}", other),
    }
}

#[test]
fn default_bundle_is_the_cached_remote() {
    let r = resolve_bundle(
        BundleOption::Default,
        file_map(&[("x.sty", "x")]),
        true,
        FileMap::new(),
        true,
    );
    match r {
        Ok(Bundle::Cached(CachedBundle { only_cached, reachable, .. })) => {
            assert!(only_cached);
            assert!(reachable);
        }
        other => panic!("expected a cached bundle, got {:?}", other),
    }
}

#[test]
fn second_lookup_of_a_fetched_resource_leaves_the_bundle_unchanged() {
    let mut bundle = Bundle::Cached(CachedBundle {
        cache: FileMap::new(),
        remote: file_map(&[("r.sty", "contents")]),
        reachable: true,
        only_cached: false,
    });
    assert_eq!(bundle.lookup(b"r.sty".as_slice()), Ok(b("contents")));
    let cache_len_after_first = match &bundle {
        Bundle::Cached(c) => c.cache.len(),
        _ => unreachable!(),
    };
    assert_eq!(cache_len_after_first, 1);
    // the second lookup is a cache hit: one round trip per resource
    assert_eq!(bundle.lookup(b"r.sty".as_slice()), Ok(b("contents")));
    let cache_len_after_second = match &bundle {
        Bundle::Cached(c) => c.cache.len(),
        _ => unreachable!(),
    };
    assert_eq!(cache_len_after_second, 1);
}

#[test]
fn directory_bundle_rejects_path_traversal() {
    let mut bundle =
        Bundle::Dir(file_map(&[("../outside.sty", "secret"), ("inner/ok.sty", "fine")]));
    // even a listing that carries such a name never serves it
    assert_eq!(
        bundle.lookup(b"../outside.sty".as_slice()),
        Err(ResolutionError::NotFound)
    );
    assert_eq!(
        bundle.lookup(b"a/../../b.sty".as_slice()),
        Err(ResolutionError::NotFound)
    );
    assert_eq!(
        bundle.lookup(b"/etc/passwd".as_slice()),
        Err(ResolutionError::NotFound)
    );
    // dots that are part of a name are not traversal
    assert_eq!(bundle.lookup(b"inner/ok.sty".as_slice()), Ok(b("fine")));
    let mut dotted = Bundle::Dir(file_map(&[("..dots.sty", "x"), ("a..b.sty", "y")]));
    assert_eq!(dotted.lookup(b"..dots.sty".as_slice()), Ok(b("x")));
    assert_eq!(dotted.lookup(b"a..b.sty".as_slice()), Ok(b("y")));
}

#[test]
fn file_map_overwrites_and_misses() {
    let mut m = FileMap::new();
    assert_eq!(m.get(b"k".as_slice()), None);
    m.set(b("k"), b("v1"));
    assert_eq!(m.get(b"k".as_slice()), Some(b("v1")));
    m.set(b("k"), b("v2"));
    assert_eq!(m.get(b"k".as_slice()), Some(b("v2")));
    assert!(m.contains(b"k".as_slice()));
    assert!(!m.contains(b"other".as_slice()));
}
