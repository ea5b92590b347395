//! Content providers and the bundle resolver.
//!
//! A bundle is the one active source of resource files behind the I/O
//! stack: a plain directory, an archive with an index built at open time,
//! or a remote endpoint fronted by a local cache. Directory listings,
//! archive bytes and remote contents enter as plain values; the resolution
//! and caching decisions are made and verified here.

use vstd::prelude::*;

use crate::bytes::{bytes_eq, copy_range, fm_get, lemma_fm_get_take, FileMap};
use crate::errors::ResolutionError;

verus! {

/// One entry of an archive bundle's index: where `name`'s bytes lie in the
/// archive blob.
#[derive(Clone, Debug)]
pub struct ArchiveEntry {
    pub name: Vec<u8>,
    pub offset: usize,
    pub length: usize,
}

/// An archive-backed provider: one byte blob and an index into it.
#[derive(Clone, Debug)]
pub struct ArchiveBundle {
    pub blob: Vec<u8>,
    pub index: Vec<ArchiveEntry>,
}

impl ArchiveBundle {
    /// Every index entry lies within the blob.
    pub open spec fn wf(&self) -> bool {
        forall|i: int|
            0 <= i < self.index@.len() ==> (#[trigger] self.index@[i]).offset
                + self.index@[i].length <= self.blob@.len()
    }

    /// The name-to-contents mapping the index describes.
    pub open spec fn contents(&self) -> Seq<(Seq<u8>, Seq<u8>)> {
        self.index@.map_values(
            |e: ArchiveEntry| (e.name@, self.blob@.subrange(e.offset as int, e.offset + e.length)),
        )
    }

    /// Build an archive provider, checking the index against the blob once
    /// at open time; a malformed index is rejected as corrupt.
    pub fn open(blob: Vec<u8>, index: Vec<ArchiveEntry>) -> (r: Result<
        ArchiveBundle,
        ResolutionError,
    >)
        ensures
            match r {
                Ok(a) => a.wf() && a.blob@ == blob@ && a.index@ == index@,
                Err(e) => {
                    &&& e == ResolutionError::CorruptArchive
                    &&& exists|i: int|
                        0 <= i < index@.len() && (#[trigger] index@[i]).offset + index@[i].length
                            > blob@.len()
                },
            },
    {
        let n = index.len();
        let mut i: usize = 0;
        while i < n
            invariant
                i <= n,
                n == index@.len(),
                forall|j: int|
                    0 <= j < i ==> (#[trigger] index@[j]).offset + index@[j].length <= blob@.len(),
            decreases n - i,
        {
            let e_off = index[i].offset;
            let e_len = index[i].length;
            if e_off > blob.len() || blob.len() - e_off < e_len {
                return Err(ResolutionError::CorruptArchive);
            }
            i += 1;
        }
        Ok(ArchiveBundle { blob, index })
    }

    /// Look `name` up in the index and copy its bytes out of the blob.
    pub fn lookup(&self, name: &[u8]) -> (r: Option<Vec<u8>>)
        requires
            self.wf(),
        ensures
            match r {
                Some(v) => fm_get(self.contents(), name@) == Some(v@),
                None => fm_get(self.contents(), name@) is None,
            },
    {
        let n = self.index.len();
        let mut i: usize = n;
        while i > 0
            invariant
                self.wf(),
                i <= n,
                n == self.index@.len(),
                forall|j: int| i <= j < n ==> self.index@[j].name@ != name@,
            decreases i,
        {
            i = i - 1;
            if bytes_eq(self.index[i].name.as_slice(), name) {
                let e_off = self.index[i].offset;
                let e_len = self.index[i].length;
                let blen = self.blob.len();
                assert(self.index@[i as int].offset + self.index@[i as int].length
                    <= self.blob@.len());
                assert(e_off + e_len <= blen);
                let v = copy_range(self.blob.as_slice(), e_off, e_off + e_len);
                proof {
                    assert(forall|j: int|
                        0 <= j < n ==> (#[trigger] self.contents()[j]).0
                            == self.index@[j].name@);
                    lemma_fm_get_take(self.contents(), name@, i + 1);
                    let t = self.contents().take(i + 1);
                    assert(t.last() == self.contents()[i as int]);
                    assert(fm_get(t, name@) == Some(t.last().1));
                }
                return Some(v);
            }
        }
        proof {
            assert(forall|j: int|
                0 <= j < n ==> (#[trigger] self.contents()[j]).0 == self.index@[j].name@);
            lemma_fm_get_take(self.contents(), name@, 0);
            assert(self.contents().take(0) =~= Seq::<(Seq<u8>, Seq<u8>)>::empty());
        }
        None
    }
}

/// A `..` path segment stands at offset `i` of the identifier.
pub open spec fn dotdot_at(s: Seq<u8>, i: int) -> bool {
    &&& 0 <= i
    &&& i + 2 <= s.len()
    &&& s[i] == 46u8
    &&& s[i + 1] == 46u8
    &&& (i == 0 || s[i - 1] == 47u8)
    &&& (i + 2 == s.len() || s[i + 2] == 47u8)
}

/// The identifier would resolve outside a directory root: it is absolute,
/// or some path segment is `..`.
pub open spec fn spec_escapes_root(s: Seq<u8>) -> bool {
    (s.len() > 0 && s[0] == 47u8) || exists|i: int| dotdot_at(s, i)
}

/// Would the identifier resolve outside a directory root?
pub fn escapes_root(name: &[u8]) -> (r: bool)
    ensures
        r == spec_escapes_root(name@),
{
    let n = name.len();
    if n > 0 && name[0] == 47u8 {
        return true;
    }
    let mut i: usize = 0;
    while n >= 2 && i <= n - 2
        invariant
            n == name@.len(),
            i <= n,
            n == 0 || name@[0] != 47u8,
            forall|j: int| j < i ==> !dotdot_at(name@, j),
        decreases n - i,
    {
        if name[i] == 46u8 && name[i + 1] == 46u8 && (i == 0 || name[i - 1] == 47u8) && (i + 2
            == n || name[i + 2] == 47u8) {
            assert(dotdot_at(name@, i as int));
            return true;
        }
        assert(!dotdot_at(name@, i as int));
        i += 1;
    }
    proof {
        assert forall|j: int| !dotdot_at(name@, j) by {
            if j >= i {
                assert(!(j + 2 <= n));
            }
        }
    }
    false
}

/// The view-level state of a cached remote provider.
pub struct CachedModel {
    pub cache: Seq<(Seq<u8>, Seq<u8>)>,
    pub remote: Seq<(Seq<u8>, Seq<u8>)>,
    pub reachable: bool,
    pub only_cached: bool,
}

/// A caching provider over a remote endpoint: lookups are served from the
/// local cache when possible; a miss triggers one fetch whose bytes are
/// committed to the cache, unless only-cached mode forbids the network.
#[derive(Debug)]
pub struct CachedBundle {
    pub cache: FileMap,
    pub remote: FileMap,
    pub reachable: bool,
    pub only_cached: bool,
}

/// The view-level state of the one active bundle.
pub enum BundleModel {
    Dir(Seq<(Seq<u8>, Seq<u8>)>),
    Archive(Seq<(Seq<u8>, Seq<u8>)>),
    Cached(CachedModel),
}

/// What a bundle lookup returns and what state it leaves behind. Only the
/// fetch path of a cached bundle changes anything: the fetched bytes are
/// committed to the cache.
pub open spec fn bundle_step(b: BundleModel, name: Seq<u8>) -> (Result<
    Seq<u8>,
    ResolutionError,
>, BundleModel) {
    match b {
        BundleModel::Dir(m) => (
            if spec_escapes_root(name) {
                Err(ResolutionError::NotFound)
            } else {
                match fm_get(m, name) {
                    Some(v) => Ok(v),
                    None => Err(ResolutionError::NotFound),
                }
            },
            b,
        ),
        BundleModel::Archive(m) => (
            match fm_get(m, name) {
                Some(v) => Ok(v),
                None => Err(ResolutionError::NotFound),
            },
            b,
        ),
        BundleModel::Cached(c) => {
            if fm_get(c.cache, name) is Some {
                (Ok(fm_get(c.cache, name).unwrap()), b)
            } else if c.only_cached {
                (Err(ResolutionError::NotCachedLocally), b)
            } else if !c.reachable {
                (Err(ResolutionError::ResourceUnavailable), b)
            } else {
                match fm_get(c.remote, name) {
                    Some(v) => (
                        Ok(v),
                        BundleModel::Cached(
                            CachedModel { cache: c.cache.push((name, v)), ..c },
                        ),
                    ),
                    None => (Err(ResolutionError::NotFound), b),
                }
            }
        },
    }
}

/// The one active source of resource files behind the I/O stack.
#[derive(Debug)]
pub enum Bundle {
    Dir(FileMap),
    Archive(ArchiveBundle),
    Cached(CachedBundle),
}

impl View for Bundle {
    type V = BundleModel;

    open spec fn view(&self) -> BundleModel {
        match self {
            Bundle::Dir(m) => BundleModel::Dir(m@),
            Bundle::Archive(a) => BundleModel::Archive(a.contents()),
            Bundle::Cached(c) => BundleModel::Cached(
                CachedModel {
                    cache: c.cache@,
                    remote: c.remote@,
                    reachable: c.reachable,
                    only_cached: c.only_cached,
                },
            ),
        }
    }
}

impl Bundle {
    /// The archive index, if any, is sound.
    pub open spec fn wf(&self) -> bool {
        match self {
            Bundle::Archive(a) => a.wf(),
            _ => true,
        }
    }

    /// Resolve `name` against the bundle. A directory-backed bundle
    /// refuses identifiers that would resolve outside its root; on the
    /// fetch path of a cached bundle the fetched bytes are committed to
    /// the local cache, so a later lookup of the same resource is served
    /// without another round trip.
    pub fn lookup(&mut self, name: &[u8]) -> (r: Result<Vec<u8>, ResolutionError>)
        requires
            old(self).wf(),
        ensures
            final(self).wf(),
            ({
                let (sr, sb) = bundle_step(old(self)@, name@);
                &&& final(self)@ == sb
                &&& match r {
                    Ok(v) => sr == Ok::<Seq<u8>, ResolutionError>(v@),
                    Err(e) => sr == Err::<Seq<u8>, ResolutionError>(e),
                }
            }),
    {
        match self {
            Bundle::Dir(m) => if escapes_root(name) {
                Err(ResolutionError::NotFound)
            } else {
                match m.get(name) {
                    Some(v) => Ok(v),
                    None => Err(ResolutionError::NotFound),
                }
            },
            Bundle::Archive(a) => match a.lookup(name) {
                Some(v) => Ok(v),
                None => Err(ResolutionError::NotFound),
            },
            Bundle::Cached(c) => {
                if let Some(v) = c.cache.get(name) {
                    return Ok(v);
                }
                if c.only_cached {
                    return Err(ResolutionError::NotCachedLocally);
                }
                if !c.reachable {
                    return Err(ResolutionError::ResourceUnavailable);
                }
                match c.remote.get(name) {
                    Some(v) => {
                        let mut key: Vec<u8> = Vec::new();
                        crate::bytes::push_bytes(&mut key, name);
                        assert(key@ =~= name@);
                        let stored = v.clone();
                        assert(stored@ =~= v@);
                        c.cache.set(key, stored);
                        Ok(v)
                    },
                    None => Err(ResolutionError::NotFound),
                }
            },
        }
    }
}

/// How the session selects its bundle: an explicit local directory, an
/// explicit local archive, an explicit remote endpoint, or the built-in
/// default endpoint. A `None` under the local choices records that the
/// configured path did not exist or could not be read.
pub enum BundleOption {
    LocalDir(Option<FileMap>),
    LocalArchive(Option<(Vec<u8>, Vec<ArchiveEntry>)>),
    Remote(FileMap, bool),
    Default,
}

/// Construct exactly one active bundle from the configured selection.
/// Remote selections (explicit or default) are fronted by the local cache,
/// honouring only-cached mode; a missing local path is a fatal
/// configuration-time fault.
pub fn resolve_bundle(
    option: BundleOption,
    default_remote: FileMap,
    default_reachable: bool,
    cache: FileMap,
    only_cached: bool,
) -> (r: Result<Bundle, ResolutionError>)
    ensures
        match option {
            BundleOption::LocalDir(od) => match od {
                Some(m) => r == Ok::<Bundle, ResolutionError>(Bundle::Dir(m)),
                None => r == Err::<Bundle, ResolutionError>(ResolutionError::InvalidBundlePath),
            },
            BundleOption::LocalArchive(oa) => match oa {
                Some((blob, index)) => match r {
                    Ok(b) => b matches Bundle::Archive(a) && a.wf() && a.blob@ == blob@
                        && a.index@ == index@,
                    Err(e) => e == ResolutionError::CorruptArchive,
                },
                None => r == Err::<Bundle, ResolutionError>(ResolutionError::InvalidBundlePath),
            },
            BundleOption::Remote(m, reachable) => r == Ok::<Bundle, ResolutionError>(
                Bundle::Cached(
                    CachedBundle { cache, remote: m, reachable, only_cached },
                ),
            ),
            BundleOption::Default => r == Ok::<Bundle, ResolutionError>(
                Bundle::Cached(
                    CachedBundle {
                        cache,
                        remote: default_remote,
                        reachable: default_reachable,
                        only_cached,
                    },
                ),
            ),
        },
        r matches Ok(b) ==> b.wf(),
{
    match option {
        BundleOption::LocalDir(od) => match od {
            Some(m) => Ok(Bundle::Dir(m)),
            None => Err(ResolutionError::InvalidBundlePath),
        },
        BundleOption::LocalArchive(oa) => match oa {
            Some((blob, index)) => match ArchiveBundle::open(blob, index) {
                Ok(a) => Ok(Bundle::Archive(a)),
                Err(e) => Err(e),
            },
            None => Err(ResolutionError::InvalidBundlePath),
        },
        BundleOption::Remote(m, reachable) => Ok(
            Bundle::Cached(CachedBundle { cache, remote: m, reachable, only_cached }),
        ),
        BundleOption::Default => Ok(
            Bundle::Cached(
                CachedBundle {
                    cache,
                    remote: default_remote,
                    reachable: default_reachable,
                    only_cached,
                },
            ),
        ),
    }
}

/// After a resource has once been resolved through a cached bundle with the
/// network allowed, the same resource resolves in only-cached mode from the
/// cache alone, with the same bytes and no state change; and a resource that
/// was never cached fails in only-cached mode with `NotCachedLocally`.
pub proof fn lemma_cache_correctness(c: CachedModel, name: Seq<u8>)
    requires
        !c.only_cached,
        bundle_step(BundleModel::Cached(c), name).0 is Ok,
    ensures
        ({
            let (r1, b1) = bundle_step(BundleModel::Cached(c), name);
            let offline = match b1 {
                BundleModel::Cached(c1) => BundleModel::Cached(
                    CachedModel { only_cached: true, ..c1 },
                ),
                _ => b1,
            };
            let (r2, b2) = bundle_step(offline, name);
            r2 == r1 && b2 == offline
        }),
{
}

/// A resource never fetched and never cached is refused in only-cached mode
/// with `NotCachedLocally`, whatever the remote endpoint holds.
pub proof fn lemma_only_cached_miss(c: CachedModel, name: Seq<u8>)
    requires
        c.only_cached,
        fm_get(c.cache, name) is None,
    ensures
        bundle_step(BundleModel::Cached(c), name).0 == Err::<Seq<u8>, ResolutionError>(
            ResolutionError::NotCachedLocally,
        ),
        bundle_step(BundleModel::Cached(c), name).1 == BundleModel::Cached(c),
{
}

} // verus!
