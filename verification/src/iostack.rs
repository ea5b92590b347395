//! The prioritized I/O stack the engine reads and writes through.
//!
//! Every file operation consults a fixed chain of layers: the hidden-path
//! denial list, the primary input, the output directory, the format cache,
//! and the resolved bundle; the first layer that claims an identifier
//! decides the operation. Writes are satisfied by the output directory
//! alone, except for the designated chatter pseudo-file, which collects the
//! engine's diagnostic stream in memory and never reaches disk. Every
//! successful read or write of a real resource is recorded once, in
//! first-seen order, for dependency-file generation.

use vstd::prelude::*;
use vstd::slice::slice_to_vec;

use crate::bytes::{bytes_eq, fm_get, push_bytes, FileMap};
use crate::errors::{ResolutionError, StackError};
use crate::provider::{bundle_step, Bundle, BundleModel};

verus! {

/// The layer that satisfied a file operation.
#[derive(Clone, Copy, Debug, PartialEq, Eq, Structural)]
pub enum LayerId {
    PrimaryInput,
    OutputDir,
    FormatCache,
    Bundle,
    ChatterSink,
}

/// One touched resource: its identifier, the direction, and the layer that
/// satisfied the operation.
#[derive(Clone, Debug)]
pub struct DepEntry {
    pub name: Vec<u8>,
    pub write: bool,
    pub layer: LayerId,
}

/// The view of a recorded touch.
#[verifier::ext_equal]
pub struct DepEntryModel {
    pub name: Seq<u8>,
    pub write: bool,
    pub layer: LayerId,
}

impl View for DepEntry {
    type V = DepEntryModel;

    open spec fn view(&self) -> DepEntryModel {
        DepEntryModel { name: self.name@, write: self.write, layer: self.layer }
    }
}

/// The view-level state of the whole stack.
#[verifier::ext_equal]
pub struct StackModel {
    pub hidden: Seq<Seq<u8>>,
    pub primary_name: Seq<u8>,
    pub primary: Seq<u8>,
    pub output: Seq<(Seq<u8>, Seq<u8>)>,
    pub format_cache: Seq<(Seq<u8>, Seq<u8>)>,
    pub bundle: BundleModel,
    pub record: Seq<DepEntryModel>,
    pub chatter_name: Seq<u8>,
    pub chatter: Seq<u8>,
}

/// Is `name` on the hidden-path denial list?
pub open spec fn spec_hidden(hidden: Seq<Seq<u8>>, name: Seq<u8>) -> bool {
    exists|i: int| 0 <= i < hidden.len() && hidden[i] == name
}

/// Append a touch to the record unless the same identifier and direction
/// were already seen; first-seen order is kept.
pub open spec fn record_touch(
    rec: Seq<DepEntryModel>,
    name: Seq<u8>,
    write: bool,
    layer: LayerId,
) -> Seq<DepEntryModel> {
    if exists|i: int| 0 <= i < rec.len() && rec[i].name == name && rec[i].write == write {
        rec
    } else {
        rec.push(DepEntryModel { name, write, layer })
    }
}

/// What a read of `name` returns and what state it leaves behind. The
/// layers are consulted in the fixed priority order; only the bundle layer
/// can change state (by committing a fetched resource to its cache), and
/// only a successful read is recorded.
pub open spec fn spec_read(m: StackModel, name: Seq<u8>) -> (Result<
    (Seq<u8>, LayerId),
    ResolutionError,
>, StackModel) {
    if spec_hidden(m.hidden, name) {
        (Err(ResolutionError::NotFound), m)
    } else if name == m.primary_name {
        (
            Ok((m.primary, LayerId::PrimaryInput)),
            StackModel {
                record: record_touch(m.record, name, false, LayerId::PrimaryInput),
                ..m
            },
        )
    } else if fm_get(m.output, name) is Some {
        (
            Ok((fm_get(m.output, name).unwrap(), LayerId::OutputDir)),
            StackModel { record: record_touch(m.record, name, false, LayerId::OutputDir), ..m },
        )
    } else if fm_get(m.format_cache, name) is Some {
        (
            Ok((fm_get(m.format_cache, name).unwrap(), LayerId::FormatCache)),
            StackModel {
                record: record_touch(m.record, name, false, LayerId::FormatCache),
                ..m
            },
        )
    } else {
        let (r, b2) = bundle_step(m.bundle, name);
        match r {
            Ok(v) => (
                Ok((v, LayerId::Bundle)),
                StackModel {
                    bundle: b2,
                    record: record_touch(m.record, name, false, LayerId::Bundle),
                    ..m
                },
            ),
            Err(e) => (Err(e), StackModel { bundle: b2, ..m }),
        }
    }
}

/// What a write of `contents` under `name` does. A hidden identifier does
/// not exist for the engine; the primary input is read-only; the chatter
/// pseudo-file collects bytes in memory without touching the record; every
/// other identifier lands in the output directory and is recorded.
pub open spec fn spec_write(m: StackModel, name: Seq<u8>, contents: Seq<u8>) -> (Result<
    LayerId,
    StackError,
>, StackModel) {
    if spec_hidden(m.hidden, name) {
        (Err(StackError::NotFound), m)
    } else if name == m.primary_name {
        (Err(StackError::ReadOnlyLayer), m)
    } else if name == m.chatter_name {
        (Ok(LayerId::ChatterSink), StackModel { chatter: m.chatter + contents, ..m })
    } else {
        (
            Ok(LayerId::OutputDir),
            StackModel {
                output: m.output.push((name, contents)),
                record: record_touch(m.record, name, true, LayerId::OutputDir),
                ..m
            },
        )
    }
}

/// The ordered chain of layers plus the touched-resource record, created
/// fresh for each session.
#[derive(Debug)]
pub struct IoStack {
    pub hidden: Vec<Vec<u8>>,
    pub primary_name: Vec<u8>,
    pub primary: Vec<u8>,
    pub output: FileMap,
    pub format_cache: FileMap,
    pub bundle: Bundle,
    pub record: Vec<DepEntry>,
    pub chatter_name: Vec<u8>,
    pub chatter: Vec<u8>,
}

impl View for IoStack {
    type V = StackModel;

    open spec fn view(&self) -> StackModel {
        StackModel {
            hidden: self.hidden@.map_values(|v: Vec<u8>| v@),
            primary_name: self.primary_name@,
            primary: self.primary@,
            output: self.output@,
            format_cache: self.format_cache@,
            bundle: self.bundle@,
            record: self.record@.map_values(|e: DepEntry| e@),
            chatter_name: self.chatter_name@,
            chatter: self.chatter@,
        }
    }
}

impl IoStack {
    /// The bundle layer's archive index, if any, is sound.
    pub open spec fn wf(&self) -> bool {
        self.bundle.wf()
    }

    /// Assemble a fresh stack with an empty record and an empty chatter
    /// sink.
    pub fn new(
        hidden: Vec<Vec<u8>>,
        primary_name: Vec<u8>,
        primary: Vec<u8>,
        output: FileMap,
        format_cache: FileMap,
        bundle: Bundle,
        chatter_name: Vec<u8>,
    ) -> (r: IoStack)
        requires
            bundle.wf(),
        ensures
            r.wf(),
            r@ == (StackModel {
                hidden: hidden@.map_values(|v: Vec<u8>| v@),
                primary_name: primary_name@,
                primary: primary@,
                output: output@,
                format_cache: format_cache@,
                bundle: bundle@,
                record: Seq::<DepEntryModel>::empty(),
                chatter_name: chatter_name@,
                chatter: Seq::<u8>::empty(),
            }),
    {
        let r = IoStack {
            hidden,
            primary_name,
            primary,
            output,
            format_cache,
            bundle,
            record: Vec::new(),
            chatter_name,
            chatter: Vec::new(),
        };
        proof {
            assert(r@.record =~= Seq::<DepEntryModel>::empty());
            assert(r@.chatter =~= Seq::<u8>::empty());
        }
        r
    }

    /// Is `name` on the denial list?
    fn is_hidden(&self, name: &[u8]) -> (r: bool)
        ensures
            r == spec_hidden(self@.hidden, name@),
    {
        let n = self.hidden.len();
        let mut i: usize = 0;
        while i < n
            invariant
                i <= n,
                n == self.hidden@.len(),
                forall|j: int| 0 <= j < i ==> self.hidden@[j]@ != name@,
            decreases n - i,
        {
            if bytes_eq(self.hidden[i].as_slice(), name) {
                assert(self@.hidden[i as int] == name@);
                return true;
            }
            i += 1;
        }
        assert(forall|j: int| 0 <= j < n ==> self@.hidden[j] == self.hidden@[j]@);
        false
    }

    /// Record a touch unless the same identifier and direction were already
    /// seen.
    fn touch(&mut self, name: &[u8], write: bool, layer: LayerId)
        ensures
            final(self).bundle == old(self).bundle,
            final(self)@ == (StackModel {
                record: record_touch(old(self)@.record, name@, write, layer),
                ..old(self)@
            }),
    {
        let n = self.record.len();
        let mut i: usize = 0;
        while i < n
            invariant
                i <= n,
                n == self.record@.len(),
                forall|j: int|
                    0 <= j < i ==> !(self.record@[j].name@ == name@ && self.record@[j].write
                        == write),
            decreases n - i,
        {
            if self.record[i].write == write && bytes_eq(self.record[i].name.as_slice(), name) {
                assert(self@.record[i as int].name == name@ && self@.record[i as int].write
                    == write);
                assert(final(self)@ =~= (StackModel {
                    record: record_touch(old(self)@.record, name@, write, layer),
                    ..old(self)@
                }));
                return ;
            }
            i += 1;
        }
        assert(forall|j: int|
            0 <= j < n ==> (#[trigger] self@.record[j]) == self.record@[j]@);
        let entry = DepEntry { name: slice_to_vec(name), write, layer };
        let ghost before = self@.record;
        self.record.push(entry);
        proof {
            assert(!(exists|j: int|
                0 <= j < before.len() && before[j].name == name@ && before[j].write == write));
            assert(self@.record =~= before.push(
                DepEntryModel { name: name@, write, layer },
            ));
            assert(final(self)@ =~= (StackModel {
                record: record_touch(old(self)@.record, name@, write, layer),
                ..old(self)@
            }));
        }
    }

    /// Open `name` for reading: consult the layers in priority order,
    /// record a successful read, and hand back the satisfying layer with a
    /// copy of the bytes.
    pub fn open_read(&mut self, name: &[u8]) -> (r: Result<(Vec<u8>, LayerId), ResolutionError>)
        requires
            old(self).wf(),
        ensures
            final(self).wf(),
            ({
                let (sr, sm) = spec_read(old(self)@, name@);
                &&& final(self)@ == sm
                &&& match r {
                    Ok((v, l)) => sr == Ok::<(Seq<u8>, LayerId), ResolutionError>((v@, l)),
                    Err(e) => sr == Err::<(Seq<u8>, LayerId), ResolutionError>(e),
                }
            }),
    {
        if self.is_hidden(name) {
            return Err(ResolutionError::NotFound);
        }
        if bytes_eq(self.primary_name.as_slice(), name) {
            let v = slice_to_vec(self.primary.as_slice());
            self.touch(name, false, LayerId::PrimaryInput);
            return Ok((v, LayerId::PrimaryInput));
        }
        if let Some(v) = self.output.get(name) {
            self.touch(name, false, LayerId::OutputDir);
            return Ok((v, LayerId::OutputDir));
        }
        if let Some(v) = self.format_cache.get(name) {
            self.touch(name, false, LayerId::FormatCache);
            return Ok((v, LayerId::FormatCache));
        }
        match self.bundle.lookup(name) {
            Ok(v) => {
                self.touch(name, false, LayerId::Bundle);
                return Ok((v, LayerId::Bundle));
            },
            Err(e) => {
                assert(final(self)@ =~= spec_read(old(self)@, name@).1);
                return Err(e);
            },
        }
    }

    /// Open `name` for writing and store `contents` through it: denied for
    /// hidden identifiers, refused for the read-only primary input,
    /// collected in memory for the chatter pseudo-file, and otherwise
    /// satisfied (and recorded) by the output directory.
    pub fn open_write(&mut self, name: &[u8], contents: Vec<u8>) -> (r: Result<
        LayerId,
        StackError,
    >)
        requires
            old(self).wf(),
        ensures
            final(self).wf(),
            ({
                let (sr, sm) = spec_write(old(self)@, name@, contents@);
                &&& final(self)@ == sm
                &&& r == sr
            }),
    {
        if self.is_hidden(name) {
            return Err(StackError::NotFound);
        }
        if bytes_eq(self.primary_name.as_slice(), name) {
            return Err(StackError::ReadOnlyLayer);
        }
        if bytes_eq(self.chatter_name.as_slice(), name) {
            push_bytes(&mut self.chatter, contents.as_slice());
            assert(final(self)@ =~= spec_write(old(self)@, name@, contents@).1);
            return Ok(LayerId::ChatterSink);
        }
        let key = slice_to_vec(name);
        self.output.set(key, contents);
        self.touch(name, true, LayerId::OutputDir);
        proof {
            assert(final(self)@ =~= spec_write(old(self)@, name@, contents@).1);
        }
        Ok(LayerId::OutputDir)
    }

    /// Append bytes to the in-memory chatter sink directly.
    pub fn append_chatter(&mut self, bytes: &[u8])
        ensures
            final(self).bundle == old(self).bundle,
            final(self)@ == (StackModel { chatter: old(self)@.chatter + bytes@, ..old(self)@ }),
    {
        push_bytes(&mut self.chatter, bytes);
        assert(final(self)@ =~= (StackModel {
            chatter: old(self)@.chatter + bytes@,
            ..old(self)@
        }));
    }
}

/// A read is satisfied by the highest-priority layer that holds the
/// identifier, per the fixed order: denial list, primary input, output
/// directory, format cache, bundle. Whatever a lower layer holds for the
/// same identifier never leaks through.
pub proof fn lemma_read_priority(m: StackModel, name: Seq<u8>)
    ensures
        spec_hidden(m.hidden, name) ==> spec_read(m, name).0 == Err::<
            (Seq<u8>, LayerId),
            ResolutionError,
        >(ResolutionError::NotFound),
        !spec_hidden(m.hidden, name) && name == m.primary_name ==> spec_read(m, name).0 == Ok::<
            (Seq<u8>, LayerId),
            ResolutionError,
        >((m.primary, LayerId::PrimaryInput)),
        !spec_hidden(m.hidden, name) && name != m.primary_name && fm_get(m.output, name) is Some
            ==> spec_read(m, name).0 == Ok::<(Seq<u8>, LayerId), ResolutionError>(
            (fm_get(m.output, name).unwrap(), LayerId::OutputDir),
        ),
        !spec_hidden(m.hidden, name) && name != m.primary_name && fm_get(m.output, name) is None
            && fm_get(m.format_cache, name) is Some ==> spec_read(m, name).0 == Ok::<
            (Seq<u8>, LayerId),
            ResolutionError,
        >((fm_get(m.format_cache, name).unwrap(), LayerId::FormatCache)),
        !spec_hidden(m.hidden, name) && name != m.primary_name && fm_get(m.output, name) is None
            && fm_get(m.format_cache, name) is None ==> ({
            match bundle_step(m.bundle, name).0 {
                Ok(v) => spec_read(m, name).0 == Ok::<(Seq<u8>, LayerId), ResolutionError>(
                    (v, LayerId::Bundle),
                ),
                Err(e) => spec_read(m, name).0 == Err::<(Seq<u8>, LayerId), ResolutionError>(e),
            }
        }),
{
}

/// A hidden-path identifier always reads as `NotFound`, whatever the other
/// layers hold for it, and the denial leaves the stack untouched.
pub proof fn lemma_hidden_denial(m: StackModel, name: Seq<u8>)
    requires
        spec_hidden(m.hidden, name),
    ensures
        spec_read(m, name) == (
            Err::<(Seq<u8>, LayerId), ResolutionError>(ResolutionError::NotFound),
            m,
        ),
        spec_write(m, name, Seq::<u8>::empty()).0 == Err::<LayerId, StackError>(
            StackError::NotFound,
        ),
{
}

} // verus!
