//! Byte-string helpers shared by the provider, stack and driver layers.
//!
//! Resource identifiers and file contents are byte strings, so the whole
//! crate leans on a few small verified operations over `Vec<u8>`.

use vstd::prelude::*;

verus! {

/// Compare two byte slices for equality of contents.
pub fn bytes_eq(a: &[u8], b: &[u8]) -> (r: bool)
    ensures
        r == (a@ == b@),
{
    if a.len() != b.len() {
        assert(a@ != b@) by {
            assert(a@.len() != b@.len());
        }
        return false;
    }
    let n = a.len();
    let mut i: usize = 0;
    while i < n
        invariant
            n == a@.len() == b@.len(),
            i <= n,
            forall|j: int| 0 <= j < i ==> a@[j] == b@[j],
        decreases n - i,
    {
        if a[i] != b[i] {
            return false;
        }
        i += 1;
    }
    assert(a@ =~= b@);
    true
}

/// Append a copy of `src` to `dst`.
pub fn push_bytes(dst: &mut Vec<u8>, src: &[u8])
    ensures
        final(dst)@ == old(dst)@ + src@,
{
    let n = src.len();
    let mut i: usize = 0;
    while i < n
        invariant
            n == src@.len(),
            i <= n,
            dst@ == old(dst)@ + src@.take(i as int),
        decreases n - i,
    {
        dst.push(src[i]);
        assert(old(dst)@ + src@.take(i as int) + seq![src@[i as int]] =~= old(dst)@ + src@.take(
            i + 1,
        ));
        i += 1;
    }
    assert(src@.take(n as int) =~= src@);
}

/// Does `s` end with the byte string `suffix`?
pub fn bytes_ends_with(s: &[u8], suffix: &[u8]) -> (r: bool)
    ensures
        r == spec_ends_with(s@, suffix@),
{
    if suffix.len() > s.len() {
        return false;
    }
    let start = s.len() - suffix.len();
    let n = s.len();
    let mut i: usize = start;
    while i < n
        invariant
            suffix@.len() <= s@.len(),
            start == s@.len() - suffix@.len(),
            start <= i <= n,
            n == s@.len(),
            forall|j: int| start <= j < i ==> s@[j] == suffix@[j - start],
        decreases n - i,
    {
        if s[i] != suffix[i - start] {
            assert(!spec_ends_with(s@, suffix@)) by {
                assert(s@.skip(start as int)[i - start] != suffix@[i - start]);
            }
            return false;
        }
        i += 1;
    }
    assert(s@.skip(start as int) =~= suffix@);
    true
}

/// `s` ends with `suffix`.
pub open spec fn spec_ends_with(s: Seq<u8>, suffix: Seq<u8>) -> bool {
    suffix.len() <= s.len() && s.skip(s.len() - suffix.len()) == suffix
}

/// Copy `src[a..b]` into a fresh vector.
pub fn copy_range(src: &[u8], a: usize, b: usize) -> (r: Vec<u8>)
    requires
        a <= b <= src@.len(),
    ensures
        r@ == src@.subrange(a as int, b as int),
{
    let mut v: Vec<u8> = Vec::new();
    let mut i: usize = a;
    while i < b
        invariant
            a <= i <= b,
            b <= src@.len(),
            v@ == src@.subrange(a as int, i as int),
        decreases b - i,
    {
        v.push(src[i]);
        assert(src@.subrange(a as int, i as int).push(src@[i as int]) =~= src@.subrange(
            a as int,
            i + 1 as int,
        ));
        i += 1;
    }
    v
}

/// An association list from byte-string names to byte-string contents.
/// The most recent entry for a name is the one in force, so an insert is a
/// plain append and never disturbs what is recorded for other names.
#[derive(Clone, Debug)]
pub struct FileMap {
    pub entries: Vec<(Vec<u8>, Vec<u8>)>,
}

/// The contents recorded for `name`, where later entries supersede earlier
/// ones.
pub open spec fn assoc_get(s: Seq<(Vec<u8>, Vec<u8>)>, name: Seq<u8>) -> Option<Seq<u8>>
    decreases s.len(),
{
    if s.len() == 0 {
        None
    } else if s.last().0@ == name {
        Some(s.last().1@)
    } else {
        assoc_get(s.drop_last(), name)
    }
}

/// If no entry at index `i` or later matches `name`, the lookup is decided
/// by the first `i` entries alone.
pub proof fn lemma_assoc_get_take(s: Seq<(Vec<u8>, Vec<u8>)>, name: Seq<u8>, i: int)
    requires
        0 <= i <= s.len(),
        forall|j: int| i <= j < s.len() ==> s[j].0@ != name,
    ensures
        assoc_get(s, name) == assoc_get(s.take(i), name),
    decreases s.len() - i,
{
    if i == s.len() {
        assert(s.take(i) =~= s);
    } else {
        assert(s.last().0@ != name);
        lemma_assoc_get_take(s.drop_last(), name, i);
        assert(s.drop_last().take(i) =~= s.take(i));
    }
}

/// The contents in force for `name` in a view-level association list,
/// later entries superseding earlier ones.
pub open spec fn fm_get(m: Seq<(Seq<u8>, Seq<u8>)>, name: Seq<u8>) -> Option<Seq<u8>>
    decreases m.len(),
{
    if m.len() == 0 {
        None
    } else if m.last().0 == name {
        Some(m.last().1)
    } else {
        fm_get(m.drop_last(), name)
    }
}

/// If no entry at index `i` or later matches `name`, the lookup is decided
/// by the first `i` entries alone.
pub proof fn lemma_fm_get_take(m: Seq<(Seq<u8>, Seq<u8>)>, name: Seq<u8>, i: int)
    requires
        0 <= i <= m.len(),
        forall|j: int| i <= j < m.len() ==> m[j].0 != name,
    ensures
        fm_get(m, name) == fm_get(m.take(i), name),
    decreases m.len() - i,
{
    if i == m.len() {
        assert(m.take(i) =~= m);
    } else {
        assert(m.last().0 != name);
        lemma_fm_get_take(m.drop_last(), name, i);
        assert(m.drop_last().take(i) =~= m.take(i));
    }
}

/// The pair-of-views form of an entry list.
pub open spec fn entries_view(s: Seq<(Vec<u8>, Vec<u8>)>) -> Seq<(Seq<u8>, Seq<u8>)> {
    s.map_values(|p: (Vec<u8>, Vec<u8>)| (p.0@, p.1@))
}

/// Looking a name up through the entry list or through its view is the same.
pub proof fn lemma_assoc_get_is_fm_get(s: Seq<(Vec<u8>, Vec<u8>)>, name: Seq<u8>)
    ensures
        assoc_get(s, name) == fm_get(entries_view(s), name),
    decreases s.len(),
{
    if s.len() == 0 {
    } else {
        assert(entries_view(s).last() == (s.last().0@, s.last().1@));
        lemma_assoc_get_is_fm_get(s.drop_last(), name);
        assert(entries_view(s.drop_last()) =~= entries_view(s).drop_last());
    }
}

impl View for FileMap {
    type V = Seq<(Seq<u8>, Seq<u8>)>;

    open spec fn view(&self) -> Seq<(Seq<u8>, Seq<u8>)> {
        entries_view(self.entries@)
    }
}

impl FileMap {
    /// What the map holds for `name`.
    pub open spec fn spec_get(&self, name: Seq<u8>) -> Option<Seq<u8>> {
        assoc_get(self.entries@, name)
    }

    /// `spec_get` agrees with the view-level lookup.
    pub proof fn lemma_get_is_view_get(&self, name: Seq<u8>)
        ensures
            self.spec_get(name) == fm_get(self@, name),
    {
        lemma_assoc_get_is_fm_get(self.entries@, name);
    }

    /// An empty map.
    pub fn new() -> (r: FileMap)
        ensures
            r@.len() == 0,
            forall|n: Seq<u8>| fm_get(r@, n) is None,
    {
        let r = FileMap { entries: Vec::new() };
        assert(r@ =~= Seq::<(Seq<u8>, Seq<u8>)>::empty());
        r
    }

    /// Look `name` up, returning a copy of the contents in force for it.
    pub fn get(&self, name: &[u8]) -> (r: Option<Vec<u8>>)
        ensures
            match r {
                Some(v) => fm_get(self@, name@) == Some(v@),
                None => fm_get(self@, name@) is None,
            },
    {
        proof {
            self.lemma_get_is_view_get(name@);
        }
        let n = self.entries.len();
        let mut i: usize = n;
        while i > 0
            invariant
                i <= n,
                n == self.entries@.len(),
                forall|j: int| i <= j < n ==> self.entries@[j].0@ != name@,
            decreases i,
        {
            i = i - 1;
            if bytes_eq(self.entries[i].0.as_slice(), name) {
                let v = self.entries[i].1.clone();
                assert(v@ =~= self.entries@[i as int].1@);
                proof {
                    self.lemma_get_is_view_get(name@);
                    lemma_assoc_get_take(self.entries@, name@, i + 1);
                    let t = self.entries@.take(i + 1);
                    assert(t.last() == self.entries@[i as int]);
                    assert(t.last().0@ == name@);
                    assert(assoc_get(t, name@) == Some(t.last().1@));
                }
                return Some(v);
            }
        }
        proof {
            lemma_assoc_get_take(self.entries@, name@, 0);
            assert(self.entries@.take(0) =~= Seq::<(Vec<u8>, Vec<u8>)>::empty());
        }
        None
    }

    /// Is `name` present?
    pub fn contains(&self, name: &[u8]) -> (r: bool)
        ensures
            r == (fm_get(self@, name@) is Some),
    {
        self.get(name).is_some()
    }

    /// Record `contents` for `name`, superseding any earlier entry.
    pub fn set(&mut self, name: Vec<u8>, contents: Vec<u8>)
        ensures
            final(self)@ == old(self)@.push((name@, contents@)),
            fm_get(final(self)@, name@) == Some(contents@),
            forall|n: Seq<u8>| n != name@ ==> fm_get(final(self)@, n) == fm_get(old(self)@, n),
    {
        let ghost name_v = name@;
        let ghost contents_v = contents@;
        self.entries.push((name, contents));
        proof {
            assert(self@ =~= old(self)@.push((name_v, contents_v)));
            assert(self@.last() == (name_v, contents_v));
            assert(self@.drop_last() =~= old(self)@);
        }
    }

    /// The number of entries.
    pub fn len(&self) -> (r: usize)
        ensures
            r == self@.len(),
    {
        self.entries.len()
    }
}

} // verus!
