//! An owned model of the engine's string pool.
//!
//! The engine interns strings in one long array of UTF-16 code units
//! (`pool`), with `starts[k]` giving the offset of interned string number
//! `k + FIRST_STRING`; string numbers below `FIRST_STRING` stand for single
//! code units. `str_ptr` is the number of the string being built. The
//! operations here answer the engine's string queries from that model.

use vstd::prelude::*;

verus! {

/// The first string number that refers to an interned span rather than a
/// single code unit.
pub const FIRST_STRING: i32 = 0x10000;

/// The interned-string state shared with the engine.
#[derive(Clone, Debug)]
pub struct StringPool {
    /// All interned code units, one string after another.
    pub pool: Vec<u16>,
    /// `starts[k]` is the offset in `pool` where string `FIRST_STRING + k`
    /// begins; the next entry is where it ends.
    pub starts: Vec<usize>,
    /// The number of the string currently under construction.
    pub str_ptr: i32,
}

/// A string fetched from the pool: either a bare code unit (for string
/// numbers below `FIRST_STRING`) or a copy of an interned span.
#[derive(Clone, Debug)]
pub enum PoolString {
    Char(u16),
    Span(Vec<u16>),
}

impl PoolString {
    /// The code units this pool string stands for.
    pub open spec fn units(&self) -> Seq<u16> {
        match self {
            PoolString::Char(c) => seq![*c],
            PoolString::Span(v) => v@,
        }
    }

    /// The code units, as an owned vector.
    pub fn as_slice(&self) -> (r: Vec<u16>)
        ensures
            r@ == self.units(),
    {
        match self {
            PoolString::Char(c) => {
                let mut v: Vec<u16> = Vec::new();
                v.push(*c);
                assert(v@ =~= self.units());
                v
            },
            PoolString::Span(v) => {
                let r = v.clone();
                assert(r@ =~= v@);
                r
            },
        }
    }
}

impl StringPool {
    /// The offsets are within the pool and nondecreasing, and the pool is
    /// small enough that every span length fits the engine's integer size.
    pub open spec fn wf(&self) -> bool {
        &&& forall|i: int| 0 <= i < self.starts@.len() ==> self.starts@[i] <= self.pool@.len()
        &&& forall|i: int|
            0 <= i && i + 1 < self.starts@.len() ==> #[trigger] self.starts@[i]
                <= self.starts@[i + 1]
        &&& self.pool@.len() <= 0x7fff_ffff
    }

    /// String number `s` names an interned span of this pool.
    pub open spec fn has_span(&self, s: int) -> bool {
        FIRST_STRING <= s && s - FIRST_STRING + 1 < self.starts@.len()
    }

    /// The code units of interned string `s`.
    pub open spec fn span_units(&self, s: int) -> Seq<u16> {
        self.pool@.subrange(
            self.starts@[s - FIRST_STRING] as int,
            self.starts@[s - FIRST_STRING + 1] as int,
        )
    }

    /// An empty pool.
    pub fn new() -> (r: StringPool)
        ensures
            r.wf(),
            r.pool@.len() == 0,
            r.starts@.len() == 0,
    {
        StringPool { pool: Vec::new(), starts: Vec::new(), str_ptr: 0 }
    }

    /// The code units that `PoolString::from` yields for string number
    /// `s`.
    pub open spec fn fetch_units(&self, s: int) -> Seq<u16> {
        if self.has_span(s) {
            self.span_units(s)
        } else {
            seq![spec_low_unit(s)]
        }
    }
}

impl PoolString {
    /// The string which begins at `pool[starts[s - FIRST_STRING]]`, or the
    /// bare code unit for a number that names no span.
    pub fn from(pool: &StringPool, s: i32) -> (r: PoolString)
        requires
            pool.wf(),
        ensures
            pool.has_span(s as int) ==> r.units() == pool.span_units(s as int),
            pool.has_span(s as int) ==> r is Span,
            !pool.has_span(s as int) ==> r == PoolString::Char((s & 0xffff) as u16),
    {
        if s >= FIRST_STRING {
            let idx = (s - FIRST_STRING) as usize;
            if idx + 1 < pool.starts.len() {
                let a = pool.starts[idx];
                let b = pool.starts[idx + 1];
                return PoolString::Span(copy_units(pool.pool.as_slice(), a, b));
            }
        }
        let c: u16 = (s & 0xffff) as u16;
        assert(0 <= (s & 0xffff) < 0x10000) by (bit_vector);
        PoolString::Char(c)
    }

    /// The string of length `len` which begins where string `str_ptr`
    /// starts; the engine asks for this while a string is still being
    /// built and so has no recorded end yet.
    pub fn from_strptr_with_len(pool: &StringPool, len: usize) -> (r: PoolString)
        requires
            pool.wf(),
            FIRST_STRING <= pool.str_ptr,
            pool.str_ptr - FIRST_STRING < pool.starts@.len(),
            pool.starts@[pool.str_ptr - FIRST_STRING] + len <= pool.pool@.len(),
        ensures
            r.units() == pool.pool@.subrange(
                pool.starts@[pool.str_ptr - FIRST_STRING] as int,
                pool.starts@[pool.str_ptr - FIRST_STRING] + len,
            ),
    {
        let idx = (pool.str_ptr - FIRST_STRING) as usize;
        let a = pool.starts[idx];
        PoolString::Span(copy_units(pool.pool.as_slice(), a, a + len))
    }
}

/// Copy `src[a..b]` into a fresh vector of code units.
fn copy_units(src: &[u16], a: usize, b: usize) -> (r: Vec<u16>)
    requires
        a <= b <= src@.len(),
    ensures
        r@ == src@.subrange(a as int, b as int),
{
    let mut v: Vec<u16> = Vec::new();
    let mut i: usize = a;
    while i < b
        invariant
            a <= i <= b,
            b <= src@.len(),
            v@ == src@.subrange(a as int, i as int),
        decreases b - i,
    {
        v.push(src[i]);
        assert(src@.subrange(a as int, i as int).push(src@[i as int]) =~= src@.subrange(
            a as int,
            i + 1 as int,
        ));
        i += 1;
    }
    v
}

/// The length the engine attributes to string `s`: the span length for an
/// interned string, and otherwise the length of the escape sequence that
/// prints the bare character.
pub fn length(pool: &StringPool, s: i32) -> (r: i32)
    requires
        pool.wf(),
    ensures
        r == spec_length(*pool, s as int),
{
    if s >= FIRST_STRING {
        let idx = (s - FIRST_STRING) as usize;
        if idx + 1 < pool.starts.len() {
            return (pool.starts[idx + 1] - pool.starts[idx]) as i32;
        }
    }
    if s >= 32 && s < 127 {
        1
    } else if s <= 127 {
        3
    } else if s < 256 {
        4
    } else {
        8
    }
}

/// Are the strings numbered `s` and `t` made of the same code units?
pub fn str_eq_str(pool: &StringPool, s: i32, t: i32) -> (r: bool)
    requires
        pool.wf(),
    ensures
        r == (pool.fetch_units(s as int) == pool.fetch_units(t as int)),
{
    let a = PoolString::from(pool, s);
    let b = PoolString::from(pool, t);
    let av = a.as_slice();
    let bv = b.as_slice();
    units_eq(av.as_slice(), bv.as_slice())
}

/// The low sixteen bits of a string number, as a code unit.
pub open spec fn spec_low_unit(s: int) -> u16 {
    ((s as i32) & 0xffff) as u16
}

/// The engine's notion of a string's print length.
pub open spec fn spec_length(p: StringPool, s: int) -> int {
    if p.has_span(s) {
        p.span_units(s).len() as int
    } else if 32 <= s < 127 {
        1
    } else if s <= 127 {
        3
    } else if s < 256 {
        4
    } else {
        8
    }
}

/// Compare two slices of code units for equality of contents.
pub fn units_eq(a: &[u16], b: &[u16]) -> (r: bool)
    ensures
        r == (a@ == b@),
{
    if a.len() != b.len() {
        assert(a@ != b@) by {
            assert(a@.len() != b@.len());
        }
        return false;
    }
    let n = a.len();
    let mut i: usize = 0;
    while i < n
        invariant
            n == a@.len() == b@.len(),
            i <= n,
            forall|j: int| 0 <= j < i ==> a@[j] == b@[j],
        decreases n - i,
    {
        if a[i] != b[i] {
            return false;
        }
        i += 1;
    }
    assert(a@ =~= b@);
    true
}

/// Is the code unit one the shell-command splitter treats as blank?
pub open spec fn is_blank(u: u16) -> bool {
    u == 32 || u == 9 || u == 10 || u == 13
}

/// The length of the leading run of non-blank code units.
pub open spec fn spec_word_len(s: Seq<u16>) -> nat
    decreases s.len(),
{
    if s.len() == 0 || is_blank(s[0]) {
        0
    } else {
        1 + spec_word_len(s.drop_first())
    }
}

/// The leading word is never longer than the string.
proof fn lemma_word_len_le(s: Seq<u16>)
    ensures
        spec_word_len(s) <= s.len(),
    decreases s.len(),
{
    if s.len() > 0 && !is_blank(s[0]) {
        lemma_word_len_le(s.drop_first());
    }
}

/// The blank-separated words of a command string, in order.
pub open spec fn spec_words(s: Seq<u16>) -> Seq<Seq<u16>>
    decreases s.len(),
    via spec_words_decreases
{
    if s.len() == 0 {
        Seq::<Seq<u16>>::empty()
    } else if is_blank(s[0]) {
        spec_words(s.drop_first())
    } else {
        seq![s.take(spec_word_len(s) as int)] + spec_words(s.skip(spec_word_len(s) as int))
    }
}

#[via_fn]
proof fn spec_words_decreases(s: Seq<u16>) {
    if s.len() > 0 && !is_blank(s[0]) {
        assert(spec_word_len(s) == 1 + spec_word_len(s.drop_first()));
        lemma_word_len_le(s);
    }
}

/// Split a shell-command string, as the engine hands it over, into the
/// program word and its argument words; a string with no words names no
/// program.
pub fn split_command(s: &[u16]) -> (r: Option<(Vec<u16>, Vec<Vec<u16>>)>)
    ensures
        match r {
            Some((program, args)) => spec_words(s@).len() > 0 && program@ == spec_words(s@)[0]
                && args@.map_values(|v: Vec<u16>| v@) == spec_words(s@).drop_first(),
            None => spec_words(s@).len() == 0,
        },
{
    let n = s.len();
    let mut words: Vec<Vec<u16>> = Vec::new();
    proof {
        assert(s@.skip(0) =~= s@);
        assert(words@.map_values(|v: Vec<u16>| v@) + spec_words(s@) =~= spec_words(s@));
    }
    let mut i: usize = 0;
    while i < n
        invariant
            i <= n,
            n == s@.len(),
            spec_words(s@) == words@.map_values(|v: Vec<u16>| v@) + spec_words(
                s@.skip(i as int),
            ),
        decreases n - i,
    {
        if is_blank_exec(s[i]) {
            proof {
                assert(s@.skip(i as int)[0] == s@[i as int]);
                assert(s@.skip(i as int).drop_first() =~= s@.skip(i + 1));
            }
            i += 1;
        } else {
            let start = i;
            let mut j: usize = i;
            while j < n
                invariant
                    start <= j <= n,
                    n == s@.len(),
                    forall|k: int| start <= k < j ==> !is_blank(s@[k]),
                ensures
                    start <= j <= n,
                    n == s@.len(),
                    forall|k: int| start <= k < j ==> !is_blank(s@[k]),
                    j < n ==> is_blank(s@[j as int]),
                decreases n - j,
            {
                if is_blank_exec(s[j]) {
                    break ;
                }
                j += 1;
            }
            proof {
                lemma_word_len_scan(s@, start as int, j as int);
            }
            let word = copy_units(s, start, j);
            words.push(word);
            proof {
                let rest = s@.skip(start as int);
                assert(rest[0] == s@[start as int]);
                assert(rest.take(spec_word_len(rest) as int) =~= s@.subrange(
                    start as int,
                    j as int,
                ));
                assert(rest.skip(spec_word_len(rest) as int) =~= s@.skip(j as int));
                assert(words@.map_values(|v: Vec<u16>| v@) =~= old_words_view(words@)
                    + seq![s@.subrange(start as int, j as int)]) by {
                    assert(words@.drop_last().map_values(|v: Vec<u16>| v@) =~= old_words_view(
                        words@,
                    ));
                }
            }
            i = j;
        }
    }
    proof {
        assert(s@.skip(n as int) =~= Seq::<u16>::empty());
        assert(words@.map_values(|v: Vec<u16>| v@) + spec_words(Seq::<u16>::empty())
            =~= words@.map_values(|v: Vec<u16>| v@));
    }
    if words.len() == 0 {
        return None;
    }
    let program = words.remove(0);
    proof {
        assert(program@ == spec_words(s@)[0]);
        assert(words@.map_values(|v: Vec<u16>| v@) =~= spec_words(s@).drop_first());
    }
    Some((program, words))
}

/// The views of all words but the last.
spec fn old_words_view(words: Seq<Vec<u16>>) -> Seq<Seq<u16>> {
    words.drop_last().map_values(|v: Vec<u16>| v@)
}

/// Whether a code unit is blank, decided in executable code.
fn is_blank_exec(u: u16) -> (r: bool)
    ensures
        r == is_blank(u),
{
    u == 32 || u == 9 || u == 10 || u == 13
}

/// Scanning from `start` to the first blank (or the end) measures exactly
/// the leading word of the remainder.
proof fn lemma_word_len_scan(s: Seq<u16>, start: int, j: int)
    requires
        0 <= start <= j <= s.len(),
        forall|k: int| start <= k < j ==> !is_blank(s[k]),
        j < s.len() ==> is_blank(s[j]),
        start < s.len(),
        !is_blank(s[start]),
    ensures
        spec_word_len(s.skip(start)) == j - start,
    decreases j - start,
{
    let rest = s.skip(start);
    assert(rest[0] == s[start]);
    if j == start {
        assert(is_blank(s[start]));
    } else if start + 1 == j {
        assert(rest.drop_first() =~= s.skip(start + 1));
        assert(spec_word_len(rest) == 1 + spec_word_len(rest.drop_first()));
        if j < s.len() {
            assert(s.skip(start + 1)[0] == s[j]);
            assert(spec_word_len(s.skip(start + 1)) == 0);
        } else {
            assert(s.skip(start + 1).len() == 0);
            assert(spec_word_len(s.skip(start + 1)) == 0);
        }
    } else {
        lemma_word_len_scan(s, start + 1, j);
        assert(rest.drop_first() =~= s.skip(start + 1));
        assert(spec_word_len(rest) == 1 + spec_word_len(rest.drop_first()));
    }
}

} // verus!
