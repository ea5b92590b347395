//! Session configuration: the inputs the host hands to a processing
//! session, and the small parsers that turn command-line text into them.

use vstd::prelude::*;
use vstd::string::StringSliceAdditionalSpecFns;

use crate::bytes::{bytes_eq, copy_range};
use crate::engine::UnstableOptions;
use crate::errors::ConfigError;

verus! {

/// The kind of artifact the session is asked to produce.
#[derive(Clone, Copy, Debug, Eq, PartialEq, Structural)]
pub enum OutputFormat {
    Pdf,
    Html,
    Xdv,
    Aux,
    Fmt,
}

/// Which engines run, and in what order.
#[derive(Clone, Copy, Debug, Eq, PartialEq, Structural)]
pub enum PassSetting {
    Default,
    Tex,
    BibtexFirst,
}

/// The output format named by a command-line word, if any.
pub open spec fn spec_parse_output_format(s: Seq<u8>) -> Option<OutputFormat> {
    if s == "pdf".spec_bytes() {
        Some(OutputFormat::Pdf)
    } else if s == "html".spec_bytes() {
        Some(OutputFormat::Html)
    } else if s == "xdv".spec_bytes() {
        Some(OutputFormat::Xdv)
    } else if s == "aux".spec_bytes() {
        Some(OutputFormat::Aux)
    } else if s == "fmt".spec_bytes() {
        Some(OutputFormat::Fmt)
    } else {
        None
    }
}

/// Parse the output-format word of the command line.
pub fn parse_output_format(s: &[u8]) -> (r: Option<OutputFormat>)
    ensures
        r == spec_parse_output_format(s@),
{
    if bytes_eq(s, "pdf".as_bytes()) {
        Some(OutputFormat::Pdf)
    } else if bytes_eq(s, "html".as_bytes()) {
        Some(OutputFormat::Html)
    } else if bytes_eq(s, "xdv".as_bytes()) {
        Some(OutputFormat::Xdv)
    } else if bytes_eq(s, "aux".as_bytes()) {
        Some(OutputFormat::Aux)
    } else if bytes_eq(s, "fmt".as_bytes()) {
        Some(OutputFormat::Fmt)
    } else {
        None
    }
}

/// The pass policy named by a command-line word, if any.
pub open spec fn spec_parse_pass_setting(s: Seq<u8>) -> Option<PassSetting> {
    if s == "default".spec_bytes() {
        Some(PassSetting::Default)
    } else if s == "tex".spec_bytes() {
        Some(PassSetting::Tex)
    } else if s == "bibtex_first".spec_bytes() {
        Some(PassSetting::BibtexFirst)
    } else {
        None
    }
}

/// Parse the pass-policy word of the command line.
pub fn parse_pass_setting(s: &[u8]) -> (r: Option<PassSetting>)
    ensures
        r == spec_parse_pass_setting(s@),
{
    if bytes_eq(s, "default".as_bytes()) {
        Some(PassSetting::Default)
    } else if bytes_eq(s, "tex".as_bytes()) {
        Some(PassSetting::Tex)
    } else if bytes_eq(s, "bibtex_first".as_bytes()) {
        Some(PassSetting::BibtexFirst)
    } else {
        None
    }
}

/// The file-name extension of each output format.
pub open spec fn spec_format_ext(f: OutputFormat) -> Seq<u8> {
    match f {
        OutputFormat::Pdf => "pdf".spec_bytes(),
        OutputFormat::Html => "html".spec_bytes(),
        OutputFormat::Xdv => "xdv".spec_bytes(),
        OutputFormat::Aux => "aux".spec_bytes(),
        OutputFormat::Fmt => "fmt".spec_bytes(),
    }
}

/// The extension the final artifact carries.
pub fn format_ext(f: OutputFormat) -> (r: &'static [u8])
    ensures
        r@ == spec_format_ext(f),
{
    match f {
        OutputFormat::Pdf => "pdf".as_bytes(),
        OutputFormat::Html => "html".as_bytes(),
        OutputFormat::Xdv => "xdv".as_bytes(),
        OutputFormat::Aux => "aux".as_bytes(),
        OutputFormat::Fmt => "fmt".as_bytes(),
    }
}

/// The index of the last path separator, if any.
pub open spec fn last_slash(s: Seq<u8>) -> Option<int>
    decreases s.len(),
{
    if s.len() == 0 {
        None
    } else if s.last() == 47u8 {
        Some(s.len() - 1)
    } else {
        last_slash(s.drop_last())
    }
}

/// A byte string without separators has no last separator.
proof fn lemma_last_slash_none(s: Seq<u8>)
    requires
        forall|k: int| 0 <= k < s.len() ==> s[k] != 47u8,
    ensures
        last_slash(s) is None,
    decreases s.len(),
{
    if s.len() > 0 {
        lemma_last_slash_none(s.drop_last());
    }
}

/// A separator with none after it is the last one.
proof fn lemma_last_slash_at(s: Seq<u8>, j: int)
    requires
        0 <= j < s.len(),
        s[j] == 47u8,
        forall|k: int| j < k < s.len() ==> s[k] != 47u8,
    ensures
        last_slash(s) == Some(j),
    decreases s.len(),
{
    if j == s.len() - 1 {
    } else {
        lemma_last_slash_at(s.drop_last(), j);
    }
}

/// How the primary input and the default output directory follow from the
/// input path: the standard-input sentinel reads under a fixed base name
/// with outputs beside the invocation; a file path contributes its
/// basename as the input name and its parent as the output directory; a
/// path with an empty basename is unusable.
pub open spec fn spec_resolve_input(s: Seq<u8>) -> Result<(Seq<u8>, Seq<u8>), ConfigError> {
    if s == "-".spec_bytes() {
        Ok(("texput.tex".spec_bytes(), Seq::<u8>::empty()))
    } else {
        match last_slash(s) {
            None => if s.len() == 0 {
                Err(ConfigError::NoInputSpecified)
            } else {
                Ok((s, Seq::<u8>::empty()))
            },
            Some(j) => if j == s.len() - 1 {
                Err(ConfigError::BadInputPath)
            } else {
                Ok((s.skip(j + 1), s.take(j)))
            },
        }
    }
}

/// Derive the logical input name and the output directory from the input
/// path as given on the command line.
pub fn resolve_input(s: &[u8]) -> (r: Result<(Vec<u8>, Vec<u8>), ConfigError>)
    ensures
        match r {
            Ok((name, dir)) => spec_resolve_input(s@) == Ok::<(Seq<u8>, Seq<u8>), ConfigError>(
                (name@, dir@),
            ),
            Err(e) => spec_resolve_input(s@) == Err::<(Seq<u8>, Seq<u8>), ConfigError>(e),
        },
{
    if bytes_eq(s, "-".as_bytes()) {
        let mut name: Vec<u8> = Vec::new();
        crate::bytes::push_bytes(&mut name, "texput.tex".as_bytes());
        assert(name@ =~= "texput.tex".spec_bytes());
        let dir: Vec<u8> = Vec::new();
        assert(dir@ =~= Seq::<u8>::empty());
        return Ok((name, dir));
    }
    let n = s.len();
    let mut i: usize = n;
    while i > 0
        invariant
            i <= n,
            n == s@.len(),
            s@ != "-".spec_bytes(),
            forall|k: int| i <= k < n ==> s@[k] != 47u8,
        decreases i,
    {
        i = i - 1;
        if s[i] == 47u8 {
            proof {
                lemma_last_slash_at(s@, i as int);
            }
            if i + 1 == n {
                return Err(ConfigError::BadInputPath);
            }
            let name = copy_range(s, i + 1, n);
            let dir = copy_range(s, 0, i);
            assert(name@ =~= s@.skip(i + 1));
            return Ok((name, dir));
        }
    }
    proof {
        lemma_last_slash_none(s@);
    }
    if s.len() == 0 {
        return Err(ConfigError::NoInputSpecified);
    }
    let name = copy_range(s, 0, n);
    assert(name@ =~= s@);
    let dir: Vec<u8> = Vec::new();
    assert(dir@ =~= Seq::<u8>::empty());
    Ok((name, dir))
}

/// The value of a decimal digit string, most significant digit first.
pub open spec fn dec_val(s: Seq<u8>) -> int
    decreases s.len(),
{
    if s.len() == 0 {
        0
    } else {
        dec_val(s.drop_last()) * 10 + (s.last() - 48)
    }
}

/// Every byte is a decimal digit.
pub open spec fn all_digits(s: Seq<u8>) -> bool {
    forall|i: int| 0 <= i < s.len() ==> 48 <= #[trigger] s[i] <= 57
}

/// The value of a digit string is nonnegative.
proof fn lemma_dec_val_nonneg(s: Seq<u8>)
    requires
        all_digits(s),
    ensures
        dec_val(s) >= 0,
    decreases s.len(),
{
    if s.len() > 0 {
        assert(forall|i: int| 0 <= i < s.drop_last().len() ==> s.drop_last()[i] == s[i]);
        lemma_dec_val_nonneg(s.drop_last());
    }
}

/// A digit string is worth at least any of its prefixes.
proof fn lemma_dec_val_prefix(s: Seq<u8>, i: int)
    requires
        all_digits(s),
        0 <= i <= s.len(),
    ensures
        dec_val(s.take(i)) <= dec_val(s),
    decreases s.len() - i,
{
    if i == s.len() {
        assert(s.take(i) =~= s);
    } else {
        let d = s.drop_last();
        assert(forall|k: int| 0 <= k < d.len() ==> d[k] == s[k]);
        lemma_dec_val_prefix(d, i);
        assert(d.take(i) =~= s.take(i));
        lemma_dec_val_nonneg(d);
        assert(dec_val(s) == dec_val(d) * 10 + (s.last() - 48));
        assert(dec_val(d) * 10 >= dec_val(d));
    }
}

/// Parse a decimal epoch timestamp, as the reproducible-build environment
/// supplies it; rejects empty text, non-digits, and values that do not fit
/// the engine's timestamp width.
pub fn parse_epoch(s: &[u8]) -> (r: Option<u64>)
    ensures
        r is Some <==> (s@.len() > 0 && all_digits(s@) && dec_val(s@) <= u64::MAX),
        r matches Some(v) ==> v == dec_val(s@),
{
    let n = s.len();
    if n == 0 {
        return None;
    }
    let mut acc: u64 = 0;
    let mut i: usize = 0;
    while i < n
        invariant
            i <= n,
            n == s@.len(),
            all_digits(s@.take(i as int)),
            acc == dec_val(s@.take(i as int)),
        decreases n - i,
    {
        let b = s[i];
        if b < 48 || b > 57 {
            assert(!all_digits(s@)) by {
                assert(!(48 <= s@[i as int] <= 57));
            }
            return None;
        }
        let d = (b - 48) as u64;
        proof {
            assert(s@.take(i + 1).drop_last() =~= s@.take(i as int));
            assert(s@.take(i + 1).last() == s@[i as int]);
            assert(forall|k: int|
                0 <= k < i + 1 ==> 48 <= #[trigger] s@.take(i + 1)[k] <= 57);
        }
        if acc > (u64::MAX - d) / 10 {
            proof {
                let x = (u64::MAX - d) as int;
                assert(x / 10 * 10 + 9 >= x) by (nonlinear_arith)
                    requires
                        x >= 0,
                ;
                assert(acc * 10 >= (x / 10 + 1) * 10) by (nonlinear_arith)
                    requires
                        acc >= x / 10 + 1,
                ;
                assert(dec_val(s@.take(i + 1)) > u64::MAX);
                if all_digits(s@) {
                    lemma_dec_val_prefix(s@, i + 1);
                }
            }
            return None;
        }
        acc = acc * 10 + d;
        i += 1;
    }
    assert(s@.take(n as int) =~= s@);
    Some(acc)
}

/// Everything a processing session is configured with. The host assembles
/// this once per invocation; the session validates it before any engine
/// call.
#[derive(Debug)]
pub struct SessionConfig {
    /// The name of the format file that initializes the engine.
    pub format_name: Vec<u8>,
    /// The kind of artifact to produce.
    pub output_format: OutputFormat,
    /// Which engines run.
    pub pass: PassSetting,
    /// An explicit rerun count after the first pass, overriding
    /// auto-detection.
    pub reruns: Option<u64>,
    /// How many automatic reruns the convergence heuristic may request.
    pub max_auto_reruns: u64,
    /// Keep every intermediate file after convergence.
    pub keep_intermediates: bool,
    /// Keep log files after convergence.
    pub keep_logs: bool,
    /// Generate SyncTeX data.
    pub synctex: bool,
    /// Echo the engine's chatter while running.
    pub print_stdout: bool,
    /// The logical name of the primary input.
    pub tex_input_name: Vec<u8>,
    /// Where to write Makefile-format dependency rules, if anywhere.
    pub makefile_output: Option<Vec<u8>>,
    /// The pinned build timestamp, in seconds since the epoch.
    pub build_date: u64,
    /// Host-level engine overrides.
    pub unstables: UnstableOptions,
}

/// The configuration faults that abort a session before any engine call.
pub open spec fn spec_validate(cfg: SessionConfig) -> Option<ConfigError> {
    if cfg.format_name@.len() == 0 {
        Some(ConfigError::EmptyFormatName)
    } else if cfg.tex_input_name@.len() == 0 {
        Some(ConfigError::NoInputSpecified)
    } else {
        None
    }
}

impl SessionConfig {
    /// Check the configuration; a fault here aborts the session with no
    /// engine invocation.
    pub fn validate(&self) -> (r: Option<ConfigError>)
        ensures
            r == spec_validate(*self),
    {
        if self.format_name.len() == 0 {
            Some(ConfigError::EmptyFormatName)
        } else if self.tex_input_name.len() == 0 {
            Some(ConfigError::NoInputSpecified)
        } else {
            None
        }
    }
}

} // verus!
