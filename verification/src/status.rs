//! Status reporting: what the session tells the invoking environment.
//!
//! The two backends decide everything about a message — whether the
//! chatter level suppresses it, which stream it goes to, its prefix, its
//! color — and hand the host a render plan of plain values; the host then
//! performs the actual terminal writes.

use vstd::prelude::*;
use vstd::string::*;

use crate::bytes::bytes_eq;
use crate::errors::ErrorChain;

verus! {

/// How much chatter the invoking user asked for.
#[derive(Clone, Copy, Debug, Eq, PartialEq, Structural)]
pub enum ChatterLevel {
    Minimal,
    Normal,
}

/// The chatter level named by a command-line word, if any.
pub open spec fn spec_parse_chatter_level(s: Seq<u8>) -> Option<ChatterLevel> {
    if s == "default".spec_bytes() {
        Some(ChatterLevel::Normal)
    } else if s == "minimal".spec_bytes() {
        Some(ChatterLevel::Minimal)
    } else {
        None
    }
}

/// Parse the chatter-level word of the command line.
pub fn parse_chatter_level(s: &[u8]) -> (r: Option<ChatterLevel>)
    ensures
        r == spec_parse_chatter_level(s@),
{
    if bytes_eq(s, "default".as_bytes()) {
        Some(ChatterLevel::Normal)
    } else if bytes_eq(s, "minimal".as_bytes()) {
        Some(ChatterLevel::Minimal)
    } else {
        None
    }
}

/// Whether the command line asked for colorized output, with `Auto`
/// leaving the decision to a terminal check the host performs.
#[derive(Clone, Copy, Debug, Eq, PartialEq, Structural)]
pub enum ColorSetting {
    Always,
    Auto,
    Never,
}

/// The color setting named by a command-line word, if any.
pub open spec fn spec_parse_color_setting(s: Seq<u8>) -> Option<ColorSetting> {
    if s == "always".spec_bytes() {
        Some(ColorSetting::Always)
    } else if s == "auto".spec_bytes() {
        Some(ColorSetting::Auto)
    } else if s == "never".spec_bytes() {
        Some(ColorSetting::Never)
    } else {
        None
    }
}

/// Parse the color word of the command line.
pub fn parse_color_setting(s: &[u8]) -> (r: Option<ColorSetting>)
    ensures
        r == spec_parse_color_setting(s@),
{
    if bytes_eq(s, "always".as_bytes()) {
        Some(ColorSetting::Always)
    } else if bytes_eq(s, "auto".as_bytes()) {
        Some(ColorSetting::Auto)
    } else if bytes_eq(s, "never".as_bytes()) {
        Some(ColorSetting::Never)
    } else {
        None
    }
}

/// The kinds of structured status messages.
#[derive(Clone, Copy, Debug, Eq, PartialEq, Structural)]
pub enum MessageKind {
    Note,
    Warning,
    Error,
}

/// Which standard stream a piece of output belongs on.
#[derive(Clone, Copy, Debug, Eq, PartialEq, Structural)]
pub enum Stream {
    Stdout,
    Stderr,
}

/// A minimal chatter level suppresses note-kind messages and nothing else.
pub open spec fn notes_suppressed(chatter: ChatterLevel, kind: MessageKind) -> bool {
    kind == MessageKind::Note && chatter == ChatterLevel::Minimal
}

/// The prefix word each message kind carries.
pub open spec fn spec_kind_prefix(kind: MessageKind) -> Seq<char> {
    match kind {
        MessageKind::Note => "note:"@,
        MessageKind::Warning => "warning:"@,
        MessageKind::Error => "error:"@,
    }
}

/// The prefix word each message kind carries.
pub fn kind_prefix(kind: MessageKind) -> (r: &'static str)
    ensures
        r@ == spec_kind_prefix(kind),
{
    match kind {
        MessageKind::Note => "note:",
        MessageKind::Warning => "warning:",
        MessageKind::Error => "error:",
    }
}

/// Notes go to standard output; warnings and errors to standard error.
pub open spec fn spec_stream_for(kind: MessageKind) -> Stream {
    match kind {
        MessageKind::Note => Stream::Stdout,
        _ => Stream::Stderr,
    }
}

/// One line of the plain backend's render plan.
#[derive(Debug)]
pub struct PlainLine {
    pub stream: Stream,
    pub prefix: String,
    pub text: String,
}

/// The view of a plain render line.
#[verifier::ext_equal]
pub struct PlainLineModel {
    pub stream: Stream,
    pub prefix: Seq<char>,
    pub text: Seq<char>,
}

impl View for PlainLine {
    type V = PlainLineModel;

    open spec fn view(&self) -> PlainLineModel {
        PlainLineModel { stream: self.stream, prefix: self.prefix@, text: self.text@ }
    }
}

/// The lines a cause chain renders to: the top message under the kind's
/// own prefix (notes on standard output), every further cause under a
/// "caused by:" prefix on standard error.
pub open spec fn spec_plain_lines(kind: MessageKind, msgs: Seq<String>) -> Seq<PlainLineModel>
    decreases msgs.len(),
{
    if msgs.len() == 0 {
        Seq::<PlainLineModel>::empty()
    } else {
        spec_plain_lines(kind, msgs.drop_last()).push(
            spec_plain_line(kind, msgs.len() - 1, msgs.last()@),
        )
    }
}

/// The one line rendered for the cause at position `i`.
pub open spec fn spec_plain_line(kind: MessageKind, i: int, text: Seq<char>) -> PlainLineModel {
    if i == 0 {
        PlainLineModel { stream: spec_stream_for(kind), prefix: spec_kind_prefix(kind), text }
    } else {
        PlainLineModel { stream: Stream::Stderr, prefix: "caused by:"@, text }
    }
}

/// The status backend that writes unadorned text.
#[derive(Clone, Copy, Debug)]
pub struct PlainStatusBackend {
    pub chatter: ChatterLevel,
}

impl PlainStatusBackend {
    /// A plain backend at the given chatter level.
    pub fn new(chatter: ChatterLevel) -> (r: PlainStatusBackend)
        ensures
            r.chatter == chatter,
    {
        PlainStatusBackend { chatter }
    }

    /// Render a structured message with its cause chain; a minimal
    /// chatter level suppresses notes entirely.
    pub fn ereport(&self, kind: MessageKind, err: &ErrorChain) -> (r: Vec<PlainLine>)
        ensures
            notes_suppressed(self.chatter, kind) ==> r@.len() == 0,
            !notes_suppressed(self.chatter, kind) ==> r@.map_values(|l: PlainLine| l@)
                == spec_plain_lines(kind, err.messages@),
    {
        let mut r: Vec<PlainLine> = Vec::new();
        if kind == MessageKind::Note && self.chatter == ChatterLevel::Minimal {
            return r;
        }
        let n = err.messages.len();
        let mut i: usize = 0;
        while i < n
            invariant
                i <= n,
                n == err.messages@.len(),
                r@.map_values(|l: PlainLine| l@) == spec_plain_lines(
                    kind,
                    err.messages@.take(i as int),
                ),
            decreases n - i,
        {
            let prefix: String = if i == 0 {
                String::from_str(kind_prefix(kind))
            } else {
                String::from_str("caused by:")
            };
            let stream = if i == 0 && kind == MessageKind::Note {
                Stream::Stdout
            } else {
                Stream::Stderr
            };
            let text = err.messages[i].clone();
            r.push(PlainLine { stream, prefix, text });
            proof {
                let mv = err.messages@;
                assert(mv.take(i + 1).drop_last() =~= mv.take(i as int));
                assert(mv.take(i + 1).last() == mv[i as int]);
                assert(r@.map_values(|l: PlainLine| l@) =~= spec_plain_lines(
                    kind,
                    mv.take(i + 1),
                ));
            }
            i += 1;
        }
        proof {
            assert(err.messages@.take(n as int) =~= err.messages@);
        }
        r
    }

    /// Render a terminal error report: the whole cause chain as
    /// error-kind lines on standard error.
    pub fn report_error(&self, err: &ErrorChain) -> (r: Vec<PlainLine>)
        ensures
            r@.map_values(|l: PlainLine| l@) == spec_plain_lines(
                MessageKind::Error,
                err.messages@,
            ),
    {
        let always = PlainStatusBackend { chatter: ChatterLevel::Normal };
        always.ereport(MessageKind::Error, err)
    }

    /// Render a note whose middle segment is highlighted; suppressed at
    /// the minimal chatter level. The plain backend has no styling, so
    /// the three segments are joined.
    pub fn note_highlighted(&self, before: &str, highlighted: &str, after: &str) -> (r: Option<
        PlainLine,
    >)
        ensures
            self.chatter == ChatterLevel::Minimal ==> r is None,
            self.chatter != ChatterLevel::Minimal ==> match r {
                Some(l) => l@ == (PlainLineModel {
                    stream: Stream::Stdout,
                    prefix: "note:"@,
                    text: before@ + highlighted@ + after@,
                }),
                None => false,
            },
    {
        if self.chatter == ChatterLevel::Minimal {
            return None;
        }
        let mut text = String::from_str(before);
        text.append(highlighted);
        text.append(after);
        Some(PlainLine { stream: Stream::Stdout, prefix: String::from_str("note:"), text })
    }

    /// Render the engine's captured chatter for diagnostics: the raw
    /// bytes between two banner lines on standard error.
    pub fn dump_error_logs(&self, output: &[u8]) -> (r: (String, Vec<u8>))
        ensures
            r.0@ == spec_dump_banner(),
            r.1@ == output@,
    {
        let banner = String::from_str(
            "===============================================================================",
        );
        (banner, vstd::slice::slice_to_vec(output))
    }
}

/// The banner that frames a diagnostic dump.
pub open spec fn spec_dump_banner() -> Seq<char> {
    "==============================================================================="@
}

/// A foreground color a terminal chunk may carry.
#[derive(Clone, Copy, Debug, Eq, PartialEq, Structural)]
pub enum FgColor {
    Unset,
    Green,
    Yellow,
    Red,
}

/// A terminal style: a foreground color and a boldness flag.
#[derive(Clone, Copy, Debug, Eq, PartialEq, Structural)]
pub struct ColorSpecModel {
    pub fg: FgColor,
    pub bold: bool,
}

/// One chunk of the colored backend's render plan: text on a stream,
/// either under a style or unstyled.
#[derive(Debug)]
pub enum TermChunk {
    Styled(Stream, ColorSpecModel, String),
    Unstyled(Stream, String),
}

/// The view of a colored render chunk.
#[verifier::ext_equal]
pub enum TermChunkModel {
    Styled(Stream, ColorSpecModel, Seq<char>),
    Unstyled(Stream, Seq<char>),
}

impl View for TermChunk {
    type V = TermChunkModel;

    open spec fn view(&self) -> TermChunkModel {
        match self {
            TermChunk::Styled(st, c, s) => TermChunkModel::Styled(*st, *c, s@),
            TermChunk::Unstyled(st, s) => TermChunkModel::Unstyled(*st, s@),
        }
    }
}

/// The status backend that writes styled terminal text.
#[derive(Clone, Copy, Debug)]
pub struct TermcolorStatusBackend {
    pub chatter: ChatterLevel,
    pub note_spec: ColorSpecModel,
    pub highlight_spec: ColorSpecModel,
    pub warning_spec: ColorSpecModel,
    pub error_spec: ColorSpecModel,
}

/// The style each message kind is rendered under.
pub open spec fn spec_color_for(b: TermcolorStatusBackend, kind: MessageKind) -> ColorSpecModel {
    match kind {
        MessageKind::Note => b.note_spec,
        MessageKind::Warning => b.warning_spec,
        MessageKind::Error => b.error_spec,
    }
}

/// The two chunks one message renders to: its prefix under the kind's
/// style, then the text unstyled on the same stream; suppressed entirely
/// for notes at the minimal chatter level.
pub open spec fn spec_generic_message(
    b: TermcolorStatusBackend,
    kind: MessageKind,
    prefix: Option<Seq<char>>,
    text: Seq<char>,
) -> Seq<TermChunkModel> {
    if notes_suppressed(b.chatter, kind) {
        Seq::<TermChunkModel>::empty()
    } else {
        seq![
            TermChunkModel::Styled(
                spec_stream_for(kind),
                spec_color_for(b, kind),
                match prefix {
                    Some(p) => p,
                    None => spec_kind_prefix(kind),
                },
            ),
            TermChunkModel::Unstyled(spec_stream_for(kind), " "@ + text + "\n"@),
        ]
    }
}

/// The chunks a cause chain renders to: the top message under its own
/// kind, every further cause as an error-kind "caused by:" message.
pub open spec fn spec_term_lines(
    b: TermcolorStatusBackend,
    kind: MessageKind,
    msgs: Seq<String>,
) -> Seq<TermChunkModel>
    decreases msgs.len(),
{
    if msgs.len() == 0 {
        Seq::<TermChunkModel>::empty()
    } else {
        spec_term_lines(b, kind, msgs.drop_last()) + (if msgs.len() - 1 == 0 {
            spec_generic_message(b, kind, None, msgs.last()@)
        } else {
            spec_generic_message(b, MessageKind::Error, Some("caused by:"@), msgs.last()@)
        })
    }
}

impl TermcolorStatusBackend {
    /// A colored backend at the given chatter level, with the fixed
    /// styles: bold green notes, bold plain highlights, bold yellow
    /// warnings, bold red errors.
    pub fn new(chatter: ChatterLevel) -> (r: TermcolorStatusBackend)
        ensures
            r.chatter == chatter,
            r.note_spec == (ColorSpecModel { fg: FgColor::Green, bold: true }),
            r.highlight_spec == (ColorSpecModel { fg: FgColor::Unset, bold: true }),
            r.warning_spec == (ColorSpecModel { fg: FgColor::Yellow, bold: true }),
            r.error_spec == (ColorSpecModel { fg: FgColor::Red, bold: true }),
    {
        TermcolorStatusBackend {
            chatter,
            note_spec: ColorSpecModel { fg: FgColor::Green, bold: true },
            highlight_spec: ColorSpecModel { fg: FgColor::Unset, bold: true },
            warning_spec: ColorSpecModel { fg: FgColor::Yellow, bold: true },
            error_spec: ColorSpecModel { fg: FgColor::Red, bold: true },
        }
    }

    /// One styled chunk of `text` for a message of this kind, or nothing
    /// when notes are suppressed.
    pub fn styled(&self, kind: MessageKind, text: String) -> (r: Option<TermChunk>)
        ensures
            notes_suppressed(self.chatter, kind) ==> r is None,
            !notes_suppressed(self.chatter, kind) ==> match r {
                Some(c) => c@ == TermChunkModel::Styled(
                    spec_stream_for(kind),
                    spec_color_for(*self, kind),
                    text@,
                ),
                None => false,
            },
    {
        if kind == MessageKind::Note && self.chatter == ChatterLevel::Minimal {
            return None;
        }
        let stream = match kind {
            MessageKind::Note => Stream::Stdout,
            _ => Stream::Stderr,
        };
        let spec = match kind {
            MessageKind::Note => self.note_spec,
            MessageKind::Warning => self.warning_spec,
            MessageKind::Error => self.error_spec,
        };
        Some(TermChunk::Styled(stream, spec, text))
    }

    /// One unstyled chunk of `text` on the kind's stream, or nothing when
    /// notes are suppressed.
    pub fn with_stream(&self, kind: MessageKind, text: String) -> (r: Option<TermChunk>)
        ensures
            notes_suppressed(self.chatter, kind) ==> r is None,
            !notes_suppressed(self.chatter, kind) ==> match r {
                Some(c) => c@ == TermChunkModel::Unstyled(spec_stream_for(kind), text@),
                None => false,
            },
    {
        if kind == MessageKind::Note && self.chatter == ChatterLevel::Minimal {
            return None;
        }
        let stream = match kind {
            MessageKind::Note => Stream::Stdout,
            _ => Stream::Stderr,
        };
        Some(TermChunk::Unstyled(stream, text))
    }

    /// Render one message: its prefix (the kind's own, or the one given)
    /// styled, then the text unstyled.
    pub fn generic_message(&self, kind: MessageKind, prefix: Option<&str>, text: &str) -> (r: Vec<
        TermChunk,
    >)
        ensures
            r@.map_values(|c: TermChunk| c@) == spec_generic_message(
                *self,
                kind,
                match prefix {
                    Some(p) => Some(p@),
                    None => None,
                },
                text@,
            ),
    {
        let mut r: Vec<TermChunk> = Vec::new();
        let prefix_text: String = match prefix {
            Some(p) => String::from_str(p),
            None => String::from_str(kind_prefix(kind)),
        };
        let mut body = String::from_str(" ");
        body.append(text);
        body.append("\n");
        match self.styled(kind, prefix_text) {
            Some(c) => {
                r.push(c);
            },
            None => {
                assert(r@.map_values(|c: TermChunk| c@) =~= Seq::<TermChunkModel>::empty());
                return r;
            },
        }
        match self.with_stream(kind, body) {
            Some(c) => {
                r.push(c);
            },
            None => {
            },
        }
        assert(r@.map_values(|c: TermChunk| c@) =~= spec_generic_message(
            *self,
            kind,
            match prefix {
                Some(p) => Some(p@),
                None => None::<Seq<char>>,
            },
            text@,
        ));
        r
    }

    /// Render a structured message with its cause chain; a minimal
    /// chatter level suppresses notes entirely.
    pub fn ereport(&self, kind: MessageKind, err: &ErrorChain) -> (r: Vec<TermChunk>)
        ensures
            notes_suppressed(self.chatter, kind) ==> r@.len() == 0,
            !notes_suppressed(self.chatter, kind) ==> r@.map_values(|c: TermChunk| c@)
                == spec_term_lines(*self, kind, err.messages@),
    {
        let mut r: Vec<TermChunk> = Vec::new();
        if kind == MessageKind::Note && self.chatter == ChatterLevel::Minimal {
            return r;
        }
        let n = err.messages.len();
        let mut i: usize = 0;
        while i < n
            invariant
                i <= n,
                n == err.messages@.len(),
                !notes_suppressed(self.chatter, kind),
                r@.map_values(|c: TermChunk| c@) == spec_term_lines(
                    *self,
                    kind,
                    err.messages@.take(i as int),
                ),
            decreases n - i,
        {
            let mut chunks = if i == 0 {
                self.generic_message(kind, None, err.messages[i].as_str())
            } else {
                self.generic_message(
                    MessageKind::Error,
                    Some("caused by:"),
                    err.messages[i].as_str(),
                )
            };
            r.append(&mut chunks);
            proof {
                let mv = err.messages@;
                assert(mv.take(i + 1).drop_last() =~= mv.take(i as int));
                assert(mv.take(i + 1).last() == mv[i as int]);
                assert(r@.map_values(|c: TermChunk| c@) =~= spec_term_lines(
                    *self,
                    kind,
                    mv.take(i + 1),
                ));
            }
            i += 1;
        }
        proof {
            assert(err.messages@.take(n as int) =~= err.messages@);
        }
        r
    }

    /// Render a terminal error report: the whole cause chain as
    /// error-kind chunks.
    pub fn report_error(&self, err: &ErrorChain) -> (r: Vec<TermChunk>)
        ensures
            r@.map_values(|c: TermChunk| c@) == spec_term_lines(
                *self,
                MessageKind::Error,
                err.messages@,
            ),
    {
        self.ereport(MessageKind::Error, err)
    }

    /// Render a note whose middle segment is highlighted, on standard
    /// output; suppressed at the minimal chatter level.
    pub fn note_highlighted(&self, before: &str, highlighted: &str, after: &str) -> (r: Vec<
        TermChunk,
    >)
        ensures
            self.chatter == ChatterLevel::Minimal ==> r@.len() == 0,
            self.chatter != ChatterLevel::Minimal ==> r@.map_values(|c: TermChunk| c@) == seq![
                TermChunkModel::Unstyled(Stream::Stdout, before@),
                TermChunkModel::Styled(Stream::Stdout, self.highlight_spec, highlighted@),
                TermChunkModel::Unstyled(Stream::Stdout, after@ + "\n"@),
            ],
    {
        let mut r: Vec<TermChunk> = Vec::new();
        if self.chatter == ChatterLevel::Minimal {
            return r;
        }
        r.push(TermChunk::Unstyled(Stream::Stdout, String::from_str(before)));
        r.push(
            TermChunk::Styled(Stream::Stdout, self.highlight_spec, String::from_str(highlighted)),
        );
        let mut tail = String::from_str(after);
        tail.append("\n");
        r.push(TermChunk::Unstyled(Stream::Stdout, tail));
        assert(r@.map_values(|c: TermChunk| c@) =~= seq![
            TermChunkModel::Unstyled(Stream::Stdout, before@),
            TermChunkModel::Styled(Stream::Stdout, self.highlight_spec, highlighted@),
            TermChunkModel::Unstyled(Stream::Stdout, after@ + "\n"@),
        ]);
        r
    }

    /// Render one line of error-styled text, as the dump banners need;
    /// error-kind output is never suppressed.
    pub fn error_styled(&self, text: &str) -> (r: TermChunk)
        ensures
            r@ == TermChunkModel::Styled(Stream::Stderr, self.error_spec, text@ + "\n"@),
    {
        let mut t = String::from_str(text);
        t.append("\n");
        TermChunk::Styled(Stream::Stderr, self.error_spec, t)
    }

    /// Render the engine's captured chatter for diagnostics: the raw
    /// bytes between two red banner lines on standard error.
    pub fn dump_error_logs(&self, output: &[u8]) -> (r: (TermChunk, Vec<u8>, TermChunk))
        ensures
            r.0@ == TermChunkModel::Styled(
                Stream::Stderr,
                self.error_spec,
                spec_dump_banner() + "\n"@,
            ),
            r.1@ == output@,
            r.2@ == r.0@,
    {
        let open = self.error_styled(
            "===============================================================================",
        );
        let close = self.error_styled(
            "===============================================================================",
        );
        (open, vstd::slice::slice_to_vec(output), close)
    }
}

} // verus!
