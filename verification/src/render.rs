//! Rendering one structured event into text.
//!
//! A `Format` configuration resolves into a `ResolvedFormat`: one of four
//! layouts plus the inclusion toggles, every option made concrete. The
//! renderer is a pure function from an event, its span context and an
//! already-rendered timestamp to the complete, newline-terminated record;
//! a record is built whole, in memory, so a destination never sees part
//! of one.

use vstd::prelude::*;
use vstd::string::StrSliceExecFns;
use vstd::string::StringExecFns;

use crate::text::spec_dec;
use crate::text::u64_to_dec;
use crate::Format;
use crate::Formatter;
use crate::Level;

verus! {

/// One key and value of an event or span.
#[derive(Debug, Clone, PartialEq, Eq)]
pub struct Field {
    pub name: String,
    pub value: String,
}

/// The mathematical image of a field.
#[verifier::ext_equal]
pub ghost struct FieldView {
    pub name: Seq<char>,
    pub value: Seq<char>,
}

impl View for Field {
    type V = FieldView;

    open spec fn view(&self) -> FieldView {
        FieldView { name: self.name@, value: self.value@ }
    }
}

/// One span of the ancestry an event was emitted under.
#[derive(Debug, Clone, PartialEq, Eq)]
pub struct Span {
    pub name: String,
    pub fields: Vec<Field>,
}

/// The mathematical image of a span.
#[verifier::ext_equal]
pub ghost struct SpanView {
    pub name: Seq<char>,
    pub fields: Seq<FieldView>,
}

impl View for Span {
    type V = SpanView;

    open spec fn view(&self) -> SpanView {
        SpanView { name: self.name@, fields: self.fields@.map_values(|f: Field| f@) }
    }
}

/// One structured event, as the emission façade hands it over: the
/// message, the severity, the emitting target, and optional call-site
/// metadata.
#[derive(Debug, Clone, PartialEq, Eq)]
pub struct Event {
    pub message: String,
    pub level: Level,
    pub target: String,
    pub thread_id: u64,
    pub thread_name: String,
    pub file: Option<String>,
    pub line: Option<u32>,
    pub fields: Vec<Field>,
}

/// The mathematical image of an event.
#[verifier::ext_equal]
pub ghost struct EventView {
    pub message: Seq<char>,
    pub level: Level,
    pub target: Seq<char>,
    pub thread_id: nat,
    pub thread_name: Seq<char>,
    pub file: Option<Seq<char>>,
    pub line: Option<nat>,
    pub fields: Seq<FieldView>,
}

impl View for Event {
    type V = EventView;

    open spec fn view(&self) -> EventView {
        EventView {
            message: self.message@,
            level: self.level,
            target: self.target@,
            thread_id: self.thread_id as nat,
            thread_name: self.thread_name@,
            file: match self.file {
                Some(f) => Some(f@),
                Option::None => Option::None,
            },
            line: match self.line {
                Some(l) => Some(l as nat),
                Option::None => Option::None,
            },
            fields: self.fields@.map_values(|f: Field| f@),
        }
    }
}

/// The resolved options of the structured layout.
#[derive(Debug, Clone, Copy, PartialEq, Eq, Structural)]
pub struct ResolvedJson {
    pub flatten_event: bool,
    pub current_span: bool,
    pub span_list: bool,
}

/// One of the four resolved layouts.
#[derive(Debug, Clone, Copy, PartialEq, Eq, Structural)]
pub enum Layout {
    Full,
    Compact,
    Pretty,
    Json(ResolvedJson),
}

/// A format configuration with every option made concrete.
#[derive(Debug, Clone, Copy, PartialEq, Eq, Structural)]
pub struct ResolvedFormat {
    pub layout: Layout,
    pub ansi: bool,
    pub target: bool,
    pub level: bool,
    pub thread_ids: bool,
    pub thread_names: bool,
    pub file: bool,
    pub line_number: bool,
}

/// An absent option takes its default.
pub open spec fn spec_or(o: Option<bool>, d: bool) -> bool {
    match o {
        Some(b) => b,
        Option::None => d,
    }
}

/// How a format configuration resolves: the target and the level are shown
/// unless switched off, thread and call-site metadata are hidden unless
/// switched on — except that the human-oriented layout shows the call site
/// by default — colorization defaults to on, and the structured layout
/// nests the event's fields and embeds the span context unless told
/// otherwise.
pub open spec fn spec_resolve_format(f: Format) -> ResolvedFormat {
    let fmt = match f.formatter {
        Some(x) => x,
        Option::None => Formatter::Full,
    };
    let pretty = fmt matches Formatter::Pretty;
    ResolvedFormat {
        layout: match fmt {
            Formatter::Full => Layout::Full,
            Formatter::Compact => Layout::Compact,
            Formatter::Pretty => Layout::Pretty,
            Formatter::Json(j) => {
                let jj = match j {
                    Some(x) => x,
                    Option::None => crate::Json {
                        flatten_event: Option::None,
                        current_span: Option::None,
                        span_list: Option::None,
                    },
                };
                Layout::Json(
                    ResolvedJson {
                        flatten_event: spec_or(jj.flatten_event, false),
                        current_span: spec_or(jj.current_span, true),
                        span_list: spec_or(jj.span_list, true),
                    },
                )
            },
        },
        ansi: spec_or(f.ansi, true),
        target: spec_or(f.target, true),
        level: spec_or(f.level, true),
        thread_ids: spec_or(f.thread_ids, false),
        thread_names: spec_or(f.thread_names, false),
        file: spec_or(f.file, pretty),
        line_number: spec_or(f.line_number, pretty),
    }
}

fn or_default(o: &Option<bool>, d: bool) -> (r: bool)
    ensures
        r == spec_or(*o, d),
{
    match o {
        Some(b) => *b,
        Option::None => d,
    }
}

impl Format {
    /// Resolve every layout option to its concrete value.
    pub fn resolve(&self) -> (r: ResolvedFormat)
        ensures
            r == spec_resolve_format(*self),
    {
        let pretty = matches!(&self.formatter, Some(Formatter::Pretty));
        let layout = match &self.formatter {
            Option::None => Layout::Full,
            Some(Formatter::Full) => Layout::Full,
            Some(Formatter::Compact) => Layout::Compact,
            Some(Formatter::Pretty) => Layout::Pretty,
            Some(Formatter::Json(j)) => {
                let (fe, cs, sl) = match j {
                    Some(x) => (
                        or_default(&x.flatten_event, false),
                        or_default(&x.current_span, true),
                        or_default(&x.span_list, true),
                    ),
                    Option::None => (false, true, true),
                };
                Layout::Json(ResolvedJson { flatten_event: fe, current_span: cs, span_list: sl })
            },
        };
        ResolvedFormat {
            layout,
            ansi: or_default(&self.ansi, true),
            target: or_default(&self.target, true),
            level: or_default(&self.level, true),
            thread_ids: or_default(&self.thread_ids, false),
            thread_names: or_default(&self.thread_names, false),
            file: or_default(&self.file, pretty),
            line_number: or_default(&self.line_number, pretty),
        }
    }
}

/// The upper-case text of a level.
pub open spec fn spec_level_text(l: Level) -> Seq<char> {
    match l {
        Level::Off => "OFF"@,
        Level::Error => "ERROR"@,
        Level::Warn => "WARN"@,
        Level::Info => "INFO"@,
        Level::Debug => "DEBUG"@,
        Level::Trace => "TRACE"@,
    }
}

/// The upper-case text of a level, padded to a fixed width so that the
/// columns of consecutive records line up.
pub open spec fn spec_level_padded(l: Level) -> Seq<char> {
    match l {
        Level::Off => "  OFF"@,
        Level::Error => "ERROR"@,
        Level::Warn => " WARN"@,
        Level::Info => " INFO"@,
        Level::Debug => "DEBUG"@,
        Level::Trace => "TRACE"@,
    }
}

/// The terminal color started before a level's text.
pub open spec fn spec_level_color(l: Level) -> Seq<char> {
    match l {
        Level::Off => "\u{1b}[90m"@,
        Level::Error => "\u{1b}[31m"@,
        Level::Warn => "\u{1b}[33m"@,
        Level::Info => "\u{1b}[32m"@,
        Level::Debug => "\u{1b}[34m"@,
        Level::Trace => "\u{1b}[35m"@,
    }
}

/// A level as shown in a record: padded in the spacious layout, and
/// wrapped in its color when colorization is on.
pub open spec fn spec_level_shown(l: Level, ansi: bool, padded: bool) -> Seq<char> {
    let text = if padded {
        spec_level_padded(l)
    } else {
        spec_level_text(l)
    };
    if ansi {
        spec_level_color(l) + text + "\u{1b}[0m"@
    } else {
        text
    }
}

fn level_text(l: Level) -> (r: &'static str)
    ensures
        r@ == spec_level_text(l),
{
    match l {
        Level::Off => "OFF",
        Level::Error => "ERROR",
        Level::Warn => "WARN",
        Level::Info => "INFO",
        Level::Debug => "DEBUG",
        Level::Trace => "TRACE",
    }
}

fn level_padded(l: Level) -> (r: &'static str)
    ensures
        r@ == spec_level_padded(l),
{
    match l {
        Level::Off => "  OFF",
        Level::Error => "ERROR",
        Level::Warn => " WARN",
        Level::Info => " INFO",
        Level::Debug => "DEBUG",
        Level::Trace => "TRACE",
    }
}

fn level_color(l: Level) -> (r: &'static str)
    ensures
        r@ == spec_level_color(l),
{
    match l {
        Level::Off => "\u{1b}[90m",
        Level::Error => "\u{1b}[31m",
        Level::Warn => "\u{1b}[33m",
        Level::Info => "\u{1b}[32m",
        Level::Debug => "\u{1b}[34m",
        Level::Trace => "\u{1b}[35m",
    }
}

fn level_shown(l: Level, ansi: bool, padded: bool) -> (r: String)
    ensures
        r@ == spec_level_shown(l, ansi, padded),
{
    let text = if padded {
        level_padded(l)
    } else {
        level_text(l)
    };
    if ansi {
        let mut s = String::from_str(level_color(l));
        s.append(text);
        s.append("\u{1b}[0m");
        s
    } else {
        text.to_owned()
    }
}

/// The inline rendering of an event's extra fields: each one as
/// ` name=value`, in order.
pub open spec fn spec_fields_inline(fs: Seq<FieldView>) -> Seq<char>
    decreases fs.len(),
{
    if fs.len() == 0 {
        Seq::empty()
    } else {
        " "@ + fs[0].name + "="@ + fs[0].value + spec_fields_inline(fs.drop_first())
    }
}

fn fields_inline(fs: &Vec<Field>) -> (out: String)
    ensures
        out@ == spec_fields_inline(fs@.map_values(|f: Field| f@)),
{
    let ghost fv = fs@.map_values(|f: Field| f@);
    let mut out = String::new();
    let mut i: usize = fs.len();
    proof {
        assert(fv.skip(i as int) =~= Seq::<FieldView>::empty());
    }
    while i > 0
        invariant
            i <= fs.len(),
            fv == fs@.map_values(|f: Field| f@),
            fv.len() == fs@.len(),
            out@ == spec_fields_inline(fv.skip(i as int)),
        decreases i,
    {
        i = i - 1;
        let mut piece = String::from_str(" ");
        piece.append(fs[i].name.as_str());
        piece.append("=");
        piece.append(fs[i].value.as_str());
        piece.append(out.as_str());
        out = piece;
        proof {
            assert(fv.skip(i as int).drop_first() =~= fv.skip(i + 1));
            assert(fv.skip(i as int)[0] == fv[i as int]);
            assert(out@ == spec_fields_inline(fv.skip(i as int)));
        }
    }
    proof {
        assert(fv.skip(0) =~= fv);
    }
    out
}

/// The single-line rendering shared by the spacious and the terse layout:
/// the timestamp, the level, the target, the message, the fields, and the
/// enabled metadata, separated by single spaces and closed by a newline.
/// The terse layout leaves the level unpadded and drops the colon after
/// the target.
pub open spec fn spec_line_meta(cfg: ResolvedFormat, ev: EventView) -> Seq<char> {
    (if cfg.thread_ids {
        " tid="@ + spec_dec(ev.thread_id)
    } else {
        Seq::empty()
    }) + (if cfg.thread_names {
        " on "@ + ev.thread_name
    } else {
        Seq::empty()
    }) + (if cfg.file && ev.file is Some {
        " at "@ + ev.file.unwrap()
    } else {
        Seq::empty()
    }) + (if cfg.line_number && ev.line is Some {
        ":"@ + spec_dec(ev.line.unwrap())
    } else {
        Seq::empty()
    })
}

pub open spec fn spec_render_line(
    cfg: ResolvedFormat,
    ts: Option<Seq<char>>,
    ev: EventView,
) -> Seq<char> {
    let compact = cfg.layout matches Layout::Compact;
    (match ts {
        Some(t) => t + " "@,
        Option::None => Seq::empty(),
    }) + (if cfg.level {
        spec_level_shown(ev.level, cfg.ansi, !compact) + " "@
    } else {
        Seq::empty()
    }) + (if cfg.target {
        ev.target + (if compact {
            " "@
        } else {
            ": "@
        })
    } else {
        Seq::empty()
    }) + ev.message + spec_fields_inline(ev.fields) + spec_line_meta(cfg, ev) + "\n"@
}

fn line_meta(cfg: &ResolvedFormat, ev: &Event) -> (out: String)
    ensures
        out@ == spec_line_meta(*cfg, ev@),
{
    let mut out = String::new();
    if cfg.thread_ids {
        out.append(" tid=");
        out.append(u64_to_dec(ev.thread_id).as_str());
    }
    proof {
        assert(out@ =~= (if cfg.thread_ids {
            " tid="@ + spec_dec(ev@.thread_id)
        } else {
            Seq::<char>::empty()
        }));
    }
    let ghost p1 = out@;
    if cfg.thread_names {
        out.append(" on ");
        out.append(ev.thread_name.as_str());
    }
    proof {
        assert(out@ =~= p1 + (if cfg.thread_names {
            " on "@ + ev@.thread_name
        } else {
            Seq::<char>::empty()
        }));
    }
    let ghost p2 = out@;
    if cfg.file {
        if let Some(f) = &ev.file {
            out.append(" at ");
            out.append(f.as_str());
        }
    }
    proof {
        assert(out@ =~= p2 + (if cfg.file && ev@.file is Some {
            " at "@ + ev@.file.unwrap()
        } else {
            Seq::<char>::empty()
        }));
    }
    let ghost p3 = out@;
    if cfg.line_number {
        if let Some(l) = ev.line {
            out.append(":");
            out.append(u64_to_dec(l as u64).as_str());
        }
    }
    proof {
        assert(out@ =~= p3 + (if cfg.line_number && ev@.line is Some {
            ":"@ + spec_dec(ev@.line.unwrap())
        } else {
            Seq::<char>::empty()
        }));
        assert(out@ == spec_line_meta(*cfg, ev@));
    }
    out
}

fn render_line(cfg: &ResolvedFormat, ts: &Option<String>, ev: &Event) -> (out: String)
    ensures
        out@ == spec_render_line(*cfg, crate::rolling::spec_opt_str(*ts), ev@),
{
    let ghost tsv = crate::rolling::spec_opt_str(*ts);
    let compact = matches!(cfg.layout, Layout::Compact);
    let mut out = String::new();
    if let Some(t) = ts {
        out.append(t.as_str());
        out.append(" ");
    }
    proof {
        assert(out@ =~= (match tsv {
            Some(t) => t + " "@,
            Option::None => Seq::<char>::empty(),
        }));
    }
    let ghost p1 = out@;
    if cfg.level {
        out.append(level_shown(ev.level, cfg.ansi, !compact).as_str());
        out.append(" ");
    }
    proof {
        assert(out@ =~= p1 + (if cfg.level {
            spec_level_shown(ev@.level, cfg.ansi, !compact) + " "@
        } else {
            Seq::<char>::empty()
        }));
    }
    let ghost p2 = out@;
    if cfg.target {
        out.append(ev.target.as_str());
        if compact {
            out.append(" ");
        } else {
            out.append(": ");
        }
    }
    proof {
        assert(out@ =~= p2 + (if cfg.target {
            ev@.target + (if compact {
                " "@
            } else {
                ": "@
            })
        } else {
            Seq::<char>::empty()
        }));
    }
    out.append(ev.message.as_str());
    out.append(fields_inline(&ev.fields).as_str());
    out.append(line_meta(cfg, ev).as_str());
    out.append("\n");
    proof {
        assert(out@ == spec_render_line(*cfg, tsv, ev@));
    }
    out
}

/// One indented line per field, for the human-oriented layout.
pub open spec fn spec_fields_lines(fs: Seq<FieldView>) -> Seq<char>
    decreases fs.len(),
{
    if fs.len() == 0 {
        Seq::empty()
    } else {
        "    "@ + fs[0].name + "="@ + fs[0].value + "\n"@ + spec_fields_lines(fs.drop_first())
    }
}

fn fields_lines(fs: &Vec<Field>) -> (out: String)
    ensures
        out@ == spec_fields_lines(fs@.map_values(|f: Field| f@)),
{
    let ghost fv = fs@.map_values(|f: Field| f@);
    let mut out = String::new();
    let mut i: usize = fs.len();
    proof {
        assert(fv.skip(i as int) =~= Seq::<FieldView>::empty());
    }
    while i > 0
        invariant
            i <= fs.len(),
            fv == fs@.map_values(|f: Field| f@),
            fv.len() == fs@.len(),
            out@ == spec_fields_lines(fv.skip(i as int)),
        decreases i,
    {
        i = i - 1;
        let mut piece = String::from_str("    ");
        piece.append(fs[i].name.as_str());
        piece.append("=");
        piece.append(fs[i].value.as_str());
        piece.append("\n");
        piece.append(out.as_str());
        out = piece;
        proof {
            assert(fv.skip(i as int).drop_first() =~= fv.skip(i + 1));
            assert(fv.skip(i as int)[0] == fv[i as int]);
            assert(out@ == spec_fields_lines(fv.skip(i as int)));
        }
    }
    proof {
        assert(fv.skip(0) =~= fv);
    }
    out
}

/// The indented closing lines of the human-oriented rendering: the call
/// site and the thread, as enabled.
pub open spec fn spec_pretty_tail(cfg: ResolvedFormat, ev: EventView) -> Seq<char> {
    (if cfg.file && ev.file is Some {
        "    at "@ + ev.file.unwrap() + (if cfg.line_number && ev.line is Some {
            ":"@ + spec_dec(ev.line.unwrap())
        } else {
            Seq::empty()
        }) + "\n"@
    } else {
        Seq::empty()
    }) + (if cfg.thread_ids || cfg.thread_names {
        "    on"@ + (if cfg.thread_names {
            " "@ + ev.thread_name
        } else {
            Seq::empty()
        }) + (if cfg.thread_ids {
            " tid="@ + spec_dec(ev.thread_id)
        } else {
            Seq::empty()
        }) + "\n"@
    } else {
        Seq::empty()
    })
}

fn pretty_tail(cfg: &ResolvedFormat, ev: &Event) -> (out: String)
    ensures
        out@ == spec_pretty_tail(*cfg, ev@),
{
    let mut out = String::new();
    if cfg.file {
        if let Some(f) = &ev.file {
            out.append("    at ");
            out.append(f.as_str());
            if cfg.line_number {
                if let Some(l) = ev.line {
                    out.append(":");
                    out.append(u64_to_dec(l as u64).as_str());
                }
            }
            out.append("\n");
        }
    }
    proof {
        assert(out@ =~= (if cfg.file && ev@.file is Some {
            "    at "@ + ev@.file.unwrap() + (if cfg.line_number && ev@.line is Some {
                ":"@ + spec_dec(ev@.line.unwrap())
            } else {
                Seq::<char>::empty()
            }) + "\n"@
        } else {
            Seq::<char>::empty()
        }));
    }
    let ghost p1 = out@;
    if cfg.thread_ids || cfg.thread_names {
        out.append("    on");
        if cfg.thread_names {
            out.append(" ");
            out.append(ev.thread_name.as_str());
        }
        if cfg.thread_ids {
            out.append(" tid=");
            out.append(u64_to_dec(ev.thread_id).as_str());
        }
        out.append("\n");
    }
    proof {
        assert(out@ =~= p1 + (if cfg.thread_ids || cfg.thread_names {
            "    on"@ + (if cfg.thread_names {
                " "@ + ev@.thread_name
            } else {
                Seq::<char>::empty()
            }) + (if cfg.thread_ids {
                " tid="@ + spec_dec(ev@.thread_id)
            } else {
                Seq::<char>::empty()
            }) + "\n"@
        } else {
            Seq::<char>::empty()
        }));
        assert(out@ == spec_pretty_tail(*cfg, ev@));
    }
    out
}

/// The multi-line, human-oriented rendering: a head line with the
/// timestamp, the level and the message; then one indented line for the
/// target, each field, the call site and the thread, as enabled.
pub open spec fn spec_render_pretty(
    cfg: ResolvedFormat,
    ts: Option<Seq<char>>,
    ev: EventView,
) -> Seq<char> {
    (match ts {
        Some(t) => t + "  "@,
        Option::None => Seq::empty(),
    }) + (if cfg.level {
        spec_level_shown(ev.level, cfg.ansi, false) + " "@
    } else {
        Seq::empty()
    }) + ev.message + "\n"@ + (if cfg.target {
        "    target: "@ + ev.target + "\n"@
    } else {
        Seq::empty()
    }) + spec_fields_lines(ev.fields) + spec_pretty_tail(cfg, ev)
}

fn render_pretty(cfg: &ResolvedFormat, ts: &Option<String>, ev: &Event) -> (out: String)
    ensures
        out@ == spec_render_pretty(*cfg, crate::rolling::spec_opt_str(*ts), ev@),
{
    let ghost tsv = crate::rolling::spec_opt_str(*ts);
    let mut out = String::new();
    if let Some(t) = ts {
        out.append(t.as_str());
        out.append("  ");
    }
    proof {
        assert(out@ =~= (match tsv {
            Some(t) => t + "  "@,
            Option::None => Seq::<char>::empty(),
        }));
    }
    let ghost p1 = out@;
    if cfg.level {
        out.append(level_shown(ev.level, cfg.ansi, false).as_str());
        out.append(" ");
    }
    proof {
        assert(out@ =~= p1 + (if cfg.level {
            spec_level_shown(ev@.level, cfg.ansi, false) + " "@
        } else {
            Seq::<char>::empty()
        }));
    }
    let ghost p2 = out@;
    out.append(ev.message.as_str());
    out.append("\n");
    let ghost p3 = out@;
    if cfg.target {
        out.append("    target: ");
        out.append(ev.target.as_str());
        out.append("\n");
    }
    proof {
        assert(out@ =~= p3 + (if cfg.target {
            "    target: "@ + ev@.target + "\n"@
        } else {
            Seq::<char>::empty()
        }));
    }
    out.append(fields_lines(&ev.fields).as_str());
    out.append(pretty_tail(cfg, ev).as_str());
    proof {
        assert(out@ == spec_render_pretty(*cfg, tsv, ev@));
    }
    out
}


/// One hexadecimal digit.
pub open spec fn spec_hex_digit(d: nat) -> Seq<char> {
    if d == 0 {
        "0"@
    } else if d == 1 {
        "1"@
    } else if d == 2 {
        "2"@
    } else if d == 3 {
        "3"@
    } else if d == 4 {
        "4"@
    } else if d == 5 {
        "5"@
    } else if d == 6 {
        "6"@
    } else if d == 7 {
        "7"@
    } else if d == 8 {
        "8"@
    } else if d == 9 {
        "9"@
    } else if d == 10 {
        "a"@
    } else if d == 11 {
        "b"@
    } else if d == 12 {
        "c"@
    } else if d == 13 {
        "d"@
    } else if d == 14 {
        "e"@
    } else {
        "f"@
    }
}

fn hex_digit(d: u32) -> (r: &'static str)
    requires
        d < 16,
    ensures
        r@ == spec_hex_digit(d as nat),
{
    if d == 0 {
        "0"
    } else if d == 1 {
        "1"
    } else if d == 2 {
        "2"
    } else if d == 3 {
        "3"
    } else if d == 4 {
        "4"
    } else if d == 5 {
        "5"
    } else if d == 6 {
        "6"
    } else if d == 7 {
        "7"
    } else if d == 8 {
        "8"
    } else if d == 9 {
        "9"
    } else if d == 10 {
        "a"
    } else if d == 11 {
        "b"
    } else if d == 12 {
        "c"
    } else if d == 13 {
        "d"
    } else if d == 14 {
        "e"
    } else {
        "f"
    }
}

/// How one character appears inside a quoted text value: the quote, the
/// backslash and the control characters are escaped, everything else
/// stands for itself.
pub open spec fn spec_escaped_char(c: char) -> Seq<char> {
    if c == '"' {
        "\\\""@
    } else if c == '\\' {
        "\\\\"@
    } else if c == '\n' {
        "\\n"@
    } else if c == '\r' {
        "\\r"@
    } else if c == '\t' {
        "\\t"@
    } else if (c as u32) < 32 {
        "\\u00"@ + spec_hex_digit((c as u32 / 16) as nat) + spec_hex_digit((c as u32 % 16) as nat)
    } else {
        seq![c]
    }
}

/// A text with every character escaped.
pub open spec fn spec_json_escape(s: Seq<char>) -> Seq<char>
    decreases s.len(),
{
    if s.len() == 0 {
        Seq::empty()
    } else {
        spec_escaped_char(s[0]) + spec_json_escape(s.drop_first())
    }
}

/// A quoted, escaped text value.
pub open spec fn spec_json_quoted(s: Seq<char>) -> Seq<char> {
    "\""@ + spec_json_escape(s) + "\""@
}

fn json_escape(s: &str) -> (out: String)
    ensures
        out@ == spec_json_escape(s@),
{
    let n = s.unicode_len();
    let mut out = String::new();
    let mut i: usize = n;
    proof {
        assert(s@.skip(i as int) =~= Seq::<char>::empty());
    }
    while i > 0
        invariant
            i <= n,
            n == s@.len(),
            out@ == spec_json_escape(s@.skip(i as int)),
        decreases i,
    {
        i = i - 1;
        let c = s.get_char(i);
        let mut piece: String;
        if c == '"' {
            piece = String::from_str("\\\"");
        } else if c == '\\' {
            piece = String::from_str("\\\\");
        } else if c == '\n' {
            piece = String::from_str("\\n");
        } else if c == '\r' {
            piece = String::from_str("\\r");
        } else if c == '\t' {
            piece = String::from_str("\\t");
        } else if (c as u32) < 32 {
            let v = c as u32;
            piece = String::from_str("\\u00");
            piece.append(hex_digit(v / 16));
            piece.append(hex_digit(v % 16));
        } else {
            piece = s.substring_char(i, i + 1).to_owned();
            proof {
                assert(piece@ =~= seq![s@[i as int]]);
            }
        }
        proof {
            assert(piece@ =~= spec_escaped_char(s@[i as int]));
        }
        piece.append(out.as_str());
        out = piece;
        proof {
            assert(s@.skip(i as int).drop_first() =~= s@.skip(i + 1));
            assert(s@.skip(i as int)[0] == s@[i as int]);
            assert(out@ == spec_json_escape(s@.skip(i as int)));
        }
    }
    proof {
        assert(s@.skip(0) =~= s@);
    }
    out
}

fn json_quote(s: &str) -> (out: String)
    ensures
        out@ == spec_json_quoted(s@),
{
    let mut out = String::from_str("\"");
    out.append(json_escape(s).as_str());
    out.append("\"");
    out
}

/// One rendered object entry: a key and its already-rendered value text.
#[derive(Debug, Clone, PartialEq, Eq)]
pub struct Entry {
    pub key: String,
    pub value: String,
}

/// The mathematical image of an entry.
#[verifier::ext_equal]
pub ghost struct EntryView {
    pub key: Seq<char>,
    pub value: Seq<char>,
}

impl View for Entry {
    type V = EntryView;

    open spec fn view(&self) -> EntryView {
        EntryView { key: self.key@, value: self.value@ }
    }
}

/// One `"key":value` member; the value text is already well-formed.
pub open spec fn spec_json_member(e: EntryView) -> Seq<char> {
    spec_json_quoted(e.key) + ":"@ + e.value
}

/// The members of an object, separated by commas.
pub open spec fn spec_json_members(es: Seq<EntryView>) -> Seq<char>
    decreases es.len(),
{
    if es.len() == 0 {
        Seq::empty()
    } else {
        spec_json_member(es[0]) + (if es.len() == 1 {
            Seq::empty()
        } else {
            ","@
        }) + spec_json_members(es.drop_first())
    }
}

/// A whole object.
pub open spec fn spec_json_obj(es: Seq<EntryView>) -> Seq<char> {
    "{"@ + spec_json_members(es) + "}"@
}

/// The view of a list of rendered entries.
pub open spec fn spec_entries_view(es: Seq<Entry>) -> Seq<EntryView> {
    es.map_values(|e: Entry| e@)
}

fn json_obj(es: &Vec<Entry>) -> (out: String)
    ensures
        out@ == spec_json_obj(spec_entries_view(es@)),
{
    let ghost esv = spec_entries_view(es@);
    let mut body = String::new();
    let mut i: usize = es.len();
    proof {
        assert(esv.skip(i as int) =~= Seq::<EntryView>::empty());
    }
    while i > 0
        invariant
            i <= es.len(),
            esv == spec_entries_view(es@),
            esv.len() == es@.len(),
            body@ == spec_json_members(esv.skip(i as int)),
        decreases i,
    {
        i = i - 1;
        let mut piece = json_quote(es[i].key.as_str());
        piece.append(":");
        piece.append(es[i].value.as_str());
        if i + 1 < es.len() {
            piece.append(",");
        }
        piece.append(body.as_str());
        body = piece;
        proof {
            assert(esv.skip(i as int).drop_first() =~= esv.skip(i + 1));
            assert(esv.skip(i as int)[0] == esv[i as int]);
            assert(esv[i as int] == es@[i as int]@);
            assert(body@ == spec_json_members(esv.skip(i as int)));
        }
    }
    proof {
        assert(esv.skip(0) =~= esv);
    }
    let mut out = String::from_str("{");
    out.append(body.as_str());
    out.append("}");
    out
}

/// The items of an array, separated by commas.
pub open spec fn spec_json_items(items: Seq<Seq<char>>) -> Seq<char>
    decreases items.len(),
{
    if items.len() == 0 {
        Seq::empty()
    } else {
        items[0] + (if items.len() == 1 {
            Seq::empty()
        } else {
            ","@
        }) + spec_json_items(items.drop_first())
    }
}

/// A whole array; the item texts are already well-formed.
pub open spec fn spec_json_array(items: Seq<Seq<char>>) -> Seq<char> {
    "["@ + spec_json_items(items) + "]"@
}

fn json_array(items: &Vec<String>) -> (out: String)
    ensures
        out@ == spec_json_array(items@.map_values(|s: String| s@)),
{
    let ghost iv = items@.map_values(|s: String| s@);
    let mut body = String::new();
    let mut i: usize = items.len();
    proof {
        assert(iv.skip(i as int) =~= Seq::<Seq<char>>::empty());
    }
    while i > 0
        invariant
            i <= items.len(),
            iv == items@.map_values(|s: String| s@),
            iv.len() == items@.len(),
            body@ == spec_json_items(iv.skip(i as int)),
        decreases i,
    {
        i = i - 1;
        let mut piece = items[i].clone();
        if i + 1 < items.len() {
            piece.append(",");
        }
        piece.append(body.as_str());
        body = piece;
        proof {
            assert(iv.skip(i as int).drop_first() =~= iv.skip(i + 1));
            assert(iv.skip(i as int)[0] == iv[i as int]);
            assert(body@ == spec_json_items(iv.skip(i as int)));
        }
    }
    proof {
        assert(iv.skip(0) =~= iv);
    }
    let mut out = String::from_str("[");
    out.append(body.as_str());
    out.append("]");
    out
}

/// The entries a list of fields contributes: each name keyed to its quoted
/// value.
pub open spec fn spec_fields_entries(fs: Seq<FieldView>) -> Seq<EntryView> {
    fs.map_values(|f: FieldView| EntryView { key: f.name, value: spec_json_quoted(f.value) })
}

/// The entries of the event itself: the message first, then its fields.
pub open spec fn spec_event_entries(ev: EventView) -> Seq<EntryView> {
    seq![EntryView { key: "message"@, value: spec_json_quoted(ev.message) }] + spec_fields_entries(
        ev.fields,
    )
}

fn event_entries(ev: &Event) -> (out: Vec<Entry>)
    ensures
        spec_entries_view(out@) == spec_event_entries(ev@),
{
    let ghost fv = ev.fields@.map_values(|f: Field| f@);
    let mut out: Vec<Entry> = Vec::new();
    out.push(Entry { key: String::from_str("message"), value: json_quote(ev.message.as_str()) });
    let mut i: usize = 0;
    proof {
        assert(spec_entries_view(out@) =~~= seq![EntryView {
            key: "message"@,
            value: spec_json_quoted(ev@.message),
        }] + spec_fields_entries(fv.take(0)));
    }
    while i < ev.fields.len()
        invariant
            i <= ev.fields.len(),
            fv == ev.fields@.map_values(|f: Field| f@),
            fv.len() == ev.fields@.len(),
            spec_entries_view(out@) == seq![EntryView {
                key: "message"@,
                value: spec_json_quoted(ev@.message),
            }] + spec_fields_entries(fv.take(i as int)),
        decreases ev.fields.len() - i,
    {
        let name = ev.fields[i].name.clone();
        let value = json_quote(ev.fields[i].value.as_str());
        out.push(Entry { key: name, value });
        i = i + 1;
        proof {
            broadcast use vstd::seq::Seq::group_seq_extra;

            assert(fv.take(i as int) =~= fv.take(i - 1).push(fv[i - 1]));
            assert(spec_entries_view(out@) =~~= seq![EntryView {
                key: "message"@,
                value: spec_json_quoted(ev@.message),
            }] + spec_fields_entries(fv.take(i as int)));
        }
    }
    proof {
        assert(fv.take(fv.len() as int) =~= fv);
        assert(spec_entries_view(out@) =~~= spec_event_entries(ev@));
    }
    out
}

/// The object of one span: its fields, then its name.
pub open spec fn spec_span_obj(s: SpanView) -> Seq<char> {
    spec_json_obj(
        spec_fields_entries(s.fields) + seq![EntryView {
            key: "name"@,
            value: spec_json_quoted(s.name),
        }],
    )
}

fn span_obj(s: &Span) -> (out: String)
    ensures
        out@ == spec_span_obj(s@),
{
    let ghost fv = s.fields@.map_values(|f: Field| f@);
    let mut es: Vec<Entry> = Vec::new();
    let mut i: usize = 0;
    proof {
        assert(spec_entries_view(es@) =~~= spec_fields_entries(fv.take(0)));
    }
    while i < s.fields.len()
        invariant
            i <= s.fields.len(),
            fv == s.fields@.map_values(|f: Field| f@),
            fv.len() == s.fields@.len(),
            spec_entries_view(es@) == spec_fields_entries(fv.take(i as int)),
        decreases s.fields.len() - i,
    {
        let name = s.fields[i].name.clone();
        let value = json_quote(s.fields[i].value.as_str());
        es.push(Entry { key: name, value });
        i = i + 1;
        proof {
            broadcast use vstd::seq::Seq::group_seq_extra;

            assert(fv.take(i as int) =~= fv.take(i - 1).push(fv[i - 1]));
            assert(spec_entries_view(es@) =~~= spec_fields_entries(fv.take(i as int)));
        }
    }
    es.push(Entry { key: String::from_str("name"), value: json_quote(s.name.as_str()) });
    proof {
        broadcast use vstd::seq::Seq::group_seq_extra;

        assert(fv.take(fv.len() as int) =~= fv);
        assert(spec_entries_view(es@) =~~= spec_fields_entries(fv) + seq![EntryView {
            key: "name"@,
            value: spec_json_quoted(s@.name),
        }]);
    }
    json_obj(&es)
}

/// The array of the whole span ancestry, root first.
pub open spec fn spec_spans_array(spans: Seq<SpanView>) -> Seq<char> {
    spec_json_array(spans.map_values(|s: SpanView| spec_span_obj(s)))
}

fn spans_array(spans: &Vec<Span>) -> (out: String)
    ensures
        out@ == spec_spans_array(spans@.map_values(|s: Span| s@)),
{
    let ghost sv = spans@.map_values(|s: Span| s@);
    let mut items: Vec<String> = Vec::new();
    let mut i: usize = 0;
    proof {
        assert(items@.map_values(|s: String| s@) =~~= sv.take(0).map_values(
            |s: SpanView| spec_span_obj(s),
        ));
    }
    while i < spans.len()
        invariant
            i <= spans.len(),
            sv == spans@.map_values(|s: Span| s@),
            sv.len() == spans@.len(),
            items@.map_values(|s: String| s@) == sv.take(i as int).map_values(
                |s: SpanView| spec_span_obj(s),
            ),
        decreases spans.len() - i,
    {
        items.push(span_obj(&spans[i]));
        i = i + 1;
        proof {
            broadcast use vstd::seq::Seq::group_seq_extra;

            assert(sv.take(i as int) =~= sv.take(i - 1).push(sv[i - 1]));
            assert(items@.map_values(|s: String| s@) =~~= sv.take(i as int).map_values(
                |s: SpanView| spec_span_obj(s),
            ));
        }
    }
    proof {
        assert(sv.take(sv.len() as int) =~= sv);
    }
    json_array(&items)
}

/// The top-level entries of one structured record, in order: the
/// timestamp and the level; then the event's own entries, at the top
/// level when flattening, under one `fields` key otherwise; then the
/// target, the span context and the enabled metadata.
pub open spec fn spec_record_head(
    cfg: ResolvedFormat,
    j: ResolvedJson,
    ts: Option<Seq<char>>,
    ev: EventView,
) -> Seq<EntryView> {
    (match ts {
        Some(t) => seq![EntryView { key: "timestamp"@, value: spec_json_quoted(t) }],
        Option::None => Seq::empty(),
    }) + (if cfg.level {
        seq![EntryView { key: "level"@, value: spec_json_quoted(spec_level_text(ev.level)) }]
    } else {
        Seq::empty()
    }) + (if j.flatten_event {
        spec_event_entries(ev)
    } else {
        seq![EntryView { key: "fields"@, value: spec_json_obj(spec_event_entries(ev)) }]
    }) + (if cfg.target {
        seq![EntryView { key: "target"@, value: spec_json_quoted(ev.target) }]
    } else {
        Seq::empty()
    })
}

pub open spec fn spec_record_tail(
    cfg: ResolvedFormat,
    j: ResolvedJson,
    ev: EventView,
    spans: Seq<SpanView>,
) -> Seq<EntryView> {
    (if j.current_span && spans.len() > 0 {
        seq![EntryView { key: "span"@, value: spec_span_obj(spans.last()) }]
    } else {
        Seq::empty()
    }) + (if j.span_list {
        seq![EntryView { key: "spans"@, value: spec_spans_array(spans) }]
    } else {
        Seq::empty()
    }) + (if cfg.thread_names {
        seq![EntryView { key: "threadName"@, value: spec_json_quoted(ev.thread_name) }]
    } else {
        Seq::empty()
    }) + (if cfg.thread_ids {
        seq![EntryView { key: "threadId"@, value: spec_dec(ev.thread_id) }]
    } else {
        Seq::empty()
    }) + (if cfg.file && ev.file is Some {
        seq![EntryView { key: "filename"@, value: spec_json_quoted(ev.file.unwrap()) }]
    } else {
        Seq::empty()
    }) + (if cfg.line_number && ev.line is Some {
        seq![EntryView { key: "line_number"@, value: spec_dec(ev.line.unwrap()) }]
    } else {
        Seq::empty()
    })
}

/// The top-level entries of one structured record, in order: the
/// timestamp and the level; then the event's own entries, at the top
/// level when flattening, under one `fields` key otherwise; then the
/// target, the span context and the enabled metadata.
pub open spec fn spec_record_entries(
    cfg: ResolvedFormat,
    j: ResolvedJson,
    ts: Option<Seq<char>>,
    ev: EventView,
    spans: Seq<SpanView>,
) -> Seq<EntryView> {
    spec_record_head(cfg, j, ts, ev) + spec_record_tail(cfg, j, ev, spans)
}

/// The structured rendering: one self-delimiting object per record,
/// closed by a newline. Colorization does not apply here.
pub open spec fn spec_render_json(
    cfg: ResolvedFormat,
    j: ResolvedJson,
    ts: Option<Seq<char>>,
    ev: EventView,
    spans: Seq<SpanView>,
) -> Seq<char> {
    spec_json_obj(spec_record_entries(cfg, j, ts, ev, spans)) + "\n"@
}

#[verifier::rlimit(100)]
fn record_head(
    cfg: &ResolvedFormat,
    j: ResolvedJson,
    ts: &Option<String>,
    ev: &Event,
) -> (out: Vec<Entry>)
    ensures
        spec_entries_view(out@) == spec_record_head(
            *cfg,
            j,
            crate::rolling::spec_opt_str(*ts),
            ev@,
        ),
{
    let ghost tsv = crate::rolling::spec_opt_str(*ts);
    let mut out: Vec<Entry> = Vec::new();
    if let Some(t) = ts {
        out.push(Entry { key: String::from_str("timestamp"), value: json_quote(t.as_str()) });
    }
    proof {
        assert(spec_entries_view(out@) =~~= (match tsv {
            Some(t) => seq![EntryView { key: "timestamp"@, value: spec_json_quoted(t) }],
            Option::None => Seq::<EntryView>::empty(),
        }));
    }
    let ghost p1 = spec_entries_view(out@);
    if cfg.level {
        out.push(Entry { key: String::from_str("level"), value: json_quote(level_text(ev.level)) });
    }
    proof {
        assert(spec_entries_view(out@) =~~= p1 + (if cfg.level {
            seq![EntryView { key: "level"@, value: spec_json_quoted(spec_level_text(ev@.level)) }]
        } else {
            Seq::<EntryView>::empty()
        }));
    }
    let ghost p2 = spec_entries_view(out@);
    if j.flatten_event {
        let mut es = event_entries(ev);
        let ghost esv = spec_entries_view(es@);
        out.append(&mut es);
        proof {
            assert(spec_entries_view(out@) =~~= p2 + esv);
        }
    } else {
        out.push(Entry {
            key: String::from_str("fields"),
            value: json_obj(&event_entries(ev)),
        });
        proof {
            assert(spec_entries_view(out@) =~~= p2 + seq![EntryView {
                key: "fields"@,
                value: spec_json_obj(spec_event_entries(ev@)),
            }]);
        }
    }
    let ghost p3 = spec_entries_view(out@);
    if cfg.target {
        out.push(Entry { key: String::from_str("target"), value: json_quote(ev.target.as_str()) });
    }
    proof {
        assert(spec_entries_view(out@) =~~= p3 + (if cfg.target {
            seq![EntryView { key: "target"@, value: spec_json_quoted(ev@.target) }]
        } else {
            Seq::<EntryView>::empty()
        }));
        assert(spec_entries_view(out@) == spec_record_head(*cfg, j, tsv, ev@));
    }
    out
}

#[verifier::rlimit(100)]
fn record_tail(cfg: &ResolvedFormat, j: ResolvedJson, ev: &Event, spans: &Vec<Span>) -> (out: Vec<
    Entry,
>)
    ensures
        spec_entries_view(out@) == spec_record_tail(*cfg, j, ev@, spans@.map_values(|s: Span| s@)),
{
    let ghost sv = spans@.map_values(|s: Span| s@);
    let mut out: Vec<Entry> = Vec::new();
    if j.current_span && spans.len() > 0 {
        out.push(Entry {
            key: String::from_str("span"),
            value: span_obj(&spans[spans.len() - 1]),
        });
    }
    proof {
        assert(spec_entries_view(out@) =~~= (if j.current_span && sv.len() > 0 {
            seq![EntryView { key: "span"@, value: spec_span_obj(sv.last()) }]
        } else {
            Seq::<EntryView>::empty()
        }));
    }
    let ghost p5 = spec_entries_view(out@);
    if j.span_list {
        out.push(Entry { key: String::from_str("spans"), value: spans_array(spans) });
    }
    proof {
        assert(spec_entries_view(out@) =~~= p5 + (if j.span_list {
            seq![EntryView { key: "spans"@, value: spec_spans_array(sv) }]
        } else {
            Seq::<EntryView>::empty()
        }));
    }
    let ghost p6 = spec_entries_view(out@);
    if cfg.thread_names {
        out.push(Entry {
            key: String::from_str("threadName"),
            value: json_quote(ev.thread_name.as_str()),
        });
    }
    proof {
        assert(spec_entries_view(out@) =~~= p6 + (if cfg.thread_names {
            seq![EntryView { key: "threadName"@, value: spec_json_quoted(ev@.thread_name) }]
        } else {
            Seq::<EntryView>::empty()
        }));
    }
    let ghost p7 = spec_entries_view(out@);
    if cfg.thread_ids {
        out.push(Entry { key: String::from_str("threadId"), value: u64_to_dec(ev.thread_id) });
    }
    proof {
        assert(spec_entries_view(out@) =~~= p7 + (if cfg.thread_ids {
            seq![EntryView { key: "threadId"@, value: spec_dec(ev@.thread_id) }]
        } else {
            Seq::<EntryView>::empty()
        }));
    }
    let ghost p8 = spec_entries_view(out@);
    if cfg.file {
        if let Some(f) = &ev.file {
            out.push(Entry { key: String::from_str("filename"), value: json_quote(f.as_str()) });
        }
    }
    proof {
        assert(spec_entries_view(out@) =~~= p8 + (if cfg.file && ev@.file is Some {
            seq![EntryView { key: "filename"@, value: spec_json_quoted(ev@.file.unwrap()) }]
        } else {
            Seq::<EntryView>::empty()
        }));
    }
    let ghost p9 = spec_entries_view(out@);
    if cfg.line_number {
        if let Some(l) = ev.line {
            out.push(Entry { key: String::from_str("line_number"), value: u64_to_dec(l as u64) });
        }
    }
    proof {
        assert(spec_entries_view(out@) =~~= p9 + (if cfg.line_number && ev@.line is Some {
            seq![EntryView { key: "line_number"@, value: spec_dec(ev@.line.unwrap()) }]
        } else {
            Seq::<EntryView>::empty()
        }));
        assert(spec_entries_view(out@) == spec_record_tail(*cfg, j, ev@, sv));
    }
    out
}

fn record_entries(
    cfg: &ResolvedFormat,
    j: ResolvedJson,
    ts: &Option<String>,
    ev: &Event,
    spans: &Vec<Span>,
) -> (out: Vec<Entry>)
    ensures
        spec_entries_view(out@) == spec_record_entries(
            *cfg,
            j,
            crate::rolling::spec_opt_str(*ts),
            ev@,
            spans@.map_values(|s: Span| s@),
        ),
{
    let mut out = record_head(cfg, j, ts, ev);
    let ghost headv = spec_entries_view(out@);
    let mut tail = record_tail(cfg, j, ev, spans);
    let ghost tailv = spec_entries_view(tail@);
    out.append(&mut tail);
    proof {
        assert(spec_entries_view(out@) =~~= headv + tailv);
    }
    out
}

/// What one event renders to, under every layout: the complete,
/// newline-terminated record.
pub open spec fn spec_render(
    cfg: ResolvedFormat,
    ts: Option<Seq<char>>,
    ev: EventView,
    spans: Seq<SpanView>,
) -> Seq<char> {
    match cfg.layout {
        Layout::Full => spec_render_line(cfg, ts, ev),
        Layout::Compact => spec_render_line(cfg, ts, ev),
        Layout::Pretty => spec_render_pretty(cfg, ts, ev),
        Layout::Json(j) => spec_render_json(cfg, j, ts, ev, spans),
    }
}

/// Render one event into its complete textual record: a single line, a
/// multi-line block, or one structured object, always closed by a newline
/// and built whole before anything is written.
pub fn render(cfg: &ResolvedFormat, ts: &Option<String>, ev: &Event, spans: &Vec<Span>) -> (out:
    String)
    ensures
        out@ == spec_render(
            *cfg,
            crate::rolling::spec_opt_str(*ts),
            ev@,
            spans@.map_values(|s: Span| s@),
        ),
{
    match cfg.layout {
        Layout::Full => render_line(cfg, ts, ev),
        Layout::Compact => render_line(cfg, ts, ev),
        Layout::Pretty => render_pretty(cfg, ts, ev),
        Layout::Json(j) => {
            let es = record_entries(cfg, j, ts, ev, spans);
            let mut out = json_obj(&es);
            out.append("\n");
            out
        },
    }
}


/// A text occurs contiguously somewhere inside another.
pub open spec fn spec_contains(h: Seq<char>, n: Seq<char>) -> bool {
    exists|i: int| 0 <= i <= h.len() - n.len() && #[trigger] h.subrange(i, i + n.len()) == n
}

/// With the target toggle off, no layout's rendering depends on the
/// event's target: the target string can be replaced by any other without
/// changing a single character of the output.
pub proof fn lemma_target_off_ignored(
    cfg: ResolvedFormat,
    ts: Option<Seq<char>>,
    ev: EventView,
    spans: Seq<SpanView>,
    other: Seq<char>,
)
    requires
        !cfg.target,
    ensures
        spec_render(cfg, ts, ev, spans) == spec_render(
            cfg,
            ts,
            EventView { target: other, ..ev },
            spans,
        ),
{
}

/// With the thread toggles off, no layout's rendering depends on the
/// thread id or the thread name.
pub proof fn lemma_threads_off_ignored(
    cfg: ResolvedFormat,
    ts: Option<Seq<char>>,
    ev: EventView,
    spans: Seq<SpanView>,
    other_id: nat,
    other_name: Seq<char>,
)
    requires
        !cfg.thread_ids,
        !cfg.thread_names,
    ensures
        spec_render(cfg, ts, ev, spans) == spec_render(
            cfg,
            ts,
            EventView { thread_id: other_id, thread_name: other_name, ..ev },
            spans,
        ),
{
}

/// With the call-site toggles off, no layout's rendering depends on the
/// source file or the line number.
pub proof fn lemma_call_site_off_ignored(
    cfg: ResolvedFormat,
    ts: Option<Seq<char>>,
    ev: EventView,
    spans: Seq<SpanView>,
    other_file: Option<Seq<char>>,
    other_line: Option<nat>,
)
    requires
        !cfg.file,
        !cfg.line_number,
    ensures
        spec_render(cfg, ts, ev, spans) == spec_render(
            cfg,
            ts,
            EventView { file: other_file, line: other_line, ..ev },
            spans,
        ),
{
}

/// With the level toggle off, no layout's rendering depends on the
/// event's severity.
pub proof fn lemma_level_off_ignored(
    cfg: ResolvedFormat,
    ts: Option<Seq<char>>,
    ev: EventView,
    spans: Seq<SpanView>,
    other: Level,
)
    requires
        !cfg.level,
    ensures
        spec_render(cfg, ts, ev, spans) == spec_render(
            cfg,
            ts,
            EventView { level: other, ..ev },
            spans,
        ),
{
}

/// With the target toggle on, the single-line layouts render the target
/// string itself, contiguously.
#[verifier::rlimit(100)]
pub proof fn lemma_line_contains_target(cfg: ResolvedFormat, ts: Option<Seq<char>>, ev: EventView)
    requires
        cfg.target,
    ensures
        spec_contains(spec_render_line(cfg, ts, ev), ev.target),
{
    let compact = cfg.layout matches Layout::Compact;
    let x1 = (match ts {
        Some(t) => t + " "@,
        Option::None => Seq::<char>::empty(),
    });
    let x2 = (if cfg.level {
        spec_level_shown(ev.level, cfg.ansi, !compact) + " "@
    } else {
        Seq::<char>::empty()
    });
    let h = spec_render_line(cfg, ts, ev);
    let i = x1.len() + x2.len();
    assert(h.subrange(i as int, (i + ev.target.len()) as int) =~= ev.target);
}

/// With the target toggle on, the human-oriented layout renders the
/// target string itself, contiguously.
pub proof fn lemma_pretty_contains_target(
    cfg: ResolvedFormat,
    ts: Option<Seq<char>>,
    ev: EventView,
)
    requires
        cfg.target,
    ensures
        spec_contains(spec_render_pretty(cfg, ts, ev), ev.target),
{
    let x1 = (match ts {
        Some(t) => t + "  "@,
        Option::None => Seq::<char>::empty(),
    });
    let x2 = (if cfg.level {
        spec_level_shown(ev.level, cfg.ansi, false) + " "@
    } else {
        Seq::<char>::empty()
    });
    let h = spec_render_pretty(cfg, ts, ev);
    let i = x1.len() + x2.len() + ev.message.len() + "\n"@.len() + "    target: "@.len();
    assert(h.subrange(i as int, (i + ev.target.len()) as int) =~= ev.target);
}

/// Every line rendering contains the message itself, contiguously.
pub proof fn lemma_line_contains_message(cfg: ResolvedFormat, ts: Option<Seq<char>>, ev: EventView)
    ensures
        spec_contains(spec_render_line(cfg, ts, ev), ev.message),
{
    let compact = cfg.layout matches Layout::Compact;
    let x1 = (match ts {
        Some(t) => t + " "@,
        Option::None => Seq::<char>::empty(),
    });
    let x2 = (if cfg.level {
        spec_level_shown(ev.level, cfg.ansi, !compact) + " "@
    } else {
        Seq::<char>::empty()
    });
    let x3 = (if cfg.target {
        ev.target + (if compact {
            " "@
        } else {
            ": "@
        })
    } else {
        Seq::<char>::empty()
    });
    let h = spec_render_line(cfg, ts, ev);
    let i = x1.len() + x2.len() + x3.len();
    assert(h.subrange(i as int, (i + ev.message.len()) as int) =~= ev.message);
}


/// With the thread-name toggle on, the single-line layouts render the
/// thread's name itself, contiguously.
#[verifier::rlimit(100)]
pub proof fn lemma_line_contains_thread_name(
    cfg: ResolvedFormat,
    ts: Option<Seq<char>>,
    ev: EventView,
)
    requires
        cfg.thread_names,
    ensures
        spec_contains(spec_render_line(cfg, ts, ev), ev.thread_name),
{
    let compact = cfg.layout matches Layout::Compact;
    let x1 = (match ts {
        Some(t) => t + " "@,
        Option::None => Seq::<char>::empty(),
    });
    let x2 = (if cfg.level {
        spec_level_shown(ev.level, cfg.ansi, !compact) + " "@
    } else {
        Seq::<char>::empty()
    });
    let x3 = (if cfg.target {
        ev.target + (if compact {
            " "@
        } else {
            ": "@
        })
    } else {
        Seq::<char>::empty()
    });
    let x4 = (if cfg.thread_ids {
        " tid="@ + spec_dec(ev.thread_id)
    } else {
        Seq::<char>::empty()
    });
    let h = spec_render_line(cfg, ts, ev);
    let i = x1.len() + x2.len() + x3.len() + ev.message.len() + spec_fields_inline(ev.fields).len()
        + x4.len() + " on "@.len();
    assert(h.subrange(i as int, (i + ev.thread_name.len()) as int) =~= ev.thread_name);
}

/// With the call-site toggle on and a source file present, the
/// single-line layouts render the file name itself, contiguously.
#[verifier::rlimit(100)]
pub proof fn lemma_line_contains_file(cfg: ResolvedFormat, ts: Option<Seq<char>>, ev: EventView)
    requires
        cfg.file,
        ev.file is Some,
    ensures
        spec_contains(spec_render_line(cfg, ts, ev), ev.file.unwrap()),
{
    let compact = cfg.layout matches Layout::Compact;
    let x1 = (match ts {
        Some(t) => t + " "@,
        Option::None => Seq::<char>::empty(),
    });
    let x2 = (if cfg.level {
        spec_level_shown(ev.level, cfg.ansi, !compact) + " "@
    } else {
        Seq::<char>::empty()
    });
    let x3 = (if cfg.target {
        ev.target + (if compact {
            " "@
        } else {
            ": "@
        })
    } else {
        Seq::<char>::empty()
    });
    let x4 = (if cfg.thread_ids {
        " tid="@ + spec_dec(ev.thread_id)
    } else {
        Seq::<char>::empty()
    });
    let x5 = (if cfg.thread_names {
        " on "@ + ev.thread_name
    } else {
        Seq::<char>::empty()
    });
    let h = spec_render_line(cfg, ts, ev);
    let i = x1.len() + x2.len() + x3.len() + ev.message.len() + spec_fields_inline(ev.fields).len()
        + x4.len() + x5.len() + " at "@.len();
    assert(h.subrange(i as int, (i + ev.file.unwrap().len()) as int) =~= ev.file.unwrap());
}


/// Every human-oriented rendering contains the message itself,
/// contiguously.
#[verifier::rlimit(100)]
pub proof fn lemma_pretty_contains_message(
    cfg: ResolvedFormat,
    ts: Option<Seq<char>>,
    ev: EventView,
)
    ensures
        spec_contains(spec_render_pretty(cfg, ts, ev), ev.message),
{
    let x1 = (match ts {
        Some(t) => t + "  "@,
        Option::None => Seq::<char>::empty(),
    });
    let x2 = (if cfg.level {
        spec_level_shown(ev.level, cfg.ansi, false) + " "@
    } else {
        Seq::<char>::empty()
    });
    let h = spec_render_pretty(cfg, ts, ev);
    let i = x1.len() + x2.len();
    assert(h.subrange(i as int, (i + ev.message.len()) as int) =~= ev.message);
}

/// With the call-site toggle on and a source file present, the
/// human-oriented layout renders the file name itself, contiguously.
#[verifier::rlimit(100)]
pub proof fn lemma_pretty_contains_file(cfg: ResolvedFormat, ts: Option<Seq<char>>, ev: EventView)
    requires
        cfg.file,
        ev.file is Some,
    ensures
        spec_contains(spec_render_pretty(cfg, ts, ev), ev.file.unwrap()),
{
    let x1 = (match ts {
        Some(t) => t + "  "@,
        Option::None => Seq::<char>::empty(),
    });
    let x2 = (if cfg.level {
        spec_level_shown(ev.level, cfg.ansi, false) + " "@
    } else {
        Seq::<char>::empty()
    });
    let x3 = (if cfg.target {
        "    target: "@ + ev.target + "\n"@
    } else {
        Seq::<char>::empty()
    });
    let h = spec_render_pretty(cfg, ts, ev);
    let i = x1.len() + x2.len() + ev.message.len() + "\n"@.len() + x3.len() + spec_fields_lines(
        ev.fields,
    ).len() + "    at "@.len();
    assert(h.subrange(i as int, (i + ev.file.unwrap().len()) as int) =~= ev.file.unwrap());
}

/// With the thread-name toggle on, the human-oriented layout renders the
/// thread's name itself, contiguously.
#[verifier::rlimit(100)]
pub proof fn lemma_pretty_contains_thread_name(
    cfg: ResolvedFormat,
    ts: Option<Seq<char>>,
    ev: EventView,
)
    requires
        cfg.thread_names,
    ensures
        spec_contains(spec_render_pretty(cfg, ts, ev), ev.thread_name),
{
    let x1 = (match ts {
        Some(t) => t + "  "@,
        Option::None => Seq::<char>::empty(),
    });
    let x2 = (if cfg.level {
        spec_level_shown(ev.level, cfg.ansi, false) + " "@
    } else {
        Seq::<char>::empty()
    });
    let x3 = (if cfg.target {
        "    target: "@ + ev.target + "\n"@
    } else {
        Seq::<char>::empty()
    });
    let x4 = (if cfg.file && ev.file is Some {
        "    at "@ + ev.file.unwrap() + (if cfg.line_number && ev.line is Some {
            ":"@ + spec_dec(ev.line.unwrap())
        } else {
            Seq::<char>::empty()
        }) + "\n"@
    } else {
        Seq::<char>::empty()
    });
    let h = spec_render_pretty(cfg, ts, ev);
    let i = x1.len() + x2.len() + ev.message.len() + "\n"@.len() + x3.len() + spec_fields_lines(
        ev.fields,
    ).len() + x4.len() + "    on"@.len() + " "@.len();
    assert(h.subrange(i as int, (i + ev.thread_name.len()) as int) =~= ev.thread_name);
}


/// With the thread-id toggle on, the single-line layouts render the
/// thread id's decimal form, contiguously.
#[verifier::rlimit(100)]
pub proof fn lemma_line_contains_thread_id(
    cfg: ResolvedFormat,
    ts: Option<Seq<char>>,
    ev: EventView,
)
    requires
        cfg.thread_ids,
    ensures
        spec_contains(spec_render_line(cfg, ts, ev), spec_dec(ev.thread_id)),
{
    let compact = cfg.layout matches Layout::Compact;
    let x1 = (match ts {
        Some(t) => t + " "@,
        Option::None => Seq::<char>::empty(),
    });
    let x2 = (if cfg.level {
        spec_level_shown(ev.level, cfg.ansi, !compact) + " "@
    } else {
        Seq::<char>::empty()
    });
    let x3 = (if cfg.target {
        ev.target + (if compact {
            " "@
        } else {
            ": "@
        })
    } else {
        Seq::<char>::empty()
    });
    let h = spec_render_line(cfg, ts, ev);
    let i = x1.len() + x2.len() + x3.len() + ev.message.len() + spec_fields_inline(ev.fields).len()
        + " tid="@.len();
    assert(h.subrange(i as int, (i + spec_dec(ev.thread_id).len()) as int) =~= spec_dec(
        ev.thread_id,
    ));
}

/// With the line-number toggle on and a line present, the single-line
/// layouts render the line number's decimal form, contiguously.
#[verifier::rlimit(100)]
pub proof fn lemma_line_contains_line_number(
    cfg: ResolvedFormat,
    ts: Option<Seq<char>>,
    ev: EventView,
)
    requires
        cfg.line_number,
        ev.line is Some,
    ensures
        spec_contains(spec_render_line(cfg, ts, ev), spec_dec(ev.line.unwrap())),
{
    let compact = cfg.layout matches Layout::Compact;
    let x1 = (match ts {
        Some(t) => t + " "@,
        Option::None => Seq::<char>::empty(),
    });
    let x2 = (if cfg.level {
        spec_level_shown(ev.level, cfg.ansi, !compact) + " "@
    } else {
        Seq::<char>::empty()
    });
    let x3 = (if cfg.target {
        ev.target + (if compact {
            " "@
        } else {
            ": "@
        })
    } else {
        Seq::<char>::empty()
    });
    let x4 = (if cfg.thread_ids {
        " tid="@ + spec_dec(ev.thread_id)
    } else {
        Seq::<char>::empty()
    });
    let x5 = (if cfg.thread_names {
        " on "@ + ev.thread_name
    } else {
        Seq::<char>::empty()
    });
    let x6 = (if cfg.file && ev.file is Some {
        " at "@ + ev.file.unwrap()
    } else {
        Seq::<char>::empty()
    });
    let h = spec_render_line(cfg, ts, ev);
    let i = x1.len() + x2.len() + x3.len() + ev.message.len() + spec_fields_inline(ev.fields).len()
        + x4.len() + x5.len() + x6.len() + ":"@.len();
    assert(h.subrange(i as int, (i + spec_dec(ev.line.unwrap()).len()) as int) =~= spec_dec(
        ev.line.unwrap(),
    ));
}

/// With the thread-id toggle on, the human-oriented layout renders the
/// thread id's decimal form, contiguously.
#[verifier::rlimit(100)]
pub proof fn lemma_pretty_contains_thread_id(
    cfg: ResolvedFormat,
    ts: Option<Seq<char>>,
    ev: EventView,
)
    requires
        cfg.thread_ids,
    ensures
        spec_contains(spec_render_pretty(cfg, ts, ev), spec_dec(ev.thread_id)),
{
    let x1 = (match ts {
        Some(t) => t + "  "@,
        Option::None => Seq::<char>::empty(),
    });
    let x2 = (if cfg.level {
        spec_level_shown(ev.level, cfg.ansi, false) + " "@
    } else {
        Seq::<char>::empty()
    });
    let x3 = (if cfg.target {
        "    target: "@ + ev.target + "\n"@
    } else {
        Seq::<char>::empty()
    });
    let x4 = (if cfg.file && ev.file is Some {
        "    at "@ + ev.file.unwrap() + (if cfg.line_number && ev.line is Some {
            ":"@ + spec_dec(ev.line.unwrap())
        } else {
            Seq::<char>::empty()
        }) + "\n"@
    } else {
        Seq::<char>::empty()
    });
    let x5 = (if cfg.thread_names {
        " "@ + ev.thread_name
    } else {
        Seq::<char>::empty()
    });
    let h = spec_render_pretty(cfg, ts, ev);
    let i = x1.len() + x2.len() + ev.message.len() + "\n"@.len() + x3.len() + spec_fields_lines(
        ev.fields,
    ).len() + x4.len() + "    on"@.len() + x5.len() + " tid="@.len();
    assert(h.subrange(i as int, (i + spec_dec(ev.thread_id).len()) as int) =~= spec_dec(
        ev.thread_id,
    ));
}

/// With the call-site toggles on and both pieces present, the
/// human-oriented layout renders the line number's decimal form,
/// contiguously, after the file name.
#[verifier::rlimit(100)]
pub proof fn lemma_pretty_contains_line_number(
    cfg: ResolvedFormat,
    ts: Option<Seq<char>>,
    ev: EventView,
)
    requires
        cfg.file,
        cfg.line_number,
        ev.file is Some,
        ev.line is Some,
    ensures
        spec_contains(spec_render_pretty(cfg, ts, ev), spec_dec(ev.line.unwrap())),
{
    let x1 = (match ts {
        Some(t) => t + "  "@,
        Option::None => Seq::<char>::empty(),
    });
    let x2 = (if cfg.level {
        spec_level_shown(ev.level, cfg.ansi, false) + " "@
    } else {
        Seq::<char>::empty()
    });
    let x3 = (if cfg.target {
        "    target: "@ + ev.target + "\n"@
    } else {
        Seq::<char>::empty()
    });
    let h = spec_render_pretty(cfg, ts, ev);
    let i = x1.len() + x2.len() + ev.message.len() + "\n"@.len() + x3.len() + spec_fields_lines(
        ev.fields,
    ).len() + "    at "@.len() + ev.file.unwrap().len() + ":"@.len();
    assert(h.subrange(i as int, (i + spec_dec(ev.line.unwrap()).len()) as int) =~= spec_dec(
        ev.line.unwrap(),
    ));
}


/// The level as shown always carries the level's text: the padding only
/// prepends spaces and the coloring only wraps.
#[verifier::rlimit(100)]
pub proof fn lemma_level_shown_contains_text(l: Level, ansi: bool, padded: bool)
    ensures
        spec_contains(spec_level_shown(l, ansi, padded), spec_level_text(l)),
{
    reveal_strlit("OFF");
    reveal_strlit("ERROR");
    reveal_strlit("WARN");
    reveal_strlit("INFO");
    reveal_strlit("DEBUG");
    reveal_strlit("TRACE");
    reveal_strlit("  OFF");
    reveal_strlit(" WARN");
    reveal_strlit(" INFO");
    let text = spec_level_text(l);
    let shown = spec_level_shown(l, ansi, padded);
    let pre = (if ansi {
        spec_level_color(l).len() as int
    } else {
        0
    }) + (if padded {
        spec_level_padded(l).len() - text.len()
    } else {
        0
    });
    assert(shown.subrange(pre, pre + text.len()) =~= text);
}

/// With the level toggle on, the single-line layouts render the level's
/// text itself, contiguously.
#[verifier::rlimit(100)]
#[verifier::spinoff_prover]
pub proof fn lemma_line_contains_level(cfg: ResolvedFormat, ts: Option<Seq<char>>, ev: EventView)
    requires
        cfg.level,
    ensures
        spec_contains(spec_render_line(cfg, ts, ev), spec_level_text(ev.level)),
{
    let compact = cfg.layout matches Layout::Compact;
    lemma_level_shown_contains_text(ev.level, cfg.ansi, !compact);
    let text = spec_level_text(ev.level);
    let shown = spec_level_shown(ev.level, cfg.ansi, !compact);
    let j = choose|j: int|
        0 <= j <= shown.len() - text.len() && #[trigger] shown.subrange(j, j + text.len()) == text;
    let x1 = (match ts {
        Some(t) => t + " "@,
        Option::None => Seq::<char>::empty(),
    });
    let h = spec_render_line(cfg, ts, ev);
    let i = x1.len() + j;
    assert(h.subrange(i as int, i + text.len()) =~= text);
}

/// With the level toggle on, the human-oriented layout renders the
/// level's text itself, contiguously.
#[verifier::rlimit(100)]
#[verifier::spinoff_prover]
pub proof fn lemma_pretty_contains_level(cfg: ResolvedFormat, ts: Option<Seq<char>>, ev: EventView)
    requires
        cfg.level,
    ensures
        spec_contains(spec_render_pretty(cfg, ts, ev), spec_level_text(ev.level)),
{
    lemma_level_shown_contains_text(ev.level, cfg.ansi, false);
    let text = spec_level_text(ev.level);
    let shown = spec_level_shown(ev.level, cfg.ansi, false);
    let j = choose|j: int|
        0 <= j <= shown.len() - text.len() && #[trigger] shown.subrange(j, j + text.len()) == text;
    let x1 = (match ts {
        Some(t) => t + "  "@,
        Option::None => Seq::<char>::empty(),
    });
    let h = spec_render_pretty(cfg, ts, ev);
    let mid = h.subrange(x1.len() as int, (x1.len() + shown.len()) as int);
    assert(mid =~= shown);
    let i = x1.len() + j;
    assert(h.subrange(i as int, (i + text.len()) as int) =~= mid.subrange(j, j + text.len()));
    assert(h.subrange(i as int, (i + text.len()) as int) == text);
}

/// The keys a record carries, in order.
pub open spec fn spec_keys(es: Seq<EntryView>) -> Seq<Seq<char>> {
    es.map_values(|e: EntryView| e.key)
}

/// The names of a list of fields, in order.
pub open spec fn spec_field_names(fs: Seq<FieldView>) -> Seq<Seq<char>> {
    fs.map_values(|f: FieldView| f.name)
}

/// The keys the head of a record is expected to carry.
pub open spec fn spec_expected_head_keys(
    cfg: ResolvedFormat,
    j: ResolvedJson,
    ts: Option<Seq<char>>,
    ev: EventView,
) -> Seq<Seq<char>> {
    (match ts {
        Some(t) => seq!["timestamp"@],
        Option::None => Seq::empty(),
    }) + (if cfg.level {
        seq!["level"@]
    } else {
        Seq::empty()
    }) + (if j.flatten_event {
        seq!["message"@] + spec_field_names(ev.fields)
    } else {
        seq!["fields"@]
    }) + (if cfg.target {
        seq!["target"@]
    } else {
        Seq::empty()
    })
}

/// The keys the tail of a record is expected to carry.
pub open spec fn spec_expected_tail_keys(
    cfg: ResolvedFormat,
    j: ResolvedJson,
    ev: EventView,
    spans: Seq<SpanView>,
) -> Seq<Seq<char>> {
    (if j.current_span && spans.len() > 0 {
        seq!["span"@]
    } else {
        Seq::empty()
    }) + (if j.span_list {
        seq!["spans"@]
    } else {
        Seq::empty()
    }) + (if cfg.thread_names {
        seq!["threadName"@]
    } else {
        Seq::empty()
    }) + (if cfg.thread_ids {
        seq!["threadId"@]
    } else {
        Seq::empty()
    }) + (if cfg.file && ev.file is Some {
        seq!["filename"@]
    } else {
        Seq::empty()
    }) + (if cfg.line_number && ev.line is Some {
        seq!["line_number"@]
    } else {
        Seq::empty()
    })
}

/// The top-level keys a structured record is expected to carry: the
/// enabled built-in keys and, when the event is flattened, the message
/// key and the event's own field names in place of the one nested
/// `fields` key.
pub open spec fn spec_expected_keys(
    cfg: ResolvedFormat,
    j: ResolvedJson,
    ts: Option<Seq<char>>,
    ev: EventView,
    spans: Seq<SpanView>,
) -> Seq<Seq<char>> {
    spec_expected_head_keys(cfg, j, ts, ev) + spec_expected_tail_keys(cfg, j, ev, spans)
}

#[verifier::rlimit(100)]
proof fn lemma_record_head_keys(
    cfg: ResolvedFormat,
    j: ResolvedJson,
    ts: Option<Seq<char>>,
    ev: EventView,
)
    ensures
        spec_keys(spec_record_head(cfg, j, ts, ev)) =~= spec_expected_head_keys(cfg, j, ts, ev),
{
    broadcast use vstd::seq::Seq::group_seq_extra;

    let es = spec_record_head(cfg, j, ts, ev);
    let ks = spec_expected_head_keys(cfg, j, ts, ev);
    assert(es.len() == ks.len());
    assert forall|i: int| 0 <= i < es.len() implies #[trigger] spec_keys(es)[i] == ks[i] by {
        assert(spec_keys(es)[i] == es[i].key);
    }
}

#[verifier::rlimit(100)]
proof fn lemma_record_tail_keys(
    cfg: ResolvedFormat,
    j: ResolvedJson,
    ev: EventView,
    spans: Seq<SpanView>,
)
    ensures
        spec_keys(spec_record_tail(cfg, j, ev, spans)) =~= spec_expected_tail_keys(
            cfg,
            j,
            ev,
            spans,
        ),
{
    broadcast use vstd::seq::Seq::group_seq_extra;

    let es = spec_record_tail(cfg, j, ev, spans);
    let ks = spec_expected_tail_keys(cfg, j, ev, spans);
    assert(es.len() == ks.len());
    assert forall|i: int| 0 <= i < es.len() implies #[trigger] spec_keys(es)[i] == ks[i] by {
        assert(spec_keys(es)[i] == es[i].key);
    }
}

/// The top-level keys of a structured record are exactly the expected
/// ones: with the event flattened, its field names stand at the top level
/// beside the message, with no nested wrapper key; without flattening, a
/// single `fields` key carries the event object instead.
pub proof fn lemma_record_keys(
    cfg: ResolvedFormat,
    j: ResolvedJson,
    ts: Option<Seq<char>>,
    ev: EventView,
    spans: Seq<SpanView>,
)
    ensures
        spec_keys(spec_record_entries(cfg, j, ts, ev, spans)) =~= spec_expected_keys(
            cfg,
            j,
            ts,
            ev,
            spans,
        ),
{
    lemma_record_head_keys(cfg, j, ts, ev);
    lemma_record_tail_keys(cfg, j, ev, spans);
    let h = spec_record_head(cfg, j, ts, ev);
    let t = spec_record_tail(cfg, j, ev, spans);
    assert forall|i: int| 0 <= i < h.len() + t.len() implies #[trigger] spec_keys(h + t)[i] == (
    spec_keys(h) + spec_keys(t))[i] by {
        if i < h.len() {
            assert((h + t)[i] == h[i]);
        } else {
            assert((h + t)[i] == t[i - h.len()]);
        }
    }
    assert(spec_keys(h + t) =~= spec_keys(h) + spec_keys(t));
}

} // verus!
