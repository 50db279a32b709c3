//! The skhd configuration grammar, and the construction of the syntax tree.
//!
//! A configuration is read line by line. A line whose first non-blank character
//! is `#` is a comment, one whose first non-blank character is `.` is a directive,
//! a blank line is empty, and any other line must be a shortcut:
//!
//! ```text
//! shortcut  = [ modifier { "+" modifier } "-" ] key ":" command
//! modifier  = name
//! key       = name
//! name      = one or more of A-Z a-z 0-9 _
//! command   = the rest of the line
//! ```
//!
//! Blanks may stand between the parts of a shortcut. A directive runs to the end
//! of its line, and on over further lines while a `[` or `{` outside double quotes
//! is still open. Line numbers count from 1.
//!
//! Two more binding forms of skhd.zig are recognised:
//!
//! ```text
//! mode switch  = binding ";" mode [ ":" command ]
//! process map  = binding "[" entries "]"
//! binding      = [ modifier { "+" modifier } "-" ] key
//! mode         = name
//! ```
//!
//! A process map runs on over further lines like a directive; its entries
//! (`"app" : command`, `@group : command`, `* : command`) are kept as written.
use vstd::prelude::*;

use crate::ast::{
    ConfigLine, DirectiveModel, LineModel, ParsedComment, ParsedConfig, ParsedShortcut,
    ZigDirective, lines_model, CommentModel, ShortcutModel, directive_line, directive_name_of,
    ModeSwitchModel,
    ProcessMapModel, ParsedModeSwitch, ParsedProcessMap,
};
use crate::text::{
    back_char, back_char_in, back_ws, back_ws_in, chars_of, find_char, find_char_in, find_ws,
    find_ws_in, ident_end, ident_end_in, is_ws, lemma_back_char, lemma_back_ws, lemma_find_char,
    lemma_find_ws, lemma_ident_end, lemma_newlines_bound, lemma_newlines_split, lemma_skip_char,
    lemma_skip_ws, newlines, owned, range_is, skip_char, skip_char_in, skip_ws, skip_ws_in,
    text_of, trimmed, trimmed_in, decimal, decimal_of,
};

verus! {

/// What a piece of a configuration is, before it is interpreted.
#[derive(Debug, Clone, Copy, PartialEq, Eq, Structural)]
pub enum LineKind {
    Empty,
    Comment,
    Directive,
    Shortcut,
    ModeSwitch,
    ProcessMap,
}

/// A piece of a configuration as the grammar recognises it: positions are
/// character indices into the configuration text.
#[derive(Debug)]
pub struct RawLine {
    pub kind: LineKind,
    pub line_number: usize,
    /// Start of the piece: the `#` of a comment, the `.` of a directive, the
    /// first non-blank character of a shortcut, the line start of an empty line.
    pub start: usize,
    /// End of the piece (exclusive); a line feed that ends it is not included.
    pub end: usize,
    /// Ranges of the modifier names of a shortcut.
    pub modifiers: Vec<(usize, usize)>,
    /// Range of the key of a shortcut.
    pub key: (usize, usize),
    /// Range of the command of a shortcut or mode switch, before trimming; for a
    /// process map, from its `[` to its end.
    pub command: (usize, usize),
    /// Range of the mode of a mode switch.
    pub mode: (usize, usize),
}

pub struct RawLineModel {
    pub kind: LineKind,
    pub line_number: usize,
    pub start: int,
    pub end: int,
    pub modifiers: Seq<(int, int)>,
    pub key: (int, int),
    pub command: (int, int),
    pub mode: (int, int),
}

pub open spec fn ranges_model(v: Seq<(usize, usize)>) -> Seq<(int, int)> {
    Seq::new(v.len(), |i: int| (v[i].0 as int, v[i].1 as int))
}

impl View for RawLine {
    type V = RawLineModel;

    open spec fn view(&self) -> RawLineModel {
        RawLineModel {
            kind: self.kind,
            line_number: self.line_number,
            start: self.start as int,
            end: self.end as int,
            modifiers: ranges_model(self.modifiers@),
            key: (self.key.0 as int, self.key.1 as int),
            command: (self.command.0 as int, self.command.1 as int),
            mode: (self.mode.0 as int, self.mode.1 as int),
        }
    }
}

pub open spec fn raw_lines_model(v: Seq<RawLine>) -> Seq<RawLineModel> {
    Seq::new(v.len(), |i: int| v[i]@)
}

/// A problem found in a configuration.
#[derive(Debug, Clone, PartialEq)]
pub struct ParseError {
    pub line_number: usize,
    pub column: Option<usize>,
    pub message: String,
}

pub struct ErrorModel {
    pub line_number: usize,
    pub column: Option<usize>,
    pub message: Seq<char>,
}

impl View for ParseError {
    type V = ErrorModel;

    open spec fn view(&self) -> ErrorModel {
        ErrorModel { line_number: self.line_number, column: self.column, message: self.message@ }
    }
}

/// How a parse error is shown: `Parse error at line L, column C: M`, or without
/// the column when there is none.
pub open spec fn spec_error_text(e: ErrorModel) -> Seq<char> {
    match e.column {
        Some(c) => "Parse error at line "@ + decimal_of(e.line_number as nat) + ", column "@
            + decimal_of(c as nat) + ": "@ + e.message,
        None => "Parse error at line "@ + decimal_of(e.line_number as nat) + ": "@ + e.message,
    }
}

impl ParseError {
    /// The error as shown to the user.
    pub fn to_string(&self) -> (r: String)
        ensures
            r@ == spec_error_text(self@),
    {
        let r = owned("Parse error at line ");
        let r = r.concat(decimal(self.line_number).as_str());
        match self.column {
            Some(c) => {
                let r = r.concat(", column ");
                let r = r.concat(decimal(c).as_str());
                let r = r.concat(": ");
                r.concat(self.message.as_str())
            },
            None => {
                let r = r.concat(": ");
                r.concat(self.message.as_str())
            },
        }
    }
}

pub open spec fn errors_model(v: Seq<ParseError>) -> Seq<ErrorModel> {
    Seq::new(v.len(), |i: int| v[i]@)
}

// ------------------------------------------------------------------
// The grammar
// ------------------------------------------------------------------

/// Index of the line feed that ends the line starting at `p`, or the text's length.
pub open spec fn line_end(s: Seq<char>, p: int) -> int {
    find_char(s, p, s.len() as int, '\n')
}

/// Where the next line starts, given the end of this one.
pub open spec fn after(s: Seq<char>, e: int) -> int {
    if e < s.len() {
        e + 1
    } else {
        e
    }
}

/// The 1-based number of the line that holds position `p`.
pub open spec fn line_at(s: Seq<char>, p: int) -> int {
    newlines(s, 0, p) + 1
}

/// `name { "+" name }` from `p`: the name ranges and the first non-blank position after them.
pub open spec fn modifier_list(s: Seq<char>, p: int, e: int) -> Option<(Seq<(int, int)>, int)>
    decreases e - p,
{
    let b = ident_end(s, p, e);
    if p >= e || b == p {
        None
    } else {
        proof {
            lemma_ident_end(s, p, e);
            lemma_skip_ws(s, b, e);
        }
        let q = skip_ws(s, b, e);
        if q < e && s[q] == '+' {
            let p2 = skip_ws(s, q + 1, e);
            proof {
                lemma_skip_ws(s, q + 1, e);
            }
            match modifier_list(s, p2, e) {
                Some((rest, r)) => Some((seq![(p, b)] + rest, r)),
                None => None,
            }
        } else {
            Some((seq![(p, b)], q))
        }
    }
}

/// A shortcut on `[f, e)`: modifier ranges, key range, and the start of the command.
pub open spec fn shortcut_syntax(s: Seq<char>, f: int, e: int) -> Option<
    (Seq<(int, int)>, (int, int), int),
> {
    match modifier_list(s, f, e) {
        None => None,
        Some((ms, q)) => if q < e && s[q] == '-' {
            let k0 = skip_ws(s, q + 1, e);
            let k1 = ident_end(s, k0, e);
            let r = skip_ws(s, k1, e);
            if k1 > k0 && r < e && s[r] == ':' {
                Some((ms, (k0, k1), r + 1))
            } else {
                None
            }
        } else if ms.len() == 1 && q < e && s[q] == ':' {
            Some((Seq::empty(), ms[0], q + 1))
        } else {
            None
        },
    }
}

/// A binding on `[f, e)`: modifier ranges, key range, and the first non-blank
/// position after the key.
pub open spec fn binding_syntax(s: Seq<char>, f: int, e: int) -> Option<
    (Seq<(int, int)>, (int, int), int),
> {
    match modifier_list(s, f, e) {
        None => None,
        Some((ms, q)) => if q < e && s[q] == '-' {
            let k0 = skip_ws(s, q + 1, e);
            let k1 = ident_end(s, k0, e);
            if k1 > k0 {
                Some((ms, (k0, k1), skip_ws(s, k1, e)))
            } else {
                None
            }
        } else if ms.len() == 1 {
            Some((Seq::empty(), ms[0], q))
        } else {
            None
        },
    }
}

pub proof fn lemma_binding_bounds(s: Seq<char>, f: int, e: int)
    requires
        0 <= f <= e,
    ensures
        binding_syntax(s, f, e) matches Some((ms, k, r)) ==> f <= k.0 < k.1 <= e && f <= r <= e
            && forall|i: int| 0 <= i < ms.len() ==> f <= #[trigger] ms[i].0 <= ms[i].1 <= e,
{
    lemma_modifier_list_ranges(s, f, e);
    if let Some((ms, q)) = modifier_list(s, f, e) {
        if q < e && s[q] == '-' {
            lemma_skip_ws(s, q + 1, e);
            let k0 = skip_ws(s, q + 1, e);
            lemma_ident_end(s, k0, e);
            lemma_skip_ws(s, ident_end(s, k0, e), e);
        }
    }
}

/// The ranges of a modifier list lie in order within `[p, e]`, the first one not
/// empty, and the list ends within it too.
pub proof fn lemma_modifier_list_ranges(s: Seq<char>, p: int, e: int)
    requires
        0 <= p <= e,
    ensures
        modifier_list(s, p, e) matches Some((ms, q)) ==> ms.len() >= 1 && p <= ms[0].0 < ms[0].1
            && p <= q <= e && forall|i: int| 0 <= i < ms.len() ==> p <= #[trigger] ms[i].0
            <= ms[i].1 <= e,
    decreases e - p,
{
    if p < e {
        lemma_ident_end(s, p, e);
        let b = ident_end(s, p, e);
        if b != p {
            lemma_skip_ws(s, b, e);
            let q = skip_ws(s, b, e);
            if q < e && s[q] == '+' {
                lemma_skip_ws(s, q + 1, e);
                let p2 = skip_ws(s, q + 1, e);
                lemma_modifier_list_ranges(s, p2, e);
                if let Some((rest, r)) = modifier_list(s, p2, e) {
                    let ms = seq![(p, b)] + rest;
                    assert forall|i: int| 0 <= i < ms.len() implies p <= #[trigger] ms[i].0
                        <= ms[i].1 <= e by {
                        if i > 0 {
                            assert(ms[i] == rest[i - 1]);
                        }
                    }
                }
            }
        }
    }
}

/// Where a directive that has reached position `i` ends: the first line feed
/// met with no bracket open, or the end of the text; `None` if a bracket is
/// still open there. `depth` counts open brackets, `quoted` whether a double
/// quote is open.
pub open spec fn directive_end(s: Seq<char>, i: int, depth: nat, quoted: bool) -> Option<int>
    decreases s.len() - i,
{
    if i < 0 || i >= s.len() {
        if depth == 0 {
            Some(s.len() as int)
        } else {
            None
        }
    } else {
        let c = s[i];
        if c == '\n' && depth == 0 {
            Some(i)
        } else if quoted {
            directive_end(s, i + 1, depth, c != '"')
        } else if c == '"' {
            directive_end(s, i + 1, depth, true)
        } else if c == '[' || c == '{' {
            directive_end(s, i + 1, depth + 1, false)
        } else if (c == ']' || c == '}') && depth > 0 {
            directive_end(s, i + 1, (depth - 1) as nat, false)
        } else {
            directive_end(s, i + 1, depth, false)
        }
    }
}

pub proof fn lemma_directive_end(s: Seq<char>, i: int, depth: nat, quoted: bool)
    requires
        0 <= i <= s.len(),
    ensures
        directive_end(s, i, depth, quoted) matches Some(d) ==> i <= d <= s.len(),
    decreases s.len() - i,
{
    if i < s.len() {
        let c = s[i];
        if c == '\n' && depth == 0 {
        } else if quoted {
            lemma_directive_end(s, i + 1, depth, c != '"');
        } else if c == '"' {
            lemma_directive_end(s, i + 1, depth, true);
        } else if c == '[' || c == '{' {
            lemma_directive_end(s, i + 1, depth + 1, false);
        } else if (c == ']' || c == '}') && depth > 0 {
            lemma_directive_end(s, i + 1, (depth - 1) as nat, false);
        } else {
            lemma_directive_end(s, i + 1, depth, false);
        }
    }
}

pub open spec fn raw(
    kind: LineKind,
    line: int,
    start: int,
    end: int,
    modifiers: Seq<(int, int)>,
    key: (int, int),
    command: (int, int),
) -> RawLineModel {
    RawLineModel {
        kind,
        line_number: line as usize,
        start,
        end,
        modifiers,
        key,
        command,
        mode: (0, 0),
    }
}

pub open spec fn syntax_error(line: int, column: int, message: Seq<char>) -> ErrorModel {
    ErrorModel { line_number: line as usize, column: Some(column as usize), message }
}

pub open spec fn prepend(
    x: RawLineModel,
    r: Result<Seq<RawLineModel>, ErrorModel>,
) -> Result<Seq<RawLineModel>, ErrorModel> {
    match r {
        Ok(v) => Ok(seq![x] + v),
        Err(e) => Err(e),
    }
}

pub open spec fn prepend_all(
    xs: Seq<RawLineModel>,
    r: Result<Seq<RawLineModel>, ErrorModel>,
) -> Result<Seq<RawLineModel>, ErrorModel> {
    match r {
        Ok(v) => Ok(xs + v),
        Err(e) => Err(e),
    }
}

pub open spec fn msg_unexpected() -> Seq<char> {
    "Syntax error: expected a shortcut, comment, directive or empty line"@
}

pub open spec fn msg_unclosed() -> Seq<char> {
    "Syntax error: unclosed bracket in directive"@
}

pub open spec fn msg_unclosed_map() -> Seq<char> {
    "Syntax error: unclosed bracket in process map"@
}

/// The positions of a piece lie within the text and are ordered.
pub open spec fn raw_ok(s: Seq<char>, r: RawLineModel) -> bool {
    &&& 0 <= r.start <= r.end <= s.len()
    &&& 0 <= r.key.0 <= r.key.1 <= s.len()
    &&& 0 <= r.command.0 <= r.command.1 <= s.len()
    &&& 0 <= r.mode.0 <= r.mode.1 <= s.len()
    &&& forall|i: int| 0 <= i < r.modifiers.len() ==> 0 <= #[trigger] r.modifiers[i].0 <= r.modifiers[i].1 <= s.len()
}

/// The pieces of the text from line start `p` on, or the first syntax error.
pub open spec fn scan(s: Seq<char>, p: int) -> Result<Seq<RawLineModel>, ErrorModel>
    decreases s.len() - p,
{
    if p < 0 || p >= s.len() {
        Ok(Seq::empty())
    } else {
        let e = line_end(s, p);
        let f = skip_ws(s, p, e);
        let ln = line_at(s, p);
        let none = (0int, 0int);
        proof {
            lemma_find_char(s, p, s.len() as int, '\n');
            lemma_skip_ws(s, p, e);
            lemma_directive_end(s, f, 0, false);
            lemma_binding_bounds(s, f, e);
            if let Some((_, _, r)) = binding_syntax(s, f, e) {
                lemma_directive_end(s, r, 0, false);
            }
        }
        if f == e {
            prepend(raw(LineKind::Empty, ln, p, e, Seq::empty(), none, none), scan(s, after(s, e)))
        } else if s[f] == '#' {
            prepend(
                raw(LineKind::Comment, ln, f, e, Seq::empty(), none, none),
                scan(s, after(s, e)),
            )
        } else if s[f] == '.' {
            match directive_end(s, f, 0, false) {
                None => Err(syntax_error(ln, f - p + 1, msg_unclosed())),
                Some(d) => prepend(
                    raw(LineKind::Directive, ln, f, d, Seq::empty(), none, none),
                    scan(s, after(s, d)),
                ),
            }
        } else {
            match shortcut_syntax(s, f, e) {
                Some((ms, k, c)) => prepend(
                    raw(LineKind::Shortcut, ln, f, e, ms, k, (c, e)),
                    scan(s, after(s, e)),
                ),
                None => match binding_syntax(s, f, e) {
                    Some((ms, k, r)) => if r < e && s[r] == ';' {
                        let m0 = skip_ws(s, r + 1, e);
                        let m1 = ident_end(s, m0, e);
                        let q = skip_ws(s, m1, e);
                        if m1 > m0 && (q == e || s[q] == ':') {
                            prepend(
                                RawLineModel {
                                    kind: LineKind::ModeSwitch,
                                    line_number: ln as usize,
                                    start: f,
                                    end: e,
                                    modifiers: ms,
                                    key: k,
                                    command: if q == e {
                                        (e, e)
                                    } else {
                                        (q + 1, e)
                                    },
                                    mode: (m0, m1),
                                },
                                scan(s, after(s, e)),
                            )
                        } else {
                            Err(syntax_error(ln, f - p + 1, msg_unexpected()))
                        }
                    } else if r < e && s[r] == '[' {
                        match directive_end(s, r, 0, false) {
                            None => Err(syntax_error(ln, f - p + 1, msg_unclosed_map())),
                            Some(d) => prepend(
                                RawLineModel {
                                    kind: LineKind::ProcessMap,
                                    line_number: ln as usize,
                                    start: f,
                                    end: d,
                                    modifiers: ms,
                                    key: k,
                                    command: (r, d),
                                    mode: (0, 0),
                                },
                                scan(s, after(s, d)),
                            ),
                        }
                    } else {
                        Err(syntax_error(ln, f - p + 1, msg_unexpected()))
                    },
                    None => Err(syntax_error(ln, f - p + 1, msg_unexpected())),
                },
            }
        }
    }
}

// ------------------------------------------------------------------
// Interpreting the pieces
// ------------------------------------------------------------------

pub open spec fn slice_of(s: Seq<char>, r: (int, int)) -> Seq<char> {
    s.subrange(r.0, r.1)
}

/// `[lo, hi)` without leading and trailing double quotes.
pub open spec fn unquoted(s: Seq<char>, lo: int, hi: int) -> (int, int) {
    let a = skip_char(s, lo, hi, '"');
    (a, back_char(s, a, hi, '"'))
}

/// Characters that separate the entries of a list.
pub open spec fn is_sep(c: char) -> bool {
    c == ',' || c == '\n' || c == '\r'
}

/// First separator index in `[lo, hi)`, or `hi`.
pub open spec fn find_sep(s: Seq<char>, lo: int, hi: int) -> int
    decreases hi - lo,
{
    if lo < hi && !is_sep(s[lo]) {
        find_sep(s, lo + 1, hi)
    } else {
        lo
    }
}

pub proof fn lemma_find_sep(s: Seq<char>, lo: int, hi: int)
    requires
        lo <= hi,
    ensures
        lo <= find_sep(s, lo, hi) <= hi,
    decreases hi - lo,
{
    if lo < hi && !is_sep(s[lo]) {
        lemma_find_sep(s, lo + 1, hi);
    }
}

/// The non-empty, trimmed, unquoted entries of the separated list on `[p, hi)`.
pub open spec fn list_pieces(s: Seq<char>, p: int, hi: int) -> Seq<Seq<char>>
    decreases hi - p,
{
    if p > hi {
        Seq::empty()
    } else {
        let e = find_sep(s, p, hi);
        let t = trimmed(s, p, e);
        let item = if t.0 < t.1 {
            seq![slice_of(s, unquoted(s, t.0, t.1))]
        } else {
            Seq::empty()
        };
        proof {
            lemma_find_sep(s, p, hi);
        }
        item + if e < hi {
            list_pieces(s, e + 1, hi)
        } else {
            Seq::empty()
        }
    }
}

/// Whether the (trimmed) range `[lo, hi)` is enclosed in `open` and `close`.
pub open spec fn enclosed(s: Seq<char>, lo: int, hi: int, open: char, close: char) -> bool {
    lo < hi && s[lo] == open && s[hi - 1] == close
}

/// A string list, `[ "a", "b" ]` or just `"a", "b"`.
pub open spec fn string_list(s: Seq<char>, lo: int, hi: int) -> Seq<Seq<char>> {
    let t = trimmed(s, lo, hi);
    if enclosed(s, t.0, t.1, '[', ']') {
        list_pieces(s, t.0 + 1, t.1 - 1)
    } else {
        list_pieces(s, t.0, t.1)
    }
}

pub open spec fn err_at(line: usize, message: Seq<char>) -> ErrorModel {
    ErrorModel { line_number: line, column: None, message }
}

pub open spec fn msg_alias() -> Seq<char> {
    "Alias directive must have a name starting with $"@
}

pub open spec fn msg_define() -> Seq<char> {
    "Define directive must be in group form [..] or command form : template"@
}

pub open spec fn msg_keyword() -> Seq<char> {
    "Directive missing keyword"@
}

pub open spec fn msg_command() -> Seq<char> {
    "Missing command specification"@
}

/// `.alias` content: a `$name`, a space, and the aliased value.
pub open spec fn alias_model(s: Seq<char>, line: usize, lo: int, hi: int) -> Result<
    DirectiveModel,
    ErrorModel,
> {
    let sp = find_char(s, lo, hi, ' ');
    let name = trimmed(s, lo, sp);
    let value = if sp < hi {
        trimmed(s, sp + 1, hi)
    } else {
        (hi, hi)
    };
    if name.0 < name.1 && s[name.0] == '$' {
        Ok(DirectiveModel::Alias { line_number: line, name: slice_of(s, name), value: slice_of(s, value) })
    } else {
        Err(err_at(line, msg_alias()))
    }
}

/// `.define` content: `name [ list ]`, or `name : template`. A `:` before the
/// first `[` makes a command template, whatever brackets the template holds.
pub open spec fn define_model(s: Seq<char>, line: usize, lo: int, hi: int) -> Result<
    DirectiveModel,
    ErrorModel,
> {
    let t = trimmed(s, lo, hi);
    let ob = find_char(s, t.0, t.1, '[');
    let cb = find_char(s, t.0, t.1, ']');
    let co = find_char(s, t.0, t.1, ':');
    if ob < t.1 && cb < t.1 && ob < co {
        Ok(
            DirectiveModel::DefineGroup {
                line_number: line,
                name: slice_of(s, trimmed(s, t.0, ob)),
                applications: string_list(s, ob, t.1),
            },
        )
    } else if co < t.1 {
        Ok(
            DirectiveModel::DefineCommand {
                line_number: line,
                name: slice_of(s, trimmed(s, t.0, co)),
                template: slice_of(s, trimmed(s, co + 1, t.1)),
            },
        )
    } else {
        Err(err_at(line, msg_define()))
    }
}

/// `.path` content: a list, a quoted path, or a bare path.
pub open spec fn path_model(s: Seq<char>, line: usize, lo: int, hi: int) -> DirectiveModel {
    let t = trimmed(s, lo, hi);
    let paths = if enclosed(s, t.0, t.1, '[', ']') {
        string_list(s, t.0, t.1)
    } else if enclosed(s, t.0, t.1, '"', '"') {
        seq![slice_of(s, unquoted(s, t.0, t.1))]
    } else {
        seq![slice_of(s, t)]
    };
    DirectiveModel::Path { line_number: line, paths }
}

/// The trimmed, unquoted content of `.shell` and `.load`.
pub open spec fn quoted_value(s: Seq<char>, lo: int, hi: int) -> Seq<char> {
    let t = trimmed(s, lo, hi);
    slice_of(s, unquoted(s, t.0, t.1))
}

/// The directive that runs over `[f, d)`, `f` being its dot.
pub open spec fn directive_model(s: Seq<char>, line: usize, f: int, d: int) -> Result<
    DirectiveModel,
    ErrorModel,
> {
    let a = skip_char(s, f, d, '.');
    let b = back_ws(s, a, d);
    let k = find_ws(s, a, b);
    let c = trimmed(s, k, b);
    let kw = s.subrange(a, k);
    if k == a {
        Err(err_at(line, msg_keyword()))
    } else if kw == "alias"@ {
        alias_model(s, line, c.0, c.1)
    } else if kw == "define"@ {
        define_model(s, line, c.0, c.1)
    } else if kw == "path"@ {
        Ok(path_model(s, line, c.0, c.1))
    } else if kw == "shell"@ {
        Ok(DirectiveModel::Shell { line_number: line, shell_path: quoted_value(s, c.0, c.1) })
    } else if kw == "blacklist"@ {
        let t = trimmed(s, c.0, c.1);
        Ok(DirectiveModel::Blacklist { line_number: line, applications: string_list(s, t.0, t.1) })
    } else if kw == "load"@ {
        Ok(DirectiveModel::Load { line_number: line, file_path: quoted_value(s, c.0, c.1) })
    } else {
        Ok(DirectiveModel::Generic { line_number: line, keyword: kw, content: slice_of(s, c) })
    }
}

/// The text of the comment on `[f, e)`, `f` being its `#`.
pub open spec fn comment_text(s: Seq<char>, f: int, e: int) -> Seq<char> {
    let r = back_char(s, f, e, '\r');
    let h = skip_char(s, f, r, '#');
    slice_of(s, trimmed(s, h, r))
}

/// The shortcut a shortcut piece stands for.
pub open spec fn shortcut_model(s: Seq<char>, r: RawLineModel) -> Result<ShortcutModel, ErrorModel> {
    let c = trimmed(s, r.command.0, r.command.1);
    if c.0 == c.1 {
        Err(err_at(r.line_number, msg_command()))
    } else {
        Ok(
            ShortcutModel {
                line_number: r.line_number,
                modifiers: Seq::new(r.modifiers.len(), |i: int| slice_of(s, r.modifiers[i])),
                key: slice_of(s, r.key),
                command: slice_of(s, c),
                comment: None,
            },
        )
    }
}

/// The text between the brackets of a process map on `[lo, hi)`, `lo` just
/// after its `[`: trimmed, without the closing `]`.
pub open spec fn map_body(s: Seq<char>, lo: int, hi: int) -> (int, int) {
    let t = trimmed(s, lo, hi);
    if t.0 < t.1 && s[t.1 - 1] == ']' {
        trimmed(s, t.0, t.1 - 1)
    } else {
        t
    }
}

/// The mode switch a mode-switch piece stands for; a command that is blank is none.
pub open spec fn mode_switch_model(s: Seq<char>, r: RawLineModel) -> ModeSwitchModel {
    let c = trimmed(s, r.command.0, r.command.1);
    ModeSwitchModel {
        line_number: r.line_number,
        modifiers: Seq::new(r.modifiers.len(), |i: int| slice_of(s, r.modifiers[i])),
        key: slice_of(s, r.key),
        mode: slice_of(s, r.mode),
        command: if c.0 == c.1 {
            None
        } else {
            Some(slice_of(s, c))
        },
    }
}

/// The process map a process-map piece stands for.
pub open spec fn process_map_model(s: Seq<char>, r: RawLineModel) -> ProcessMapModel {
    ProcessMapModel {
        line_number: r.line_number,
        modifiers: Seq::new(r.modifiers.len(), |i: int| slice_of(s, r.modifiers[i])),
        key: slice_of(s, r.key),
        body: slice_of(
            s,
            if r.command.0 < r.command.1 {
                map_body(s, r.command.0 + 1, r.command.1)
            } else {
                (r.command.1, r.command.1)
            },
        ),
    }
}

/// The configuration line a piece stands for, or the problem with it.
pub open spec fn item_model(s: Seq<char>, r: RawLineModel) -> Result<LineModel, ErrorModel> {
    match r.kind {
        LineKind::Empty => Ok(LineModel::Empty(r.line_number)),
        LineKind::Comment => Ok(
            LineModel::Comment(
                CommentModel { line_number: r.line_number, text: comment_text(s, r.start, r.end) },
            ),
        ),
        LineKind::Shortcut => match shortcut_model(s, r) {
            Ok(m) => Ok(LineModel::Shortcut(m)),
            Err(e) => Err(e),
        },
        LineKind::Directive => match directive_model(s, r.line_number, r.start, r.end) {
            Ok(d) => Ok(LineModel::Directive(d)),
            Err(e) => Err(e),
        },
        LineKind::ModeSwitch => Ok(LineModel::ModeSwitch(mode_switch_model(s, r))),
        LineKind::ProcessMap => Ok(LineModel::ProcessMap(process_map_model(s, r))),
    }
}

/// The lines the pieces stand for, and the problems found, both in order.
pub open spec fn build(s: Seq<char>, items: Seq<RawLineModel>) -> (Seq<LineModel>, Seq<ErrorModel>)
    decreases items.len(),
{
    if items.len() == 0 {
        (Seq::empty(), Seq::empty())
    } else {
        let (ls, es) = build(s, items.drop_last());
        match item_model(s, items.last()) {
            Ok(l) => (ls.push(l), es),
            Err(e) => (ls, es.push(e)),
        }
    }
}

/// What parsing `s` yields: its lines when it has no problem, else every problem
/// found; a syntax error is reported alone.
pub open spec fn spec_parse_config(s: Seq<char>) -> Result<Seq<LineModel>, Seq<ErrorModel>> {
    match scan(s, 0) {
        Err(e) => Err(seq![e]),
        Ok(items) => {
            let (ls, es) = build(s, items);
            if es.len() == 0 {
                Ok(ls)
            } else {
                Err(es)
            }
        },
    }
}

pub open spec fn result_view<T: View, E: View>(r: Result<T, E>) -> Result<T::V, E::V> {
    match r {
        Ok(t) => Ok(t@),
        Err(e) => Err(e@),
    }
}

// ------------------------------------------------------------------
// Recognising the pieces
// ------------------------------------------------------------------

/// Every range in `v` is ordered and ends by `e`.
pub open spec fn ranges_within(v: Seq<(usize, usize)>, e: int) -> bool {
    forall|i: int| 0 <= i < v.len() ==> #[trigger] v[i].0 <= v[i].1 && v[i].1 <= e
}

pub open spec fn prepend_mods(
    acc: Seq<(int, int)>,
    r: Option<(Seq<(int, int)>, int)>,
) -> Option<(Seq<(int, int)>, int)> {
    match r {
        Some((ms, q)) => Some((acc + ms, q)),
        None => None,
    }
}

fn modifier_list_in(s: &Vec<char>, f: usize, e: usize) -> (r: Option<(Vec<(usize, usize)>, usize)>)
    requires
        f <= e <= s@.len(),
    ensures
        match r {
            None => modifier_list(s@, f as int, e as int) is None,
            Some((v, q)) => modifier_list(s@, f as int, e as int) == Some(
                (ranges_model(v@), q as int),
            ) && q <= e && ranges_within(v@, e as int),
        },
{
    let mut v: Vec<(usize, usize)> = Vec::new();
    let mut p = f;
    loop
        invariant
            f <= p <= e <= s@.len(),
            prepend_mods(ranges_model(v@), modifier_list(s@, p as int, e as int)) == modifier_list(
                s@,
                f as int,
                e as int,
            ),
            ranges_within(v@, e as int),
        decreases e - p,
    {
        let b = ident_end_in(s, p, e);
        if p >= e || b == p {
            return None;
        }
        let q = skip_ws_in(s, b, e);
        let ghost old_v = v@;
        v.push((p, b));
        proof {
            assert(ranges_model(v@) =~= ranges_model(old_v) + seq![(p as int, b as int)]);
        }
        if q < e && s[q] == '+' {
            let p2 = skip_ws_in(s, q + 1, e);
            proof {
                let r = modifier_list(s@, p2 as int, e as int);
                match r {
                    Some((rest, rr)) => {
                        assert(ranges_model(old_v) + (seq![(p as int, b as int)] + rest) =~= (
                        ranges_model(old_v) + seq![(p as int, b as int)]) + rest);
                    },
                    None => {},
                }
            }
            p = p2;
        } else {
            return Some((v, q));
        }
    }
}

fn shortcut_syntax_in(s: &Vec<char>, f: usize, e: usize) -> (r: Option<
    (Vec<(usize, usize)>, (usize, usize), usize),
>)
    requires
        f <= e <= s@.len(),
    ensures
        r is None ==> shortcut_syntax(s@, f as int, e as int) is None,
        r matches Some((v, k, c)) ==> shortcut_syntax(s@, f as int, e as int) == Some(
            (ranges_model(v@), (k.0 as int, k.1 as int), c as int),
        ),
        r matches Some((v, k, c)) ==> k.0 <= k.1 <= e && c <= e,
        r matches Some((v, k, c)) ==> ranges_within(v@, e as int),
{
    match modifier_list_in(s, f, e) {
        None => None,
        Some((ms, q)) => {
            proof {
                assert(ranges_model(ms@).len() == ms@.len());
            }
            if q < e && s[q] == '-' {
                let k0 = skip_ws_in(s, q + 1, e);
                let k1 = ident_end_in(s, k0, e);
                let r = skip_ws_in(s, k1, e);
                if k1 > k0 && r < e && s[r] == ':' {
                    Some((ms, (k0, k1), r + 1))
                } else {
                    None
                }
            } else if ms.len() == 1 && q < e && s[q] == ':' {
                let key = ms[0];
                let none: Vec<(usize, usize)> = Vec::new();
                proof {
                    assert(ranges_model(none@) =~= Seq::<(int, int)>::empty());
                }
                Some((none, key, q + 1))
            } else {
                None
            }
        },
    }
}

fn binding_syntax_in(s: &Vec<char>, f: usize, e: usize) -> (r: Option<
    (Vec<(usize, usize)>, (usize, usize), usize),
>)
    requires
        f <= e <= s@.len(),
    ensures
        r is None ==> binding_syntax(s@, f as int, e as int) is None,
        r matches Some((v, k, c)) ==> binding_syntax(s@, f as int, e as int) == Some(
            (ranges_model(v@), (k.0 as int, k.1 as int), c as int),
        ),
        r matches Some((v, k, c)) ==> f <= k.0 <= k.1 <= e && f <= c <= e,
        r matches Some((v, k, c)) ==> ranges_within(v@, e as int),
{
    proof {
        lemma_binding_bounds(s@, f as int, e as int);
    }
    match modifier_list_in(s, f, e) {
        None => None,
        Some((ms, q)) => {
            proof {
                assert(ranges_model(ms@).len() == ms@.len());
            }
            if q < e && s[q] == '-' {
                let k0 = skip_ws_in(s, q + 1, e);
                let k1 = ident_end_in(s, k0, e);
                if k1 > k0 {
                    let r = skip_ws_in(s, k1, e);
                    Some((ms, (k0, k1), r))
                } else {
                    None
                }
            } else if ms.len() == 1 {
                let key = ms[0];
                let none: Vec<(usize, usize)> = Vec::new();
                proof {
                    assert(ranges_model(none@) =~= Seq::<(int, int)>::empty());
                }
                Some((none, key, q))
            } else {
                None
            }
        },
    }
}

fn directive_end_in(s: &Vec<char>, f: usize) -> (r: Option<usize>)
    requires
        f <= s@.len(),
    ensures
        match r {
            None => directive_end(s@, f as int, 0, false) is None,
            Some(d) => directive_end(s@, f as int, 0, false) == Some(d as int) && f <= d <= s@.len(),
        },
{
    let n = s.len();
    let mut i = f;
    let mut depth: usize = 0;
    let mut quoted = false;
    proof {
        lemma_directive_end(s@, f as int, 0, false);
    }
    while i < n
        invariant
            n == s@.len(),
            f <= i <= n,
            depth <= i,
            directive_end(s@, i as int, depth as nat, quoted) == directive_end(
                s@,
                f as int,
                0,
                false,
            ),
        decreases n - i,
    {
        let c = s[i];
        if c == '\n' && depth == 0 {
            return Some(i);
        } else if quoted {
            quoted = c != '"';
        } else if c == '"' {
            quoted = true;
        } else if c == '[' || c == '{' {
            depth = depth + 1;
        } else if (c == ']' || c == '}') && depth > 0 {
            depth = depth - 1;
        }
        i = i + 1;
    }
    if depth == 0 {
        Some(n)
    } else {
        None
    }
}

fn newlines_in(s: &Vec<char>, lo: usize, hi: usize) -> (r: usize)
    requires
        lo <= hi <= s@.len(),
    ensures
        r == newlines(s@, lo as int, hi as int),
{
    let mut i = lo;
    let mut count: usize = 0;
    while i < hi
        invariant
            lo <= i <= hi <= s@.len(),
            count == newlines(s@, lo as int, i as int),
            count <= i - lo,
        decreases hi - i,
    {
        if s[i] == '\n' {
            count = count + 1;
        }
        i = i + 1;
        proof {
            lemma_newlines_bound(s@, lo as int, i as int);
        }
    }
    count
}

/// The text's pieces, in order, or the first syntax error in it.
pub fn scan_lines(s: &Vec<char>) -> (r: Result<Vec<RawLine>, ParseError>)
    ensures
        match r {
            Ok(v) => scan(s@, 0) == Ok::<_, ErrorModel>(raw_lines_model(v@)),
            Err(e) => scan(s@, 0) == Err::<Seq<RawLineModel>, _>(e@),
        },
        r matches Ok(v) ==> forall|i: int| 0 <= i < v@.len() ==> #[trigger] raw_ok(s@, v@[i]@),
{
    let n = s.len();
    let mut items: Vec<RawLine> = Vec::new();
    let mut p: usize = 0;
    let mut nl: usize = 0;
    while p < n
        invariant
            n == s@.len(),
            p <= n,
            nl == newlines(s@, 0, p as int),
            prepend_all(raw_lines_model(items@), scan(s@, p as int)) == scan(s@, 0),
            forall|i: int| 0 <= i < items@.len() ==> #[trigger] raw_ok(s@, items@[i]@),
        decreases n - p,
    {
        proof {
            lemma_newlines_bound(s@, 0, p as int);
        }
        let e = find_char_in(s, p, n, '\n');
        let f = skip_ws_in(s, p, e);
        let ln = nl + 1;
        let next: usize;
        let item: RawLine;
        if f == e {
            item = RawLine {
                kind: LineKind::Empty,
                line_number: ln,
                start: p,
                end: e,
                modifiers: Vec::new(),
                key: (0, 0),
                command: (0, 0),
                mode: (0, 0),
            };
            next = if e < n {
                e + 1
            } else {
                e
            };
        } else if s[f] == '#' {
            item = RawLine {
                kind: LineKind::Comment,
                line_number: ln,
                start: f,
                end: e,
                modifiers: Vec::new(),
                key: (0, 0),
                command: (0, 0),
                mode: (0, 0),
            };
            next = if e < n {
                e + 1
            } else {
                e
            };
        } else if s[f] == '.' {
            match directive_end_in(s, f) {
                None => {
                    return Err(
                        ParseError {
                            line_number: ln,
                            column: Some(f - p + 1),
                            message: owned("Syntax error: unclosed bracket in directive"),
                        },
                    );
                },
                Some(d) => {
                    item = RawLine {
                        kind: LineKind::Directive,
                        line_number: ln,
                        start: f,
                        end: d,
                        modifiers: Vec::new(),
                        key: (0, 0),
                        command: (0, 0),
                        mode: (0, 0),
                    };
                    next = if d < n {
                        d + 1
                    } else {
                        d
                    };
                },
            }
        } else {
            let unexpected = ParseError {
                line_number: ln,
                column: Some(f - p + 1),
                message: owned("Syntax error: expected a shortcut, comment, directive or empty line"),
            };
            match shortcut_syntax_in(s, f, e) {
                Some((ms, k, c)) => {
                    item = RawLine {
                        kind: LineKind::Shortcut,
                        line_number: ln,
                        start: f,
                        end: e,
                        modifiers: ms,
                        key: k,
                        command: (c, e),
                        mode: (0, 0),
                    };
                    next = if e < n {
                        e + 1
                    } else {
                        e
                    };
                },
                None => match binding_syntax_in(s, f, e) {
                    None => {
                        return Err(unexpected);
                    },
                    Some((ms, k, r)) => {
                        if r < e && s[r] == ';' {
                            let m0 = skip_ws_in(s, r + 1, e);
                            let m1 = ident_end_in(s, m0, e);
                            let q = skip_ws_in(s, m1, e);
                            if m1 > m0 && (q == e || s[q] == ':') {
                                item = RawLine {
                                    kind: LineKind::ModeSwitch,
                                    line_number: ln,
                                    start: f,
                                    end: e,
                                    modifiers: ms,
                                    key: k,
                                    command: if q == e {
                                        (e, e)
                                    } else {
                                        (q + 1, e)
                                    },
                                    mode: (m0, m1),
                                };
                                next = if e < n {
                                    e + 1
                                } else {
                                    e
                                };
                            } else {
                                return Err(unexpected);
                            }
                        } else if r < e && s[r] == '[' {
                            match directive_end_in(s, r) {
                                None => {
                                    return Err(
                                        ParseError {
                                            line_number: ln,
                                            column: Some(f - p + 1),
                                            message: owned(
                                                "Syntax error: unclosed bracket in process map",
                                            ),
                                        },
                                    );
                                },
                                Some(d) => {
                                    item = RawLine {
                                        kind: LineKind::ProcessMap,
                                        line_number: ln,
                                        start: f,
                                        end: d,
                                        modifiers: ms,
                                        key: k,
                                        command: (r, d),
                                        mode: (0, 0),
                                    };
                                    next = if d < n {
                                        d + 1
                                    } else {
                                        d
                                    };
                                },
                            }
                        } else {
                            return Err(unexpected);
                        }
                    },
                },
            }
        }
        let ghost old_items = items@;
        items.push(item);
        proof {
            if item.modifiers@.len() == 0 {
                assert(ranges_model(item.modifiers@) =~= Seq::<(int, int)>::empty());
            }
            assert(raw_lines_model(items@) =~= raw_lines_model(old_items).push(item@));
            assert(raw_lines_model(old_items) + (seq![item@] + scan(s@, next as int)->Ok_0)
                =~= raw_lines_model(items@) + scan(s@, next as int)->Ok_0);
            assert(raw_ok(s@, items@[items@.len() - 1]@));
        }
        let added = newlines_in(s, p, next);
        proof {
            lemma_newlines_split(s@, 0, p as int, next as int);
            lemma_newlines_bound(s@, 0, next as int);
        }
        nl = nl + added;
        p = next;
    }
    proof {
        assert(raw_lines_model(items@) + Seq::<RawLineModel>::empty() =~= raw_lines_model(items@));
    }
    Ok(items)
}

// ------------------------------------------------------------------
// Building the syntax tree
// ------------------------------------------------------------------

fn unquoted_in(s: &Vec<char>, lo: usize, hi: usize) -> (r: (usize, usize))
    requires
        lo <= hi <= s@.len(),
    ensures
        (r.0 as int, r.1 as int) == unquoted(s@, lo as int, hi as int),
        lo <= r.0 <= r.1 <= hi,
{
    let a = skip_char_in(s, lo, hi, '"');
    let b = back_char_in(s, a, hi, '"');
    (a, b)
}

fn find_sep_in(s: &Vec<char>, lo: usize, hi: usize) -> (r: usize)
    requires
        lo <= hi <= s@.len(),
    ensures
        r == find_sep(s@, lo as int, hi as int),
        lo <= r <= hi,
{
    let mut i = lo;
    while i < hi && !(s[i] == ',' || s[i] == '\n' || s[i] == '\r')
        invariant
            lo <= i <= hi <= s@.len(),
            find_sep(s@, lo as int, hi as int) == find_sep(s@, i as int, hi as int),
        decreases hi - i,
    {
        i = i + 1;
    }
    i
}

fn enclosed_in(s: &Vec<char>, lo: usize, hi: usize, open: char, close: char) -> (r: bool)
    requires
        lo <= hi <= s@.len(),
    ensures
        r == enclosed(s@, lo as int, hi as int, open, close),
{
    lo < hi && s[lo] == open && s[hi - 1] == close
}

/// The entries of the separated list on `[lo, hi)`.
fn list_pieces_in(src: &str, s: &Vec<char>, lo: usize, hi: usize) -> (r: Vec<String>)
    requires
        lo <= hi <= s@.len(),
        s@ == src@,
    ensures
        r.deep_view() == list_pieces(s@, lo as int, hi as int),
{
    let mut r: Vec<String> = Vec::new();
    let mut p = lo;
    let mut done = false;
    proof {
        assert(r.deep_view() =~= Seq::<Seq<char>>::empty());
    }
    while !done
        invariant
            lo <= p <= hi <= s@.len(),
            s@ == src@,
            !done ==> r.deep_view() + list_pieces(s@, p as int, hi as int) == list_pieces(
                s@,
                lo as int,
                hi as int,
            ),
            done ==> r.deep_view() == list_pieces(s@, lo as int, hi as int),
        decreases hi - p + if done {
            0int
        } else {
            1int
        },
    {
        let e = find_sep_in(s, p, hi);
        let t = trimmed_in(s, p, e);
        let ghost before = r.deep_view();
        if t.0 < t.1 {
            let u = unquoted_in(s, t.0, t.1);
            r.push(text_of(src, u.0, u.1));
            proof {
                assert(r.deep_view() =~= before.push(s@.subrange(u.0 as int, u.1 as int)));
            }
        }
        proof {
            let item = if t.0 < t.1 {
                seq![slice_of(s@, unquoted(s@, t.0 as int, t.1 as int))]
            } else {
                Seq::<Seq<char>>::empty()
            };
            assert(r.deep_view() =~= before + item);
            let rest = if e < hi {
                list_pieces(s@, e + 1, hi as int)
            } else {
                Seq::<Seq<char>>::empty()
            };
            assert(list_pieces(s@, p as int, hi as int) == item + rest);
            assert(before + (item + rest) =~= (before + item) + rest);
            if e >= hi {
                assert(r.deep_view() + rest =~= r.deep_view());
            }
        }
        if e < hi {
            p = e + 1;
        } else {
            done = true;
        }
    }
    r
}

fn parse_string_list_content(src: &str, s: &Vec<char>, lo: usize, hi: usize) -> (r: Vec<String>)
    requires
        lo <= hi <= s@.len(),
        s@ == src@,
    ensures
        r.deep_view() == string_list(s@, lo as int, hi as int),
{
    let t = trimmed_in(s, lo, hi);
    if enclosed_in(s, t.0, t.1, '[', ']') {
        list_pieces_in(src, s, t.0 + 1, t.1 - 1)
    } else {
        list_pieces_in(src, s, t.0, t.1)
    }
}

fn parse_alias_content(src: &str, s: &Vec<char>, line: usize, lo: usize, hi: usize) -> (r: Result<
    ZigDirective,
    ParseError,
>)
    requires
        lo <= hi <= s@.len(),
        s@ == src@,
    ensures
        result_view(r) == alias_model(s@, line, lo as int, hi as int),
{
    let sp = find_char_in(s, lo, hi, ' ');
    let name = trimmed_in(s, lo, sp);
    let value = if sp < hi {
        trimmed_in(s, sp + 1, hi)
    } else {
        (hi, hi)
    };
    if name.0 < name.1 && s[name.0] == '$' {
        Ok(
            ZigDirective::Alias {
                line_number: line,
                name: text_of(src, name.0, name.1),
                value: text_of(src, value.0, value.1),
            },
        )
    } else {
        Err(
            ParseError {
                line_number: line,
                column: None,
                message: owned("Alias directive must have a name starting with $"),
            },
        )
    }
}

fn parse_define_content(src: &str, s: &Vec<char>, line: usize, lo: usize, hi: usize) -> (r:
    Result<ZigDirective, ParseError>)
    requires
        lo <= hi <= s@.len(),
        s@ == src@,
    ensures
        result_view(r) == define_model(s@, line, lo as int, hi as int),
{
    let t = trimmed_in(s, lo, hi);
    let ob = find_char_in(s, t.0, t.1, '[');
    let cb = find_char_in(s, t.0, t.1, ']');
    let co = find_char_in(s, t.0, t.1, ':');
    if ob < t.1 && cb < t.1 && ob < co {
        let name = trimmed_in(s, t.0, ob);
        Ok(
            ZigDirective::DefineGroup {
                line_number: line,
                name: text_of(src, name.0, name.1),
                applications: parse_string_list_content(src, s, ob, t.1),
            },
        )
    } else if co < t.1 {
        let name = trimmed_in(s, t.0, co);
        let template = trimmed_in(s, co + 1, t.1);
        Ok(
            ZigDirective::DefineCommand {
                line_number: line,
                name: text_of(src, name.0, name.1),
                template: text_of(src, template.0, template.1),
            },
        )
    } else {
        Err(
            ParseError {
                line_number: line,
                column: None,
                message: owned(
                    "Define directive must be in group form [..] or command form : template",
                ),
            },
        )
    }
}

fn parse_path_content(src: &str, s: &Vec<char>, line: usize, lo: usize, hi: usize) -> (r:
    ZigDirective)
    requires
        lo <= hi <= s@.len(),
        s@ == src@,
    ensures
        r@ == path_model(s@, line, lo as int, hi as int),
{
    let t = trimmed_in(s, lo, hi);
    let paths = if enclosed_in(s, t.0, t.1, '[', ']') {
        parse_string_list_content(src, s, t.0, t.1)
    } else if enclosed_in(s, t.0, t.1, '"', '"') {
        let u = unquoted_in(s, t.0, t.1);
        let v = vec![text_of(src, u.0, u.1)];
        proof {
            assert(v.deep_view() =~= seq![slice_of(s@, unquoted(s@, t.0 as int, t.1 as int))]);
        }
        v
    } else {
        let v = vec![text_of(src, t.0, t.1)];
        proof {
            assert(v.deep_view() =~= seq![slice_of(s@, (t.0 as int, t.1 as int))]);
        }
        v
    };
    ZigDirective::Path { line_number: line, paths }
}

fn quoted_value_in(src: &str, s: &Vec<char>, lo: usize, hi: usize) -> (r: String)
    requires
        lo <= hi <= s@.len(),
        s@ == src@,
    ensures
        r@ == quoted_value(s@, lo as int, hi as int),
{
    let t = trimmed_in(s, lo, hi);
    let u = unquoted_in(s, t.0, t.1);
    text_of(src, u.0, u.1)
}

fn parse_shell_content(src: &str, s: &Vec<char>, line: usize, lo: usize, hi: usize) -> (r:
    ZigDirective)
    requires
        lo <= hi <= s@.len(),
        s@ == src@,
    ensures
        r@ == (DirectiveModel::Shell {
            line_number: line,
            shell_path: quoted_value(s@, lo as int, hi as int),
        }),
{
    ZigDirective::Shell { line_number: line, shell_path: quoted_value_in(src, s, lo, hi) }
}

fn parse_blacklist_content(src: &str, s: &Vec<char>, line: usize, lo: usize, hi: usize) -> (r:
    ZigDirective)
    requires
        lo <= hi <= s@.len(),
        s@ == src@,
    ensures
        r@ == (DirectiveModel::Blacklist {
            line_number: line,
            applications: string_list(
                s@,
                trimmed(s@, lo as int, hi as int).0,
                trimmed(s@, lo as int, hi as int).1,
            ),
        }),
{
    let t = trimmed_in(s, lo, hi);
    ZigDirective::Blacklist {
        line_number: line,
        applications: parse_string_list_content(src, s, t.0, t.1),
    }
}

fn parse_load_content(src: &str, s: &Vec<char>, line: usize, lo: usize, hi: usize) -> (r:
    ZigDirective)
    requires
        lo <= hi <= s@.len(),
        s@ == src@,
    ensures
        r@ == (DirectiveModel::Load {
            line_number: line,
            file_path: quoted_value(s@, lo as int, hi as int),
        }),
{
    ZigDirective::Load { line_number: line, file_path: quoted_value_in(src, s, lo, hi) }
}

fn parse_directive(src: &str, s: &Vec<char>, line: usize, f: usize, d: usize) -> (r: Result<
    ZigDirective,
    ParseError,
>)
    requires
        f <= d <= s@.len(),
        s@ == src@,
    ensures
        result_view(r) == directive_model(s@, line, f as int, d as int),
{
    let a = skip_char_in(s, f, d, '.');
    let b = back_ws_in(s, a, d);
    let k = find_ws_in(s, a, b);
    let c = trimmed_in(s, k, b);
    if k == a {
        return Err(
            ParseError {
                line_number: line,
                column: None,
                message: owned("Directive missing keyword"),
            },
        );
    }
    if range_is(s, a, k, "alias") {
        parse_alias_content(src, s, line, c.0, c.1)
    } else if range_is(s, a, k, "define") {
        parse_define_content(src, s, line, c.0, c.1)
    } else if range_is(s, a, k, "path") {
        Ok(parse_path_content(src, s, line, c.0, c.1))
    } else if range_is(s, a, k, "shell") {
        Ok(parse_shell_content(src, s, line, c.0, c.1))
    } else if range_is(s, a, k, "blacklist") {
        Ok(parse_blacklist_content(src, s, line, c.0, c.1))
    } else if range_is(s, a, k, "load") {
        Ok(parse_load_content(src, s, line, c.0, c.1))
    } else {
        Ok(
            ZigDirective::Generic {
                line_number: line,
                keyword: text_of(src, a, k),
                content: text_of(src, c.0, c.1),
            },
        )
    }
}

fn parse_comment(src: &str, s: &Vec<char>, line: usize, f: usize, e: usize) -> (r: ParsedComment)
    requires
        f <= e <= s@.len(),
        s@ == src@,
    ensures
        r@ == (CommentModel { line_number: line, text: comment_text(s@, f as int, e as int) }),
{
    let r = back_char_in(s, f, e, '\r');
    let h = skip_char_in(s, f, r, '#');
    let t = trimmed_in(s, h, r);
    ParsedComment { line_number: line, text: text_of(src, t.0, t.1) }
}

fn parse_shortcut(src: &str, s: &Vec<char>, raw: &RawLine) -> (r: Result<ParsedShortcut, ParseError>)
    requires
        s@ == src@,
        raw_ok(s@, raw@),
    ensures
        result_view(r) == shortcut_model(s@, raw@),
{
    let c = trimmed_in(s, raw.command.0, raw.command.1);
    if c.0 == c.1 {
        return Err(
            ParseError {
                line_number: raw.line_number,
                column: None,
                message: owned("Missing command specification"),
            },
        );
    }
    let mut modifiers: Vec<String> = Vec::new();
    let mut i: usize = 0;
    while i < raw.modifiers.len()
        invariant
            s@ == src@,
            raw_ok(s@, raw@),
            i <= raw.modifiers@.len(),
            modifiers.deep_view() == Seq::new(
                i as nat,
                |j: int| slice_of(s@, raw@.modifiers[j]),
            ),
        decreases raw.modifiers@.len() - i,
    {
        let m = raw.modifiers[i];
        proof {
            assert(raw@.modifiers[i as int] == (m.0 as int, m.1 as int));
            assert(0 <= raw@.modifiers[i as int].0 <= raw@.modifiers[i as int].1 <= s@.len());
        }
        let ghost before = modifiers.deep_view();
        let text = text_of(src, m.0, m.1);
        modifiers.push(text);
        proof {
            assert(modifiers.deep_view() =~= before.push(text@));
            assert(text@ == slice_of(s@, raw@.modifiers[i as int]));
            assert(modifiers.deep_view() =~= Seq::new(
                (i + 1) as nat,
                |j: int| slice_of(s@, raw@.modifiers[j]),
            ));
        }
        i = i + 1;
    }
    Ok(
        ParsedShortcut {
            line_number: raw.line_number,
            modifiers,
            key: text_of(src, raw.key.0, raw.key.1),
            command: text_of(src, c.0, c.1),
            comment: None,
        },
    )
}

fn modifier_texts(src: &str, s: &Vec<char>, raw: &RawLine) -> (r: Vec<String>)
    requires
        s@ == src@,
        raw_ok(s@, raw@),
    ensures
        r.deep_view() == Seq::new(raw@.modifiers.len(), |j: int| slice_of(s@, raw@.modifiers[j])),
{
    let mut modifiers: Vec<String> = Vec::new();
    let mut i: usize = 0;
    while i < raw.modifiers.len()
        invariant
            s@ == src@,
            raw_ok(s@, raw@),
            i <= raw.modifiers@.len(),
            modifiers.deep_view() == Seq::new(
                i as nat,
                |j: int| slice_of(s@, raw@.modifiers[j]),
            ),
        decreases raw.modifiers@.len() - i,
    {
        let m = raw.modifiers[i];
        proof {
            assert(raw@.modifiers[i as int] == (m.0 as int, m.1 as int));
            assert(0 <= raw@.modifiers[i as int].0 <= raw@.modifiers[i as int].1 <= s@.len());
        }
        let ghost before = modifiers.deep_view();
        let text = text_of(src, m.0, m.1);
        modifiers.push(text);
        proof {
            assert(modifiers.deep_view() =~= before.push(text@));
            assert(modifiers.deep_view() =~= Seq::new(
                (i + 1) as nat,
                |j: int| slice_of(s@, raw@.modifiers[j]),
            ));
        }
        i = i + 1;
    }
    modifiers
}

fn parse_mode_switch(src: &str, s: &Vec<char>, raw: &RawLine) -> (r: ParsedModeSwitch)
    requires
        s@ == src@,
        raw_ok(s@, raw@),
    ensures
        r@ == mode_switch_model(s@, raw@),
{
    let c = trimmed_in(s, raw.command.0, raw.command.1);
    let command = if c.0 == c.1 {
        None
    } else {
        Some(text_of(src, c.0, c.1))
    };
    ParsedModeSwitch {
        line_number: raw.line_number,
        modifiers: modifier_texts(src, s, raw),
        key: text_of(src, raw.key.0, raw.key.1),
        mode: text_of(src, raw.mode.0, raw.mode.1),
        command,
    }
}

fn parse_process_map(src: &str, s: &Vec<char>, raw: &RawLine) -> (r: ParsedProcessMap)
    requires
        s@ == src@,
        raw_ok(s@, raw@),
    ensures
        r@ == process_map_model(s@, raw@),
{
    let b = if raw.command.0 < raw.command.1 {
        let t = trimmed_in(s, raw.command.0 + 1, raw.command.1);
        if t.0 < t.1 && s[t.1 - 1] == ']' {
            trimmed_in(s, t.0, t.1 - 1)
        } else {
            t
        }
    } else {
        (raw.command.1, raw.command.1)
    };
    ParsedProcessMap {
        line_number: raw.line_number,
        modifiers: modifier_texts(src, s, raw),
        key: text_of(src, raw.key.0, raw.key.1),
        body: text_of(src, b.0, b.1),
    }
}

fn build_line(src: &str, s: &Vec<char>, raw: &RawLine) -> (r: Result<ConfigLine, ParseError>)
    requires
        s@ == src@,
        raw_ok(s@, raw@),
    ensures
        result_view(r) == item_model(s@, raw@),
{
    match raw.kind {
        LineKind::Empty => Ok(ConfigLine::Empty(raw.line_number)),
        LineKind::Comment => Ok(
            ConfigLine::Comment(parse_comment(src, s, raw.line_number, raw.start, raw.end)),
        ),
        LineKind::Shortcut => match parse_shortcut(src, s, raw) {
            Ok(sc) => Ok(ConfigLine::Shortcut(sc)),
            Err(e) => Err(e),
        },
        LineKind::Directive => match parse_directive(src, s, raw.line_number, raw.start, raw.end) {
            Ok(d) => Ok(ConfigLine::Directive(d)),
            Err(e) => Err(e),
        },
        LineKind::ModeSwitch => Ok(ConfigLine::ModeSwitch(parse_mode_switch(src, s, raw))),
        LineKind::ProcessMap => Ok(ConfigLine::ProcessMap(parse_process_map(src, s, raw))),
    }
}

/// The parser of the configuration grammar.
pub struct SkhdParser;

impl SkhdParser {
    /// The pieces of `content`, in order, or its first syntax error.
    pub fn parse(content: &str) -> (r: Result<Vec<RawLine>, ParseError>)
        ensures
            match r {
                Ok(v) => scan(content@, 0) == Ok::<_, ErrorModel>(raw_lines_model(v@)),
                Err(e) => scan(content@, 0) == Err::<Seq<RawLineModel>, _>(e@),
            },
    {
        let s = chars_of(content);
        scan_lines(&s)
    }
}

/// Parses an skhd configuration.
///
/// On success every line of the file is there, in order. A syntax error stops
/// the parse and is reported alone; otherwise every line that cannot be
/// interpreted is reported, in order.
pub fn parse_config(content: &str) -> (r: Result<ParsedConfig, Vec<ParseError>>)
    ensures
        match r {
            Ok(c) => spec_parse_config(content@) == Ok::<_, Seq<ErrorModel>>(c@),
            Err(es) => spec_parse_config(content@) == Err::<Seq<LineModel>, _>(errors_model(es@)),
        },
{
    let s = chars_of(content);
    let items = match scan_lines(&s) {
        Ok(items) => items,
        Err(e) => {
            let errors = vec![e];
            proof {
                assert(errors_model(errors@) =~= seq![errors@[0]@]);
            }
            return Err(errors);
        },
    };
    let mut lines: Vec<ConfigLine> = Vec::new();
    let mut errors: Vec<ParseError> = Vec::new();
    let mut i: usize = 0;
    while i < items.len()
        invariant
            s@ == content@,
            i <= items@.len(),
            forall|k: int| 0 <= k < items@.len() ==> #[trigger] raw_ok(s@, items@[k]@),
            build(s@, raw_lines_model(items@).take(i as int)) == (
                lines_model(lines@),
                errors_model(errors@),
            ),
        decreases items@.len() - i,
    {
        let ghost prefix = raw_lines_model(items@).take(i as int);
        let ghost next = raw_lines_model(items@).take(i + 1);
        proof {
            assert(next.drop_last() =~= prefix);
            assert(next.last() == items@[i as int]@);
        }
        let ghost old_lines = lines@;
        let ghost old_errors = errors@;
        match build_line(content, &s, &items[i]) {
            Ok(line) => {
                lines.push(line);
                proof {
                    assert(lines_model(lines@) =~= lines_model(old_lines).push(lines@.last()@));
                }
            },
            Err(e) => {
                errors.push(e);
                proof {
                    assert(errors_model(errors@) =~= errors_model(old_errors).push(errors@.last()@));
                }
            },
        }
        i = i + 1;
    }
    proof {
        assert(raw_lines_model(items@).take(items@.len() as int) =~= raw_lines_model(items@));
    }
    if errors.len() == 0 {
        Ok(ParsedConfig { lines })
    } else {
        Err(errors)
    }
}

// ------------------------------------------------------------------
// Laws
// ------------------------------------------------------------------

/// The line on which a configuration line starts.
pub open spec fn line_of(l: LineModel) -> usize {
    match l {
        LineModel::Shortcut(m) => m.line_number,
        LineModel::Comment(c) => c.line_number,
        LineModel::Empty(n) => n,
        LineModel::Directive(d) => directive_line(d),
        LineModel::ModeSwitch(m) => m.line_number,
        LineModel::ProcessMap(m) => m.line_number,
    }
}

proof fn lemma_directive_end_newline(s: Seq<char>, i: int, depth: nat, quoted: bool)
    requires
        0 <= i <= s.len(),
    ensures
        directive_end(s, i, depth, quoted) matches Some(d) ==> (d == s.len() || (d < s.len()
            && s[d] == '\n')),
    decreases s.len() - i,
{
    if i < s.len() {
        let c = s[i];
        if c == '\n' && depth == 0 {
        } else if quoted {
            lemma_directive_end_newline(s, i + 1, depth, c != '"');
        } else if c == '"' {
            lemma_directive_end_newline(s, i + 1, depth, true);
        } else if c == '[' || c == '{' {
            lemma_directive_end_newline(s, i + 1, depth + 1, false);
        } else if (c == ']' || c == '}') && depth > 0 {
            lemma_directive_end_newline(s, i + 1, (depth - 1) as nat, false);
        } else {
            lemma_directive_end_newline(s, i + 1, depth, false);
        }
    }
}

/// Where the piece that starts on the line at `p` ends: the end of the line,
/// or, for a directive or process map, where its brackets close.
pub open spec fn piece_stop(s: Seq<char>, p: int) -> int {
    let e = line_end(s, p);
    let f = skip_ws(s, p, e);
    if f < e && s[f] == '.' {
        match directive_end(s, f, 0, false) {
            Some(d) => d,
            None => e,
        }
    } else if f < e && s[f] != '#' && shortcut_syntax(s, f, e) is None {
        match binding_syntax(s, f, e) {
            Some((_, _, r)) => if r < e && s[r] == '[' {
                match directive_end(s, r, 0, false) {
                    Some(d) => d,
                    None => e,
                }
            } else {
                e
            },
            None => e,
        }
    } else {
        e
    }
}

/// Moving past a line feed at or after `p` moves to a later line.
proof fn lemma_next_line(s: Seq<char>, p: int, e: int)
    requires
        0 <= p <= e < s.len(),
        s[e] == '\n',
    ensures
        line_at(s, e + 1) >= line_at(s, p) + 1,
{
    lemma_newlines_split(s, 0, p, e);
    lemma_newlines_split(s, 0, e, e + 1);
    lemma_newlines_bound(s, p, e);
    assert(newlines(s, e, e + 1) == newlines(s, e, e) + 1);
}

/// The pieces from `p` on lie on strictly increasing lines, none before `p`'s.
proof fn lemma_scan_ordered(s: Seq<char>, p: int)
    requires
        0 <= p <= s.len(),
        s.len() <= usize::MAX,
    ensures
        scan(s, p) matches Ok(v) ==> {
            &&& forall|i: int, j: int|
                0 <= i < j < v.len() ==> v[i].line_number < v[j].line_number
            &&& forall|i: int| 0 <= i < v.len() ==> line_at(s, p) <= v[i].line_number
        },
    decreases s.len() - p,
{
    if p < s.len() {
        let e = line_end(s, p);
        let f = skip_ws(s, p, e);
        let ln = line_at(s, p);
        lemma_find_char(s, p, s.len() as int, '\n');
        lemma_skip_ws(s, p, e);
        lemma_directive_end(s, f, 0, false);
        lemma_directive_end_newline(s, f, 0, false);
        lemma_newlines_bound(s, 0, p);
        // The end of the piece, and where the next one starts.
        lemma_binding_bounds(s, f, e);
        let stop = piece_stop(s, p);
        if let Some((_, _, r)) = binding_syntax(s, f, e) {
            lemma_directive_end(s, r, 0, false);
            lemma_directive_end_newline(s, r, 0, false);
        }
        let q = after(s, stop);
        assert(p <= stop <= s.len());
        lemma_scan_ordered(s, q);
        if stop < s.len() {
            lemma_next_line(s, p, stop);
            lemma_newlines_bound(s, 0, q);
        }
        if let Ok(v) = scan(s, p) {
            if let Ok(rest) = scan(s, q) {
                assert forall|i: int, j: int| 0 <= i < j < v.len() implies v[i].line_number
                    < v[j].line_number by {
                    if i == 0 {
                        assert(v[j] == rest[j - 1]);
                    } else {
                        assert(v[i] == rest[i - 1]);
                        assert(v[j] == rest[j - 1]);
                    }
                }
                assert forall|i: int| 0 <= i < v.len() implies line_at(s, p)
                    <= v[i].line_number by {
                    if i > 0 {
                        assert(v[i] == rest[i - 1]);
                    }
                }
            }
        }
    }
}

/// Every line that a piece stands for starts on the piece's own line.
proof fn lemma_item_line(s: Seq<char>, r: RawLineModel)
    ensures
        item_model(s, r) matches Ok(l) ==> line_of(l) == r.line_number,
        item_model(s, r) matches Err(e) ==> e.line_number == r.line_number,
{
}

/// Building keeps the order of the pieces' lines, for lines and problems alike.
proof fn lemma_build_ordered(s: Seq<char>, items: Seq<RawLineModel>)
    requires
        forall|i: int, j: int|
            0 <= i < j < items.len() ==> items[i].line_number < items[j].line_number,
    ensures
        ({
            let (ls, es) = build(s, items);
            &&& forall|i: int, j: int|
                0 <= i < j < ls.len() ==> line_of(ls[i]) < line_of(ls[j])
            &&& forall|i: int, j: int|
                0 <= i < j < es.len() ==> es[i].line_number < es[j].line_number
            &&& forall|k: int|
                #![trigger ls[k]]
                0 <= k < ls.len() ==> exists|i: int|
                    #![trigger items[i]]
                    0 <= i < items.len() && line_of(ls[k]) == items[i].line_number
            &&& forall|k: int|
                #![trigger es[k]]
                0 <= k < es.len() ==> exists|i: int|
                    #![trigger items[i]]
                    0 <= i < items.len() && es[k].line_number == items[i].line_number
        }),
    decreases items.len(),
{
    if items.len() > 0 {
        let prev = items.drop_last();
        lemma_build_ordered(s, prev);
        lemma_item_line(s, items.last());
        let (ls0, es0) = build(s, prev);
        let (ls, es) = build(s, items);
        let last = items.len() - 1;
        assert forall|k: int| 0 <= k < ls0.len() implies line_of(ls0[k]) < items[last].line_number by {
            let i = choose|i: int| 0 <= i < prev.len() && line_of(ls0[k]) == prev[i].line_number;
            assert(prev[i] == items[i]);
        }
        assert forall|k: int| 0 <= k < es0.len() implies es0[k].line_number < items[last].line_number by {
            let i = choose|i: int| 0 <= i < prev.len() && es0[k].line_number == prev[i].line_number;
            assert(prev[i] == items[i]);
        }
        assert forall|k: int| #![trigger ls[k]] 0 <= k < ls.len() implies exists|i: int|
            #![trigger items[i]] 0 <= i < items.len() && line_of(ls[k]) == items[i].line_number by {
            if k < ls0.len() {
                let i = choose|i: int| 0 <= i < prev.len() && line_of(ls0[k]) == prev[i].line_number;
                assert(prev[i] == items[i]);
                assert(ls[k] == ls0[k]);
            } else {
                assert(line_of(ls[k]) == items[last].line_number);
            }
        }
        assert forall|k: int| #![trigger es[k]] 0 <= k < es.len() implies exists|i: int|
            #![trigger items[i]] 0 <= i < items.len() && es[k].line_number == items[i].line_number by {
            if k < es0.len() {
                let i = choose|i: int| 0 <= i < prev.len() && es0[k].line_number == prev[i].line_number;
                assert(prev[i] == items[i]);
                assert(es[k] == es0[k]);
            } else {
                assert(es[k].line_number == items[last].line_number);
            }
        }
    }
}

/// A configuration is read in file order: the lines of a successful parse lie on
/// strictly increasing line numbers, none before line 1, and so do the problems
/// of a failed one.
pub proof fn law_parse_keeps_file_order(s: Seq<char>)
    requires
        s.len() <= usize::MAX,
    ensures
        match spec_parse_config(s) {
            Ok(ls) => (forall|i: int, j: int|
                0 <= i < j < ls.len() ==> line_of(ls[i]) < line_of(ls[j])) && (forall|i: int|
                0 <= i < ls.len() ==> line_of(ls[i]) >= 1),
            Err(es) => forall|i: int, j: int|
                0 <= i < j < es.len() ==> es[i].line_number < es[j].line_number,
        },
{
    lemma_scan_ordered(s, 0);
    assert(newlines(s, 0, 0) == 0);
    if let Ok(items) = scan(s, 0) {
        lemma_build_ordered(s, items);
        let (ls, es) = build(s, items);
        assert forall|k: int| 0 <= k < ls.len() implies line_of(ls[k]) >= 1 by {
            let i = choose|i: int| 0 <= i < items.len() && line_of(ls[k]) == items[i].line_number;
        }
    }
}

/// A text with no blank at either end.
pub open spec fn is_trimmed(t: Seq<char>) -> bool {
    t.len() == 0 || (!is_ws(t[0]) && !is_ws(t[t.len() - 1]))
}

proof fn lemma_trimmed_slice(s: Seq<char>, lo: int, hi: int)
    requires
        0 <= lo <= hi <= s.len(),
    ensures
        lo <= trimmed(s, lo, hi).0 <= trimmed(s, lo, hi).1 <= hi,
        is_trimmed(slice_of(s, trimmed(s, lo, hi))),
{
    lemma_skip_ws(s, lo, hi);
    let a = skip_ws(s, lo, hi);
    lemma_back_ws(s, a, hi);
    let b = back_ws(s, a, hi);
    let t = slice_of(s, (a, b));
    if a < b {
        assert(t[0] == s[a]);
        assert(t[t.len() - 1] == s[b - 1]);
    }
}

proof fn lemma_modifier_list_bounds(s: Seq<char>, p: int, e: int)
    requires
        0 <= p <= e,
    ensures
        modifier_list(s, p, e) matches Some((ms, q)) ==> ms.len() >= 1 && p <= ms[0].0 < ms[0].1
            <= e && p <= q <= e,
    decreases e - p,
{
    if p < e {
        lemma_ident_end(s, p, e);
        let b = ident_end(s, p, e);
        if b != p {
            lemma_skip_ws(s, b, e);
            let q = skip_ws(s, b, e);
            if q < e && s[q] == '+' {
                lemma_skip_ws(s, q + 1, e);
                lemma_modifier_list_bounds(s, skip_ws(s, q + 1, e), e);
            }
        }
    }
}

proof fn lemma_shortcut_syntax_bounds(s: Seq<char>, f: int, e: int)
    requires
        0 <= f <= e,
    ensures
        shortcut_syntax(s, f, e) matches Some((ms, k, c)) ==> f <= k.0 < k.1 <= e && f <= c <= e,
{
    lemma_modifier_list_bounds(s, f, e);
    if let Some((ms, q)) = modifier_list(s, f, e) {
        if q < e && s[q] == '-' {
            lemma_skip_ws(s, q + 1, e);
            let k0 = skip_ws(s, q + 1, e);
            lemma_ident_end(s, k0, e);
            lemma_skip_ws(s, ident_end(s, k0, e), e);
        }
    }
}

/// A piece lies within the text, and a shortcut's key is not empty.
pub open spec fn piece_ok(s: Seq<char>, r: RawLineModel) -> bool {
    &&& 0 <= r.start <= r.end <= s.len()
    &&& r.kind == LineKind::Shortcut ==> 0 <= r.key.0 < r.key.1 <= s.len() && 0 <= r.command.0
        <= r.command.1 <= s.len()
}

/// The first piece from `p` on is sound, and the others are those from where it stops.
#[verifier::spinoff_prover]
#[verifier::rlimit(40)]
proof fn lemma_scan_first(s: Seq<char>, p: int)
    requires
        0 <= p < s.len(),
    ensures
        scan(s, p) matches Ok(v) ==> v.len() > 0 && piece_ok(s, v[0]) && scan(
            s,
            after(s, piece_stop(s, p)),
        ) == Ok::<_, ErrorModel>(v.drop_first()),
{
    let e = line_end(s, p);
    let f = skip_ws(s, p, e);
    lemma_find_char(s, p, s.len() as int, '\n');
    lemma_skip_ws(s, p, e);
    lemma_directive_end(s, f, 0, false);
    lemma_shortcut_syntax_bounds(s, f, e);
    lemma_binding_bounds(s, f, e);
    let ln = line_at(s, p);
    let none = (0int, 0int);
    if f == e {
        lemma_prepend(raw(LineKind::Empty, ln, p, e, Seq::empty(), none, none), scan(s, after(s, e)));
    } else if s[f] == '#' {
        lemma_prepend(raw(LineKind::Comment, ln, f, e, Seq::empty(), none, none), scan(s, after(s, e)));
    } else if s[f] == '.' {
        if let Some(d) = directive_end(s, f, 0, false) {
            lemma_prepend(
                raw(LineKind::Directive, ln, f, d, Seq::empty(), none, none),
                scan(s, after(s, d)),
            );
        }
    } else if let Some((ms, k, c)) = shortcut_syntax(s, f, e) {
        lemma_prepend(raw(LineKind::Shortcut, ln, f, e, ms, k, (c, e)), scan(s, after(s, e)));
    } else if let Some((ms, k, r)) = binding_syntax(s, f, e) {
        lemma_directive_end(s, r, 0, false);
        if r < e && s[r] == ';' {
            let m0 = skip_ws(s, r + 1, e);
            let m1 = ident_end(s, m0, e);
            let q = skip_ws(s, m1, e);
            if m1 > m0 && (q == e || s[q] == ':') {
                lemma_prepend(
                    RawLineModel {
                        kind: LineKind::ModeSwitch,
                        line_number: ln as usize,
                        start: f,
                        end: e,
                        modifiers: ms,
                        key: k,
                        command: if q == e {
                            (e, e)
                        } else {
                            (q + 1, e)
                        },
                        mode: (m0, m1),
                    },
                    scan(s, after(s, e)),
                );
            }
        } else if r < e && s[r] == '[' {
            if let Some(d) = directive_end(s, r, 0, false) {
                lemma_prepend(
                    RawLineModel {
                        kind: LineKind::ProcessMap,
                        line_number: ln as usize,
                        start: f,
                        end: d,
                        modifiers: ms,
                        key: k,
                        command: (r, d),
                        mode: (0, 0),
                    },
                    scan(s, after(s, d)),
                );
            }
        }
    }
}

proof fn lemma_prepend(x: RawLineModel, r: Result<Seq<RawLineModel>, ErrorModel>)
    ensures
        prepend(x, r) matches Ok(v) ==> v.len() > 0 && v[0] == x && r == Ok::<_, ErrorModel>(
            v.drop_first(),
        ),
{
    if let Ok(rest) = r {
        assert((seq![x] + rest).drop_first() =~= rest);
    }
}

/// The pieces from `p` on lie within the text, and a shortcut's key is not empty.
proof fn lemma_scan_bounds(s: Seq<char>, p: int)
    requires
        0 <= p <= s.len(),
    ensures
        scan(s, p) matches Ok(v) ==> forall|i: int|
            0 <= i < v.len() ==> {
                &&& 0 <= #[trigger] v[i].start <= v[i].end <= s.len()
                &&& v[i].kind == LineKind::Shortcut ==> 0 <= v[i].key.0 < v[i].key.1 <= s.len()
                    && 0 <= v[i].command.0 <= v[i].command.1 <= s.len()
            },
    decreases s.len() - p,
{
    if p < s.len() {
        let e = line_end(s, p);
        lemma_find_char(s, p, s.len() as int, '\n');
        lemma_skip_ws(s, p, e);
        let f = skip_ws(s, p, e);
        lemma_directive_end(s, f, 0, false);
        lemma_binding_bounds(s, f, e);
        if let Some((_, _, r)) = binding_syntax(s, f, e) {
            lemma_directive_end(s, r, 0, false);
        }
        let q = after(s, piece_stop(s, p));
        assert(p <= piece_stop(s, p) <= s.len());
        lemma_scan_first(s, p);
        lemma_scan_bounds(s, q);
        if let Ok(v) = scan(s, p) {
            let rest = v.drop_first();
            assert forall|i: int| 0 <= i < v.len() implies {
                &&& 0 <= #[trigger] v[i].start <= v[i].end <= s.len()
                &&& v[i].kind == LineKind::Shortcut ==> 0 <= v[i].key.0 < v[i].key.1 <= s.len()
                    && 0 <= v[i].command.0 <= v[i].command.1 <= s.len()
            } by {
                if i > 0 {
                    let w = scan(s, q)->Ok_0;
                    assert(w == rest);
                    assert(v[i] == w[i - 1]);
                    assert(0 <= w[i - 1].start <= w[i - 1].end <= s.len());
                } else {
                    assert(piece_ok(s, v[0]));
                }
            }
        }
    }
}

pub open spec fn line_well_formed(l: LineModel) -> bool {
    &&& l matches LineModel::Shortcut(m) ==> m.key.len() > 0 && m.command.len() > 0 && is_trimmed(
        m.command,
    ) && m.comment is None
    &&& l matches LineModel::Comment(c) ==> is_trimmed(c.text)
}

proof fn lemma_build_well_formed(s: Seq<char>, items: Seq<RawLineModel>)
    requires
        forall|i: int|
            0 <= i < items.len() ==> {
                &&& 0 <= #[trigger] items[i].start <= items[i].end <= s.len()
                &&& items[i].kind == LineKind::Shortcut ==> 0 <= items[i].key.0 < items[i].key.1
                    <= s.len() && 0 <= items[i].command.0 <= items[i].command.1 <= s.len()
            },
    ensures
        forall|k: int| 0 <= k < build(s, items).0.len() ==> line_well_formed(#[trigger] build(s, items).0[k]),
    decreases items.len(),
{
    if items.len() > 0 {
        let prev = items.drop_last();
        assert forall|i: int| 0 <= i < prev.len() implies {
            &&& 0 <= #[trigger] prev[i].start <= prev[i].end <= s.len()
            &&& prev[i].kind == LineKind::Shortcut ==> 0 <= prev[i].key.0 < prev[i].key.1
                <= s.len() && 0 <= prev[i].command.0 <= prev[i].command.1 <= s.len()
        } by {
            assert(prev[i] == items[i]);
        }
        lemma_build_well_formed(s, prev);
        let r = items.last();
        assert(0 <= items[items.len() - 1].start);
        let (ls0, es0) = build(s, prev);
        if r.kind == LineKind::Shortcut {
            lemma_trimmed_slice(s, r.command.0, r.command.1);
        }
        if r.kind == LineKind::Comment {
            lemma_back_char(s, r.start, r.end, '\r');
            let rr = back_char(s, r.start, r.end, '\r');
            lemma_skip_char(s, r.start, rr, '#');
            lemma_trimmed_slice(s, skip_char(s, r.start, rr, '#'), rr);
        }
        let ls = build(s, items).0;
        assert forall|k: int| 0 <= k < ls.len() implies line_well_formed(#[trigger] ls[k]) by {
            if k < ls0.len() {
                assert(ls[k] == ls0[k]);
            }
        }
    }
}

/// A successful parse gives lines on strictly rising line numbers from 1 on;
/// every shortcut has a key and a command, the command without blanks at
/// either end, and no inline comment; every comment's text has no blanks at
/// either end.
pub proof fn law_parsed_lines_are_well_formed(s: Seq<char>)
    requires
        s.len() <= usize::MAX,
    ensures
        spec_parse_config(s) matches Ok(ls) ==> {
            &&& forall|i: int, j: int| 0 <= i < j < ls.len() ==> line_of(ls[i]) < line_of(ls[j])
            &&& forall|i: int| 0 <= i < ls.len() ==> line_of(ls[i]) >= 1
            &&& forall|i: int| 0 <= i < ls.len() ==> line_well_formed(#[trigger] ls[i])
        },
{
    law_parse_keeps_file_order(s);
    lemma_scan_bounds(s, 0);
    if let Ok(items) = scan(s, 0) {
        lemma_build_well_formed(s, items);
    }
}

/// A directive is named by the keyword it was written with: `.alias` lines are
/// named `alias`, both forms of `.define` are named `define`, `.blacklist` lines
/// `blacklist`, and so on for every keyword, known or not. Directive counts thus
/// count each line under its own keyword.
pub proof fn law_directive_named_by_keyword(s: Seq<char>, line: usize, f: int, d: int)
    requires
        directive_model(s, line, f, d) is Ok,
    ensures
        ({
            let a = skip_char(s, f, d, '.');
            let k = find_ws(s, a, back_ws(s, a, d));
            directive_name_of(directive_model(s, line, f, d)->Ok_0) == s.subrange(a, k)
        }),
{
    let a = skip_char(s, f, d, '.');
    let b = back_ws(s, a, d);
    let k = find_ws(s, a, b);
    let c = trimmed(s, k, b);
    let kw = s.subrange(a, k);
    reveal_strlit("alias");
    reveal_strlit("define");
    reveal_strlit("path");
    reveal_strlit("shell");
    reveal_strlit("blacklist");
    reveal_strlit("load");
    assert("define"@.len() != "alias"@.len());
    assert("path"@.len() != "alias"@.len() && "path"@.len() != "define"@.len());
    assert("shell"@[0] != "alias"@[0] && "shell"@.len() != "define"@.len() && "shell"@.len()
        != "path"@.len());
    assert("blacklist"@.len() != "alias"@.len() && "blacklist"@.len() != "define"@.len()
        && "blacklist"@.len() != "path"@.len() && "blacklist"@.len() != "shell"@.len());
    assert("load"@.len() != "alias"@.len() && "load"@.len() != "define"@.len() && "load"@[0]
        != "path"@[0] && "load"@.len() != "shell"@.len() && "load"@.len() != "blacklist"@.len());
}

} // verus!
