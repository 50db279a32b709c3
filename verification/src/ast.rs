//! The syntax tree of an skhd configuration file and its mathematical model.
use vstd::prelude::*;

use crate::text::{contains_str, owned, seq_contains};

verus! {

/// A keyboard shortcut: `modifiers - key : command`.
#[derive(Debug, Clone, PartialEq)]
pub struct ParsedShortcut {
    /// Line number in the configuration file (1-based).
    pub line_number: usize,
    /// Modifier names, in the order written.
    pub modifiers: Vec<String>,
    /// The key being pressed.
    pub key: String,
    /// The shell command to run.
    pub command: String,
    /// Optional inline comment.
    pub comment: Option<String>,
}

/// A comment line, without its leading `#`.
#[derive(Debug, Clone, PartialEq)]
pub struct ParsedComment {
    pub line_number: usize,
    pub text: String,
}

/// A dot directive of skhd.zig, kept for read-only display.
#[derive(Debug, Clone, PartialEq)]
pub enum ZigDirective {
    /// `.alias $name <modifier combination | keycode>`
    Alias { line_number: usize, name: String, value: String },
    /// `.define <name> [ "app1", "app2" ]`
    DefineGroup { line_number: usize, name: String, applications: Vec<String> },
    /// `.define <name> : <command template>`
    DefineCommand { line_number: usize, name: String, template: String },
    /// `.path "<dir>"` or `.path [ "dir1", "dir2" ]`
    Path { line_number: usize, paths: Vec<String> },
    /// `.shell "<shell path>"`
    Shell { line_number: usize, shell_path: String },
    /// `.blacklist [ "app1", "app2" ]`
    Blacklist { line_number: usize, applications: Vec<String> },
    /// `.load "<file path>"`
    Load { line_number: usize, file_path: String },
    /// Any other directive, kept as keyword and raw content.
    Generic { line_number: usize, keyword: String, content: String },
}

/// A binding that switches to a mode: `<binding> ; <mode>`, with the command run
/// on the switch when one follows a `:`.
#[derive(Debug, Clone, PartialEq)]
pub struct ParsedModeSwitch {
    pub line_number: usize,
    pub modifiers: Vec<String>,
    pub key: String,
    pub mode: String,
    pub command: Option<String>,
}

/// A binding whose command depends on the application in front:
/// `<binding> [ ... ]`. Its entries (`"app" : command`, `@group : command`,
/// `* : command`, one per line) are kept as written, between the brackets.
#[derive(Debug, Clone, PartialEq)]
pub struct ParsedProcessMap {
    pub line_number: usize,
    pub modifiers: Vec<String>,
    pub key: String,
    pub body: String,
}

/// One line (or, for a directive with a bracketed block, several lines) of a configuration.
#[derive(Debug, Clone, PartialEq)]
pub enum ConfigLine {
    Shortcut(ParsedShortcut),
    Comment(ParsedComment),
    /// An empty line, with its line number.
    Empty(usize),
    Directive(ZigDirective),
    ModeSwitch(ParsedModeSwitch),
    ProcessMap(ParsedProcessMap),
}

/// A whole configuration file, its lines in order.
#[derive(Debug, Clone, PartialEq)]
pub struct ParsedConfig {
    pub lines: Vec<ConfigLine>,
}

// ------------------------------------------------------------------
// Models
// ------------------------------------------------------------------

pub struct ShortcutModel {
    pub line_number: usize,
    pub modifiers: Seq<Seq<char>>,
    pub key: Seq<char>,
    pub command: Seq<char>,
    pub comment: Option<Seq<char>>,
}

pub struct CommentModel {
    pub line_number: usize,
    pub text: Seq<char>,
}

pub enum DirectiveModel {
    Alias { line_number: usize, name: Seq<char>, value: Seq<char> },
    DefineGroup { line_number: usize, name: Seq<char>, applications: Seq<Seq<char>> },
    DefineCommand { line_number: usize, name: Seq<char>, template: Seq<char> },
    Path { line_number: usize, paths: Seq<Seq<char>> },
    Shell { line_number: usize, shell_path: Seq<char> },
    Blacklist { line_number: usize, applications: Seq<Seq<char>> },
    Load { line_number: usize, file_path: Seq<char> },
    Generic { line_number: usize, keyword: Seq<char>, content: Seq<char> },
}

pub struct ModeSwitchModel {
    pub line_number: usize,
    pub modifiers: Seq<Seq<char>>,
    pub key: Seq<char>,
    pub mode: Seq<char>,
    pub command: Option<Seq<char>>,
}

pub struct ProcessMapModel {
    pub line_number: usize,
    pub modifiers: Seq<Seq<char>>,
    pub key: Seq<char>,
    pub body: Seq<char>,
}

pub enum LineModel {
    Shortcut(ShortcutModel),
    Comment(CommentModel),
    Empty(usize),
    Directive(DirectiveModel),
    ModeSwitch(ModeSwitchModel),
    ProcessMap(ProcessMapModel),
}

impl View for ParsedModeSwitch {
    type V = ModeSwitchModel;

    open spec fn view(&self) -> ModeSwitchModel {
        ModeSwitchModel {
            line_number: self.line_number,
            modifiers: self.modifiers.deep_view(),
            key: self.key@,
            mode: self.mode@,
            command: self.command.deep_view(),
        }
    }
}

impl View for ParsedProcessMap {
    type V = ProcessMapModel;

    open spec fn view(&self) -> ProcessMapModel {
        ProcessMapModel {
            line_number: self.line_number,
            modifiers: self.modifiers.deep_view(),
            key: self.key@,
            body: self.body@,
        }
    }
}

impl View for ParsedShortcut {
    type V = ShortcutModel;

    open spec fn view(&self) -> ShortcutModel {
        ShortcutModel {
            line_number: self.line_number,
            modifiers: self.modifiers.deep_view(),
            key: self.key@,
            command: self.command@,
            comment: self.comment.deep_view(),
        }
    }
}

impl View for ParsedComment {
    type V = CommentModel;

    open spec fn view(&self) -> CommentModel {
        CommentModel { line_number: self.line_number, text: self.text@ }
    }
}

impl View for ZigDirective {
    type V = DirectiveModel;

    open spec fn view(&self) -> DirectiveModel {
        match self {
            ZigDirective::Alias { line_number, name, value } => DirectiveModel::Alias {
                line_number: *line_number,
                name: name@,
                value: value@,
            },
            ZigDirective::DefineGroup { line_number, name, applications } =>
                DirectiveModel::DefineGroup {
                line_number: *line_number,
                name: name@,
                applications: applications.deep_view(),
            },
            ZigDirective::DefineCommand { line_number, name, template } =>
                DirectiveModel::DefineCommand {
                line_number: *line_number,
                name: name@,
                template: template@,
            },
            ZigDirective::Path { line_number, paths } => DirectiveModel::Path {
                line_number: *line_number,
                paths: paths.deep_view(),
            },
            ZigDirective::Shell { line_number, shell_path } => DirectiveModel::Shell {
                line_number: *line_number,
                shell_path: shell_path@,
            },
            ZigDirective::Blacklist { line_number, applications } => DirectiveModel::Blacklist {
                line_number: *line_number,
                applications: applications.deep_view(),
            },
            ZigDirective::Load { line_number, file_path } => DirectiveModel::Load {
                line_number: *line_number,
                file_path: file_path@,
            },
            ZigDirective::Generic { line_number, keyword, content } => DirectiveModel::Generic {
                line_number: *line_number,
                keyword: keyword@,
                content: content@,
            },
        }
    }
}

impl View for ConfigLine {
    type V = LineModel;

    open spec fn view(&self) -> LineModel {
        match self {
            ConfigLine::Shortcut(s) => LineModel::Shortcut(s@),
            ConfigLine::Comment(c) => LineModel::Comment(c@),
            ConfigLine::Empty(n) => LineModel::Empty(*n),
            ConfigLine::Directive(d) => LineModel::Directive(d@),
            ConfigLine::ModeSwitch(m) => LineModel::ModeSwitch(m@),
            ConfigLine::ProcessMap(m) => LineModel::ProcessMap(m@),
        }
    }
}

/// The models of a sequence of lines.
pub open spec fn lines_model(v: Seq<ConfigLine>) -> Seq<LineModel> {
    Seq::new(v.len(), |i: int| v[i]@)
}

impl View for ParsedConfig {
    type V = Seq<LineModel>;

    open spec fn view(&self) -> Seq<LineModel> {
        lines_model(self.lines@)
    }
}

/// The line on which a directive starts.
pub open spec fn directive_line(d: DirectiveModel) -> usize {
    match d {
        DirectiveModel::Alias { line_number, .. } => line_number,
        DirectiveModel::DefineGroup { line_number, .. } => line_number,
        DirectiveModel::DefineCommand { line_number, .. } => line_number,
        DirectiveModel::Path { line_number, .. } => line_number,
        DirectiveModel::Shell { line_number, .. } => line_number,
        DirectiveModel::Blacklist { line_number, .. } => line_number,
        DirectiveModel::Load { line_number, .. } => line_number,
        DirectiveModel::Generic { line_number, .. } => line_number,
    }
}

/// The name under which a directive is shown and counted.
pub open spec fn directive_name_of(d: DirectiveModel) -> Seq<char> {
    match d {
        DirectiveModel::Alias { .. } => "alias"@,
        DirectiveModel::DefineGroup { .. } => "define"@,
        DirectiveModel::DefineCommand { .. } => "define"@,
        DirectiveModel::Path { .. } => "path"@,
        DirectiveModel::Shell { .. } => "shell"@,
        DirectiveModel::Blacklist { .. } => "blacklist"@,
        DirectiveModel::Load { .. } => "load"@,
        DirectiveModel::Generic { keyword, .. } => keyword,
    }
}

/// The shortcuts among `ls`, in order.
pub open spec fn shortcuts_of(ls: Seq<LineModel>) -> Seq<ShortcutModel>
    decreases ls.len(),
{
    if ls.len() == 0 {
        Seq::empty()
    } else {
        shortcuts_of(ls.drop_last()) + match ls.last() {
            LineModel::Shortcut(s) => seq![s],
            _ => Seq::empty(),
        }
    }
}

/// The comments among `ls`, in order.
pub open spec fn comments_of(ls: Seq<LineModel>) -> Seq<CommentModel>
    decreases ls.len(),
{
    if ls.len() == 0 {
        Seq::empty()
    } else {
        comments_of(ls.drop_last()) + match ls.last() {
            LineModel::Comment(c) => seq![c],
            _ => Seq::empty(),
        }
    }
}

/// The directives among `ls`, in order.
pub open spec fn directives_of(ls: Seq<LineModel>) -> Seq<DirectiveModel>
    decreases ls.len(),
{
    if ls.len() == 0 {
        Seq::empty()
    } else {
        directives_of(ls.drop_last()) + match ls.last() {
            LineModel::Directive(d) => seq![d],
            _ => Seq::empty(),
        }
    }
}

/// How many directives among `ls` go by `name`.
pub open spec fn count_named(ls: Seq<LineModel>, name: Seq<char>) -> nat
    decreases ls.len(),
{
    if ls.len() == 0 {
        0
    } else {
        count_named(ls.drop_last(), name) + match ls.last() {
            LineModel::Directive(d) => if directive_name_of(d) == name {
                1nat
            } else {
                0nat
            },
            _ => 0nat,
        }
    }
}

pub proof fn lemma_count_named_bound(ls: Seq<LineModel>, name: Seq<char>)
    ensures
        count_named(ls, name) <= ls.len(),
    decreases ls.len(),
{
    if ls.len() > 0 {
        lemma_count_named_bound(ls.drop_last(), name);
    }
}

impl ZigDirective {
    /// The line on which this directive starts.
    pub fn line_number(&self) -> (r: usize)
        ensures
            r == directive_line(self@),
    {
        match self {
            ZigDirective::Alias { line_number, .. } => *line_number,
            ZigDirective::DefineGroup { line_number, .. } => *line_number,
            ZigDirective::DefineCommand { line_number, .. } => *line_number,
            ZigDirective::Path { line_number, .. } => *line_number,
            ZigDirective::Shell { line_number, .. } => *line_number,
            ZigDirective::Blacklist { line_number, .. } => *line_number,
            ZigDirective::Load { line_number, .. } => *line_number,
            ZigDirective::Generic { line_number, .. } => *line_number,
        }
    }

    /// The directive's name: its keyword, with both forms of `.define` named `define`.
    pub fn directive_name(&self) -> (r: &str)
        ensures
            r@ == directive_name_of(self@),
    {
        match self {
            ZigDirective::Alias { .. } => "alias",
            ZigDirective::DefineGroup { .. } => "define",
            ZigDirective::DefineCommand { .. } => "define",
            ZigDirective::Path { .. } => "path",
            ZigDirective::Shell { .. } => "shell",
            ZigDirective::Blacklist { .. } => "blacklist",
            ZigDirective::Load { .. } => "load",
            ZigDirective::Generic { keyword, .. } => keyword.as_str(),
        }
    }
}

/// How many directives a configuration holds under each name.
pub struct DirectiveCounts {
    names: Vec<String>,
    counts: Vec<usize>,
}

impl DirectiveCounts {
    /// The names are distinct, each with a positive count.
    pub closed spec fn wf(&self) -> bool {
        &&& self.names@.len() == self.counts@.len()
        &&& forall|i: int, j: int|
            0 <= i < j < self.names@.len() ==> self.names@[i]@ != self.names@[j]@
        &&& forall|i: int| 0 <= i < self.counts@.len() ==> self.counts@[i] > 0
    }

    /// The count recorded under `name`, 0 when there is none.
    pub closed spec fn count_of(&self, name: Seq<char>) -> nat {
        if exists|i: int| 0 <= i < self.names@.len() && self.names@[i]@ == name {
            self.counts@[choose|i: int| 0 <= i < self.names@.len() && self.names@[i]@ == name] as nat
        } else {
            0
        }
    }

    /// Number of distinct names.
    pub closed spec fn spec_len(&self) -> nat {
        self.names@.len()
    }

    /// The count recorded under `name`, if any directive goes by it.
    pub fn get(&self, name: &str) -> (r: Option<&usize>)
        requires
            self.wf(),
        ensures
            r matches Some(c) ==> *c == self.count_of(name@) && *c > 0,
            r is None ==> self.count_of(name@) == 0,
    {
        let key = String::from_str(name);
        let mut i: usize = 0;
        while i < self.names.len()
            invariant
                self.wf(),
                i <= self.names@.len(),
                key@ == name@,
                forall|k: int| 0 <= k < i ==> self.names@[k]@ != name@,
            decreases self.names@.len() - i,
        {
            if self.names[i] == key {
                proof {
                    let j = choose|j: int| 0 <= j < self.names@.len() && self.names@[j]@ == name@;
                    assert(self.names@[i as int]@ == name@);
                    if j != i {
                        if j < i {
                            assert(self.names@[j]@ != self.names@[i as int]@);
                        } else {
                            assert(self.names@[i as int]@ != self.names@[j]@);
                        }
                    }
                }
                return Some(&self.counts[i]);
            }
            i = i + 1;
        }
        None
    }

    /// The sum of the counts: how many directives were counted.
    pub closed spec fn total(&self) -> int {
        sum_counts(self.counts@)
    }

    /// Each directive name with its count, in the order the names were first met.
    pub fn entries(&self) -> (r: Vec<(String, usize)>)
        requires
            self.wf(),
        ensures
            r@.len() == self.spec_len(),
            forall|i: int| 0 <= i < r@.len() ==> #[trigger] r@[i].1 == self.count_of(r@[i].0@),
            forall|i: int, j: int| 0 <= i < j < r@.len() ==> r@[i].0@ != r@[j].0@,
            sum_entries(r@) == self.total(),
    {
        let mut r: Vec<(String, usize)> = Vec::new();
        let mut i: usize = 0;
        while i < self.names.len()
            invariant
                self.wf(),
                i <= self.names@.len(),
                r@.len() == i,
                forall|k: int| 0 <= k < i ==> (#[trigger] r@[k]).0@ == self.names@[k]@ && r@[k].1
                    == self.counts@[k],
                sum_entries(r@) == sum_counts(self.counts@.take(i as int)),
            decreases self.names@.len() - i,
        {
            let ghost before = r@;
            r.push((self.names[i].clone(), self.counts[i]));
            proof {
                assert(r@.drop_last() =~= before);
                assert(self.counts@.take(i + 1).drop_last() =~= self.counts@.take(i as int));
            }
            i = i + 1;
        }
        proof {
            assert(self.counts@.take(self.names@.len() as int) =~= self.counts@);
            assert forall|k: int| 0 <= k < r@.len() implies #[trigger] r@[k].1 == self.count_of(
                r@[k].0@,
            ) by {
                self.lemma_count_at(self.names@[k]@, k);
            }
        }
        r
    }

    /// Number of distinct directive names.
    pub fn len(&self) -> (r: usize)
        ensures
            r == self.spec_len(),
    {
        self.names.len()
    }
}

impl Default for ParsedConfig {
    fn default() -> (r: ParsedConfig)
        ensures
            r@ == Seq::<LineModel>::empty(),
    {
        ParsedConfig::new()
    }
}

impl ParsedConfig {
    /// An empty configuration.
    pub fn new() -> (r: ParsedConfig)
        ensures
            r@ == Seq::<LineModel>::empty(),
    {
        let r = ParsedConfig { lines: Vec::new() };
        assert(r@ =~= Seq::<LineModel>::empty());
        r
    }

    /// All shortcuts, in file order.
    pub fn shortcuts(&self) -> (r: Vec<&ParsedShortcut>)
        ensures
            Seq::new(r@.len(), |i: int| r@[i]@) == shortcuts_of(self@),
    {
        let mut r: Vec<&ParsedShortcut> = Vec::new();
        let mut i: usize = 0;
        while i < self.lines.len()
            invariant
                i <= self.lines@.len(),
                Seq::new(r@.len(), |k: int| r@[k]@) == shortcuts_of(self@.take(i as int)),
            decreases self.lines@.len() - i,
        {
            let ghost before = Seq::new(r@.len(), |k: int| r@[k]@);
            match &self.lines[i] {
                ConfigLine::Shortcut(s) => {
                    r.push(s);
                },
                _ => {},
            }
            proof {
                assert(self@.take(i + 1).drop_last() =~= self@.take(i as int));
                assert(Seq::new(r@.len(), |k: int| r@[k]@) =~= shortcuts_of(
                    self@.take(i + 1),
                ));
            }
            i = i + 1;
        }
        proof {
            assert(self@.take(self.lines@.len() as int) =~= self@);
        }
        r
    }

    /// All comments, in file order.
    pub fn comments(&self) -> (r: Vec<&ParsedComment>)
        ensures
            Seq::new(r@.len(), |i: int| r@[i]@) == comments_of(self@),
    {
        let mut r: Vec<&ParsedComment> = Vec::new();
        let mut i: usize = 0;
        while i < self.lines.len()
            invariant
                i <= self.lines@.len(),
                Seq::new(r@.len(), |k: int| r@[k]@) == comments_of(self@.take(i as int)),
            decreases self.lines@.len() - i,
        {
            match &self.lines[i] {
                ConfigLine::Comment(c) => {
                    r.push(c);
                },
                _ => {},
            }
            proof {
                assert(self@.take(i + 1).drop_last() =~= self@.take(i as int));
                assert(Seq::new(r@.len(), |k: int| r@[k]@) =~= comments_of(self@.take(i + 1)));
            }
            i = i + 1;
        }
        proof {
            assert(self@.take(self.lines@.len() as int) =~= self@);
        }
        r
    }

    /// All skhd.zig directives, in file order.
    pub fn directives(&self) -> (r: Vec<&ZigDirective>)
        ensures
            Seq::new(r@.len(), |i: int| r@[i]@) == directives_of(self@),
    {
        let mut r: Vec<&ZigDirective> = Vec::new();
        let mut i: usize = 0;
        while i < self.lines.len()
            invariant
                i <= self.lines@.len(),
                Seq::new(r@.len(), |k: int| r@[k]@) == directives_of(self@.take(i as int)),
            decreases self.lines@.len() - i,
        {
            match &self.lines[i] {
                ConfigLine::Directive(d) => {
                    r.push(d);
                },
                _ => {},
            }
            proof {
                assert(self@.take(i + 1).drop_last() =~= self@.take(i as int));
                assert(Seq::new(r@.len(), |k: int| r@[k]@) =~= directives_of(
                    self@.take(i + 1),
                ));
            }
            i = i + 1;
        }
        proof {
            assert(self@.take(self.lines@.len() as int) =~= self@);
        }
        r
    }

    /// Whether any line is an skhd.zig directive.
    pub fn has_zig_directives(&self) -> (r: bool)
        ensures
            r == exists|i: int| 0 <= i < self@.len() && self@[i] is Directive,
    {
        let mut i: usize = 0;
        while i < self.lines.len()
            invariant
                i <= self.lines@.len(),
                forall|k: int| 0 <= k < i ==> !(self@[k] is Directive),
            decreases self.lines@.len() - i,
        {
            if let ConfigLine::Directive(_) = &self.lines[i] {
                assert(self@[i as int] is Directive);
                return true;
            }
            i = i + 1;
        }
        false
    }

    /// Whether the configuration holds a block-form `.remap` rule.
    pub fn has_block_remap(&self) -> (r: bool)
        ensures
            r == has_block_remap(self@),
    {
        let remap = owned("remap");
        let mut i: usize = 0;
        while i < self.lines.len()
            invariant
                i <= self.lines@.len(),
                remap@ == "remap"@,
                forall|k: int| 0 <= k < i ==> !is_block_remap(#[trigger] self@[k]),
            decreases self.lines@.len() - i,
        {
            if let ConfigLine::Directive(ZigDirective::Generic { keyword, content, .. }) = &self.lines[i] {
                if *keyword == remap && contains_str(content.as_str(), "{") {
                    assert(is_block_remap(self@[i as int]));
                    return true;
                }
            }
            i = i + 1;
        }
        false
    }

    /// How many directives go by each name.
    pub fn directive_counts(&self) -> (r: DirectiveCounts)
        ensures
            r.wf(),
            forall|name: Seq<char>| #[trigger] r.count_of(name) == count_named(self@, name),
            r.total() == directives_of(self@).len(),
    {
        let mut acc = DirectiveCounts { names: Vec::new(), counts: Vec::new() };
        proof {
            assert(self@.take(0) =~= Seq::<LineModel>::empty());
        }
        let mut i: usize = 0;
        while i < self.lines.len()
            invariant
                i <= self.lines@.len(),
                acc.wf(),
                forall|name: Seq<char>|
                    #[trigger] acc.count_of(name) == count_named(self@.take(i as int), name),
                acc.total() == directives_of(self@.take(i as int)).len(),
            decreases self.lines@.len() - i,
        {
            let ghost prefix = self@.take(i as int);
            let ghost next = self@.take(i + 1);
            proof {
                assert(next.drop_last() =~= prefix);
            }
            if let ConfigLine::Directive(d) = &self.lines[i] {
                let nm = String::from_str(d.directive_name());
                proof {
                    lemma_count_named_bound(prefix, nm@);
                }
                acc.record(&nm);
                proof {
                    assert forall|name: Seq<char>| #[trigger]
                        acc.count_of(name) == count_named(next, name) by {
                        assert(next.last() == self@[i as int]);
                    }
                }
            } else {
                proof {
                    assert forall|name: Seq<char>| #[trigger]
                        acc.count_of(name) == count_named(next, name) by {
                        assert(next.last() == self@[i as int]);
                    }
                }
            }
            i = i + 1;
        }
        proof {
            assert(self@.take(self.lines@.len() as int) =~= self@);
        }
        acc
    }
}

impl DirectiveCounts {
    proof fn lemma_count_at(&self, name: Seq<char>, k: int)
        requires
            self.wf(),
            0 <= k < self.names@.len(),
            self.names@[k]@ == name,
        ensures
            self.count_of(name) == self.counts@[k],
    {
        let j = choose|j: int| 0 <= j < self.names@.len() && self.names@[j]@ == name;
        if j < k {
            assert(self.names@[j]@ != self.names@[k]@);
        } else if k < j {
            assert(self.names@[k]@ != self.names@[j]@);
        }
    }

    proof fn lemma_count_absent(&self, name: Seq<char>)
        requires
            forall|k: int| 0 <= k < self.names@.len() ==> self.names@[k]@ != name,
        ensures
            self.count_of(name) == 0,
    {
    }

    /// Adds one to the count recorded under `name`.
    fn record(&mut self, name: &String)
        requires
            old(self).wf(),
            old(self).count_of(name@) < usize::MAX,
        ensures
            final(self).wf(),
            final(self).count_of(name@) == old(self).count_of(name@) + 1,
            final(self).total() == old(self).total() + 1,
            forall|other: Seq<char>|
                other != name@ ==> #[trigger] final(self).count_of(other) == old(self).count_of(
                    other,
                ),
    {
        let ghost before = *self;
        let mut j: usize = 0;
        while j < self.names.len()
            invariant
                *self == before,
                before == *old(self),
                before.wf(),
                before.count_of(name@) < usize::MAX,
                j <= self.names@.len(),
                forall|k: int| 0 <= k < j ==> self.names@[k]@ != name@,
            decreases self.names@.len() - j,
        {
            if self.names[j] == *name {
                proof {
                    before.lemma_count_at(name@, j as int);
                }
                let c = self.counts[j];
                self.counts.set(j, c + 1);
                proof {
                    lemma_sum_update(before.counts@, j as int, (c + 1) as usize);
                    assert forall|other: Seq<char>| other != name@ implies
                        #[trigger] self.count_of(other) == before.count_of(other) by {
                        if exists|k: int| 0 <= k < before.names@.len() && before.names@[k]@ == other {
                            let k = choose|k: int| 0 <= k < before.names@.len() && before.names@[k]@ == other;
                            before.lemma_count_at(other, k);
                            self.lemma_count_at(other, k);
                        } else {
                            self.lemma_count_absent(other);
                        }
                    }
                    assert(self.wf());
                    self.lemma_count_at(name@, j as int);
                }
                return;
            }
            j = j + 1;
        }
        proof {
            before.lemma_count_absent(name@);
        }
        self.names.push(name.clone());
        self.counts.push(1);
        proof {
            assert(self.counts@.drop_last() =~= before.counts@);
            let n = before.names@.len() as int;
            assert(self.names@[n]@ == name@);
            assert forall|a: int, b: int| 0 <= a < b < self.names@.len() implies
                self.names@[a]@ != self.names@[b]@ by {
                if b == n {
                    assert(before.names@[a]@ != name@);
                } else {
                    assert(before.names@[a]@ != before.names@[b]@);
                }
            }
            assert(self.wf());
            self.lemma_count_at(name@, n);
            assert forall|other: Seq<char>| other != name@ implies
                #[trigger] self.count_of(other) == before.count_of(other) by {
                if exists|k: int| 0 <= k < before.names@.len() && before.names@[k]@ == other {
                    let k = choose|k: int| 0 <= k < before.names@.len() && before.names@[k]@ == other;
                    before.lemma_count_at(other, k);
                    self.lemma_count_at(other, k);
                } else {
                    assert forall|k: int| 0 <= k < self.names@.len() implies
                        self.names@[k]@ != other by {
                        if k < n {
                            assert(before.names@[k] == self.names@[k]);
                        }
                    }
                    self.lemma_count_absent(other);
                }
            }
        }
    }
}

/// How many empty lines `ls` holds.
pub open spec fn empties_of(ls: Seq<LineModel>) -> nat
    decreases ls.len(),
{
    if ls.len() == 0 {
        0
    } else {
        empties_of(ls.drop_last()) + if ls.last() is Empty {
            1nat
        } else {
            0nat
        }
    }
}

/// How many directives of `ds` go by `name`.
pub open spec fn count_name_in(ds: Seq<DirectiveModel>, name: Seq<char>) -> nat
    decreases ds.len(),
{
    if ds.len() == 0 {
        0
    } else {
        count_name_in(ds.drop_last(), name) + if directive_name_of(ds.last()) == name {
            1nat
        } else {
            0nat
        }
    }
}

/// Every line is a shortcut, a comment, a directive, an empty line, or a mode
/// switch or process map: the three selections, the empty lines and the mode
/// bindings together account for all lines.
pub proof fn law_selections_partition_lines(ls: Seq<LineModel>)
    ensures
        shortcuts_of(ls).len() + comments_of(ls).len() + directives_of(ls).len() + empties_of(ls)
            + mode_bindings_of(ls) == ls.len(),
    decreases ls.len(),
{
    if ls.len() > 0 {
        law_selections_partition_lines(ls.drop_last());
    }
}

/// A configuration has skhd.zig directives exactly when its directive selection
/// is not empty.
pub proof fn law_has_directives_iff_selected(ls: Seq<LineModel>)
    ensures
        (exists|i: int| 0 <= i < ls.len() && ls[i] is Directive) <==> directives_of(ls).len() > 0,
    decreases ls.len(),
{
    if ls.len() > 0 {
        let prev = ls.drop_last();
        law_has_directives_iff_selected(prev);
        if exists|i: int| 0 <= i < ls.len() && ls[i] is Directive {
            let i = choose|i: int| 0 <= i < ls.len() && ls[i] is Directive;
            if i < ls.len() - 1 {
                assert(prev[i] is Directive);
            }
        }
        if exists|i: int| 0 <= i < prev.len() && prev[i] is Directive {
            let i = choose|i: int| 0 <= i < prev.len() && prev[i] is Directive;
            assert(ls[i] is Directive);
        }
        if ls.last() is Directive {
            assert(ls[ls.len() - 1] is Directive);
        }
    }
}

/// The counts by name agree with the directive selection: the count under a
/// name is the number of selected directives that go by it.
pub proof fn law_counts_agree_with_directives(ls: Seq<LineModel>, name: Seq<char>)
    ensures
        count_named(ls, name) == count_name_in(directives_of(ls), name),
    decreases ls.len(),
{
    if ls.len() > 0 {
        let prev = ls.drop_last();
        law_counts_agree_with_directives(prev, name);
        match ls.last() {
            LineModel::Directive(d) => {
                assert((directives_of(prev) + seq![d]).drop_last() =~= directives_of(prev));
            },
            _ => {
                assert(directives_of(prev) + Seq::<DirectiveModel>::empty() =~= directives_of(prev));
            },
        }
    }
}

/// A block-form `.remap` rule: a `.remap` directive whose content opens a `{` block
/// of tap and hold settings.
pub open spec fn is_block_remap(l: LineModel) -> bool {
    l matches LineModel::Directive(DirectiveModel::Generic { keyword, content, .. }) && keyword
        == "remap"@ && seq_contains(content, "{"@)
}

/// Whether some line is a block-form `.remap` rule.
pub open spec fn has_block_remap(ls: Seq<LineModel>) -> bool {
    exists|i: int| 0 <= i < ls.len() && #[trigger] is_block_remap(ls[i])
}

/// The sum of a sequence of counts.
pub open spec fn sum_counts(c: Seq<usize>) -> int
    decreases c.len(),
{
    if c.len() == 0 {
        0
    } else {
        sum_counts(c.drop_last()) + c.last()
    }
}

/// The sum of the counts of name-and-count entries.
pub open spec fn sum_entries(e: Seq<(String, usize)>) -> int
    decreases e.len(),
{
    if e.len() == 0 {
        0
    } else {
        sum_entries(e.drop_last()) + e.last().1
    }
}

proof fn lemma_sum_update(c: Seq<usize>, j: int, x: usize)
    requires
        0 <= j < c.len(),
    ensures
        sum_counts(c.update(j, x)) == sum_counts(c) - c[j] + x,
    decreases c.len(),
{
    let u = c.update(j, x);
    if j == c.len() - 1 {
        assert(u.drop_last() =~= c.drop_last());
    } else {
        lemma_sum_update(c.drop_last(), j, x);
        assert(u.drop_last() =~= c.drop_last().update(j, x));
    }
}

/// How many lines are mode switches or process maps.
pub open spec fn mode_bindings_of(ls: Seq<LineModel>) -> nat
    decreases ls.len(),
{
    if ls.len() == 0 {
        0
    } else {
        mode_bindings_of(ls.drop_last()) + match ls.last() {
            LineModel::ModeSwitch(_) => 1nat,
            LineModel::ProcessMap(_) => 1nat,
            _ => 0nat,
        }
    }
}

} // verus!
