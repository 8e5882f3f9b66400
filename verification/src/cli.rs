//! Command-line parsing: the options, their values and the combinations
//! that are refused. Errors are the messages shown to the user.
use vstd::prelude::*;
use crate::numbers::{parse_usize, parse_usize_spec};
use crate::text::{chars_of, is_lit, starts_with_lit, starts_with_spec, string_from_chars, sub_chars, trim_chars, trim_spec};
use vstd::string::StringExecFns;

verus! {

/// What `--config` asks for.
#[derive(Clone, Copy, Debug, PartialEq, Eq, Structural)]
pub enum ConfigAction {
    Open,
    Reset,
    Remove,
}

/// What `--history` asks for.
#[derive(Clone, Copy, Debug, PartialEq, Eq, Structural)]
pub enum HistoryAction {
    Picker,
    Edit,
    Remove,
    List { count: Option<usize> },
}

/// What `--auto-complete` does with the completion script.
#[derive(Clone, Copy, Debug, PartialEq, Eq, Structural)]
pub enum AutoCompleteMode {
    Install,
    Dump,
    Remove,
}

/// The shell (when named) and mode of `--auto-complete`.
#[derive(Debug)]
pub struct AutoCompleteArg {
    pub shell: Option<String>,
    pub mode: AutoCompleteMode,
}

impl View for AutoCompleteArg {
    type V = (Option<Seq<char>>, AutoCompleteMode);

    open spec fn view(&self) -> (Option<Seq<char>>, AutoCompleteMode) {
        (opt_view(self.shell), self.mode)
    }
}

pub open spec fn opt_view(s: Option<String>) -> Option<Seq<char>> {
    match s {
        Some(s) => Some(s@),
        None => None,
    }
}

/// Longest keyword accepted by `--fuzzy`, in characters.
pub const FUZZY_QUERY_MAX_LEN: usize = 15;

pub open spec fn fuzzy_char(c: char) -> bool {
    ('a' <= c && c <= 'z') || ('A' <= c && c <= 'Z') || ('0' <= c && c <= '9') || c == '_' || c
        == '-' || c == '.'
}

/// A fuzzy keyword: 1 to 15 characters from `[A-Za-z0-9._-]`.
pub open spec fn valid_fuzzy_query(s: Seq<char>) -> bool {
    &&& s.len() > 0
    &&& s.len() <= FUZZY_QUERY_MAX_LEN
    &&& forall|i: int| 0 <= i < s.len() ==> fuzzy_char(#[trigger] s[i])
}

pub fn is_valid_fuzzy_query(s: &str) -> (r: bool)
    ensures
        r == valid_fuzzy_query(s@),
{
    let cs = chars_of(s);
    if cs.len() == 0 || cs.len() > FUZZY_QUERY_MAX_LEN {
        return false;
    }
    let mut i: usize = 0;
    while i < cs.len()
        invariant
            cs@ == s@,
            i <= cs@.len(),
            forall|k: int| 0 <= k < i ==> fuzzy_char(#[trigger] cs@[k]),
        decreases cs@.len() - i,
    {
        let c = cs[i];
        if !((c >= 'a' && c <= 'z') || (c >= 'A' && c <= 'Z') || (c >= '0' && c <= '9') || c == '_'
            || c == '-' || c == '.') {
            return false;
        }
        i = i + 1;
    }
    true
}

pub open spec fn fuzzy_error(v: Seq<char>) -> Seq<char> {
    "--fuzzy: invalid value '"@ + v + "'\n       allowed: [A-Za-z0-9._-], max 15 chars"@
}

/// A `--fuzzy` keyword, or why it is refused.
pub fn parse_fuzzy_query(value: String) -> (r: Result<String, String>)
    ensures
        valid_fuzzy_query(value@) ==> r == Ok::<String, String>(value),
        !valid_fuzzy_query(value@) ==> (r matches Err(e) && e@ == fuzzy_error(value@)),
{
    if !is_valid_fuzzy_query(value.as_str()) {
        let mut m = String::from_str("--fuzzy: invalid value '");
        m.append(value.as_str());
        m.append("'\n       allowed: [A-Za-z0-9._-], max 15 chars");
        return Err(m);
    }
    Ok(value)
}

/// The help text.
pub const USAGE: &'static str = "Usage:  leaf [OPTIONS] [file.md|directory|keyword]\n\
     \x20       leaf [--watch] --picker\n\
     \x20       leaf --update\n\
     \x20       echo '# Hello' | leaf\n\
     \n\
     Options:\n\
     \x20 -h, --help                   Show this help message and exit\n\
     \x20 -V, --version                Show version information and exit\n\
     \x20 -w, --watch                  Watch the file for changes and reload automatically\n\
     \x20     --theme <NAME>           Set color theme preset or custom config theme\n\
     \x20 -e, --editor <NAME>          Set external editor (nano|vim|code|subl|emacs)\n\
     \x20     --inline [SPEC]          Render to stdout (no TUI) [ansi|plain][:<width>]\n\
     \x20     --width <N>              Set maximum content width (min: 20)\n\
     \x20     --node-spacing <N>       Mermaid node spacing (0..500; default 50)\n\
     \x20     --rank-spacing <N>       Mermaid rank spacing (0..500; default 50)\n\
     \x20     --edge-spacing <N>       Mermaid edge spacing (0..500; default 20)\n\
     \x20     --mermaid-full           With --inline, emit complete unwrapped diagrams\n\
     \x20     --fuzzy [KEYWORD]        Open the fuzzy file picker (KEYWORD pre-fills the filter)\n\
     \x20     --picker                 Open the file browser picker\n\
     \x20 -H, --history [SPEC]         Open picker, or [edit|remove|list:<n>] file history\n\
     \x20 -l, --last                   Open the most recent from file history\n\
     \x20     --config [reset|remove]  Open, reset or remove configuration\n\
     \x20     --update                 Update leaf to the latest version\n\
     \x20     --auto-complete [SPEC]   Install, dump or remove shell completions [<shell>][:dump|:remove]";

pub fn usage_text() -> (r: &'static str)
    ensures
        r@ == USAGE@,
{
    USAGE
}

/// The version line: the program name and this package's version.
pub const VERSION_TEXT: &'static str = "leaf 0.1.0";

pub fn version_text() -> (r: &'static str)
    ensures
        r@ == VERSION_TEXT@,
{
    VERSION_TEXT
}

pub open spec fn missing_value(flag: Seq<char>) -> Seq<char> {
    "Missing value for "@ + flag
}

/// A theme name: trimmed, and not empty.
pub fn parse_theme_name(name: &str) -> (r: Result<String, String>)
    ensures
        trim_spec(name@).len() > 0 ==> (r matches Ok(t) && t@ == trim_spec(name@)),
        trim_spec(name@).len() == 0 ==> (r matches Err(e) && e@ == "Missing value for --theme"@),
{
    let t = crate::text::trim_str(name);
    if t.len() == 0 {
        return Err(String::from_str("Missing value for --theme"));
    }
    Ok(string_from_chars(t.as_slice()))
}

pub open spec fn known_shell(s: Seq<char>) -> bool {
    s == "bash"@ || s == "zsh"@ || s == "fish"@ || s == "powershell"@ || s == "nushell"@
}

pub open spec fn colon_at(s: Seq<char>) -> spec_fn(int) -> bool {
    |i: int| s[i] == ':'
}

pub open spec fn auto_complete_invalid(s: Seq<char>) -> Seq<char> {
    "Invalid argument for --auto-complete: '"@ + s
        + "'. Expected: bash, zsh, fish, powershell, nushell, dump, remove, SHELL:dump, or SHELL:remove"@
}

pub open spec fn unknown_shell(name: Seq<char>) -> Seq<char> {
    "Unknown shell: '"@ + name + "'. Expected: bash, zsh, fish, powershell, nushell"@
}

/// `--auto-complete` values: `SHELL`, `dump`, `remove`, `SHELL:dump` or
/// `SHELL:remove`, split at the first colon.
pub open spec fn auto_complete_spec(s: Seq<char>) -> Result<(Option<Seq<char>>, AutoCompleteMode), Seq<char>> {
    let p = crate::diagrams::first_where(s.len() as int, colon_at(s));
    let split: Result<(Option<Seq<char>>, AutoCompleteMode), Seq<char>> = if p >= 0 {
        let rest = s.skip(p + 1);
        if rest == "dump"@ {
            Ok((Some(s.take(p)), AutoCompleteMode::Dump))
        } else if rest == "remove"@ {
            Ok((Some(s.take(p)), AutoCompleteMode::Remove))
        } else {
            Err(auto_complete_invalid(s))
        }
    } else if s == "dump"@ {
        Ok((None, AutoCompleteMode::Dump))
    } else if s == "remove"@ {
        Ok((None, AutoCompleteMode::Remove))
    } else {
        Ok((Some(s), AutoCompleteMode::Install))
    };
    match split {
        Err(e) => Err(e),
        Ok((Some(name), mode)) => if known_shell(name) {
            Ok((Some(name), mode))
        } else {
            Err(unknown_shell(name))
        },
        Ok((None, mode)) => Ok((None, mode)),
    }
}

fn known_shell_chars(s: &[char]) -> (r: bool)
    ensures
        r == known_shell(s@),
{
    is_lit(s, "bash") || is_lit(s, "zsh") || is_lit(s, "fish") || is_lit(s, "powershell") || is_lit(
        s,
        "nushell",
    )
}

fn concat3(a: &str, b: &[char], c: &str) -> (r: String)
    ensures
        r@ == a@ + b@ + c@,
{
    let mut m = String::from_str(a);
    let t = string_from_chars(b);
    m.append(t.as_str());
    m.append(c);
    m
}

pub fn parse_auto_complete_value(s: &str) -> (r: Result<AutoCompleteArg, String>)
    ensures
        match auto_complete_spec(s@) {
            Ok(v) => r matches Ok(a) && a@ == v,
            Err(e) => r matches Err(m) && m@ == e,
        },
{
    let cs = chars_of(s);
    let ghost q = colon_at(cs@);
    let mut p: usize = 0;
    while p < cs.len() && cs[p] != ':'
        invariant
            q == colon_at(cs@),
            p <= cs@.len(),
            crate::diagrams::first_where(p as int, q) == -1,
        decreases cs@.len() - p,
    {
        p = p + 1;
    }
    proof {
        if p < cs@.len() {
            assert(q(p as int));
            crate::diagrams::lemma_first_where_extend(cs@.len() as int, p as int, q);
        } else {
            crate::diagrams::lemma_first_where(cs@.len() as int, q);
        }
    }
    let (shell, mode): (Option<Vec<char>>, AutoCompleteMode) = if p < cs.len() {
        let rest = sub_chars(cs.as_slice(), p + 1, cs.len());
        let name = sub_chars(cs.as_slice(), 0, p);
        proof {
            assert(rest@ =~= cs@.skip(p + 1));
            assert(name@ =~= cs@.take(p as int));
        }
        if is_lit(rest.as_slice(), "dump") {
            (Some(name), AutoCompleteMode::Dump)
        } else if is_lit(rest.as_slice(), "remove") {
            (Some(name), AutoCompleteMode::Remove)
        } else {
            return Err(concat3(
                "Invalid argument for --auto-complete: '",
                cs.as_slice(),
                "'. Expected: bash, zsh, fish, powershell, nushell, dump, remove, SHELL:dump, or SHELL:remove",
            ));
        }
    } else if is_lit(cs.as_slice(), "dump") {
        (None, AutoCompleteMode::Dump)
    } else if is_lit(cs.as_slice(), "remove") {
        (None, AutoCompleteMode::Remove)
    } else {
        (Some(cs), AutoCompleteMode::Install)
    };
    match shell {
        Some(name) => {
            if known_shell_chars(name.as_slice()) {
                Ok(AutoCompleteArg { shell: Some(string_from_chars(name.as_slice())), mode })
            } else {
                Err(concat3("Unknown shell: '", name.as_slice(), "'. Expected: bash, zsh, fish, powershell, nushell"))
            }
        },
        None => Ok(AutoCompleteArg { shell: None, mode }),
    }
}

pub open spec fn history_error(s: Seq<char>) -> Seq<char> {
    "--history: invalid value '"@ + s + "'\n        expected: edit, remove, list[:<n>], with n positive"@
}

/// `--history` values beyond `edit` and `remove`: `list` or `list:N` (or
/// just `N`) with `N` positive.
pub open spec fn history_spec(s: Seq<char>) -> Result<HistoryAction, Seq<char>> {
    if s == "list"@ {
        Ok(HistoryAction::List { count: None })
    } else {
        let count = if starts_with_spec(s, "list:"@) {
            s.skip(5)
        } else {
            s
        };
        match parse_usize_spec(count) {
            Some(n) => if n > 0 {
                Ok(HistoryAction::List { count: Some(n) })
            } else {
                Err(history_error(s))
            },
            None => Err(history_error(s)),
        }
    }
}

pub fn parse_history_list_spec(s: &str) -> (r: Result<HistoryAction, String>)
    ensures
        match history_spec(s@) {
            Ok(v) => r == Ok::<HistoryAction, String>(v),
            Err(e) => r matches Err(m) && m@ == e,
        },
{
    let cs = chars_of(s);
    if is_lit(cs.as_slice(), "list") {
        return Ok(HistoryAction::List { count: None });
    }
    proof {
        reveal_strlit("list:");
    }
    let count = if starts_with_lit(cs.as_slice(), "list:") {
        sub_chars(cs.as_slice(), 5, cs.len())
    } else {
        sub_chars(cs.as_slice(), 0, cs.len())
    };
    assert(count@ =~= if starts_with_spec(s@, "list:"@) { s@.skip(5) } else { s@ });
    match parse_usize(count.as_slice()) {
        Some(n) => if n > 0 {
            return Ok(HistoryAction::List { count: Some(n) });
        },
        None => {},
    }
    Err(concat3(
        "--history: invalid value '",
        cs.as_slice(),
        "'\n        expected: edit, remove, list[:<n>], with n positive",
    ))
}

pub open spec fn width_spec(s: Seq<char>) -> Result<usize, Seq<char>> {
    match parse_usize_spec(trim_spec(s)) {
        Some(w) => if w < 20 {
            Err("Width must be at least 20"@)
        } else {
            Ok(w)
        },
        None => Err("Invalid width: "@ + s),
    }
}

/// A `--width` value: a whole number of at least 20 columns.
pub fn parse_width_value(s: &str) -> (r: Result<usize, String>)
    ensures
        match width_spec(s@) {
            Ok(w) => r == Ok::<usize, String>(w),
            Err(e) => r matches Err(m) && m@ == e,
        },
{
    let t = crate::text::trim_str(s);
    match parse_usize(t.as_slice()) {
        Some(w) => if w < 20 {
            Err(String::from_str("Width must be at least 20"))
        } else {
            Ok(w)
        },
        None => {
            let mut m = String::from_str("Invalid width: ");
            m.append(s);
            Err(m)
        },
    }
}

/// Parsed command-line options. Spacings are the bits of the `f64` values;
/// `inline` is `Some(None)` for a bare `--inline` and `Some(Some(spec))`
/// for an explicit, already validated output spec.
#[derive(Debug)]
pub struct CliOptions {
    pub picker: bool,
    pub watch: bool,
    pub last: bool,
    pub update: bool,
    pub config: Option<ConfigAction>,
    pub auto_complete: Option<AutoCompleteArg>,
    pub debug_input: bool,
    pub print_help: bool,
    pub print_version: bool,
    pub file_arg: Option<String>,
    pub theme: Option<String>,
    pub editor: Option<String>,
    pub inline: Option<Option<String>>,
    pub width: Option<usize>,
    pub node_spacing: Option<u64>,
    pub rank_spacing: Option<u64>,
    pub edge_spacing: Option<u64>,
    pub mermaid_full: bool,
    pub history: Option<HistoryAction>,
    pub fuzzy: bool,
    pub fuzzy_query: Option<String>,
}

/// Options as plain values.
pub struct CliView {
    pub picker: bool,
    pub watch: bool,
    pub last: bool,
    pub update: bool,
    pub config: Option<ConfigAction>,
    pub auto_complete: Option<(Option<Seq<char>>, AutoCompleteMode)>,
    pub debug_input: bool,
    pub print_help: bool,
    pub print_version: bool,
    pub file_arg: Option<Seq<char>>,
    pub theme: Option<Seq<char>>,
    pub editor: Option<Seq<char>>,
    pub inline: Option<Option<Seq<char>>>,
    pub width: Option<usize>,
    pub node_spacing: Option<u64>,
    pub rank_spacing: Option<u64>,
    pub edge_spacing: Option<u64>,
    pub mermaid_full: bool,
    pub history: Option<HistoryAction>,
    pub fuzzy: bool,
    pub fuzzy_query: Option<Seq<char>>,
}

impl View for CliOptions {
    type V = CliView;

    open spec fn view(&self) -> CliView {
        CliView {
            picker: self.picker,
            watch: self.watch,
            last: self.last,
            update: self.update,
            config: self.config,
            auto_complete: match self.auto_complete {
                Some(a) => Some(a@),
                None => None,
            },
            debug_input: self.debug_input,
            print_help: self.print_help,
            print_version: self.print_version,
            file_arg: opt_view(self.file_arg),
            theme: opt_view(self.theme),
            editor: opt_view(self.editor),
            inline: match self.inline {
                Some(s) => Some(opt_view(s)),
                None => None,
            },
            width: self.width,
            node_spacing: self.node_spacing,
            rank_spacing: self.rank_spacing,
            edge_spacing: self.edge_spacing,
            mermaid_full: self.mermaid_full,
            history: self.history,
            fuzzy: self.fuzzy,
            fuzzy_query: opt_view(self.fuzzy_query),
        }
    }
}

pub open spec fn default_cli() -> CliView {
    CliView {
        picker: false,
        watch: false,
        last: false,
        update: false,
        config: None,
        auto_complete: None,
        debug_input: false,
        print_help: false,
        print_version: false,
        file_arg: None,
        theme: None,
        editor: None,
        inline: None,
        width: None,
        node_spacing: None,
        rank_spacing: None,
        edge_spacing: None,
        mermaid_full: false,
        history: None,
        fuzzy: false,
        fuzzy_query: None,
    }
}

/// What the value parsers outside this library say about one argument.
#[derive(Debug)]
pub struct ArgFacts {
    /// The spacing the argument denotes (`f64` bits), when it is a finite
    /// number from 0 to 500.
    pub spacing: Option<u64>,
    /// The same for the text after the argument's first `=`.
    pub spacing_after_eq: Option<u64>,
    /// Whether the argument reads as an inline output spec.
    pub inline_spec: bool,
    /// Why the argument is not a valid inline output spec, if it is not.
    pub inline_error: Option<String>,
    /// The same for the text after the argument's first `=`.
    pub inline_error_after_eq: Option<String>,
}

pub open spec fn spacing_error(name: Seq<char>, value: Seq<char>) -> Seq<char> {
    name + ": expected a finite number from 0 to 500, got '"@ + value + "'"@
}

pub open spec fn is_spacing_flag(a: Seq<char>) -> bool {
    a == "--node-spacing"@ || a == "--rank-spacing"@ || a == "--edge-spacing"@
}

pub open spec fn has_spacing_prefix(a: Seq<char>) -> bool {
    starts_with_spec(a, "--node-spacing="@) || starts_with_spec(a, "--rank-spacing="@)
        || starts_with_spec(a, "--edge-spacing="@)
}

/// Stores a spacing under the flag that set it.
pub open spec fn with_spacing(o: CliView, name: Seq<char>, v: u64) -> CliView {
    if name == "--node-spacing"@ {
        CliView { node_spacing: Some(v), ..o }
    } else if name == "--rank-spacing"@ {
        CliView { rank_spacing: Some(v), ..o }
    } else {
        CliView { edge_spacing: Some(v), ..o }
    }
}

/// An argument that can be an option's value: not starting with `-`.
pub open spec fn value_like(a: Seq<char>) -> bool {
    !(a.len() > 0 && a[0] == '-')
}

/// The outcome of reading one argument (with its value).
pub enum Step {
    /// Continue at argument `.0`, positional-only when `.1`, with options `.2`.
    Next(int, bool, CliView),
    Fail(Seq<char>),
}

/// Reads the argument at `i` (and its value), `pos_only` after `--`.
pub open spec fn scan_step(args: Seq<Seq<char>>, facts: Seq<ArgFacts>, i: int, pos_only: bool, o: CliView) -> Step {
    {
        let a = args[i];
        let has_next = args.len() - i > 1;
        let next = args[i + 1];
        if pos_only {
            if o.file_arg is None {
                Step::Next(i + 1, true, CliView { file_arg: Some(a), ..o })
            } else {
                Step::Fail("Too many file arguments"@)
            }
        } else if a == "--picker"@ {
            Step::Next(i + 1, false, CliView { picker: true, ..o })
        } else if a == "--mermaid-full"@ {
            Step::Next(i + 1, false, CliView { mermaid_full: true, ..o })
        } else if is_spacing_flag(a) {
            if !has_next {
                Step::Fail(missing_value(a))
            } else {
                match facts[i + 1].spacing {
                    Some(v) => Step::Next(i + 2, false, with_spacing(o, a, v)),
                    None => Step::Fail(spacing_error(a, next)),
                }
            }
        } else if has_spacing_prefix(a) {
            match facts[i].spacing_after_eq {
                Some(v) => Step::Next(i + 1, false, with_spacing(o, a.take(14), v)),
                None => Step::Fail(spacing_error(a.take(14), a.skip(15))),
            }
        } else if a == "--fuzzy"@ {
            let o1 = CliView { fuzzy: true, ..o };
            if has_next && value_like(next) {
                if valid_fuzzy_query(next) {
                    Step::Next(i + 2, false, CliView { fuzzy_query: Some(next), ..o1 })
                } else {
                    Step::Fail(fuzzy_error(next))
                }
            } else {
                Step::Next(i + 1, false, o1)
            }
        } else if starts_with_spec(a, "--fuzzy="@) {
            if valid_fuzzy_query(a.skip(8)) {
                Step::Next(i + 1, false, CliView { fuzzy: true, fuzzy_query: Some(a.skip(8)), ..o })
            } else {
                Step::Fail(fuzzy_error(a.skip(8)))
            }
        } else if a == "--watch"@ || a == "-w"@ {
            Step::Next(i + 1, false, CliView { watch: true, ..o })
        } else if a == "--update"@ {
            Step::Next(i + 1, false, CliView { update: true, ..o })
        } else if a == "--config"@ {
            if has_next && next == "reset"@ {
                Step::Next(i + 2, false, CliView { config: Some(ConfigAction::Reset), ..o })
            } else if has_next && next == "remove"@ {
                Step::Next(i + 2, false, CliView { config: Some(ConfigAction::Remove), ..o })
            } else {
                Step::Next(i + 1, false, CliView { config: Some(ConfigAction::Open), ..o })
            }
        } else if a == "--auto-complete"@ {
            if has_next && value_like(next) {
                match auto_complete_spec(next) {
                    Ok(v) => Step::Next(i + 2, false, CliView { auto_complete: Some(v), ..o }),
                    Err(e) => Step::Fail(e),
                }
            } else {
                Step::Next(i + 1, false, CliView { auto_complete: Some((None, AutoCompleteMode::Install)), ..o })
            }
        } else if a == "--debug-input"@ {
            Step::Next(i + 1, false, CliView { debug_input: true, ..o })
        } else if a == "--help"@ || a == "-h"@ {
            Step::Next(i + 1, false, CliView { print_help: true, ..o })
        } else if a == "--version"@ || a == "-V"@ {
            Step::Next(i + 1, false, CliView { print_version: true, ..o })
        } else if a == "--history"@ || a == "-H"@ {
            if has_next && next == "edit"@ {
                Step::Next(i + 2, false, CliView { history: Some(HistoryAction::Edit), ..o })
            } else if has_next && next == "remove"@ {
                Step::Next(i + 2, false, CliView { history: Some(HistoryAction::Remove), ..o })
            } else if has_next && value_like(next) {
                match history_spec(next) {
                    Ok(h) => Step::Next(i + 2, false, CliView { history: Some(h), ..o }),
                    Err(e) => Step::Fail(e),
                }
            } else {
                Step::Next(i + 1, false, CliView { history: Some(HistoryAction::Picker), ..o })
            }
        } else if a == "--last"@ || a == "-l"@ {
            Step::Next(i + 1, false, CliView { last: true, ..o })
        } else if a == "--theme"@ {
            if has_next && trim_spec(next).len() > 0 {
                Step::Next(i + 2, false, CliView { theme: Some(trim_spec(next)), ..o })
            } else {
                Step::Fail("Missing value for --theme"@)
            }
        } else if starts_with_spec(a, "--theme="@) {
            if trim_spec(a.skip(8)).len() > 0 {
                Step::Next(i + 1, false, CliView { theme: Some(trim_spec(a.skip(8))), ..o })
            } else {
                Step::Fail("Missing value for --theme"@)
            }
        } else if a == "--editor"@ || a == "-e"@ {
            if has_next {
                Step::Next(i + 2, false, CliView { editor: Some(next), ..o })
            } else {
                Step::Fail("Missing value for --editor"@)
            }
        } else if starts_with_spec(a, "--editor="@) {
            Step::Next(i + 1, false, CliView { editor: Some(a.skip(9)), ..o })
        } else if a == "--inline"@ {
            if has_next && facts[i + 1].inline_spec {
                match facts[i + 1].inline_error {
                    Some(e) => Step::Fail(e@),
                    None => Step::Next(i + 2, false, CliView { inline: Some(Some(next)), ..o }),
                }
            } else {
                Step::Next(i + 1, false, CliView { inline: Some(None), ..o })
            }
        } else if starts_with_spec(a, "--inline="@) {
            match facts[i].inline_error_after_eq {
                Some(e) => Step::Fail(e@),
                None => Step::Next(i + 1, false, CliView { inline: Some(Some(a.skip(9))), ..o }),
            }
        } else if a == "--width"@ {
            if has_next {
                match width_spec(next) {
                    Ok(w) => Step::Next(i + 2, false, CliView { width: Some(w), ..o }),
                    Err(e) => Step::Fail(e),
                }
            } else {
                Step::Fail("Missing value for --width"@)
            }
        } else if starts_with_spec(a, "--width="@) {
            match width_spec(a.skip(8)) {
                Ok(w) => Step::Next(i + 1, false, CliView { width: Some(w), ..o }),
                Err(e) => Step::Fail(e),
            }
        } else if a == "--"@ {
            Step::Next(i + 1, true, o)
        } else if a.len() > 0 && a[0] == '-' {
            Step::Fail("Unknown flag: "@ + a)
        } else if o.file_arg is None {
            Step::Next(i + 1, false, CliView { file_arg: Some(a), ..o })
        } else {
            Step::Fail("Too many file arguments"@)
        }
    }
}

/// Reads the arguments from `i` on, `pos_only` after `--`, into `o`.
pub open spec fn scan(args: Seq<Seq<char>>, facts: Seq<ArgFacts>, i: int, pos_only: bool, o: CliView) -> Result<CliView, Seq<char>>
    decreases args.len() - i,
{
    if i < 0 || i >= args.len() {
        Ok(o)
    } else {
        match scan_step(args, facts, i, pos_only, o) {
            Step::Next(j, p, o2) => if i < j {
                scan(args, facts, j, p, o2)
            } else {
                Ok(o2)
            },
            Step::Fail(e) => Err(e),
        }
    }
}

/// Anything besides a standalone action.
pub open spec fn has_other(o: CliView, standalone_count: int) -> bool {
    ||| standalone_count > 1
    ||| o.watch
    ||| o.picker
    ||| o.fuzzy
    ||| o.last
    ||| o.debug_input
    ||| o.file_arg is Some
    ||| o.theme is Some
    ||| o.editor is Some
    ||| o.node_spacing is Some
    ||| o.rank_spacing is Some
    ||| o.edge_spacing is Some
    ||| o.mermaid_full
}

pub open spec fn count_true(a: bool, b: bool, c: bool, d: bool) -> int {
    (if a { 1int } else { 0 }) + (if b { 1int } else { 0 }) + (if c { 1int } else { 0 }) + (if d {
        1int
    } else {
        0
    })
}

/// The combinations that are refused, checked in order.
pub open spec fn validate(o: CliView) -> Result<CliView, Seq<char>> {
    let n = count_true(o.update, o.config is Some, o.auto_complete is Some, o.history is Some);
    if has_other(o, n) && o.update {
        Err("--update must be used on its own"@)
    } else if has_other(o, n) && o.config is Some {
        Err("--config must be used on its own"@)
    } else if has_other(o, n) && o.auto_complete is Some {
        Err("--auto-complete must be used on its own"@)
    } else if has_other(o, n) && o.history is Some {
        Err("--history must be used on its own"@)
    } else if o.mermaid_full && o.inline is None && !o.print_help && !o.print_version {
        Err("--mermaid-full requires --inline"@)
    } else if o.inline is Some && o.watch {
        Err("--inline cannot be combined with --watch"@)
    } else if o.inline is Some && o.picker {
        Err("--inline cannot be combined with --picker"@)
    } else if o.inline is Some && o.fuzzy {
        Err("--inline cannot be combined with --fuzzy"@)
    } else if o.fuzzy && o.picker {
        Err("--fuzzy cannot be combined with --picker"@)
    } else if o.fuzzy && o.file_arg is Some {
        Err("--fuzzy cannot be combined with a file argument"@)
    } else if o.last && o.file_arg is Some {
        Err("--last cannot be combined with a file argument"@)
    } else if o.last && o.picker {
        Err("--last cannot be combined with --picker"@)
    } else if o.last && o.fuzzy {
        Err("--last cannot be combined with --fuzzy"@)
    } else {
        Ok(o)
    }
}

/// The options of a command line (`args[0]` is the program).
pub open spec fn cli_spec(args: Seq<Seq<char>>, facts: Seq<ArgFacts>) -> Result<CliView, Seq<char>> {
    match scan(args, facts, 1, false, default_cli()) {
        Ok(o) => validate(o),
        Err(e) => Err(e),
    }
}

impl CliOptions {
    pub fn new() -> (r: CliOptions)
        ensures
            r@ == default_cli(),
    {
        CliOptions {
            picker: false,
            watch: false,
            last: false,
            update: false,
            config: None,
            auto_complete: None,
            debug_input: false,
            print_help: false,
            print_version: false,
            file_arg: None,
            theme: None,
            editor: None,
            inline: None,
            width: None,
            node_spacing: None,
            rank_spacing: None,
            edge_spacing: None,
            mermaid_full: false,
            history: None,
            fuzzy: false,
            fuzzy_query: None,
        }
    }
}

fn set_spacing(o: CliOptions, name: &[char], v: u64) -> (r: CliOptions)
    ensures
        r@ == with_spacing(o@, name@, v),
{
    if is_lit(name, "--node-spacing") {
        CliOptions { node_spacing: Some(v), ..o }
    } else if is_lit(name, "--rank-spacing") {
        CliOptions { rank_spacing: Some(v), ..o }
    } else {
        CliOptions { edge_spacing: Some(v), ..o }
    }
}

fn spacing_message(name: &[char], value: &[char]) -> (r: String)
    ensures
        r@ == spacing_error(name@, value@),
{
    let mut m = string_from_chars(name);
    m.append(": expected a finite number from 0 to 500, got '");
    let v = string_from_chars(value);
    m.append(v.as_str());
    m.append("'");
    m
}

fn is_value_like(a: &[char]) -> (r: bool)
    ensures
        r == value_like(a@),
{
    !(a.len() > 0 && a[0] == '-')
}

/// One step of `scan`: reads the argument at `i` (and its value).
#[verifier::rlimit(100)]
#[verifier::spinoff_prover]
fn cli_step(args: &Vec<String>, facts: &Vec<ArgFacts>, i: usize, pos_only: bool, o: CliOptions) -> (r: Result<(usize, bool, CliOptions), String>)
    requires
        i < args@.len(),
        facts@.len() == args@.len(),
    ensures
        r matches Ok(t) ==> i < t.0 <= args@.len(),
        match scan_step(crate::text::strings_view(args@), facts@, i as int, pos_only, o@) {
            Step::Next(j, p, o2) => r matches Ok(t) && t.0 == j && t.1 == p && t.2@ == o2,
            Step::Fail(e) => r matches Err(m) && m@ == e,
        },
{
    let ghost av = crate::text::strings_view(args@);
    let a = chars_of(args[i].as_str());
    assert(a@ == av[i as int]);
    let has_next = args.len() - i > 1;
    let next: Vec<char> = if has_next {
        chars_of(args[i + 1].as_str())
    } else {
        Vec::new()
    };
    assert(has_next ==> next@ == av[i + 1]);
    if pos_only {
        if o.file_arg.is_none() {
            return Ok((i + 1, true, CliOptions { file_arg: Some(args[i].clone()), ..o }));
        }
        return Err(String::from_str("Too many file arguments"));
    }
    if is_lit(a.as_slice(), "--picker") {
        return Ok((i + 1, false, CliOptions { picker: true, ..o }));
    }
    if is_lit(a.as_slice(), "--mermaid-full") {
        return Ok((i + 1, false, CliOptions { mermaid_full: true, ..o }));
    }
    if is_lit(a.as_slice(), "--node-spacing") || is_lit(a.as_slice(), "--rank-spacing") || is_lit(
        a.as_slice(),
        "--edge-spacing",
    ) {
        if !has_next {
            let mut m = String::from_str("Missing value for ");
            m.append(args[i].as_str());
            return Err(m);
        }
        return match facts[i + 1].spacing {
            Some(v) => Ok((i + 2, false, set_spacing(o, a.as_slice(), v))),
            None => Err(spacing_message(a.as_slice(), next.as_slice())),
        };
    }
    if starts_with_lit(a.as_slice(), "--node-spacing=") || starts_with_lit(a.as_slice(), "--rank-spacing=")
        || starts_with_lit(a.as_slice(), "--edge-spacing=") {
        proof {
            reveal_strlit("--node-spacing=");
            reveal_strlit("--rank-spacing=");
            reveal_strlit("--edge-spacing=");
        }
        let name = sub_chars(a.as_slice(), 0, 14);
        assert(name@ =~= a@.take(14));
        return match facts[i].spacing_after_eq {
            Some(v) => Ok((i + 1, false, set_spacing(o, name.as_slice(), v))),
            None => {
                let value = sub_chars(a.as_slice(), 15, a.len());
                assert(value@ =~= a@.skip(15));
                Err(spacing_message(name.as_slice(), value.as_slice()))
            },
        };
    }
    if is_lit(a.as_slice(), "--fuzzy") {
        if has_next && is_value_like(next.as_slice()) {
            return match parse_fuzzy_query(args[i + 1].clone()) {
                Ok(q) => Ok((i + 2, false, CliOptions { fuzzy: true, fuzzy_query: Some(q), ..o })),
                Err(e) => Err(e),
            };
        }
        return Ok((i + 1, false, CliOptions { fuzzy: true, ..o }));
    }
    if starts_with_lit(a.as_slice(), "--fuzzy=") {
        proof {
            reveal_strlit("--fuzzy=");
        }
        let v = sub_chars(a.as_slice(), 8, a.len());
        assert(v@ =~= a@.skip(8));
        return match parse_fuzzy_query(string_from_chars(v.as_slice())) {
            Ok(q) => Ok((i + 1, false, CliOptions { fuzzy: true, fuzzy_query: Some(q), ..o })),
            Err(e) => Err(e),
        };
    }
    step_switches(args, facts, i, a, next, o)
}

/// The middle of `cli_step`: switches and optional values.
#[verifier::rlimit(100)]
#[verifier::spinoff_prover]
fn step_switches(args: &Vec<String>, facts: &Vec<ArgFacts>, i: usize, a: Vec<char>, next: Vec<char>, o: CliOptions) -> (r: Result<(usize, bool, CliOptions), String>)
    requires
        i < args@.len(),
        facts@.len() == args@.len(),
        a@ == args@[i as int]@,
        i + 1 < args@.len() ==> next@ == args@[i + 1]@,
        !is_spacing_flag(a@),
        !has_spacing_prefix(a@),
        a@ != "--picker"@,
        a@ != "--mermaid-full"@,
        a@ != "--fuzzy"@,
        !starts_with_spec(a@, "--fuzzy="@),
    ensures
        r matches Ok(t) ==> i < t.0 <= args@.len(),
        match scan_step(crate::text::strings_view(args@), facts@, i as int, false, o@) {
            Step::Next(j, p, o2) => r matches Ok(t) && t.0 == j && t.1 == p && t.2@ == o2,
            Step::Fail(e) => r matches Err(m) && m@ == e,
        },
{
    let ghost av = crate::text::strings_view(args@);
    assert(a@ == av[i as int]);
    let has_next = args.len() - i > 1;
    if is_lit(a.as_slice(), "--watch") || is_lit(a.as_slice(), "-w") {
        return Ok((i + 1, false, CliOptions { watch: true, ..o }));
    }
    if is_lit(a.as_slice(), "--update") {
        return Ok((i + 1, false, CliOptions { update: true, ..o }));
    }
    if is_lit(a.as_slice(), "--config") {
        if has_next && is_lit(next.as_slice(), "reset") {
            return Ok((i + 2, false, CliOptions { config: Some(ConfigAction::Reset), ..o }));
        }
        if has_next && is_lit(next.as_slice(), "remove") {
            return Ok((i + 2, false, CliOptions { config: Some(ConfigAction::Remove), ..o }));
        }
        return Ok((i + 1, false, CliOptions { config: Some(ConfigAction::Open), ..o }));
    }
    if is_lit(a.as_slice(), "--auto-complete") {
        if has_next && is_value_like(next.as_slice()) {
            return match parse_auto_complete_value(args[i + 1].as_str()) {
                Ok(v) => Ok((i + 2, false, CliOptions { auto_complete: Some(v), ..o })),
                Err(e) => Err(e),
            };
        }
        return Ok((
            i + 1,
            false,
            CliOptions {
                auto_complete: Some(AutoCompleteArg { shell: None, mode: AutoCompleteMode::Install }),
                ..o
            },
        ));
    }
    if is_lit(a.as_slice(), "--debug-input") {
        return Ok((i + 1, false, CliOptions { debug_input: true, ..o }));
    }
    if is_lit(a.as_slice(), "--help") || is_lit(a.as_slice(), "-h") {
        return Ok((i + 1, false, CliOptions { print_help: true, ..o }));
    }
    if is_lit(a.as_slice(), "--version") || is_lit(a.as_slice(), "-V") {
        return Ok((i + 1, false, CliOptions { print_version: true, ..o }));
    }
    if is_lit(a.as_slice(), "--history") || is_lit(a.as_slice(), "-H") {
        if has_next && is_lit(next.as_slice(), "edit") {
            return Ok((i + 2, false, CliOptions { history: Some(HistoryAction::Edit), ..o }));
        }
        if has_next && is_lit(next.as_slice(), "remove") {
            return Ok((i + 2, false, CliOptions { history: Some(HistoryAction::Remove), ..o }));
        }
        if has_next && is_value_like(next.as_slice()) {
            return match parse_history_list_spec(args[i + 1].as_str()) {
                Ok(h) => Ok((i + 2, false, CliOptions { history: Some(h), ..o })),
                Err(e) => Err(e),
            };
        }
        return Ok((i + 1, false, CliOptions { history: Some(HistoryAction::Picker), ..o }));
    }
    if is_lit(a.as_slice(), "--last") || is_lit(a.as_slice(), "-l") {
        return Ok((i + 1, false, CliOptions { last: true, ..o }));
    }
    step_values(args, facts, i, a, next, o)
}

/// The rest of `cli_step`: options that carry a text value, `--`, and
/// positional arguments.
#[verifier::rlimit(100)]
#[verifier::spinoff_prover]
fn step_values(args: &Vec<String>, facts: &Vec<ArgFacts>, i: usize, a: Vec<char>, next: Vec<char>, o: CliOptions) -> (r: Result<(usize, bool, CliOptions), String>)
    requires
        i < args@.len(),
        facts@.len() == args@.len(),
        a@ == args@[i as int]@,
        i + 1 < args@.len() ==> next@ == args@[i + 1]@,
        !is_spacing_flag(a@),
        !has_spacing_prefix(a@),
        a@ != "--picker"@,
        a@ != "--mermaid-full"@,
        a@ != "--fuzzy"@,
        !starts_with_spec(a@, "--fuzzy="@),
        a@ != "--watch"@,
        a@ != "-w"@,
        a@ != "--update"@,
        a@ != "--config"@,
        a@ != "--auto-complete"@,
        a@ != "--debug-input"@,
        a@ != "--help"@,
        a@ != "-h"@,
        a@ != "--version"@,
        a@ != "-V"@,
        a@ != "--history"@,
        a@ != "-H"@,
        a@ != "--last"@,
        a@ != "-l"@,
    ensures
        r matches Ok(t) ==> i < t.0 <= args@.len(),
        match scan_step(crate::text::strings_view(args@), facts@, i as int, false, o@) {
            Step::Next(j, p, o2) => r matches Ok(t) && t.0 == j && t.1 == p && t.2@ == o2,
            Step::Fail(e) => r matches Err(m) && m@ == e,
        },
{
    let ghost av = crate::text::strings_view(args@);
    assert(a@ == av[i as int]);
    let has_next = args.len() - i > 1;
    if is_lit(a.as_slice(), "--theme") {
        if has_next {
            let t = crate::text::trim_chars(next.as_slice());
            if t.len() > 0 {
                return Ok((i + 2, false, CliOptions { theme: Some(string_from_chars(t.as_slice())), ..o }));
            }
        }
        return Err(String::from_str("Missing value for --theme"));
    }
    if starts_with_lit(a.as_slice(), "--theme=") {
        proof {
            reveal_strlit("--theme=");
        }
        let rest = sub_chars(a.as_slice(), 8, a.len());
        assert(rest@ =~= a@.skip(8));
        let t = crate::text::trim_chars(rest.as_slice());
        if t.len() > 0 {
            return Ok((i + 1, false, CliOptions { theme: Some(string_from_chars(t.as_slice())), ..o }));
        }
        return Err(String::from_str("Missing value for --theme"));
    }
    if is_lit(a.as_slice(), "--editor") || is_lit(a.as_slice(), "-e") {
        if has_next {
            return Ok((i + 2, false, CliOptions { editor: Some(args[i + 1].clone()), ..o }));
        }
        return Err(String::from_str("Missing value for --editor"));
    }
    if starts_with_lit(a.as_slice(), "--editor=") {
        proof {
            reveal_strlit("--editor=");
        }
        let rest = sub_chars(a.as_slice(), 9, a.len());
        assert(rest@ =~= a@.skip(9));
        return Ok((i + 1, false, CliOptions { editor: Some(string_from_chars(rest.as_slice())), ..o }));
    }
    if is_lit(a.as_slice(), "--inline") {
        if has_next && facts[i + 1].inline_spec {
            return match &facts[i + 1].inline_error {
                Some(e) => Err(e.clone()),
                None => Ok((i + 2, false, CliOptions { inline: Some(Some(args[i + 1].clone())), ..o })),
            };
        }
        return Ok((i + 1, false, CliOptions { inline: Some(None), ..o }));
    }
    if starts_with_lit(a.as_slice(), "--inline=") {
        proof {
            reveal_strlit("--inline=");
        }
        return match &facts[i].inline_error_after_eq {
            Some(e) => Err(e.clone()),
            None => {
                let rest = sub_chars(a.as_slice(), 9, a.len());
                assert(rest@ =~= a@.skip(9));
                Ok((i + 1, false, CliOptions { inline: Some(Some(string_from_chars(rest.as_slice()))), ..o }))
            },
        };
    }
    if is_lit(a.as_slice(), "--width") {
        if has_next {
            return match parse_width_value(args[i + 1].as_str()) {
                Ok(w) => Ok((i + 2, false, CliOptions { width: Some(w), ..o })),
                Err(e) => Err(e),
            };
        }
        return Err(String::from_str("Missing value for --width"));
    }
    if starts_with_lit(a.as_slice(), "--width=") {
        proof {
            reveal_strlit("--width=");
        }
        let rest = sub_chars(a.as_slice(), 8, a.len());
        assert(rest@ =~= a@.skip(8));
        let rs = string_from_chars(rest.as_slice());
        return match parse_width_value(rs.as_str()) {
            Ok(w) => Ok((i + 1, false, CliOptions { width: Some(w), ..o })),
            Err(e) => Err(e),
        };
    }
    if is_lit(a.as_slice(), "--") {
        return Ok((i + 1, true, o));
    }
    if a.len() > 0 && a[0] == '-' {
        let mut m = String::from_str("Unknown flag: ");
        m.append(args[i].as_str());
        return Err(m);
    }
    if o.file_arg.is_none() {
        return Ok((i + 1, false, CliOptions { file_arg: Some(args[i].clone()), ..o }));
    }
    Err(String::from_str("Too many file arguments"))
}

/// The refused combinations of `validate`.
fn validate_options(o: CliOptions) -> (r: Result<CliOptions, String>)
    ensures
        match validate(o@) {
            Ok(v) => r matches Ok(p) && p@ == v,
            Err(e) => r matches Err(m) && m@ == e,
        },
{
    let n: usize = (if o.update { 1usize } else { 0 }) + (if o.config.is_some() { 1usize } else { 0 }) + (
    if o.auto_complete.is_some() {
        1usize
    } else {
        0
    }) + (if o.history.is_some() { 1usize } else { 0 });
    let other = n > 1 || o.watch || o.picker || o.fuzzy || o.last || o.debug_input || o.file_arg.is_some()
        || o.theme.is_some() || o.editor.is_some() || o.node_spacing.is_some() || o.rank_spacing.is_some()
        || o.edge_spacing.is_some() || o.mermaid_full;
    if other && o.update {
        return Err(String::from_str("--update must be used on its own"));
    }
    if other && o.config.is_some() {
        return Err(String::from_str("--config must be used on its own"));
    }
    if other && o.auto_complete.is_some() {
        return Err(String::from_str("--auto-complete must be used on its own"));
    }
    if other && o.history.is_some() {
        return Err(String::from_str("--history must be used on its own"));
    }
    if o.mermaid_full && o.inline.is_none() && !o.print_help && !o.print_version {
        return Err(String::from_str("--mermaid-full requires --inline"));
    }
    if o.inline.is_some() && o.watch {
        return Err(String::from_str("--inline cannot be combined with --watch"));
    }
    if o.inline.is_some() && o.picker {
        return Err(String::from_str("--inline cannot be combined with --picker"));
    }
    if o.inline.is_some() && o.fuzzy {
        return Err(String::from_str("--inline cannot be combined with --fuzzy"));
    }
    if o.fuzzy && o.picker {
        return Err(String::from_str("--fuzzy cannot be combined with --picker"));
    }
    if o.fuzzy && o.file_arg.is_some() {
        return Err(String::from_str("--fuzzy cannot be combined with a file argument"));
    }
    if o.last && o.file_arg.is_some() {
        return Err(String::from_str("--last cannot be combined with a file argument"));
    }
    if o.last && o.picker {
        return Err(String::from_str("--last cannot be combined with --picker"));
    }
    if o.last && o.fuzzy {
        return Err(String::from_str("--last cannot be combined with --fuzzy"));
    }
    Ok(o)
}

/// Parses the command line (`args[0]` is the program). `facts[i]` holds
/// what the spacing and inline-spec parsers say of `args[i]`.
pub fn parse_cli(args: &Vec<String>, facts: &Vec<ArgFacts>) -> (r: Result<CliOptions, String>)
    requires
        facts@.len() == args@.len(),
    ensures
        match cli_spec(crate::text::strings_view(args@), facts@) {
            Ok(v) => r matches Ok(o) && o@ == v,
            Err(e) => r matches Err(m) && m@ == e,
        },
{
    let ghost av = crate::text::strings_view(args@);
    let mut o = CliOptions::new();
    let mut i: usize = 1;
    let mut pos_only = false;
    while i < args.len()
        invariant
            av == crate::text::strings_view(args@),
            facts@.len() == args@.len(),
            1 <= i,
            scan(av, facts@, 1, false, default_cli()) == scan(av, facts@, i as int, pos_only, o@),
        decreases args@.len() - i,
    {
        match cli_step(args, facts, i, pos_only, o) {
            Ok((j, p, o2)) => {
                i = j;
                pos_only = p;
                o = o2;
            },
            Err(e) => {
                return Err(e);
            },
        }
    }
    validate_options(o)
}

} // verus!
