//! Command-line parsing, modelled on `xclip(1)`.
//!
//! Options accept either a separate value (`-selection clipboard`) or an
//! attached one (`-selection=clipboard`), and both single- and double-dash
//! spellings are honoured (`-out`, `--out`). A lone `-` is treated as standard
//! input, like most Unix tools.

use crate::text;
use crate::text::chars_of;
use crate::text::chars_start_with;
use crate::text::parse_u32;
use crate::text::starts_with_char;
use crate::text::str_eq;
use vstd::prelude::*;

verus! {

#[derive(Clone, Copy, PartialEq, Eq, Structural, Debug)]
pub enum Mode {
    /// Read data in and own a selection (`-i`, the default).
    Copy,
    /// Print the current selection (`-o`).
    Paste,
}

#[derive(Clone, Copy, PartialEq, Eq, Structural, Debug)]
pub enum Selection {
    Primary,
    Clipboard,
}

#[derive(Debug)]
pub struct Args {
    pub mode: Mode,
    pub selection: Selection,
    pub target: Option<String>,
    /// Paste requests to serve before exiting; 0 means unlimited.
    pub loops: u32,
    /// Strip a single trailing newline from the data.
    pub rmlastnl: bool,
    /// When copying, also echo the input to stdout.
    pub filter: bool,
    /// Stay in the foreground instead of forking a serving daemon.
    pub foreground: bool,
    pub display: Option<String>,
    /// Positional arguments — input files when copying.
    pub files: Vec<String>,
    pub show_help: bool,
    pub show_version: bool,
}

/// What [`Args`] hold.
#[verifier::ext_equal]
pub struct ArgsView {
    pub mode: Mode,
    pub selection: Selection,
    pub target: Option<Seq<char>>,
    pub loops: u32,
    pub rmlastnl: bool,
    pub filter: bool,
    pub foreground: bool,
    pub display: Option<Seq<char>>,
    pub files: Seq<Seq<char>>,
    pub show_help: bool,
    pub show_version: bool,
}

impl View for Args {
    type V = ArgsView;

    open spec fn view(&self) -> ArgsView {
        ArgsView {
            mode: self.mode,
            selection: self.selection,
            target: text::optional(self.target),
            loops: self.loops,
            rmlastnl: self.rmlastnl,
            filter: self.filter,
            foreground: self.foreground,
            display: text::optional(self.display),
            files: text::texts(self.files@),
            show_help: self.show_help,
            show_version: self.show_version,
        }
    }
}

impl ArgsView {
    /// No argument given: copy into the PRIMARY selection, like xclip.
    pub open spec fn defaults() -> ArgsView {
        ArgsView {
            mode: Mode::Copy,
            selection: Selection::Primary,
            target: None,
            loops: 0,
            rmlastnl: false,
            filter: false,
            foreground: false,
            display: None,
            files: Seq::empty(),
            show_help: false,
            show_version: false,
        }
    }
}

// Selection names.

/// The lower-case form of an ASCII letter; any other character stays.
pub open spec fn ascii_lower(c: char) -> char {
    if 'A' <= c <= 'Z' {
        (c as u32 + 32) as char
    } else {
        c
    }
}

/// A text with its ASCII letters in lower case.
pub open spec fn lowered(s: Seq<char>) -> Seq<char> {
    s.map_values(|c: char| ascii_lower(c))
}

/// The selection that a name stands for, or what is wrong with it.
pub open spec fn selection_of(value: Seq<char>) -> Result<Selection, Seq<char>> {
    let v = lowered(value);
    if v.len() == 0 {
        Err("empty selection name"@)
    } else if text::begins_with("primary"@, v) {
        Ok(Selection::Primary)
    } else if text::begins_with("clipboard"@, v) || v == "b"@ {
        Ok(Selection::Clipboard)
    } else if text::begins_with("secondary"@, v) {
        Err("the secondary selection does not exist on Wayland"@)
    } else {
        Err("unknown selection '"@ + value + "'"@)
    }
}

fn lower_char(c: char) -> (l: char)
    ensures
        l == ascii_lower(c),
{
    if 'A' <= c && c <= 'Z' {
        ((c as u8) + 32) as char
    } else {
        c
    }
}

/// Whether `word` begins with `v`.
fn abbreviates(v: &[char], word: &str) -> (yes: bool)
    ensures
        yes == text::begins_with(word@, v@),
{
    let w: Vec<char> = chars_of(word);
    chars_start_with(w.as_slice(), v)
}

/// Resolve a selection name, accepting unambiguous abbreviations like xclip.
pub fn parse_selection(value: &str) -> (r: Result<Selection, String>)
    ensures
        text::outcome(r) == selection_of(value@),
{
    let mut v: Vec<char> = Vec::new();
    let chars: Vec<char> = chars_of(value);
    let mut i: usize = 0;
    while i < chars.len()
        invariant
            i <= chars@.len(),
            chars@ == value@,
            v@ == lowered(value@).take(i as int),
        decreases chars@.len() - i,
    {
        v.push(lower_char(chars[i]));
        assert(lowered(value@).take(i + 1) =~= lowered(value@).take(i as int).push(
            ascii_lower(chars@[i as int]),
        ));
        i += 1;
    }
    assert(v@ =~= lowered(value@));
    proof {
        reveal_strlit("b");
        assert(v@.len() == 1 && v@[0] == 'b' <==> v@ =~= "b"@);
    }
    if v.len() == 0 {
        return Err("empty selection name".to_owned());
    }
    if abbreviates(v.as_slice(), "primary") {
        Ok(Selection::Primary)
    } else if abbreviates(v.as_slice(), "clipboard") || (v.len() == 1 && v[0] == 'b') {
        Ok(Selection::Clipboard)
    } else if abbreviates(v.as_slice(), "secondary") {
        Err("the secondary selection does not exist on Wayland".to_owned())
    } else {
        let mut e: String = "unknown selection '".to_owned();
        e.append(value);
        e.append("'");
        Err(e)
    }
}

// Options.

/// What an option does.
#[derive(Clone, Copy, PartialEq, Eq, Structural)]
pub enum Opt {
    Copy,
    Paste,
    Selection,
    Target,
    Loops,
    RmLastNl,
    Filter,
    Foreground,
    Display,
    Help,
    Version,
    /// Accepted for xclip compatibility but not meaningful here.
    NoOp,
}

/// The option of a name.
pub open spec fn opt_of(name: Seq<char>) -> Option<Opt> {
    if name == "i"@ || name == "in"@ {
        Some(Opt::Copy)
    } else if name == "o"@ || name == "out"@ {
        Some(Opt::Paste)
    } else if name == "sel"@ || name == "selection"@ {
        Some(Opt::Selection)
    } else if name == "t"@ || name == "tar"@ || name == "target"@ {
        Some(Opt::Target)
    } else if name == "l"@ || name == "loops"@ {
        Some(Opt::Loops)
    } else if name == "r"@ || name == "rmlastnl"@ {
        Some(Opt::RmLastNl)
    } else if name == "f"@ || name == "filter"@ {
        Some(Opt::Filter)
    } else if name == "fg"@ || name == "foreground"@ || name == "quiet"@ {
        Some(Opt::Foreground)
    } else if name == "d"@ || name == "display"@ {
        Some(Opt::Display)
    } else if name == "h"@ || name == "help"@ {
        Some(Opt::Help)
    } else if name == "version"@ {
        Some(Opt::Version)
    } else if name == "noutf8"@ || name == "verbose"@ || name == "silent"@ {
        Some(Opt::NoOp)
    } else {
        None
    }
}

fn find_opt(name: &str) -> (opt: Option<Opt>)
    ensures
        opt == opt_of(name@),
{
    if str_eq(name, "i") || str_eq(name, "in") {
        Some(Opt::Copy)
    } else if str_eq(name, "o") || str_eq(name, "out") {
        Some(Opt::Paste)
    } else if str_eq(name, "sel") || str_eq(name, "selection") {
        Some(Opt::Selection)
    } else if str_eq(name, "t") || str_eq(name, "tar") || str_eq(name, "target") {
        Some(Opt::Target)
    } else if str_eq(name, "l") || str_eq(name, "loops") {
        Some(Opt::Loops)
    } else if str_eq(name, "r") || str_eq(name, "rmlastnl") {
        Some(Opt::RmLastNl)
    } else if str_eq(name, "f") || str_eq(name, "filter") {
        Some(Opt::Filter)
    } else if str_eq(name, "fg") || str_eq(name, "foreground") || str_eq(name, "quiet") {
        Some(Opt::Foreground)
    } else if str_eq(name, "d") || str_eq(name, "display") {
        Some(Opt::Display)
    } else if str_eq(name, "h") || str_eq(name, "help") {
        Some(Opt::Help)
    } else if str_eq(name, "version") {
        Some(Opt::Version)
    } else if str_eq(name, "noutf8") || str_eq(name, "verbose") || str_eq(name, "silent") {
        Some(Opt::NoOp)
    } else {
        None
    }
}

/// Whether an option takes a value.
pub open spec fn takes_value(opt: Opt) -> bool {
    opt == Opt::Selection || opt == Opt::Target || opt == Opt::Loops || opt == Opt::Display
}

impl ArgsView {
    /// The arguments with an option that takes no value.
    pub open spec fn with_flag(self, opt: Opt) -> ArgsView {
        match opt {
            Opt::Copy => ArgsView { mode: Mode::Copy, ..self },
            Opt::Paste => ArgsView { mode: Mode::Paste, ..self },
            Opt::RmLastNl => ArgsView { rmlastnl: true, ..self },
            Opt::Filter => ArgsView { filter: true, ..self },
            Opt::Foreground => ArgsView { foreground: true, ..self },
            Opt::Help => ArgsView { show_help: true, ..self },
            Opt::Version => ArgsView { show_version: true, ..self },
            _ => self,
        }
    }

    /// The arguments with an option and its value, or what is wrong with the
    /// value.
    pub open spec fn with_value(self, opt: Opt, value: Seq<char>) -> Result<ArgsView, Seq<char>> {
        match opt {
            Opt::Selection => match selection_of(value) {
                Ok(selection) => Ok(ArgsView { selection, ..self }),
                Err(e) => Err(e),
            },
            Opt::Target => Ok(ArgsView { target: Some(value), ..self }),
            Opt::Loops => match text::u32_of(value) {
                Some(loops) => Ok(ArgsView { loops, ..self }),
                None => Err("invalid loop count '"@ + value + "'"@),
            },
            Opt::Display => Ok(ArgsView { display: Some(value), ..self }),
            _ => Ok(self),
        }
    }
}

/// Whether an argument names a file: a lone `-` (standard input), or anything
/// that does not start with a dash.
pub open spec fn is_file(arg: Seq<char>) -> bool {
    arg == "-"@ || !(arg.len() > 0 && arg[0] == '-')
}

/// An argument without its leading dashes.
pub open spec fn bare(arg: Seq<char>) -> Seq<char>
    decreases arg.len(),
{
    if arg.len() > 0 && arg[0] == '-' {
        bare(arg.drop_first())
    } else {
        arg
    }
}

/// How many characters stand before the first `=`.
pub open spec fn name_len(s: Seq<char>) -> nat
    decreases s.len(),
{
    if s.len() == 0 || s[0] == '=' {
        0
    } else {
        1 + name_len(s.drop_first())
    }
}

/// The name of an option.
pub open spec fn name_of(arg: Seq<char>) -> Seq<char> {
    bare(arg).take(name_len(bare(arg)) as int)
}

/// The value that is attached to an option with `=`, if there is one.
pub open spec fn attached(arg: Seq<char>) -> Option<Seq<char>> {
    let n = name_len(bare(arg));
    if n < bare(arg).len() {
        Some(bare(arg).skip(n as int + 1))
    } else {
        None
    }
}

/// What the arguments `argv` make of `args`, or what is wrong with them.
pub open spec fn parsed(args: ArgsView, argv: Seq<Seq<char>>) -> Result<ArgsView, Seq<char>>
    decreases argv.len(),
{
    if argv.len() == 0 {
        Ok(args)
    } else {
        let arg = argv[0];
        if is_file(arg) {
            parsed(ArgsView { files: args.files.push(arg), ..args }, argv.skip(1))
        } else {
            match opt_of(name_of(arg)) {
                None => Err("invalid option '"@ + arg + "'"@),
                Some(opt) => if !takes_value(opt) {
                    parsed(args.with_flag(opt), argv.skip(1))
                } else {
                    match attached(arg) {
                        Some(value) => match args.with_value(opt, value) {
                            Ok(args) => parsed(args, argv.skip(1)),
                            Err(e) => Err(e),
                        },
                        None => if argv.len() == 1 {
                            Err("option '-"@ + name_of(arg) + "' requires an argument"@)
                        } else {
                            match args.with_value(opt, argv[1]) {
                                Ok(args) => parsed(args, argv.skip(2)),
                                Err(e) => Err(e),
                            }
                        },
                    }
                },
            }
        }
    }
}

/// How many dashes lead.
fn leading_dashes(chars: &[char]) -> (n: usize)
    ensures
        n <= chars@.len(),
        bare(chars@) == chars@.skip(n as int),
{
    let mut n: usize = 0;
    assert(chars@.skip(0) =~= chars@);
    while n < chars.len() && chars[n] == '-'
        invariant
            n <= chars@.len(),
            bare(chars@.skip(n as int)) == bare(chars@),
        decreases chars@.len() - n,
    {
        assert(chars@.skip(n as int).drop_first() =~= chars@.skip(n + 1));
        n += 1;
    }
    n
}

/// How many characters stand before the first `=`, from `start` on.
fn before_equals(chars: &[char], start: usize) -> (n: usize)
    requires
        start <= chars@.len(),
    ensures
        start + n <= chars@.len(),
        n == name_len(chars@.skip(start as int)),
{
    let mut i: usize = start;
    while i < chars.len() && chars[i] != '='
        invariant
            start <= i <= chars@.len(),
            name_len(chars@.skip(start as int)) == i - start + name_len(chars@.skip(i as int)),
        decreases chars@.len() - i,
    {
        assert(chars@.skip(i as int).drop_first() =~= chars@.skip(i + 1));
        i += 1;
    }
    i - start
}

/// Name and attached value of an option.
fn split_option(arg: &str) -> (r: (&str, Option<&str>))
    ensures
        r.0@ == name_of(arg@),
        text::optional_str(r.1) == attached(arg@),
{
    let chars: Vec<char> = chars_of(arg);
    let start: usize = leading_dashes(chars.as_slice());
    let n: usize = before_equals(chars.as_slice(), start);
    let name: &str = arg.substring_char(start, start + n);
    assert(name@ =~= name_of(arg@));
    let value: Option<&str> = if start + n < chars.len() {
        let value: &str = arg.substring_char(start + n + 1, chars.len());
        assert(value@ =~= bare(arg@).skip(n + 1));
        Some(value)
    } else {
        None
    };
    (name, value)
}

impl Args {
    fn set_flag(&mut self, opt: Opt)
        ensures
            final(self)@ == old(self)@.with_flag(opt),
    {
        match opt {
            Opt::Copy => {
                self.mode = Mode::Copy;
            },
            Opt::Paste => {
                self.mode = Mode::Paste;
            },
            Opt::RmLastNl => {
                self.rmlastnl = true;
            },
            Opt::Filter => {
                self.filter = true;
            },
            Opt::Foreground => {
                self.foreground = true;
            },
            Opt::Help => {
                self.show_help = true;
            },
            Opt::Version => {
                self.show_version = true;
            },
            _ => {},
        }
    }

    fn set_value(&mut self, opt: Opt, value: &str) -> (r: Result<(), String>)
        ensures
            match old(self)@.with_value(opt, value@) {
                Ok(args) => r is Ok && final(self)@ == args,
                Err(e) => r matches Err(s) && s@ == e,
            },
    {
        match opt {
            Opt::Selection => {
                match parse_selection(value) {
                    Ok(selection) => {
                        self.selection = selection;
                    },
                    Err(e) => {
                        return Err(e);
                    },
                }
            },
            Opt::Target => {
                self.target = Some(value.to_owned());
            },
            Opt::Loops => {
                match parse_u32(value) {
                    Some(loops) => {
                        self.loops = loops;
                    },
                    None => {
                        let mut e: String = "invalid loop count '".to_owned();
                        e.append(value);
                        e.append("'");
                        return Err(e);
                    },
                }
            },
            Opt::Display => {
                self.display = Some(value.to_owned());
            },
            _ => {},
        }
        Ok(())
    }

    pub fn parse(argv: &[String]) -> (r: Result<Args, String>)
        ensures
            match parsed(ArgsView::defaults(), text::texts(argv@)) {
                Ok(args) => r matches Ok(a) && a@ == args,
                Err(e) => r matches Err(s) && s@ == e,
            },
    {
        let mut args: Args = Args {
            // xclip defaults: copy into the PRIMARY selection.
            mode: Mode::Copy,
            selection: Selection::Primary,
            target: None,
            loops: 0,
            rmlastnl: false,
            filter: false,
            foreground: false,
            display: None,
            files: Vec::new(),
            show_help: false,
            show_version: false,
        };
        let ghost all = text::texts(argv@);
        assert(args@ =~= ArgsView::defaults());
        assert(all.skip(0) =~= all);

        let mut i: usize = 0;
        while i < argv.len()
            invariant
                i <= argv@.len(),
                all == text::texts(argv@),
                parsed(args@, all.skip(i as int)) == parsed(ArgsView::defaults(), all),
            decreases argv@.len() - i,
        {
            let arg: &str = argv[i].as_str();
            assert(all.skip(i as int)[0] == arg@);
            assert(all.skip(i as int).skip(1) =~= all.skip(i + 1));
            assert(i + 1 < argv@.len() ==> all.skip(i as int)[1] == argv@[i + 1]@
                && all.skip(i as int).skip(2) =~= all.skip(i + 2));

            if str_eq(arg, "-") || !starts_with_char(arg, '-') {
                let ghost before = args.files@;
                args.files.push(arg.to_owned());
                proof {
                    text::texts_push(before, args.files@.last());
                }
                i += 1;
                continue;
            }
            let (name, inline): (&str, Option<&str>) = split_option(arg);
            let opt: Opt = match find_opt(name) {
                Some(opt) => opt,
                None => {
                    let mut e: String = "invalid option '".to_owned();
                    e.append(arg);
                    e.append("'");
                    return Err(e);
                },
            };
            match opt {
                Opt::Selection | Opt::Target | Opt::Loops | Opt::Display => {
                    // This option's value comes from `=value` or the next argument.
                    let value: &str = match inline {
                        Some(value) => value,
                        None => {
                            i += 1;
                            if i == argv.len() {
                                let mut e: String = "option '-".to_owned();
                                e.append(name);
                                e.append("' requires an argument");
                                return Err(e);
                            }
                            argv[i].as_str()
                        },
                    };
                    if let Err(e) = args.set_value(opt, value) {
                        return Err(e);
                    }
                },
                _ => {
                    args.set_flag(opt);
                },
            }
            i += 1;
        }
        Ok(args)
    }
}

// What the program is to do.

/// What the arguments ask for.
#[derive(Clone, Copy, PartialEq, Eq, Structural, Debug)]
pub enum Command {
    Help,
    Version,
    Copy,
    Paste,
}

impl Args {
    /// What the arguments ask for: help comes before the version, and either
    /// before any work.
    pub fn command(&self) -> (command: Command)
        ensures
            command == (if self@.show_help {
                Command::Help
            } else if self@.show_version {
                Command::Version
            } else if self@.mode == Mode::Copy {
                Command::Copy
            } else {
                Command::Paste
            }),
    {
        if self.show_help {
            Command::Help
        } else if self.show_version {
            Command::Version
        } else {
            match self.mode {
                Mode::Copy => Command::Copy,
                Mode::Paste => Command::Paste,
            }
        }
    }
}

} // verus!
