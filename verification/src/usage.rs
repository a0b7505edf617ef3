//! What each argument on the command line does.
//!
//! The laws are on the text that the user types and on what becomes of the
//! settings. An argument is followed by whatever else was typed, so the laws
//! apply one after the other, from the first argument to the last.

use crate::args;
use crate::args::ArgsView;
use crate::args::Mode;
use crate::args::Opt;
use crate::args::Selection;
use crate::laws;
use crate::layout;
use crate::text;
use vstd::prelude::*;

verus! {

/// Whether an argument turns the settings `before` into `after` and leaves the
/// rest to be read, be it with one dash more, or with a value attached that it
/// has no use for.
pub open spec fn turns(
    arg: Seq<char>,
    before: ArgsView,
    after: ArgsView,
    unused: Seq<char>,
    rest: Seq<Seq<char>>,
) -> bool {
    &&& args::parsed(before, seq![arg] + rest) == args::parsed(after, rest)
    &&& args::parsed(before, seq![seq!['-'] + arg] + rest) == args::parsed(after, rest)
    &&& args::parsed(before, seq![arg + seq!['='] + unused] + rest) == args::parsed(after, rest)
}

/// Whether an argument with a value turns the settings `before` into `after`, or
/// is refused, be the value the next argument or attached, and with one dash
/// more as well.
pub open spec fn turns_by_value(
    arg: Seq<char>,
    value: Seq<char>,
    before: ArgsView,
    after: Result<ArgsView, Seq<char>>,
    rest: Seq<Seq<char>>,
) -> bool {
    let end = match after {
        Ok(after) => args::parsed(after, rest),
        Err(e) => Err(e),
    };
    &&& args::parsed(before, seq![arg, value] + rest) == end
    &&& args::parsed(before, seq![seq!['-'] + arg, value] + rest) == end
    &&& args::parsed(before, seq![arg + seq!['='] + value] + rest) == end
}

// The start and the end.

/// Without arguments data is copied into the primary selection, as text, for
/// any number of pastes, from standard input, in the background.
pub proof fn nothing_typed_means_a_plain_copy()
    ensures
        ArgsView::defaults() == (ArgsView {
            mode: Mode::Copy,
            selection: Selection::Primary,
            target: None,
            loops: 0,
            rmlastnl: false,
            filter: false,
            foreground: false,
            display: None,
            files: Seq::empty(),
            show_help: false,
            show_version: false,
        }),
{
}

/// Where nothing is left to read, the settings are what they are.
pub proof fn settings_stay_at_the_end(before: ArgsView)
    ensures
        args::parsed(before, Seq::empty()) == Ok::<ArgsView, Seq<char>>(before),
{
}

/// A lone dash, and whatever does not begin with a dash, is a file.
pub proof fn other_arguments_are_files(before: ArgsView, arg: Seq<char>, rest: Seq<Seq<char>>)
    requires
        arg == seq!['-'] || arg.len() == 0 || arg[0] != '-',
    ensures
        args::parsed(before, seq![arg] + rest) == args::parsed(
            (ArgsView { files: before.files + seq![arg], ..before }),
            rest,
        ),
{
    reveal_strlit("-");
    assert("-"@ =~= seq!['-']);
    assert(before.files.push(arg) =~= before.files + seq![arg]);
    assert((seq![arg] + rest)[0] == arg);
    assert((seq![arg] + rest).skip(1) =~= rest);
}

// Options in general.

/// Whether a name can be that of an option as it stands: no dash leads, and no
/// value is attached.
spec fn plain(name: Seq<char>) -> bool {
    &&& name.len() > 0
    &&& name[0] != '-'
    &&& args::name_len(name) == name.len()
}

proof fn option_as_typed(name: Seq<char>, value: Seq<char>)
    requires
        plain(name),
    ensures
        ({
            let arg = seq!['-'] + name;
            let more = seq!['-'] + arg;
            let glued = arg + seq!['='] + value;
            &&& !args::is_file(arg) && args::name_of(arg) == name && args::attached(arg) is None
            &&& !args::is_file(more) && args::name_of(more) == name && args::attached(more) is None
            &&& !args::is_file(glued) && args::name_of(glued) == name && args::attached(glued)
                == Some(value)
        }),
{
    let arg = seq!['-'] + name;
    let more = seq!['-'] + arg;
    let glued = arg + seq!['='] + value;
    let tail = name + seq!['='] + value;
    reveal_strlit("-");
    assert("-"@.len() == 1);
    assert(arg.drop_first() =~= name);
    assert(more.drop_first() =~= arg);
    assert(glued.drop_first() =~= tail);
    assert(tail[0] == name[0]);
    assert(args::bare(name) == name);
    assert(args::bare(arg) == name);
    assert(args::bare(more) == args::bare(arg));
    assert(args::bare(tail) == tail);
    assert(args::bare(glued) == tail);
    laws::name_ends_at_equals(name, value);
    assert(name.take(name.len() as int) =~= name);
    assert(tail.take(name.len() as int) =~= name);
    assert(tail.skip(name.len() as int + 1) =~= value);
}

proof fn flag(
    name: Seq<char>,
    opt: Opt,
    before: ArgsView,
    unused: Seq<char>,
    rest: Seq<Seq<char>>,
)
    requires
        plain(name),
        args::opt_of(name) == Some(opt),
        !args::takes_value(opt),
    ensures
        turns(seq!['-'] + name, before, before.with_flag(opt), unused, rest),
{
    let arg = seq!['-'] + name;
    option_as_typed(name, unused);
    assert((seq![arg] + rest).skip(1) =~= rest);
    assert((seq![seq!['-'] + arg] + rest).skip(1) =~= rest);
    assert((seq![arg + seq!['='] + unused] + rest).skip(1) =~= rest);
}

proof fn valued(
    name: Seq<char>,
    opt: Opt,
    value: Seq<char>,
    before: ArgsView,
    rest: Seq<Seq<char>>,
)
    requires
        plain(name),
        args::opt_of(name) == Some(opt),
        args::takes_value(opt),
    ensures
        turns_by_value(seq!['-'] + name, value, before, before.with_value(opt, value), rest),
        args::parsed(before, seq![seq!['-'] + name]) == Err::<ArgsView, Seq<char>>(
            "option '-"@ + name + "' requires an argument"@,
        ),
{
    let arg = seq!['-'] + name;
    let more = seq!['-'] + arg;
    option_as_typed(name, value);
    let one = seq![arg, value] + rest;
    let two = seq![more, value] + rest;
    assert(one[0] == arg && one[1] == value && one.skip(2) =~= rest);
    assert(two[0] == more && two[1] == value && two.skip(2) =~= rest);
    assert((seq![arg + seq!['='] + value] + rest).skip(1) =~= rest);
    assert(seq![arg].len() == 1);
}

/// What is known of the names of options, letter by letter as far as it takes to
/// tell them apart.
proof fn option_names()
    ensures
        args::opt_of("i"@) == Some(Opt::Copy),
        plain("i"@),
        args::opt_of("in"@) == Some(Opt::Copy),
        plain("in"@),
        args::opt_of("o"@) == Some(Opt::Paste),
        plain("o"@),
        args::opt_of("out"@) == Some(Opt::Paste),
        plain("out"@),
        args::opt_of("sel"@) == Some(Opt::Selection),
        plain("sel"@),
        args::opt_of("selection"@) == Some(Opt::Selection),
        plain("selection"@),
        args::opt_of("t"@) == Some(Opt::Target),
        plain("t"@),
        args::opt_of("tar"@) == Some(Opt::Target),
        plain("tar"@),
        args::opt_of("target"@) == Some(Opt::Target),
        plain("target"@),
        args::opt_of("l"@) == Some(Opt::Loops),
        plain("l"@),
        args::opt_of("loops"@) == Some(Opt::Loops),
        plain("loops"@),
        args::opt_of("r"@) == Some(Opt::RmLastNl),
        plain("r"@),
        args::opt_of("rmlastnl"@) == Some(Opt::RmLastNl),
        plain("rmlastnl"@),
        args::opt_of("f"@) == Some(Opt::Filter),
        plain("f"@),
        args::opt_of("filter"@) == Some(Opt::Filter),
        plain("filter"@),
        args::opt_of("fg"@) == Some(Opt::Foreground),
        plain("fg"@),
        args::opt_of("foreground"@) == Some(Opt::Foreground),
        plain("foreground"@),
        args::opt_of("quiet"@) == Some(Opt::Foreground),
        plain("quiet"@),
        args::opt_of("d"@) == Some(Opt::Display),
        plain("d"@),
        args::opt_of("display"@) == Some(Opt::Display),
        plain("display"@),
        args::opt_of("h"@) == Some(Opt::Help),
        plain("h"@),
        args::opt_of("help"@) == Some(Opt::Help),
        plain("help"@),
        args::opt_of("version"@) == Some(Opt::Version),
        plain("version"@),
        args::opt_of("noutf8"@) == Some(Opt::NoOp),
        plain("noutf8"@),
        args::opt_of("verbose"@) == Some(Opt::NoOp),
        plain("verbose"@),
        args::opt_of("silent"@) == Some(Opt::NoOp),
        plain("silent"@),
{
    reveal_strlit("i");
    reveal_strlit("in");
    reveal_strlit("o");
    reveal_strlit("out");
    reveal_strlit("sel");
    reveal_strlit("selection");
    reveal_strlit("t");
    reveal_strlit("tar");
    reveal_strlit("target");
    reveal_strlit("l");
    reveal_strlit("loops");
    reveal_strlit("r");
    reveal_strlit("rmlastnl");
    reveal_strlit("f");
    reveal_strlit("filter");
    reveal_strlit("fg");
    reveal_strlit("foreground");
    reveal_strlit("quiet");
    reveal_strlit("d");
    reveal_strlit("display");
    reveal_strlit("h");
    reveal_strlit("help");
    reveal_strlit("version");
    reveal_strlit("noutf8");
    reveal_strlit("verbose");
    reveal_strlit("silent");
    assert("i"@.len() == 1 && "i"@[0] == 'i');
    assert("in"@.len() == 2 && "in"@[0] == 'i');
    assert("o"@.len() == 1 && "o"@[0] == 'o');
    assert("out"@.len() == 3 && "out"@[0] == 'o');
    assert("sel"@.len() == 3 && "sel"@[0] == 's');
    assert("selection"@.len() == 9 && "selection"@[0] == 's');
    assert("t"@.len() == 1 && "t"@[0] == 't');
    assert("tar"@.len() == 3 && "tar"@[0] == 't');
    assert("target"@.len() == 6 && "target"@[0] == 't');
    assert("l"@.len() == 1 && "l"@[0] == 'l');
    assert("loops"@.len() == 5 && "loops"@[0] == 'l');
    assert("r"@.len() == 1 && "r"@[0] == 'r');
    assert("rmlastnl"@.len() == 8 && "rmlastnl"@[0] == 'r');
    assert("f"@.len() == 1 && "f"@[0] == 'f');
    assert("filter"@.len() == 6 && "filter"@[0] == 'f');
    assert("fg"@.len() == 2 && "fg"@[0] == 'f');
    assert("foreground"@.len() == 10 && "foreground"@[0] == 'f');
    assert("quiet"@.len() == 5 && "quiet"@[0] == 'q');
    assert("d"@.len() == 1 && "d"@[0] == 'd');
    assert("display"@.len() == 7 && "display"@[0] == 'd');
    assert("h"@.len() == 1 && "h"@[0] == 'h');
    assert("help"@.len() == 4 && "help"@[0] == 'h');
    assert("version"@.len() == 7 && "version"@[0] == 'v');
    assert("noutf8"@.len() == 6 && "noutf8"@[0] == 'n');
    assert("verbose"@.len() == 7 && "verbose"@[0] == 'v');
    assert("silent"@.len() == 6 && "silent"@[0] == 's');
    assert("version"@[3] == 's' && "verbose"@[3] == 'b');
    assert("i"@ =~= seq!['i']);
    name_without_equals(seq!['i']);
    assert("in"@ =~= seq!['i', 'n']);
    name_without_equals(seq!['i', 'n']);
    assert("o"@ =~= seq!['o']);
    name_without_equals(seq!['o']);
    assert("out"@ =~= seq!['o', 'u', 't']);
    name_without_equals(seq!['o', 'u', 't']);
    assert("sel"@ =~= seq!['s', 'e', 'l']);
    name_without_equals(seq!['s', 'e', 'l']);
    assert("selection"@ =~= seq!['s', 'e', 'l', 'e', 'c', 't', 'i', 'o', 'n']);
    name_without_equals(seq!['s', 'e', 'l', 'e', 'c', 't', 'i', 'o', 'n']);
    assert("t"@ =~= seq!['t']);
    name_without_equals(seq!['t']);
    assert("tar"@ =~= seq!['t', 'a', 'r']);
    name_without_equals(seq!['t', 'a', 'r']);
    assert("target"@ =~= seq!['t', 'a', 'r', 'g', 'e', 't']);
    name_without_equals(seq!['t', 'a', 'r', 'g', 'e', 't']);
    assert("l"@ =~= seq!['l']);
    name_without_equals(seq!['l']);
    assert("loops"@ =~= seq!['l', 'o', 'o', 'p', 's']);
    name_without_equals(seq!['l', 'o', 'o', 'p', 's']);
    assert("r"@ =~= seq!['r']);
    name_without_equals(seq!['r']);
    assert("rmlastnl"@ =~= seq!['r', 'm', 'l', 'a', 's', 't', 'n', 'l']);
    name_without_equals(seq!['r', 'm', 'l', 'a', 's', 't', 'n', 'l']);
    assert("f"@ =~= seq!['f']);
    name_without_equals(seq!['f']);
    assert("filter"@ =~= seq!['f', 'i', 'l', 't', 'e', 'r']);
    name_without_equals(seq!['f', 'i', 'l', 't', 'e', 'r']);
    assert("fg"@ =~= seq!['f', 'g']);
    name_without_equals(seq!['f', 'g']);
    assert("foreground"@ =~= seq!['f', 'o', 'r', 'e', 'g', 'r', 'o', 'u', 'n', 'd']);
    name_without_equals(seq!['f', 'o', 'r', 'e', 'g', 'r', 'o', 'u', 'n', 'd']);
    assert("quiet"@ =~= seq!['q', 'u', 'i', 'e', 't']);
    name_without_equals(seq!['q', 'u', 'i', 'e', 't']);
    assert("d"@ =~= seq!['d']);
    name_without_equals(seq!['d']);
    assert("display"@ =~= seq!['d', 'i', 's', 'p', 'l', 'a', 'y']);
    name_without_equals(seq!['d', 'i', 's', 'p', 'l', 'a', 'y']);
    assert("h"@ =~= seq!['h']);
    name_without_equals(seq!['h']);
    assert("help"@ =~= seq!['h', 'e', 'l', 'p']);
    name_without_equals(seq!['h', 'e', 'l', 'p']);
    assert("version"@ =~= seq!['v', 'e', 'r', 's', 'i', 'o', 'n']);
    name_without_equals(seq!['v', 'e', 'r', 's', 'i', 'o', 'n']);
    assert("noutf8"@ =~= seq!['n', 'o', 'u', 't', 'f', '8']);
    name_without_equals(seq!['n', 'o', 'u', 't', 'f', '8']);
    assert("verbose"@ =~= seq!['v', 'e', 'r', 'b', 'o', 's', 'e']);
    name_without_equals(seq!['v', 'e', 'r', 'b', 'o', 's', 'e']);
    assert("silent"@ =~= seq!['s', 'i', 'l', 'e', 'n', 't']);
    name_without_equals(seq!['s', 'i', 'l', 'e', 'n', 't']);
}

// Options one by one.

/// `-i` and `-in` ask for data to be read into a selection.
pub proof fn data_is_read_in(before: ArgsView, unused: Seq<char>, rest: Seq<Seq<char>>)
    ensures
        turns("-i"@, before, (ArgsView { mode: Mode::Copy, ..before }), unused, rest),
        turns("-in"@, before, (ArgsView { mode: Mode::Copy, ..before }), unused, rest),
{
    option_names();
    reveal_strlit("i");
    reveal_strlit("-i");
    assert("-i"@ =~= seq!['-'] + "i"@);
    flag("i"@, Opt::Copy, before, unused, rest);
    reveal_strlit("in");
    reveal_strlit("-in");
    assert("-in"@ =~= seq!['-'] + "in"@);
    flag("in"@, Opt::Copy, before, unused, rest);
}

/// `-o` and `-out` ask for the selection to be written out.
pub proof fn the_selection_is_written_out(before: ArgsView, unused: Seq<char>, rest: Seq<Seq<char>>)
    ensures
        turns("-o"@, before, (ArgsView { mode: Mode::Paste, ..before }), unused, rest),
        turns("-out"@, before, (ArgsView { mode: Mode::Paste, ..before }), unused, rest),
{
    option_names();
    reveal_strlit("o");
    reveal_strlit("-o");
    assert("-o"@ =~= seq!['-'] + "o"@);
    flag("o"@, Opt::Paste, before, unused, rest);
    reveal_strlit("out");
    reveal_strlit("-out");
    assert("-out"@ =~= seq!['-'] + "out"@);
    flag("out"@, Opt::Paste, before, unused, rest);
}

/// `-r` and `-rmlastnl` ask for a trailing newline to be stripped.
pub proof fn a_newline_is_to_be_stripped(before: ArgsView, unused: Seq<char>, rest: Seq<Seq<char>>)
    ensures
        turns("-r"@, before, (ArgsView { rmlastnl: true, ..before }), unused, rest),
        turns("-rmlastnl"@, before, (ArgsView { rmlastnl: true, ..before }), unused, rest),
{
    option_names();
    reveal_strlit("r");
    reveal_strlit("-r");
    assert("-r"@ =~= seq!['-'] + "r"@);
    flag("r"@, Opt::RmLastNl, before, unused, rest);
    reveal_strlit("rmlastnl");
    reveal_strlit("-rmlastnl");
    assert("-rmlastnl"@ =~= seq!['-'] + "rmlastnl"@);
    flag("rmlastnl"@, Opt::RmLastNl, before, unused, rest);
}

/// `-f` and `-filter` ask for the input to be echoed.
pub proof fn the_input_is_to_be_echoed(before: ArgsView, unused: Seq<char>, rest: Seq<Seq<char>>)
    ensures
        turns("-f"@, before, (ArgsView { filter: true, ..before }), unused, rest),
        turns("-filter"@, before, (ArgsView { filter: true, ..before }), unused, rest),
{
    option_names();
    reveal_strlit("f");
    reveal_strlit("-f");
    assert("-f"@ =~= seq!['-'] + "f"@);
    flag("f"@, Opt::Filter, before, unused, rest);
    reveal_strlit("filter");
    reveal_strlit("-filter");
    assert("-filter"@ =~= seq!['-'] + "filter"@);
    flag("filter"@, Opt::Filter, before, unused, rest);
}

/// `-fg`, `-foreground` and `-quiet` ask for the copy to stay in the foreground.
pub proof fn the_foreground_is_kept(before: ArgsView, unused: Seq<char>, rest: Seq<Seq<char>>)
    ensures
        turns("-fg"@, before, (ArgsView { foreground: true, ..before }), unused, rest),
        turns("-foreground"@, before, (ArgsView { foreground: true, ..before }), unused, rest),
        turns("-quiet"@, before, (ArgsView { foreground: true, ..before }), unused, rest),
{
    option_names();
    reveal_strlit("fg");
    reveal_strlit("-fg");
    assert("-fg"@ =~= seq!['-'] + "fg"@);
    flag("fg"@, Opt::Foreground, before, unused, rest);
    reveal_strlit("foreground");
    reveal_strlit("-foreground");
    assert("-foreground"@ =~= seq!['-'] + "foreground"@);
    flag("foreground"@, Opt::Foreground, before, unused, rest);
    reveal_strlit("quiet");
    reveal_strlit("-quiet");
    assert("-quiet"@ =~= seq!['-'] + "quiet"@);
    flag("quiet"@, Opt::Foreground, before, unused, rest);
}

/// `-h` and `-help` ask for help.
pub proof fn help_is_asked_for(before: ArgsView, unused: Seq<char>, rest: Seq<Seq<char>>)
    ensures
        turns("-h"@, before, (ArgsView { show_help: true, ..before }), unused, rest),
        turns("-help"@, before, (ArgsView { show_help: true, ..before }), unused, rest),
{
    option_names();
    reveal_strlit("h");
    reveal_strlit("-h");
    assert("-h"@ =~= seq!['-'] + "h"@);
    flag("h"@, Opt::Help, before, unused, rest);
    reveal_strlit("help");
    reveal_strlit("-help");
    assert("-help"@ =~= seq!['-'] + "help"@);
    flag("help"@, Opt::Help, before, unused, rest);
}

/// `-version` asks for the version.
pub proof fn the_version_is_asked_for(before: ArgsView, unused: Seq<char>, rest: Seq<Seq<char>>)
    ensures
        turns("-version"@, before, (ArgsView { show_version: true, ..before }), unused, rest),
{
    option_names();
    reveal_strlit("version");
    reveal_strlit("-version");
    assert("-version"@ =~= seq!['-'] + "version"@);
    flag("version"@, Opt::Version, before, unused, rest);
}

/// `-noutf8`, `-verbose` and `-silent` are taken and do nothing.
pub proof fn some_options_do_nothing(before: ArgsView, unused: Seq<char>, rest: Seq<Seq<char>>)
    ensures
        turns("-noutf8"@, before, before, unused, rest),
        turns("-verbose"@, before, before, unused, rest),
        turns("-silent"@, before, before, unused, rest),
{
    option_names();
    reveal_strlit("noutf8");
    reveal_strlit("-noutf8");
    assert("-noutf8"@ =~= seq!['-'] + "noutf8"@);
    flag("noutf8"@, Opt::NoOp, before, unused, rest);
    reveal_strlit("verbose");
    reveal_strlit("-verbose");
    assert("-verbose"@ =~= seq!['-'] + "verbose"@);
    flag("verbose"@, Opt::NoOp, before, unused, rest);
    reveal_strlit("silent");
    reveal_strlit("-silent");
    assert("-silent"@ =~= seq!['-'] + "silent"@);
    flag("silent"@, Opt::NoOp, before, unused, rest);
}

/// `-t`, `-tar` and `-target` give the type to copy as or to paste.
pub proof fn a_target_is_given(before: ArgsView, value: Seq<char>, rest: Seq<Seq<char>>)
    ensures
        turns_by_value("-t"@, value, before, Ok(ArgsView { target: Some(value), ..before }), rest),
        turns_by_value("-tar"@, value, before, Ok(ArgsView { target: Some(value), ..before }), rest),
        turns_by_value("-target"@, value, before, Ok(ArgsView { target: Some(value), ..before }), rest),
{
    option_names();
    reveal_strlit("t");
    reveal_strlit("-t");
    assert("-t"@ =~= seq!['-'] + "t"@);
    valued("t"@, Opt::Target, value, before, rest);
    reveal_strlit("tar");
    reveal_strlit("-tar");
    assert("-tar"@ =~= seq!['-'] + "tar"@);
    valued("tar"@, Opt::Target, value, before, rest);
    reveal_strlit("target");
    reveal_strlit("-target");
    assert("-target"@ =~= seq!['-'] + "target"@);
    valued("target"@, Opt::Target, value, before, rest);
}

/// `-d` and `-display` give the display to connect to.
pub proof fn a_display_is_given(before: ArgsView, value: Seq<char>, rest: Seq<Seq<char>>)
    ensures
        turns_by_value("-d"@, value, before, Ok(ArgsView { display: Some(value), ..before }), rest),
        turns_by_value("-display"@, value, before, Ok(ArgsView { display: Some(value), ..before }), rest),
{
    option_names();
    reveal_strlit("d");
    reveal_strlit("-d");
    assert("-d"@ =~= seq!['-'] + "d"@);
    valued("d"@, Opt::Display, value, before, rest);
    reveal_strlit("display");
    reveal_strlit("-display");
    assert("-display"@ =~= seq!['-'] + "display"@);
    valued("display"@, Opt::Display, value, before, rest);
}

/// `-l` and `-loops` give the number of pastes, in decimal and with a plus sign
/// if one likes, as far as 32 bits hold it.
pub proof fn a_loop_count_is_given(before: ArgsView, n: nat, rest: Seq<Seq<char>>)
    requires
        n <= u32::MAX,
    ensures
        turns_by_value(
            "-l"@,
            text::decimal(n),
            before,
            Ok(ArgsView { loops: n as u32, ..before }),
            rest,
        ),
        turns_by_value(
            "-l"@,
            seq!['+'] + text::decimal(n),
            before,
            Ok(ArgsView { loops: n as u32, ..before }),
            rest,
        ),
        turns_by_value(
            "-loops"@,
            text::decimal(n),
            before,
            Ok(ArgsView { loops: n as u32, ..before }),
            rest,
        ),
        turns_by_value(
            "-loops"@,
            seq!['+'] + text::decimal(n),
            before,
            Ok(ArgsView { loops: n as u32, ..before }),
            rest,
        ),
{
    option_names();
    layout::numbers_are_read_back(n);
    reveal_strlit("l");
    reveal_strlit("-l");
    assert("-l"@ =~= seq!['-'] + "l"@);
    valued("l"@, Opt::Loops, text::decimal(n), before, rest);
    valued("l"@, Opt::Loops, seq!['+'] + text::decimal(n), before, rest);
    reveal_strlit("loops");
    reveal_strlit("-loops");
    assert("-loops"@ =~= seq!['-'] + "loops"@);
    valued("loops"@, Opt::Loops, text::decimal(n), before, rest);
    valued("loops"@, Opt::Loops, seq!['+'] + text::decimal(n), before, rest);
}

/// A loop count is refused that is empty, holds anything but digits behind a plus
/// sign, or is more than 32 bits hold; it is quoted as it was typed.
pub proof fn a_loop_count_is_refused(
    before: ArgsView,
    value: Seq<char>,
    i: int,
    n: nat,
    rest: Seq<Seq<char>>,
)
    requires
        value.len() == 0 || (0 < i < value.len() && !('0' <= value[i] <= '9')) || (value.len() > 0
            && !('0' <= value[0] <= '9') && value[0] != '+') || (n > u32::MAX && value
            == text::decimal(n)),
    ensures
        turns_by_value(
            "-l"@,
            value,
            before,
            Err("invalid loop count '"@ + value + "'"@),
            rest,
        ),
        turns_by_value(
            "-loops"@,
            value,
            before,
            Err("invalid loop count '"@ + value + "'"@),
            rest,
        ),
{
    option_names();
    layout::only_digits_are_numbers(value, i);
    layout::numbers_are_read_back(n);
    reveal_strlit("l");
    reveal_strlit("-l");
    assert("-l"@ =~= seq!['-'] + "l"@);
    valued("l"@, Opt::Loops, value, before, rest);
    reveal_strlit("loops");
    reveal_strlit("-loops");
    assert("-loops"@ =~= seq!['-'] + "loops"@);
    valued("loops"@, Opt::Loops, value, before, rest);
}

/// Whether `typed` is `word` or the beginning of it, apart from the case of its
/// letters.
pub open spec fn abbreviates(typed: Seq<char>, word: Seq<char>) -> bool {
    &&& 0 < typed.len() <= word.len()
    &&& forall|i: int|
        0 <= i < typed.len() ==> ({
            let c = #[trigger] typed[i];
            c == word[i] || ('A' <= c <= 'Z' && c as u32 + 32 == word[i] as u32)
        })
}

/// An abbreviation in any case is the beginning of its word once it is lowered.
proof fn abbreviation_is_prefix(typed: Seq<char>, word: Seq<char>)
    requires
        forall|i: int| 0 <= i < word.len() ==> 'a' <= #[trigger] word[i] <= 'z',
    ensures
        abbreviates(typed, word) <==> typed.len() > 0 && text::begins_with(
            word,
            args::lowered(typed),
        ),
{
    let low = args::lowered(typed);
    if abbreviates(typed, word) {
        assert forall|i: int| 0 <= i < low.len() implies low[i] == word[i] by {
            let c = typed[i];
            assert('a' <= word[i] <= 'z');
        }
        assert(word.take(low.len() as int) =~= low);
    }
    if typed.len() > 0 && text::begins_with(word, low) {
        assert forall|i: int| 0 <= i < typed.len() implies ({
            let c = #[trigger] typed[i];
            c == word[i] || ('A' <= c <= 'Z' && c as u32 + 32 == word[i] as u32)
        }) by {
            assert(word.take(low.len() as int)[i] == low[i]);
        }
    }
}

proof fn selection_words()
    ensures
        forall|i: int| 0 <= i < "primary"@.len() ==> 'a' <= #[trigger] "primary"@[i] <= 'z',
        forall|i: int| 0 <= i < "clipboard"@.len() ==> 'a' <= #[trigger] "clipboard"@[i] <= 'z',
        forall|i: int| 0 <= i < "secondary"@.len() ==> 'a' <= #[trigger] "secondary"@[i] <= 'z',
        "primary"@[0] == 'p' && "primary"@.len() > 0,
        "clipboard"@[0] == 'c' && "clipboard"@.len() > 0,
        "secondary"@[0] == 's' && "secondary"@.len() > 0,
{
    reveal_strlit("primary");
    reveal_strlit("clipboard");
    reveal_strlit("secondary");
    assert("primary"@ =~= seq!['p', 'r', 'i', 'm', 'a', 'r', 'y']);
    assert("clipboard"@ =~= seq!['c', 'l', 'i', 'p', 'b', 'o', 'a', 'r', 'd']);
    assert("secondary"@ =~= seq!['s', 'e', 'c', 'o', 'n', 'd', 'a', 'r', 'y']);
}

/// What a name of a selection stands for: any beginning of `primary` or of
/// `clipboard`, in any case, and `b` besides; any beginning of `secondary` is
/// refused as such, and anything else as unknown, quoted as it was typed.
pub proof fn selections_are_named(typed: Seq<char>)
    ensures
        abbreviates(typed, "primary"@) ==> args::selection_of(typed) == Ok::<Selection, Seq<char>>(
            Selection::Primary,
        ),
        abbreviates(typed, "clipboard"@) || typed == seq!['b'] || typed == seq!['B']
            ==> args::selection_of(typed) == Ok::<Selection, Seq<char>>(Selection::Clipboard),
        abbreviates(typed, "secondary"@) ==> args::selection_of(typed) == Err::<
            Selection,
            Seq<char>,
        >("the secondary selection does not exist on Wayland"@),
        typed.len() == 0 ==> args::selection_of(typed) == Err::<Selection, Seq<char>>(
            "empty selection name"@,
        ),
        typed.len() > 0 && !abbreviates(typed, "primary"@) && !abbreviates(typed, "clipboard"@)
            && !abbreviates(typed, "secondary"@) && typed != seq!['b'] && typed != seq!['B']
            ==> args::selection_of(typed) == Err::<Selection, Seq<char>>(
            "unknown selection '"@ + typed + "'"@,
        ),
{
    selection_words();
    abbreviation_is_prefix(typed, "primary"@);
    abbreviation_is_prefix(typed, "clipboard"@);
    abbreviation_is_prefix(typed, "secondary"@);
    reveal_strlit("b");
    let low = args::lowered(typed);
    assert("b"@ =~= seq!['b']);
    if low == "b"@ {
        assert(low[0] == args::ascii_lower(typed[0]));
        assert(typed =~= seq![typed[0]]);
        assert(typed[0] == 'b' || typed[0] == 'B');
    }
    if typed == seq!['b'] || typed == seq!['B'] {
        assert(typed[0] == 'b' || typed[0] == 'B');
        assert(low =~= "b"@);
        assert(low[0] == 'b');
        if text::begins_with("primary"@, low) {
            assert("primary"@.take(1)[0] == low[0]);
        }
    }
    if typed.len() > 0 {
        if text::begins_with("primary"@, low) {
            assert("primary"@.take(low.len() as int)[0] == low[0]);
        }
        if text::begins_with("clipboard"@, low) {
            assert("clipboard"@.take(low.len() as int)[0] == low[0]);
        }
        if text::begins_with("secondary"@, low) {
            assert("secondary"@.take(low.len() as int)[0] == low[0]);
        }
    }
}

/// `-sel` and `-selection` give the selection by its name, or are refused with
/// what is wrong with the name.
pub proof fn a_selection_is_given(before: ArgsView, value: Seq<char>, rest: Seq<Seq<char>>)
    ensures
        ({
            let after = match args::selection_of(value) {
                Ok(selection) => Ok::<ArgsView, Seq<char>>(ArgsView { selection, ..before }),
                Err(e) => Err::<ArgsView, Seq<char>>(e),
            };
            &&& turns_by_value("-sel"@, value, before, after, rest)
            &&& turns_by_value("-selection"@, value, before, after, rest)
        }),
{
    option_names();
    reveal_strlit("sel");
    reveal_strlit("-sel");
    assert("-sel"@ =~= seq!['-'] + "sel"@);
    valued("sel"@, Opt::Selection, value, before, rest);
    reveal_strlit("selection");
    reveal_strlit("-selection");
    assert("-selection"@ =~= seq!['-'] + "selection"@);
    valued("selection"@, Opt::Selection, value, before, rest);
}

/// An option that takes a value is refused where none follows.
pub proof fn a_value_is_missed(before: ArgsView)
    ensures
        args::parsed(before, seq!["-sel"@]) == Err::<ArgsView, Seq<char>>(
            "option '-"@ + "sel"@ + "' requires an argument"@,
        ),
        args::parsed(before, seq!["-selection"@]) == Err::<ArgsView, Seq<char>>(
            "option '-"@ + "selection"@ + "' requires an argument"@,
        ),
        args::parsed(before, seq!["-t"@]) == Err::<ArgsView, Seq<char>>(
            "option '-"@ + "t"@ + "' requires an argument"@,
        ),
        args::parsed(before, seq!["-tar"@]) == Err::<ArgsView, Seq<char>>(
            "option '-"@ + "tar"@ + "' requires an argument"@,
        ),
        args::parsed(before, seq!["-target"@]) == Err::<ArgsView, Seq<char>>(
            "option '-"@ + "target"@ + "' requires an argument"@,
        ),
        args::parsed(before, seq!["-l"@]) == Err::<ArgsView, Seq<char>>(
            "option '-"@ + "l"@ + "' requires an argument"@,
        ),
        args::parsed(before, seq!["-loops"@]) == Err::<ArgsView, Seq<char>>(
            "option '-"@ + "loops"@ + "' requires an argument"@,
        ),
        args::parsed(before, seq!["-d"@]) == Err::<ArgsView, Seq<char>>(
            "option '-"@ + "d"@ + "' requires an argument"@,
        ),
        args::parsed(before, seq!["-display"@]) == Err::<ArgsView, Seq<char>>(
            "option '-"@ + "display"@ + "' requires an argument"@,
        ),
{
    option_names();
    reveal_strlit("sel");
    reveal_strlit("-sel");
    assert("-sel"@ =~= seq!['-'] + "sel"@);
    valued("sel"@, Opt::Selection, Seq::empty(), before, Seq::empty());
    reveal_strlit("selection");
    reveal_strlit("-selection");
    assert("-selection"@ =~= seq!['-'] + "selection"@);
    valued("selection"@, Opt::Selection, Seq::empty(), before, Seq::empty());
    reveal_strlit("t");
    reveal_strlit("-t");
    assert("-t"@ =~= seq!['-'] + "t"@);
    valued("t"@, Opt::Target, Seq::empty(), before, Seq::empty());
    reveal_strlit("tar");
    reveal_strlit("-tar");
    assert("-tar"@ =~= seq!['-'] + "tar"@);
    valued("tar"@, Opt::Target, Seq::empty(), before, Seq::empty());
    reveal_strlit("target");
    reveal_strlit("-target");
    assert("-target"@ =~= seq!['-'] + "target"@);
    valued("target"@, Opt::Target, Seq::empty(), before, Seq::empty());
    reveal_strlit("l");
    reveal_strlit("-l");
    assert("-l"@ =~= seq!['-'] + "l"@);
    valued("l"@, Opt::Loops, Seq::empty(), before, Seq::empty());
    reveal_strlit("loops");
    reveal_strlit("-loops");
    assert("-loops"@ =~= seq!['-'] + "loops"@);
    valued("loops"@, Opt::Loops, Seq::empty(), before, Seq::empty());
    reveal_strlit("d");
    reveal_strlit("-d");
    assert("-d"@ =~= seq!['-'] + "d"@);
    valued("d"@, Opt::Display, Seq::empty(), before, Seq::empty());
    reveal_strlit("display");
    reveal_strlit("-display");
    assert("-display"@ =~= seq!['-'] + "display"@);
    valued("display"@, Opt::Display, Seq::empty(), before, Seq::empty());
}

/// The names of all options.
pub open spec fn is_option(name: Seq<char>) -> bool {
    ||| name == "i"@ || name == "in"@ || name == "o"@ || name == "out"@ || name == "sel"@
    ||| name == "selection"@ || name == "t"@ || name == "tar"@ || name == "target"@ || name == "l"@
    ||| name == "loops"@ || name == "r"@ || name == "rmlastnl"@ || name == "f"@ || name == "filter"@
    ||| name == "fg"@ || name == "foreground"@ || name == "quiet"@ || name == "d"@ || name == "display"@
    ||| name == "h"@ || name == "help"@ || name == "version"@ || name == "noutf8"@ || name == "verbose"@
    ||| name == "silent"@
}

/// Any other option is refused, and quoted as it was typed.
pub proof fn other_options_are_refused(
    before: ArgsView,
    name: Seq<char>,
    value: Seq<char>,
    rest: Seq<Seq<char>>,
)
    requires
        name.len() > 0,
        name[0] != '-',
        forall|i: int| 0 <= i < name.len() ==> #[trigger] name[i] != '=',
        !is_option(name),
    ensures
        ({
            let arg = seq!['-'] + name;
            let glued = arg + seq!['='] + value;
            &&& args::parsed(before, seq![arg] + rest) == Err::<ArgsView, Seq<char>>(
                "invalid option '"@ + arg + "'"@,
            )
            &&& args::parsed(before, seq![glued] + rest) == Err::<ArgsView, Seq<char>>(
                "invalid option '"@ + glued + "'"@,
            )
        }),
{
    let arg = seq!['-'] + name;
    name_without_equals(name);
    option_as_typed(name, value);
    assert((seq![arg] + rest)[0] == arg);
    assert((seq![arg + seq!['='] + value] + rest)[0] == arg + seq!['='] + value);
}

proof fn name_without_equals(name: Seq<char>)
    requires
        forall|i: int| 0 <= i < name.len() ==> #[trigger] name[i] != '=',
    ensures
        args::name_len(name) == name.len(),
    decreases name.len(),
{
    if name.len() > 0 {
        assert(name[0] != '=');
        assert forall|i: int| 0 <= i < name.drop_first().len() implies #[trigger] name.drop_first()[i]
            != '=' by {
            assert(name.drop_first()[i] == name[i + 1]);
        }
        name_without_equals(name.drop_first());
    }
}

} // verus!
