use wclip::args::{parse_selection, Args, Command, Mode, Selection};

fn parse(argv: &[&str]) -> Result<Args, String> {
    let argv: Vec<String> = argv.iter().map(|s| s.to_string()).collect();
    Args::parse(&argv)
}

fn shown(argv: &[&str]) -> String {
    format!("{:?}", parse(argv))
}

#[test]
fn no_arguments_copy_into_primary() {
    let a = parse(&[]).unwrap();
    assert_eq!(a.mode, Mode::Copy);
    assert_eq!(a.selection, Selection::Primary);
    assert_eq!(a.target, None);
    assert_eq!(a.loops, 0);
    assert!(!a.rmlastnl && !a.filter && !a.foreground);
    assert_eq!(a.display, None);
    assert!(a.files.is_empty());
    assert!(!a.show_help && !a.show_version);
    assert_eq!(a.command(), Command::Copy);
}

#[test]
fn flags_are_recognised() {
    let a = parse(&["-o", "-rmlastnl", "-f", "-fg"]).unwrap();
    assert_eq!(a.mode, Mode::Paste);
    assert!(a.rmlastnl && a.filter && a.foreground);
    assert_eq!(a.command(), Command::Paste);
    assert_eq!(parse(&["-out", "-in"]).unwrap().mode, Mode::Copy);
    assert!(parse(&["-quiet"]).unwrap().foreground);
    assert!(parse(&["-foreground"]).unwrap().foreground);
    assert!(parse(&["-r"]).unwrap().rmlastnl);
    assert!(parse(&["-filter"]).unwrap().filter);
    assert_eq!(shown(&["-noutf8", "-verbose", "-silent"]), shown(&[]));
}

#[test]
fn help_comes_before_version_and_work() {
    assert_eq!(parse(&["-o", "-version", "-h"]).unwrap().command(), Command::Help);
    assert_eq!(parse(&["-help"]).unwrap().command(), Command::Help);
    assert_eq!(parse(&["-o", "-version"]).unwrap().command(), Command::Version);
}

#[test]
fn values_are_attached_or_separate() {
    let a = parse(&["-t", "image/png", "-l", "3", "-d", "wayland-1", "-sel", "c"]).unwrap();
    assert_eq!(a.target.as_deref(), Some("image/png"));
    assert_eq!(a.loops, 3);
    assert_eq!(a.display.as_deref(), Some("wayland-1"));
    assert_eq!(a.selection, Selection::Clipboard);
    for name in ["sel", "selection", "t", "tar", "target", "l", "loops", "d", "display"] {
        for value in ["clipboard", "7", "a=b", ""] {
            let glued = format!("-{name}={value}");
            let alone = format!("-{name}");
            assert_eq!(shown(&[&glued, "x"]), shown(&[&alone, value, "x"]));
        }
    }
    // Everything behind the first equals sign is the value.
    assert_eq!(parse(&["-t=a=b"]).unwrap().target.as_deref(), Some("a=b"));
    // A separate value may look like an option.
    assert_eq!(parse(&["-t", "-o"]).unwrap().target.as_deref(), Some("-o"));
    // A flag ignores an attached value.
    assert_eq!(parse(&["-o=x"]).unwrap().mode, Mode::Paste);
}

#[test]
fn any_number_of_dashes_is_accepted() {
    assert_eq!(shown(&["--out"]), shown(&["-out"]));
    assert_eq!(shown(&["---loops=4"]), shown(&["-loops=4"]));
    assert_eq!(shown(&["--target", "x"]), shown(&["-target", "x"]));
}

#[test]
fn positional_arguments_are_files() {
    let a = parse(&["a", "-", "", "b-c", "-o", "d"]).unwrap();
    assert_eq!(a.files, ["a", "-", "", "b-c", "d"]);
}

#[test]
fn wrong_arguments_are_refused() {
    assert_eq!(parse(&["-x"]).err().unwrap(), "invalid option '-x'");
    assert_eq!(parse(&["--nope=1"]).err().unwrap(), "invalid option '--nope=1'");
    assert_eq!(parse(&["--"]).err().unwrap(), "invalid option '--'");
    assert_eq!(parse(&["-=x"]).err().unwrap(), "invalid option '-=x'");
    assert_eq!(
        parse(&["-o", "--target"]).err().unwrap(),
        "option '-target' requires an argument"
    );
    assert_eq!(parse(&["-l", "many"]).err().unwrap(), "invalid loop count 'many'");
    assert_eq!(parse(&["-l=-1"]).err().unwrap(), "invalid loop count '-1'");
    assert_eq!(
        parse(&["-l=4294967296"]).err().unwrap(),
        "invalid loop count '4294967296'"
    );
    assert_eq!(parse(&["-l=+4294967295"]).unwrap().loops, u32::MAX);
    // The first mistake is the one that is reported.
    assert_eq!(parse(&["-l=x", "-y"]).err().unwrap(), "invalid loop count 'x'");
}

#[test]
fn selection_names_may_be_abbreviated() {
    for n in 1..="primary".len() {
        assert_eq!(parse_selection(&"primary"[..n]), Ok(Selection::Primary));
        assert_eq!(parse_selection(&"PRIMARY"[..n]), Ok(Selection::Primary));
    }
    for n in 1..="clipboard".len() {
        assert_eq!(parse_selection(&"clipboard"[..n]), Ok(Selection::Clipboard));
        assert_eq!(parse_selection(&"ClipBoard"[..n]), Ok(Selection::Clipboard));
    }
    assert_eq!(parse_selection("b"), Ok(Selection::Clipboard));
    assert_eq!(parse_selection("B"), Ok(Selection::Clipboard));
}

#[test]
fn wrong_selection_names_are_refused() {
    assert_eq!(parse_selection(""), Err("empty selection name".to_string()));
    assert_eq!(
        parse_selection("Sec"),
        Err("the secondary selection does not exist on Wayland".to_string())
    );
    assert_eq!(
        parse_selection("Buffer"),
        Err("unknown selection 'Buffer'".to_string())
    );
    assert_eq!(
        parse_selection("primaryy"),
        Err("unknown selection 'primaryy'".to_string())
    );
    // Only ASCII letters are folded: the Kelvin sign is no k.
    assert_eq!(
        parse_selection("\u{212a}"),
        Err("unknown selection '\u{212a}'".to_string())
    );
}
