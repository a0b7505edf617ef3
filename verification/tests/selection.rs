use wclip::args::Args;
use wclip::copy::{
    after_fork, input_sources, null_plan, offered_mimes, prepared, strip_newline, AfterFork,
    NullPlan, Source,
};
use wclip::paste::{list_mimes, pick_mime};
use wclip::text::{
    chars_of, parse_i32, parse_u32, push_decimal, starts_with, starts_with_char, str_eq,
};

fn strings(s: &[&str]) -> Vec<String> {
    s.iter().map(|s| s.to_string()).collect()
}

fn pick(target: Option<&str>, mimes: &[&str]) -> Option<String> {
    pick_mime(target, &strings(mimes))
}

#[test]
fn an_explicit_target_must_match() {
    let mimes = ["image/png", "text/plain"];
    assert_eq!(pick(Some("image/png"), &mimes).as_deref(), Some("image/png"));
    assert_eq!(pick(Some("image"), &mimes), None);
    assert_eq!(pick(Some("text/plain"), &[]), None);
}

#[test]
fn common_text_types_are_preferred() {
    let all = ["TEXT", "STRING", "UTF8_STRING", "text/plain", "text/plain;charset=utf-8"];
    let order = ["text/plain;charset=utf-8", "text/plain", "UTF8_STRING", "STRING", "TEXT"];
    for n in (1..=5).rev() {
        assert_eq!(pick(None, &all[..n]).as_deref(), Some(order[5 - n]));
    }
    assert_eq!(pick(None, &["text/html", "TEXT"]).as_deref(), Some("TEXT"));
}

#[test]
fn other_types_are_the_last_resort() {
    let mimes = ["image/png", "text/html", "text/css"];
    assert_eq!(pick(None, &mimes).as_deref(), Some("text/html"));
    assert_eq!(pick(None, &["image/png", "image/gif"]).as_deref(), Some("image/png"));
    assert_eq!(pick(None, &["x", "text"]).as_deref(), Some("x"));
    assert_eq!(pick(None, &[]), None);
}

#[test]
fn types_are_listed_line_by_line() {
    assert_eq!(list_mimes(&strings(&["a/b", "c"])), b"a/b\nc\n");
    assert!(list_mimes(&[]).is_empty());
}

#[test]
fn a_copy_offers_its_target_or_text() {
    assert_eq!(offered_mimes(Some("image/png")), ["image/png"]);
    assert_eq!(
        offered_mimes(None),
        ["text/plain;charset=utf-8", "text/plain", "TEXT", "STRING", "UTF8_STRING"]
    );
}

#[test]
fn one_trailing_newline_is_stripped() {
    let strip = |s: &str, on| strip_newline(s.as_bytes().to_vec(), on);
    assert_eq!(strip("a\n", true), b"a");
    assert_eq!(strip("a\n\n", true), b"a\n");
    assert_eq!(strip("\na", true), b"\na");
    assert_eq!(strip("\n", true), b"");
    assert_eq!(strip("", true), b"");
    assert_eq!(strip("a\n", false), b"a\n");
}

#[test]
fn the_input_is_prepared() {
    let run = |argv: &[&str]| {
        let args = Args::parse(&strings(argv)).unwrap();
        prepared(&args, b"a\n".to_vec())
    };
    assert_eq!(run(&[]), (b"a\n".to_vec(), false));
    assert_eq!(run(&["-r"]), (b"a".to_vec(), false));
    assert_eq!(run(&["-f"]), (b"a\n".to_vec(), true));
    assert_eq!(run(&["-r", "-f"]), (b"a".to_vec(), true));
}

#[test]
fn input_comes_from_files_or_stdin() {
    let shown = |files: &[&str]| -> Vec<String> {
        input_sources(&strings(files))
            .into_iter()
            .map(|s| match s {
                Source::Stdin => "<stdin>".to_string(),
                Source::File(name) => name,
            })
            .collect()
    };
    assert_eq!(shown(&[]), ["<stdin>"]);
    assert_eq!(shown(&["a", "-", "b"]), ["a", "<stdin>", "b"]);
}

#[test]
fn the_child_of_a_fork_detaches() {
    assert_eq!(after_fork(-1), AfterFork::ServeHere);
    assert_eq!(after_fork(0), AfterFork::Detach);
    assert_eq!(after_fork(1234), AfterFork::Exit);
    let plan = |redirect, close| NullPlan { redirect, close };
    assert_eq!(null_plan(-1), plan(false, false));
    assert_eq!(null_plan(0), plan(true, false));
    assert_eq!(null_plan(2), plan(true, false));
    assert_eq!(null_plan(3), plan(true, true));
}

#[test]
fn numbers_are_read_like_std_reads_them() {
    for s in [
        "", "+", "-", "0", "00", "7", "+7", "-7", "-0", "++1", "+-1", "1 ", " 1", "1_0", "12a",
        "\u{661}", "4294967295", "4294967296", "+4294967295", "99999999999999999999999",
        "2147483647", "2147483648", "-2147483648", "-2147483649", "0000000000000000000042",
    ] {
        assert_eq!(parse_u32(s), s.parse().ok(), "{s:?}");
        assert_eq!(parse_i32(s), s.parse().ok(), "{s:?}");
    }
}

#[test]
fn numbers_are_written_in_decimal() {
    for n in [0, 1, 9, 10, 99, 100, 65535, u32::MAX] {
        let mut s = "n=".to_string();
        push_decimal(&mut s, n);
        assert_eq!(s, format!("n={n}"));
    }
}

#[test]
fn strings_are_compared_by_character() {
    assert!(str_eq("", "") && str_eq("h\u{e9}", "h\u{e9}"));
    assert!(!str_eq("a", "b") && !str_eq("a", "aa") && !str_eq("e", "\u{e9}"));
    assert!(starts_with("text/html", "text/") && starts_with("a", "") && starts_with("a", "a"));
    assert!(!starts_with("tex", "text/") && !starts_with("Text/x", "text/"));
    assert!(starts_with_char("/run", '/') && !starts_with_char("", '/'));
    assert_eq!(chars_of("a\u{1f600}b"), ['a', '\u{1f600}', 'b']);
}
