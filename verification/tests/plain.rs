use dumpsta::dialog::Dialog;
use dumpsta::disp::{Disp, DispType, ErrorText};
use dumpsta::style::{Color, Level};
use dumpsta::template::{fits, render, FmtStr, Segment};
use dumpsta::text::{chars_of, count_text};

fn plain() {
    colored::control::set_override(false);
}

fn boom() -> ErrorText {
    ErrorText { message: String::from("boom"), detail: String::from("Boom { code: 7 }") }
}

#[test]
fn renders_count_into_placeholder() {
    plain();
    let out = render("Found {} crates", &[Disp::Usize(7)]);
    assert_eq!(out, Some(String::from("Found 7 crates")));
}

#[test]
fn two_placeholders_one_value_gives_nothing() {
    plain();
    assert_eq!(render("{} and {}", &[Disp::Usize(1)]), None);
    assert!(!fits("{} and {}", 1));
    assert!(fits("{} and {}", 2));
    let template = FmtStr::try_new("{} and {}").unwrap();
    assert_eq!(template.try_fmt(&[Disp::Usize(1)]), None);
}

#[test]
fn one_placeholder_two_values_gives_nothing() {
    plain();
    assert_eq!(render("{}", &[Disp::Usize(1), Disp::Usize(2)]), None);
    assert_eq!(render("no placeholder", &[Disp::Usize(1)]), None);
    assert_eq!(render("no placeholder", &[]), Some(String::from("no placeholder")));
}

#[test]
fn debug_placeholder_quotes_a_path() {
    plain();
    let out = render("{:?}", &[Disp::Path(String::from("some/path"))]);
    assert_eq!(out, Some(String::from("\"some/path\"")));
    let out = render("{}", &[Disp::Path(String::from("some/path"))]);
    assert_eq!(out, Some(String::from("some/path")));
}

#[test]
fn values_fill_placeholders_in_order() {
    plain();
    let out = render(
        "{} then {:?} then {}",
        &[Disp::text("a"), Disp::text("b"), Disp::Usize(3)],
    );
    assert_eq!(out, Some(String::from("a then \"b\" then 3")));
}

#[test]
fn malformed_templates_are_refused() {
    for bad in ["{", "}", "{x}", "{:?", "{:}", "a}b", "{{}}", "{ }", "{}}", "{:? }", "x{"] {
        assert!(FmtStr::try_new(bad).is_none(), "{:?}", bad);
        assert!(!fits(bad, 0), "{:?}", bad);
        assert!(!fits(bad, 1), "{:?}", bad);
        assert_eq!(render(bad, &[]), None, "{:?}", bad);
    }
}

#[test]
fn parse_gives_text_and_placeholders_in_turn() {
    let template = FmtStr::try_new("a{}b{:?}c").unwrap();
    let expected = vec![
        Segment::Text(String::from("a")),
        Segment::Marker(DispType::Regular, None),
        Segment::Text(String::from("b")),
        Segment::Marker(DispType::Debug, None),
        Segment::Text(String::from("c")),
    ];
    assert_eq!(template.segments(), &expected);
    assert_eq!(template.marker_count(), 2);
}

#[test]
fn parse_keeps_empty_text_between_placeholders() {
    let template = FmtStr::try_new("{}{:?}").unwrap();
    let expected = vec![
        Segment::Text(String::new()),
        Segment::Marker(DispType::Regular, None),
        Segment::Text(String::new()),
        Segment::Marker(DispType::Debug, None),
        Segment::Text(String::new()),
    ];
    assert_eq!(template.segments(), &expected);
    let empty = FmtStr::try_new("").unwrap();
    assert_eq!(empty.segments(), &vec![Segment::Text(String::new())]);
    assert_eq!(empty.marker_count(), 0);
}

#[test]
fn parse_handles_text_beyond_ascii() {
    plain();
    let out = render("caf\u{e9} {} \u{1f980}", &[Disp::text("\u{fc}ber")]);
    assert_eq!(out, Some(String::from("caf\u{e9} \u{fc}ber \u{1f980}")));
}

#[test]
fn assemble_puts_parts_between_the_text() {
    let template = FmtStr::try_new("<{}|{:?}>").unwrap();
    let parts = [String::from("one"), String::from("two")];
    assert_eq!(template.assemble(&parts), Some(String::from("<one|two>")));
    assert_eq!(template.assemble(&parts[..1]), None);
    assert_eq!(template.assemble(&[]), None);
}

#[test]
fn count_text_is_the_decimal_numeral() {
    for n in [0usize, 7, 9, 10, 11, 99, 100, 101, 12345, 1_000_000, usize::MAX] {
        assert_eq!(count_text(n), n.to_string());
        assert_eq!(count_text(n), format!("{:?}", n));
    }
    assert_eq!(count_text(0), "0");
    assert_eq!(count_text(1203), "1203");
}

#[test]
fn chars_of_gives_the_characters() {
    assert_eq!(chars_of("a\u{e9}{}"), vec!['a', '\u{e9}', '{', '}']);
    assert_eq!(chars_of(""), Vec::<char>::new());
}

#[test]
fn plain_text_of_each_kind() {
    let regular = DispType::Regular;
    let debug = DispType::Debug;
    assert_eq!(Disp::Usize(42).plain(&regular), "42");
    assert_eq!(Disp::Usize(42).plain(&debug), "42");
    assert_eq!(Disp::text("a \"b\"\n").plain(&regular), "a \"b\"\n");
    assert_eq!(Disp::text("a \"b\"\n").plain(&debug), "\"a \\\"b\\\"\\n\"");
    assert_eq!(Disp::text("a \"b\"\n").plain(&debug), format!("{:?}", "a \"b\"\n"));
    assert_eq!(Disp::path("dir/a b").plain(&regular), "dir/a b");
    assert_eq!(Disp::path("dir/a b").plain(&debug), "\"dir/a b\"");
    assert_eq!(
        Disp::path("dir/\"x\"").plain(&debug),
        format!("{:?}", std::path::Path::new("dir/\"x\""))
    );
    assert_eq!(Disp::Error(boom()).plain(&regular), "boom");
    assert_eq!(Disp::Error(boom()).plain(&debug), "Boom { code: 7 }");
}

#[test]
fn own_and_forced_colours() {
    assert_eq!(Disp::Usize(1).shade(&None), Color::Blue);
    assert_eq!(Disp::text("x").shade(&None), Color::Cyan);
    assert_eq!(Disp::path("x").shade(&None), Color::Cyan);
    assert_eq!(Disp::Error(boom()).shade(&None), Color::Red);
    assert_eq!(Disp::Usize(1).shade(&Some(Color::Green)), Color::Green);
    assert_eq!(Level::Info.color(), Color::Blue);
    assert_eq!(Level::Warn.color(), Color::Magenta);
    assert_eq!(Level::Error.color(), Color::Red);
}

#[test]
fn fmt_without_colouring_is_the_plain_text() {
    plain();
    assert_eq!(Disp::Usize(7).fmt(&DispType::Regular, &None), "7");
    assert_eq!(Disp::text("x").fmt(&DispType::Debug, &Some(Color::Yellow)), "\"x\"");
}

#[test]
fn disp_from_values() {
    assert_eq!(Disp::from(7usize), Disp::Usize(7));
    assert_eq!(Disp::from(String::from("x")), Disp::Str(String::from("x")));
    assert_eq!(Disp::from(boom()), Disp::Error(boom()));
    assert_eq!(Disp::text("x"), Disp::Str(String::from("x")));
    assert_eq!(Disp::path("a/b"), Disp::Path(String::from("a/b")));
}

#[test]
fn line_has_indent_arrow_and_message() {
    plain();
    let top = Dialog::raw_with_indent(1);
    let (child, line) = top.info_str("hello");
    assert_eq!(line, "-> hello");
    assert_eq!(child.indent(), 2);
    let (grandchild, line) = child.warn_str_with("{} left", &[Disp::Usize(3)]);
    assert_eq!(line, "  -> 3 left");
    assert_eq!(grandchild.indent(), 3);
    let (deeper, line) = grandchild.error_str("bad");
    assert_eq!(line, "    -> bad");
    assert_eq!(deeper.indent(), 4);
    let (_, line) = deeper.msg_str_with(Color::Green, "{:?}", &[Disp::text("x")]);
    assert_eq!(line, "      -> \"x\"");
    let (_, line) = deeper.msg_str(Color::Green, "done");
    assert_eq!(line, "      -> done");
}

#[test]
fn each_level_announces_with_and_without_values() {
    plain();
    let d = Dialog::raw_with_indent(2);
    assert_eq!(d.info_str("a").1, "  -> a");
    assert_eq!(d.warn_str("a").1, "  -> a");
    assert_eq!(d.error_str("a").1, "  -> a");
    assert_eq!(d.info_str_with("{}", &[Disp::Usize(1)]).1, "  -> 1");
    assert_eq!(d.warn_str_with("{}", &[Disp::Usize(1)]).1, "  -> 1");
    assert_eq!(d.error_str_with("{}", &[Disp::Usize(1)]).1, "  -> 1");
    assert_eq!(d.info_str("a").0.indent(), 3);
    assert_eq!(d.warn_str("a").0.indent(), 3);
    assert_eq!(d.error_str("a").0.indent(), 3);
}

#[test]
fn compose_and_sub_dialog() {
    let d = Dialog::raw_with_indent(3);
    assert_eq!(d.compose("=>", "msg"), "    => msg");
    assert_eq!(Dialog::raw_with_indent(1).compose("", ""), " ");
    assert_eq!(d.sub_dialog().indent(), 4);
    assert_eq!(d.sub_dialog(), Dialog::raw_with_indent(4));
}

#[test]
fn deepest_reporter_stays_where_it_is() {
    let d = Dialog::raw_with_indent(usize::MAX);
    assert_eq!(d.sub_dialog().indent(), usize::MAX);
    let d = Dialog::raw_with_indent(usize::MAX - 1);
    assert_eq!(d.sub_dialog().indent(), usize::MAX);
}

#[test]
fn announcing_into_a_sink_adds_one_line() {
    plain();
    let mut lines = vec![String::from("before")];
    let top = Dialog::new("Downloading crates...", &mut lines);
    assert_eq!(top.indent(), 1);
    let child = top.info_with("Downloading {}...", &[Disp::text("u")], &mut lines);
    let grandchild = child.warn("careful", &mut lines);
    grandchild.error_with("{}", &[Disp::Error(boom())], &mut lines);
    child.msg(Color::Green, "done", &mut lines);
    top.info("i", &mut lines);
    top.warn_with("{}", &[Disp::Usize(2)], &mut lines);
    top.error("e", &mut lines);
    top.msg_with(Color::Cyan, "{}", &[Disp::Usize(5)], &mut lines);
    assert_eq!(
        lines,
        vec![
            "before",
            "Downloading crates...",
            "-> Downloading u...",
            "  -> careful",
            "    -> boom",
            "  -> done",
            "-> i",
            "-> 2",
            "-> e",
            "-> 5",
        ]
    );
}

#[test]
fn headline_with_values() {
    plain();
    let mut lines = Vec::new();
    let top = Dialog::new_with("Found {} things", &[Disp::Usize(4)], &mut lines);
    assert_eq!(top.indent(), 1);
    assert_eq!(lines, vec!["Found 4 things"]);
    let (top, line) = Dialog::new_str_with("{:?}", &[Disp::path("p")]);
    assert_eq!(top.indent(), 1);
    assert_eq!(line, "\"p\"");
}
