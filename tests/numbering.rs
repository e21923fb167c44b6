use linetools::numbering::{format_number, render_source, render_sources, LineNumberer, Numbering};

fn lines(v: &[&str]) -> Vec<String> {
    v.iter().map(|s| s.to_string()).collect()
}

#[test]
fn every_line_numbered_including_blank() {
    let out = render_source(Numbering::All, &lines(&["a", "", "b"]));
    assert_eq!(out, lines(&["     1\ta", "     2\t", "     3\tb"]));
}

#[test]
fn nonblank_lines_numbered_blank_bare() {
    let out = render_source(Numbering::NonBlank, &lines(&["a", "", "b"]));
    assert_eq!(out, lines(&["     1\ta", "", "     2\tb"]));
}

#[test]
fn plain_output_equals_input() {
    let input = lines(&["a", "", "b", "  indented\t"]);
    assert_eq!(render_source(Numbering::Plain, &input), input);
}

#[test]
fn empty_source_renders_nothing() {
    assert!(render_source(Numbering::All, &Vec::new()).is_empty());
}

#[test]
fn counter_restarts_for_each_source() {
    let sources = vec![lines(&["x", "y", "z"]), lines(&["p", "q"])];
    let out = render_sources(Numbering::All, &sources);
    assert_eq!(out[0], lines(&["     1\tx", "     2\ty", "     3\tz"]));
    assert_eq!(out[1], lines(&["     1\tp", "     2\tq"]));

    let sources = vec![lines(&["x", ""]), lines(&["", "q"])];
    let out = render_sources(Numbering::NonBlank, &sources);
    assert_eq!(out[0], lines(&["     1\tx", ""]));
    assert_eq!(out[1], lines(&["", "     1\tq"]));
}

#[test]
fn numberer_resets_between_sources() {
    let mut n = LineNumberer::new(Numbering::All);
    assert_eq!(n.render("a"), "     1\ta");
    assert_eq!(n.render("b"), "     2\tb");
    n.begin_source();
    assert_eq!(n.next, 1);
    assert_eq!(n.render("c"), "     1\tc");
}

#[test]
fn numbers_are_right_aligned_in_six_columns() {
    assert_eq!(format_number(1), "     1\t");
    assert_eq!(format_number(42), "    42\t");
    assert_eq!(format_number(999999), "999999\t");
    assert_eq!(format_number(1234567), "1234567\t");
    assert_eq!(format_number(0), "     0\t");
}

#[test]
fn numberer_room_check() {
    let mut n = LineNumberer::new(Numbering::All);
    assert!(n.has_room());
    n.next = u64::MAX;
    assert!(!n.has_room());
}
