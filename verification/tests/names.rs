use spidey::decimal::{parse, render};
use spidey::name::{duplicate, join_name, split_name};

fn parts(base: &str, number: Option<u64>, extension: Option<&str>) -> (String, Option<u64>, Option<String>) {
    (base.to_string(), number, extension.map(|e| e.to_string()))
}

fn parsed(text: &str) -> Option<u64> {
    let chars: Vec<char> = text.chars().collect();
    parse(&chars, 0, chars.len())
}

#[test]
fn render_writes_decimal_notation() {
    assert_eq!(render(0), "0");
    assert_eq!(render(7), "7");
    assert_eq!(render(10), "10");
    assert_eq!(render(1234567890), "1234567890");
    assert_eq!(render(u64::MAX), "18446744073709551615");
    for n in [0u64, 1, 9, 10, 11, 99, 100, 101, 12345, 1 << 40, u64::MAX - 1] {
        assert_eq!(render(n), n.to_string());
    }
}

#[test]
fn parse_reads_decimal_notation() {
    assert_eq!(parsed("0"), Some(0));
    assert_eq!(parsed("3"), Some(3));
    assert_eq!(parsed("42"), Some(42));
    assert_eq!(parsed("18446744073709551615"), Some(u64::MAX));
}

#[test]
fn parse_refuses_what_is_no_numeral() {
    assert_eq!(parsed(""), None);
    assert_eq!(parsed("007"), None);
    assert_eq!(parsed("00"), None);
    assert_eq!(parsed("-1"), None);
    assert_eq!(parsed("+1"), None);
    assert_eq!(parsed("1a"), None);
    assert_eq!(parsed("a1"), None);
    assert_eq!(parsed(" 1"), None);
    assert_eq!(parsed("١"), None);
}

#[test]
fn parse_refuses_what_does_not_fit() {
    assert_eq!(parsed("18446744073709551616"), None);
    assert_eq!(parsed("99999999999999999999"), None);
    assert_eq!(parsed("184467440737095516150"), None);
}

#[test]
fn parse_reads_a_part_of_the_characters() {
    let chars: Vec<char> = "ab(12)c".chars().collect();
    assert_eq!(parse(&chars, 3, 5), Some(12));
    assert_eq!(parse(&chars, 3, 3), None);
    assert_eq!(parse(&chars, 2, 5), None);
}

#[test]
fn parse_undoes_render() {
    for n in [0u64, 5, 10, 99, 100, 65535, u64::MAX] {
        assert_eq!(parsed(&render(n)), Some(n));
    }
}

#[test]
fn report_3_pdf_round_trip() {
    let name = "Report(3).pdf";
    let (base, number, extension) = split_name(name);
    assert_eq!(base, "Report");
    assert_eq!(number, Some(3));
    assert_eq!(extension, Some(".pdf".to_string()));
    assert_eq!(join_name(&base, number, &extension), name);
}

#[test]
fn screenshot_2_png_is_taken_apart() {
    assert_eq!(split_name("Screenshot(2).png"), parts("Screenshot", Some(2), Some(".png")));
    assert_eq!(split_name("Screenshot.png"), parts("Screenshot", None, Some(".png")));
}

#[test]
fn names_without_extension() {
    assert_eq!(split_name("README"), parts("README", None, None));
    assert_eq!(split_name("README(4)"), parts("README", Some(4), None));
    assert_eq!(split_name(".bashrc"), parts(".bashrc", None, None));
    assert_eq!(split_name("notes."), parts("notes.", None, None));
    assert_eq!(split_name(""), parts("", None, None));
    assert_eq!(split_name("."), parts(".", None, None));
    assert_eq!(split_name(".."), parts("..", None, None));
}

#[test]
fn only_the_last_extension_counts() {
    assert_eq!(split_name("archive.tar.gz"), parts("archive.tar", None, Some(".gz")));
    assert_eq!(split_name("archive(1).tar.gz"), parts("archive(1).tar", None, Some(".gz")));
    assert_eq!(split_name("archive.tar(1).gz"), parts("archive.tar", Some(1), Some(".gz")));
    assert_eq!(split_name(".hidden.txt"), parts(".hidden", None, Some(".txt")));
}

#[test]
fn only_a_marker_at_the_end_counts() {
    assert_eq!(split_name("a(1)b.txt"), parts("a(1)b", None, Some(".txt")));
    assert_eq!(split_name("a(1)(2).txt"), parts("a(1)", Some(2), Some(".txt")));
    assert_eq!(split_name("(5)"), parts("", Some(5), None));
    assert_eq!(split_name("a((5)"), parts("a(", Some(5), None));
    assert_eq!(split_name("a(5))"), parts("a(5))", None, None));
}

#[test]
fn only_a_number_in_decimal_notation_is_a_marker() {
    assert_eq!(split_name("a(007).txt"), parts("a(007)", None, Some(".txt")));
    assert_eq!(split_name("a(-1).txt"), parts("a(-1)", None, Some(".txt")));
    assert_eq!(split_name("a(+1).txt"), parts("a(+1)", None, Some(".txt")));
    assert_eq!(split_name("a().txt"), parts("a()", None, Some(".txt")));
    assert_eq!(split_name("a(x).txt"), parts("a(x)", None, Some(".txt")));
    assert_eq!(split_name("a(0).txt"), parts("a", Some(0), Some(".txt")));
    assert_eq!(
        split_name("a(18446744073709551615)"),
        parts("a", Some(u64::MAX), None)
    );
    assert_eq!(
        split_name("a(18446744073709551616)"),
        parts("a(18446744073709551616)", None, None)
    );
}

#[test]
fn join_name_puts_the_parts_together() {
    assert_eq!(join_name("Screenshot", Some(1), &Some(".png".to_string())), "Screenshot(1).png");
    assert_eq!(join_name("Screenshot", None, &Some(".png".to_string())), "Screenshot.png");
    assert_eq!(join_name("Screenshot", Some(12), &None), "Screenshot(12)");
    assert_eq!(join_name("", None, &None), "");
}

#[test]
fn every_name_is_the_join_of_its_parts() {
    for name in [
        "Report(3).pdf", "a", "", ".", "..", "a.", ".a", "a.b.c", "x(1)", "x(01)", "(", ")", "()",
        "a(1).b(2)", "ünï(7).cödé", "a(1)b", "a.(1)",
    ] {
        let (base, number, extension) = split_name(name);
        assert_eq!(join_name(&base, number, &extension), name);
    }
}

#[test]
fn duplicate_counts_on() {
    assert_eq!(duplicate("Screenshot.png", 1), "Screenshot(1).png");
    assert_eq!(duplicate("Screenshot(1).png", 2), "Screenshot(2).png");
    assert_eq!(duplicate("Screenshot(2).png", 3), "Screenshot(3).png");
    assert_eq!(duplicate("README", 1), "README(1)");
    assert_eq!(duplicate(".bashrc", 1), ".bashrc(1)");
}

#[test]
fn a_duplicate_has_the_parts_of_its_name() {
    for name in ["Screenshot.png", "Report(3).pdf", "README", ".bashrc", "a.b.c", "(1)", "."] {
        let (base, _, extension) = split_name(name);
        for n in [0u64, 1, 9, 10, u64::MAX] {
            assert_eq!(split_name(&duplicate(name, n)), (base.clone(), Some(n), extension.clone()));
        }
    }
}

#[test]
fn a_name_that_ends_in_a_dot_gets_an_extension_when_renamed() {
    assert_eq!(duplicate("notes.", 1), "notes.(1)");
    assert_eq!(split_name("notes.(1)"), parts("notes", None, Some(".(1)")));
}

#[test]
fn duplicates_with_different_numbers_differ() {
    let mut seen = std::collections::HashSet::new();
    for n in 0..200u64 {
        assert!(seen.insert(duplicate("Screenshot.png", n)));
    }
}
