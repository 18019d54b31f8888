use khora_codegen_llvm::lines::{line_of, split, split_parts, Lines};

fn at(offset: u32) -> u32 {
    offset
}

#[test]
fn the_first_character_is_line_one_column_one() {
    let lines = Lines::of("abc\ndef\n");
    assert_eq!(lines.locate(at(0)), (1, 1));
}

#[test]
fn a_newline_starts_the_next_line() {
    let lines = Lines::of("abc\ndef\nghi");
    assert_eq!(lines.locate(at(3)), (1, 4), "the newline itself ends line one");
    assert_eq!(lines.locate(at(4)), (2, 1));
    assert_eq!(lines.locate(at(8)), (3, 1));
    assert_eq!(lines.locate(at(10)), (3, 3));
}

/// An offset past the end is clamped rather than panicking.
#[test]
fn an_offset_past_the_end_lands_on_the_last_line() {
    let lines = Lines::of("abc\ndef");
    let (line, _) = lines.locate(at(999));
    assert_eq!(line, 2);
}

#[test]
fn an_empty_file_is_still_line_one() {
    assert_eq!(Lines::of("").locate(at(0)), (1, 1));
}

#[test]
fn a_path_splits_into_name_and_directory() {
    let (name, dir) = split("/home/x/std/list.kh");
    assert_eq!(name, "list.kh");
    assert_eq!(dir, "/home/x/std");
    // A bare file name still gets a directory, because DWARF wants one.
    let (name, dir) = split("a.kh");
    assert_eq!(name, "a.kh");
    assert_eq!(dir, ".");
}

#[test]
fn columns_count_bytes() {
    let lines = Lines::of("é\nxé=");
    assert_eq!(lines.locate(2), (1, 3));
    assert_eq!(lines.locate(3), (2, 1));
    assert_eq!(lines.locate(6), (2, 4));
}

#[test]
fn past_the_end_clamps_the_column_too() {
    let lines = Lines::of("abc\ndef");
    assert_eq!(lines.locate(999), (2, 4));
    let lines = Lines::of("abc\n");
    assert_eq!(lines.locate(999), (2, 1));
}

#[test]
fn line_of_counts_newlines_before_the_offset() {
    assert_eq!(line_of("", 5), 0, "no source to count in");
    assert_eq!(line_of("abc\ndef\nghi", 0), 1);
    assert_eq!(line_of("abc\ndef\nghi", 3), 1);
    assert_eq!(line_of("abc\ndef\nghi", 4), 2);
    assert_eq!(line_of("abc\ndef\nghi", 10), 3);
    assert_eq!(line_of("abc\ndef", 999), 2);
}

#[test]
fn line_of_agrees_with_locate() {
    let text = "one\n\ntwo\nthree\n";
    let lines = Lines::of(text);
    for offset in 0..20 {
        assert_eq!(line_of(text, offset), lines.locate(offset).0, "offset {offset}");
    }
}

#[test]
fn split_takes_what_the_platform_says() {
    let (name, dir) = split_parts("x", None, Some(String::new()));
    assert_eq!(name, "x");
    assert_eq!(dir, ".");
    let (name, dir) = split_parts("/", None, None);
    assert_eq!(name, "/");
    assert_eq!(dir, ".");
    let (name, dir) = split_parts("d/f", Some("f".to_string()), Some("d".to_string()));
    assert_eq!((name.as_str(), dir.as_str()), ("f", "d"));
}

#[test]
fn a_bare_file_name_is_in_the_current_directory() {
    assert_eq!(split("main.kh"), ("main.kh".to_string(), ".".to_string()));
}

#[test]
fn a_path_without_a_file_name_is_its_own_name() {
    assert_eq!(split("/"), ("/".to_string(), ".".to_string()));
    assert_eq!(split("foo.txt/.."), ("foo.txt/..".to_string(), "foo.txt".to_string()));
    assert_eq!(split("/n"), ("n".to_string(), "/".to_string()));
    assert_eq!(split("a/b/n.kh"), ("n.kh".to_string(), "a/b".to_string()));
}
