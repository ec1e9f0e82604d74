//! Path and text helpers: base names, extensions, chapter display names,
//! and page-number parsing.

use bad_reader::text::{base_name, chapter_file_name, extension_of, parse_page_number, str_eq};

#[test]
fn base_name_takes_the_part_after_the_last_slash() {
    assert_eq!(base_name("a/b/c.epub"), "c.epub");
    assert_eq!(base_name("c.epub"), "c.epub");
    assert_eq!(base_name("dir/"), "");
    assert_eq!(base_name(""), "");
    assert_eq!(base_name("/c.epub"), "c.epub");
}

#[test]
fn extension_is_the_part_after_the_last_dot() {
    assert_eq!(extension_of("a/b.epub"), Some("epub".to_owned()));
    assert_eq!(extension_of("a.b.c"), Some("c".to_owned()));
    assert_eq!(extension_of("noext"), None);
    assert_eq!(extension_of(".gitignore"), None);
    assert_eq!(extension_of("dir.d/noext"), None);
    assert_eq!(extension_of("archive."), Some("".to_owned()));
}

#[test]
fn chapter_file_name_strips_container_directories() {
    assert_eq!(chapter_file_name("EPUB/chapter_1.xml"), "chapter_1.xml");
    assert_eq!(chapter_file_name("OEBPS/ch02.xhtml"), "ch02.xhtml");
    assert_eq!(chapter_file_name("plain.xhtml"), "plain.xhtml");
    assert_eq!(chapter_file_name("EPUB/OEBPS/deep.xhtml"), "deep.xhtml");
}

#[test]
fn chapter_file_name_removes_every_occurrence() {
    assert_eq!(chapter_file_name("EPUB/EPUB/a.xml"), "a.xml");
    assert_eq!(chapter_file_name("xEPUB/a.xml"), "xa.xml");
    assert_eq!(chapter_file_name("EPUBOEBPS/a.xml"), "EPUBa.xml");
    assert_eq!(chapter_file_name(""), "");
}

#[test]
fn page_numbers_parse_with_a_fallback_of_one() {
    assert_eq!(parse_page_number("42"), 42);
    assert_eq!(parse_page_number("0"), 0);
    assert_eq!(parse_page_number(""), 1);
    assert_eq!(parse_page_number("abc"), 1);
    assert_eq!(parse_page_number("12x"), 1);
    assert_eq!(parse_page_number("-3"), 1);
    assert_eq!(parse_page_number("99999999999999999999999999"), 1);
}

#[test]
fn string_comparison_is_by_characters() {
    assert!(str_eq("épub", "épub"));
    assert!(!str_eq("a", "b"));
    assert!(!str_eq("a", "ab"));
    assert!(str_eq("", ""));
}
