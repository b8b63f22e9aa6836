use informer::path::file_name;
use std::path::Path;

fn name(path: &str) -> Option<String> {
    file_name(path)
}

fn some(text: &str) -> Option<String> {
    Some(text.to_string())
}

#[test]
fn plain_names() {
    assert_eq!(name("foo.txt"), some("foo.txt"));
    assert_eq!(name("tmp/foo.txt"), some("foo.txt"));
    assert_eq!(name("/usr/bin/env"), some("env"));
    assert_eq!(name("a"), some("a"));
}

#[test]
fn trailing_separators_are_passed_over() {
    assert_eq!(name("/usr/bin/"), some("bin"));
    assert_eq!(name("dir///"), some("dir"));
    assert_eq!(name("//a//b//"), some("b"));
}

#[test]
fn single_dots_are_passed_over() {
    assert_eq!(name("foo.txt/."), some("foo.txt"));
    assert_eq!(name("foo.txt/.//"), some("foo.txt"));
    assert_eq!(name("a/./b/././"), some("b"));
    assert_eq!(name("./a"), some("a"));
}

#[test]
fn root_and_empty_path_have_no_name() {
    assert_eq!(name("/"), None);
    assert_eq!(name("///"), None);
    assert_eq!(name(""), None);
}

#[test]
fn dots_alone_have_no_name() {
    assert_eq!(name("."), None);
    assert_eq!(name("./"), None);
    assert_eq!(name("./."), None);
    assert_eq!(name("/."), None);
    assert_eq!(name(".."), None);
    assert_eq!(name("../"), None);
    assert_eq!(name("foo.txt/.."), None);
    assert_eq!(name("foo/../."), None);
    assert_eq!(name("/.."), None);
}

#[test]
fn names_that_only_look_like_dots() {
    assert_eq!(name(".a"), some(".a"));
    assert_eq!(name("..a"), some("..a"));
    assert_eq!(name("a."), some("a."));
    assert_eq!(name("a.."), some("a.."));
    assert_eq!(name("..."), some("..."));
    assert_eq!(name("dir/.hidden"), some(".hidden"));
    assert_eq!(name("dir/.. "), some(".. "));
}

#[test]
fn names_beyond_ascii() {
    assert_eq!(name("/tmp/žluťoučký kůň.txt"), some("žluťoučký kůň.txt"));
    assert_eq!(name("日本語/ファイル/"), some("ファイル"));
    assert_eq!(name("a\\b"), some("a\\b"));
    assert_eq!(name("line\nfeed"), some("line\nfeed"));
}

#[test]
fn agrees_with_the_standard_library() {
    let pieces = ["", "/", ".", "..", "a", "b.c", "//", "/.", "./", "../", "...", ".x", "é/"];
    for first in pieces {
        for second in pieces {
            for third in pieces {
                let path = format!("{first}{second}{third}");
                let expected =
                    Path::new(&path).file_name().map(|name| name.to_str().unwrap().to_string());
                assert_eq!(name(&path), expected, "{path:?}");
            }
        }
    }
}
