use mkrevealslides::paths::{
    below, extension, file_name, file_stem, holds_way_up, is_absolute, is_markdown_file, join,
    parent, trim_end, validate_dir_path, validate_file_path, PathStatus,
};
use std::path::Path;

fn some(s: &str) -> Option<String> {
    Some(s.to_string())
}

#[test]
fn test_file_name() {
    assert_eq!(file_name("/a/b/c/file.md"), some("file.md"));
    assert_eq!(file_name("file.md"), some("file.md"));
    assert_eq!(file_name("./x"), some("x"));
    assert_eq!(file_name("a/.hidden"), some(".hidden"));
    assert_eq!(file_name("a/..."), some("..."));
    assert_eq!(file_name("a/ü.md"), some("ü.md"));
    assert_eq!(file_name("a/"), some("a"));
    assert_eq!(file_name("a//"), some("a"));
    assert_eq!(file_name("a/."), some("a"));
    assert_eq!(file_name("a/./"), some("a"));
    assert_eq!(file_name("/a/b/./."), some("b"));
    assert_eq!(file_name("a//b"), some("b"));
    assert_eq!(file_name("./a"), some("a"));
    assert_eq!(file_name("a/b."), some("b."));
    assert_eq!(file_name("/"), None);
    assert_eq!(file_name("//"), None);
    assert_eq!(file_name("/."), None);
    assert_eq!(file_name(""), None);
    assert_eq!(file_name("a/.."), None);
    assert_eq!(file_name("a/../"), None);
    assert_eq!(file_name(".."), None);
    assert_eq!(file_name("."), None);
    assert_eq!(file_name("./"), None);
    assert_eq!(file_name("./."), None);
    for path in ["a/", "a//", "a/.", "/a/b/./.", "a//b", "./a", "/", "//", "/.", "", "a/..", "..", ".", "./", "x.md/", "/a/b/c/file.md"] {
        let std_name = std::path::Path::new(path).file_name().map(|n| n.to_str().unwrap().to_string());
        assert_eq!(file_name(path), std_name, "file name of {:?}", path);
    }
}

#[test]
fn test_extension_and_stem() {
    assert_eq!(extension("/a/file.md"), some("md"));
    assert_eq!(file_stem("/a/file.md"), some("file"));
    assert_eq!(extension("a.tar.gz"), some("gz"));
    assert_eq!(file_stem("a.tar.gz"), some("a.tar"));
    assert_eq!(extension("/a/file"), None);
    assert_eq!(file_stem("/a/file"), some("file"));
    assert_eq!(extension(".bashrc"), None);
    assert_eq!(file_stem(".bashrc"), some(".bashrc"));
    assert_eq!(extension("file."), some(""));
    assert_eq!(file_stem("file."), some("file"));
    assert_eq!(extension("/a.b/file"), None);
    assert_eq!(extension("/a/.."), None);
    assert_eq!(file_stem("/a/.."), None);
    assert_eq!(extension(""), None);
    assert_eq!(file_stem(""), None);
}

#[test]
fn test_is_markdown_file_ignores_case() {
    assert!(is_markdown_file("a.md"));
    assert!(is_markdown_file("a.MD"));
    assert!(is_markdown_file("a.Md"));
    assert!(is_markdown_file("a.mD"));
    assert!(is_markdown_file("/x/y.txt.md"));
    assert!(!is_markdown_file("a.mdx"));
    assert!(!is_markdown_file("a.m"));
    assert!(!is_markdown_file("a.dm"));
    assert!(!is_markdown_file("md"));
    assert!(!is_markdown_file(".md"));
    assert!(is_markdown_file("a.md/"));
    assert!(is_markdown_file("a.md/."));
    assert!(!is_markdown_file("a.md/b"));
    assert!(!is_markdown_file("a.md/.."));
    assert!(!is_markdown_file(""));
}

#[test]
fn test_is_absolute() {
    assert!(is_absolute("/"));
    assert!(is_absolute("/a/b"));
    assert!(!is_absolute("a/b"));
    assert!(!is_absolute("./a"));
    assert!(!is_absolute(""));
}

#[test]
fn test_parent() {
    assert_eq!(parent("/a/b/c.md"), some("/a/b"));
    assert_eq!(parent("/a"), some("/"));
    assert_eq!(parent("a"), some(""));
    assert_eq!(parent("a/b"), some("a"));
    assert_eq!(parent("./img/slide.md/image.png"), some("./img/slide.md"));
    assert_eq!(parent("a/b/"), some("a"));
    assert_eq!(parent("a/b/."), some("a"));
    assert_eq!(parent("a//b"), some("a"));
    assert_eq!(parent("a/./b"), some("a"));
    assert_eq!(parent("a/.."), some("a"));
    assert_eq!(parent("./a"), some("."));
    assert_eq!(parent("//a"), some("/"));
    assert_eq!(parent("/a/"), some("/"));
    assert_eq!(parent("."), some(""));
    assert_eq!(parent(".."), some(""));
    assert_eq!(parent("/"), None);
    assert_eq!(parent("//"), None);
    assert_eq!(parent("/."), None);
    assert_eq!(parent(""), None);
    for path in ["/a/b/c.md", "/a", "a", "a/b", "a/b/", "a/b/.", "a//b", "a/./b", "a/..", "./a", "//a", "/a/", ".", "..", "/", "//", "/.", "", "./img/s.md/x.png", "/.."] {
        let std_parent = std::path::Path::new(path).parent().map(|n| n.to_str().unwrap().to_string());
        assert_eq!(parent(path), std_parent, "parent of {:?}", path);
    }
}

#[test]
fn test_join() {
    assert_eq!(join("/a", "b"), "/a/b");
    assert_eq!(join("/a/", "b"), "/a/b");
    assert_eq!(join("", "b"), "b");
    assert_eq!(join("/a", "/b"), "/b");
    assert_eq!(join("/a", "../img/1.png"), "/a/../img/1.png");
    assert_eq!(join("/a", ""), "/a/");
    assert_eq!(join("/", "x"), "/x");
    assert_eq!(join("out", "./img/s.md/x.png"), "out/./img/s.md/x.png");
}

#[test]
fn test_validate_file_path() {
    assert_eq!(validate_file_path("/t/tmp.txt", PathStatus::Missing), Err("File /t/tmp.txt does not exist".to_string()));
    assert_eq!(validate_file_path("/t/tmp.txt", PathStatus::File), Ok("/t/tmp.txt".to_string()));
    assert_eq!(validate_file_path("/t/tmp_dir", PathStatus::Directory), Err("/t/tmp_dir is not a file".to_string()));
    assert_eq!(validate_file_path("/t/sock", PathStatus::Other), Err("/t/sock is not a file".to_string()));
    assert!(validate_file_path("/t/tmp.txt", PathStatus::Missing).is_err());
    assert!(validate_file_path("/t/tmp.txt", PathStatus::File).is_ok());
    assert!(validate_file_path("/t/tmp_dir", PathStatus::Directory).is_err());
}

#[test]
fn test_validate_dir_path() {
    assert!(validate_dir_path("/t", PathStatus::Directory).is_ok());
    assert!(validate_dir_path("/t/tmp.txt", PathStatus::Missing).is_err());
    assert!(validate_dir_path("/t/tmp_dir", PathStatus::Missing).is_err());
    assert!(validate_dir_path("/t/tmp.txt", PathStatus::File).is_err());
    assert!(validate_dir_path("/t/tmp_dir", PathStatus::Directory).is_ok());
    assert_eq!(validate_dir_path("/t/d", PathStatus::Directory), Ok("/t/d".to_string()));
    assert_eq!(validate_dir_path("/t/d", PathStatus::Missing), Err("Directory /t/d does not exist".to_string()));
    assert_eq!(validate_dir_path("/t/f", PathStatus::File), Err("/t/f is not a directory".to_string()));
    assert_eq!(validate_dir_path("/t/f", PathStatus::Other), Err("/t/f is not a directory".to_string()));
}

#[test]
fn test_trim_end() {
    assert_eq!(trim_end("a/b"), "a/b");
    assert_eq!(trim_end("a/b/"), "a/b");
    assert_eq!(trim_end("a/b//./"), "a/b");
    assert_eq!(trim_end("a/b/.."), "a/b/..");
    assert_eq!(trim_end("a/b."), "a/b.");
    assert_eq!(trim_end("/"), "");
    assert_eq!(trim_end("/."), "");
    assert_eq!(trim_end("."), ".");
    assert_eq!(trim_end(""), "");
}

#[test]
fn test_below() {
    assert_eq!(below("/out", "index.html"), "/out/index.html");
    assert_eq!(below("out", "./img/s.md/x.png"), "out/./img/s.md/x.png");
    assert_eq!(below("out", "/etc/passwd"), "out//etc/passwd");
    assert_eq!(below("out/", "x"), "out//x");
    assert_eq!(below("", "x"), "./x");
    assert_eq!(below("", "/x"), ".//x");
    assert_eq!(below("out", ""), "out/");
}

#[test]
fn test_holds_way_up() {
    for path in ["..", "../x", "a/..", "a/../b", "/..", "./../x", "a//.."] {
        assert!(holds_way_up(path), "{:?}", path);
    }
    for path in ["", ".", "a", "...", "a/...", "..a", "a..", "a/..b/c", "a/b../c", "./img/s.md/x.png", "a.b/c..d"] {
        assert!(!holds_way_up(path), "{:?}", path);
    }
}

#[test]
fn test_paths_are_taken_apart_as_the_standard_library_does() {
    let paths = [
        "/a/b/c/file.md", "file.md", "a.tar.gz", ".bashrc", "file.", "/a.b/file", "a/", "a/.", "a/..",
        "", "/", ".", "..", "a/.hidden.md", "x.MD/", "a/b.c/", "...", "a/..b",
    ];
    for path in paths {
        let std_extension = Path::new(path).extension().map(|p| p.to_str().unwrap().to_string());
        let std_stem = Path::new(path).file_stem().map(|p| p.to_str().unwrap().to_string());
        assert_eq!(extension(path), std_extension, "extension of {:?}", path);
        assert_eq!(file_stem(path), std_stem, "stem of {:?}", path);
        assert_eq!(is_absolute(path), Path::new(path).is_absolute(), "{:?}", path);
    }
    for (base, rel) in [("/a", "b"), ("/a/", "b"), ("", "b"), ("/a", "/b"), ("/a", ""), ("/", "x"), ("a", "../b"), ("", "")] {
        assert_eq!(join(base, rel), Path::new(base).join(rel).to_str().unwrap(), "{:?} {:?}", base, rel);
    }
}
