use mkrevealslides::discovery::{
    fetch_file_indices, find_slides, goes_first_by_name, indices_and_paths_to_entries, raw_key,
    skip_reason, EntryType, FileEntry, KeyPolicy, ListedEntry, SkipReason, SlideSource,
};
use mkrevealslides::errors::PipelineError;
use mkrevealslides::index::{parse_index, Index};
use mkrevealslides::ordering::{sort_ranked, Ranked};
use mkrevealslides::paths::{grab_file_names_from_path_bufs, is_markdown_file};

fn hs(s: &str) -> String {
    String::from(s)
}

fn index(n: i64) -> Index {
    parse_index(&n.to_string()).unwrap()
}

fn file(path: &str) -> ListedEntry {
    ListedEntry { path: hs(path), entry_type: EntryType::File }
}

fn dir(path: &str) -> ListedEntry {
    ListedEntry { path: hs(path), entry_type: EntryType::NotFile }
}

#[test]
fn test_file_entry_sortable() {
    let file_entries = vec![
        FileEntry { idx: index(3), file_path: hs("/tmp/3.md") },
        FileEntry { idx: index(1), file_path: hs("/tmp/1.md") },
        FileEntry { idx: index(2), file_path: hs("/tmp/2.md") },
    ];
    let file_entries = sort_ranked(file_entries);
    assert_eq!(file_entries[0].idx, index(1));
    assert_eq!(file_entries[1].idx, index(2));
    assert_eq!(file_entries[2].idx, index(3));
    assert_eq!(file_entries[0].idx.to_string(), "1");
    assert_eq!(file_entries[2].file_path, "/tmp/3.md");
}

#[test]
fn io_test_is_markdown_file() {
    let md_file_name = "/a/b/c/file.md";
    let not_md_file_name = "/a/b/c/file.txt";
    let definitely_not_md = "/a/b/c/file";
    assert!(is_markdown_file(md_file_name));
    assert!(!is_markdown_file(not_md_file_name));
    assert!(!is_markdown_file(definitely_not_md));
}

#[test]
fn test_fetch_file_indices() {
    let listing = vec![file("/t/0_test.md"), file("/t/1_test.md"), file("/t/2_test.md")];
    let indices_and_paths = fetch_file_indices(&listing).unwrap();
    let just_indices: Vec<String> = indices_and_paths.iter().map(|(idx, _)| idx.clone()).collect();
    assert_eq!(indices_and_paths.len(), 3);
    assert!(just_indices.contains(&"0".to_string()));
    assert!(just_indices.contains(&"1".to_string()));
    assert!(just_indices.contains(&"2".to_string()));
    assert_eq!(indices_and_paths[1], (hs("1"), hs("/t/1_test.md")));
}

#[test]
fn test_fetch_file_indices_skips() {
    let listing = vec![
        file("/t/0_test.md"),
        file("/t/1_test.md"),
        file("/t/2_test.md"),
        dir("/t/not_md_file"),
        file("/t/not_md_file.txt"),
    ];
    let indices_and_paths = fetch_file_indices(&listing).unwrap();
    assert_eq!(indices_and_paths.len(), 3);
    assert_eq!(skip_reason(&listing[0]), None);
    assert_eq!(skip_reason(&listing[3]), Some(SkipReason::NotAFile));
    assert_eq!(skip_reason(&listing[4]), Some(SkipReason::NotMarkdown));
}

#[test]
fn test_fetch_weird_indices() {
    let listing = vec![file("/t/test0.md"), file("/t/test1.md"), file("/t/test2.md")];
    let indices_and_paths = fetch_file_indices(&listing);
    assert!(indices_and_paths.is_ok());
    assert_eq!(indices_and_paths.unwrap()[0].0, "test0");
}

#[test]
fn test_fetch_bad_indices() {
    let slides = find_slides("/t/0_test.md", &None, KeyPolicy::StrictNumeric);
    assert!(slides.is_err());
    match slides {
        Err(PipelineError::DirectoryAccess(dir)) => assert_eq!(dir, "/t/0_test.md"),
        other => panic!("unexpected: {:?}", other),
    }
}

#[test]
fn test_fetch_bad_indices_2() {
    let listing = vec![dir("/t/0_test"), dir("/t/1_test"), dir("/t/2_test")];
    let indices_and_paths = fetch_file_indices(&listing);
    assert!(indices_and_paths.unwrap().is_empty());
}

#[test]
fn test_fetch_stops_at_unreadable_entry() {
    let listing = vec![
        file("/t/1_a.md"),
        ListedEntry { path: hs("/t/2_b.md"), entry_type: EntryType::Unreadable },
        ListedEntry { path: hs("/t/3_c.md"), entry_type: EntryType::Unreadable },
    ];
    match fetch_file_indices(&listing) {
        Err(PipelineError::FileType(path)) => assert_eq!(path, "/t/2_b.md"),
        other => panic!("unexpected: {:?}", other),
    }
    assert_eq!(skip_reason(&listing[1]), None);
    match find_slides("/t", &Some(listing), KeyPolicy::NaturalOrder) {
        Err(PipelineError::FileType(path)) => assert_eq!(path, "/t/2_b.md"),
        other => panic!("unexpected: {:?}", other),
    }
}

#[test]
fn test_indices_and_paths_to_entries() {
    let indices_and_paths = vec![
        (hs("1"), hs("/a/b/c/file.md")),
        (hs("2"), hs("/a/b/c/file2.md")),
        (hs("3"), hs("/a/b/c/file3.md")),
    ];
    let entries = indices_and_paths_to_entries(indices_and_paths).unwrap();
    assert_eq!(entries.len(), 3);
    let entries = sort_ranked(entries);
    assert_eq!(entries[0].file_path, "/a/b/c/file.md");
    assert_eq!(entries[1].file_path, "/a/b/c/file2.md");
    assert_eq!(entries[2].file_path, "/a/b/c/file3.md");
}

#[test]
fn test_bad_indices_and_paths_to_entires() {
    let bad_indices_and_paths = vec![(hs("not int"), hs("/doesnt/really/matter/lol"))];
    let entries = indices_and_paths_to_entries(bad_indices_and_paths);
    assert!(entries.is_err());
}

#[test]
fn test_first_bad_index_is_reported() {
    let pairs = vec![(hs("1"), hs("/a/1.md")), (hs("x"), hs("/a/x.md")), (hs("y"), hs("/a/y.md"))];
    match indices_and_paths_to_entries(pairs) {
        Err(PipelineError::IndexParse(key)) => assert_eq!(key, "x"),
        other => panic!("unexpected: {:?}", other),
    }
}

#[test]
fn test_grab_file_names_from_path_bufs() {
    let paths = vec![
        hs("/path/to/file1.txt"),
        hs("../relative/path/to/file2.md"),
        hs("./path/to/file3.html"),
        hs("file_no_ext"),
    ];
    let file_names = grab_file_names_from_path_bufs(&paths).unwrap();
    assert_eq!(file_names, vec![hs("file1.txt"), hs("file2.md"), hs("file3.html"), hs("file_no_ext")]);
}

#[test]
fn test_grab_file_names_fails_without_a_name() {
    assert_eq!(grab_file_names_from_path_bufs(&vec![hs("a/"), hs("/b/c/.")]).unwrap(), vec![hs("a"), hs("c")]);
    let paths = vec![hs("/path/to/file1.txt"), hs("/path/to/..")];
    let err = grab_file_names_from_path_bufs(&paths).err().unwrap();
    assert_eq!(err.to_string(), "App Error: Could not get file name from path");
}

#[test]
fn io_test_find_included_slides() {
    let listing = vec![
        file("/s/3_slide3.md"),
        file("/s/5_not_md.txt"),
        file("/s/1_slide1.md"),
        file("/s/2_slide2.md"),
    ];
    let slides = find_slides("/s", &Some(listing), KeyPolicy::StrictNumeric).unwrap();
    assert_eq!(slides, vec![hs("/s/1_slide1.md"), hs("/s/2_slide2.md"), hs("/s/3_slide3.md")]);
}

#[test]
fn io_test_find_included_slides_fails() {
    let listing = vec![file("/s/1_slide1.md"), file("/s/slide2_2.md")];
    let slides = find_slides("/s", &Some(listing), KeyPolicy::StrictNumeric);
    assert!(slides.is_err());
    match slides {
        Err(PipelineError::IndexParse(key)) => assert_eq!(key, "slide2"),
        other => panic!("unexpected: {:?}", other),
    }
}

#[test]
fn test_numeric_order_does_not_depend_on_the_listing() {
    let names = ["10_j.md", "2_b.md", "-3_m.md", "1_a.md", "007_g.md", "+4_d.md"];
    let expected: Vec<String> =
        ["-3_m.md", "1_a.md", "2_b.md", "+4_d.md", "007_g.md", "10_j.md"].iter().map(|n| format!("/s/{}", n)).collect();
    for rotation in 0..names.len() {
        let mut listing: Vec<ListedEntry> = names.iter().map(|n| file(&format!("/s/{}", n))).collect();
        listing.rotate_left(rotation);
        listing.insert(rotation, dir("/s/9_dir.md"));
        listing.push(file("/s/0_notes.txt"));
        let slides = find_slides("/s", &Some(listing), KeyPolicy::StrictNumeric).unwrap();
        assert_eq!(slides, expected);
    }
    let mut reversed: Vec<ListedEntry> = names.iter().rev().map(|n| file(&format!("/s/{}", n))).collect();
    reversed.reverse();
    reversed.reverse();
    assert_eq!(find_slides("/s", &Some(reversed), KeyPolicy::StrictNumeric).unwrap(), expected);
}

#[test]
fn test_equal_indices_are_ordered_by_file_name() {
    let listing = vec![file("/s/1_b.md"), file("/s/2_a.md"), file("/s/1_a.md"), file("/s/01_c.md")];
    let slides = find_slides("/s", &Some(listing), KeyPolicy::StrictNumeric).unwrap();
    assert_eq!(slides, vec![hs("/s/01_c.md"), hs("/s/1_a.md"), hs("/s/1_b.md"), hs("/s/2_a.md")]);
    let entries = vec![
        FileEntry { idx: index(1), file_path: hs("/a/1_z.md") },
        FileEntry { idx: index(1), file_path: hs("/b/1_y.md") },
        FileEntry { idx: index(1), file_path: hs("/c/1_y.md") },
        FileEntry { idx: index(0), file_path: hs("/z/0.md") },
    ];
    let sorted: Vec<String> = sort_ranked(entries).into_iter().map(|e| e.file_path).collect();
    assert_eq!(sorted, vec![hs("/z/0.md"), hs("/b/1_y.md"), hs("/c/1_y.md"), hs("/a/1_z.md")]);
    assert!(goes_first_by_name("/b/x.md", "/a/y.md"));
    assert!(!goes_first_by_name("/a/y.md", "/b/x.md"));
    assert!(goes_first_by_name("/a/x.md", "/b/x.md"));
    assert!(!goes_first_by_name("/a/x.md", "/a/x.md"));
}

#[test]
fn test_files_without_the_extension_are_never_found() {
    let listing = vec![
        file("/s/1_a.txt"),
        file("/s/2_b"),
        file("/s/3_c.md.bak"),
        file("/s/.md"),
        file("/s/4_d.MD"),
        file("/s/5_e.mD"),
        file("/s/6_f.markdown"),
        dir("/s/7_g.md"),
    ];
    for policy in [KeyPolicy::StrictNumeric, KeyPolicy::NaturalOrder] {
        let slides = find_slides("/s", &Some(listing.clone()), policy).unwrap();
        assert_eq!(slides, vec![hs("/s/4_d.MD"), hs("/s/5_e.mD")]);
    }
    assert_eq!(find_slides("/s", &Some(Vec::new()), KeyPolicy::NaturalOrder).unwrap(), Vec::<String>::new());
}

#[test]
fn test_non_numeric_prefix_under_both_policies() {
    let listing = vec![file("/s/abd.md"), file("/s/abc.md"), file("/s/abb.md")];
    match find_slides("/s", &Some(listing.clone()), KeyPolicy::StrictNumeric) {
        Err(PipelineError::IndexParse(key)) => assert_eq!(key, "abd"),
        other => panic!("unexpected: {:?}", other),
    }
    let slides = find_slides("/s", &Some(listing), KeyPolicy::NaturalOrder).unwrap();
    assert_eq!(slides, vec![hs("/s/abb.md"), hs("/s/abc.md"), hs("/s/abd.md")]);
}

#[test]
fn test_natural_order_reads_numbers() {
    let listing = vec![
        file("/s/10_end.md"),
        file("/s/2_middle.md"),
        file("/s/1_start.md"),
        file("/s/rfc2086.md"),
        file("/s/rfc822.md"),
        file("/s/rfc1.md"),
    ];
    let slides = find_slides("/s", &Some(listing), KeyPolicy::NaturalOrder).unwrap();
    assert_eq!(
        slides,
        vec![
            hs("/s/1_start.md"),
            hs("/s/2_middle.md"),
            hs("/s/10_end.md"),
            hs("/s/rfc1.md"),
            hs("/s/rfc822.md"),
            hs("/s/rfc2086.md"),
        ]
    );
}

#[test]
fn test_natural_order_breaks_ties_by_name() {
    let a = SlideSource { path: hs("/s/a 1.md"), filename: hs("a 1.md") };
    let b = SlideSource { path: hs("/s/a1.md"), filename: hs("a1.md") };
    assert!(a.precedes(&b));
    assert!(!b.precedes(&a));
    assert!(!a.precedes(&a));
    let two = SlideSource { path: hs("/s/2.md"), filename: hs("2.md") };
    let ten = SlideSource { path: hs("/s/10.md"), filename: hs("10.md") };
    assert!(two.precedes(&ten));
    assert!(!ten.precedes(&two));
    let sorted = sort_ranked(vec![ten.clone(), b.clone(), two.clone(), a.clone()]);
    let names: Vec<&str> = sorted.iter().map(|s| s.filename.as_str()).collect();
    assert_eq!(names, vec!["2.md", "10.md", "a 1.md", "a1.md"]);
}

#[test]
fn test_sort_keeps_the_order_of_equal_entries() {
    let entries = vec![
        FileEntry { idx: index(2), file_path: hs("same") },
        FileEntry { idx: index(1), file_path: hs("z") },
        FileEntry { idx: index(2), file_path: hs("same") },
        FileEntry { idx: index(1), file_path: hs("a") },
    ];
    let sorted = sort_ranked(entries);
    let seen: Vec<(String, &str)> = sorted.iter().map(|e| (e.idx.to_string(), e.file_path.as_str())).collect();
    assert_eq!(seen, vec![(hs("1"), "a"), (hs("1"), "z"), (hs("2"), "same"), (hs("2"), "same")]);
    assert_eq!(sort_ranked(Vec::<FileEntry>::new()), Vec::<FileEntry>::new());
}

#[test]
fn test_raw_key() {
    assert_eq!(raw_key("/s/0_intro.md"), Some(hs("0")));
    assert_eq!(raw_key("/s/2a_file.md"), Some(hs("2a")));
    assert_eq!(raw_key("/s/1_more_text.md"), Some(hs("1")));
    assert_eq!(raw_key("abc.md"), Some(hs("abc")));
    assert_eq!(raw_key("/s/_x.md"), Some(hs("")));
    assert_eq!(raw_key("/s/1.2_x.tar.md"), Some(hs("1.2")));
    assert_eq!(raw_key("/s/"), Some(hs("s")));
    assert_eq!(raw_key("/s/.."), None);
    assert_eq!(raw_key("/"), None);
    assert_eq!(raw_key(""), None);
}

#[test]
fn test_parse_index() {
    let shown = |s: &str| parse_index(s).map(|n| n.to_string());
    let some = |s: &str| Some(s.to_string());
    assert_eq!(shown("0"), some("0"));
    assert_eq!(shown("12"), some("12"));
    assert_eq!(shown("+12"), some("12"));
    assert_eq!(shown("-12"), some("-12"));
    assert_eq!(shown("007"), some("7"));
    assert_eq!(shown("-0"), some("0"));
    assert_eq!(shown("+000"), some("0"));
    assert_eq!(shown("2147483647"), some("2147483647"));
    assert_eq!(shown("-2147483648"), some("-2147483648"));
    assert_eq!(shown("2147483648"), some("2147483648"));
    assert_eq!(shown("-2147483649"), some("-2147483649"));
    assert_eq!(shown("000099999999999999999999999999"), some("99999999999999999999999999"));
    assert_eq!(shown(""), None);
    assert_eq!(shown("+"), None);
    assert_eq!(shown("-"), None);
    assert_eq!(shown("+-1"), None);
    assert_eq!(shown("1_000"), None);
    assert_eq!(shown(" 1"), None);
    assert_eq!(shown("1 "), None);
    assert_eq!(shown("2a"), None);
    assert_eq!(shown("not int"), None);
    assert_eq!(shown("\u{661}"), None);
    for n in [-1000i64, -1, 0, 1, 9, 10, 99, 100, 65535, 123456789, i64::MAX, i64::MIN] {
        assert_eq!(shown(&n.to_string()), some(&n.to_string()));
    }
    assert_eq!(parse_index("+12"), parse_index("12"));
    assert_eq!(parse_index("-0"), parse_index("0"));
    assert_ne!(parse_index("-1"), parse_index("1"));
}

#[test]
fn test_index_order() {
    let texts = [
        "-100000000000000000000000000000",
        "-99999999999999999999",
        "-10",
        "-9",
        "-1",
        "0",
        "1",
        "2",
        "9",
        "10",
        "11",
        "99",
        "100",
        "2147483647",
        "2147483648",
        "99999999999999999999",
        "100000000000000000000000000000",
        "100000000000000000000000000001",
    ];
    for (i, a) in texts.iter().enumerate() {
        for (j, b) in texts.iter().enumerate() {
            let (x, y) = (parse_index(a).unwrap(), parse_index(b).unwrap());
            assert_eq!(x.is_less_than(&y), i < j, "{} < {}", a, b);
        }
    }
    let small = [-12i64, -3, 0, 4, 7, 10, 19, 20, 100];
    for a in small {
        for b in small {
            assert_eq!(index(a).is_less_than(&index(b)), a < b);
        }
    }
    assert!(!index(5).is_less_than(&index(5).clone()));
}

#[test]
fn test_keys_of_any_size_are_ordered_by_value() {
    let listing = vec![
        file("/s/100000000000000000000_c.md"),
        file("/s/2147483648_b.md"),
        file("/s/-99999999999999999999_z.md"),
        file("/s/9_a.md"),
    ];
    let slides = find_slides("/s", &Some(listing), KeyPolicy::StrictNumeric).unwrap();
    assert_eq!(
        slides,
        vec![
            hs("/s/-99999999999999999999_z.md"),
            hs("/s/9_a.md"),
            hs("/s/2147483648_b.md"),
            hs("/s/100000000000000000000_c.md"),
        ]
    );
}

#[test]
fn test_natural_order_is_the_default() {
    assert_eq!(KeyPolicy::default(), KeyPolicy::NaturalOrder);
}

#[test]
fn test_leading_zero_under_both_policies() {
    let listing = vec![file("/s/9_b.md"), file("/s/010_a.md")];
    let strict = find_slides("/s", &Some(listing.clone()), KeyPolicy::StrictNumeric).unwrap();
    assert_eq!(strict, vec![hs("/s/9_b.md"), hs("/s/010_a.md")]);
    let natural = find_slides("/s", &Some(listing), KeyPolicy::NaturalOrder).unwrap();
    assert_eq!(natural, vec![hs("/s/010_a.md"), hs("/s/9_b.md")]);
}
