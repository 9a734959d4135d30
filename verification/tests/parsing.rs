use mkrevealslides::parsing::{
    distinct_links, get_local_links, grab_image_links, is_remote_link, targets_of_events,
};

#[test]
fn test_grab_image_link() {
    let md_contents = r#"
foo

![](image_3.png "hello world")

bar
Group 1 will be image 2.png, and group 2 will be hello world.

The problem appears when I try to parse a link without title:

foo

![](image_2.png)
![some_image](path/to/image.png "image desc")

bar
        "#
    .to_string();
    let results = grab_image_links(&md_contents);
    assert_eq!(results.len(), 3);
    assert_eq!(results[0], "image_3.png");
    assert_eq!(results[1], "image_2.png");
    assert_eq!(results[2], "path/to/image.png");
}

#[test]
fn test_grab_only_local_image_links() {
    let links = vec![
        "image_1.png".to_string(),
        "http://www.google.com/image.png".to_string(),
        "https://www.google.com/image.png".to_string(),
        "/some/local/image.png".to_string(),
        "assets/image.png".to_string(),
        r#"/home/noob\ user/image.png"#.to_string(),
        r#"C:\Users\BillGates\Microsoft_Logo.png"#.to_string(),
        r#"C:\Users\BillGates\Microsoft%20Logo.png"#.to_string(),
        r#"C:\Users\Bill\ Gates\Microsoft\ Logo.png"#.to_string(),
        "ftp://ftp.google.com/image.png".to_string(),
        "ftps://ftp.google.com/image.png".to_string(),
    ];
    let results = get_local_links(links);
    assert_eq!(results.len(), 7);
}

#[test]
fn test_local_links_keep_their_order() {
    let links = vec![
        "b.png".to_string(),
        "http://example.com/x.png".to_string(),
        "a.png".to_string(),
        "b.png".to_string(),
    ];
    assert_eq!(get_local_links(links), vec!["b.png", "a.png", "b.png"]);
    assert_eq!(get_local_links(Vec::new()), Vec::<String>::new());
}

#[test]
fn test_image_links_from_example_markdown() {
    let markdown =
        "![alt text](https://example.com/image.png)\n![img2](https://example.com/image2.png)";
    let links = grab_image_links(markdown);
    assert_eq!(links, vec!["https://example.com/image.png", "https://example.com/image2.png"]);
    assert_eq!(get_local_links(links), Vec::<String>::new());
}

#[test]
fn test_only_inline_images_are_links() {
    let markdown = "![a][ref]\n\n[link](page.html) ![b](b.png)\n\n[ref]: a.png\n";
    assert_eq!(grab_image_links(markdown), vec!["b.png"]);
    assert_eq!(grab_image_links("no image here"), Vec::<String>::new());
    assert_eq!(grab_image_links(""), Vec::<String>::new());
}

#[test]
fn test_remote_is_the_scheme_separator() {
    assert!(is_remote_link("http://example.com/x.png"));
    assert!(is_remote_link("://"));
    assert!(is_remote_link("a://"));
    assert!(is_remote_link("x:/://y"));
    assert!(!is_remote_link("//host/path"));
    assert!(!is_remote_link("http:/example.com"));
    assert!(!is_remote_link(":/"));
    assert!(!is_remote_link(""));
    assert!(!is_remote_link("./local/image.png"));
}

#[test]
fn test_targets_of_events() {
    let events = vec![
        None,
        Some((true, "a.png".to_string())),
        None,
        Some((false, "by_reference.png".to_string())),
        None,
        Some((true, "b.png".to_string())),
    ];
    assert_eq!(targets_of_events(&events), vec!["a.png", "b.png"]);
    assert_eq!(targets_of_events(&vec![None, None]), Vec::<String>::new());
    assert_eq!(targets_of_events(&vec![Some((false, "x.png".to_string()))]), Vec::<String>::new());
}

#[test]
fn test_image_links_appear_once() {
    let markdown = "![](b.png) ![](a.png) ![again](b.png \"title\") ![](c.png) ![](a.png)";
    assert_eq!(grab_image_links(markdown), vec!["b.png", "a.png", "c.png"]);
}

#[test]
fn test_distinct_links() {
    let links = vec!["x".to_string(), "y".to_string(), "x".to_string(), "x".to_string(), "z".to_string(), "y".to_string()];
    assert_eq!(distinct_links(links), vec!["x", "y", "z"]);
    assert_eq!(distinct_links(Vec::new()), Vec::<String>::new());
    assert_eq!(distinct_links(vec!["a".to_string(), "A".to_string(), "".to_string(), "".to_string()]), vec!["a", "A", ""]);
}
