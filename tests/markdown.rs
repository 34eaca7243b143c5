use convmdblog::markdown::map_img_ref;

#[test]
fn markdown_image_is_rebased() {
    let out = map_img_ref("Look: ![alt](../images/foo.png \"t\")\n", "/assets/img").unwrap();
    assert!(out.contains("![alt](/assets/img/foo.png \"t\")"), "{out}");
    assert!(!out.contains("../images"), "{out}");
}

#[test]
fn raw_html_image_is_rebased() {
    let out = map_img_ref("<img src=\"../images/bar.jpg\" width=\"10\">\n", "/assets/img").unwrap();
    assert!(out.contains("<img src=\"/assets/img/bar.jpg\" width=\"10\">"), "{out}");
}

#[test]
fn text_without_images_keeps_its_words() {
    let out = map_img_ref("# Title\n\nSome *text* and [a link](../x.html).\n", "/assets/img").unwrap();
    assert!(out.contains("# Title"), "{out}");
    assert!(out.contains("*text*"), "{out}");
    assert!(out.contains("[a link](../x.html)"), "{out}");
}

#[test]
fn second_rewrite_changes_nothing() {
    let text = "# T\n\n![a](x/y/foo.png \"t\") and <img src=\"../images/bar.jpg\">\n\n![b](z.png)\n";
    let once = map_img_ref(text, "/assets/img").unwrap();
    let twice = map_img_ref(&once, "/assets/img").unwrap();
    assert_eq!(once, twice);
}

#[test]
fn bare_file_name_moves_into_asset_dir() {
    let out = map_img_ref("![a](foo.png)\n", "/assets/img").unwrap();
    assert_eq!(out.trim_end(), "![a](/assets/img/foo.png)");
}

#[test]
fn link_around_image_keeps_its_url() {
    let out = map_img_ref("[![a](../x/y.png)](https://e.com/p/q.html)\n", "/assets/img").unwrap();
    assert!(out.contains("](https://e.com/p/q.html)"), "{out}");
    assert!(out.contains("![a](/assets/img/y.png)"), "{out}");
}

#[test]
fn script_src_is_left_alone() {
    let out = map_img_ref("<script src=\"../js/a.js\"></script>\n", "/assets/img").unwrap();
    assert!(out.contains("<script src=\"../js/a.js\"></script>"), "{out}");
}

#[test]
fn img_keeps_other_attributes() {
    let out = map_img_ref("<img alt=\"b\" src=\"../images/bar.jpg\" width=\"10\">\n", "/assets/img").unwrap();
    assert!(out.contains("<img alt=\"b\" src=\"/assets/img/bar.jpg\" width=\"10\">"), "{out}");
}
