use convmdblog::category::{classify_keys, map_tags_to_cats, normalize_tag, Cat, TagTable};
use convmdblog::date::{parse_date, Date};
use convmdblog::error::{ConvError, Field};
use convmdblog::jekyll::{map_default_to_jekyll, render_document, select_mapper, JekyllMapper, Mapper, Mat};
use convmdblog::media::{file_name, join_path, rebase_url};
use convmdblog::reader::{file_stem, DefaultReader, DefaultYAMLHdr};

fn tags(v: &[&str]) -> Vec<String> {
    v.iter().map(|s| s.to_string()).collect()
}

fn hdr(title: Option<&str>, date: Option<Date>, t: &[&str]) -> DefaultYAMLHdr {
    DefaultYAMLHdr { title: title.map(|s| s.to_string()), date, tags: tags(t) }
}

fn reader_with(stem: &str, h: Option<DefaultYAMLHdr>) -> DefaultReader {
    DefaultReader { yaml_hdr: h, name_stem: stem.to_string(), raw: String::new(), text_start: 0 }
}

#[test]
fn classify_os_tags() {
    let t = TagTable::new();
    assert_eq!(map_tags_to_cats(&t, &tags(&["linux", "shell"])), Ok(vec![Cat::OS]));
}

#[test]
fn classify_single_algorithm_tag() {
    let t = TagTable::new();
    assert_eq!(map_tags_to_cats(&t, &tags(&["algorithm"])), Ok(vec![Cat::Algs]));
}

#[test]
fn classify_unknown_tag_is_other() {
    let t = TagTable::new();
    assert_eq!(map_tags_to_cats(&t, &tags(&["my-random-tag"])), Ok(vec![Cat::Oth]));
    assert_eq!(map_tags_to_cats(&t, &tags(&[])), Ok(vec![Cat::Oth]));
}

#[test]
fn classify_normalizes_tags() {
    let t = TagTable::new();
    assert_eq!(map_tags_to_cats(&t, &tags(&["  Common Lisp ", "other"])), Ok(vec![Cat::Lang]));
    assert_eq!(normalize_tag("  IETF RFCs\t"), "ietf rfcs");
    assert_eq!(normalize_tag("\u{3000}Linux\u{a0}"), "linux");
}

#[test]
fn classify_conflict_is_error() {
    let t = TagTable::new();
    assert_eq!(map_tags_to_cats(&t, &tags(&["linux", "algorithm"])), Err(ConvError::AmbiguousCategory));
}

#[test]
fn classify_normalized_keys() {
    let t = TagTable::new();
    assert_eq!(classify_keys(&t, &tags(&["graph", "nothing", "string"])), Ok(Cat::Algs));
    assert_eq!(classify_keys(&t, &tags(&["Linux"])), Ok(Cat::Oth));
    assert_eq!(classify_keys(&t, &tags(&["ietf", "c"])), Err(ConvError::AmbiguousCategory));
    assert_eq!(TagTable::new().get(&"hy".to_string()), Some(Cat::Lang));
    assert_eq!(TagTable::new().get(&"HY".to_string()), None);
}

#[test]
fn category_names() {
    assert_eq!(Cat::Algs.name(), "algs");
    assert_eq!(Cat::OS.name(), "os");
    assert_eq!(Cat::Oth.name(), "oth");
}

#[test]
fn head_found_after_first_delimiters() {
    let text = "---\ntitle: a\n---\nbody\n---\nmore\n";
    assert_eq!(DefaultReader::fetch_yaml_head(text), Some((3, 13)));
}

#[test]
fn head_needs_whole_delimiter_lines() {
    assert_eq!(DefaultReader::fetch_yaml_head("a---b---c"), None);
    assert_eq!(DefaultReader::fetch_yaml_head("a --- b ---\nx\n---\n"), None);
    assert_eq!(DefaultReader::fetch_yaml_head("intro\n---\nk: v\n---"), Some((9, 15)));
    assert_eq!(DefaultReader::fetch_yaml_head("----\n---x\n---\n"), None);
}

#[test]
fn head_absent_without_two_delimiters() {
    assert_eq!(DefaultReader::fetch_yaml_head("no front matter here\n"), None);
    assert_eq!(DefaultReader::fetch_yaml_head("---\nonly one\n"), None);
    assert_eq!(DefaultReader::fetch_yaml_head(""), None);
}

#[test]
fn date_checks_month_and_day() {
    assert_eq!(Date::new(2021, 3, 5), Some(Date { year: 2021, month: 3, day: 5 }));
    assert_eq!(Date::new(2021, 13, 5), None);
    assert_eq!(Date::new(2021, 3, 0), None);
}

#[test]
fn dates_are_read_in_several_forms() {
    assert_eq!(parse_date("2011-02-04"), Some(Date { year: 2011, month: 2, day: 4 }));
    assert_eq!(parse_date("  2021-03-05 "), Some(Date { year: 2021, month: 3, day: 5 }));
    assert_eq!(parse_date("2020-01-02T10:00:00+08:00"), Some(Date { year: 2020, month: 1, day: 2 }));
    assert_eq!(parse_date("2019-12-31 23:59:59"), Some(Date { year: 2019, month: 12, day: 31 }));
    assert_eq!(parse_date("2018-07-08 01:02:03 +0800"), Some(Date { year: 2018, month: 7, day: 8 }));
    assert_eq!(parse_date("yesterday"), None);
    assert_eq!(parse_date("2021-02-30"), None);
}

#[test]
fn date_text_is_zero_padded() {
    assert_eq!(Date { year: 2021, month: 3, day: 5 }.to_text(), "2021-03-05");
    assert_eq!(Date { year: 5, month: 12, day: 31 }.to_text(), "0005-12-31");
    assert_eq!(Date { year: -5, month: 1, day: 1 }.to_text(), "-005-01-01");
    assert_eq!(Date { year: 12345, month: 1, day: 1 }.to_text(), "12345-01-01");
}

#[test]
fn stems_and_names() {
    assert_eq!(file_stem("posts/hello.md"), "hello");
    assert_eq!(file_stem("a.b.markdown"), "a.b");
    assert_eq!(file_stem("dir/.bashrc"), ".bashrc");
    assert_eq!(file_stem("README"), "README");
    assert_eq!(file_name("../images/foo.png"), "foo.png");
    assert_eq!(join_path("/assets/img/", "x.png"), "/assets/img/x.png");
    assert_eq!(join_path("", "x.png"), "x.png");
}

#[test]
fn image_url_rewrite() {
    assert_eq!(rebase_url("/assets/img", "../images/foo.png"), Some("/assets/img/foo.png".to_string()));
    assert_eq!(rebase_url("/assets/img", "../images/bar.jpg"), Some("/assets/img/bar.jpg".to_string()));
    assert_eq!(rebase_url("/assets/img", "bare.png"), Some("/assets/img/bare.png".to_string()));
    assert_eq!(rebase_url("/assets/img", "dir/"), None);
}

#[test]
fn image_url_rewrite_is_idempotent() {
    let once = rebase_url("/assets/img", "../images/foo.png").unwrap();
    let twice = rebase_url("/assets/img", &once).unwrap();
    assert_eq!(once, twice);
}

#[test]
fn file_name_from_date_and_stem() {
    let t = TagTable::new();
    let r = reader_with("hello", Some(hdr(Some("Hello"), Some(Date { year: 2021, month: 3, day: 5 }), &["bash"])));
    let p = map_default_to_jekyll(&r, "body\n".to_string(), &t).unwrap();
    assert_eq!(p.file_name, "2021-03-05-hello.md");
    assert_eq!(p.header.title, "Hello");
    assert_eq!(p.header.date, "2021-03-05");
    assert_eq!(p.header.layout, "post");
    assert!(p.header.mathjax);
    assert_eq!(p.header.category, vec!["os".to_string()]);
    assert_eq!(p.body, "body\n");
}

#[test]
fn missing_date_is_reported() {
    let t = TagTable::new();
    let r = reader_with("hello", Some(hdr(Some("Hello"), None, &[])));
    assert_eq!(map_default_to_jekyll(&r, String::new(), &t), Err(ConvError::MissingRequiredField(Field::Date)));
}

#[test]
fn missing_title_is_reported() {
    let t = TagTable::new();
    let r = reader_with("hello", Some(hdr(None, Some(Date { year: 2020, month: 1, day: 2 }), &[])));
    assert_eq!(map_default_to_jekyll(&r, String::new(), &t), Err(ConvError::MissingRequiredField(Field::Title)));
}

#[test]
fn missing_front_matter_is_reported() {
    let t = TagTable::new();
    let raw = "just a body\nwith no metadata\n".to_string();
    assert_eq!(DefaultReader::fetch_yaml_head(&raw), None);
    let r = DefaultReader::from_path("notes/plain.md", raw, None).unwrap();
    assert!(r.yaml_hdr.is_none());
    assert_eq!(r.text_start, 0);
    assert_eq!(r.name_stem, "plain");
    assert_eq!(map_default_to_jekyll(&r, String::new(), &t), Err(ConvError::MissingFrontMatter));
}

#[test]
fn conflicting_tags_stop_the_document() {
    let t = TagTable::new();
    let r = reader_with("x", Some(hdr(Some("X"), Some(Date { year: 2020, month: 1, day: 2 }), &["linux", "algorithm"])));
    assert_eq!(map_default_to_jekyll(&r, String::new(), &t), Err(ConvError::AmbiguousCategory));
}

#[test]
fn reader_sets_body_start() {
    let raw = "---\ntitle: a\n---\nbody".to_string();
    let h = hdr(Some("a"), None, &[]);
    let r = DefaultReader::from_path("a.md", raw.clone(), Some(Ok(h.clone()))).unwrap();
    assert_eq!(r.text_start, 16);
    assert_eq!(&r.raw[r.text_start..], "\nbody");
    assert_eq!(r.yaml_hdr, Some(h));
}

#[test]
fn reader_reports_malformed_block() {
    let raw = "---\n: : :\n---\nbody".to_string();
    let r = DefaultReader::from_path("a.md", raw, Some(Err("bad".to_string())));
    assert_eq!(r.unwrap_err(), ConvError::MalformedFrontMatter("bad".to_string()));
    let r = DefaultReader::from_path("a.md", "---\nx\n---\n".to_string(), None);
    assert_eq!(r.unwrap_err(), ConvError::MalformedFrontMatter(String::new()));
}

#[test]
fn batch_with_one_bad_document() {
    let t = TagTable::new();
    let d = Some(Date { year: 2021, month: 3, day: 5 });
    let inputs = vec![
        ("one.md", "---\nx\n---\nfirst", Some(Ok(hdr(Some("One"), d, &["linux"])))),
        ("two.md", "---\n: :\n---\nsecond", Some(Err("malformed".to_string()))),
        ("three.md", "---\nx\n---\nthird", Some(Ok(hdr(Some("Three"), d, &[])))),
    ];
    let mut written = vec![];
    let mut errors = vec![];
    for (path, raw, parsed) in inputs {
        let out = DefaultReader::from_path(path, raw.to_string(), parsed).and_then(|r| {
            let body = r.raw[r.text_start..].to_string();
            map_default_to_jekyll(&r, body, &t)
        });
        match out {
            Ok(p) => written.push(p.file_name),
            Err(e) => errors.push((path, e)),
        }
    }
    assert_eq!(written, vec!["2021-03-05-one.md".to_string(), "2021-03-05-three.md".to_string()]);
    assert_eq!(errors, vec![("two.md", ConvError::MalformedFrontMatter("malformed".to_string()))]);
}

#[test]
fn dialects_and_mappers() {
    assert_eq!(Mat::parse(" Jekyll "), Some(Mat::Jekyll));
    assert_eq!(Mat::parse("d"), Some(Mat::Default));
    assert_eq!(Mat::parse("hugo"), None);
    assert_eq!(select_mapper(Mat::Default, Mat::Jekyll), Ok(JekyllMapper::Default));
    assert_eq!(select_mapper(Mat::Jekyll, Mat::Default), Err(ConvError::UnsupportedDialectPair));
    let t = TagTable::new();
    let r = reader_with("s", Some(hdr(Some("S"), Some(Date { year: 1999, month: 12, day: 31 }), &["ietf"])));
    let p = JekyllMapper::Default.mapping(&r, String::new(), &t).unwrap();
    assert_eq!(p.file_name, "1999-12-31-s.md");
    assert_eq!(p.header.category, vec!["net".to_string()]);
}

#[test]
fn rendered_document_layout() {
    assert_eq!(render_document("title: a\n", "body\n"), "---\ntitle: a\n---\nbody\n");
}

#[test]
fn test_des() {
    println!("{:?}", parse_date("2011-02-04").unwrap());
}
