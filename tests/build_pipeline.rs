use static_build::classify::{classify, classify_for_build, eq_ignore_ascii_case, Action};
use static_build::document::{chars_of, has_prefix, infer_title, wrap_document};
use static_build::paths::{extension_of, is_extension, join, with_html_extension};
use static_build::pipeline::{is_fatal, parent_dir_step, plan_entry, DirStep, PipelineError, Walker};
use static_build::render::{
    finish_custom_render, finish_fragment, render_markdown_page, RenderConfig,
};

const HEAD: &str = "<!DOCTYPE html>\n<html>\n<head>\n  <meta charset=\"UTF-8\">\n  <meta name=\"viewport\" content=\"width=device-width, initial-scale=1\">\n";

#[test]
fn classify_fixed_table() {
    assert_eq!(classify(Some("html")), Action::Copy);
    assert_eq!(classify(Some("png")), Action::Copy);
    assert_eq!(classify(Some("jpg")), Action::Copy);
    assert_eq!(classify(Some("md")), Action::RenderMarkdown);
    assert_eq!(classify(Some("wd")), Action::RenderCustom);
    assert_eq!(classify(Some("txt")), Action::Skip);
    assert_eq!(classify(Some("")), Action::Skip);
    assert_eq!(classify(None), Action::Skip);
}

#[test]
fn classify_ignores_ascii_case() {
    assert_eq!(classify(Some("PNG")), Action::Copy);
    assert_eq!(classify(Some("Md")), Action::RenderMarkdown);
    assert_eq!(classify(Some("WD")), Action::RenderCustom);
    assert!(eq_ignore_ascii_case("HtMl", "html"));
    assert!(!eq_ignore_ascii_case("htm", "html"));
    assert!(!eq_ignore_ascii_case("[", "{"));
}

#[test]
fn classify_is_the_same_each_time() {
    for e in ["html", "png", "jpg", "md", "wd", "txt", "JPG", ""] {
        assert_eq!(classify(Some(e)), classify(Some(e)));
        assert_eq!(classify_for_build(Some(e)), Ok(classify(Some(e))));
    }
}

#[test]
fn build_mode_rejects_missing_extension() {
    assert_eq!(classify_for_build(None), Err(PipelineError::MissingExtension));
}

#[test]
fn extension_of_paths() {
    assert_eq!(extension_of("a/b.md"), Some("md"));
    assert_eq!(extension_of("a.tar.gz"), Some("gz"));
    assert_eq!(extension_of("README"), None);
    assert_eq!(extension_of("dir.d/README"), None);
    assert_eq!(extension_of(".hidden"), None);
    assert_eq!(extension_of("note."), Some(""));
    assert_eq!(extension_of(""), None);
}

#[test]
fn is_extension_lowercases_the_extension() {
    assert!(is_extension("x/logo.png", "png"));
    assert!(is_extension("x/logo.PNG", "png"));
    assert!(is_extension("a/B.MD", "md"));
    assert!(!is_extension("a/b.md", "MD"));
    assert!(!is_extension("a/b.mdx", "md"));
    assert!(!is_extension("x/logo", "png"));
}

#[test]
fn join_and_html_extension() {
    assert_eq!(join("out", "a/b.md"), "out/a/b.md");
    assert_eq!(join("out/", "a.md"), "out/a.md");
    assert_eq!(join("", "a.md"), "a.md");
    assert_eq!(with_html_extension("a/b.md"), "a/b.html");
    assert_eq!(with_html_extension("a/b.x.wd"), "a/b.x.html");
    assert_eq!(with_html_extension("a/b"), "a/b.html");
}

#[test]
fn title_from_leading_heading() {
    assert_eq!(infer_title("<h1>Hello</h1><p>x</p>"), Ok("Hello".to_string()));
    let d = wrap_document("<h1>Hello</h1><p>x</p>").unwrap();
    assert!(d.contains("  <title>Hello</title>\n"));
}

#[test]
fn title_defaults_without_heading() {
    assert_eq!(infer_title("<p>no heading</p>"), Ok("default title".to_string()));
    let d = wrap_document("<p>no heading</p>").unwrap();
    assert!(d.contains("<title>default title</title>"));
}

#[test]
fn empty_title_has_no_element() {
    assert_eq!(infer_title("<h1></h1><p>x</p>"), Ok(String::new()));
    let d = wrap_document("<h1></h1><p>x</p>").unwrap();
    assert!(!d.contains("<title>"));
    let expected = format!("{}</head>\n<body>\n<h1></h1><p>x</p>\n</body>\n</html>", HEAD);
    assert_eq!(d, expected);
}

#[test]
fn title_stops_at_first_close() {
    assert_eq!(infer_title("<h1>A</h1><h1>B</h1>"), Ok("A".to_string()));
}

#[test]
fn unclosed_heading_is_malformed() {
    assert_eq!(infer_title("<h1>Hello"), Err(PipelineError::MalformedFragment));
    assert_eq!(wrap_document("<h1>Hello"), Err(PipelineError::MalformedFragment));
    assert!(!is_fatal(PipelineError::MalformedFragment));
}

#[test]
fn full_shell_layout() {
    let d = wrap_document("<h1>Hi</h1>").unwrap();
    let expected = format!(
        "{}  <title>Hi</title>\n</head>\n<body>\n<h1>Hi</h1>\n</body>\n</html>",
        HEAD
    );
    assert_eq!(d, expected);
}

#[test]
fn complete_documents_pass_through() {
    let f = "<html><body>x</body></html>";
    assert_eq!(wrap_document(f), Ok(f.to_string()));
    let g = "<!DOCTYPE><html></html>";
    assert_eq!(wrap_document(g), Ok(g.to_string()));
    let h = "<html><h1>unclosed";
    assert_eq!(wrap_document(h), Ok(h.to_string()));
}

#[test]
fn prefix_checks() {
    let v = chars_of("<h1>x");
    assert_eq!(v, vec!['<', 'h', '1', '>', 'x']);
    assert!(has_prefix(&v, "<h1>"));
    assert!(!has_prefix(&v, "<html>"));
}

#[test]
fn empty_fragment_is_not_written() {
    assert_eq!(finish_fragment(""), Ok(None));
    assert_eq!(finish_custom_render(Ok(String::new())), Ok(None));
}

#[test]
fn markdown_page_from_nested_file() {
    let plan = plan_entry("out", "a/b.md").unwrap();
    assert_eq!(plan.action, Action::RenderMarkdown);
    assert_eq!(plan.destination, "out/a/b.html");
    let page = render_markdown_page("# Title\ncontent", RenderConfig::standard())
        .unwrap()
        .unwrap();
    assert!(page.starts_with(HEAD));
    assert!(page.contains("<title>Title</title>"));
    assert!(page.contains("<body>\n<h1>Title</h1>\n<p>content</p>\n"));
    assert!(page.ends_with("</body>\n</html>"));
    assert_eq!(parent_dir_step(false, false), Ok(DirStep::CreateAll));
}

#[test]
fn markdown_extensions_follow_config() {
    let on = RenderConfig::standard();
    let off = RenderConfig { strikethrough: false, footnotes: false };
    let a = render_markdown_page("~~gone~~", on).unwrap().unwrap();
    let b = render_markdown_page("~~gone~~", off).unwrap().unwrap();
    assert!(a.contains("<del>gone</del>"));
    assert!(!b.contains("<del>"));
}

#[test]
fn empty_markdown_gives_no_page() {
    assert_eq!(render_markdown_page("", RenderConfig::standard()), Ok(None));
}

#[test]
fn png_is_copied_under_its_name() {
    let plan = plan_entry("out", "logo.png").unwrap();
    assert_eq!(plan.action, Action::Copy);
    assert_eq!(plan.destination, "out/logo.png");
    assert_eq!(extension_of(plan.destination.as_str()), Some("png"));
}

#[test]
fn file_without_extension_aborts_build() {
    let r = plan_entry("out", "notes/README");
    assert_eq!(r.unwrap_err(), PipelineError::MissingExtension);
    assert!(is_fatal(PipelineError::MissingExtension));
}

#[test]
fn custom_render_failure_is_per_file() {
    let r = finish_custom_render(Err("unknown token".to_string()));
    assert_eq!(r, Err(PipelineError::RenderError));
    assert!(!is_fatal(PipelineError::RenderError));
    let ok = finish_custom_render(Ok("<h2>x</h2>".to_string())).unwrap().unwrap();
    assert!(ok.contains("<title>default title</title>"));
}

#[test]
fn unknown_extension_is_skipped() {
    let plan = plan_entry("out", "a/notes.txt").unwrap();
    assert_eq!(plan.action, Action::Skip);
    assert_eq!(plan.destination, "");
}

#[test]
fn existing_directory_is_reused() {
    assert_eq!(parent_dir_step(true, true), Ok(DirStep::UseExisting));
    assert_eq!(parent_dir_step(true, false), Err(PipelineError::DestinationConflict));
    assert!(is_fatal(PipelineError::DestinationConflict));
    assert!(is_fatal(PipelineError::IoFailure));
}

#[test]
fn second_run_gives_same_output() {
    let first = render_markdown_page("# T\nbody", RenderConfig::standard());
    let second = render_markdown_page("# T\nbody", RenderConfig::standard());
    assert_eq!(first, second);
    let p1 = plan_entry("out", "x/y.md").unwrap();
    let p2 = plan_entry("out", "x/y.md").unwrap();
    assert_eq!(p1.destination, p2.destination);
    assert_eq!(parent_dir_step(true, true), Ok(DirStep::UseExisting));
}

#[test]
fn walker_visits_queued_paths() {
    let mut w = Walker::new();
    assert!(!w.is_done());
    assert_eq!(w.next_path(), Some(String::new()));
    assert!(w.is_done());
    w.expand("", &vec!["a".to_string(), "logo.png".to_string()]);
    assert_eq!(w.next_path(), Some("logo.png".to_string()));
    assert_eq!(w.next_path(), Some("a".to_string()));
    w.expand("a", &vec!["b.md".to_string()]);
    assert_eq!(w.next_path(), Some("a/b.md".to_string()));
    assert_eq!(w.next_path(), None);
}
