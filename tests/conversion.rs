use static_pages::batch::{convert_batch, BatchReport, ConvertError, PageFile, SourceFile};
use static_pages::markdown::{join_lines, render_markdown};
use static_pages::naming::{dialect_of, output_name};
use static_pages::render::{
    assemble_page, process, process_file_with_no_title, process_file_with_title, Dialect,
};
use static_pages::segment::segment_paragraphs;
use static_pages::text::split_lines;
use static_pages::title::{detect_title, strip_heading_marker};

const HEAD_START: &str = "<!doctype html>\n<html lang=\"en\">\n<head>\n\t<meta charset=\"utf-8\">\n\t<title>";
const HEAD_END: &str = "</title>\n\t<meta name=\"viewport\" content=\"width=device-width, initial-scale=1\">\n</head>\n<body>\n";

fn head(title: &str) -> String {
    format!("{}{}{}", HEAD_START, title, HEAD_END)
}

fn owned(lines: &[&str]) -> Vec<String> {
    lines.iter().map(|l| l.to_string()).collect()
}

#[test]
fn split_lines_follows_line_endings() {
    assert_eq!(split_lines("a\r\nb\n"), owned(&["a", "b"]));
    assert_eq!(split_lines(""), Vec::<String>::new());
    assert_eq!(split_lines("a\n\n"), owned(&["a", ""]));
    assert_eq!(split_lines("x\r"), owned(&["x\r"]));
    assert_eq!(split_lines("\n"), owned(&[""]));
    assert_eq!(split_lines("é\nü"), owned(&["é", "ü"]));
}

#[test]
fn strip_heading_marker_removes_one_marker() {
    assert_eq!(strip_heading_marker("# Heading"), "Heading");
    assert_eq!(strip_heading_marker("# # Twice"), "# Twice");
    assert_eq!(strip_heading_marker("Plain # title"), "Plain # title");
    assert_eq!(strip_heading_marker("#"), "#");
}

#[test]
fn detect_title_needs_two_empty_lines() {
    assert_eq!(detect_title(&owned(&["T", "", "", "x"])), Some("T".to_string()));
    assert_eq!(detect_title(&owned(&["# T", "", ""])), Some("T".to_string()));
    assert_eq!(detect_title(&owned(&["T", "", "x"])), None);
    assert_eq!(detect_title(&owned(&["T", "x", ""])), None);
    assert_eq!(detect_title(&owned(&["", "", ""])), None);
    assert_eq!(detect_title(&owned(&["T", ""])), None);
    assert_eq!(detect_title(&owned(&["T"])), None);
    assert_eq!(detect_title(&Vec::new()), None);
}

#[test]
fn segment_joins_and_separates_paragraphs() {
    let lines = owned(&["a", "b", "", "c"]);
    assert_eq!(segment_paragraphs(&lines, 0), "\t<p>a\n\tb</p>\n\n\t<p>c");
    assert_eq!(segment_paragraphs(&lines, 3), "\t<p>c");
    assert_eq!(segment_paragraphs(&lines, 4), "");
}

#[test]
fn consecutive_blank_lines_give_no_empty_paragraph() {
    let lines = owned(&["a", "", "", "", "b"]);
    assert_eq!(segment_paragraphs(&lines, 0), "\t<p>a</p>\n\n\n\n\n\n\t<p>b");
    let leading = owned(&["", "", "x"]);
    assert_eq!(segment_paragraphs(&leading, 0), "\n\n\n\n\t<p>x");
}

#[test]
fn join_lines_puts_breaks_between() {
    let lines = owned(&["t", "", "", "one", "two"]);
    assert_eq!(join_lines(&lines, 3), "one\ntwo");
    assert_eq!(join_lines(&lines, 5), "");
    assert_eq!(join_lines(&lines, 0), "t\n\n\none\ntwo");
}

#[test]
fn markdown_renderer_produces_html() {
    let lines = owned(&["Some *text*."]);
    assert_eq!(render_markdown(&lines, 0), "<p>Some <em>text</em>.</p>\n");
}

#[test]
fn assemble_page_builds_shell() {
    let plain = assemble_page("T", true, "BODY", Dialect::PlainText);
    assert_eq!(plain, format!("{}\t<h1>T</h1>\n\nBODY</p>\n</body>\n</html>", head("T")));
    let md = assemble_page("n.md", false, "B", Dialect::Markdown);
    assert_eq!(md, format!("{}B\n</body>\n</html>", head("n.md")));
}

#[test]
fn untitled_plain_document() {
    let html = process("Hello\n\nWorld\n", "hello.txt", Dialect::PlainText);
    assert_eq!(
        html,
        format!("{}\t<p>Hello</p>\n\n\t<p>World</p>\n</body>\n</html>", head("hello.txt"))
    );
    assert!(!html.contains("<h1>"));
}

#[test]
fn titled_plain_document() {
    let html = process("My Title\n\n\nBody line one\nBody line two\n", "doc.txt", Dialect::PlainText);
    assert_eq!(
        html,
        format!(
            "{}\t<h1>My Title</h1>\n\n\t<p>Body line one\n\tBody line two</p>\n</body>\n</html>",
            head("My Title")
        )
    );
}

#[test]
fn titled_markdown_document() {
    let html = process("# Heading\n\n\nSome *text*.\n", "doc.md", Dialect::Markdown);
    assert_eq!(
        html,
        format!(
            "{}\t<h1>Heading</h1>\n\n<p>Some <em>text</em>.</p>\n\n</body>\n</html>",
            head("Heading")
        )
    );
}

#[test]
fn untitled_markdown_document() {
    let html = process("line\nmore", "n.md", Dialect::Markdown);
    assert_eq!(html, format!("{}<p>line\nmore</p>\n\n</body>\n</html>", head("n.md")));
}

#[test]
fn single_line_round_trip() {
    let html = process("only line", "one.txt", Dialect::PlainText);
    assert_eq!(html, format!("{}\t<p>only line</p>\n</body>\n</html>", head("one.txt")));
}

#[test]
fn marked_title_is_stripped_in_plain_text() {
    let lines = owned(&["# Top", "", "", "x"]);
    let html = process_file_with_title(&lines, Dialect::PlainText);
    assert_eq!(html, format!("{}\t<h1>Top</h1>\n\n\t<p>x</p>\n</body>\n</html>", head("Top")));
}

#[test]
fn no_title_uses_name() {
    let lines = owned(&["", "x"]);
    let html = process_file_with_no_title("a/b.txt", &lines, Dialect::PlainText);
    assert_eq!(html, format!("{}\n\n\t<p>x</p>\n</body>\n</html>", head("a/b.txt")));
}

#[test]
fn output_names_replace_extension() {
    assert_eq!(output_name("foo/bar.md"), Some("foo/bar.html".to_string()));
    assert_eq!(output_name("bar.txt"), Some("bar.html".to_string()));
    assert_eq!(output_name("/sub/page.txt"), Some("sub/page.html".to_string()));
    assert_eq!(output_name("notes.txt.md"), Some("notes.txt.html".to_string()));
    assert_eq!(output_name("image.png"), None);
    assert_eq!(output_name("md"), None);
    assert_eq!(output_name("//twice.txt"), Some("/twice.html".to_string()));
}

#[test]
fn dialect_follows_extension() {
    assert_eq!(dialect_of("a.txt"), Some(Dialect::PlainText));
    assert_eq!(dialect_of("dir/a.md"), Some(Dialect::Markdown));
    assert_eq!(dialect_of("a.html"), None);
    assert_eq!(dialect_of(""), None);
}

#[test]
fn batch_reports_unreadable_file_and_converts_the_other() {
    let sources = vec![
        SourceFile { identifier: "broken.txt".to_string(), content: None },
        SourceFile { identifier: "ok.txt".to_string(), content: Some("Hi\n".to_string()) },
        SourceFile { identifier: "skip.png".to_string(), content: Some("x".to_string()) },
    ];
    let report = convert_batch(&sources);
    assert_eq!(report.failures.len(), 1);
    assert_eq!(report.failures[0].identifier, "broken.txt");
    assert_eq!(report.failures[0].error, ConvertError::ReadFailure);
    assert_eq!(report.pages.len(), 1);
    assert_eq!(report.pages[0].path, "ok.html");
    assert_eq!(report.pages[0].html, process("Hi\n", "ok.txt", Dialect::PlainText));
    assert!(!report.is_fatal());
}

#[test]
fn batch_without_pages_is_fatal() {
    let sources = vec![SourceFile { identifier: "gone.md".to_string(), content: None }];
    assert!(convert_batch(&sources).is_fatal());
    assert!(convert_batch(&Vec::new()).is_fatal());
}

#[test]
fn unwritten_page_becomes_failure() {
    let mut report = BatchReport {
        pages: vec![PageFile { path: "a.html".to_string(), html: "x".to_string() }],
        failures: Vec::new(),
    };
    report.mark_unwritten(0);
    assert!(report.pages.is_empty());
    assert_eq!(report.failures[0].identifier, "a.html");
    assert_eq!(report.failures[0].error, ConvertError::WriteFailure);
    assert!(report.is_fatal());
}
