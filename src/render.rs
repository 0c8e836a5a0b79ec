use vstd::prelude::*;
use crate::markdown::{commonmark_html, joined, render_markdown};
use crate::segment::{seg_state, segment_paragraphs, segmented};
use crate::text::{lemma_lines_have_no_newline, lines_of, split_lines};
use crate::title::{detect_title, has_title, strip_heading_marker, strip_marker, title_of};

verus! {

/// Which rules turn a source text into a page body.
#[derive(Clone, Copy, Debug, PartialEq, Eq, Structural)]
pub enum Dialect {
    /// Verbatim text: blank-line separated paragraphs.
    PlainText,
    /// CommonMark.
    Markdown,
}

pub const PREAMBLE: &'static str = "<!doctype html>\n<html lang=\"en\">\n<head>\n\t<meta charset=\"utf-8\">";

pub const TITLE_OPEN: &'static str = "\n\t<title>";

pub const TITLE_CLOSE: &'static str = "</title>";

pub const HEAD_CLOSE: &'static str =
    "\n\t<meta name=\"viewport\" content=\"width=device-width, initial-scale=1\">\n</head>\n<body>\n";

pub const H1_OPEN: &'static str = "\t<h1>";

pub const H1_CLOSE: &'static str = "</h1>\n\n";

pub const PLAIN_END: &'static str = "</p>\n</body>\n</html>";

pub const MARKDOWN_END: &'static str = "\n</body>\n</html>";

/// The end of the page: plain text always closes a paragraph first.
pub open spec fn closing(dialect: Dialect) -> Seq<char> {
    match dialect {
        Dialect::PlainText => PLAIN_END@,
        Dialect::Markdown => MARKDOWN_END@,
    }
}

/// The `<h1>` block of a titled page.
pub open spec fn heading(title: Seq<char>) -> Seq<char> {
    H1_OPEN@ + title + H1_CLOSE@
}

/// The page head up to and including the opening `<body>` line.
pub open spec fn head(title: Seq<char>) -> Seq<char> {
    PREAMBLE@ + TITLE_OPEN@ + title + TITLE_CLOSE@ + HEAD_CLOSE@
}

/// A whole page: head with `title`, the optional heading, the body and the end.
pub open spec fn page(title: Seq<char>, with_heading: bool, body: Seq<char>, dialect: Dialect) -> Seq<char> {
    head(title) + (if with_heading {
        heading(title)
    } else {
        Seq::<char>::empty()
    }) + body + closing(dialect)
}

/// The body made of the given lines in a dialect.
pub open spec fn body_of(lines: Seq<Seq<char>>, dialect: Dialect) -> Seq<char> {
    match dialect {
        Dialect::PlainText => segmented(lines),
        Dialect::Markdown => commonmark_html(joined(lines)),
    }
}

/// The page for a document: titled by its title block, whose lines are then
/// left out of the body, or else by its name.
pub open spec fn rendered(name: Seq<char>, dialect: Dialect, lines: Seq<Seq<char>>) -> Seq<char> {
    match title_of(lines) {
        Some(t) => page(t, true, body_of(lines.skip(3), dialect), dialect),
        None => page(name, false, body_of(lines, dialect), dialect),
    }
}

/// A document with a title block has that title, without a leading `"# "`,
/// both in its `<title>` element and in its `<h1>` heading.
pub proof fn lemma_title_in_head_and_heading(name: Seq<char>, dialect: Dialect, text: Seq<char>)
    requires
        has_title(lines_of(text)),
    ensures
        ({
            let ls = lines_of(text);
            let t = strip_marker(ls[0]);
            &&& rendered(name, dialect, ls) == PREAMBLE@ + TITLE_OPEN@ + t + TITLE_CLOSE@
                + HEAD_CLOSE@ + H1_OPEN@ + t + H1_CLOSE@ + body_of(ls.skip(3), dialect) + closing(
                dialect,
            )
            &&& ls[0].len() >= 2 && ls[0][0] == '#' && ls[0][1] == ' ' ==> t == ls[0].skip(2)
        }),
{
    let ls = lines_of(text);
    let t = strip_marker(ls[0]);
    assert(rendered(name, dialect, ls) =~= PREAMBLE@ + TITLE_OPEN@ + t + TITLE_CLOSE@ + HEAD_CLOSE@
        + H1_OPEN@ + t + H1_CLOSE@ + body_of(ls.skip(3), dialect) + closing(dialect));
}

/// A document without a title block is titled by its name and has no
/// heading before its body.
pub proof fn lemma_untitled_page(name: Seq<char>, dialect: Dialect, text: Seq<char>)
    requires
        !has_title(lines_of(text)),
    ensures
        rendered(name, dialect, lines_of(text)) == PREAMBLE@ + TITLE_OPEN@ + name + TITLE_CLOSE@
            + HEAD_CLOSE@ + body_of(lines_of(text), dialect) + closing(dialect),
{
    assert(rendered(name, dialect, lines_of(text)) =~= PREAMBLE@ + TITLE_OPEN@ + name
        + TITLE_CLOSE@ + HEAD_CLOSE@ + body_of(lines_of(text), dialect) + closing(dialect));
}

/// A plain-text document of one non-blank line becomes one paragraph that
/// holds that line, with no line break inside it, closed by the page end.
pub proof fn lemma_single_line_paragraph(name: Seq<char>, text: Seq<char>)
    requires
        lines_of(text).len() == 1,
        lines_of(text)[0].len() > 0,
    ensures
        ({
            let l = lines_of(text)[0];
            &&& rendered(name, Dialect::PlainText, lines_of(text)) == head(name) + "\t<p>"@ + l
                + PLAIN_END@
            &&& forall|j: int| 0 <= j < l.len() ==> l[j] != '\n'
        }),
{
    let ls = lines_of(text);
    lemma_lines_have_no_newline(text);
    assert(ls.drop_last() =~= Seq::<Seq<char>>::empty());
    reveal_with_fuel(seg_state, 2);
    assert(segmented(ls) =~= "\t<p>"@ + ls[0]);
    assert(rendered(name, Dialect::PlainText, ls) =~= head(name) + "\t<p>"@ + ls[0] + PLAIN_END@);
    assert forall|j: int| 0 <= j < ls[0].len() implies ls[0][j] != '\n' by {
        assert(ls[0][j] == lines_of(text)[0][j]);
    }
}

/// Puts a body into the fixed page shell.
pub fn assemble_page(title: &str, with_heading: bool, body: &str, dialect: Dialect) -> (r: String)
    ensures
        r@ == page(title@, with_heading, body@, dialect),
{
    let mut out = String::from_str(PREAMBLE);
    out.append(TITLE_OPEN);
    out.append(title);
    out.append(TITLE_CLOSE);
    out.append(HEAD_CLOSE);
    if with_heading {
        out.append(H1_OPEN);
        out.append(title);
        out.append(H1_CLOSE);
    }
    out.append(body);
    match dialect {
        Dialect::PlainText => out.append(PLAIN_END),
        Dialect::Markdown => out.append(MARKDOWN_END),
    }
    proof {
        assert(out@ =~= page(title@, with_heading, body@, dialect));
    }
    out
}

/// The body for the lines from index `start` on.
pub fn render_body(lines: &Vec<String>, start: usize, dialect: Dialect) -> (r: String)
    requires
        start <= lines.len(),
    ensures
        r@ == body_of(lines@.map_values(|l: String| l@).skip(start as int), dialect),
{
    match dialect {
        Dialect::PlainText => segment_paragraphs(lines, start),
        Dialect::Markdown => render_markdown(lines, start),
    }
}

/// The page of a document that opens with a title block.
pub fn process_file_with_title(lines: &Vec<String>, dialect: Dialect) -> (r: String)
    requires
        has_title(lines@.map_values(|l: String| l@)),
    ensures
        ({
            let ls = lines@.map_values(|l: String| l@);
            r@ == page(strip_marker(ls[0]), true, body_of(ls.skip(3), dialect), dialect)
        }),
{
    let title = strip_heading_marker(lines[0].as_str());
    let body = render_body(lines, 3, dialect);
    assemble_page(title.as_str(), true, body.as_str(), dialect)
}

/// The page of a document without a title block, titled by its name.
pub fn process_file_with_no_title(name: &str, lines: &Vec<String>, dialect: Dialect) -> (r: String)
    ensures
        r@ == page(name@, false, body_of(lines@.map_values(|l: String| l@), dialect), dialect),
{
    let body = render_body(lines, 0, dialect);
    proof {
        assert(lines@.map_values(|l: String| l@).skip(0) =~= lines@.map_values(|l: String| l@));
    }
    assemble_page(name, false, body.as_str(), dialect)
}

/// Converts the text of the document called `name` into an HTML page.
pub fn process(text: &str, name: &str, dialect: Dialect) -> (r: String)
    ensures
        r@ == rendered(name@, dialect, lines_of(text@)),
{
    let lines = split_lines(text);
    match detect_title(&lines) {
        Some(_) => process_file_with_title(&lines, dialect),
        None => process_file_with_no_title(name, &lines, dialect),
    }
}

} // verus!
