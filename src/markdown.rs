use vstd::prelude::*;
use crate::text::push_char;

verus! {

/// What comrak's CommonMark renderer, with its default options, makes of a
/// markdown text.
pub uninterp spec fn commonmark_html(md: Seq<char>) -> Seq<char>;

/// Relies on `comrak::markdown_to_html` with `comrak::Options::default()`:
/// the HTML depends on the markdown text alone.
#[verifier::external_body]
fn markdown_to_html(md: &str) -> (r: String)
    ensures
        r@ == commonmark_html(md@),
{
    comrak::markdown_to_html(md, &comrak::Options::default())
}

/// The lines joined with `'\n'` between each two of them.
pub open spec fn joined(lines: Seq<Seq<char>>) -> Seq<char>
    decreases lines.len(),
{
    if lines.len() == 0 {
        Seq::<char>::empty()
    } else if lines.len() == 1 {
        lines[0]
    } else {
        joined(lines.drop_last()).push('\n') + lines.last()
    }
}

/// Joins the lines from index `start` on with line breaks.
pub fn join_lines(lines: &Vec<String>, start: usize) -> (r: String)
    requires
        start <= lines.len(),
    ensures
        r@ == joined(lines@.map_values(|l: String| l@).skip(start as int)),
{
    let ghost ls = lines@.map_values(|l: String| l@);
    let mut out = String::new();
    let mut i = start;
    while i < lines.len()
        invariant
            start <= i <= lines.len(),
            ls == lines@.map_values(|l: String| l@),
            out@ == joined(ls.subrange(start as int, i as int)),
        decreases lines.len() - i,
    {
        proof {
            assert(ls.subrange(start as int, i + 1).drop_last() == ls.subrange(
                start as int,
                i as int,
            ));
        }
        if i > start {
            push_char(&mut out, '\n');
        }
        out.append(lines[i].as_str());
        i = i + 1;
    }
    proof {
        assert(ls.subrange(start as int, i as int) == ls.skip(start as int));
    }
    out
}

/// Renders the lines from index `start` on as CommonMark.
pub fn render_markdown(lines: &Vec<String>, start: usize) -> (r: String)
    requires
        start <= lines.len(),
    ensures
        r@ == commonmark_html(joined(lines@.map_values(|l: String| l@).skip(start as int))),
{
    let md = join_lines(lines, start);
    markdown_to_html(md.as_str())
}

} // verus!
