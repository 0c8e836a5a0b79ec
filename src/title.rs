use vstd::prelude::*;

verus! {

/// `l` without a leading `"# "` heading marker, if it has one.
pub open spec fn strip_marker(l: Seq<char>) -> Seq<char> {
    if l.len() >= 2 && l[0] == '#' && l[1] == ' ' {
        l.skip(2)
    } else {
        l
    }
}

/// Whether the first lines form a title block: a non-empty first line
/// followed by two empty lines.
pub open spec fn has_title(lines: Seq<Seq<char>>) -> bool {
    &&& lines.len() >= 3
    &&& lines[0].len() > 0
    &&& lines[1].len() == 0
    &&& lines[2].len() == 0
}

/// The title of a document, if its first lines form a title block.
pub open spec fn title_of(lines: Seq<Seq<char>>) -> Option<Seq<char>> {
    if has_title(lines) {
        Some(strip_marker(lines[0]))
    } else {
        None
    }
}

/// Removes a leading `"# "` from a line.
pub fn strip_heading_marker(line: &str) -> (r: String)
    ensures
        r@ == strip_marker(line@),
{
    let n = line.unicode_len();
    if n >= 2 && line.get_char(0) == '#' && line.get_char(1) == ' ' {
        line.substring_char(2, n).to_string()
    } else {
        line.to_string()
    }
}

/// Detects the title block at the start of a document and returns the title.
pub fn detect_title(lines: &Vec<String>) -> (r: Option<String>)
    ensures
        r matches Some(t) ==> title_of(lines@.map_values(|l: String| l@)) == Some(t@),
        r is None ==> title_of(lines@.map_values(|l: String| l@)) is None,
{
    if lines.len() >= 3 && !lines[0].as_str().is_empty() && lines[1].as_str().is_empty()
        && lines[2].as_str().is_empty() {
        Some(strip_heading_marker(lines[0].as_str()))
    } else {
        None
    }
}

} // verus!
