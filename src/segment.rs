use vstd::prelude::*;

verus! {

/// One step of the paragraph segmenter: the output so far and whether a
/// paragraph is open, then the next line.
pub open spec fn seg_step(out: Seq<char>, open: bool, line: Seq<char>) -> (Seq<char>, bool) {
    if line.len() > 0 {
        if open {
            (out + "\n\t"@ + line, true)
        } else {
            (out + "\t<p>"@ + line, true)
        }
    } else {
        if open {
            (out + "</p>\n\n"@, false)
        } else {
            (out + "\n\n"@, false)
        }
    }
}

/// The segmenter's output and state after reading all of `lines`, starting
/// with no paragraph open.
pub open spec fn seg_state(lines: Seq<Seq<char>>) -> (Seq<char>, bool)
    decreases lines.len(),
{
    if lines.len() == 0 {
        (Seq::<char>::empty(), false)
    } else {
        let prev = seg_state(lines.drop_last());
        seg_step(prev.0, prev.1, lines.last())
    }
}

/// The text that the segmenter writes for `lines`.
pub open spec fn segmented(lines: Seq<Seq<char>>) -> Seq<char> {
    seg_state(lines).0
}

/// Blank lines never open a paragraph: after one the segmenter has no
/// paragraph open, and a second one in a row adds just two line breaks.
pub proof fn lemma_blank_lines_only_separate(lines: Seq<Seq<char>>, i: int)
    requires
        0 <= i,
        i + 1 < lines.len(),
        lines[i].len() == 0,
        lines[i + 1].len() == 0,
    ensures
        !seg_state(lines.take(i + 1)).1,
        seg_state(lines.take(i + 2)) == (segmented(lines.take(i + 1)) + "\n\n"@, false),
{
    assert(lines.take(i + 1).drop_last() =~= lines.take(i));
    assert(lines.take(i + 2).drop_last() =~= lines.take(i + 1));
}

/// Groups the lines from index `start` on into paragraphs: a non-empty line
/// opens a paragraph or continues the open one; an empty line closes it.
/// The last paragraph is left open.
pub fn segment_paragraphs(lines: &Vec<String>, start: usize) -> (r: String)
    requires
        start <= lines.len(),
    ensures
        r@ == segmented(lines@.map_values(|l: String| l@).skip(start as int)),
{
    let ghost ls = lines@.map_values(|l: String| l@);
    let mut out = String::new();
    let mut open = false;
    let mut i = start;
    while i < lines.len()
        invariant
            start <= i <= lines.len(),
            ls == lines@.map_values(|l: String| l@),
            (out@, open) == seg_state(ls.subrange(start as int, i as int)),
        decreases lines.len() - i,
    {
        let line = lines[i].as_str();
        proof {
            assert(ls.subrange(start as int, i + 1).drop_last() == ls.subrange(
                start as int,
                i as int,
            ));
            assert(line@ == ls[i as int]);
        }
        if !line.is_empty() {
            if open {
                out.append("\n\t");
            } else {
                out.append("\t<p>");
            }
            out.append(line);
            open = true;
        } else {
            if open {
                out.append("</p>\n\n");
            } else {
                out.append("\n\n");
            }
            open = false;
        }
        i = i + 1;
    }
    proof {
        assert(ls.subrange(start as int, i as int) == ls.skip(start as int));
    }
    out
}

} // verus!
