use vstd::prelude::*;
use vstd::std_specs::iter::IteratorSpec;

verus! {

broadcast use vstd::string::group_string_axioms;

/// The pieces of `s` between its `'\n'` characters, in order; there is always
/// one more piece than there are newlines.
pub open spec fn pieces(s: Seq<char>) -> Seq<Seq<char>>
    decreases s.len(),
{
    if s.len() == 0 {
        seq![Seq::<char>::empty()]
    } else {
        let p = pieces(s.drop_last());
        if s.last() == '\n' {
            p.push(Seq::<char>::empty())
        } else {
            p.drop_last().push(p.last().push(s.last()))
        }
    }
}

pub proof fn lemma_pieces_nonempty(s: Seq<char>)
    ensures
        pieces(s).len() >= 1,
    decreases s.len(),
{
    if s.len() > 0 {
        lemma_pieces_nonempty(s.drop_last());
    }
}

proof fn lemma_pieces_have_no_newline(s: Seq<char>)
    ensures
        forall|i: int, j: int|
            0 <= i < pieces(s).len() && 0 <= j < pieces(s)[i].len() ==> #[trigger] pieces(s)[i][j]
                != '\n',
    decreases s.len(),
{
    if s.len() > 0 {
        lemma_pieces_have_no_newline(s.drop_last());
        lemma_pieces_nonempty(s.drop_last());
        let p = pieces(s.drop_last());
        if s.last() != '\n' {
            assert forall|i: int, j: int|
                0 <= i < pieces(s).len() && 0 <= j < pieces(s)[i].len() implies #[trigger] pieces(
                s,
            )[i][j] != '\n' by {
                if i == p.len() - 1 && j == p.last().len() {
                } else if i == p.len() - 1 {
                    assert(pieces(s)[i][j] == p[i][j]);
                } else {
                    assert(pieces(s)[i] == p[i]);
                }
            }
        } else {
            assert forall|i: int, j: int|
                0 <= i < pieces(s).len() && 0 <= j < pieces(s)[i].len() implies #[trigger] pieces(
                s,
            )[i][j] != '\n' by {
                if i < p.len() {
                    assert(pieces(s)[i] == p[i]);
                }
            }
        }
    }
}

/// No line of a text holds a line break.
pub proof fn lemma_lines_have_no_newline(s: Seq<char>)
    ensures
        forall|i: int, j: int|
            0 <= i < lines_of(s).len() && 0 <= j < lines_of(s)[i].len() ==> #[trigger] lines_of(
                s,
            )[i][j] != '\n',
{
    lemma_pieces_have_no_newline(s);
    lemma_pieces_nonempty(s);
    assert forall|i: int, j: int|
        0 <= i < lines_of(s).len() && 0 <= j < lines_of(s)[i].len() implies #[trigger] lines_of(
        s,
    )[i][j] != '\n' by {
        let p = pieces(s);
        if i < p.len() - 1 && p[i].len() > 0 && p[i].last() == '\r' {
            assert(lines_of(s)[i][j] == p[i][j]);
        } else {
            assert(lines_of(s)[i] == p[i]);
        }
    }
}

/// A line that was ended by `"\r\n"` loses its carriage return.
pub open spec fn strip_cr(l: Seq<char>) -> Seq<char> {
    if l.len() > 0 && l.last() == '\r' {
        l.drop_last()
    } else {
        l
    }
}

/// The lines of a text: split at each `'\n'`, a `'\r'` right before a `'\n'`
/// dropped, and no empty last line after a final newline.
pub open spec fn lines_of(s: Seq<char>) -> Seq<Seq<char>> {
    let p = pieces(s);
    let n = if p.last().len() == 0 {
        (p.len() - 1) as int
    } else {
        p.len() as int
    };
    Seq::new(n as nat, |i: int| if i < p.len() - 1 { strip_cr(p[i]) } else { p[i] })
}

/// Relies on `String::push`: appends one character.
#[verifier::external_body]
pub(crate) fn push_char(s: &mut String, c: char)
    ensures
        final(s)@ == old(s)@.push(c),
{
    s.push(c);
}

/// Splits a text into its lines.
pub fn split_lines(text: &str) -> (r: Vec<String>)
    ensures
        r@.map_values(|l: String| l@) == lines_of(text@),
{
    let mut done: Vec<String> = Vec::new();
    let mut cur = String::new();
    let mut pending_cr = false;
    let mut it = text.chars();
    let ghost mut k: int = 0;
    loop
        invariant
            0 <= k <= text@.len(),
            it.remaining() == text@.skip(k),
            pieces(text@.take(k)).len() == done@.len() + 1,
            forall|i: int|
                0 <= i < done@.len() ==> #[trigger] done@[i]@ == strip_cr(pieces(text@.take(k))[i]),
            pieces(text@.take(k)).last() == if pending_cr {
                cur@.push('\r')
            } else {
                cur@
            },
            !pending_cr ==> cur@.len() == 0 || cur@.last() != '\r',
        ensures
            k == text@.len(),
            pieces(text@.take(k)).len() == done@.len() + 1,
            forall|i: int|
                0 <= i < done@.len() ==> #[trigger] done@[i]@ == strip_cr(pieces(text@.take(k))[i]),
            pieces(text@.take(k)).last() == if pending_cr {
                cur@.push('\r')
            } else {
                cur@
            },
            !pending_cr ==> cur@.len() == 0 || cur@.last() != '\r',
        decreases text@.len() - k,
    {
        match it.next() {
            Some(c) => {
                proof {
                    assert(text@.take(k + 1).drop_last() == text@.take(k));
                    lemma_pieces_nonempty(text@.take(k));
                    assert(text@.take(k + 1).last() == c);
                }
                if c == '\n' {
                    done.push(cur);
                    cur = String::new();
                    pending_cr = false;
                } else {
                    if pending_cr {
                        push_char(&mut cur, '\r');
                    }
                    if c == '\r' {
                        pending_cr = true;
                    } else {
                        push_char(&mut cur, c);
                        pending_cr = false;
                    }
                }
                proof {
                    let p = pieces(text@.take(k));
                    let q = pieces(text@.take(k + 1));
                    assert forall|i: int| 0 <= i < p.len() - 1 implies q[i] == p[i] by {}
                    k = k + 1;
                }
            },
            None => {
                proof {
                    assert(text@.skip(k).len() == 0);
                }
                break;
            },
        }
    }
    proof {
        assert(text@.take(k) =~= text@);
    }
    if pending_cr {
        push_char(&mut cur, '\r');
    }
    if !cur.as_str().is_empty() {
        done.push(cur);
    }
    proof {
        lemma_pieces_nonempty(text@);
        assert(done@.map_values(|l: String| l@) =~= lines_of(text@));
    }
    done
}

} // verus!
