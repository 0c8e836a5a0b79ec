use vstd::prelude::*;
use crate::render::Dialect;

verus! {

pub open spec fn txt_ext() -> Seq<char> {
    seq!['.', 't', 'x', 't']
}

pub open spec fn md_ext() -> Seq<char> {
    seq!['.', 'm', 'd']
}

pub open spec fn ends_with(s: Seq<char>, suffix: Seq<char>) -> bool {
    s.len() >= suffix.len() && s.skip(s.len() - suffix.len()) == suffix
}

/// The dialect that a file's extension calls for, if any.
pub open spec fn dialect_of_name(name: Seq<char>) -> Option<Dialect> {
    if ends_with(name, txt_ext()) {
        Some(Dialect::PlainText)
    } else if ends_with(name, md_ext()) {
        Some(Dialect::Markdown)
    } else {
        None
    }
}

/// `name` without one leading `'/'`.
pub open spec fn without_leading_separator(name: Seq<char>) -> Seq<char> {
    if name.len() > 0 && name[0] == '/' {
        name.skip(1)
    } else {
        name
    }
}

/// The name of the page made from a source file: one leading separator
/// dropped and the `.txt` or `.md` extension replaced by `.html`.
pub open spec fn output_name_of(name: Seq<char>) -> Option<Seq<char>> {
    let s = without_leading_separator(name);
    if ends_with(s, txt_ext()) {
        Some(s.take(s.len() - 4) + ".html"@)
    } else if ends_with(s, md_ext()) {
        Some(s.take(s.len() - 3) + ".html"@)
    } else {
        None
    }
}

proof fn lemma_suffix_after_separator(name: Seq<char>, suffix: Seq<char>)
    requires
        suffix.len() > 0,
        suffix[0] != '/',
    ensures
        ends_with(without_leading_separator(name), suffix) == ends_with(name, suffix),
{
    let s = without_leading_separator(name);
    if name.len() > 0 && name[0] == '/' {
        if ends_with(name, suffix) {
            assert(name.len() > suffix.len()) by {
                if name.len() == suffix.len() {
                    assert(name.skip(0)[0] == suffix[0]);
                }
            }
            assert(s.skip(s.len() - suffix.len()) =~= name.skip(name.len() - suffix.len()));
        }
        if ends_with(s, suffix) {
            assert(s.skip(s.len() - suffix.len()) =~= name.skip(name.len() - suffix.len()));
        }
    }
}

/// A source file gets a page name exactly when it has a dialect.
pub proof fn lemma_named_iff_convertible(name: Seq<char>)
    ensures
        output_name_of(name) is Some <==> dialect_of_name(name) is Some,
{
    lemma_suffix_after_separator(name, txt_ext());
    lemma_suffix_after_separator(name, md_ext());
}

/// A page name does not depend on one leading separator: `"/" + rest` is
/// named as `rest` is.
pub proof fn lemma_leading_separator_dropped(rest: Seq<char>)
    requires
        !(rest.len() > 0 && rest[0] == '/'),
    ensures
        output_name_of(seq!['/'] + rest) == output_name_of(rest),
{
    assert((seq!['/'] + rest).skip(1) =~= rest);
}

fn has_suffix(s: &str, n: usize, suffix: &str) -> (r: bool)
    requires
        n == s@.len(),
    ensures
        r == ends_with(s@, suffix@),
{
    let m = suffix.unicode_len();
    if m > n {
        return false;
    }
    let mut i: usize = 0;
    while i < m
        invariant
            m == suffix@.len(),
            m <= n == s@.len(),
            i <= m,
            forall|j: int| 0 <= j < i ==> s@[n - m + j] == suffix@[j],
        decreases m - i,
    {
        if s.get_char(n - m + i) != suffix.get_char(i) {
            assert(s@.skip(n - m)[i as int] != suffix@[i as int]);
            return false;
        }
        i = i + 1;
    }
    assert(s@.skip(n - m) =~= suffix@);
    true
}

/// The dialect of a source file by its extension: `.txt` is plain text,
/// `.md` is markdown; other files are not converted.
pub fn dialect_of(name: &str) -> (r: Option<Dialect>)
    ensures
        r == dialect_of_name(name@),
{
    proof {
        reveal_strlit(".txt");
        reveal_strlit(".md");
        assert(".txt"@ =~= txt_ext());
        assert(".md"@ =~= md_ext());
    }
    let n = name.unicode_len();
    if has_suffix(name, n, ".txt") {
        Some(Dialect::PlainText)
    } else if has_suffix(name, n, ".md") {
        Some(Dialect::Markdown)
    } else {
        None
    }
}

/// The name of the page made from a source file, or `None` for a file
/// that is not converted.
pub fn output_name(name: &str) -> (r: Option<String>)
    ensures
        r matches Some(o) ==> output_name_of(name@) == Some(o@),
        r is None ==> output_name_of(name@) is None,
{
    proof {
        reveal_strlit(".txt");
        reveal_strlit(".md");
        assert(".txt"@ =~= txt_ext());
        assert(".md"@ =~= md_ext());
    }
    let n0 = name.unicode_len();
    let s = if n0 > 0 && name.get_char(0) == '/' {
        name.substring_char(1, n0)
    } else {
        name
    };
    proof {
        assert(s@ =~= without_leading_separator(name@));
    }
    let n = s.unicode_len();
    if has_suffix(s, n, ".txt") {
        Some(s.substring_char(0, n - 4).to_string().concat(".html"))
    } else if has_suffix(s, n, ".md") {
        Some(s.substring_char(0, n - 3).to_string().concat(".html"))
    } else {
        None
    }
}

} // verus!
