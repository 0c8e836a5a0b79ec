use vstd::prelude::*;
use crate::naming::{lemma_named_iff_convertible, dialect_of, dialect_of_name, output_name, output_name_of};
use crate::render::{process, rendered};
use crate::text::lines_of;

verus! {

/// Why one document of a batch was not converted.
#[derive(Clone, Copy, Debug, PartialEq, Eq, Structural)]
pub enum ConvertError {
    /// The source could not be read.
    ReadFailure,
    /// The page could not be written.
    WriteFailure,
    /// The markdown renderer failed.
    RenderFailure,
}

/// A source file found under an input root, with its text, or `None` where
/// it could not be read.
pub struct SourceFile {
    pub identifier: String,
    pub content: Option<String>,
}

/// A converted page and the path it goes to.
pub struct PageFile {
    pub path: String,
    pub html: String,
}

/// A document that was not converted, and why.
pub struct Failure {
    pub identifier: String,
    pub error: ConvertError,
}

/// The outcome of converting a batch of source files.
pub struct BatchReport {
    pub pages: Vec<PageFile>,
    pub failures: Vec<Failure>,
}

impl View for SourceFile {
    type V = (Seq<char>, Option<Seq<char>>);

    open spec fn view(&self) -> Self::V {
        (self.identifier@, match self.content {
            Some(c) => Some(c@),
            None => None,
        })
    }
}

impl View for PageFile {
    type V = (Seq<char>, Seq<char>);

    open spec fn view(&self) -> Self::V {
        (self.path@, self.html@)
    }
}

impl View for Failure {
    type V = (Seq<char>, ConvertError);

    open spec fn view(&self) -> Self::V {
        (self.identifier@, self.error)
    }
}

/// The pages that a batch yields, in the order of its sources: one for
/// each readable source with a convertible extension.
pub open spec fn pages_of(sources: Seq<(Seq<char>, Option<Seq<char>>)>) -> Seq<(Seq<char>, Seq<char>)>
    decreases sources.len(),
{
    if sources.len() == 0 {
        Seq::empty()
    } else {
        let prev = pages_of(sources.drop_last());
        let (id, content) = sources.last();
        match (dialect_of_name(id), output_name_of(id), content) {
            (Some(d), Some(o), Some(t)) => prev.push((o, rendered(id, d, lines_of(t)))),
            _ => prev,
        }
    }
}

/// The failures of a batch, in the order of its sources: one for each
/// unreadable source with a convertible extension.
pub open spec fn failures_of(sources: Seq<(Seq<char>, Option<Seq<char>>)>) -> Seq<(Seq<char>, ConvertError)>
    decreases sources.len(),
{
    if sources.len() == 0 {
        Seq::empty()
    } else {
        let prev = failures_of(sources.drop_last());
        let (id, content) = sources.last();
        if dialect_of_name(id) is Some && content is None {
            prev.push((id, ConvertError::ReadFailure))
        } else {
            prev
        }
    }
}

impl BatchReport {
    pub open spec fn pages_view(&self) -> Seq<(Seq<char>, Seq<char>)> {
        self.pages@.map_values(|p: PageFile| p@)
    }

    pub open spec fn failures_view(&self) -> Seq<(Seq<char>, ConvertError)> {
        self.failures@.map_values(|f: Failure| f@)
    }

    /// A batch that converted nothing has failed as a whole.
    pub fn is_fatal(&self) -> (r: bool)
        ensures
            r == (self.pages@.len() == 0),
    {
        self.pages.len() == 0
    }

    /// Takes back the page at `index`, which could not be written, and
    /// records the failure against its path.
    pub fn mark_unwritten(&mut self, index: usize)
        requires
            index < old(self).pages@.len(),
        ensures
            final(self).pages_view() == old(self).pages_view().remove(index as int),
            final(self).failures_view() == old(self).failures_view().push(
                (old(self).pages_view()[index as int].0, ConvertError::WriteFailure),
            ),
    {
        let page = self.pages.remove(index);
        self.failures.push(Failure { identifier: page.path, error: ConvertError::WriteFailure });
        proof {
            assert(self.pages_view() =~= old(self).pages_view().remove(index as int));
            assert(self.failures_view() =~= old(self).failures_view().push(
                (old(self).pages_view()[index as int].0, ConvertError::WriteFailure),
            ));
        }
    }
}

/// Converts every source file with a `.txt` or `.md` extension; a source
/// that could not be read is reported and the rest of the batch goes on.
pub fn convert_batch(sources: &Vec<SourceFile>) -> (r: BatchReport)
    ensures
        r.pages_view() == pages_of(sources@.map_values(|s: SourceFile| s@)),
        r.failures_view() == failures_of(sources@.map_values(|s: SourceFile| s@)),
{
    let ghost sv = sources@.map_values(|s: SourceFile| s@);
    let mut report = BatchReport { pages: Vec::new(), failures: Vec::new() };
    let mut i: usize = 0;
    while i < sources.len()
        invariant
            i <= sources.len(),
            sv == sources@.map_values(|s: SourceFile| s@),
            report.pages_view() == pages_of(sv.take(i as int)),
            report.failures_view() == failures_of(sv.take(i as int)),
        decreases sources.len() - i,
    {
        let src = &sources[i];
        proof {
            assert(sv.take(i + 1).drop_last() =~= sv.take(i as int));
            assert(sv.take(i + 1).last() == src@);
            lemma_named_iff_convertible(src.identifier@);
        }
        let d = dialect_of(src.identifier.as_str());
        let o = output_name(src.identifier.as_str());
        match (d, o) {
            (Some(dialect), Some(path)) => {
                match &src.content {
                    Some(text) => {
                        let html = process(text.as_str(), src.identifier.as_str(), dialect);
                        report.pages.push(PageFile { path, html });
                    },
                    None => {
                        report.failures.push(
                            Failure {
                                identifier: src.identifier.clone(),
                                error: ConvertError::ReadFailure,
                            },
                        );
                    },
                }
            },
            _ => {},
        }
        proof {
            assert(report.pages_view() =~= pages_of(sv.take(i + 1)));
            assert(report.failures_view() =~= failures_of(sv.take(i + 1)));
        }
        i = i + 1;
    }
    proof {
        assert(sv.take(i as int) =~= sv);
    }
    report
}

} // verus!
