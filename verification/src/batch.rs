//! Extraction file by file: what one file yields, and what a set of files
//! yields together.

use vstd::prelude::*;
use crate::error::ExtractionError;
use crate::reference::{Reference, ReferenceView};
use crate::syntax::SyntaxNode;
use crate::visitor::{extract_from_ast, malformed, references_of};

verus! {

/// What the reader and the parser hand over for one file.
#[derive(Debug)]
pub enum Source {
    /// The file could not be read or decoded.
    Unreadable,
    /// The file was read, and the parser produced no tree for it.
    Unparsable,
    /// The tree that the parser produced.
    Parsed(SyntaxNode),
}

/// One file of a batch: its absolute path and what came of reading it.
#[derive(Debug)]
pub struct SourceFile {
    pub path: String,
    pub source: Source,
}

/// A file that yielded no references, and why.
#[derive(Debug)]
pub struct Failure {
    pub path: String,
    pub error: ExtractionError,
}

/// What a [`Failure`] states.
pub struct FailureView {
    pub path: Seq<char>,
    pub error: ExtractionError,
}

impl View for Failure {
    type V = FailureView;

    open spec fn view(&self) -> FailureView {
        FailureView { path: self.path@, error: self.error }
    }
}

impl DeepView for Failure {
    type V = FailureView;

    open spec fn deep_view(&self) -> FailureView {
        self.view()
    }
}

/// What a batch of files yields: the references of the files that could be
/// walked, and the files that could not.
#[derive(Debug)]
pub struct Report {
    pub references: Vec<Reference>,
    pub failures: Vec<Failure>,
}

/// What one file yields: its references, walked from the top level, or the
/// reason why it has none.
pub open spec fn outcome_of(source: Source) -> Result<Seq<ReferenceView>, ExtractionError> {
    match source {
        Source::Unreadable => Err(ExtractionError::UnreadableSource),
        Source::Unparsable => Err(ExtractionError::UnparsableSource),
        Source::Parsed(tree) => if malformed(tree) {
            Err(ExtractionError::MalformedNamespaceConstruct)
        } else {
            Ok(references_of(tree, Seq::empty()))
        },
    }
}

/// The references of the files that yield some, file after file.
pub open spec fn batch_references(files: Seq<SourceFile>) -> Seq<ReferenceView>
    decreases files.len(),
{
    if files.len() == 0 {
        Seq::empty()
    } else {
        batch_references(files.drop_last()) + match outcome_of(files.last().source) {
            Ok(references) => references,
            Err(_) => Seq::empty(),
        }
    }
}

/// The files that yield no references, in the order of the batch, each with
/// its reason.
pub open spec fn batch_failures(files: Seq<SourceFile>) -> Seq<FailureView>
    decreases files.len(),
{
    if files.len() == 0 {
        Seq::empty()
    } else {
        batch_failures(files.drop_last()) + match outcome_of(files.last().source) {
            Ok(_) => Seq::empty(),
            Err(error) => seq![FailureView { path: files.last().path@, error }],
        }
    }
}

/// Whether `result` is what `source` yields.
pub open spec fn yields(source: Source, result: Result<Vec<Reference>, ExtractionError>) -> bool {
    match (result, outcome_of(source)) {
        (Ok(references), Ok(expected)) => references.deep_view() == expected,
        (Err(error), Err(expected)) => error == expected,
        _ => false,
    }
}

/// Extracts the references of one file, walking its tree from the top
/// level. A file that was not read or not parsed, or whose tree holds a
/// class or module without name or body, gives the matching error.
pub fn extract_from_contents(source: &Source) -> (result: Result<Vec<Reference>, ExtractionError>)
    ensures
        yields(*source, result),
{
    match source {
        Source::Unreadable => Err(ExtractionError::UnreadableSource),
        Source::Unparsable => Err(ExtractionError::UnparsableSource),
        Source::Parsed(ast) => {
            let top_level: Vec<String> = Vec::new();
            assert(top_level.deep_view() =~= Seq::<Seq<char>>::empty());
            extract_from_ast(ast, &top_level)
        },
    }
}

/// Extracts the references of one file of a batch; a failure names the file.
pub fn extract_from_path(file: &SourceFile) -> (result: Result<Vec<Reference>, Failure>)
    ensures
        match (result, outcome_of(file.source)) {
            (Ok(references), Ok(expected)) => references.deep_view() == expected,
            (Err(failure), Err(expected)) => failure@ == (FailureView {
                path: file.path@,
                error: expected,
            }),
            _ => false,
        },
{
    match extract_from_contents(&file.source) {
        Ok(references) => Ok(references),
        Err(error) => Err(Failure { path: file.path.clone(), error }),
    }
}

/// Extracts the references of every file of a batch. No file stops the
/// others: the report holds the references of the files that could be
/// walked, file after file, and each file that could not, with its reason.
pub fn get_references(files: &Vec<SourceFile>) -> (report: Report)
    ensures
        report.references.deep_view() == batch_references(files@),
        report.failures.deep_view() == batch_failures(files@),
{
    let mut references: Vec<Reference> = Vec::new();
    let mut failures: Vec<Failure> = Vec::new();
    let mut i: usize = 0;
    while i < files.len()
        invariant
            i <= files.len(),
            references.deep_view() == batch_references(files@.take(i as int)),
            failures.deep_view() == batch_failures(files@.take(i as int)),
        decreases files.len() - i,
    {
        proof {
            assert(files@.take(i + 1).drop_last() =~= files@.take(i as int));
        }
        match extract_from_path(&files[i]) {
            Ok(mut more) => {
                references.append(&mut more);
            },
            Err(failure) => {
                failures.push(failure);
            },
        }
        i += 1;
    }
    assert(files@.take(i as int) =~= files@);
    Report { references, failures }
}

} // verus!
