//! Compile errors as text and as codespan diagnostics.
use vstd::prelude::*;
use codespan_reporting::diagnostic::{Diagnostic, Label, Severity};
use codespan_reporting::files::SimpleFiles;
use super::compile_err::CompileError;
use crate::text::{decimal, push_decimal, push_str, string_of};

verus! {

#[verifier::external_type_specification]
#[verifier::external_body]
#[verifier::reject_recursive_types(F)]
pub struct ExDiagnostic<F>(Diagnostic<F>);

#[verifier::external_type_specification]
#[verifier::external_body]
#[verifier::reject_recursive_types(F)]
pub struct ExLabel<F>(Label<F>);

#[verifier::external_type_specification]
#[verifier::external_body]
#[verifier::reject_recursive_types(Name)]
#[verifier::reject_recursive_types(Source)]
pub struct ExSimpleFiles<Name, Source>(SimpleFiles<Name, Source>);

/// Whether a codespan diagnostic has severity `Error`.
pub uninterp spec fn diagnostic_is_error(d: Diagnostic<usize>) -> bool;

/// The main message of a codespan diagnostic.
pub uninterp spec fn diagnostic_message(d: Diagnostic<usize>) -> Seq<char>;

/// The labels a codespan diagnostic holds, in order, each as `label_contents` gives it.
pub uninterp spec fn diagnostic_labels(d: Diagnostic<usize>) -> Seq<(bool, usize, usize, usize, Seq<char>)>;

/// The notes a codespan diagnostic holds, in order.
pub uninterp spec fn diagnostic_notes(d: Diagnostic<usize>) -> Seq<Seq<char>>;

/// What a codespan label holds: whether its style is primary, its file, the
/// start and end of its byte range, and its message.
pub uninterp spec fn label_contents(l: Label<usize>) -> (bool, usize, usize, usize, Seq<char>);

/// Calls codespan's `Diagnostic::new` with `Severity::Error`, which (by its
/// source) gives that severity, no code, an empty message, no labels and no
/// notes. Whether a code is set is not stated.
#[verifier::external_body]
fn diagnostic_error() -> (d: Diagnostic<usize>)
    ensures
        diagnostic_is_error(d),
        diagnostic_message(d) == Seq::<char>::empty(),
        diagnostic_labels(d) == Seq::<(bool, usize, usize, usize, Seq<char>)>::empty(),
        diagnostic_notes(d) == Seq::<Seq<char>>::empty(),
{
    Diagnostic::new(Severity::Error)
}

/// Calls codespan's `Diagnostic::with_message`, which sets the message and
/// leaves the rest as it was.
#[verifier::external_body]
fn diagnostic_with_message(d: Diagnostic<usize>, message: String) -> (r: Diagnostic<usize>)
    ensures
        diagnostic_is_error(r) == diagnostic_is_error(d),
        diagnostic_message(r) == message@,
        diagnostic_labels(r) == diagnostic_labels(d),
        diagnostic_notes(r) == diagnostic_notes(d),
{
    d.with_message(message)
}

/// Calls codespan's `Label::primary`: a primary label on bytes `lo..hi` of
/// file `file`, with an empty message.
#[verifier::external_body]
fn label_primary(file: usize, lo: usize, hi: usize) -> (l: Label<usize>)
    ensures
        label_contents(l) == (true, file, lo, hi, Seq::<char>::empty()),
{
    Label::primary(file, lo..hi)
}

/// Calls codespan's `Diagnostic::with_labels`, which appends the labels at
/// the end of those there are and leaves the rest as it was.
#[verifier::external_body]
fn diagnostic_with_labels(d: Diagnostic<usize>, labels: Vec<Label<usize>>) -> (r: Diagnostic<usize>)
    ensures
        diagnostic_is_error(r) == diagnostic_is_error(d),
        diagnostic_message(r) == diagnostic_message(d),
        diagnostic_labels(r) == diagnostic_labels(d) + labels@.map_values(|l: Label<usize>| label_contents(l)),
        diagnostic_notes(r) == diagnostic_notes(d),
{
    d.with_labels(labels)
}

/// Calls codespan's `Diagnostic::with_notes`, which appends the notes at
/// the end of those there are and leaves the rest as it was.
#[verifier::external_body]
fn diagnostic_with_notes(d: Diagnostic<usize>, notes: Vec<String>) -> (r: Diagnostic<usize>)
    ensures
        diagnostic_is_error(r) == diagnostic_is_error(d),
        diagnostic_message(r) == diagnostic_message(d),
        diagnostic_labels(r) == diagnostic_labels(d),
        diagnostic_notes(r) == diagnostic_notes(d) + notes@.map_values(|n: String| n@),
{
    d.with_notes(notes)
}

/// The labels the diagnostic of an error holds: one primary label with no
/// message on the error's span, if it has one.
pub open spec fn spec_error_labels(e: CompileError) -> Seq<(bool, usize, usize, usize, Seq<char>)> {
    match e.span {
        Some(span) => seq![(true, span.file, span.lo, span.hi, Seq::<char>::empty())],
        None => Seq::empty(),
    }
}

/// The text of an error: its location, if it has one, then its message.
pub open spec fn spec_error_text(e: CompileError) -> Seq<char> {
    match e.span {
        Some(span) => "At file "@ + decimal(span.file as nat) + ":"@ + decimal(span.lo as nat) + "-"@
            + decimal(span.hi as nat) + "\n"@ + e.message@,
        None => e.message@,
    }
}

impl CompileError {
    /// The error as a codespan diagnostic of severity `Error`: its message,
    /// a primary label on its span if it has one, and its notes if it has
    /// any. The files are not read.
    pub fn to_diagnostic(&self, files: &SimpleFiles<String, String>) -> (d: Diagnostic<usize>)
        ensures
            diagnostic_is_error(d),
            diagnostic_message(d) == self.message@,
            diagnostic_labels(d) == spec_error_labels(*self),
            diagnostic_notes(d) == self.notes@.map_values(|n: String| n@),
    {
        let mut diag = diagnostic_with_message(diagnostic_error(), self.message.clone());
        if let Some(span) = &self.span {
            let mut labels: Vec<Label<usize>> = Vec::new();
            labels.push(label_primary(span.file, span.lo, span.hi));
            diag = diagnostic_with_labels(diag, labels);
            assert(diagnostic_labels(diag) =~= spec_error_labels(*self));
        }
        if self.notes.len() > 0 {
            diag = diagnostic_with_notes(diag, self.notes.clone());
        }
        diag
    }

    /// The text of the error (what `Display` prints for it).
    pub fn to_display_string(&self) -> (s: String)
        ensures
            s@ == spec_error_text(*self),
    {
        match &self.span {
            Some(span) => {
                proof {
                    reveal_strlit("At file ");
                    reveal_strlit(":");
                    reveal_strlit("-");
                    reveal_strlit("\n");
                }
                let mut s = string_of("At file ");
                push_decimal(&mut s, span.file as u64);
                push_str(&mut s, ":");
                push_decimal(&mut s, span.lo as u64);
                push_str(&mut s, "-");
                push_decimal(&mut s, span.hi as u64);
                push_str(&mut s, "\n");
                push_str(&mut s, self.message.as_str());
                s
            },
            None => self.message.clone(),
        }
    }
}

} // verus!
