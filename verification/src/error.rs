//! What can go wrong while a trace is recovered.

use vstd::prelude::*;
use crate::text::{byte_list_string, byte_list_text, decimal_string, decimal_text};

verus! {

/// A failure of task resolution or of the resolution of one trace packet.
#[derive(PartialEq, Eq, Debug)]
pub enum RecoveryError {
    /// No task is bound to the core exception of this name.
    MissingHWLabelExceptionMap(String),
    /// No task is bound to the device interrupt of this number.
    MissingHWExceptionMap(u16),
    /// The payload of a watchpoint write names no software task.
    MissingSWMap(Vec<u8>),
    /// The source file of the application could not be read.
    SourceRead(String),
    /// The source file of the application is not a sequence of tokens.
    TokenizeFail(String),
    /// The source holds no application declaration with arguments.
    RTICArgumentsMissing,
    /// The application's declarations could not be parsed.
    RTICParseFail(String),
    /// The probe crate could not be written to disk.
    LibExtractFail(String),
    /// The probe crate could not be built.
    LibBuildFail(String),
    /// The probe library could not be loaded.
    LibLoadFail(String),
    /// A probe function is missing from the probe library.
    LibLookupFail(String),
    /// More software tasks are traced than one byte can tell apart.
    TooManySoftwareTasks,
    /// The probe gave no number for the device interrupt of this name.
    MissingInterruptNumber(String),
}

/// A `RecoveryError` over mathematical values.
pub enum RecoveryErrorView {
    MissingHWLabelExceptionMap(Seq<char>),
    MissingHWExceptionMap(u16),
    MissingSWMap(Seq<u8>),
    SourceRead(Seq<char>),
    TokenizeFail(Seq<char>),
    RTICArgumentsMissing,
    RTICParseFail(Seq<char>),
    LibExtractFail(Seq<char>),
    LibBuildFail(Seq<char>),
    LibLoadFail(Seq<char>),
    LibLookupFail(Seq<char>),
    TooManySoftwareTasks,
    MissingInterruptNumber(Seq<char>),
}

impl View for RecoveryError {
    type V = RecoveryErrorView;

    open spec fn view(&self) -> RecoveryErrorView {
        match self {
            RecoveryError::MissingHWLabelExceptionMap(name) => {
                RecoveryErrorView::MissingHWLabelExceptionMap(name@)
            },
            RecoveryError::MissingHWExceptionMap(number) => {
                RecoveryErrorView::MissingHWExceptionMap(*number)
            },
            RecoveryError::MissingSWMap(value) => RecoveryErrorView::MissingSWMap(value@),
            RecoveryError::SourceRead(cause) => RecoveryErrorView::SourceRead(cause@),
            RecoveryError::TokenizeFail(cause) => RecoveryErrorView::TokenizeFail(cause@),
            RecoveryError::RTICArgumentsMissing => RecoveryErrorView::RTICArgumentsMissing,
            RecoveryError::RTICParseFail(cause) => RecoveryErrorView::RTICParseFail(cause@),
            RecoveryError::LibExtractFail(cause) => RecoveryErrorView::LibExtractFail(cause@),
            RecoveryError::LibBuildFail(cause) => RecoveryErrorView::LibBuildFail(cause@),
            RecoveryError::LibLoadFail(cause) => RecoveryErrorView::LibLoadFail(cause@),
            RecoveryError::LibLookupFail(cause) => RecoveryErrorView::LibLookupFail(cause@),
            RecoveryError::TooManySoftwareTasks => RecoveryErrorView::TooManySoftwareTasks,
            RecoveryError::MissingInterruptNumber(name) => {
                RecoveryErrorView::MissingInterruptNumber(name@)
            },
        }
    }
}

/// The text that describes an error to the operator.
pub open spec fn message_text(e: RecoveryErrorView) -> Seq<char> {
    match e {
        RecoveryErrorView::MissingHWLabelExceptionMap(name) => "The IRQ ("@ + name
            + ") -> RTIC task mapping does not exist"@,
        RecoveryErrorView::MissingHWExceptionMap(number) => "The IRQ ("@ + decimal_text(
            number as nat,
        ) + ") -> RTIC task mapping does not exist"@,
        RecoveryErrorView::MissingSWMap(value) => "The DataTraceValue ("@ + byte_list_text(value)
            + ") -> RTIC task mapping does not exist"@,
        RecoveryErrorView::SourceRead(cause) => "Failed to read artifact source file: "@ + cause,
        RecoveryErrorView::TokenizeFail(cause) => "Failed to tokenize artifact source file: "@
            + cause,
        RecoveryErrorView::RTICArgumentsMissing => "Failed to find arguments to RTIC application"@,
        RecoveryErrorView::RTICParseFail(cause) => {
            "Failed to parse the content of the RTIC application"@
        },
        RecoveryErrorView::LibExtractFail(cause) => {
            "Failed to extract and/or configure the intermediate crate directory to disk: "@
                + cause
        },
        RecoveryErrorView::LibBuildFail(cause) => "Failed to build the intermediate crate: "@
            + cause,
        RecoveryErrorView::LibLoadFail(cause) => "Failed to load the intermediate shared object: "@
            + cause,
        RecoveryErrorView::LibLookupFail(cause) => {
            "Failed to lookup symbol in the intermediate shared object: "@ + cause
        },
        RecoveryErrorView::TooManySoftwareTasks => "256 software tasks are supported at maximum"@,
        RecoveryErrorView::MissingInterruptNumber(name) => "The interrupt ("@ + name
            + ") was not resolved to a number"@,
    }
}

/// The hints that help the operator to mend an error.
pub open spec fn diagnosis(e: RecoveryErrorView) -> Seq<Seq<char>> {
    match e {
        RecoveryErrorView::RTICArgumentsMissing => seq![
            "RTIC Scope expects an RTIC application declaration on the form `#[app(...)] mod app { ... }` where the first `...` is the application arguments."@,
            "Change #[rtic::app(...)] to #[app(...)] via `use rtic::app;`."@,
        ],
        _ => Seq::empty(),
    }
}

fn framed(head: &str, middle: &str, tail: &str) -> (s: String)
    ensures
        s@ == head@ + middle@ + tail@,
{
    let mut s = String::from_str(head);
    s.append(middle);
    s.append(tail);
    s
}

fn prefixed(head: &str, tail: &str) -> (s: String)
    ensures
        s@ == head@ + tail@,
{
    let mut s = String::from_str(head);
    s.append(tail);
    s
}

impl RecoveryError {
    /// Describes the error to the operator.
    pub fn message(&self) -> (s: String)
        ensures
            s@ == message_text(self@),
    {
        match self {
            RecoveryError::MissingHWLabelExceptionMap(name) => framed(
                "The IRQ (",
                name.as_str(),
                ") -> RTIC task mapping does not exist",
            ),
            RecoveryError::MissingHWExceptionMap(number) => framed(
                "The IRQ (",
                decimal_string(*number as u64).as_str(),
                ") -> RTIC task mapping does not exist",
            ),
            RecoveryError::MissingSWMap(value) => framed(
                "The DataTraceValue (",
                byte_list_string(value).as_str(),
                ") -> RTIC task mapping does not exist",
            ),
            RecoveryError::SourceRead(cause) => prefixed(
                "Failed to read artifact source file: ",
                cause.as_str(),
            ),
            RecoveryError::TokenizeFail(cause) => prefixed(
                "Failed to tokenize artifact source file: ",
                cause.as_str(),
            ),
            RecoveryError::RTICArgumentsMissing => String::from_str(
                "Failed to find arguments to RTIC application",
            ),
            RecoveryError::RTICParseFail(_) => String::from_str(
                "Failed to parse the content of the RTIC application",
            ),
            RecoveryError::LibExtractFail(cause) => prefixed(
                "Failed to extract and/or configure the intermediate crate directory to disk: ",
                cause.as_str(),
            ),
            RecoveryError::LibBuildFail(cause) => prefixed(
                "Failed to build the intermediate crate: ",
                cause.as_str(),
            ),
            RecoveryError::LibLoadFail(cause) => prefixed(
                "Failed to load the intermediate shared object: ",
                cause.as_str(),
            ),
            RecoveryError::LibLookupFail(cause) => prefixed(
                "Failed to lookup symbol in the intermediate shared object: ",
                cause.as_str(),
            ),
            RecoveryError::TooManySoftwareTasks => String::from_str(
                "256 software tasks are supported at maximum",
            ),
            RecoveryError::MissingInterruptNumber(name) => framed(
                "The interrupt (",
                name.as_str(),
                ") was not resolved to a number",
            ),
        }
    }

    /// The hints that help the operator to mend the error: two for a missing
    /// application declaration, none for the others.
    pub fn diagnose(&self) -> (hints: Vec<String>)
        ensures
            crate::text::texts(hints@) == diagnosis(self@),
    {
        let mut hints: Vec<String> = Vec::new();
        match self {
            RecoveryError::RTICArgumentsMissing => {
                hints.push(
                    String::from_str(
                        "RTIC Scope expects an RTIC application declaration on the form `#[app(...)] mod app { ... }` where the first `...` is the application arguments.",
                    ),
                );
                hints.push(
                    String::from_str(
                        "Change #[rtic::app(...)] to #[app(...)] via `use rtic::app;`.",
                    ),
                );
            },
            _ => {},
        }
        assert(crate::text::texts(hints@) =~= diagnosis(self@));
        hints
    }
}

} // verus!
