//! The errors that reading can end in.

use vstd::prelude::*;
use vstd::string::StringExecFns;

verus! {

/// Why a read failed. Every error carries the position of the cursor at the
/// moment the failing step began.
#[derive(Debug, PartialEq, Eq)]
pub enum Error {
    /// The byte source could not supply the bytes, or could not move to the
    /// position, that a step asked for.
    IoFailure { pos: u64 },
    /// A magic value differed or an assertion evaluated to false. `text` is the
    /// source text of the expression as the schema gives it.
    AssertionFailure { pos: u64, text: String, message: Option<String> },
    /// No variant of an enum matched and the enum does not collect the
    /// variants' errors.
    NoVariantMatch { pos: u64 },
    /// Every variant of an enum failed; the errors are in declaration order,
    /// each with the name of its variant.
    EnumErrors { pos: u64, variant_errors: Vec<(String, Error)> },
    /// A fallible mapping rejected the value that was read.
    CustomMapError { pos: u64, cause: String },
    /// A parser needed an option that the options did not hold.
    MissingRequiredOption { pos: u64, name: String },
}

/// The result of every read.
pub type BinResult<T> = Result<T, Error>;

/// The mathematical model of an [`Error`].
pub enum ErrorView {
    IoFailure { pos: u64 },
    AssertionFailure { pos: u64, text: Seq<char>, message: Option<Seq<char>> },
    NoVariantMatch { pos: u64 },
    EnumErrors { pos: u64, variant_errors: Seq<(Seq<char>, ErrorView)> },
    CustomMapError { pos: u64, cause: Seq<char> },
    MissingRequiredOption { pos: u64, name: Seq<char> },
}

/// The model of an optional string.
pub open spec fn text_view(s: Option<String>) -> Option<Seq<char>> {
    match s {
        Some(t) => Some(t@),
        None => None,
    }
}

impl Error {
    pub open spec fn view(&self) -> ErrorView
        decreases self,
    {
        match self {
            Error::IoFailure { pos } => ErrorView::IoFailure { pos: *pos },
            Error::AssertionFailure { pos, text, message } => ErrorView::AssertionFailure {
                pos: *pos,
                text: text@,
                message: text_view(*message),
            },
            Error::NoVariantMatch { pos } => ErrorView::NoVariantMatch { pos: *pos },
            Error::EnumErrors { pos, variant_errors } => ErrorView::EnumErrors {
                pos: *pos,
                variant_errors: Seq::new(
                    variant_errors@.len(),
                    |i: int|
                        if 0 <= i < variant_errors@.len() {
                            (variant_errors@[i].0@, variant_errors@[i].1.view())
                        } else {
                            (Seq::empty(), ErrorView::IoFailure { pos: 0 })
                        },
                ),
            },
            Error::CustomMapError { pos, cause } => ErrorView::CustomMapError {
                pos: *pos,
                cause: cause@,
            },
            Error::MissingRequiredOption { pos, name } => ErrorView::MissingRequiredOption {
                pos: *pos,
                name: name@,
            },
        }
    }

    /// The position at which the failing step began.
    pub fn pos(&self) -> (p: u64)
        ensures
            p == self@.pos(),
    {
        match self {
            Error::IoFailure { pos } => *pos,
            Error::AssertionFailure { pos, .. } => *pos,
            Error::NoVariantMatch { pos } => *pos,
            Error::EnumErrors { pos, .. } => *pos,
            Error::CustomMapError { pos, .. } => *pos,
            Error::MissingRequiredOption { pos, .. } => *pos,
        }
    }

    /// A one-line description of the failure, without its position.
    pub fn describe(&self) -> (s: String)
        ensures
            s@ == self@.describe(),
    {
        match self {
            Error::IoFailure { .. } => String::from_str("i/o failure"),
            Error::AssertionFailure { text, message, .. } => {
                let mut s = String::from_str("assertion failed: ");
                s.append(text.as_str());
                match message {
                    Some(m) => {
                        s.append(": ");
                        s.append(m.as_str());
                    },
                    None => {},
                }
                s
            },
            Error::NoVariantMatch { .. } => String::from_str("no variant matched"),
            Error::EnumErrors { .. } => String::from_str("every variant failed"),
            Error::CustomMapError { cause, .. } => {
                let mut s = String::from_str("mapping failed: ");
                s.append(cause.as_str());
                s
            },
            Error::MissingRequiredOption { name, .. } => {
                let mut s = String::from_str("missing required option: ");
                s.append(name.as_str());
                s
            },
        }
    }
}

impl ErrorView {
    /// The position at which the failing step began.
    pub open spec fn pos(self) -> u64 {
        match self {
            ErrorView::IoFailure { pos } => pos,
            ErrorView::AssertionFailure { pos, .. } => pos,
            ErrorView::NoVariantMatch { pos } => pos,
            ErrorView::EnumErrors { pos, .. } => pos,
            ErrorView::CustomMapError { pos, .. } => pos,
            ErrorView::MissingRequiredOption { pos, .. } => pos,
        }
    }

    /// The text of [`Error::describe`].
    pub open spec fn describe(self) -> Seq<char> {
        match self {
            ErrorView::IoFailure { .. } => "i/o failure"@,
            ErrorView::AssertionFailure { text, message, .. } => match message {
                Some(m) => "assertion failed: "@ + text + ": "@ + m,
                None => "assertion failed: "@ + text,
            },
            ErrorView::NoVariantMatch { .. } => "no variant matched"@,
            ErrorView::EnumErrors { .. } => "every variant failed"@,
            ErrorView::CustomMapError { cause, .. } => "mapping failed: "@ + cause,
            ErrorView::MissingRequiredOption { name, .. } => "missing required option: "@ + name,
        }
    }
}

/// The model of a result whose error is an [`Error`] and whose value is kept
/// as it is.
pub open spec fn plain_result<T>(r: BinResult<T>) -> Result<T, ErrorView> {
    match r {
        Ok(v) => Ok(v),
        Err(e) => Err(e@),
    }
}

/// The model of the list of errors that the variants of an enum ended in.
pub open spec fn variant_errors_view(errors: Seq<(String, Error)>) -> Seq<(Seq<char>, ErrorView)> {
    Seq::new(errors.len(), |i: int| (errors[i].0@, errors[i].1@))
}

/// The model of [`Error::EnumErrors`] is built from the models of its entries.
pub proof fn lemma_enum_errors_view(pos: u64, errors: Vec<(String, Error)>)
    ensures
        (Error::EnumErrors { pos, variant_errors: errors })@ == (ErrorView::EnumErrors {
            pos,
            variant_errors: variant_errors_view(errors@),
        }),
{
    let e = Error::EnumErrors { pos, variant_errors: errors };
    assert(e@->EnumErrors_variant_errors =~= variant_errors_view(errors@));
}

} // verus!
