//! Failures reported by the core, each with the place in the source text
//! that it points at.

use vstd::prelude::*;
use crate::span::Span;

verus! {

/// The machine-distinguishable class of a failure.
#[derive(Clone, Copy, Debug, PartialEq, Eq, Structural)]
pub enum ErrorKind {
    /// A missing, extra or unknown argument or flag.
    ArgumentBinding,
    /// A value could not be converted to the shape a signature demands.
    TypeConversion,
    /// A name was not found in any frame or active overlay.
    VariableResolution,
    /// Cooperative cancellation was observed.
    Cancelled,
    /// A failure of a command's own logic, passed through unchanged.
    Downstream,
}

/// A failure of the core or of a command.
#[derive(Debug)]
pub enum ShellError {
    /// The signature declares no flag of this name.
    UnknownFlag { name: String, span: Span },
    /// The call gives no value for this required argument.
    MissingArgument { name: String, span: Span },
    /// The call gives a value for which the signature has no place.
    ExtraArgument { span: Span },
    /// The flag takes a value, and the call gives it none.
    MissingFlagValue { name: String, span: Span },
    /// The flag is a switch, and the call gives it a value.
    UnexpectedFlagValue { name: String, span: Span },
    /// The value has not the type that is wanted and does not convert to it.
    CantConvert { to_type: String, from_type: String, span: Span, help: Option<String> },
    /// No frame and no active overlay knows the name.
    VariableNotFound { name: String, span: Span },
    /// Cancellation was signalled while the work went on.
    Cancelled { span: Span },
    /// A failure of a command's own logic.
    Downstream { msg: String, span: Span },
}

/// The mathematical content of a [`ShellError`].
pub enum ShellErrorView {
    UnknownFlag { name: Seq<char>, span: Span },
    MissingArgument { name: Seq<char>, span: Span },
    ExtraArgument { span: Span },
    MissingFlagValue { name: Seq<char>, span: Span },
    UnexpectedFlagValue { name: Seq<char>, span: Span },
    CantConvert { to_type: Seq<char>, from_type: Seq<char>, span: Span, help: Option<Seq<char>> },
    VariableNotFound { name: Seq<char>, span: Span },
    Cancelled { span: Span },
    Downstream { msg: Seq<char>, span: Span },
}

impl ShellErrorView {
    /// The class that this failure belongs to.
    pub open spec fn kind(self) -> ErrorKind {
        match self {
            ShellErrorView::UnknownFlag { .. } => ErrorKind::ArgumentBinding,
            ShellErrorView::MissingArgument { .. } => ErrorKind::ArgumentBinding,
            ShellErrorView::ExtraArgument { .. } => ErrorKind::ArgumentBinding,
            ShellErrorView::MissingFlagValue { .. } => ErrorKind::ArgumentBinding,
            ShellErrorView::UnexpectedFlagValue { .. } => ErrorKind::ArgumentBinding,
            ShellErrorView::CantConvert { .. } => ErrorKind::TypeConversion,
            ShellErrorView::VariableNotFound { .. } => ErrorKind::VariableResolution,
            ShellErrorView::Cancelled { .. } => ErrorKind::Cancelled,
            ShellErrorView::Downstream { .. } => ErrorKind::Downstream,
        }
    }

    /// The place in the source text that this failure points at.
    pub open spec fn span(self) -> Span {
        match self {
            ShellErrorView::UnknownFlag { span, .. } => span,
            ShellErrorView::MissingArgument { span, .. } => span,
            ShellErrorView::ExtraArgument { span } => span,
            ShellErrorView::MissingFlagValue { span, .. } => span,
            ShellErrorView::UnexpectedFlagValue { span, .. } => span,
            ShellErrorView::CantConvert { span, .. } => span,
            ShellErrorView::VariableNotFound { span, .. } => span,
            ShellErrorView::Cancelled { span } => span,
            ShellErrorView::Downstream { span, .. } => span,
        }
    }

    /// The hint for the user, where the failure carries one.
    pub open spec fn help(self) -> Option<Seq<char>> {
        match self {
            ShellErrorView::CantConvert { help, .. } => help,
            _ => None,
        }
    }
}

/// The hint that goes with a text that is no integer.
pub open spec fn invalid_integer_help(text: Seq<char>) -> Seq<char> {
    "string \""@ + text + "\" does not represent a valid integer"@
}

/// The failure that a text that is no integer gives.
pub open spec fn invalid_integer(text: Seq<char>, span: Span) -> ShellErrorView {
    ShellErrorView::CantConvert {
        to_type: "int"@,
        from_type: "string"@,
        span,
        help: Some(invalid_integer_help(text)),
    }
}

/// The content of an optional string.
pub open spec fn opt_string_view(s: Option<String>) -> Option<Seq<char>> {
    match s {
        Some(t) => Some(t@),
        None => None,
    }
}

/// A copy of an optional string.
pub fn clone_opt_string(s: &Option<String>) -> (r: Option<String>)
    ensures
        opt_string_view(r) == opt_string_view(*s),
{
    match s {
        Some(t) => Some(t.clone()),
        None => None,
    }
}

impl View for ShellError {
    type V = ShellErrorView;

    open spec fn view(&self) -> ShellErrorView {
        match self {
            ShellError::UnknownFlag { name, span } => ShellErrorView::UnknownFlag {
                name: name@,
                span: *span,
            },
            ShellError::MissingArgument { name, span } => ShellErrorView::MissingArgument {
                name: name@,
                span: *span,
            },
            ShellError::ExtraArgument { span } => ShellErrorView::ExtraArgument { span: *span },
            ShellError::MissingFlagValue { name, span } => ShellErrorView::MissingFlagValue {
                name: name@,
                span: *span,
            },
            ShellError::UnexpectedFlagValue { name, span } => ShellErrorView::UnexpectedFlagValue {
                name: name@,
                span: *span,
            },
            ShellError::CantConvert { to_type, from_type, span, help } => {
                ShellErrorView::CantConvert {
                    to_type: to_type@,
                    from_type: from_type@,
                    span: *span,
                    help: opt_string_view(*help),
                }
            },
            ShellError::VariableNotFound { name, span } => ShellErrorView::VariableNotFound {
                name: name@,
                span: *span,
            },
            ShellError::Cancelled { span } => ShellErrorView::Cancelled { span: *span },
            ShellError::Downstream { msg, span } => ShellErrorView::Downstream {
                msg: msg@,
                span: *span,
            },
        }
    }
}

impl Clone for ShellError {
    fn clone(&self) -> (r: Self)
        ensures
            r@ == self@,
    {
        match self {
            ShellError::UnknownFlag { name, span } => ShellError::UnknownFlag {
                name: name.clone(),
                span: *span,
            },
            ShellError::MissingArgument { name, span } => ShellError::MissingArgument {
                name: name.clone(),
                span: *span,
            },
            ShellError::ExtraArgument { span } => ShellError::ExtraArgument { span: *span },
            ShellError::MissingFlagValue { name, span } => ShellError::MissingFlagValue {
                name: name.clone(),
                span: *span,
            },
            ShellError::UnexpectedFlagValue { name, span } => ShellError::UnexpectedFlagValue {
                name: name.clone(),
                span: *span,
            },
            ShellError::CantConvert { to_type, from_type, span, help } => ShellError::CantConvert {
                to_type: to_type.clone(),
                from_type: from_type.clone(),
                span: *span,
                help: clone_opt_string(help),
            },
            ShellError::VariableNotFound { name, span } => ShellError::VariableNotFound {
                name: name.clone(),
                span: *span,
            },
            ShellError::Cancelled { span } => ShellError::Cancelled { span: *span },
            ShellError::Downstream { msg, span } => ShellError::Downstream {
                msg: msg.clone(),
                span: *span,
            },
        }
    }
}

impl ShellError {
    /// The failure that a text that is no integer gives: it names the text.
    pub fn invalid_integer(text: &str, span: Span) -> (e: ShellError)
        ensures
            e@ == invalid_integer(text@, span),
    {
        let help = String::from_str("string \"").concat(text).concat(
            "\" does not represent a valid integer",
        );
        ShellError::CantConvert {
            to_type: String::from_str("int"),
            from_type: String::from_str("string"),
            span,
            help: Some(help),
        }
    }

    /// The class that this failure belongs to.
    pub fn kind(&self) -> (k: ErrorKind)
        ensures
            k == self@.kind(),
    {
        match self {
            ShellError::UnknownFlag { .. } => ErrorKind::ArgumentBinding,
            ShellError::MissingArgument { .. } => ErrorKind::ArgumentBinding,
            ShellError::ExtraArgument { .. } => ErrorKind::ArgumentBinding,
            ShellError::MissingFlagValue { .. } => ErrorKind::ArgumentBinding,
            ShellError::UnexpectedFlagValue { .. } => ErrorKind::ArgumentBinding,
            ShellError::CantConvert { .. } => ErrorKind::TypeConversion,
            ShellError::VariableNotFound { .. } => ErrorKind::VariableResolution,
            ShellError::Cancelled { .. } => ErrorKind::Cancelled,
            ShellError::Downstream { .. } => ErrorKind::Downstream,
        }
    }

    /// The place in the source text that this failure points at.
    pub fn span(&self) -> (s: Span)
        ensures
            s == self@.span(),
    {
        match self {
            ShellError::UnknownFlag { span, .. } => *span,
            ShellError::MissingArgument { span, .. } => *span,
            ShellError::ExtraArgument { span } => *span,
            ShellError::MissingFlagValue { span, .. } => *span,
            ShellError::UnexpectedFlagValue { span, .. } => *span,
            ShellError::CantConvert { span, .. } => *span,
            ShellError::VariableNotFound { span, .. } => *span,
            ShellError::Cancelled { span } => *span,
            ShellError::Downstream { span, .. } => *span,
        }
    }

    /// The hint for the user, where the failure carries one.
    pub fn help(&self) -> (h: Option<String>)
        ensures
            opt_string_view(h) == self@.help(),
    {
        match self {
            ShellError::CantConvert { help, .. } => clone_opt_string(help),
            _ => None,
        }
    }
}

} // verus!
