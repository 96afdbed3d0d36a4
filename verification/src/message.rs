//! What the caller tells the user: one line for each reason to stop, and
//! the status the process ends with.
use vstd::prelude::*;
use vstd::string::StringExecFns;
use crate::parameter::{Parameter, ParameterView};
use crate::argument::{argument_views, Argument, ArgumentView};
use crate::scan::{views, AbortReason, ParseStatus};
use crate::value::ParameterType;

verus! {

/// The status with which the process ends after parsing was aborted.
pub const EXIT_ABORTED: i32 = -1;

/// The status with which the process ends after a parameter that must have
/// a value was found to have none.
pub const EXIT_MISSING_REQUIRED: i32 = -2;

/// The status with which the process is to end after parsing, if it is to
/// end.
pub open spec fn exit_code_of(status: ParseStatus) -> Option<i32> {
    match status {
        ParseStatus::Complete => None,
        ParseStatus::Aborted => Some(EXIT_ABORTED),
        ParseStatus::MissingRequired => Some(EXIT_MISSING_REQUIRED),
    }
}

/// The process goes on exactly when parsing is complete. Otherwise it ends
/// with a status that is not zero, and the status after an abort is not
/// the status after a missing parameter.
pub proof fn lemma_exit_codes(status: ParseStatus)
    ensures
        exit_code_of(status) is None <==> status == ParseStatus::Complete,
        exit_code_of(status) != Some(0i32),
        exit_code_of(ParseStatus::Aborted) != exit_code_of(ParseStatus::MissingRequired),
{
}

impl ParseStatus {
    /// The status with which the process is to end, if it is to end.
    pub fn exit_code(&self) -> (code: Option<i32>)
        ensures
            code == exit_code_of(*self),
    {
        match self {
            ParseStatus::Complete => None,
            ParseStatus::Aborted => Some(EXIT_ABORTED),
            ParseStatus::MissingRequired => Some(EXIT_MISSING_REQUIRED),
        }
    }
}

/// How a type whose values can fail to read is called in a message.
pub open spec fn type_word(kind: ParameterType) -> Option<Seq<char>> {
    match kind {
        ParameterType::Integer => Some("integer"@),
        ParameterType::Float => Some("float"@),
        ParameterType::Bool => Some("bool"@),
        _ => None,
    }
}

/// The line that tells the user of `reason`. A request for help or for
/// the version has no line of its own. Neither has a reason that names a
/// slot or a position that is not there, or a conversion failure for a
/// parameter of a type that reads every token.
pub open spec fn reason_text(
    reason: AbortReason,
    parameters: Seq<ParameterView>,
    arguments: Seq<ArgumentView>,
) -> Option<Seq<char>> {
    match reason {
        AbortReason::HelpRequested => None,
        AbortReason::VersionRequested => None,
        AbortReason::UnknownToken { position } => if position < arguments.len() {
            Some("Unknown parameter: "@ + arguments[position as int].text)
        } else {
            None
        },
        AbortReason::MissingValue { parameter } => if parameter < parameters.len() {
            Some("No value passed for parameter "@ + parameters[parameter as int].name)
        } else {
            None
        },
        AbortReason::ConversionFailure { parameter, position } => if parameter
            < parameters.len() {
            match type_word(parameters[parameter as int].kind) {
                Some(word) => Some(
                    "Unable to convert parameter "@ + parameters[parameter as int].name + " to "@
                        + word,
                ),
                None => None,
            }
        } else {
            None
        },
        AbortReason::MissingRequiredParameter { parameter } => if parameter < parameters.len() {
            Some("cmd arg "@ + parameters[parameter as int].name + " is no set"@)
        } else {
            None
        },
    }
}

/// The view of an optional text.
pub open spec fn text_option_view(text: Option<String>) -> Option<Seq<char>> {
    match text {
        Some(t) => Some(t@),
        None => None,
    }
}

/// The line that tells the user of `reason`, as [`reason_text`] says.
pub(crate) fn describe_reason(
    reason: AbortReason,
    parameters: &Vec<Parameter>,
    arguments: &Vec<Argument>,
) -> (line: Option<String>)
    ensures
        text_option_view(line) == reason_text(
            reason,
            views(parameters@),
            argument_views(arguments@),
        ),
{
    match reason {
        AbortReason::HelpRequested => None,
        AbortReason::VersionRequested => None,
        AbortReason::UnknownToken { position } => {
            if position < arguments.len() {
                Some(String::from_str("Unknown parameter: ").concat(arguments[position].text()))
            } else {
                None
            }
        },
        AbortReason::MissingValue { parameter } => {
            if parameter < parameters.len() {
                Some(
                    String::from_str("No value passed for parameter ").concat(
                        parameters[parameter].name(),
                    ),
                )
            } else {
                None
            }
        },
        AbortReason::ConversionFailure { parameter, position } => {
            if parameter < parameters.len() {
                let word = match parameters[parameter].parameter_type() {
                    ParameterType::Integer => "integer",
                    ParameterType::Float => "float",
                    ParameterType::Bool => "bool",
                    _ => {
                        return None;
                    },
                };
                Some(
                    String::from_str("Unable to convert parameter ").concat(
                        parameters[parameter].name(),
                    ).concat(" to ").concat(word),
                )
            } else {
                None
            }
        },
        AbortReason::MissingRequiredParameter { parameter } => {
            if parameter < parameters.len() {
                Some(
                    String::from_str("cmd arg ").concat(parameters[parameter].name()).concat(
                        " is no set",
                    ),
                )
            } else {
                None
            }
        },
    }
}

/// The text that answers a version token: the version text if one is set,
/// a standing line if none is.
pub open spec fn version_answer(version_text: Option<Seq<char>>) -> Seq<char> {
    match version_text {
        Some(text) => text,
        None => "No version text has been set."@,
    }
}

} // verus!
