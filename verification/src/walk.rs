//! The walk itself: the loop over the tokens and the check that follows it.
use vstd::prelude::*;
use crate::argument::{argument_views, Argument};
use crate::parameter::Parameter;
use crate::scan::{
    lemma_selection_in_range, lemma_selection_is_first, missing_among, missing_reasons, reading,
    scan, selection, step, views, AbortReason, ScanState,
};
use crate::text::{parse_bool, parse_integer, same_text};
use crate::value::{ParameterType, ParameterValue, ValueView};

verus! {

/// The slot of the first of `parameters` that `token` selects, if it
/// selects any.
pub(crate) fn find_selected(parameters: &Vec<Parameter>, token: &str) -> (found: Option<usize>)
    ensures
        match found {
            Some(i) => selection(views(parameters@), token@) == Some(i as int),
            None => selection(views(parameters@), token@) is None,
        },
{
    let mut i: usize = 0;
    while i < parameters.len()
        invariant
            i <= parameters.len(),
            forall|j: int| 0 <= j < i ==> !(#[trigger] views(parameters@)[j]).answers_to(token@),
        decreases parameters.len() - i,
    {
        if parameters[i].answers_to(token) {
            proof {
                lemma_selection_is_first(views(parameters@), token@, i as int);
            }
            return Some(i);
        }
        i += 1;
    }
    None
}

/// The value that a parameter of type `kind` reads from `argument`, if
/// the argument reads as one.
pub fn read_value(kind: ParameterType, argument: &Argument) -> (value: Option<ParameterValue>)
    ensures
        match value {
            Some(v) => reading(kind, argument@) == Some(v@),
            None => reading(kind, argument@) is None,
        },
{
    match kind {
        ParameterType::Flag => Some(ParameterValue::Flag),
        ParameterType::Integer => match parse_integer(argument.text()) {
            Some(v) => Some(ParameterValue::Integer(v)),
            None => None,
        },
        ParameterType::Float => match argument.float() {
            Some(v) => Some(ParameterValue::Float(v)),
            None => None,
        },
        ParameterType::Path => Some(ParameterValue::Path(argument.text().to_owned())),
        ParameterType::String => Some(ParameterValue::String(argument.text().to_owned())),
        ParameterType::Bool => match parse_bool(argument.text()) {
            Some(v) => Some(ParameterValue::Bool(v)),
            None => None,
        },
    }
}

/// Handles the token at `position`, as [`step`] says, and returns the
/// position of the next token and whether the walk has ended.
pub(crate) fn handle_token(
    parameters: &mut Vec<Parameter>,
    reasons: &mut Vec<AbortReason>,
    arguments: &Vec<Argument>,
    position: usize,
) -> (next: (usize, bool))
    requires
        position < arguments.len(),
    ensures
        (ScanState {
            parameters: views(final(parameters)@),
            reasons: final(reasons)@,
            position: next.0 as nat,
            stopped: next.1,
        }) == step(
            ScanState {
                parameters: views(old(parameters)@),
                reasons: old(reasons)@,
                position: position as nat,
                stopped: false,
            },
            argument_views(arguments@),
        ),
{
    let ghost before = ScanState {
        parameters: views(parameters@),
        reasons: reasons@,
        position: position as nat,
        stopped: false,
    };
    let token = arguments[position].text();
    if same_text(token, "--help") || same_text(token, "--h") {
        reasons.push(AbortReason::HelpRequested);
        return (position + 1, true);
    }
    if same_text(token, "--version") || same_text(token, "--v") {
        reasons.push(AbortReason::VersionRequested);
        return (position + 1, true);
    }
    let i = match find_selected(parameters, token) {
        Some(i) => i,
        None => {
            reasons.push(AbortReason::UnknownToken { position });
            return (position + 1, true);
        },
    };
    proof {
        lemma_selection_in_range(views(parameters@), token@);
    }
    let kind = parameters[i].parameter_type();
    let allow_empty = parameters[i].allow_empty();
    match kind {
        ParameterType::Flag => {
            parameters[i].store(ParameterValue::Flag);
            assert(views(parameters@) =~= before.store(i as int, ValueView::Flag, 1).parameters);
            return (position + 1, false);
        },
        _ => {},
    }
    if position + 1 >= arguments.len() {
        if !allow_empty {
            reasons.push(AbortReason::MissingValue { parameter: i });
        }
        return (position + 1, false);
    }
    let argument = &arguments[position + 1];
    if argument.text().is_empty() {
        if !allow_empty {
            reasons.push(AbortReason::MissingValue { parameter: i });
        }
        return (position + 2, false);
    }
    match read_value(kind, argument) {
        Some(value) => {
            let ghost stored = value@;
            parameters[i].store(value);
            assert(views(parameters@) =~= before.store(i as int, stored, 2).parameters);
        },
        None => {
            reasons.push(AbortReason::ConversionFailure { parameter: i, position: position + 1 });
        },
    }
    (position + 2, false)
}

/// Walks over `arguments` from the first token on, as [`scan`] says, and
/// returns the reasons to stop in the order in which they arose.
pub(crate) fn walk(parameters: &mut Vec<Parameter>, arguments: &Vec<Argument>) -> (reasons: Vec<
    AbortReason,
>)
    ensures
        views(final(parameters)@) == scan(
            ScanState::start(views(old(parameters)@)),
            argument_views(arguments@),
        ).parameters,
        reasons@ == scan(
            ScanState::start(views(old(parameters)@)),
            argument_views(arguments@),
        ).reasons,
{
    let ghost start = ScanState::start(views(parameters@));
    let mut reasons: Vec<AbortReason> = Vec::new();
    let mut position: usize = 0;
    let mut stopped = false;
    while position < arguments.len() && !stopped
        invariant
            scan(
                ScanState {
                    parameters: views(parameters@),
                    reasons: reasons@,
                    position: position as nat,
                    stopped,
                },
                argument_views(arguments@),
            ) == scan(start, argument_views(arguments@)),
        decreases arguments.len() - position,
    {
        let next = handle_token(parameters, &mut reasons, arguments, position);
        position = next.0;
        stopped = next.1;
    }
    reasons
}

/// Lists the parameters that must not be empty and are unset.
pub(crate) fn find_missing(parameters: &Vec<Parameter>) -> (reasons: Vec<AbortReason>)
    ensures
        reasons@ == missing_reasons(views(parameters@)),
{
    let mut reasons: Vec<AbortReason> = Vec::new();
    let mut i: usize = 0;
    while i < parameters.len()
        invariant
            i <= parameters.len(),
            reasons@ == missing_among(views(parameters@), i as nat),
        decreases parameters.len() - i,
    {
        if !parameters[i].allow_empty() && parameters[i].get_value().is_none() {
            reasons.push(AbortReason::MissingRequiredParameter { parameter: i });
        }
        i += 1;
    }
    reasons
}

} // verus!
