//! The walk over the argument list: what each token does to the parameters.
use vstd::prelude::*;
use crate::argument::ArgumentView;
use crate::parameter::{Parameter, ParameterView};
use crate::text::{bool_reading, integer_reading};
use crate::value::{ParameterType, ValueView};

verus! {

/// Why parsing asks the caller to stop.
#[derive(Clone, Copy, Debug, PartialEq, Eq, Structural)]
pub enum AbortReason {
    /// A help token was read.
    HelpRequested,
    /// A version token was read.
    VersionRequested,
    /// The token at `position` selects no parameter.
    UnknownToken { position: usize },
    /// The parameter in slot `parameter` was selected, must not be empty,
    /// and was followed by no token or by an empty one.
    MissingValue { parameter: usize },
    /// The parameter in slot `parameter` was selected and the token at
    /// `position`, its value, does not read as a value of its type.
    ConversionFailure { parameter: usize, position: usize },
    /// The parameter in slot `parameter` must not be empty and was still
    /// unset when every token had been read without a reason to stop.
    MissingRequiredParameter { parameter: usize },
}

/// Whether `token` asks for the help text.
pub open spec fn is_help_token(token: Seq<char>) -> bool {
    token == "--help"@ || token == "--h"@
}

/// Whether `token` asks for the version text.
pub open spec fn is_version_token(token: Seq<char>) -> bool {
    token == "--version"@ || token == "--v"@
}

/// The views of a list of parameters, in order.
pub open spec fn views(parameters: Seq<Parameter>) -> Seq<ParameterView> {
    parameters.map_values(|p: Parameter| p@)
}

/// Whether slot `i` holds the first of `parameters` that `token` selects.
pub open spec fn is_selected(parameters: Seq<ParameterView>, token: Seq<char>, i: int) -> bool {
    &&& 0 <= i < parameters.len()
    &&& parameters[i].answers_to(token)
    &&& forall|j: int| 0 <= j < i ==> !(#[trigger] parameters[j]).answers_to(token)
}

/// The slot of the first of `parameters` that `token` selects, if it
/// selects any.
pub open spec fn selection(parameters: Seq<ParameterView>, token: Seq<char>) -> Option<int> {
    if exists|i: int| is_selected(parameters, token, i) {
        Some(choose|i: int| is_selected(parameters, token, i))
    } else {
        None
    }
}

/// The first selected slot is the selection.
pub proof fn lemma_selection_is_first(parameters: Seq<ParameterView>, token: Seq<char>, i: int)
    requires
        is_selected(parameters, token, i),
    ensures
        selection(parameters, token) == Some(i),
{
    let chosen = choose|k: int| is_selected(parameters, token, k);
    assert(is_selected(parameters, token, chosen));
    if chosen < i {
        assert(!parameters[chosen].answers_to(token));
    } else if i < chosen {
        assert(!parameters[i].answers_to(token));
    }
}

/// No parameter answers to a token that selects none.
pub proof fn lemma_selection_none(parameters: Seq<ParameterView>, token: Seq<char>)
    requires
        selection(parameters, token) is None,
    ensures
        forall|j: int| 0 <= j < parameters.len() ==> !(#[trigger] parameters[j]).answers_to(token),
{
    assert forall|j: int| 0 <= j < parameters.len() implies !(#[trigger] parameters[j]).answers_to(
        token,
    ) by {
        if parameters[j].answers_to(token) {
            lemma_first_answer_exists(parameters, token, j);
        }
    }
}

/// If some slot up to `j` answers to `token`, a first one does.
proof fn lemma_first_answer_exists(parameters: Seq<ParameterView>, token: Seq<char>, j: int)
    requires
        0 <= j < parameters.len(),
        parameters[j].answers_to(token),
    ensures
        exists|i: int| is_selected(parameters, token, i),
    decreases j,
{
    if forall|k: int| 0 <= k < j ==> !(#[trigger] parameters[k]).answers_to(token) {
        assert(is_selected(parameters, token, j));
    } else {
        let k = choose|k: int| 0 <= k < j && (#[trigger] parameters[k]).answers_to(token);
        lemma_first_answer_exists(parameters, token, k);
    }
}

/// The value that a parameter of type `kind` reads from `argument`, if
/// the argument reads as one.
pub open spec fn reading(kind: ParameterType, argument: ArgumentView) -> Option<ValueView> {
    match kind {
        ParameterType::Flag => Some(ValueView::Flag),
        ParameterType::Integer => match integer_reading(argument.text) {
            Some(v) => Some(ValueView::Integer(v)),
            None => None,
        },
        ParameterType::Float => match argument.float {
            Some(v) => Some(ValueView::Float(v)),
            None => None,
        },
        ParameterType::Path => Some(ValueView::Path(argument.text)),
        ParameterType::String => Some(ValueView::String(argument.text)),
        ParameterType::Bool => match bool_reading(argument.text) {
            Some(v) => Some(ValueView::Bool(v)),
            None => None,
        },
    }
}

/// Where the walk stands: the parameters as they are now, the reasons to
/// stop collected so far, the position of the next token, and whether a
/// token has ended the walk.
pub struct ScanState {
    pub parameters: Seq<ParameterView>,
    pub reasons: Seq<AbortReason>,
    pub position: nat,
    pub stopped: bool,
}

impl ScanState {
    /// The state before the first token.
    pub open spec fn start(parameters: Seq<ParameterView>) -> ScanState {
        ScanState { parameters, reasons: Seq::empty(), position: 0, stopped: false }
    }

    /// The state after one token that ends the walk for `reason`.
    pub open spec fn stop(self, reason: AbortReason) -> ScanState {
        ScanState {
            reasons: self.reasons.push(reason),
            position: self.position + 1,
            stopped: true,
            ..self
        }
    }

    /// The state after `consumed` tokens that stored `value` in slot `i`.
    pub open spec fn store(self, i: int, value: ValueView, consumed: nat) -> ScanState {
        ScanState {
            parameters: self.parameters.update(i, self.parameters[i].holding(value)),
            position: self.position + consumed,
            ..self
        }
    }

    /// The state after `consumed` tokens that gave slot `i` no value: a
    /// reason to stop unless the parameter may be empty.
    pub open spec fn skip(self, i: int, consumed: nat) -> ScanState {
        ScanState {
            reasons: if self.parameters[i].allow_empty {
                self.reasons
            } else {
                self.reasons.push(AbortReason::MissingValue { parameter: i as usize })
            },
            position: self.position + consumed,
            ..self
        }
    }

    /// The state after the two tokens of which the second could not be
    /// read as a value for slot `i`.
    pub open spec fn reject(self, i: int) -> ScanState {
        ScanState {
            reasons: self.reasons.push(
                AbortReason::ConversionFailure {
                    parameter: i as usize,
                    position: (self.position + 1) as usize,
                },
            ),
            position: self.position + 2,
            ..self
        }
    }
}

/// The state after the token at the state's position has been handled.
///
/// A help or version token ends the walk. So does a token that selects no
/// parameter. A token that selects a flag sets it. A token that selects
/// any other parameter takes the next token as its value: if there is none,
/// or it is empty, the parameter keeps its value, which is a reason to
/// stop unless the parameter may be empty; if it does not read as a value
/// of the parameter's type, that is a reason to stop; otherwise the value
/// read replaces the parameter's value.
pub open spec fn step(state: ScanState, arguments: Seq<ArgumentView>) -> ScanState
    recommends
        state.position < arguments.len(),
{
    let position = state.position as int;
    let token = arguments[position].text;
    if is_help_token(token) {
        state.stop(AbortReason::HelpRequested)
    } else if is_version_token(token) {
        state.stop(AbortReason::VersionRequested)
    } else {
        match selection(state.parameters, token) {
            None => state.stop(AbortReason::UnknownToken { position: position as usize }),
            Some(i) => {
                let kind = state.parameters[i].kind;
                if kind == ParameterType::Flag {
                    state.store(i, ValueView::Flag, 1)
                } else if position + 1 >= arguments.len() {
                    state.skip(i, 1)
                } else if arguments[position + 1].text.len() == 0 {
                    state.skip(i, 2)
                } else {
                    match reading(kind, arguments[position + 1]) {
                        Some(value) => state.store(i, value, 2),
                        None => state.reject(i),
                    }
                }
            },
        }
    }
}

/// The state in which the walk that goes on from `state` ends: tokens are
/// handled one after the other until one ends the walk or none is left.
pub open spec fn scan(state: ScanState, arguments: Seq<ArgumentView>) -> ScanState
    decreases arguments.len() - state.position,
{
    if state.stopped || state.position >= arguments.len() {
        state
    } else {
        scan(step(state, arguments), arguments)
    }
}

/// A selected slot is a slot.
pub proof fn lemma_selection_in_range(parameters: Seq<ParameterView>, token: Seq<char>)
    ensures
        match selection(parameters, token) {
            Some(i) => is_selected(parameters, token, i),
            None => true,
        },
{
}

/// The reasons to stop that the first `count` of `parameters` give once
/// every token has been read: one for each that must not be empty and is
/// unset, in the order of the slots.
pub open spec fn missing_among(parameters: Seq<ParameterView>, count: nat) -> Seq<AbortReason>
    decreases count,
{
    if count == 0 {
        Seq::empty()
    } else {
        let earlier = missing_among(parameters, (count - 1) as nat);
        if parameters[count - 1].is_missing() {
            earlier.push(AbortReason::MissingRequiredParameter { parameter: (count - 1) as usize })
        } else {
            earlier
        }
    }
}

/// The reasons to stop that `parameters` give once every token has been
/// read.
pub open spec fn missing_reasons(parameters: Seq<ParameterView>) -> Seq<AbortReason> {
    missing_among(parameters, parameters.len())
}

/// How parsing ended.
#[derive(Clone, Copy, Debug, PartialEq, Eq, Structural)]
pub enum ParseStatus {
    /// Every token was read and every parameter that must have a value has
    /// one.
    Complete,
    /// A token gave a reason to stop, or the abort flag was already set.
    Aborted,
    /// Every token was read, and a parameter that must have a value has
    /// none.
    MissingRequired,
}

/// What parsing leaves behind: the parameters, the reasons to stop, and
/// how it ended.
pub struct Outcome {
    pub parameters: Seq<ParameterView>,
    pub reasons: Seq<AbortReason>,
    pub status: ParseStatus,
}

/// What parsing `arguments` leaves behind, from `parameters` and from the
/// abort flag `aborted`. The walk comes first. If it gave a reason to
/// stop, or the flag was set before, parsing is aborted; only otherwise are
/// the parameters checked for missing values.
pub open spec fn outcome(
    parameters: Seq<ParameterView>,
    aborted: bool,
    arguments: Seq<ArgumentView>,
) -> Outcome {
    let end = scan(ScanState::start(parameters), arguments);
    if aborted || end.reasons.len() > 0 {
        Outcome { parameters: end.parameters, reasons: end.reasons, status: ParseStatus::Aborted }
    } else if missing_reasons(end.parameters).len() > 0 {
        Outcome {
            parameters: end.parameters,
            reasons: missing_reasons(end.parameters),
            status: ParseStatus::MissingRequired,
        }
    } else {
        Outcome {
            parameters: end.parameters,
            reasons: Seq::empty(),
            status: ParseStatus::Complete,
        }
    }
}

/// Whether `after` holds the parameters of `before`, slot by slot, with
/// nothing changed but their values.
pub open spec fn same_declarations(before: Seq<ParameterView>, after: Seq<ParameterView>) -> bool {
    &&& after.len() == before.len()
    &&& forall|i: int|
        0 <= i < before.len() ==> (#[trigger] after[i]) == before[i].holding(after[i].value)
}

/// One token changes nothing of the parameters but values.
pub proof fn lemma_step_keeps_declarations(state: ScanState, arguments: Seq<ArgumentView>)
    requires
        state.position < arguments.len(),
    ensures
        same_declarations(state.parameters, step(state, arguments).parameters),
{
    let token = arguments[state.position as int].text;
    lemma_selection_in_range(state.parameters, token);
}

/// Parsing changes nothing of the parameters but values: no slot comes or
/// goes, and each keeps its name, type, aliases, description and default.
pub proof fn lemma_scan_keeps_declarations(state: ScanState, arguments: Seq<ArgumentView>)
    ensures
        same_declarations(state.parameters, scan(state, arguments).parameters),
    decreases arguments.len() - state.position,
{
    if !state.stopped && state.position < arguments.len() {
        let next = step(state, arguments);
        lemma_step_keeps_declarations(state, arguments);
        lemma_scan_keeps_declarations(next, arguments);
        let end = scan(state, arguments).parameters;
        assert forall|i: int| 0 <= i < state.parameters.len() implies (#[trigger] end[i])
            == state.parameters[i].holding(end[i].value) by {
            assert(next.parameters[i] == state.parameters[i].holding(next.parameters[i].value));
        }
    }
}

/// Which parameter a token selects depends on the declarations alone, not
/// on the values that the parameters hold.
pub proof fn lemma_selection_ignores_values(
    before: Seq<ParameterView>,
    after: Seq<ParameterView>,
    token: Seq<char>,
)
    requires
        same_declarations(before, after),
    ensures
        selection(after, token) == selection(before, token),
{
    assert forall|i: int| is_selected(before, token, i) == is_selected(after, token, i) by {
        if 0 <= i < before.len() {
            assert(after[i].answers_to(token) == before[i].answers_to(token));
            if is_selected(before, token, i) {
                assert forall|j: int| 0 <= j < i implies !(#[trigger] after[j]).answers_to(
                    token,
                ) by {
                    assert(!before[j].answers_to(token));
                }
            }
            if is_selected(after, token, i) {
                assert forall|j: int| 0 <= j < i implies !(#[trigger] before[j]).answers_to(
                    token,
                ) by {
                    assert(!after[j].answers_to(token));
                }
            }
        }
    }
    match selection(before, token) {
        Some(i) => {
            lemma_selection_in_range(before, token);
            lemma_selection_is_first(after, token, i);
        },
        None => {
            if selection(after, token) is Some {
                lemma_selection_in_range(after, token);
                let i = selection(after, token).unwrap();
                assert(is_selected(before, token, i));
            }
        },
    }
}

} // verus!
