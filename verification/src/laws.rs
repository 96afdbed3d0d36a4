//! What holds of every declaration and of every parse.
use vstd::prelude::*;
use crate::parameter::{dash_alias, declared_aliases, slash_alias, with_alias, ParameterView};
use crate::argument::ArgumentView;
use crate::scan::{
    is_help_token, is_version_token, lemma_scan_keeps_declarations, lemma_selection_ignores_values,
    lemma_selection_in_range, lemma_step_keeps_declarations, missing_among, missing_reasons,
    outcome, scan, selection, step, AbortReason, ParseStatus, ScanState,
};
use crate::text::integer_reading;
use crate::value::{AccessError, FloatView, ParameterType, ValueView};

verus! {

/// How many times `alias` stands in `aliases`.
pub open spec fn occurrences(aliases: Seq<Seq<char>>, alias: Seq<char>) -> nat
    decreases aliases.len(),
{
    if aliases.len() == 0 {
        0
    } else if aliases.last() == alias {
        occurrences(aliases.drop_last(), alias) + 1
    } else {
        occurrences(aliases.drop_last(), alias)
    }
}

/// An alias stands in a list at least once exactly if the list holds it.
pub proof fn lemma_occurrences_of_held(aliases: Seq<Seq<char>>, alias: Seq<char>)
    ensures
        aliases.contains(alias) <==> occurrences(aliases, alias) > 0,
    decreases aliases.len(),
{
    if aliases.len() > 0 {
        let front = aliases.drop_last();
        lemma_occurrences_of_held(front, alias);
        if aliases.last() == alias {
            assert(aliases[aliases.len() - 1] == alias);
        } else if aliases.contains(alias) {
            let k = choose|k: int| 0 <= k < aliases.len() && aliases[k] == alias;
            assert(front[k] == alias);
        } else if front.contains(alias) {
            let k = choose|k: int| 0 <= k < front.len() && front[k] == alias;
            assert(aliases[k] == alias);
        }
    }
}

/// Adding an alias counts it once more and leaves every other count.
pub proof fn lemma_occurrences_after_push(
    aliases: Seq<Seq<char>>,
    added: Seq<char>,
    alias: Seq<char>,
)
    ensures
        occurrences(aliases.push(added), alias) == occurrences(aliases, alias) + if added
            == alias {
            1nat
        } else {
            0nat
        },
{
    assert(aliases.push(added).drop_last() =~= aliases);
}

/// What [`with_alias`] does to the count of any alias: the added alias is
/// counted once if it was not held, and nothing else changes.
pub proof fn lemma_occurrences_with_alias(
    aliases: Seq<Seq<char>>,
    added: Seq<char>,
    alias: Seq<char>,
)
    ensures
        occurrences(with_alias(aliases, added), alias) == if alias == added && occurrences(
            aliases,
            alias,
        ) == 0 {
            1nat
        } else {
            occurrences(aliases, alias)
        },
{
    lemma_occurrences_of_held(aliases, added);
    lemma_occurrences_after_push(aliases, added, alias);
}

/// The slash alias and the dash alias of a name are different tokens.
pub proof fn lemma_canonical_aliases_differ(name: Seq<char>)
    ensures
        slash_alias(name) != dash_alias(name),
{
    reveal_strlit("/");
    reveal_strlit("--");
    assert(slash_alias(name)[0] == '/');
    assert(dash_alias(name)[0] == '-');
}

/// Every parameter answers to the slash alias and to the dash alias of its
/// name, whatever aliases it was declared with. The declaration adds
/// neither twice: each stands in the parameter's list once, unless the
/// caller's own list held it more often, and then as often as there. Every
/// other alias stands in it as often as in the caller's list.
pub proof fn lemma_canonical_aliases(name: Seq<char>, extra: Seq<Seq<char>>, alias: Seq<char>)
    ensures
        declared_aliases(name, extra).contains(slash_alias(name)),
        declared_aliases(name, extra).contains(dash_alias(name)),
        occurrences(declared_aliases(name, extra), alias) == if (alias == slash_alias(name)
            || alias == dash_alias(name)) && occurrences(extra, alias) == 0 {
            1nat
        } else {
            occurrences(extra, alias)
        },
{
    let slash = slash_alias(name);
    let dash = dash_alias(name);
    let first = with_alias(extra, slash);
    let both = with_alias(first, dash);
    lemma_canonical_aliases_differ(name);
    lemma_occurrences_with_alias(extra, slash, alias);
    lemma_occurrences_with_alias(first, dash, alias);
    lemma_occurrences_with_alias(extra, slash, slash);
    lemma_occurrences_with_alias(first, dash, slash);
    lemma_occurrences_with_alias(extra, slash, dash);
    lemma_occurrences_with_alias(first, dash, dash);
    lemma_occurrences_of_held(both, slash);
    lemma_occurrences_of_held(both, dash);
}

/// Where the caller's list holds the slash alias and the dash alias at
/// most once each, the parameter's list holds each exactly once.
pub proof fn lemma_canonical_aliases_once(name: Seq<char>, extra: Seq<Seq<char>>)
    requires
        occurrences(extra, slash_alias(name)) <= 1,
        occurrences(extra, dash_alias(name)) <= 1,
    ensures
        occurrences(declared_aliases(name, extra), slash_alias(name)) == 1,
        occurrences(declared_aliases(name, extra), dash_alias(name)) == 1,
{
    lemma_canonical_aliases(name, extra, slash_alias(name));
    lemma_canonical_aliases(name, extra, dash_alias(name));
}

/// Whether the token at `position` selects slot `i` and is no help or
/// version token.
pub open spec fn token_selects(
    state: ScanState,
    arguments: Seq<ArgumentView>,
    i: int,
) -> bool {
    &&& state.position < arguments.len()
    &&& !is_help_token(arguments[state.position as int].text)
    &&& !is_version_token(arguments[state.position as int].text)
    &&& selection(state.parameters, arguments[state.position as int].text) == Some(i)
}

/// A token that selects a flag sets the flag and takes no other token:
/// the token after it is handled as a token of its own.
pub proof fn lemma_flag_takes_one_token(state: ScanState, arguments: Seq<ArgumentView>, i: int)
    requires
        !state.stopped,
        token_selects(state, arguments, i),
        state.parameters[i].kind == ParameterType::Flag,
    ensures
        step(state, arguments).position == state.position + 1,
        !step(state, arguments).stopped,
        step(state, arguments).reasons == state.reasons,
        step(state, arguments).parameters == state.parameters.update(
            i,
            state.parameters[i].holding(ValueView::Flag),
        ),
        scan(state, arguments) == scan(state.store(i, ValueView::Flag, 1), arguments),
{
}

/// A flag followed by a text parameter and its value: the flag is set and
/// the text parameter receives the value. The flag has not taken the alias
/// of the text parameter for its own value.
pub proof fn lemma_flag_then_text(
    parameters: Seq<ParameterView>,
    aborted: bool,
    flag: ArgumentView,
    alias: ArgumentView,
    value: ArgumentView,
    i: int,
    j: int,
)
    requires
        !is_help_token(flag.text),
        !is_version_token(flag.text),
        !is_help_token(alias.text),
        !is_version_token(alias.text),
        selection(parameters, flag.text) == Some(i),
        selection(parameters, alias.text) == Some(j),
        parameters[i].kind == ParameterType::Flag,
        parameters[j].kind == ParameterType::String,
        value.text.len() > 0,
    ensures
        outcome(parameters, aborted, seq![flag, alias, value]).parameters[i].value
            == ValueView::Flag,
        outcome(parameters, aborted, seq![flag, alias, value]).parameters[j].value
            == ValueView::String(value.text),
        scan(ScanState::start(parameters), seq![flag, alias, value]).reasons.len() == 0,
{
    let arguments = seq![flag, alias, value];
    let start = ScanState::start(parameters);
    let first = step(start, arguments);
    let second = step(first, arguments);
    lemma_selection_in_range(parameters, flag.text);
    lemma_selection_in_range(parameters, alias.text);
    lemma_step_keeps_declarations(start, arguments);
    lemma_selection_ignores_values(parameters, first.parameters, alias.text);
    assert(scan(start, arguments) == scan(first, arguments));
    assert(scan(first, arguments) == scan(second, arguments));
    assert(scan(second, arguments) == second);
}

/// A token that selects a parameter of any other type takes the token
/// after it as its value, whatever that token looks like: the walk goes on
/// behind the value.
pub proof fn lemma_value_is_not_a_token(state: ScanState, arguments: Seq<ArgumentView>, i: int)
    requires
        !state.stopped,
        token_selects(state, arguments, i),
        state.parameters[i].kind != ParameterType::Flag,
        state.position + 1 < arguments.len(),
    ensures
        step(state, arguments).position == state.position + 2,
        !step(state, arguments).stopped,
{
}

/// One token changes the value of no parameter but the first that it
/// selects.
pub proof fn lemma_step_touches_selected_only(
    state: ScanState,
    arguments: Seq<ArgumentView>,
    j: int,
)
    requires
        state.position < arguments.len(),
        0 <= j < state.parameters.len(),
        selection(state.parameters, arguments[state.position as int].text) != Some(j),
    ensures
        step(state, arguments).parameters[j] == state.parameters[j],
{
    lemma_selection_in_range(state.parameters, arguments[state.position as int].text);
}

/// A value that one token stores has the type of its parameter.
pub proof fn lemma_step_stores_typed_values(
    state: ScanState,
    arguments: Seq<ArgumentView>,
    j: int,
)
    requires
        state.position < arguments.len(),
        0 <= j < state.parameters.len(),
    ensures
        step(state, arguments).parameters[j].value == state.parameters[j].value || step(
            state,
            arguments,
        ).parameters[j].value.has_type(state.parameters[j].kind),
{
    lemma_selection_in_range(state.parameters, arguments[state.position as int].text);
}

/// After parsing, each parameter holds the value it held before or a
/// value of its own type.
pub proof fn lemma_scan_stores_typed_values(
    state: ScanState,
    arguments: Seq<ArgumentView>,
    j: int,
)
    requires
        0 <= j < state.parameters.len(),
    ensures
        scan(state, arguments).parameters[j].value == state.parameters[j].value || scan(
            state,
            arguments,
        ).parameters[j].value.has_type(state.parameters[j].kind),
    decreases arguments.len() - state.position,
{
    if !state.stopped && state.position < arguments.len() {
        let next = step(state, arguments);
        lemma_step_stores_typed_values(state, arguments, j);
        lemma_step_keeps_declarations(state, arguments);
        lemma_scan_stores_typed_values(next, arguments, j);
    }
}

/// A well-formed integer token, read as the value of an integer parameter,
/// is stored and reads back as the number it writes. Any other token
/// changes no parameter: if it is empty, it counts as no value; if it is not,
/// it is a conversion failure.
pub proof fn lemma_integer_token(state: ScanState, arguments: Seq<ArgumentView>, i: int)
    requires
        !state.stopped,
        token_selects(state, arguments, i),
        state.parameters[i].kind == ParameterType::Integer,
        state.position + 1 < arguments.len(),
    ensures
        match integer_reading(arguments[state.position as int + 1].text) {
            Some(v) => {
                &&& step(state, arguments).parameters[i].read_integer() == Ok::<i64, AccessError>(v)
                &&& step(state, arguments).reasons == state.reasons
            },
            None => {
                &&& step(state, arguments).parameters == state.parameters
                &&& step(state, arguments).reasons == if arguments[state.position as int
                    + 1].text.len() > 0 {
                    state.reasons.push(
                        AbortReason::ConversionFailure {
                            parameter: i as usize,
                            position: (state.position + 1) as usize,
                        },
                    )
                } else if state.parameters[i].allow_empty {
                    state.reasons
                } else {
                    state.reasons.push(AbortReason::MissingValue { parameter: i as usize })
                }
            },
        },
{
    lemma_selection_in_range(state.parameters, arguments[state.position as int].text);
}

/// Parsing an alias of an integer parameter followed by a well-formed
/// integer token leaves the parameter reading as the number written, and
/// the walk gives no reason to stop. Followed by a token that is not empty
/// and not well-formed, parsing is aborted with one reason, a conversion
/// failure for that parameter, and no value has changed.
pub proof fn lemma_integer_round_trip(
    parameters: Seq<ParameterView>,
    aborted: bool,
    alias: ArgumentView,
    value: ArgumentView,
    i: int,
)
    requires
        !is_help_token(alias.text),
        !is_version_token(alias.text),
        selection(parameters, alias.text) == Some(i),
        parameters[i].kind == ParameterType::Integer,
    ensures
        match integer_reading(value.text) {
            Some(v) => {
                &&& outcome(parameters, aborted, seq![alias, value]).parameters[i].read_integer()
                    == Ok::<i64, AccessError>(v)
                &&& scan(ScanState::start(parameters), seq![alias, value]).reasons.len() == 0
            },
            None => value.text.len() > 0 ==> {
                &&& outcome(parameters, aborted, seq![alias, value]).parameters == parameters
                &&& outcome(parameters, aborted, seq![alias, value]).reasons
                    == seq![AbortReason::ConversionFailure { parameter: i as usize, position: 1 }]
                &&& outcome(parameters, aborted, seq![alias, value]).status == ParseStatus::Aborted
            },
        },
{
    let arguments = seq![alias, value];
    let start = ScanState::start(parameters);
    lemma_integer_token(start, arguments, i);
    let next = step(start, arguments);
    assert(scan(next, arguments) == next);
    assert(start.reasons.push(
        AbortReason::ConversionFailure { parameter: i as usize, position: 1 },
    ) =~= seq![AbortReason::ConversionFailure { parameter: i as usize, position: 1 }]);
}

/// A token that is not empty, read as the value of a path or text
/// parameter, is stored as it is written, whatever it holds, and reads back
/// so.
pub proof fn lemma_verbatim_token(state: ScanState, arguments: Seq<ArgumentView>, i: int)
    requires
        !state.stopped,
        token_selects(state, arguments, i),
        state.parameters[i].kind == ParameterType::Path || state.parameters[i].kind
            == ParameterType::String,
        state.position + 1 < arguments.len(),
        arguments[state.position as int + 1].text.len() > 0,
    ensures
        step(state, arguments).reasons == state.reasons,
        state.parameters[i].kind == ParameterType::Path ==> step(
            state,
            arguments,
        ).parameters[i].read_path() == Ok::<Seq<char>, AccessError>(
            arguments[state.position as int + 1].text,
        ),
        state.parameters[i].kind == ParameterType::String ==> step(
            state,
            arguments,
        ).parameters[i].read_text() == Ok::<Seq<char>, AccessError>(
            arguments[state.position as int + 1].text,
        ),
{
    lemma_selection_in_range(state.parameters, arguments[state.position as int].text);
}

/// An unset parameter that may be empty reads as the zero of every type:
/// zero, positive zero, the empty path, the empty text, `false`.
pub proof fn lemma_unset_optional_reads_zero(parameter: ParameterView)
    requires
        parameter.value is Unset,
        parameter.allow_empty,
    ensures
        parameter.read_integer() == Ok::<i64, AccessError>(0),
        parameter.read_float() == Ok::<FloatView, AccessError>(FloatView { bits: 0, text: "0"@ }),
        parameter.read_path() == Ok::<Seq<char>, AccessError>(Seq::empty()),
        parameter.read_text() == Ok::<Seq<char>, AccessError>(Seq::empty()),
        parameter.read_bool() == Ok::<bool, AccessError>(false),
{
}

/// An unset parameter that must not be empty fails every read, as not set.
pub proof fn lemma_unset_required_reads_fail(parameter: ParameterView)
    requires
        parameter.value is Unset,
        !parameter.allow_empty,
    ensures
        parameter.read_integer() == Err::<i64, AccessError>(AccessError::ValueNotSet),
        parameter.read_float() == Err::<FloatView, AccessError>(AccessError::ValueNotSet),
        parameter.read_path() == Err::<Seq<char>, AccessError>(AccessError::ValueNotSet),
        parameter.read_text() == Err::<Seq<char>, AccessError>(AccessError::ValueNotSet),
        parameter.read_bool() == Err::<bool, AccessError>(AccessError::ValueNotSet),
{
}

/// A set parameter read as another type than it holds fails, as of the
/// wrong type; read as its own type it gives its payload.
pub proof fn lemma_typed_reads(parameter: ParameterView)
    requires
        !(parameter.value is Unset),
    ensures
        parameter.read_integer() == parameter.value.as_integer(),
        parameter.read_float() == parameter.value.as_float(),
        parameter.read_path() == parameter.value.as_path(),
        parameter.read_text() == parameter.value.as_text(),
        parameter.read_bool() == parameter.value.as_bool(),
        parameter.value is Integer <==> parameter.read_integer() is Ok,
        parameter.value is Float <==> parameter.read_float() is Ok,
        parameter.value is Path <==> parameter.read_path() is Ok,
        parameter.value is String <==> parameter.read_text() is Ok,
        parameter.value is Bool <==> parameter.read_bool() is Ok,
{
}

/// The reasons that the check for missing values gives are exactly the
/// slots that must not be empty and are unset, each once, in rising order.
pub proof fn lemma_missing_among(parameters: Seq<ParameterView>, count: nat)
    requires
        count <= parameters.len() <= usize::MAX,
    ensures
        forall|k: int|
            0 <= k < missing_among(parameters, count).len() ==> match #[trigger] missing_among(
                parameters,
                count,
            )[k] {
                AbortReason::MissingRequiredParameter { parameter } => parameter < count
                    && parameters[parameter as int].is_missing(),
                _ => false,
            },
        forall|i: int|
            0 <= i < count && (#[trigger] parameters[i]).is_missing() ==> missing_among(
                parameters,
                count,
            ).contains(AbortReason::MissingRequiredParameter { parameter: i as usize }),
        forall|k: int, l: int|
            0 <= k < l < missing_among(parameters, count).len() ==> (#[trigger] missing_among(
                parameters,
                count,
            )[k])->MissingRequiredParameter_parameter < (#[trigger] missing_among(
                parameters,
                count,
            )[l])->MissingRequiredParameter_parameter,
    decreases count,
{
    if count > 0 {
        let earlier = missing_among(parameters, (count - 1) as nat);
        let all = missing_among(parameters, count);
        lemma_missing_among(parameters, (count - 1) as nat);
        assert forall|i: int| 0 <= i < count && (#[trigger] parameters[i]).is_missing() implies all.contains(
            AbortReason::MissingRequiredParameter { parameter: i as usize },
        ) by {
            if i < count - 1 {
                let k = choose|k: int|
                    0 <= k < earlier.len() && earlier[k]
                        == (AbortReason::MissingRequiredParameter { parameter: i as usize });
                assert(all[k] == earlier[k]);
            } else {
                assert(all[all.len() - 1] == AbortReason::MissingRequiredParameter {
                    parameter: i as usize,
                });
            }
        }
    }
}

/// When the walk gave no reason to stop and the abort flag was down, a
/// parameter that must not be empty and is still unset makes parsing end as
/// missing a required parameter, with a reason that names its slot; and
/// parsing ends so only if there is such a parameter.
pub proof fn lemma_missing_required(
    parameters: Seq<ParameterView>,
    arguments: Seq<ArgumentView>,
)
    requires
        parameters.len() <= usize::MAX,
        scan(ScanState::start(parameters), arguments).reasons.len() == 0,
    ensures
        outcome(parameters, false, arguments).status == ParseStatus::MissingRequired <==> exists|
            i: int,
        |
            0 <= i < parameters.len() && (#[trigger] scan(
                ScanState::start(parameters),
                arguments,
            ).parameters[i]).is_missing(),
        forall|i: int|
            0 <= i < parameters.len() && (#[trigger] scan(
                ScanState::start(parameters),
                arguments,
            ).parameters[i]).is_missing() ==> outcome(parameters, false, arguments).reasons.contains(
                AbortReason::MissingRequiredParameter { parameter: i as usize },
            ),
        outcome(parameters, false, arguments).status != ParseStatus::Aborted,
{
    let end = scan(ScanState::start(parameters), arguments).parameters;
    lemma_scan_keeps_declarations(ScanState::start(parameters), arguments);
    lemma_missing_among(end, end.len());
    let missing = missing_reasons(end);
    if missing.len() > 0 {
        match missing[0] {
            AbortReason::MissingRequiredParameter { parameter } => {
                assert(end[parameter as int].is_missing());
            },
            _ => {},
        }
    }
}

/// A help token at the head of the command line ends parsing at once: no
/// value changes, and the one reason to stop is the request for help.
pub proof fn lemma_help_changes_nothing(
    parameters: Seq<ParameterView>,
    aborted: bool,
    arguments: Seq<ArgumentView>,
)
    requires
        arguments.len() > 0,
        is_help_token(arguments[0].text),
    ensures
        outcome(parameters, aborted, arguments).parameters == parameters,
        outcome(parameters, aborted, arguments).reasons == seq![AbortReason::HelpRequested],
        outcome(parameters, aborted, arguments).status == ParseStatus::Aborted,
{
    let start = ScanState::start(parameters);
    let next = step(start, arguments);
    assert(scan(start, arguments) == scan(next, arguments));
    assert(next.reasons =~= seq![AbortReason::HelpRequested]);
}

/// A version token at the head of the command line ends parsing at once:
/// no value changes, and the one reason to stop is the request for the
/// version.
pub proof fn lemma_version_changes_nothing(
    parameters: Seq<ParameterView>,
    aborted: bool,
    arguments: Seq<ArgumentView>,
)
    requires
        arguments.len() > 0,
        is_version_token(arguments[0].text),
    ensures
        outcome(parameters, aborted, arguments).parameters == parameters,
        outcome(parameters, aborted, arguments).reasons == seq![AbortReason::VersionRequested],
        outcome(parameters, aborted, arguments).status == ParseStatus::Aborted,
{
    reveal_strlit("--help");
    reveal_strlit("--h");
    reveal_strlit("--version");
    reveal_strlit("--v");
    let start = ScanState::start(parameters);
    let next = step(start, arguments);
    assert("--version"@.len() == 9);
    assert("--v"@.len() == 3);
    assert("--help"@.len() == 6);
    assert("--h"@[2] == 'h');
    assert("--v"@[2] == 'v');
    assert(!is_help_token(arguments[0].text));
    assert(scan(start, arguments) == scan(next, arguments));
    assert(next.reasons =~= seq![AbortReason::VersionRequested]);
}

/// Whether `reason` is one that a token gives.
pub open spec fn comes_from_a_token(reason: AbortReason) -> bool {
    !(reason is MissingRequiredParameter)
}

/// Whether `reason` is one that ends the walk.
pub open spec fn ends_the_walk(reason: AbortReason) -> bool {
    reason is HelpRequested || reason is VersionRequested || reason is UnknownToken
}

/// Whether every reason of `reasons` from `from` on comes from a token, and
/// none but the last ends the walk.
pub open spec fn walk_reasons(reasons: Seq<AbortReason>, from: int) -> bool {
    &&& forall|k: int| from <= k < reasons.len() ==> comes_from_a_token(#[trigger] reasons[k])
    &&& forall|k: int| from <= k < reasons.len() - 1 ==> !ends_the_walk(#[trigger] reasons[k])
}

/// The walk only adds reasons, each from a token. It has ended at a token
/// exactly if it added a reason that ends the walk, and that reason is the
/// last.
pub proof fn lemma_scan_reasons(state: ScanState, arguments: Seq<ArgumentView>)
    requires
        !state.stopped,
    ensures
        state.reasons.is_prefix_of(scan(state, arguments).reasons),
        walk_reasons(scan(state, arguments).reasons, state.reasons.len() as int),
        scan(state, arguments).stopped <==> scan(state, arguments).reasons.len()
            > state.reasons.len() && ends_the_walk(scan(state, arguments).reasons.last()),
    decreases arguments.len() - state.position,
{
    if state.position < arguments.len() {
        let next = step(state, arguments);
        let end = scan(state, arguments);
        lemma_selection_in_range(state.parameters, arguments[state.position as int].text);
        assert(end == scan(next, arguments));
        if next.stopped {
            assert(scan(next, arguments) == next);
        } else {
            lemma_scan_reasons(next, arguments);
            if end.reasons.len() == next.reasons.len() && next.reasons.len() > state.reasons.len() {
                assert(end.reasons.last() == next.reasons.last());
            }
            assert forall|k: int| state.reasons.len() <= k < end.reasons.len() - 1 implies !ends_the_walk(
                #[trigger] end.reasons[k],
            ) by {
                if k < next.reasons.len() {
                    assert(end.reasons[k] == next.reasons[k]);
                }
            }
            assert forall|k: int| state.reasons.len() <= k < end.reasons.len() implies comes_from_a_token(
                #[trigger] end.reasons[k],
            ) by {
                if k < next.reasons.len() {
                    assert(end.reasons[k] == next.reasons[k]);
                }
            }
        }
    }
}

/// How parsing ends, by what it found. It is aborted exactly if the abort
/// flag was up or a token gave a reason to stop, and then every reason comes
/// from a token. It ends as missing a required parameter only with reasons
/// of that kind, at least one. It is complete only without any reason.
pub proof fn lemma_status(
    parameters: Seq<ParameterView>,
    aborted: bool,
    arguments: Seq<ArgumentView>,
)
    ensures
        outcome(parameters, aborted, arguments).status == ParseStatus::Aborted <==> aborted
            || scan(ScanState::start(parameters), arguments).reasons.len() > 0,
        outcome(parameters, aborted, arguments).status == ParseStatus::Aborted ==> forall|k: int|
            0 <= k < outcome(parameters, aborted, arguments).reasons.len() ==> comes_from_a_token(
                #[trigger] outcome(parameters, aborted, arguments).reasons[k],
            ),
        outcome(parameters, aborted, arguments).status == ParseStatus::MissingRequired ==> outcome(
            parameters,
            aborted,
            arguments,
        ).reasons.len() > 0 && forall|k: int|
            0 <= k < outcome(parameters, aborted, arguments).reasons.len() ==> !comes_from_a_token(
                #[trigger] outcome(parameters, aborted, arguments).reasons[k],
            ),
        outcome(parameters, aborted, arguments).status == ParseStatus::Complete ==> outcome(
            parameters,
            aborted,
            arguments,
        ).reasons.len() == 0,
{
    let end = scan(ScanState::start(parameters), arguments);
    lemma_scan_reasons(ScanState::start(parameters), arguments);
    lemma_missing_kinds(end.parameters, end.parameters.len());
}

/// The check for missing values gives reasons of one kind only.
pub proof fn lemma_missing_kinds(parameters: Seq<ParameterView>, count: nat)
    ensures
        forall|k: int|
            0 <= k < missing_among(parameters, count).len() ==> (#[trigger] missing_among(
                parameters,
                count,
            )[k]) is MissingRequiredParameter,
    decreases count,
{
    if count > 0 {
        lemma_missing_kinds(parameters, (count - 1) as nat);
    }
}

} // verus!
