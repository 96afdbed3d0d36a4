//! The registry of declared parameters and the parse over it.
use vstd::prelude::*;
use vstd::string::StringExecFns;
use crate::argument::{argument_views, Argument};
use crate::help::{help_text, render_help};
use crate::message::{describe_reason, reason_text, text_option_view, version_answer};
use crate::parameter::{declared, texts, Parameter, ParameterView};
use crate::scan::{
    lemma_scan_keeps_declarations, outcome, same_declarations, views, AbortReason, ParseStatus,
    ScanState,
};
use crate::text::same_text;
use crate::value::{ParameterType, ParameterValue, ValueView};
use crate::walk::{find_missing, walk};

verus! {

/// Whether no two of `parameters` have the same name.
pub open spec fn names_differ(parameters: Seq<ParameterView>) -> bool {
    forall|i: int, j: int|
        0 <= i < j < parameters.len() ==> (#[trigger] parameters[i]).name != (
        #[trigger] parameters[j]).name
}

/// Whether slot `i` of `parameters` holds the parameter called `name`.
pub open spec fn is_slot_of(parameters: Seq<ParameterView>, name: Seq<char>, i: int) -> bool {
    0 <= i < parameters.len() && parameters[i].name == name
}

/// The slot of the parameter called `name`, if one is declared.
pub open spec fn slot_of(parameters: Seq<ParameterView>, name: Seq<char>) -> Option<int> {
    if exists|i: int| is_slot_of(parameters, name, i) {
        Some(choose|i: int| is_slot_of(parameters, name, i))
    } else {
        None
    }
}

/// `parameters` after `parameter` has been declared: it takes the slot of
/// the parameter that had its name, or else a new slot at the end.
pub open spec fn registered(
    parameters: Seq<ParameterView>,
    parameter: ParameterView,
) -> Seq<ParameterView> {
    match slot_of(parameters, parameter.name) {
        Some(i) => parameters.update(i, parameter),
        None => parameters.push(parameter),
    }
}

/// The slot that a declaration under `name` fills.
pub open spec fn slot_for(parameters: Seq<ParameterView>, name: Seq<char>) -> int {
    match slot_of(parameters, name) {
        Some(i) => i,
        None => parameters.len() as int,
    }
}

/// Where names differ, a name stands in at most one slot.
pub proof fn lemma_slot_is_unique(parameters: Seq<ParameterView>, name: Seq<char>, i: int)
    requires
        names_differ(parameters),
        is_slot_of(parameters, name, i),
    ensures
        slot_of(parameters, name) == Some(i),
{
    let chosen = choose|k: int| is_slot_of(parameters, name, k);
    if chosen < i {
        assert(parameters[chosen].name != parameters[i].name);
    } else if i < chosen {
        assert(parameters[i].name != parameters[chosen].name);
    }
}

/// A declaration keeps names apart.
pub proof fn lemma_registered_names_differ(
    parameters: Seq<ParameterView>,
    parameter: ParameterView,
)
    requires
        names_differ(parameters),
    ensures
        names_differ(registered(parameters, parameter)),
{
    let after = registered(parameters, parameter);
    assert forall|i: int, j: int| 0 <= i < j < after.len() implies (#[trigger] after[i]).name != (
    #[trigger] after[j]).name by {
        match slot_of(parameters, parameter.name) {
            Some(k) => {
                assert(is_slot_of(parameters, parameter.name, k));
                assert(parameters[i].name != parameters[j].name);
            },
            None => {
                if j == parameters.len() {
                    assert(!is_slot_of(parameters, parameter.name, i));
                } else {
                    assert(parameters[i].name != parameters[j].name);
                }
            },
        }
    }
}

/// Names that differed still differ where only values have changed.
pub proof fn lemma_same_names_differ(before: Seq<ParameterView>, after: Seq<ParameterView>)
    requires
        names_differ(before),
        same_declarations(before, after),
    ensures
        names_differ(after),
{
    assert forall|i: int, j: int| 0 <= i < j < after.len() implies (#[trigger] after[i]).name != (
    #[trigger] after[j]).name by {
        assert(before[i].name != before[j].name);
    }
}

/// After a declaration, the declared parameter is found under its name,
/// in the slot that the declaration filled, as it was declared. Every
/// other name is found where it was found before, with the parameter it
/// had before: the last declaration under a name is the one that counts.
pub proof fn lemma_registered_is_found(
    parameters: Seq<ParameterView>,
    parameter: ParameterView,
    other: Seq<char>,
)
    requires
        names_differ(parameters),
    ensures
        slot_of(registered(parameters, parameter), parameter.name) == Some(
            slot_for(parameters, parameter.name),
        ),
        registered(parameters, parameter)[slot_for(parameters, parameter.name)] == parameter,
        other != parameter.name ==> slot_of(registered(parameters, parameter), other) == slot_of(
            parameters,
            other,
        ),
        other != parameter.name ==> match slot_of(parameters, other) {
            Some(i) => registered(parameters, parameter)[i] == parameters[i],
            None => true,
        },
{
    let after = registered(parameters, parameter);
    let slot = slot_for(parameters, parameter.name);
    lemma_registered_names_differ(parameters, parameter);
    assert(is_slot_of(after, parameter.name, slot));
    lemma_slot_is_unique(after, parameter.name, slot);
    if other != parameter.name {
        match slot_of(parameters, other) {
            Some(i) => {
                assert(is_slot_of(parameters, other, i));
                assert(is_slot_of(after, other, i));
                lemma_slot_is_unique(after, other, i);
            },
            None => {
                if slot_of(after, other) is Some {
                    let k = slot_of(after, other).unwrap();
                    assert(is_slot_of(after, other, k));
                    assert(is_slot_of(parameters, other, k));
                }
            },
        }
    }
}

/// The declared parameters, the version text, and the abort flag.
#[derive(Debug)]
pub struct CommandLineProcessor {
    parameters: Vec<Parameter>,
    version_text: Option<String>,
    abort_flag: bool,
}

/// What a [`CommandLineProcessor`] holds.
pub struct ProcessorView {
    /// The declared parameters, by slot.
    pub parameters: Seq<ParameterView>,
    /// The version text, once it is set.
    pub version_text: Option<Seq<char>>,
    /// Whether parsing has asked the caller to stop.
    pub abort_flag: bool,
}

/// What parsing returns: how it ended and why it asks the caller to stop.
#[derive(Debug)]
pub struct ParseReport {
    /// How parsing ended.
    pub status: ParseStatus,
    /// The reasons to stop, in the order in which they arose.
    pub reasons: Vec<AbortReason>,
}

impl View for CommandLineProcessor {
    type V = ProcessorView;

    closed spec fn view(&self) -> ProcessorView {
        ProcessorView {
            parameters: views(self.parameters@),
            version_text: match self.version_text {
                Some(text) => Some(text@),
                None => None,
            },
            abort_flag: self.abort_flag,
        }
    }
}

impl CommandLineProcessor {
    #[verifier::type_invariant]
    spec fn names_are_keys(self) -> bool {
        names_differ(views(self.parameters@))
    }

    /// A processor with no parameter, no version text, and the abort flag
    /// down.
    pub fn new() -> (processor: CommandLineProcessor)
        ensures
            processor@ == (ProcessorView {
                parameters: Seq::empty(),
                version_text: None,
                abort_flag: false,
            }),
    {
        let processor = CommandLineProcessor {
            parameters: Vec::new(),
            version_text: None,
            abort_flag: false,
        };
        assert(views(processor.parameters@) =~= Seq::empty());
        processor
    }

    /// The slot of the parameter called `name`, if one is declared.
    pub fn find_parameter(&self, name: &str) -> (slot: Option<usize>)
        ensures
            match slot {
                Some(i) => slot_of(self@.parameters, name@) == Some(i as int),
                None => slot_of(self@.parameters, name@) is None,
            },
            names_differ(self@.parameters),
    {
        proof {
            use_type_invariant(self);
        }
        let mut i: usize = 0;
        while i < self.parameters.len()
            invariant
                i <= self.parameters.len(),
                names_differ(views(self.parameters@)),
                forall|j: int| 0 <= j < i ==> !is_slot_of(views(self.parameters@), name@, j),
            decreases self.parameters.len() - i,
        {
            if same_text(self.parameters[i].name(), name) {
                proof {
                    lemma_slot_is_unique(views(self.parameters@), name@, i as int);
                }
                return Some(i);
            }
            i += 1;
        }
        None
    }

    /// Declares a parameter and returns its slot. The parameter is selected
    /// by `aliases` and by its slash and dash aliases, and holds
    /// `default_value`. A parameter that was declared under the same name
    /// before is replaced, in its slot.
    pub fn add_parameter_detail(
        &mut self,
        parameter_name: &str,
        parameter_type: ParameterType,
        allow_empty: bool,
        default_value: ParameterValue,
        description: &str,
        aliases: Vec<String>,
    ) -> (slot: usize)
        ensures
            final(self)@ == (ProcessorView {
                parameters: registered(
                    old(self)@.parameters,
                    declared(
                        parameter_name@,
                        parameter_type,
                        allow_empty,
                        default_value@,
                        description@,
                        texts(aliases@),
                    ),
                ),
                ..old(self)@
            }),
            slot as int == slot_for(old(self)@.parameters, parameter_name@),
            names_differ(final(self)@.parameters),
    {
        proof {
            use_type_invariant(&*self);
        }
        let ghost before = views(self.parameters@);
        let found = self.find_parameter(parameter_name);
        let parameter = Parameter::declare(
            parameter_name,
            parameter_type,
            allow_empty,
            default_value,
            description,
            aliases,
        );
        proof {
            lemma_registered_names_differ(before, parameter@);
        }
        let mut parameters = Vec::new();
        std::mem::swap(&mut parameters, &mut self.parameters);
        let slot = match found {
            Some(i) => {
                parameters[i] = parameter;
                assert(views(parameters@) =~= before.update(i as int, parameter@));
                i
            },
            None => {
                parameters.push(parameter);
                assert(views(parameters@) =~= before.push(parameter@));
                parameters.len() - 1
            },
        };
        self.parameters = parameters;
        slot
    }

    /// Declares a parameter that must have a value: no default, no alias
    /// but its slash and dash aliases.
    pub fn add_simple_parameter(
        &mut self,
        parameter_name: &str,
        parameter_type: ParameterType,
        description: &str,
    ) -> (slot: usize)
        ensures
            final(self)@ == (ProcessorView {
                parameters: registered(
                    old(self)@.parameters,
                    declared(
                        parameter_name@,
                        parameter_type,
                        false,
                        ValueView::Unset,
                        description@,
                        Seq::empty(),
                    ),
                ),
                ..old(self)@
            }),
            slot as int == slot_for(old(self)@.parameters, parameter_name@),
            names_differ(final(self)@.parameters),
    {
        let aliases: Vec<String> = Vec::new();
        assert(texts(aliases@) =~= Seq::empty());
        self.add_parameter_detail(
            parameter_name,
            parameter_type,
            false,
            ParameterValue::Unset,
            description,
            aliases,
        )
    }

    /// Declares a parameter that may stay unset, with a default value and
    /// no alias but its slash and dash aliases.
    pub fn add_can_empty_parameter(
        &mut self,
        parameter_name: &str,
        parameter_type: ParameterType,
        default_value: ParameterValue,
        description: &str,
    ) -> (slot: usize)
        ensures
            final(self)@ == (ProcessorView {
                parameters: registered(
                    old(self)@.parameters,
                    declared(
                        parameter_name@,
                        parameter_type,
                        true,
                        default_value@,
                        description@,
                        Seq::empty(),
                    ),
                ),
                ..old(self)@
            }),
            slot as int == slot_for(old(self)@.parameters, parameter_name@),
            names_differ(final(self)@.parameters),
    {
        let aliases: Vec<String> = Vec::new();
        assert(texts(aliases@) =~= Seq::empty());
        self.add_parameter_detail(
            parameter_name,
            parameter_type,
            true,
            default_value,
            description,
            aliases,
        )
    }

    /// Parses `arguments`, the command line without the program's own
    /// path, as [`outcome`] says: stores the values read, raises the abort
    /// flag unless parsing is complete, and reports how parsing ended and
    /// why.
    pub fn parse_command_line(&mut self, arguments: &Vec<Argument>) -> (report: ParseReport)
        ensures
            final(self)@ == (ProcessorView {
                parameters: outcome(
                    old(self)@.parameters,
                    old(self)@.abort_flag,
                    argument_views(arguments@),
                ).parameters,
                abort_flag: report.status != ParseStatus::Complete,
                ..old(self)@
            }),
            report.reasons@ == outcome(
                old(self)@.parameters,
                old(self)@.abort_flag,
                argument_views(arguments@),
            ).reasons,
            report.status == outcome(
                old(self)@.parameters,
                old(self)@.abort_flag,
                argument_views(arguments@),
            ).status,
            names_differ(final(self)@.parameters),
    {
        proof {
            use_type_invariant(&*self);
        }
        let ghost before = views(self.parameters@);
        let mut parameters = Vec::new();
        std::mem::swap(&mut parameters, &mut self.parameters);
        let reasons = walk(&mut parameters, arguments);
        proof {
            lemma_scan_keeps_declarations(ScanState::start(before), argument_views(arguments@));
            lemma_same_names_differ(before, views(parameters@));
        }
        let report = if self.abort_flag || reasons.len() > 0 {
            ParseReport { status: ParseStatus::Aborted, reasons }
        } else {
            let missing = find_missing(&parameters);
            if missing.len() > 0 {
                ParseReport { status: ParseStatus::MissingRequired, reasons: missing }
            } else {
                ParseReport { status: ParseStatus::Complete, reasons: missing }
            }
        };
        self.parameters = parameters;
        match report.status {
            ParseStatus::Complete => {},
            _ => {
                self.abort_flag = true;
            },
        }
        report
    }

    /// Sets the text that answers a version token.
    pub fn set_version_text(&mut self, version_text: &str)
        ensures
            final(self)@ == (ProcessorView {
                version_text: Some(version_text@),
                ..old(self)@
            }),
    {
        proof {
            use_type_invariant(&*self);
        }
        self.version_text = Some(String::from_str(version_text));
    }

    /// The text that answers a version token, once it is set.
    pub fn version_text(&self) -> (text: Option<&str>)
        ensures
            match text {
                Some(t) => self@.version_text == Some(t@),
                None => self@.version_text is None,
            },
    {
        match &self.version_text {
            Some(t) => Some(t.as_str()),
            None => None,
        }
    }

    /// The text that answers a version token: the version text if one is
    /// set, a standing line if none is.
    pub fn version_answer(&self) -> (text: String)
        ensures
            text@ == version_answer(self@.version_text),
    {
        match &self.version_text {
            Some(t) => t.clone(),
            None => String::from_str("No version text has been set."),
        }
    }

    /// The help text, for the program at `program`: the usage line, then
    /// the table of the parameters.
    pub fn help_text(&self, program: &str) -> (text: String)
        ensures
            text@ == help_text(program@, self@.parameters),
    {
        render_help(&self.parameters, program)
    }

    /// The line that tells the user of `reason`, one of the reasons that
    /// parsing `arguments` gave.
    pub fn describe(&self, reason: AbortReason, arguments: &Vec<Argument>) -> (line: Option<
        String,
    >)
        ensures
            text_option_view(line) == reason_text(
                reason,
                self@.parameters,
                argument_views(arguments@),
            ),
    {
        describe_reason(reason, &self.parameters, arguments)
    }

    /// The current value of the parameter called `parameter_name`, if one
    /// is declared.
    pub fn get_parameter_value(&self, parameter_name: &str) -> (value: Option<&ParameterValue>)
        ensures
            match value {
                Some(v) => match slot_of(self@.parameters, parameter_name@) {
                    Some(i) => v@ == self@.parameters[i].value,
                    None => false,
                },
                None => slot_of(self@.parameters, parameter_name@) is None,
            },
    {
        match self.find_parameter(parameter_name) {
            Some(i) => {
                Some(self.parameters[i].get_value())
            },
            None => None,
        }
    }

    /// The parameter in slot `slot`, if there is such a slot.
    pub fn parameter(&self, slot: usize) -> (parameter: Option<&Parameter>)
        ensures
            match parameter {
                Some(p) => slot < self@.parameters.len() && p@ == self@.parameters[slot as int],
                None => slot >= self@.parameters.len(),
            },
    {
        if slot < self.parameters.len() {
            Some(&self.parameters[slot])
        } else {
            None
        }
    }

    /// How many slots there are.
    pub fn parameter_count(&self) -> (count: usize)
        ensures
            count == self@.parameters.len(),
    {
        self.parameters.len()
    }

    /// Whether parsing has asked the caller to stop.
    pub fn abort_flag(&self) -> (raised: bool)
        ensures
            raised == self@.abort_flag,
    {
        self.abort_flag
    }
}

} // verus!
