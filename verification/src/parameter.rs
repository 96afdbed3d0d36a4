//! One declared parameter: what it is called, how it is selected, what it holds.
use vstd::prelude::*;
use vstd::string::StringExecFns;
use crate::text::same_text;
use crate::value::{
    float_result_view, text_result_view, AccessError, FloatValue, FloatView, ParameterType,
    ParameterValue, ValueView,
};

verus! {

/// The character sequences that a list of strings holds, in order.
pub open spec fn texts(strings: Seq<String>) -> Seq<Seq<char>> {
    strings.map_values(|s: String| s@)
}

/// The alias made of a slash and the parameter's name.
pub open spec fn slash_alias(name: Seq<char>) -> Seq<char> {
    "/"@ + name
}

/// The alias made of two dashes and the parameter's name.
pub open spec fn dash_alias(name: Seq<char>) -> Seq<char> {
    "--"@ + name
}

/// `aliases`, with `alias` added at the end unless it is already there.
pub open spec fn with_alias(aliases: Seq<Seq<char>>, alias: Seq<char>) -> Seq<Seq<char>> {
    if aliases.contains(alias) {
        aliases
    } else {
        aliases.push(alias)
    }
}

/// The aliases of a parameter called `name` that was declared with the
/// aliases `extra`: those, then the slash alias and the dash alias, each
/// unless the list already holds it.
pub open spec fn declared_aliases(name: Seq<char>, extra: Seq<Seq<char>>) -> Seq<Seq<char>> {
    with_alias(with_alias(extra, slash_alias(name)), dash_alias(name))
}

/// The parameter that a declaration makes: it holds its default value.
pub open spec fn declared(
    name: Seq<char>,
    kind: ParameterType,
    allow_empty: bool,
    default_value: ValueView,
    description: Seq<char>,
    extra: Seq<Seq<char>>,
) -> ParameterView {
    ParameterView {
        name,
        kind,
        allow_empty,
        aliases: declared_aliases(name, extra),
        description,
        default_value,
        value: default_value,
    }
}

/// Whether one of `aliases` is `token`.
pub fn holds_alias(aliases: &Vec<String>, token: &str) -> (found: bool)
    ensures
        found == texts(aliases@).contains(token@),
{
    let mut i: usize = 0;
    while i < aliases.len()
        invariant
            i <= aliases.len(),
            forall|k: int| 0 <= k < i ==> texts(aliases@)[k] != token@,
        decreases aliases.len() - i,
    {
        if same_text(aliases[i].as_str(), token) {
            assert(texts(aliases@)[i as int] == token@);
            return true;
        }
        i += 1;
    }
    false
}

/// A declared parameter.
#[derive(Debug)]
pub struct Parameter {
    parameter_name: String,
    parameter_type: ParameterType,
    allow_empty: bool,
    aliases: Vec<String>,
    description: String,
    default_value: ParameterValue,
    value: ParameterValue,
}

/// What a [`Parameter`] holds.
pub struct ParameterView {
    /// The name the parameter was declared under.
    pub name: Seq<char>,
    /// How its value is read.
    pub kind: ParameterType,
    /// Whether it may stay unset.
    pub allow_empty: bool,
    /// The tokens that select it.
    pub aliases: Seq<Seq<char>>,
    /// What it is for, in words.
    pub description: Seq<char>,
    /// The value it was declared with.
    pub default_value: ValueView,
    /// The value it holds now.
    pub value: ValueView,
}

impl ParameterView {
    /// Whether `token` selects the parameter.
    pub open spec fn answers_to(self, token: Seq<char>) -> bool {
        self.aliases.contains(token)
    }

    /// Whether the parameter must have a value and has none.
    pub open spec fn is_missing(self) -> bool {
        !self.allow_empty && self.value is Unset
    }

    /// The parameter with `value` in place of its current value.
    pub open spec fn holding(self, value: ValueView) -> ParameterView {
        ParameterView { value, ..self }
    }

    /// What a read of the parameter as an integer gives.
    pub open spec fn read_integer(self) -> Result<i64, AccessError> {
        if !(self.value is Unset) {
            self.value.as_integer()
        } else if self.allow_empty {
            Ok(0)
        } else {
            Err(AccessError::ValueNotSet)
        }
    }

    /// What a read of the parameter as a floating-point number gives.
    pub open spec fn read_float(self) -> Result<FloatView, AccessError> {
        if !(self.value is Unset) {
            self.value.as_float()
        } else if self.allow_empty {
            Ok(FloatView { bits: 0, text: "0"@ })
        } else {
            Err(AccessError::ValueNotSet)
        }
    }

    /// What a read of the parameter as a path gives.
    pub open spec fn read_path(self) -> Result<Seq<char>, AccessError> {
        if !(self.value is Unset) {
            self.value.as_path()
        } else if self.allow_empty {
            Ok(Seq::<char>::empty())
        } else {
            Err(AccessError::ValueNotSet)
        }
    }

    /// What a read of the parameter as a text gives.
    pub open spec fn read_text(self) -> Result<Seq<char>, AccessError> {
        if !(self.value is Unset) {
            self.value.as_text()
        } else if self.allow_empty {
            Ok(Seq::<char>::empty())
        } else {
            Err(AccessError::ValueNotSet)
        }
    }

    /// What a read of the parameter as a boolean gives.
    pub open spec fn read_bool(self) -> Result<bool, AccessError> {
        if !(self.value is Unset) {
            self.value.as_bool()
        } else if self.allow_empty {
            Ok(false)
        } else {
            Err(AccessError::ValueNotSet)
        }
    }
}

impl View for Parameter {
    type V = ParameterView;

    closed spec fn view(&self) -> ParameterView {
        ParameterView {
            name: self.parameter_name@,
            kind: self.parameter_type,
            allow_empty: self.allow_empty,
            aliases: texts(self.aliases@),
            description: self.description@,
            default_value: self.default_value@,
            value: self.value@,
        }
    }
}

impl Parameter {
    /// A parameter called `name`, selected by `aliases` and by its slash and
    /// dash aliases, that holds `default_value`.
    pub(crate) fn declare(
        name: &str,
        kind: ParameterType,
        allow_empty: bool,
        default_value: ParameterValue,
        description: &str,
        aliases: Vec<String>,
    ) -> (parameter: Parameter)
        ensures
            parameter@ == declared(
                name@,
                kind,
                allow_empty,
                default_value@,
                description@,
                texts(aliases@),
            ),
    {
        let mut aliases = aliases;
        let ghost extra = texts(aliases@);
        let slash = String::from_str("/").concat(name);
        if !holds_alias(&aliases, slash.as_str()) {
            aliases.push(slash);
            assert(texts(aliases@) =~= extra.push(slash_alias(name@)));
        }
        let ghost first = texts(aliases@);
        let dash = String::from_str("--").concat(name);
        if !holds_alias(&aliases, dash.as_str()) {
            aliases.push(dash);
            assert(texts(aliases@) =~= first.push(dash_alias(name@)));
        }
        let value = default_value.clone();
        Parameter {
            parameter_name: String::from_str(name),
            parameter_type: kind,
            allow_empty,
            aliases,
            description: String::from_str(description),
            default_value,
            value,
        }
    }

    /// Puts `value` in place of the current value.
    pub(crate) fn store(&mut self, value: ParameterValue)
        ensures
            final(self)@ == old(self)@.holding(value@),
    {
        self.value = value;
    }

    /// The name the parameter was declared under.
    pub fn name(&self) -> (name: &str)
        ensures
            name@ == self@.name,
    {
        self.parameter_name.as_str()
    }

    /// How the parameter's value is read.
    pub fn parameter_type(&self) -> (kind: ParameterType)
        ensures
            kind == self@.kind,
    {
        self.parameter_type
    }

    /// Whether the parameter may stay unset.
    pub fn allow_empty(&self) -> (allowed: bool)
        ensures
            allowed == self@.allow_empty,
    {
        self.allow_empty
    }

    /// The tokens that select the parameter.
    pub fn aliases(&self) -> (aliases: &Vec<String>)
        ensures
            texts(aliases@) == self@.aliases,
    {
        &self.aliases
    }

    /// What the parameter is for, in words.
    pub fn description(&self) -> (description: &str)
        ensures
            description@ == self@.description,
    {
        self.description.as_str()
    }

    /// The value the parameter was declared with.
    pub fn default_value(&self) -> (value: &ParameterValue)
        ensures
            value@ == self@.default_value,
    {
        &self.default_value
    }

    /// The value the parameter holds now.
    pub fn get_value(&self) -> (value: &ParameterValue)
        ensures
            value@ == self@.value,
    {
        &self.value
    }

    /// Whether `token` selects the parameter.
    pub fn answers_to(&self, token: &str) -> (selected: bool)
        ensures
            selected == self@.answers_to(token@),
    {
        holds_alias(&self.aliases, token)
    }

    /// The parameter's value as an integer: zero if it is unset and may be;
    /// an error if it is unset and may not be, or holds another type.
    pub fn to_int_value(&self) -> (read: Result<i64, AccessError>)
        ensures
            read == self@.read_integer(),
    {
        if self.value.is_none() {
            if self.allow_empty {
                return Ok(0);
            }
            return Err(AccessError::ValueNotSet);
        }
        self.value.to_int_value()
    }

    /// The parameter's value as a floating-point number: positive zero if it
    /// is unset and may be; an error if it is unset and may not be, or holds
    /// another type.
    pub fn to_float_value(&self) -> (read: Result<FloatValue, AccessError>)
        ensures
            float_result_view(read) == self@.read_float(),
    {
        if self.value.is_none() {
            if self.allow_empty {
                return Ok(FloatValue::zero());
            }
            return Err(AccessError::ValueNotSet);
        }
        self.value.to_float_value()
    }

    /// The parameter's value as a path: the empty path if it is unset and
    /// may be; an error if it is unset and may not be, or holds another type.
    pub fn to_path_value(&self) -> (read: Result<String, AccessError>)
        ensures
            text_result_view(read) == self@.read_path(),
    {
        if self.value.is_none() {
            if self.allow_empty {
                return Ok(String::new());
            }
            return Err(AccessError::ValueNotSet);
        }
        self.value.to_path_value()
    }

    /// The parameter's value as a text: the empty text if it is unset and
    /// may be; an error if it is unset and may not be, or holds another type.
    pub fn to_string_value(&self) -> (read: Result<String, AccessError>)
        ensures
            text_result_view(read) == self@.read_text(),
    {
        if self.value.is_none() {
            if self.allow_empty {
                return Ok(String::new());
            }
            return Err(AccessError::ValueNotSet);
        }
        self.value.to_string_value()
    }

    /// The parameter's value as a boolean: `false` if it is unset and may
    /// be; an error if it is unset and may not be, or holds another type.
    pub fn to_bool_value(&self) -> (read: Result<bool, AccessError>)
        ensures
            read == self@.read_bool(),
    {
        if self.value.is_none() {
            if self.allow_empty {
                return Ok(false);
            }
            return Err(AccessError::ValueNotSet);
        }
        self.value.to_bool_value()
    }
}

} // verus!
