//! Parameter types and the values a parameter can hold.
use vstd::prelude::*;
use vstd::string::StringExecFns;
use crate::text::{integer_text, render_integer};

verus! {

/// How the value of a parameter is read from the command line.
#[derive(Clone, Copy, Debug, PartialEq, Eq, Structural)]
pub enum ParameterType {
    /// Present or absent: takes no value token.
    Flag,
    /// A 64-bit signed integer, written in decimal.
    Integer,
    /// A double-precision floating-point number.
    Float,
    /// A filesystem path, taken as it is written.
    Path,
    /// Any text, taken as it is written.
    String,
    /// `true` or `false`.
    Bool,
}

/// A double-precision number as this library carries it: the 64 bits of its
/// IEEE 754 encoding, and the text it is shown as. The library stores and
/// returns both and computes with neither; the caller converts.
#[derive(Debug, PartialEq, Eq)]
pub struct FloatValue {
    bits: u64,
    text: String,
}

/// What a [`FloatValue`] holds.
pub struct FloatView {
    pub bits: u64,
    pub text: Seq<char>,
}

impl View for FloatValue {
    type V = FloatView;

    closed spec fn view(&self) -> FloatView {
        FloatView { bits: self.bits, text: self.text@ }
    }
}

impl Clone for FloatValue {
    fn clone(&self) -> (copy: Self)
        ensures
            copy@ == self@,
    {
        FloatValue { bits: self.bits, text: self.text.clone() }
    }
}

impl FloatValue {
    /// The number with the encoding `bits`, shown as `text`.
    pub fn new(bits: u64, text: String) -> (value: Self)
        ensures
            value@ == (FloatView { bits, text: text@ }),
    {
        FloatValue { bits, text }
    }

    /// Positive zero, shown as `0`.
    pub fn zero() -> (value: Self)
        ensures
            value@ == (FloatView { bits: 0, text: "0"@ }),
    {
        FloatValue { bits: 0, text: String::from_str("0") }
    }

    /// The 64 bits of the number's encoding.
    pub fn bits(&self) -> (bits: u64)
        ensures
            bits == self@.bits,
    {
        self.bits
    }

    /// The text the number is shown as.
    pub fn text(&self) -> (text: &str)
        ensures
            text@ == self@.text,
    {
        self.text.as_str()
    }
}

/// The value of a parameter: unset, or one payload of one type.
#[derive(Debug, PartialEq, Eq)]
pub enum ParameterValue {
    /// No value.
    Unset,
    /// The flag was given.
    Flag,
    /// An integer.
    Integer(i64),
    /// A floating-point number.
    Float(FloatValue),
    /// A filesystem path.
    Path(String),
    /// A text.
    String(String),
    /// A boolean.
    Bool(bool),
}

/// What a [`ParameterValue`] holds.
pub enum ValueView {
    Unset,
    Flag,
    Integer(i64),
    Float(FloatView),
    Path(Seq<char>),
    String(Seq<char>),
    Bool(bool),
}

impl View for ParameterValue {
    type V = ValueView;

    open spec fn view(&self) -> ValueView {
        match self {
            ParameterValue::Unset => ValueView::Unset,
            ParameterValue::Flag => ValueView::Flag,
            ParameterValue::Integer(v) => ValueView::Integer(*v),
            ParameterValue::Float(v) => ValueView::Float(v@),
            ParameterValue::Path(v) => ValueView::Path(v@),
            ParameterValue::String(v) => ValueView::String(v@),
            ParameterValue::Bool(v) => ValueView::Bool(*v),
        }
    }
}

impl Clone for ParameterValue {
    fn clone(&self) -> (copy: Self)
        ensures
            copy@ == self@,
    {
        match self {
            ParameterValue::Unset => ParameterValue::Unset,
            ParameterValue::Flag => ParameterValue::Flag,
            ParameterValue::Integer(v) => ParameterValue::Integer(*v),
            ParameterValue::Float(v) => ParameterValue::Float(v.clone()),
            ParameterValue::Path(v) => ParameterValue::Path(v.clone()),
            ParameterValue::String(v) => ParameterValue::String(v.clone()),
            ParameterValue::Bool(v) => ParameterValue::Bool(*v),
        }
    }
}

impl ValueView {
    /// The integer payload, if that is what the value holds.
    pub open spec fn as_integer(self) -> Result<i64, AccessError> {
        match self {
            ValueView::Integer(v) => Ok(v),
            _ => Err(AccessError::WrongValueTypeAccess),
        }
    }

    /// The floating-point payload, if that is what the value holds.
    pub open spec fn as_float(self) -> Result<FloatView, AccessError> {
        match self {
            ValueView::Float(v) => Ok(v),
            _ => Err(AccessError::WrongValueTypeAccess),
        }
    }

    /// The path payload, if that is what the value holds.
    pub open spec fn as_path(self) -> Result<Seq<char>, AccessError> {
        match self {
            ValueView::Path(v) => Ok(v),
            _ => Err(AccessError::WrongValueTypeAccess),
        }
    }

    /// The text payload, if that is what the value holds.
    pub open spec fn as_text(self) -> Result<Seq<char>, AccessError> {
        match self {
            ValueView::String(v) => Ok(v),
            _ => Err(AccessError::WrongValueTypeAccess),
        }
    }

    /// The boolean payload, if that is what the value holds.
    pub open spec fn as_bool(self) -> Result<bool, AccessError> {
        match self {
            ValueView::Bool(v) => Ok(v),
            _ => Err(AccessError::WrongValueTypeAccess),
        }
    }

    /// How the value is shown in a listing of the parameters.
    pub open spec fn help_text(self) -> Seq<char> {
        match self {
            ValueView::Unset => Seq::<char>::empty(),
            ValueView::Flag => "true"@,
            ValueView::Integer(v) => integer_text(v as int),
            ValueView::Float(v) => v.text,
            ValueView::Path(v) => v,
            ValueView::String(v) => v,
            ValueView::Bool(v) => if v {
                "true"@
            } else {
                "false"@
            },
        }
    }

    /// Whether the value is one that a parameter of type `kind` can have
    /// read from the command line.
    pub open spec fn has_type(self, kind: ParameterType) -> bool {
        match kind {
            ParameterType::Flag => self is Flag,
            ParameterType::Integer => self is Integer,
            ParameterType::Float => self is Float,
            ParameterType::Path => self is Path,
            ParameterType::String => self is String,
            ParameterType::Bool => self is Bool,
        }
    }
}

/// The view of a read that returns a float.
pub open spec fn float_result_view(r: Result<FloatValue, AccessError>) -> Result<
    FloatView,
    AccessError,
> {
    match r {
        Ok(v) => Ok(v@),
        Err(e) => Err(e),
    }
}

/// The view of a read that returns a text.
pub open spec fn text_result_view(r: Result<String, AccessError>) -> Result<
    Seq<char>,
    AccessError,
> {
    match r {
        Ok(v) => Ok(v@),
        Err(e) => Err(e),
    }
}

impl ParameterValue {
    /// Whether the value is unset.
    pub fn is_none(&self) -> (unset: bool)
        ensures
            unset == (self@ is Unset),
    {
        match self {
            ParameterValue::Unset => true,
            _ => false,
        }
    }

    /// The integer payload; an error if the value holds anything else.
    pub fn to_int_value(&self) -> (read: Result<i64, AccessError>)
        ensures
            read == self@.as_integer(),
    {
        match self {
            ParameterValue::Integer(v) => Ok(*v),
            _ => Err(AccessError::WrongValueTypeAccess),
        }
    }

    /// The floating-point payload; an error if the value holds anything else.
    pub fn to_float_value(&self) -> (read: Result<FloatValue, AccessError>)
        ensures
            float_result_view(read) == self@.as_float(),
    {
        match self {
            ParameterValue::Float(v) => Ok(v.clone()),
            _ => Err(AccessError::WrongValueTypeAccess),
        }
    }

    /// The path payload; an error if the value holds anything else.
    pub fn to_path_value(&self) -> (read: Result<String, AccessError>)
        ensures
            text_result_view(read) == self@.as_path(),
    {
        match self {
            ParameterValue::Path(v) => Ok(v.clone()),
            _ => Err(AccessError::WrongValueTypeAccess),
        }
    }

    /// The text payload; an error if the value holds anything else.
    pub fn to_string_value(&self) -> (read: Result<String, AccessError>)
        ensures
            text_result_view(read) == self@.as_text(),
    {
        match self {
            ParameterValue::String(v) => Ok(v.clone()),
            _ => Err(AccessError::WrongValueTypeAccess),
        }
    }

    /// The boolean payload; an error if the value holds anything else.
    pub fn to_bool_value(&self) -> (read: Result<bool, AccessError>)
        ensures
            read == self@.as_bool(),
    {
        match self {
            ParameterValue::Bool(v) => Ok(*v),
            _ => Err(AccessError::WrongValueTypeAccess),
        }
    }

    /// How the value is shown in a listing of the parameters: nothing for
    /// an unset value, `true` for a flag, the payload otherwise.
    pub fn to_help_string(&self) -> (shown: String)
        ensures
            shown@ == self@.help_text(),
    {
        match self {
            ParameterValue::Unset => String::new(),
            ParameterValue::Flag => String::from_str("true"),
            ParameterValue::Integer(v) => render_integer(*v),
            ParameterValue::Float(v) => String::from_str(v.text()),
            ParameterValue::Path(v) => v.clone(),
            ParameterValue::String(v) => v.clone(),
            ParameterValue::Bool(v) => if *v {
                String::from_str("true")
            } else {
                String::from_str("false")
            },
        }
    }
}

/// Why a typed read of a value failed.
#[derive(Clone, Copy, Debug, PartialEq, Eq, Structural)]
pub enum AccessError {
    /// The value is unset and the parameter must not be empty.
    ValueNotSet,
    /// The value holds a payload of another type than the one asked for.
    WrongValueTypeAccess,
}

} // verus!
