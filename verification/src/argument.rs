//! The tokens of the command line, as the caller hands them in.
use vstd::prelude::*;
use crate::value::{FloatValue, FloatView};

verus! {

/// One token of the command line: its text and, where the text writes a
/// floating-point number, that number. The caller reads the number; the
/// walk only stores it.
#[derive(Debug)]
pub struct Argument {
    text: String,
    float: Option<FloatValue>,
}

/// What an [`Argument`] holds.
pub struct ArgumentView {
    /// The token as it was written.
    pub text: Seq<char>,
    /// The floating-point number the token writes, if it writes one.
    pub float: Option<FloatView>,
}

/// The view of an optional float.
pub open spec fn float_option_view(float: Option<FloatValue>) -> Option<FloatView> {
    match float {
        Some(v) => Some(v@),
        None => None,
    }
}

impl View for Argument {
    type V = ArgumentView;

    closed spec fn view(&self) -> ArgumentView {
        ArgumentView { text: self.text@, float: float_option_view(self.float) }
    }
}

impl Argument {
    /// The token `text`, which writes the floating-point number `float` or
    /// none.
    pub fn new(text: String, float: Option<FloatValue>) -> (argument: Self)
        ensures
            argument@ == (ArgumentView { text: text@, float: float_option_view(float) }),
    {
        Argument { text, float }
    }

    /// The token as it was written.
    pub fn text(&self) -> (text: &str)
        ensures
            text@ == self@.text,
    {
        self.text.as_str()
    }

    /// The floating-point number the token writes, if it writes one.
    pub fn float(&self) -> (float: Option<FloatValue>)
        ensures
            float_option_view(float) == self@.float,
    {
        match &self.float {
            Some(v) => Some(v.clone()),
            None => None,
        }
    }
}

/// The views of a list of arguments, in order.
pub open spec fn argument_views(arguments: Seq<Argument>) -> Seq<ArgumentView> {
    arguments.map_values(|a: Argument| a@)
}

} // verus!
