//! Command-line argument parsing with machine-checked contracts.
//!
//! A [`CommandLineProcessor`] holds the declared parameters. Each parameter
//! has a name, a type, a list of alias tokens that select it, and a current
//! value. Parsing walks the argument list once, from left to right, stores
//! the typed values, and reports every reason for which the caller should
//! stop. Nothing here prints or ends the process: the caller does both, with
//! the texts and the exit status that the library hands it.
//!
//! Floating-point numbers pass through the library unread. The caller reads
//! each token as a number where it can and hands the result in with the
//! token, as an [`Argument`]; the library stores it and hands it back as a
//! [`FloatValue`].
//!
//! ```text
//! let mut processor = CommandLineProcessor::new();
//! let path = processor.add_parameter_detail(
//!     "path", ParameterType::Path, false, ParameterValue::Unset,
//!     "file path", vec!["-p".to_owned()]);
//! let report = processor.parse_command_line(&arguments);
//! if report.status == ParseStatus::Complete {
//!     let text = processor.parameter(path).unwrap().to_path_value();
//! }
//! ```
pub mod argument;
pub mod help;
pub mod laws;
pub mod message;
pub mod parameter;
pub mod processor;
pub mod scan;
pub mod text;
pub mod value;
pub mod walk;

pub use crate::argument::Argument;
pub use crate::message::{EXIT_ABORTED, EXIT_MISSING_REQUIRED};
pub use crate::parameter::Parameter;
pub use crate::processor::{CommandLineProcessor, ParseReport};
pub use crate::scan::{AbortReason, ParseStatus};
pub use crate::value::{AccessError, FloatValue, ParameterType, ParameterValue};
