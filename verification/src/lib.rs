pub mod builder;
pub mod error;
pub mod execute;
pub mod laws;
pub mod lines;
mod os;
pub mod outcome;
pub mod parse;
pub mod stream;

pub use crate::error::Error;
pub use crate::error::ExitReport;
pub use crate::error::NeverError;
pub use crate::error::RunOutput;
pub use crate::parse::FromOutput;
pub use crate::parse::IntParseFailure;
pub use crate::execute::execute_parse_result;
pub use crate::execute::execute_vec_nopanic_nopanic;
pub use crate::execute::execute_vec_nopanic_result;
pub use crate::execute::execute_vec_result_nopanic;
pub use crate::execute::execute_vec_result_result;
pub use crate::execute::execute_void_nopanic;
pub use crate::execute::execute_void_result;
pub use crate::execute::execute_iter_nopanic_nopanic;
pub use crate::execute::execute_iter_nopanic_result;
pub use crate::execute::execute_iter_result_nopanic;
pub use crate::execute::execute_iter_result_result;
pub use crate::stream::ItemStream;
pub use crate::stream::LineEvent;
pub use crate::stream::LineStream;
pub use crate::stream::ValueStream;
pub use crate::builder::Attributes;
pub use crate::builder::BlockBuilder;
pub use crate::builder::ExecuteFn;
pub use crate::builder::Invocation;
pub use crate::builder::OutputType;
pub use crate::builder::replace_all;
pub use crate::builder::substitute_arg;
pub use crate::builder::to_upper_ascii;
pub use crate::laws::lemma_exit_status_before_parse;
pub use crate::laws::lemma_scalar_deterministic;
pub use crate::laws::lemma_scalar_idempotent_int;
pub use crate::laws::lemma_scalar_success;
pub use crate::laws::lemma_stream_batch_equivalence;
pub use crate::laws::lemma_stream_batch_equivalence_int;
pub use crate::laws::lemma_stream_items_ignore_status;
pub use crate::outcome::check_exit_code;
pub use crate::outcome::collect_items;
pub use crate::outcome::collect_values;
pub use crate::outcome::parse_line;
pub use crate::outcome::scalar_outcome;
pub use crate::outcome::void_outcome;
pub use crate::outcome::Capture;
pub use crate::lines::split_lines;
pub use crate::parse::parse_u32_text;
