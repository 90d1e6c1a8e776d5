pub mod esr_cli;
pub mod esr_crate;
pub mod esr_errors;
pub mod esr_fixed;
pub mod esr_from;
pub mod esr_github;
pub mod esr_macros;
pub mod esr_score;
pub mod esr_util;
