//! Turns the console output of a test run (its standard output and its
//! standard error) into structured groups of test results, with verified
//! contracts for every step of the parse.
pub mod config;
pub mod display;
pub mod grammar;
pub mod parse;
pub mod run;
pub mod segment;
pub mod text;
