//! Building the analysis from the program: the special handling of well known
//! functions.

pub mod special_function_handler;
