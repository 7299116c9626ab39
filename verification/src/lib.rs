use vstd::prelude::*;

pub mod ast;
pub mod compiler;
pub mod debug_text;
pub mod dict;
pub mod doc;
pub mod exception;
pub mod interpreter;
pub mod line_col;
pub mod module;
pub mod native_funcs;
pub mod numbers;
pub mod ops;
pub mod order;
pub mod program;
pub mod scope;
pub mod string_utils;
pub mod strings;
pub mod types;
pub mod sort;
pub mod stdlib;
pub mod struct_info;
pub mod regex_support;
pub mod value;
pub mod value_api;
pub mod value_traits;
pub mod vm;

verus! {
} // verus!
