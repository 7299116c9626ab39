use vstd::prelude::*;

use crate::ops::name_of_type;
use crate::value::Value;

verus! {

/// The type of a runtime value.
#[derive(Debug, Clone, Copy, PartialEq, Eq, Structural)]
pub enum Type {
    Nil,
    Symbol,
    Bool,
    String,
    Int,
    Function,
    Tuple,
    List,
    Dict,
    Struct,
}

impl Type {
    pub open spec fn spec_name(self) -> Seq<char> {
        match self {
            Type::Nil => "nil"@,
            Type::Symbol => "symbol"@,
            Type::Bool => "bool"@,
            Type::String => "string"@,
            Type::Int => "int"@,
            Type::Function => "function"@,
            Type::Tuple => "tuple"@,
            Type::List => "list"@,
            Type::Dict => "dict"@,
            Type::Struct => "struct"@,
        }
    }

    /// The name of the type, in snake case.
    pub fn as_str(self) -> (r: &'static str)
        ensures
            r@ == self.spec_name(),
    {
        match self {
            Type::Nil => {
                proof {
                    reveal_strlit("nil");
                }
                "nil"
            },
            Type::Symbol => {
                proof {
                    reveal_strlit("symbol");
                }
                "symbol"
            },
            Type::Bool => {
                proof {
                    reveal_strlit("bool");
                }
                "bool"
            },
            Type::String => {
                proof {
                    reveal_strlit("string");
                }
                "string"
            },
            Type::Int => {
                proof {
                    reveal_strlit("int");
                }
                "int"
            },
            Type::Function => {
                proof {
                    reveal_strlit("function");
                }
                "function"
            },
            Type::Tuple => {
                proof {
                    reveal_strlit("tuple");
                }
                "tuple"
            },
            Type::List => {
                proof {
                    reveal_strlit("list");
                }
                "list"
            },
            Type::Dict => {
                proof {
                    reveal_strlit("dict");
                }
                "dict"
            },
            Type::Struct => {
                proof {
                    reveal_strlit("struct");
                }
                "struct"
            },
        }
    }
}

impl Value {
    /// The type of the value.
    pub fn get_type(&self) -> (r: Type)
        ensures
            r.spec_name() == name_of_type(self@),
    {
        match self {
            Value::Nil => Type::Nil,
            Value::Symbol(_) => Type::Symbol,
            Value::Bool(_) => Type::Bool,
            Value::String(_) => Type::String,
            Value::Integer(_) => Type::Int,
            Value::NativeFunc(_) | Value::NativeClosure(_) | Value::Function(_) | Value::Closure(
                _,
            ) => Type::Function,
            Value::Tuple(_) => Type::Tuple,
            Value::List(_) => Type::List,
            Value::Dict(_) => Type::Dict,
            Value::Struct(_, _) => Type::Struct,
        }
    }
}

} // verus!
