use vstd::prelude::*;

use crate::exception::{raise, Exception};
use crate::numbers::{decimal, int_to_string, checked_rem_trunc, rem_trunc};
use crate::ops::{
    at, at_error, cast_to_int, cast_to_int_error, cast_to_string, cast_to_symbol, enum_len,
    is_enumerable, name_of_type,
};
use crate::order::{compare_str, lemma_order_chars, Order};
use crate::string_utils::{concat_str, string_from_chars, to_chars};
use crate::strings;
use crate::regex_support::{
    regex_error_text, regex_find_in, regex_first_match, regex_is_match, regex_match_in,
    regex_valid,
};
use crate::sort::{sort_spec, sort_values};
use crate::value::{duplicate_seq, lemma_pair_views, lemma_views, views, Val, Value};

verus! {

/// The functions that the runtime implements itself, in the order of the table that
/// `__builtin` names are looked up in.
#[derive(Debug, Clone, Copy, PartialEq, Eq, Structural)]
pub enum NativeFunc {
    Print,
    Println,
    Inspect,
    Readfile,
    Len,
    Get,
    Append,
    SortImpl,
    Reverse,
    Split,
    Trim,
    StrReplace,
    StrReverse,
    StrFind,
    StrRfind,
    StrStartsWith,
    StrEndsWith,
    RegexMatch,
    RegexFind,
    RegexFindIndex,
    Int,
    Str,
    Symbol,
    Type,
    IsNil,
    IsSymbol,
    IsBool,
    IsString,
    IsInt,
    IsFunction,
    IsTuple,
    IsList,
    IsDict,
    IsStruct,
    Raise,
    RangeIter,
    Rem,
}

/// The number of native functions.
pub const NATIVE_FUNC_COUNT: usize = 37;

impl NativeFunc {
    /// Position of the function in the table.
    pub open spec fn rank(self) -> int {
        match self {
            NativeFunc::Print => 0,
            NativeFunc::Println => 1,
            NativeFunc::Inspect => 2,
            NativeFunc::Readfile => 3,
            NativeFunc::Len => 4,
            NativeFunc::Get => 5,
            NativeFunc::Append => 6,
            NativeFunc::SortImpl => 7,
            NativeFunc::Reverse => 8,
            NativeFunc::Split => 9,
            NativeFunc::Trim => 10,
            NativeFunc::StrReplace => 11,
            NativeFunc::StrReverse => 12,
            NativeFunc::StrFind => 13,
            NativeFunc::StrRfind => 14,
            NativeFunc::StrStartsWith => 15,
            NativeFunc::StrEndsWith => 16,
            NativeFunc::RegexMatch => 17,
            NativeFunc::RegexFind => 18,
            NativeFunc::RegexFindIndex => 19,
            NativeFunc::Int => 20,
            NativeFunc::Str => 21,
            NativeFunc::Symbol => 22,
            NativeFunc::Type => 23,
            NativeFunc::IsNil => 24,
            NativeFunc::IsSymbol => 25,
            NativeFunc::IsBool => 26,
            NativeFunc::IsString => 27,
            NativeFunc::IsInt => 28,
            NativeFunc::IsFunction => 29,
            NativeFunc::IsTuple => 30,
            NativeFunc::IsList => 31,
            NativeFunc::IsDict => 32,
            NativeFunc::IsStruct => 33,
            NativeFunc::Raise => 34,
            NativeFunc::RangeIter => 35,
            NativeFunc::Rem => 36,
        }
    }

    /// The name under which the function is looked up.
    pub open spec fn spec_name(self) -> Seq<char> {
        match self {
            NativeFunc::Print => "print"@,
            NativeFunc::Println => "println"@,
            NativeFunc::Inspect => "inspect"@,
            NativeFunc::Readfile => "readfile"@,
            NativeFunc::Len => "len"@,
            NativeFunc::Get => "get"@,
            NativeFunc::Append => "append"@,
            NativeFunc::SortImpl => "sort_impl"@,
            NativeFunc::Reverse => "reverse"@,
            NativeFunc::Split => "split"@,
            NativeFunc::Trim => "trim"@,
            NativeFunc::StrReplace => "str_replace"@,
            NativeFunc::StrReverse => "str_reverse"@,
            NativeFunc::StrFind => "str_find"@,
            NativeFunc::StrRfind => "str_rfind"@,
            NativeFunc::StrStartsWith => "str_starts_with?"@,
            NativeFunc::StrEndsWith => "str_ends_with?"@,
            NativeFunc::RegexMatch => "regex_match"@,
            NativeFunc::RegexFind => "regex_find"@,
            NativeFunc::RegexFindIndex => "regex_find_index"@,
            NativeFunc::Int => "int"@,
            NativeFunc::Str => "str"@,
            NativeFunc::Symbol => "symbol"@,
            NativeFunc::Type => "type"@,
            NativeFunc::IsNil => "is_nil"@,
            NativeFunc::IsSymbol => "is_symbol"@,
            NativeFunc::IsBool => "is_bool"@,
            NativeFunc::IsString => "is_string"@,
            NativeFunc::IsInt => "is_int"@,
            NativeFunc::IsFunction => "is_function"@,
            NativeFunc::IsTuple => "is_tuple"@,
            NativeFunc::IsList => "is_list"@,
            NativeFunc::IsDict => "is_dict"@,
            NativeFunc::IsStruct => "is_struct"@,
            NativeFunc::Raise => "raise"@,
            NativeFunc::RangeIter => "_range_iter"@,
            NativeFunc::Rem => "rem"@,
        }
    }

    /// Position of the function in the table.
    pub fn index(self) -> (r: usize)
        ensures
            r == self.rank(),
            r < NATIVE_FUNC_COUNT,
    {
        match self {
            NativeFunc::Print => 0,
            NativeFunc::Println => 1,
            NativeFunc::Inspect => 2,
            NativeFunc::Readfile => 3,
            NativeFunc::Len => 4,
            NativeFunc::Get => 5,
            NativeFunc::Append => 6,
            NativeFunc::SortImpl => 7,
            NativeFunc::Reverse => 8,
            NativeFunc::Split => 9,
            NativeFunc::Trim => 10,
            NativeFunc::StrReplace => 11,
            NativeFunc::StrReverse => 12,
            NativeFunc::StrFind => 13,
            NativeFunc::StrRfind => 14,
            NativeFunc::StrStartsWith => 15,
            NativeFunc::StrEndsWith => 16,
            NativeFunc::RegexMatch => 17,
            NativeFunc::RegexFind => 18,
            NativeFunc::RegexFindIndex => 19,
            NativeFunc::Int => 20,
            NativeFunc::Str => 21,
            NativeFunc::Symbol => 22,
            NativeFunc::Type => 23,
            NativeFunc::IsNil => 24,
            NativeFunc::IsSymbol => 25,
            NativeFunc::IsBool => 26,
            NativeFunc::IsString => 27,
            NativeFunc::IsInt => 28,
            NativeFunc::IsFunction => 29,
            NativeFunc::IsTuple => 30,
            NativeFunc::IsList => 31,
            NativeFunc::IsDict => 32,
            NativeFunc::IsStruct => 33,
            NativeFunc::Raise => 34,
            NativeFunc::RangeIter => 35,
            NativeFunc::Rem => 36,
        }
    }

    /// The function at position `i` of the table.
    pub fn from_index(i: usize) -> (r: Option<NativeFunc>)
        ensures
            i < NATIVE_FUNC_COUNT <==> r is Some,
            r matches Some(f) ==> f.rank() == i,
    {
        match i {
            0 => Some(NativeFunc::Print),
            1 => Some(NativeFunc::Println),
            2 => Some(NativeFunc::Inspect),
            3 => Some(NativeFunc::Readfile),
            4 => Some(NativeFunc::Len),
            5 => Some(NativeFunc::Get),
            6 => Some(NativeFunc::Append),
            7 => Some(NativeFunc::SortImpl),
            8 => Some(NativeFunc::Reverse),
            9 => Some(NativeFunc::Split),
            10 => Some(NativeFunc::Trim),
            11 => Some(NativeFunc::StrReplace),
            12 => Some(NativeFunc::StrReverse),
            13 => Some(NativeFunc::StrFind),
            14 => Some(NativeFunc::StrRfind),
            15 => Some(NativeFunc::StrStartsWith),
            16 => Some(NativeFunc::StrEndsWith),
            17 => Some(NativeFunc::RegexMatch),
            18 => Some(NativeFunc::RegexFind),
            19 => Some(NativeFunc::RegexFindIndex),
            20 => Some(NativeFunc::Int),
            21 => Some(NativeFunc::Str),
            22 => Some(NativeFunc::Symbol),
            23 => Some(NativeFunc::Type),
            24 => Some(NativeFunc::IsNil),
            25 => Some(NativeFunc::IsSymbol),
            26 => Some(NativeFunc::IsBool),
            27 => Some(NativeFunc::IsString),
            28 => Some(NativeFunc::IsInt),
            29 => Some(NativeFunc::IsFunction),
            30 => Some(NativeFunc::IsTuple),
            31 => Some(NativeFunc::IsList),
            32 => Some(NativeFunc::IsDict),
            33 => Some(NativeFunc::IsStruct),
            34 => Some(NativeFunc::Raise),
            35 => Some(NativeFunc::RangeIter),
            36 => Some(NativeFunc::Rem),
            _ => None,
        }
    }

    /// The name under which the function is looked up.
    pub fn name(self) -> (r: &'static str)
        ensures
            r@ == self.spec_name(),
    {
        match self {
            NativeFunc::Print => {
                proof {
                    reveal_strlit("print");
                }
                "print"
            },
            NativeFunc::Println => {
                proof {
                    reveal_strlit("println");
                }
                "println"
            },
            NativeFunc::Inspect => {
                proof {
                    reveal_strlit("inspect");
                }
                "inspect"
            },
            NativeFunc::Readfile => {
                proof {
                    reveal_strlit("readfile");
                }
                "readfile"
            },
            NativeFunc::Len => {
                proof {
                    reveal_strlit("len");
                }
                "len"
            },
            NativeFunc::Get => {
                proof {
                    reveal_strlit("get");
                }
                "get"
            },
            NativeFunc::Append => {
                proof {
                    reveal_strlit("append");
                }
                "append"
            },
            NativeFunc::SortImpl => {
                proof {
                    reveal_strlit("sort_impl");
                }
                "sort_impl"
            },
            NativeFunc::Reverse => {
                proof {
                    reveal_strlit("reverse");
                }
                "reverse"
            },
            NativeFunc::Split => {
                proof {
                    reveal_strlit("split");
                }
                "split"
            },
            NativeFunc::Trim => {
                proof {
                    reveal_strlit("trim");
                }
                "trim"
            },
            NativeFunc::StrReplace => {
                proof {
                    reveal_strlit("str_replace");
                }
                "str_replace"
            },
            NativeFunc::StrReverse => {
                proof {
                    reveal_strlit("str_reverse");
                }
                "str_reverse"
            },
            NativeFunc::StrFind => {
                proof {
                    reveal_strlit("str_find");
                }
                "str_find"
            },
            NativeFunc::StrRfind => {
                proof {
                    reveal_strlit("str_rfind");
                }
                "str_rfind"
            },
            NativeFunc::StrStartsWith => {
                proof {
                    reveal_strlit("str_starts_with?");
                }
                "str_starts_with?"
            },
            NativeFunc::StrEndsWith => {
                proof {
                    reveal_strlit("str_ends_with?");
                }
                "str_ends_with?"
            },
            NativeFunc::RegexMatch => {
                proof {
                    reveal_strlit("regex_match");
                }
                "regex_match"
            },
            NativeFunc::RegexFind => {
                proof {
                    reveal_strlit("regex_find");
                }
                "regex_find"
            },
            NativeFunc::RegexFindIndex => {
                proof {
                    reveal_strlit("regex_find_index");
                }
                "regex_find_index"
            },
            NativeFunc::Int => {
                proof {
                    reveal_strlit("int");
                }
                "int"
            },
            NativeFunc::Str => {
                proof {
                    reveal_strlit("str");
                }
                "str"
            },
            NativeFunc::Symbol => {
                proof {
                    reveal_strlit("symbol");
                }
                "symbol"
            },
            NativeFunc::Type => {
                proof {
                    reveal_strlit("type");
                }
                "type"
            },
            NativeFunc::IsNil => {
                proof {
                    reveal_strlit("is_nil");
                }
                "is_nil"
            },
            NativeFunc::IsSymbol => {
                proof {
                    reveal_strlit("is_symbol");
                }
                "is_symbol"
            },
            NativeFunc::IsBool => {
                proof {
                    reveal_strlit("is_bool");
                }
                "is_bool"
            },
            NativeFunc::IsString => {
                proof {
                    reveal_strlit("is_string");
                }
                "is_string"
            },
            NativeFunc::IsInt => {
                proof {
                    reveal_strlit("is_int");
                }
                "is_int"
            },
            NativeFunc::IsFunction => {
                proof {
                    reveal_strlit("is_function");
                }
                "is_function"
            },
            NativeFunc::IsTuple => {
                proof {
                    reveal_strlit("is_tuple");
                }
                "is_tuple"
            },
            NativeFunc::IsList => {
                proof {
                    reveal_strlit("is_list");
                }
                "is_list"
            },
            NativeFunc::IsDict => {
                proof {
                    reveal_strlit("is_dict");
                }
                "is_dict"
            },
            NativeFunc::IsStruct => {
                proof {
                    reveal_strlit("is_struct");
                }
                "is_struct"
            },
            NativeFunc::Raise => {
                proof {
                    reveal_strlit("raise");
                }
                "raise"
            },
            NativeFunc::RangeIter => {
                proof {
                    reveal_strlit("_range_iter");
                }
                "_range_iter"
            },
            NativeFunc::Rem => {
                proof {
                    reveal_strlit("rem");
                }
                "rem"
            },
        }
    }
}

/// What a native function does, besides raising.
pub enum NativeEffect {
    /// Gives a value.
    Return(Val),
    /// Writes text to standard output; gives `nil`.
    Write(Seq<char>),
    /// Shows the values; gives the first of them, or `nil`.
    Inspect(Seq<Val>),
    /// Reads the file at the path; gives its contents.
    ReadFile(Seq<char>),
    /// Gives a new iterator over `start`, `start + step`, ... below `stop`.
    NewRangeIter(i64, i64, i64),
}

/// What a native function does, as the runtime carries it out.
#[derive(Debug)]
pub enum NativeOutcome {
    Return(Value),
    Write(String),
    Inspect(Vec<Value>),
    ReadFile(String),
    NewRangeIter(i64, i64, i64),
}

impl View for NativeOutcome {
    type V = NativeEffect;

    open spec fn view(&self) -> NativeEffect {
        match self {
            NativeOutcome::Return(v) => NativeEffect::Return(v@),
            NativeOutcome::Write(s) => NativeEffect::Write(s@),
            NativeOutcome::Inspect(vs) => NativeEffect::Inspect(views(vs@)),
            NativeOutcome::ReadFile(p) => NativeEffect::ReadFile(p@),
            NativeOutcome::NewRangeIter(a, b, c) => NativeEffect::NewRangeIter(*a, *b, *c),
        }
    }
}

/// How `print` shows a value: strings as they are, integers in decimal.
pub open spec fn printable(v: Val) -> bool {
    v is Str || v is Int
}

pub open spec fn render(v: Val) -> Seq<char> {
    match v {
        Val::Str(s) => s,
        Val::Int(i) => decimal(i as int),
        _ => Seq::empty(),
    }
}

pub open spec fn render_all(args: Seq<Val>) -> Seq<char>
    decreases args.len(),
{
    if args.len() == 0 {
        Seq::empty()
    } else {
        render_all(args.drop_last()) + render(args.last())
    }
}

/// `v[i0][i1]...` for the indices `idx`, `None` when one of the steps fails.
pub open spec fn get_path(v: Val, idx: Seq<Val>) -> Option<Val>
    decreases idx.len(),
{
    if idx.len() == 0 {
        Some(v)
    } else {
        match at(v, idx[0]) {
            Some(x) => get_path(x, idx.drop_first()),
            None => None,
        }
    }
}

pub open spec fn is_function_value(v: Val) -> bool {
    v is NativeFunc || v is NativeClosure || v is Function || v is Closure
}

/// A native function that gives `v`.
pub open spec fn gives(v: Val) -> Option<NativeEffect> {
    Some(NativeEffect::Return(v))
}

/// Every argument can be printed.
pub open spec fn all_printable(args: Seq<Val>) -> bool {
    forall|i: int| 0 <= i < args.len() ==> printable(#[trigger] args[i])
}

/// The argument list is the one string `s`.
pub open spec fn one_str(args: Seq<Val>) -> Option<Seq<char>> {
    if args.len() == 1 && args[0] is Str {
        Some(args[0]->Str_0)
    } else {
        None
    }
}

/// The argument list is the two strings `(a, b)`.
pub open spec fn two_strs(args: Seq<Val>) -> Option<(Seq<char>, Seq<char>)> {
    if args.len() == 2 && args[0] is Str && args[1] is Str {
        Some((args[0]->Str_0, args[1]->Str_0))
    } else {
        None
    }
}

/// The argument list is the one list `l`.
pub open spec fn one_list(args: Seq<Val>) -> Option<Seq<Val>> {
    if args.len() == 1 && args[0] is List {
        Some(args[0]->List_0)
    } else {
        None
    }
}

pub open spec fn len_effect(args: Seq<Val>) -> Option<NativeEffect> {
    if args.len() != 1 {
        None
    } else {
        match args[0] {
            Val::Tuple(t) => gives(Val::Int(t.len() as i64)),
            Val::Dict(es) => gives(Val::Int(es.len() as i64)),
            Val::Str(s) => gives(Val::Int(s.len() as i64)),
            Val::List(l) => gives(Val::Int(l.len() as i64)),
            _ => None,
        }
    }
}

pub open spec fn get_effect(args: Seq<Val>) -> Option<NativeEffect> {
    if args.len() < 2 {
        None
    } else {
        match get_path(args[0], args.drop_first()) {
            Some(v) => gives(v),
            None => None,
        }
    }
}

pub open spec fn find_effect(found: Option<int>) -> Option<NativeEffect> {
    match found {
        Some(i) => gives(Val::Int(i as i64)),
        None => gives(Val::Nil),
    }
}

pub open spec fn regex_effect(f: NativeFunc, args: Seq<Val>) -> Option<NativeEffect> {
    match two_strs(args) {
        Some((text, pattern)) => if !regex_valid(pattern) {
            None
        } else if f == NativeFunc::RegexMatch {
            gives(Val::Bool(regex_is_match(pattern, text)))
        } else {
            match regex_first_match(pattern, text) {
                Some((a, b, t)) => if f == NativeFunc::RegexFind {
                    gives(Val::Str(t))
                } else {
                    gives(Val::List(seq![Val::Int(a as i64), Val::Int(b as i64)]))
                },
                None => gives(Val::Nil),
            }
        },
        None => None,
    }
}

pub open spec fn cast_effect(cast: Option<Val>) -> Option<NativeEffect> {
    match cast {
        Some(v) => gives(v),
        None => None,
    }
}

/// The answer of the type test `f` (`is_nil`, `is_symbol`, ...) on `v`.
pub open spec fn type_test(f: NativeFunc, v: Val) -> bool {
    match f {
        NativeFunc::IsNil => v is Nil,
        NativeFunc::IsSymbol => v is Symbol,
        NativeFunc::IsBool => v is Bool,
        NativeFunc::IsString => v is Str,
        NativeFunc::IsInt => v is Int,
        NativeFunc::IsFunction => is_function_value(v),
        NativeFunc::IsTuple => v is Tuple,
        NativeFunc::IsList => v is List,
        NativeFunc::IsDict => v is Dict,
        _ => v is Struct,
    }
}

pub open spec fn is_tuple_effect(args: Seq<Val>) -> Option<NativeEffect> {
    if args.len() == 1 {
        gives(Val::Bool(args[0] is Tuple))
    } else if args.len() == 2 {
        match (args[0], args[1]) {
            (Val::Tuple(t), Val::Int(l)) => gives(Val::Bool(l >= 0 && t.len() == l)),
            (_, Val::Int(_)) => gives(Val::Bool(false)),
            _ => None,
        }
    } else {
        None
    }
}

pub open spec fn rem_effect(args: Seq<Val>) -> Option<NativeEffect> {
    if args.len() == 2 && args[0] is Int && args[1] is Int && args[1]->Int_0 != 0 && !(
    args[0]->Int_0 == i64::MIN && args[1]->Int_0 == -1) {
        gives(Val::Int(rem_trunc(args[0]->Int_0 as int, args[1]->Int_0 as int) as i64))
    } else {
        None
    }
}

/// The message of the first index along `idx` that `v` cannot be indexed with.
pub open spec fn get_path_error(v: Val, idx: Seq<Val>) -> Seq<char>
    decreases idx.len(),
{
    if idx.len() == 0 {
        Seq::empty()
    } else {
        match at(v, idx[0]) {
            Some(x) => get_path_error(x, idx.drop_first()),
            None => at_error(v, idx[0]),
        }
    }
}

/// The message when `args` are not two strings: `usage` when there are not two arguments,
/// else the position of the first argument that is not a string.
pub open spec fn two_strs_error(args: Seq<Val>, usage: Seq<char>) -> Seq<char> {
    if args.len() != 2 {
        usage
    } else if args[0] is Str {
        "expected string at arg 1"@
    } else {
        "expected string at arg 0"@
    }
}

/// The message with which native function `f` raises for `args` (where `native_effect` has
/// no result).
pub open spec fn native_error(f: NativeFunc, args: Seq<Val>) -> Seq<char> {
    match f {
        NativeFunc::Print | NativeFunc::Println => "print: arg is not printable"@,
        NativeFunc::Inspect => Seq::empty(),
        NativeFunc::Readfile => if args.len() != 1 {
            "readfile(path) expected one arg"@
        } else {
            "expected path as a string"@
        },
        NativeFunc::Len => if args.len() != 1 {
            "len(enumerable) expected one arg"@
        } else {
            "len: value is not enumerable"@
        },
        NativeFunc::Get => if args.len() < 2 {
            "get(enumerable, path..) expected at least two args"@
        } else {
            get_path_error(args[0], args.drop_first())
        },
        NativeFunc::Append => if args.len() != 2 {
            "append(list, item) expected two args"@
        } else {
            "expected list at arg 0"@
        },
        NativeFunc::SortImpl => if args.len() != 1 {
            "sort(list) expected one arg"@
        } else {
            "expected list at arg 0"@
        },
        NativeFunc::Reverse => if args.len() != 1 {
            "reverse(list) expected one arg"@
        } else {
            "expected list at arg 0"@
        },
        NativeFunc::Split => two_strs_error(args, "split(string, splitter) expected two args"@),
        NativeFunc::Trim => "trim(string) expected 1 string"@,
        NativeFunc::StrReplace => if args.len() != 3 {
            "str_replace(string, pattern, replacement) expected three args"@
        } else if args[0] is Str && args[1] is Str {
            "expected string at arg 2"@
        } else if args[0] is Str {
            "expected string at arg 1"@
        } else {
            "expected string at arg 0"@
        },
        NativeFunc::StrReverse => "str_reverse(string) expected 1 string"@,
        NativeFunc::StrFind => two_strs_error(args, "str_find(string, pattern) expected two args"@),
        NativeFunc::StrRfind => two_strs_error(args, "str_find(string, pattern) expected two args"@),
        NativeFunc::StrStartsWith => two_strs_error(
            args,
            "str_starts_with?(string, prefix) expected two args"@,
        ),
        NativeFunc::StrEndsWith => two_strs_error(
            args,
            "str_ends_with?(string, suffix) expected two args"@,
        ),
        NativeFunc::RegexMatch => regex_error(args, "regex_match(string, pattern) expected 2 strings"@),
        NativeFunc::RegexFind => regex_error(args, "regex_find(string, pattern) expected 2 strings"@),
        NativeFunc::RegexFindIndex => regex_error(
            args,
            "regex_find_index(string, pattern) expected 2 strings"@,
        ),
        NativeFunc::Int => if args.len() != 1 {
            "int(other) expected one arg"@
        } else {
            cast_to_int_error(args[0])
        },
        NativeFunc::Str => if args.len() != 1 {
            "str(other) expected one arg"@
        } else {
            "cannot cast to string"@
        },
        NativeFunc::Symbol => if args.len() != 1 {
            "symbol(other) expected one arg"@
        } else {
            "cannot cast to symbol"@
        },
        NativeFunc::Type => "type(other) expected one arg"@,
        NativeFunc::IsTuple => if args.len() != 1 && args.len() != 2 {
            "is_tuple(value [, arity]) expected one or two args"@
        } else {
            "is_tuple(value, arity) expected arity to be an integer"@
        },
        NativeFunc::IsNil | NativeFunc::IsSymbol | NativeFunc::IsBool | NativeFunc::IsString
        | NativeFunc::IsInt | NativeFunc::IsFunction | NativeFunc::IsList | NativeFunc::IsDict
        | NativeFunc::IsStruct => f.spec_name() + "(other) expected one arg"@,
        NativeFunc::Raise => match one_str(args) {
            Some(m) => m,
            None => "expected one string arg to raise"@,
        },
        NativeFunc::RangeIter => "_range_iter(start, stop, step) expected 3 integers"@,
        NativeFunc::Rem => if args.len() != 2 {
            "rem(a, b) expected two args"@
        } else if !(args[0] is Int) {
            "expected int at arg 0"@
        } else if !(args[1] is Int) {
            "expected int at arg 1"@
        } else if args[1]->Int_0 == 0 {
            "rem: division by zero"@
        } else {
            "rem: integer overflow"@
        },
    }
}

/// The message of a regex function: the argument error, or the `regex` crate's error for a
/// pattern it does not accept.
pub open spec fn regex_error(args: Seq<Val>, usage: Seq<char>) -> Seq<char> {
    match two_strs(args) {
        Some((_, pattern)) => regex_error_text(pattern),
        None => two_strs_error(args, usage),
    }
}

/// What native function `f` does with `args`; `None` when it raises.
pub open spec fn native_effect(f: NativeFunc, args: Seq<Val>) -> Option<NativeEffect> {
    match f {
        NativeFunc::Print => if all_printable(args) {
            Some(NativeEffect::Write(render_all(args)))
        } else {
            None
        },
        NativeFunc::Println => if all_printable(args) {
            Some(NativeEffect::Write(render_all(args).push('\n')))
        } else {
            None
        },
        NativeFunc::Inspect => Some(NativeEffect::Inspect(args)),
        NativeFunc::Readfile => match one_str(args) {
            Some(p) => Some(NativeEffect::ReadFile(p)),
            None => None,
        },
        NativeFunc::Len => len_effect(args),
        NativeFunc::Get => get_effect(args),
        NativeFunc::Append => if args.len() == 2 && args[0] is List {
            gives(Val::List(args[0]->List_0.push(args[1])))
        } else {
            None
        },
        NativeFunc::SortImpl => match one_list(args) {
            Some(l) => gives(Val::List(sort_spec(l))),
            None => None,
        },
        NativeFunc::Reverse => match one_list(args) {
            Some(l) => gives(Val::List(l.reverse())),
            None => None,
        },
        NativeFunc::Split => match two_strs(args) {
            Some((s, p)) => gives(Val::List(strings::str_vals(strings::split_spec(s, p)))),
            None => None,
        },
        NativeFunc::Trim => match one_str(args) {
            Some(s) => gives(Val::Str(strings::trim_spec(s))),
            None => None,
        },
        NativeFunc::StrReplace => if args.len() == 3 && args[0] is Str && args[1] is Str
            && args[2] is Str {
            gives(Val::Str(strings::replace_spec(args[0]->Str_0, args[1]->Str_0, args[2]->Str_0)))
        } else {
            None
        },
        NativeFunc::StrReverse => match one_str(args) {
            Some(s) => gives(Val::Str(s.reverse())),
            None => None,
        },
        NativeFunc::StrFind => match two_strs(args) {
            Some((s, p)) => find_effect(strings::find_first(s, p)),
            None => None,
        },
        NativeFunc::StrRfind => match two_strs(args) {
            Some((s, p)) => find_effect(strings::find_last(s, p)),
            None => None,
        },
        NativeFunc::StrStartsWith => match two_strs(args) {
            Some((s, p)) => gives(Val::Bool(p.len() <= s.len() && s.take(p.len() as int) == p)),
            None => None,
        },
        NativeFunc::StrEndsWith => match two_strs(args) {
            Some((s, p)) => gives(
                Val::Bool(p.len() <= s.len() && s.skip(s.len() - p.len()) == p),
            ),
            None => None,
        },
        NativeFunc::RegexMatch => regex_effect(f, args),
        NativeFunc::RegexFind => regex_effect(f, args),
        NativeFunc::RegexFindIndex => regex_effect(f, args),
        NativeFunc::Int => if args.len() == 1 {
            cast_effect(cast_to_int(args[0]))
        } else {
            None
        },
        NativeFunc::Str => if args.len() == 1 {
            cast_effect(cast_to_string(args[0]))
        } else {
            None
        },
        NativeFunc::Symbol => if args.len() == 1 {
            cast_effect(cast_to_symbol(args[0]))
        } else {
            None
        },
        NativeFunc::Type => if args.len() == 1 {
            gives(Val::Str(name_of_type(args[0])))
        } else {
            None
        },
        NativeFunc::IsTuple => is_tuple_effect(args),
        NativeFunc::IsNil | NativeFunc::IsSymbol | NativeFunc::IsBool | NativeFunc::IsString
        | NativeFunc::IsInt | NativeFunc::IsFunction | NativeFunc::IsList | NativeFunc::IsDict
        | NativeFunc::IsStruct => if args.len() == 1 {
            gives(Val::Bool(type_test(f, args[0])))
        } else {
            None
        },
        NativeFunc::Raise => None,
        NativeFunc::RangeIter => if args.len() == 3 && args[0] is Int && args[1] is Int
            && args[2] is Int {
            Some(NativeEffect::NewRangeIter(args[0]->Int_0, args[1]->Int_0, args[2]->Int_0))
        } else {
            None
        },
        NativeFunc::Rem => rem_effect(args),
    }
}

/// `r` is what native function `f` gives for `args`: `Ok` with the value it gives, or `Err`
/// where it raises.
pub open spec fn gives_result(f: NativeFunc, args: Seq<Val>, r: Result<Value, Exception>) -> bool {
    match r {
        Ok(v) => native_effect(f, args) == gives(v@),
        Err(e) => native_effect(f, args) is None && e.shown is None && e.message@ == native_error(f, args),
    }
}

/// The text that `print` (or, with `newline`, `println`) writes for `args`.
fn print_impl(args: &Vec<Value>, newline: bool) -> (r: Result<String, Exception>)
    ensures
        match r {
            Ok(text) => all_printable(views(args@)) && text@ == if newline {
                render_all(views(args@)).push('\n')
            } else {
                render_all(views(args@))
            },
            Err(e) => !all_printable(views(args@)) && e.shown is None && e.message@ == "print: arg is not printable"@,
        },
{
    let ghost vs = views(args@);
    proof {
        lemma_views(args@);
    }
    let mut text = String::new();
    let mut i: usize = 0;
    assert(vs.take(0) =~= Seq::<Val>::empty());
    while i < args.len()
        invariant
            i <= args.len(),
            vs == views(args@),
            vs.len() == args.len(),
            forall|k: int| 0 <= k < args.len() ==> #[trigger] vs[k] == args@[k]@,
            forall|k: int| 0 <= k < i ==> printable(#[trigger] vs[k]),
            text@ == render_all(vs.take(i as int)),
        decreases args.len() - i,
    {
        assert(vs.take(i + 1).drop_last() =~= vs.take(i as int));
        assert(vs.take(i + 1).last() == args@[i as int]@);
        match &args[i] {
            Value::String(s) => {
                text = concat_str(text.as_str(), s.as_str());
            },
            Value::Integer(n) => {
                let digits = int_to_string(*n);
                text = concat_str(text.as_str(), digits.as_str());
            },
            _ => {
                return raise("print: arg is not printable");
            },
        }
        i = i + 1;
    }
    assert(vs.take(args.len() as int) =~= vs);
    if newline {
        proof {
            reveal_strlit("\n");
        }
        text = concat_str(text.as_str(), "\n");
        assert(text@ =~= render_all(vs).push('\n'));
    }
    Ok(text)
}

/// The text that `print(args..)` writes.
fn print(args: &Vec<Value>) -> (r: Result<String, Exception>)
    ensures
        match r {
            Ok(text) => native_effect(NativeFunc::Print, views(args@)) == Some(
                NativeEffect::Write(text@),
            ),
            Err(e) => native_effect(NativeFunc::Print, views(args@)) is None && e.shown is None && e.message@
                == native_error(NativeFunc::Print, views(args@)),
        },
{
    print_impl(args, false)
}

/// The text that `println(args..)` writes.
fn println(args: &Vec<Value>) -> (r: Result<String, Exception>)
    ensures
        match r {
            Ok(text) => native_effect(NativeFunc::Println, views(args@)) == Some(
                NativeEffect::Write(text@),
            ),
            Err(e) => native_effect(NativeFunc::Println, views(args@)) is None && e.shown is None && e.message@
                == native_error(NativeFunc::Println, views(args@)),
        },
{
    print_impl(args, true)
}

/// The path that `readfile(path)` reads.
fn readfile(args: &Vec<Value>) -> (r: Result<String, Exception>)
    ensures
        match r {
            Ok(path) => native_effect(NativeFunc::Readfile, views(args@)) == Some(
                NativeEffect::ReadFile(path@),
            ),
            Err(e) => native_effect(NativeFunc::Readfile, views(args@)) is None && e.shown is None && e.message@
                == native_error(NativeFunc::Readfile, views(args@)),
        },
{
    proof {
        lemma_views(args@);
    }
    if args.len() != 1 {
        return raise("readfile(path) expected one arg");
    }
    match &args[0] {
        Value::String(p) => Ok(p.clone()),
        _ => raise("expected path as a string"),
    }
}

/// `len(enumerable)`: the number of elements of a tuple, dictionary, string or list.
fn len(args: &Vec<Value>) -> (r: Result<Value, Exception>)
    ensures
        gives_result(NativeFunc::Len, views(args@), r),
{
    proof {
        lemma_views(args@);
    }
    if args.len() != 1 {
        return raise("len(enumerable) expected one arg");
    }
    match &args[0] {
        Value::Tuple(v) => {
            proof {
                lemma_views(v@);
            }
            Ok(Value::Integer(v.len() as i64))
        },
        Value::Dict(v) => {
            proof {
                lemma_pair_views(v@);
            }
            Ok(Value::Integer(v.len() as i64))
        },
        Value::String(_) | Value::List(_) => {
            let n = args[0].enum_len();
            Ok(Value::Integer(n as i64))
        },
        _ => raise("len: value is not enumerable"),
    }
}

proof fn lemma_get_path_step(v: Val, idx: Seq<Val>)
    requires
        idx.len() > 0,
    ensures
        get_path(v, idx) == match at(v, idx[0]) {
            Some(x) => get_path(x, idx.drop_first()),
            None => None,
        },
        get_path_error(v, idx) == match at(v, idx[0]) {
            Some(x) => get_path_error(x, idx.drop_first()),
            None => at_error(v, idx[0]),
        },
{
}

/// `get(value, path..)`: follows the indices of the path one after the other.
#[verifier::spinoff_prover]
#[verifier::rlimit(40)]
fn get(args: &Vec<Value>) -> (r: Result<Value, Exception>)
    ensures
        gives_result(NativeFunc::Get, views(args@), r),
{
    let ghost vs = views(args@);
    proof {
        lemma_views(args@);
    }
    if args.len() < 2 {
        return raise("get(enumerable, path..) expected at least two args");
    }
    let mut res = args[0].duplicate();
    let mut i: usize = 1;
    assert(vs.drop_first() =~= vs.skip(1));
    while i < args.len()
        invariant
            1 <= i <= args.len(),
            vs == views(args@),
            vs.len() == args.len(),
            forall|k: int| 0 <= k < args.len() ==> #[trigger] vs[k] == args@[k]@,
            get_path(vs[0], vs.drop_first()) == get_path(res@, vs.skip(i as int)),
            get_path_error(vs[0], vs.drop_first()) == get_path_error(res@, vs.skip(i as int)),
        decreases args.len() - i,
    {
        proof {
            lemma_get_path_step(res@, vs.skip(i as int));
            assert(vs.skip(i as int).drop_first() =~= vs.skip(i + 1));
        }
        match res.at(&args[i]) {
            Ok(next) => {
                res = next;
            },
            Err(e) => {
                return Err(e);
            },
        }
        i = i + 1;
    }
    assert(vs.skip(args.len() as int) =~= Seq::<Val>::empty());
    Ok(res)
}

/// `append(list, item)`: a new list with `item` at the end.
fn append(args: &Vec<Value>) -> (r: Result<Value, Exception>)
    ensures
        gives_result(NativeFunc::Append, views(args@), r),
{
    proof {
        lemma_views(args@);
    }
    if args.len() != 2 {
        return raise("append(list, item) expected two args");
    }
    match &args[0] {
        Value::List(l) => {
            let mut items = duplicate_seq(l);
            let ghost before = items@;
            items.push(args[1].duplicate());
            proof {
                lemma_views(items@);
                lemma_views(before);
                lemma_views(l@);
                assert(views(items@) =~= views(l@).push(args@[1]@));
            }
            Ok(Value::List(items))
        },
        _ => raise("expected list at arg 0"),
    }
}

/// `reverse(list)`: a new list with the elements in reverse order.
fn reverse(args: &Vec<Value>) -> (r: Result<Value, Exception>)
    ensures
        gives_result(NativeFunc::Reverse, views(args@), r),
{
    proof {
        lemma_views(args@);
    }
    if args.len() != 1 {
        return raise("reverse(list) expected one arg");
    }
    match &args[0] {
        Value::List(l) => {
            let ghost lv = views(l@);
            proof {
                lemma_views(l@);
            }
            let mut items: Vec<Value> = Vec::new();
            let mut i: usize = l.len();
            while i > 0
                invariant
                    i <= l.len(),
                    lv == views(l@),
                    lv.len() == l.len(),
                    forall|k: int| 0 <= k < l.len() ==> #[trigger] lv[k] == l@[k]@,
                    items@.len() == l.len() - i,
                    forall|k: int| 0 <= k < items@.len() ==> #[trigger] items@[k]@ == lv[l.len() - 1 - k],
                decreases i,
            {
                items.push(l[i - 1].duplicate());
                i = i - 1;
            }
            proof {
                lemma_views(items@);
                assert(views(items@) =~= lv.reverse());
            }
            Ok(Value::List(items))
        },
        _ => raise("expected list at arg 0"),
    }
}

/// `sort_impl(list)`: a new list with the elements in increasing order.
fn sort_impl(args: &Vec<Value>) -> (r: Result<Value, Exception>)
    ensures
        gives_result(NativeFunc::SortImpl, views(args@), r),
{
    proof {
        lemma_views(args@);
    }
    if args.len() != 1 {
        return raise("sort(list) expected one arg");
    }
    match &args[0] {
        Value::List(l) => Ok(Value::List(sort_values(l))),
        _ => raise("expected list at arg 0"),
    }
}

/// `split(string, separator)`: the pieces between the occurrences of the separator.
fn split(args: &Vec<Value>) -> (r: Result<Value, Exception>)
    ensures
        gives_result(NativeFunc::Split, views(args@), r),
{
    proof {
        lemma_views(args@);
    }
    if args.len() != 2 {
        return raise("split(string, splitter) expected two args");
    }
    match (&args[0], &args[1]) {
        (Value::String(string), Value::String(splitter)) => Ok(
            Value::List(strings::split_values(string.as_str(), splitter.as_str())),
        ),
        (Value::String(_), _) => raise("expected string at arg 1"),
        _ => raise("expected string at arg 0"),
    }
}

/// `trim(string)`: the string without leading and trailing white space.
fn trim(args: &Vec<Value>) -> (r: Result<Value, Exception>)
    ensures
        gives_result(NativeFunc::Trim, views(args@), r),
{
    proof {
        lemma_views(args@);
    }
    if args.len() != 1 {
        return raise("trim(string) expected 1 string");
    }
    match &args[0] {
        Value::String(string) => Ok(Value::String(strings::str_trim_spec(string.as_str()))),
        _ => raise("trim(string) expected 1 string"),
    }
}

/// `str_replace(string, pattern, replacement)`: every occurrence of the pattern replaced.
fn str_replace(args: &Vec<Value>) -> (r: Result<Value, Exception>)
    ensures
        gives_result(NativeFunc::StrReplace, views(args@), r),
{
    proof {
        lemma_views(args@);
    }
    if args.len() != 3 {
        return raise("str_replace(string, pattern, replacement) expected three args");
    }
    match (&args[0], &args[1], &args[2]) {
        (Value::String(string), Value::String(pattern), Value::String(replacement)) => Ok(
            Value::String(
                strings::str_replace(string.as_str(), pattern.as_str(), replacement.as_str()),
            ),
        ),
        (Value::String(_), Value::String(_), _) => raise("expected string at arg 2"),
        (Value::String(_), _, _) => raise("expected string at arg 1"),
        _ => raise("expected string at arg 0"),
    }
}

/// `str_reverse(string)`: the characters in reverse order.
fn str_reverse(args: &Vec<Value>) -> (r: Result<Value, Exception>)
    ensures
        gives_result(NativeFunc::StrReverse, views(args@), r),
{
    proof {
        lemma_views(args@);
    }
    if args.len() != 1 {
        return raise("str_reverse(string) expected 1 string");
    }
    match &args[0] {
        Value::String(string) => Ok(Value::String(strings::str_reverse(string.as_str()))),
        _ => raise("str_reverse(string) expected 1 string"),
    }
}

/// The two string arguments, or the exception raised for other arguments.
fn two_strings<'a>(args: &'a Vec<Value>, usage: &str) -> (r: Result<(&'a String, &'a String), Exception>)
    ensures
        match r {
            Ok((a, b)) => two_strs(views(args@)) == Some((a@, b@)),
            Err(e) => two_strs(views(args@)) is None && e.shown is None && e.message@ == two_strs_error(
                views(args@),
                usage@,
            ),
        },
{
    proof {
        lemma_views(args@);
    }
    if args.len() != 2 {
        return raise(usage);
    }
    match (&args[0], &args[1]) {
        (Value::String(a), Value::String(b)) => Ok((a, b)),
        (Value::String(_), _) => raise("expected string at arg 1"),
        _ => raise("expected string at arg 0"),
    }
}

/// A character index found in a string, or `nil`.
fn index_or_nil(found: Option<usize>) -> (r: Value)
    ensures
        gives(r@) == find_effect(
            match found {
                Some(i) => Some(i as int),
                None => None,
            },
        ),
{
    match found {
        Some(i) => Value::Integer(i as i64),
        None => Value::Nil,
    }
}

/// `str_find(string, pattern)`: the character index of the first occurrence, or `nil`.
fn str_find(args: &Vec<Value>) -> (r: Result<Value, Exception>)
    ensures
        gives_result(NativeFunc::StrFind, views(args@), r),
{
    let (string, pattern) = two_strings(args, "str_find(string, pattern) expected two args")?;
    Ok(index_or_nil(strings::str_find(string.as_str(), pattern.as_str())))
}

/// `str_rfind(string, pattern)`: the character index of the last occurrence, or `nil`.
fn str_rfind(args: &Vec<Value>) -> (r: Result<Value, Exception>)
    ensures
        gives_result(NativeFunc::StrRfind, views(args@), r),
{
    let (string, pattern) = two_strings(args, "str_find(string, pattern) expected two args")?;
    Ok(index_or_nil(strings::str_rfind(string.as_str(), pattern.as_str())))
}

/// `str_starts_with?(string, prefix)`.
fn str_starts_with(args: &Vec<Value>) -> (r: Result<Value, Exception>)
    ensures
        gives_result(NativeFunc::StrStartsWith, views(args@), r),
{
    let (string, prefix) = two_strings(
        args,
        "str_starts_with?(string, prefix) expected two args",
    )?;
    Ok(Value::Bool(strings::str_starts_with(string.as_str(), prefix.as_str())))
}

/// `str_ends_with?(string, suffix)`.
fn str_ends_with(args: &Vec<Value>) -> (r: Result<Value, Exception>)
    ensures
        gives_result(NativeFunc::StrEndsWith, views(args@), r),
{
    let (string, suffix) = two_strings(args, "str_ends_with?(string, suffix) expected two args")?;
    Ok(Value::Bool(strings::str_ends_with(string.as_str(), suffix.as_str())))
}

/// `regex_match(string, pattern)`: whether the pattern matches somewhere in the string.
fn regex_match(args: &Vec<Value>) -> (r: Result<Value, Exception>)
    ensures
        gives_result(NativeFunc::RegexMatch, views(args@), r),
{
    let (string, pattern) = two_strings(args, "regex_match(string, pattern) expected 2 strings")?;
    match regex_match_in(pattern.as_str(), string.as_str()) {
        Ok(b) => Ok(Value::Bool(b)),
        Err(message) => Err(Exception::new(message)),
    }
}

/// `regex_find(string, pattern)`: the text of the first match, or `nil`.
fn regex_find(args: &Vec<Value>) -> (r: Result<Value, Exception>)
    ensures
        gives_result(NativeFunc::RegexFind, views(args@), r),
{
    let (string, pattern) = two_strings(args, "regex_find(string, pattern) expected 2 strings")?;
    match regex_find_in(pattern.as_str(), string.as_str()) {
        Ok(Some((_, _, text))) => Ok(Value::String(text)),
        Ok(None) => Ok(Value::Nil),
        Err(message) => Err(Exception::new(message)),
    }
}

/// `regex_find_index(string, pattern)`: the byte offsets `[start, end]` of the first match,
/// or `nil`.
fn regex_find_index(args: &Vec<Value>) -> (r: Result<Value, Exception>)
    ensures
        gives_result(NativeFunc::RegexFindIndex, views(args@), r),
{
    let (string, pattern) = two_strings(
        args,
        "regex_find_index(string, pattern) expected 2 strings",
    )?;
    match regex_find_in(pattern.as_str(), string.as_str()) {
        Ok(Some((start, end, _))) => {
            let bounds = vec![Value::Integer(start as i64), Value::Integer(end as i64)];
            proof {
                lemma_views(bounds@);
                assert(views(bounds@) =~= seq![Val::Int(start as i64), Val::Int(end as i64)]);
            }
            Ok(Value::List(bounds))
        },
        Ok(None) => Ok(Value::Nil),
        Err(message) => Err(Exception::new(message)),
    }
}

/// `int(value)`: the value cast to an integer.
fn int_(args: &Vec<Value>) -> (r: Result<Value, Exception>)
    ensures
        gives_result(NativeFunc::Int, views(args@), r),
{
    proof {
        lemma_views(args@);
    }
    if args.len() != 1 {
        return raise("int(other) expected one arg");
    }
    args[0].cast_to_int()
}

/// `str(value)`: the value cast to a string.
fn str_(args: &Vec<Value>) -> (r: Result<Value, Exception>)
    ensures
        gives_result(NativeFunc::Str, views(args@), r),
{
    proof {
        lemma_views(args@);
    }
    if args.len() != 1 {
        return raise("str(other) expected one arg");
    }
    args[0].cast_to_string()
}

/// `symbol(value)`: the value cast to a symbol.
fn symbol(args: &Vec<Value>) -> (r: Result<Value, Exception>)
    ensures
        gives_result(NativeFunc::Symbol, views(args@), r),
{
    proof {
        lemma_views(args@);
    }
    if args.len() != 1 {
        return raise("symbol(other) expected one arg");
    }
    args[0].cast_to_symbol()
}

/// `type(value)`: the name of the value's type.
fn type_(args: &Vec<Value>) -> (r: Result<Value, Exception>)
    ensures
        gives_result(NativeFunc::Type, views(args@), r),
{
    proof {
        lemma_views(args@);
    }
    if args.len() != 1 {
        return raise("type(other) expected one arg");
    }
    Ok(Value::string(args[0].name_of_type()))
}

/// The answer of the type test `f` on `v`.
fn type_test_of(f: NativeFunc, v: &Value) -> (r: bool)
    ensures
        r == type_test(f, v@),
{
    match f {
        NativeFunc::IsNil => matches!(v, Value::Nil),
        NativeFunc::IsSymbol => matches!(v, Value::Symbol(_)),
        NativeFunc::IsBool => matches!(v, Value::Bool(_)),
        NativeFunc::IsString => matches!(v, Value::String(_)),
        NativeFunc::IsInt => matches!(v, Value::Integer(_)),
        NativeFunc::IsFunction => matches!(
            v,
            Value::NativeFunc(_) | Value::NativeClosure(_) | Value::Function(_) | Value::Closure(_)
        ),
        NativeFunc::IsTuple => matches!(v, Value::Tuple(_)),
        NativeFunc::IsList => matches!(v, Value::List(_)),
        NativeFunc::IsDict => matches!(v, Value::Dict(_)),
        _ => matches!(v, Value::Struct(_, _)),
    }
}

/// `is_nil(value)`, `is_symbol(value)`, ... `is_struct(value)`: the type test `f`.
fn type_check(f: NativeFunc, args: &Vec<Value>) -> (r: Result<Value, Exception>)
    requires
        f == NativeFunc::IsNil || f == NativeFunc::IsSymbol || f == NativeFunc::IsBool || f
            == NativeFunc::IsString || f == NativeFunc::IsInt || f == NativeFunc::IsFunction
            || f == NativeFunc::IsList || f == NativeFunc::IsDict || f == NativeFunc::IsStruct,
    ensures
        gives_result(f, views(args@), r),
{
    proof {
        lemma_views(args@);
    }
    if args.len() != 1 {
        return Err(Exception::new(concat_str(f.name(), "(other) expected one arg")));
    }
    Ok(Value::Bool(type_test_of(f, &args[0])))
}

/// `is_tuple(value)`, or `is_tuple(value, arity)`: whether the value is a tuple (with that
/// number of elements).
fn is_tuple(args: &Vec<Value>) -> (r: Result<Value, Exception>)
    ensures
        gives_result(NativeFunc::IsTuple, views(args@), r),
{
    proof {
        lemma_views(args@);
    }
    if args.len() == 1 {
        return Ok(Value::Bool(matches!(&args[0], Value::Tuple(_))));
    }
    if args.len() != 2 {
        return raise("is_tuple(value [, arity]) expected one or two args");
    }
    match (&args[0], &args[1]) {
        (Value::Tuple(t), Value::Integer(l)) => {
            proof {
                lemma_views(t@);
            }
            let n = t.len() as u64;
            Ok(Value::Bool(*l >= 0 && n == (*l as u64)))
        },
        (_, Value::Integer(_)) => Ok(Value::Bool(false)),
        _ => raise("is_tuple(value, arity) expected arity to be an integer"),
    }
}

/// `raise(message)`: raises an exception with the message.
fn raise_message(args: &Vec<Value>) -> (r: Exception)
    ensures
        match one_str(views(args@)) {
            Some(m) => r.shown is None && r.message@ == m,
            None => r.shown is None && r.message@ == "expected one string arg to raise"@,
        },
{
    proof {
        lemma_views(args@);
        reveal_strlit("expected one string arg to raise");
    }
    if args.len() == 1 {
        if let Value::String(s) = &args[0] {
            return Exception::new(s.clone());
        }
    }
    Exception::new("expected one string arg to raise".to_owned())
}

/// `_range_iter(start, stop, step)`: the bounds of a new range iterator.
fn range_iter(args: &Vec<Value>) -> (r: Result<(i64, i64, i64), Exception>)
    ensures
        match r {
            Ok((a, b, c)) => native_effect(NativeFunc::RangeIter, views(args@)) == Some(
                NativeEffect::NewRangeIter(a, b, c),
            ),
            Err(e) => native_effect(NativeFunc::RangeIter, views(args@)) is None && e.shown is None && e.message@
                == native_error(NativeFunc::RangeIter, views(args@)),
        },
{
    proof {
        lemma_views(args@);
    }
    if args.len() != 3 {
        return raise("_range_iter(start, stop, step) expected 3 integers");
    }
    match (&args[0], &args[1], &args[2]) {
        (Value::Integer(start), Value::Integer(stop), Value::Integer(step)) => Ok(
            (*start, *stop, *step),
        ),
        _ => raise("_range_iter(start, stop, step) expected 3 integers"),
    }
}

/// `rem(a, b)`: the remainder of the truncating division of `a` by `b`.
fn rem(args: &Vec<Value>) -> (r: Result<Value, Exception>)
    ensures
        gives_result(NativeFunc::Rem, views(args@), r),
{
    proof {
        lemma_views(args@);
    }
    if args.len() != 2 {
        return raise("rem(a, b) expected two args");
    }
    let a = match &args[0] {
        Value::Integer(i) => *i,
        _ => {
            return raise("expected int at arg 0");
        },
    };
    let b = match &args[1] {
        Value::Integer(i) => *i,
        _ => {
            return raise("expected int at arg 1");
        },
    };
    if b == 0 {
        return raise("rem: division by zero");
    }
    match checked_rem_trunc(a, b) {
        Some(x) => Ok(Value::Integer(x)),
        None => raise("rem: integer overflow"),
    }
}

/// A value given by a native function, as an outcome.
fn returned(r: Result<Value, Exception>) -> (o: Result<NativeOutcome, Exception>)
    ensures
        match r {
            Ok(v) => o matches Ok(out) && out@ == NativeEffect::Return(v@),
            Err(e) => o == Err::<NativeOutcome, Exception>(e),
        },
{
    match r {
        Ok(v) => Ok(NativeOutcome::Return(v)),
        Err(e) => Err(e),
    }
}

/// Carries out native function `f` on `args`, up to the outside work it asks for (writing,
/// showing or reading a file, making an iterator), which the outcome describes.
pub fn call_native(f: NativeFunc, args: &Vec<Value>) -> (r: Result<NativeOutcome, Exception>)
    ensures
        match r {
            Ok(o) => native_effect(f, views(args@)) == Some(o@),
            Err(e) => native_effect(f, views(args@)) is None && e.shown is None && e.message@ == native_error(
                f,
                views(args@),
            ),
        },
{
    match f {
        NativeFunc::Print => match print(args) {
            Ok(text) => Ok(NativeOutcome::Write(text)),
            Err(e) => Err(e),
        },
        NativeFunc::Println => match println(args) {
            Ok(text) => Ok(NativeOutcome::Write(text)),
            Err(e) => Err(e),
        },
        NativeFunc::Inspect => {
            let shown = duplicate_seq(args);
            Ok(NativeOutcome::Inspect(shown))
        },
        NativeFunc::Readfile => match readfile(args) {
            Ok(path) => Ok(NativeOutcome::ReadFile(path)),
            Err(e) => Err(e),
        },
        NativeFunc::Len => returned(len(args)),
        NativeFunc::Get => returned(get(args)),
        NativeFunc::Append => returned(append(args)),
        NativeFunc::SortImpl => returned(sort_impl(args)),
        NativeFunc::Reverse => returned(reverse(args)),
        NativeFunc::Split => returned(split(args)),
        NativeFunc::Trim => returned(trim(args)),
        NativeFunc::StrReplace => returned(str_replace(args)),
        NativeFunc::StrReverse => returned(str_reverse(args)),
        NativeFunc::StrFind => returned(str_find(args)),
        NativeFunc::StrRfind => returned(str_rfind(args)),
        NativeFunc::StrStartsWith => returned(str_starts_with(args)),
        NativeFunc::StrEndsWith => returned(str_ends_with(args)),
        NativeFunc::RegexMatch => returned(regex_match(args)),
        NativeFunc::RegexFind => returned(regex_find(args)),
        NativeFunc::RegexFindIndex => returned(regex_find_index(args)),
        NativeFunc::Int => returned(int_(args)),
        NativeFunc::Str => returned(str_(args)),
        NativeFunc::Symbol => returned(symbol(args)),
        NativeFunc::Type => returned(type_(args)),
        NativeFunc::IsTuple => returned(is_tuple(args)),
        NativeFunc::IsNil | NativeFunc::IsSymbol | NativeFunc::IsBool | NativeFunc::IsString
        | NativeFunc::IsInt | NativeFunc::IsFunction | NativeFunc::IsList | NativeFunc::IsDict
        | NativeFunc::IsStruct => returned(type_check(f, args)),
        NativeFunc::Raise => Err(raise_message(args)),
        NativeFunc::RangeIter => match range_iter(args) {
            Ok((start, stop, step)) => Ok(NativeOutcome::NewRangeIter(start, stop, step)),
            Err(e) => Err(e),
        },
        NativeFunc::Rem => returned(rem(args)),
    }
}

/// The native function named `name`: the first in the table with that name.
pub open spec fn native_named(name: Seq<char>) -> Option<NativeFunc> {
    if exists|f: NativeFunc| f.spec_name() == name {
        Some(
            choose|f: NativeFunc|
                f.spec_name() == name && forall|g: NativeFunc|
                    g.rank() < f.rank() ==> #[trigger] g.spec_name() != name,
        )
    } else {
        None
    }
}

/// The native function named `name`, if there is one.
pub fn func(name: &str) -> (r: Option<NativeFunc>)
    ensures
        r == native_named(name@),
        match r {
            Some(f) => f.spec_name() == name@,
            None => forall|f: NativeFunc| #[trigger] f.spec_name() != name@,
        },
{
    let mut i: usize = 0;
    while i < NATIVE_FUNC_COUNT
        invariant
            i <= NATIVE_FUNC_COUNT,
            forall|f: NativeFunc| f.rank() < i ==> #[trigger] f.spec_name() != name@,
        decreases NATIVE_FUNC_COUNT - i,
    {
        match NativeFunc::from_index(i) {
            Some(f) => {
                let fname = f.name();
                proof {
                    lemma_order_chars(fname@, name@);
                }
                if compare_str(fname, name) == Order::Equal {
                    proof {
                        let g = choose|g: NativeFunc|
                            g.spec_name() == name@ && forall|h: NativeFunc|
                                h.rank() < g.rank() ==> #[trigger] h.spec_name() != name@;
                        assert(g.rank() == f.rank()) by {
                            if g.rank() < f.rank() {
                                assert(g.spec_name() != name@);
                            } else if f.rank() < g.rank() {
                                assert(f.spec_name() != name@);
                            }
                        }
                        lemma_rank_injective(f, g);
                    }
                    return Some(f);
                }
                proof {
                    assert forall|g: NativeFunc| g.rank() < i + 1 implies #[trigger] g.spec_name()
                        != name@ by {
                        if g.rank() == i {
                            lemma_rank_injective(f, g);
                        }
                    }
                }
            },
            None => {},
        }
        i = i + 1;
    }
    proof {
        assert forall|f: NativeFunc| #[trigger] f.spec_name() != name@ by {
            assert(f.rank() < NATIVE_FUNC_COUNT);
        }
    }
    None
}

/// Different native functions have different positions in the table.
pub proof fn lemma_rank_injective(a: NativeFunc, b: NativeFunc)
    ensures
        a.rank() == b.rank() ==> a == b,
{
}

} // verus!
