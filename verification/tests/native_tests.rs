use dang::native_funcs::{call_native, func, NativeFunc, NativeOutcome};
use dang::value::Value;

fn s(x: &str) -> Value {
    Value::String(x.to_owned())
}

fn i(x: i64) -> Value {
    Value::Integer(x)
}

fn ret(f: NativeFunc, args: Vec<Value>) -> Value {
    match call_native(f, &args) {
        Ok(NativeOutcome::Return(v)) => v,
        other => panic!("unexpected outcome {:?}", other),
    }
}

fn raises(f: NativeFunc, args: Vec<Value>) -> bool {
    call_native(f, &args).is_err()
}

#[test]
fn len_of_strings_lists_tuples_dicts() {
    assert_eq!(ret(NativeFunc::Len, vec![s("abcdef")]), i(6));
    assert_eq!(ret(NativeFunc::Len, vec![Value::List(vec![i(1), i(2), i(3)])]), i(3));
    assert_eq!(ret(NativeFunc::Len, vec![Value::Tuple(vec![i(1), i(2)])]), i(2));
    assert_eq!(ret(NativeFunc::Len, vec![Value::Dict(vec![(s("a"), i(1))])]), i(1));
    assert_eq!(ret(NativeFunc::Len, vec![s("héllo")]), i(5));
    assert!(raises(NativeFunc::Len, vec![i(3)]));
    assert!(raises(NativeFunc::Len, vec![]));
}

#[test]
fn reverse_and_append() {
    assert_eq!(
        ret(NativeFunc::Reverse, vec![Value::List(vec![i(1), i(2), i(3)])]),
        Value::List(vec![i(3), i(2), i(1)])
    );
    assert_eq!(
        ret(NativeFunc::Append, vec![Value::List(vec![i(1)]), i(2)]),
        Value::List(vec![i(1), i(2)])
    );
    assert!(raises(NativeFunc::Append, vec![i(1), i(2)]));
}

#[test]
fn sort_orders_values() {
    assert_eq!(
        ret(NativeFunc::SortImpl, vec![Value::List(vec![i(3), i(1), i(2), i(1)])]),
        Value::List(vec![i(1), i(1), i(2), i(3)])
    );
    assert_eq!(
        ret(NativeFunc::SortImpl, vec![Value::List(vec![s("b"), s("a"), s("ab")])]),
        Value::List(vec![s("a"), s("ab"), s("b")])
    );
}

#[test]
fn get_follows_a_path() {
    let nested = Value::List(vec![Value::Tuple(vec![i(1), s("xy")])]);
    assert_eq!(ret(NativeFunc::Get, vec![nested.clone(), i(0), i(1), i(1)]), s("y"));
    assert!(raises(NativeFunc::Get, vec![nested.clone(), i(5)]));
    assert!(raises(NativeFunc::Get, vec![nested]));
    let dict = Value::Dict(vec![(s("a"), i(1))]);
    assert_eq!(ret(NativeFunc::Get, vec![dict.clone(), s("a")]), i(1));
    assert_eq!(ret(NativeFunc::Get, vec![dict, s("zz")]), Value::Nil);
}

#[test]
fn split_trim_replace() {
    assert_eq!(
        ret(NativeFunc::Split, vec![s("a,b,,c"), s(",")]),
        Value::List(vec![s("a"), s("b"), s(""), s("c")])
    );
    assert_eq!(
        ret(NativeFunc::Split, vec![s("ab"), s("")]),
        Value::List(vec![s(""), s("a"), s("b"), s("")])
    );
    assert_eq!(ret(NativeFunc::Trim, vec![s("  hi \n")]), s("hi"));
    assert_eq!(ret(NativeFunc::StrReplace, vec![s("aXbXc"), s("X"), s("--")]), s("a--b--c"));
    assert_eq!(ret(NativeFunc::StrReverse, vec![s("abc")]), s("cba"));
    assert!(raises(NativeFunc::Split, vec![s("a"), i(1)]));
}

#[test]
fn find_and_affixes() {
    assert_eq!(ret(NativeFunc::StrFind, vec![s("hello"), s("l")]), i(2));
    assert_eq!(ret(NativeFunc::StrRfind, vec![s("hello"), s("l")]), i(3));
    assert_eq!(ret(NativeFunc::StrFind, vec![s("hello"), s("z")]), Value::Nil);
    assert_eq!(ret(NativeFunc::StrFind, vec![s("héllo"), s("l")]), i(2));
    assert_eq!(ret(NativeFunc::StrStartsWith, vec![s("hello"), s("he")]), Value::Bool(true));
    assert_eq!(ret(NativeFunc::StrEndsWith, vec![s("hello"), s("he")]), Value::Bool(false));
}

#[test]
fn regex_functions() {
    assert_eq!(ret(NativeFunc::RegexMatch, vec![s("abc123"), s("[0-9]+")]), Value::Bool(true));
    assert_eq!(ret(NativeFunc::RegexFind, vec![s("abc123"), s("[0-9]+")]), s("123"));
    assert_eq!(
        ret(NativeFunc::RegexFindIndex, vec![s("abc123"), s("[0-9]+")]),
        Value::List(vec![i(3), i(6)])
    );
    assert_eq!(ret(NativeFunc::RegexFind, vec![s("abc"), s("[0-9]+")]), Value::Nil);
    assert!(raises(NativeFunc::RegexMatch, vec![s("abc"), s("(")]));
}

#[test]
fn casts() {
    assert_eq!(ret(NativeFunc::Int, vec![s("-42")]), i(-42));
    assert_eq!(ret(NativeFunc::Int, vec![Value::Bool(true)]), i(1));
    assert!(raises(NativeFunc::Int, vec![s("4x")]));
    assert_eq!(ret(NativeFunc::Str, vec![i(-17)]), s("-17"));
    assert_eq!(ret(NativeFunc::Str, vec![Value::Bool(false)]), s("false"));
    assert_eq!(ret(NativeFunc::Symbol, vec![s("ok")]), Value::Symbol("ok".to_owned()));
    assert!(raises(NativeFunc::Symbol, vec![i(1)]));
}

#[test]
fn type_checks() {
    assert_eq!(ret(NativeFunc::Type, vec![i(1)]), s("int"));
    assert_eq!(ret(NativeFunc::Type, vec![Value::Nil]), s("nil"));
    assert_eq!(ret(NativeFunc::IsNil, vec![Value::Nil]), Value::Bool(true));
    assert_eq!(ret(NativeFunc::IsString, vec![i(1)]), Value::Bool(false));
    assert_eq!(ret(NativeFunc::IsFunction, vec![Value::NativeFunc(NativeFunc::Len)]), Value::Bool(true));
    assert_eq!(ret(NativeFunc::IsTuple, vec![Value::Tuple(vec![i(1), i(2)]), i(2)]), Value::Bool(true));
    assert_eq!(ret(NativeFunc::IsTuple, vec![Value::Tuple(vec![i(1)]), i(2)]), Value::Bool(false));
    assert_eq!(ret(NativeFunc::IsTuple, vec![i(1), i(2)]), Value::Bool(false));
    assert!(raises(NativeFunc::IsTuple, vec![i(1), s("x")]));
}

#[test]
fn rem_and_raise() {
    assert_eq!(ret(NativeFunc::Rem, vec![i(-7), i(3)]), i(-1));
    assert_eq!(ret(NativeFunc::Rem, vec![i(7), i(-3)]), i(1));
    assert!(raises(NativeFunc::Rem, vec![i(7), i(0)]));
    match call_native(NativeFunc::Raise, &vec![s("boom")]) {
        Err(e) => assert_eq!(e.message, "boom"),
        other => panic!("expected raise, got {:?}", other),
    }
}

#[test]
fn io_natives_describe_their_work() {
    match call_native(NativeFunc::Print, &vec![s("a"), i(1)]) {
        Ok(NativeOutcome::Write(t)) => assert_eq!(t, "a1"),
        other => panic!("{:?}", other),
    }
    assert!(raises(NativeFunc::Print, vec![Value::Nil]));
    match call_native(NativeFunc::Readfile, &vec![s("x.txt")]) {
        Ok(NativeOutcome::ReadFile(p)) => assert_eq!(p, "x.txt"),
        other => panic!("{:?}", other),
    }
    match call_native(NativeFunc::RangeIter, &vec![i(0), i(3), i(1)]) {
        Ok(NativeOutcome::NewRangeIter(a, b, c)) => assert_eq!((a, b, c), (0, 3, 1)),
        other => panic!("{:?}", other),
    }
}

#[test]
fn lookup_by_name() {
    assert_eq!(func("len"), Some(NativeFunc::Len));
    assert_eq!(func("str_starts_with?"), Some(NativeFunc::StrStartsWith));
    assert_eq!(func("_range_iter"), Some(NativeFunc::RangeIter));
    assert_eq!(func("nope"), None);
    assert_eq!(NativeFunc::Rem.name(), "rem");
}

fn message(f: NativeFunc, args: Vec<Value>) -> String {
    match call_native(f, &args) {
        Err(e) => e.message,
        Ok(_) => panic!("expected an exception"),
    }
}

#[test]
fn argument_count_errors_name_the_function() {
    assert_eq!(message(NativeFunc::IsNil, vec![]), "is_nil(other) expected one arg");
    assert_eq!(message(NativeFunc::IsStruct, vec![i(1), i(2)]), "is_struct(other) expected one arg");
    assert_eq!(message(NativeFunc::Raise, vec![i(1)]), "expected one string arg to raise");
}
