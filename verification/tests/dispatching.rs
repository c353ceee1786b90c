use thunder::dispatch::{
    convert, convert_all, dispatch, select_handler, ArgError, CallArg, DispatchError, Invocation,
};
use thunder::matches::{MatchResult, Matches};
use thunder::number::{IntKind, IntValue};
use thunder::plan::{ArgPlan, DispatchPlan, HandlerPlan};
use thunder::runtime::run;
use thunder::store::{AccessError, GlobalFlagStore, StoreError};
use thunder::type_expr::{TypeExpr, TypeShape};
use thunder::value::{ArgValue, ScalarKind};

fn plan(name: &str, leaf: &str, is_optional: bool, kind: ScalarKind) -> ArgPlan {
    ArgPlan {
        name: name.to_string(),
        shape: TypeShape {
            leaf_type: TypeExpr::Path { segments: vec![leaf.to_string()], args: Vec::new() },
            is_optional,
        },
        kind,
    }
}

fn matches(pairs: &[(&str, &str)]) -> Matches {
    Matches { values: pairs.iter().map(|(n, v)| (n.to_string(), v.to_string())).collect() }
}

fn text(s: &str) -> ArgValue {
    ArgValue::Text(s.to_string())
}

fn number(v: i32) -> ArgValue {
    ArgValue::Int(IntValue::I32(v))
}

fn hello_plan() -> DispatchPlan {
    DispatchPlan {
        flags: vec![plan("flag1", "String", true, ScalarKind::Text)],
        handlers: vec![
            HandlerPlan {
                name: "hello".to_string(),
                params: vec![plan("name", "String", true, ScalarKind::Text)],
            },
            HandlerPlan {
                name: "add".to_string(),
                params: vec![
                    plan("x", "i32", false, ScalarKind::Int(IntKind::I32)),
                    plan("y", "i32", false, ScalarKind::Int(IntKind::I32)),
                ],
            },
        ],
    }
}

fn selected(name: &str, pairs: &[(&str, &str)]) -> MatchResult {
    MatchResult { flags: matches(&[]), subcommand: Some((name.to_string(), matches(pairs))) }
}

#[test]
fn value_of_finds_the_first_entry() {
    let m = matches(&[("a", "1"), ("b", "2"), ("a", "3")]);
    assert_eq!(m.value_of("a"), Some(&"1".to_string()));
    assert_eq!(m.value_of("b"), Some(&"2".to_string()));
    assert_eq!(m.value_of("c"), None);
    assert_eq!(matches(&[]).value_of("a"), None);
}

#[test]
fn hello_without_a_name_is_called_with_none() {
    let call = dispatch(&hello_plan(), &selected("hello", &[])).unwrap();
    assert_eq!(
        call,
        Some(Invocation {
            handler: 0,
            name: "hello".to_string(),
            args: vec![CallArg::Optional(None)],
        })
    );
}

#[test]
fn hello_with_a_name_is_called_with_it() {
    let call = dispatch(&hello_plan(), &selected("hello", &[("name", "world")])).unwrap();
    assert_eq!(
        call,
        Some(Invocation {
            handler: 0,
            name: "hello".to_string(),
            args: vec![CallArg::Optional(Some(text("world")))],
        })
    );
}

#[test]
fn add_is_called_with_both_numbers() {
    let call = dispatch(&hello_plan(), &selected("add", &[("y", "-2"), ("x", "40")])).unwrap();
    assert_eq!(
        call,
        Some(Invocation {
            handler: 1,
            name: "add".to_string(),
            args: vec![CallArg::Required(number(40)), CallArg::Required(number(-2))],
        })
    );
}

#[test]
fn add_without_y_is_not_called() {
    assert_eq!(
        dispatch(&hello_plan(), &selected("add", &[("x", "1")])),
        Err(DispatchError::Argument { handler: 1, parameter: 1, error: ArgError::Missing })
    );
    assert_eq!(
        dispatch(&hello_plan(), &selected("add", &[])),
        Err(DispatchError::Argument { handler: 1, parameter: 0, error: ArgError::Missing })
    );
}

#[test]
fn text_that_does_not_parse_is_an_error() {
    assert_eq!(
        dispatch(&hello_plan(), &selected("add", &[("x", "1"), ("y", "two")])),
        Err(DispatchError::Argument { handler: 1, parameter: 1, error: ArgError::Unparseable })
    );
}

#[test]
fn unparseable_optional_value_is_an_error_and_not_none() {
    let p = plan("n", "u8", true, ScalarKind::Int(IntKind::U8));
    assert_eq!(convert(&p, Some(&"300".to_string())), Err(ArgError::Unparseable));
    assert_eq!(
        convert(&p, Some(&"30".to_string())),
        Ok(CallArg::Optional(Some(ArgValue::Int(IntValue::U8(30)))))
    );
    assert_eq!(convert(&p, None), Ok(CallArg::Optional(None)));
}

#[test]
fn required_value_is_converted_or_missing() {
    let p = plan("b", "bool", false, ScalarKind::Bool);
    assert_eq!(convert(&p, Some(&"true".to_string())), Ok(CallArg::Required(ArgValue::Bool(true))));
    assert_eq!(convert(&p, Some(&"maybe".to_string())), Err(ArgError::Unparseable));
    assert_eq!(convert(&p, None), Err(ArgError::Missing));
}

#[test]
fn unconverted_kinds_hand_the_text_on() {
    let p = plan("ratio", "f64", false, ScalarKind::Other);
    assert_eq!(
        convert(&p, Some(&"1.5".to_string())),
        Ok(CallArg::Required(ArgValue::Raw("1.5".to_string())))
    );
}

#[test]
fn convert_all_stops_at_the_first_failure() {
    let plans = vec![
        plan("a", "u8", false, ScalarKind::Int(IntKind::U8)),
        plan("b", "u8", false, ScalarKind::Int(IntKind::U8)),
        plan("c", "u8", false, ScalarKind::Int(IntKind::U8)),
    ];
    assert_eq!(
        convert_all(&plans, &matches(&[("a", "1"), ("b", "x")])),
        Err((1, ArgError::Unparseable))
    );
    assert_eq!(
        convert_all(&plans, &matches(&[("c", "3"), ("b", "2"), ("a", "1")])),
        Ok(vec![
            CallArg::Required(ArgValue::Int(IntValue::U8(1))),
            CallArg::Required(ArgValue::Int(IntValue::U8(2))),
            CallArg::Required(ArgValue::Int(IntValue::U8(3))),
        ])
    );
    assert_eq!(convert_all(&Vec::new(), &matches(&[("a", "1")])), Ok(Vec::new()));
}

#[test]
fn unmatched_subcommand_is_ignored() {
    assert_eq!(dispatch(&hello_plan(), &selected("goodbye", &[("name", "x")])), Ok(None));
}

#[test]
fn no_subcommand_calls_nothing() {
    let m = MatchResult { flags: matches(&[("flag1", "x")]), subcommand: None };
    assert_eq!(dispatch(&hello_plan(), &m), Ok(None));
}

#[test]
fn the_first_handler_of_a_name_is_selected() {
    let mut plan = hello_plan();
    plan.handlers.push(HandlerPlan { name: "hello".to_string(), params: Vec::new() });
    assert_eq!(select_handler(&plan.handlers, "hello"), Some(0));
    assert_eq!(select_handler(&plan.handlers, "add"), Some(1));
    assert_eq!(select_handler(&plan.handlers, "none"), None);
    assert_eq!(select_handler(&Vec::new(), "hello"), None);
}

#[test]
fn reading_a_flag_before_population_fails() {
    let store = GlobalFlagStore::new_empty_store(&hello_plan().flags);
    assert!(!store.is_populated());
    assert_eq!(store.get("flag1"), Err(AccessError::NotPopulated));
    assert_eq!(store.get("unknown"), Err(AccessError::NotPopulated));
}

#[test]
fn a_populated_store_gives_the_values() {
    let flags = vec![
        plan("flag1", "String", true, ScalarKind::Text),
        plan("level", "i32", false, ScalarKind::Int(IntKind::I32)),
        plan("quiet", "bool", true, ScalarKind::Bool),
    ];
    let mut store = GlobalFlagStore::new_empty_store(&flags);
    assert_eq!(store.populate(&matches(&[("level", "3"), ("flag1", "x")])), Ok(()));
    assert!(store.is_populated());
    assert_eq!(store.get("flag1"), Ok(text("x")));
    assert_eq!(store.get("level"), Ok(number(3)));
    assert_eq!(store.get("quiet"), Err(AccessError::Unset));
    assert_eq!(store.get("other"), Err(AccessError::UnknownFlag));
}

#[test]
fn a_store_is_populated_only_once() {
    let mut store = GlobalFlagStore::new_empty_store(&hello_plan().flags);
    assert_eq!(store.populate(&matches(&[("flag1", "first")])), Ok(()));
    assert_eq!(
        store.populate(&matches(&[("flag1", "second")])),
        Err(StoreError::AlreadyPopulated)
    );
    assert_eq!(store.get("flag1"), Ok(text("first")));
}

#[test]
fn a_store_that_cannot_be_populated_stays_empty() {
    let flags = vec![
        plan("a", "String", true, ScalarKind::Text),
        plan("level", "i32", false, ScalarKind::Int(IntKind::I32)),
    ];
    let mut store = GlobalFlagStore::new_empty_store(&flags);
    assert_eq!(
        store.populate(&matches(&[("a", "x")])),
        Err(StoreError::Flag { index: 1, error: ArgError::Missing })
    );
    assert!(!store.is_populated());
    assert_eq!(store.get("a"), Err(AccessError::NotPopulated));
    assert_eq!(
        store.populate(&matches(&[("a", "x"), ("level", "high")])),
        Err(StoreError::Flag { index: 1, error: ArgError::Unparseable })
    );
    assert_eq!(store.populate(&matches(&[("a", "x"), ("level", "1")])), Ok(()));
    assert_eq!(store.get("level"), Ok(number(1)));
}

#[test]
fn a_run_populates_the_store_and_then_dispatches() {
    let m = MatchResult {
        flags: matches(&[("flag1", "loud")]),
        subcommand: Some(("hello".to_string(), matches(&[("name", "world")]))),
    };
    let out = run(&hello_plan(), &m).unwrap();
    assert!(out.store.is_populated());
    assert_eq!(out.store.get("flag1"), Ok(text("loud")));
    assert_eq!(
        out.invocation,
        Some(Invocation {
            handler: 0,
            name: "hello".to_string(),
            args: vec![CallArg::Optional(Some(text("world")))],
        })
    );
}

#[test]
fn a_run_without_a_known_subcommand_still_populates_the_store() {
    let m = MatchResult { flags: matches(&[]), subcommand: None };
    let out = run(&hello_plan(), &m).unwrap();
    assert!(out.store.is_populated());
    assert_eq!(out.store.get("flag1"), Err(AccessError::Unset));
    assert_eq!(out.invocation, None);
}

#[test]
fn a_run_fails_on_a_flag_before_it_looks_at_the_handler() {
    let mut plan = hello_plan();
    plan.flags.push(self::plan("level", "i32", false, ScalarKind::Int(IntKind::I32)));
    let m = MatchResult {
        flags: matches(&[("level", "x")]),
        subcommand: Some(("add".to_string(), matches(&[]))),
    };
    assert_eq!(
        run(&plan, &m),
        Err(DispatchError::Flag { index: 1, error: ArgError::Unparseable })
    );
    let m = MatchResult {
        flags: matches(&[("level", "1")]),
        subcommand: Some(("add".to_string(), matches(&[]))),
    };
    assert_eq!(
        run(&plan, &m),
        Err(DispatchError::Argument { handler: 1, parameter: 0, error: ArgError::Missing })
    );
}

#[test]
fn dispatch_errors_are_described_with_name_and_type() {
    let plan = hello_plan();
    assert_eq!(
        DispatchError::Argument { handler: 1, parameter: 1, error: ArgError::Unparseable }
            .describe(&plan),
        "subcommand add, argument y: Failed to parse value. Double check! (expected i32)"
    );
    assert_eq!(
        DispatchError::Argument { handler: 1, parameter: 0, error: ArgError::Missing }
            .describe(&plan),
        "subcommand add, argument x: required value is missing (expected i32)"
    );
    assert_eq!(
        DispatchError::Flag { index: 0, error: ArgError::Unparseable }.describe(&plan),
        "global flag flag1: Failed to parse value. Double check! (expected String)"
    );
}

#[test]
fn errors_outside_the_plan_are_described_by_their_message() {
    let plan = hello_plan();
    assert_eq!(
        DispatchError::Flag { index: 1, error: ArgError::Missing }.describe(&plan),
        "required value is missing"
    );
    assert_eq!(
        DispatchError::Argument { handler: 0, parameter: 1, error: ArgError::Unparseable }
            .describe(&plan),
        "Failed to parse value. Double check!"
    );
    assert_eq!(
        DispatchError::Argument { handler: 2, parameter: 0, error: ArgError::Unparseable }
            .describe(&plan),
        "Failed to parse value. Double check!"
    );
}

#[test]
fn error_messages() {
    assert_eq!(ArgError::Missing.message(), "required value is missing");
    assert_eq!(ArgError::Unparseable.message(), "Failed to parse value. Double check!");
    assert_eq!(AccessError::NotPopulated.message(), "global flags read before they were parsed");
    assert_eq!(AccessError::UnknownFlag.message(), "no global flag of that name");
    assert_eq!(AccessError::Unset.message(), "global flag was not given");
    assert_eq!(ArgError::NotUtf8.message(), "value is not valid UTF-8");
}

#[test]
fn access_errors_are_described_with_the_flag() {
    assert_eq!(
        AccessError::NotPopulated.describe("flag1"),
        "global flag flag1: global flags read before they were parsed"
    );
    assert_eq!(
        AccessError::UnknownFlag.describe("other"),
        "global flag other: no global flag of that name"
    );
    assert_eq!(AccessError::Unset.describe("quiet"), "global flag quiet: global flag was not given");
    let store = GlobalFlagStore::new_empty_store(&hello_plan().flags);
    let error = store.get("flag1").unwrap_err();
    assert_eq!(
        error.describe("flag1"),
        "global flag flag1: global flags read before they were parsed"
    );
}

#[test]
fn text_that_is_not_utf8_is_described() {
    assert_eq!(
        DispatchError::Flag { index: 0, error: ArgError::NotUtf8 }.describe(&hello_plan()),
        "global flag flag1: value is not valid UTF-8 (expected String)"
    );
}
