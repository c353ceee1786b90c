use thunder::decl::{GlobalFlagDecl, HandlerDecl, InterfaceDeclaration, ParameterDecl};
use thunder::generate::{
    build_global_flags, build_subcommand, experiment, FlagProblem, GenerationError,
    ParameterProblem,
};
use thunder::number::IntKind;
use thunder::plan::{ArgPlan, HandlerPlan};
use thunder::schema::{ArgEntry, FlagEntry, SubcommandEntry};
use thunder::type_expr::{ResolveError, TypeExpr, TypeShape};
use thunder::value::ScalarKind;

fn path(name: &str) -> TypeExpr {
    TypeExpr::Path { segments: vec![name.to_string()], args: Vec::new() }
}

fn option(inner: TypeExpr) -> TypeExpr {
    TypeExpr::Path { segments: vec!["Option".to_string()], args: vec![inner] }
}

fn flag(name: &str, ty: TypeExpr, help: &str) -> GlobalFlagDecl {
    GlobalFlagDecl { name: name.to_string(), declared_type: ty, help: help.to_string() }
}

fn param(name: &str, ty: TypeExpr) -> ParameterDecl {
    ParameterDecl { name: Some(name.to_string()), declared_type: ty }
}

fn handler(name: &str, about: &str, parameters: Vec<ParameterDecl>) -> HandlerDecl {
    HandlerDecl { name: name.to_string(), about: about.to_string(), parameters }
}

fn plan(name: &str, leaf: TypeExpr, is_optional: bool, kind: ScalarKind) -> ArgPlan {
    ArgPlan { name: name.to_string(), shape: TypeShape { leaf_type: leaf, is_optional }, kind }
}

fn declaration() -> InterfaceDeclaration {
    InterfaceDeclaration {
        program_name: "MyTest".to_string(),
        about: " A CLI to test\n".to_string(),
        global_flags: vec![flag("flag1", option(path("String")), "Dessa forma")],
        handlers: vec![handler(
            "hello",
            " Say hello to someone, or the world!",
            vec![param("name", option(path("String")))],
        )],
    }
}

#[test]
fn optional_flag_has_long_and_short_form() {
    let flags = vec![flag("flag1", option(path("String")), "Dessa forma")];
    let (entries, plans) = build_global_flags(&flags).unwrap();
    assert_eq!(
        entries,
        vec![FlagEntry {
            name: "flag1".to_string(),
            long: Some("--flag1".to_string()),
            short: Some("-f".to_string()),
            required: false,
            takes_value: true,
            help: "Dessa forma".to_string(),
        }]
    );
    assert_eq!(plans, vec![plan("flag1", path("String"), true, ScalarKind::Text)]);
}

#[test]
fn required_flag_has_neither_form() {
    let flags = vec![flag("flag1", path("String"), "Dessa forma")];
    let (entries, plans) = build_global_flags(&flags).unwrap();
    assert_eq!(
        entries,
        vec![FlagEntry {
            name: "flag1".to_string(),
            long: None,
            short: None,
            required: true,
            takes_value: true,
            help: "Dessa forma".to_string(),
        }]
    );
    assert_eq!(plans, vec![plan("flag1", path("String"), false, ScalarKind::Text)]);
}

#[test]
fn short_form_is_the_first_character() {
    let flags = vec![flag("émile", option(path("u8")), "")];
    let (entries, _) = build_global_flags(&flags).unwrap();
    assert_eq!(entries[0].short, Some("-é".to_string()));
    assert_eq!(entries[0].long, Some("--émile".to_string()));
}

#[test]
fn flag_entries_keep_the_declared_order() {
    let flags = vec![
        flag("zeta", option(path("u8")), "z"),
        flag("alpha", path("String"), "a"),
        flag("mid", option(path("bool")), "m"),
        flag("beta", path("i64"), "b"),
    ];
    let (entries, plans) = build_global_flags(&flags).unwrap();
    let names: Vec<&str> = entries.iter().map(|e| e.name.as_str()).collect();
    assert_eq!(names, vec!["zeta", "alpha", "mid", "beta"]);
    let helps: Vec<&str> = entries.iter().map(|e| e.help.as_str()).collect();
    assert_eq!(helps, vec!["z", "a", "m", "b"]);
    let required: Vec<bool> = entries.iter().map(|e| e.required).collect();
    assert_eq!(required, vec![false, true, false, true]);
    let planned: Vec<&str> = plans.iter().map(|p| p.name.as_str()).collect();
    assert_eq!(planned, vec!["zeta", "alpha", "mid", "beta"]);
    assert_eq!(plans[3].kind, ScalarKind::Int(IntKind::I64));
}

#[test]
fn no_flags_give_no_entries() {
    assert_eq!(build_global_flags(&Vec::new()), Ok((Vec::new(), Vec::new())));
}

#[test]
fn flag_without_a_name_is_refused() {
    let flags = vec![flag("a", path("u8"), ""), flag("", path("u8"), "")];
    assert_eq!(
        build_global_flags(&flags),
        Err(GenerationError::Flag { index: 1, problem: FlagProblem::EmptyName })
    );
}

#[test]
fn flag_of_unsupported_type_is_refused() {
    let flags = vec![flag("a", TypeExpr::Other, "")];
    assert_eq!(
        build_global_flags(&flags),
        Err(GenerationError::Flag {
            index: 0,
            problem: FlagProblem::Type(ResolveError::UnsupportedShape),
        })
    );
    let mutable = TypeExpr::Reference {
        mutable: true,
        has_lifetime: false,
        elem: Box::new(path("u8")),
    };
    assert_eq!(
        build_global_flags(&vec![flag("a", path("u8"), ""), flag("b", mutable, "")]),
        Err(GenerationError::Flag {
            index: 1,
            problem: FlagProblem::Type(ResolveError::MutableReference),
        })
    );
}

#[test]
fn flag_declared_twice_is_refused() {
    let flags = vec![
        flag("one", path("u8"), ""),
        flag("two", option(path("u8")), ""),
        flag("one", option(path("u8")), ""),
    ];
    assert_eq!(
        build_global_flags(&flags),
        Err(GenerationError::Flag { index: 2, problem: FlagProblem::DuplicateName })
    );
}

#[test]
fn optional_flags_with_one_first_letter_are_refused() {
    let flags = vec![
        flag("file", option(path("String")), ""),
        flag("level", option(path("u8")), ""),
        flag("force", option(path("bool")), ""),
    ];
    assert_eq!(
        build_global_flags(&flags),
        Err(GenerationError::Flag { index: 2, problem: FlagProblem::ShortCollision })
    );
}

#[test]
fn required_flags_may_share_a_first_letter() {
    let flags = vec![
        flag("file", option(path("String")), ""),
        flag("force", path("bool"), ""),
        flag("format", path("String"), ""),
    ];
    assert!(build_global_flags(&flags).is_ok());
}

#[test]
fn the_first_wrong_flag_is_reported() {
    let flags = vec![
        flag("a", path("u8"), ""),
        flag("a", TypeExpr::Other, ""),
        flag("", path("u8"), ""),
    ];
    assert_eq!(
        build_global_flags(&flags),
        Err(GenerationError::Flag {
            index: 1,
            problem: FlagProblem::Type(ResolveError::UnsupportedShape),
        })
    );
}

#[test]
fn subcommand_has_one_argument_for_each_parameter() {
    let h = handler("add", " Adds", vec![param("x", path("i32")), param("y", option(path("i32")))]);
    let (entry, plan_built) = build_subcommand(&h).unwrap();
    assert_eq!(
        entry,
        SubcommandEntry {
            name: "add".to_string(),
            about: " Adds".to_string(),
            args: vec![
                ArgEntry { name: "x".to_string(), required: true },
                ArgEntry { name: "y".to_string(), required: false },
            ],
        }
    );
    assert_eq!(
        plan_built,
        HandlerPlan {
            name: "add".to_string(),
            params: vec![
                plan("x", path("i32"), false, ScalarKind::Int(IntKind::I32)),
                plan("y", path("i32"), true, ScalarKind::Int(IntKind::I32)),
            ],
        }
    );
}

#[test]
fn subcommand_without_parameters() {
    let (entry, plan_built) = build_subcommand(&handler("ping", "", Vec::new())).unwrap();
    assert_eq!(entry.args, Vec::new());
    assert_eq!(plan_built.params, Vec::new());
}

#[test]
fn parameter_that_is_no_named_binding_is_refused() {
    let h = handler(
        "f",
        "",
        vec![param("x", path("i32")), ParameterDecl { name: None, declared_type: path("i32") }],
    );
    assert_eq!(build_subcommand(&h), Err((1, ParameterProblem::Pattern)));
}

#[test]
fn parameter_of_unsupported_type_is_refused() {
    let lifetime = TypeExpr::Reference {
        mutable: false,
        has_lifetime: true,
        elem: Box::new(path("str")),
    };
    let h = handler("f", "", vec![param("x", lifetime), param("y", TypeExpr::Other)]);
    assert_eq!(
        build_subcommand(&h),
        Err((0, ParameterProblem::Type(ResolveError::LifetimeReference)))
    );
}

#[test]
fn schema_of_a_declaration() {
    let generated = experiment(&declaration()).unwrap();
    let schema = generated.schema;
    assert_eq!(schema.root_name, "MyTest");
    assert_eq!(schema.about, "A CLI to test");
    assert!(schema.subcommand_required);
    assert_eq!(schema.global_flag_entries.len(), 1);
    assert_eq!(schema.global_flag_entries[0].long, Some("--flag1".to_string()));
    assert_eq!(
        schema.subcommand_entries,
        vec![SubcommandEntry {
            name: "hello".to_string(),
            about: " Say hello to someone, or the world!".to_string(),
            args: vec![ArgEntry { name: "name".to_string(), required: false }],
        }]
    );
}

#[test]
fn plan_of_a_declaration() {
    let generated = experiment(&declaration()).unwrap();
    assert_eq!(generated.plan.flags, vec![plan("flag1", path("String"), true, ScalarKind::Text)]);
    assert_eq!(
        generated.plan.handlers,
        vec![HandlerPlan {
            name: "hello".to_string(),
            params: vec![plan("name", path("String"), true, ScalarKind::Text)],
        }]
    );
}

#[test]
fn schema_and_plan_agree_on_optionality() {
    let mut decl = declaration();
    decl.handlers.push(handler(
        "add",
        "",
        vec![param("x", path("i32")), param("y", option(path("i32")))],
    ));
    let generated = experiment(&decl).unwrap();
    for (sub, plan) in generated.schema.subcommand_entries.iter().zip(&generated.plan.handlers) {
        assert_eq!(sub.name, plan.name);
        for (arg, p) in sub.args.iter().zip(&plan.params) {
            assert_eq!(arg.name, p.name);
            assert_eq!(arg.required, !p.shape.is_optional);
        }
    }
}

#[test]
fn subcommands_keep_the_declared_order() {
    let mut decl = declaration();
    decl.handlers = vec![
        handler("zip", "", Vec::new()),
        handler("add", "", Vec::new()),
        handler("mid", "", Vec::new()),
    ];
    let generated = experiment(&decl).unwrap();
    let names: Vec<&str> =
        generated.schema.subcommand_entries.iter().map(|s| s.name.as_str()).collect();
    assert_eq!(names, vec!["zip", "add", "mid"]);
}

#[test]
fn flags_are_checked_before_handlers() {
    let mut decl = declaration();
    decl.handlers[0].parameters.push(ParameterDecl { name: None, declared_type: path("u8") });
    assert_eq!(
        experiment(&decl),
        Err(GenerationError::Parameter {
            handler: 0,
            parameter: 1,
            problem: ParameterProblem::Pattern,
        })
    );
    decl.global_flags.push(flag("flag1", path("u8"), ""));
    assert_eq!(
        experiment(&decl),
        Err(GenerationError::Flag { index: 1, problem: FlagProblem::DuplicateName })
    );
}

#[test]
fn the_first_wrong_parameter_is_reported() {
    let mut decl = declaration();
    decl.handlers.push(handler(
        "bad",
        "",
        vec![param("ok", path("u8")), param("tuple", TypeExpr::Other), param("x", TypeExpr::Other)],
    ));
    decl.handlers.push(handler("worse", "", vec![ParameterDecl {
        name: None,
        declared_type: path("u8"),
    }]));
    assert_eq!(
        experiment(&decl),
        Err(GenerationError::Parameter {
            handler: 1,
            parameter: 1,
            problem: ParameterProblem::Type(ResolveError::UnsupportedShape),
        })
    );
}

#[test]
fn problem_messages() {
    assert_eq!(ParameterProblem::Pattern.message(), "parameter pattern not supported");
    assert_eq!(
        ParameterProblem::Type(ResolveError::UnsupportedShape).message(),
        "type shape unsupported"
    );
    assert_eq!(
        FlagProblem::Type(ResolveError::MutableReference).message(),
        "mutable reference parameters unsupported"
    );
    assert_eq!(FlagProblem::EmptyName.message(), "global flag without a name");
    assert_eq!(FlagProblem::DuplicateName.message(), "global flag declared twice");
    assert_eq!(
        FlagProblem::ShortCollision.message(),
        "short form of global flag already in use"
    );
}

#[test]
fn generation_errors_are_described_with_the_declaration() {
    let mut decl = declaration();
    decl.handlers[0].parameters.push(ParameterDecl { name: None, declared_type: path("u8") });
    decl.handlers[0].parameters.push(param("list", TypeExpr::Other));
    assert_eq!(
        GenerationError::Parameter { handler: 0, parameter: 1, problem: ParameterProblem::Pattern }
            .describe(&decl),
        "subcommand hello, parameter _: parameter pattern not supported"
    );
    assert_eq!(
        GenerationError::Parameter {
            handler: 0,
            parameter: 2,
            problem: ParameterProblem::Type(ResolveError::UnsupportedShape),
        }
        .describe(&decl),
        "subcommand hello, parameter list: type shape unsupported"
    );
    assert_eq!(
        GenerationError::Flag { index: 0, problem: FlagProblem::DuplicateName }.describe(&decl),
        "global flag flag1: global flag declared twice"
    );
    assert_eq!(
        GenerationError::Flag { index: 5, problem: FlagProblem::EmptyName }.describe(&decl),
        "global flag without a name"
    );
    assert_eq!(
        GenerationError::Parameter { handler: 3, parameter: 0, problem: ParameterProblem::Pattern }
            .describe(&decl),
        "parameter pattern not supported"
    );
    assert_eq!(
        GenerationError::Flag { index: 0, problem: FlagProblem::ShortCollision }.message(),
        "short form of global flag already in use"
    );
}
