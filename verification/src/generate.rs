//! From a declaration to the schema and the dispatch plan.
//!
//! Every declared type is resolved once; the schema entry and the plan of an
//! argument are both made from that one shape.

use vstd::prelude::*;
use crate::decl::{
    flag_models, handler_models, parameter_models, FlagDeclModel, GlobalFlagDecl, HandlerDecl,
    HandlerModel, InterfaceDeclaration, InterfaceModel, ParameterModel,
};
use crate::plan::{
    arg_plan_models, arg_plan_spec, ArgPlan, ArgPlanModel, DispatchPlan, HandlerPlan,
    HandlerPlanModel, PlanModel,
};
use crate::schema::{
    flag_entry_models, ArgEntry, ArgEntryModel, FlagEntry, FlagEntryModel, ParserSchema,
    SchemaModel, SubcommandEntry, SubcommandModel,
};
use crate::text::{same_text, trim, trimmed};
use crate::type_expr::{resolve, resolve_spec, ResolveError, ShapeModel};
use crate::value::classify;

verus! {

/// What is wrong with the declaration of a global flag.
#[derive(Clone, Copy, Debug, PartialEq, Eq, Structural)]
pub enum FlagProblem {
    /// The flag has no name.
    EmptyName,
    /// The declared type has no shape.
    Type(ResolveError),
    /// An earlier flag has the same name.
    DuplicateName,
    /// The flag is optional, and an earlier optional flag begins with the
    /// same character: both would have the same short form.
    ShortCollision,
}

/// What is wrong with the declaration of a parameter.
#[derive(Clone, Copy, Debug, PartialEq, Eq, Structural)]
pub enum ParameterProblem {
    /// The parameter is not a plain named binding.
    Pattern,
    /// The declared type has no shape.
    Type(ResolveError),
}

/// The first declaration from which nothing can be generated, and why.
/// Global flags come before handlers, and each list is taken in declared order.
#[derive(Clone, Copy, Debug, PartialEq, Eq, Structural)]
#[allow(inconsistent_fields)]
pub enum GenerationError {
    Flag { index: usize, problem: FlagProblem },
    Parameter { handler: usize, parameter: usize, problem: ParameterProblem },
}

impl FlagProblem {
    /// The diagnostic that goes with the problem.
    pub open spec fn message_spec(self) -> Seq<char> {
        match self {
            FlagProblem::EmptyName => "global flag without a name"@,
            FlagProblem::Type(e) => e.message_spec(),
            FlagProblem::DuplicateName => "global flag declared twice"@,
            FlagProblem::ShortCollision => "short form of global flag already in use"@,
        }
    }

    /// The diagnostic that goes with the problem.
    pub fn message(&self) -> (r: &'static str)
        ensures
            r@ == self.message_spec(),
    {
        match self {
            FlagProblem::EmptyName => "global flag without a name",
            FlagProblem::Type(e) => e.message(),
            FlagProblem::DuplicateName => "global flag declared twice",
            FlagProblem::ShortCollision => "short form of global flag already in use",
        }
    }
}

impl ParameterProblem {
    /// The diagnostic that goes with the problem.
    pub open spec fn message_spec(self) -> Seq<char> {
        match self {
            ParameterProblem::Pattern => "parameter pattern not supported"@,
            ParameterProblem::Type(e) => e.message_spec(),
        }
    }

    /// The diagnostic that goes with the problem.
    pub fn message(&self) -> (r: &'static str)
        ensures
            r@ == self.message_spec(),
    {
        match self {
            ParameterProblem::Pattern => "parameter pattern not supported",
            ParameterProblem::Type(e) => e.message(),
        }
    }
}

impl GenerationError {
    /// The diagnostic that goes with the error: that of the problem it names.
    pub fn message(&self) -> (r: &'static str)
        ensures
            r@ == match *self {
                GenerationError::Flag { index, problem } => problem.message_spec(),
                GenerationError::Parameter { handler, parameter, problem } =>
                    problem.message_spec(),
            },
    {
        match self {
            GenerationError::Flag { index, problem } => problem.message(),
            GenerationError::Parameter { handler, parameter, problem } => problem.message(),
        }
    }
}

/// Whether a flag is optional: its type resolves to an optional shape.
pub open spec fn flag_optional(f: FlagDeclModel) -> bool {
    resolve_spec(f.declared_type) matches Ok(shape) && shape.is_optional
}

/// Whether two flags would be given the same short form.
pub open spec fn short_clash(a: FlagDeclModel, b: FlagDeclModel) -> bool {
    &&& flag_optional(a)
    &&& flag_optional(b)
    &&& a.name.len() > 0
    &&& b.name.len() > 0
    &&& a.name[0] == b.name[0]
}

/// What is wrong with the flag at `i`, given the flags before it.
pub open spec fn flag_problem(flags: Seq<FlagDeclModel>, i: int) -> Option<FlagProblem> {
    let f = flags[i];
    if f.name.len() == 0 {
        Some(FlagProblem::EmptyName)
    } else if resolve_spec(f.declared_type) is Err {
        Some(FlagProblem::Type(resolve_spec(f.declared_type)->Err_0))
    } else if exists|j: int| 0 <= j < i && (#[trigger] flags[j]).name == f.name {
        Some(FlagProblem::DuplicateName)
    } else if exists|j: int| 0 <= j < i && short_clash(#[trigger] flags[j], f) {
        Some(FlagProblem::ShortCollision)
    } else {
        None
    }
}

/// Whether nothing is wrong with any flag before `upto`.
pub open spec fn flags_valid_before(flags: Seq<FlagDeclModel>, upto: int) -> bool {
    forall|i: int| 0 <= i < upto ==> (#[trigger] flag_problem(flags, i)) is None
}

/// The long form of a flag: two dashes and its name.
pub open spec fn long_form(name: Seq<char>) -> Seq<char> {
    seq!['-', '-'] + name
}

/// The short form of a flag: a dash and the first character of its name.
pub open spec fn short_form(name: Seq<char>) -> Seq<char>
    recommends
        name.len() > 0,
{
    seq!['-', name[0]]
}

/// The schema entry of a flag whose type has the given shape.
pub open spec fn flag_entry_spec(f: FlagDeclModel, shape: ShapeModel) -> FlagEntryModel {
    FlagEntryModel {
        name: f.name,
        long: if shape.is_optional {
            Some(long_form(f.name))
        } else {
            None
        },
        short: if shape.is_optional {
            Some(short_form(f.name))
        } else {
            None
        },
        required: !shape.is_optional,
        takes_value: true,
        help: f.help,
    }
}

/// The schema entries of a list of flags, in declared order.
pub open spec fn flag_entries_spec(flags: Seq<FlagDeclModel>) -> Seq<FlagEntryModel> {
    Seq::new(
        flags.len(),
        |i: int| flag_entry_spec(flags[i], resolve_spec(flags[i].declared_type)->Ok_0),
    )
}

/// The plans of a list of flags, in declared order.
pub open spec fn flag_plans_spec(flags: Seq<FlagDeclModel>) -> Seq<ArgPlanModel> {
    Seq::new(
        flags.len(),
        |i: int| arg_plan_spec(flags[i].name, resolve_spec(flags[i].declared_type)->Ok_0),
    )
}

/// What is wrong with a parameter.
pub open spec fn parameter_problem(p: ParameterModel) -> Option<ParameterProblem> {
    if p.name is None {
        Some(ParameterProblem::Pattern)
    } else if resolve_spec(p.declared_type) is Err {
        Some(ParameterProblem::Type(resolve_spec(p.declared_type)->Err_0))
    } else {
        None
    }
}

/// Whether nothing is wrong with any parameter before `upto`.
pub open spec fn parameters_valid_before(params: Seq<ParameterModel>, upto: int) -> bool {
    forall|k: int| 0 <= k < upto ==> parameter_problem(#[trigger] params[k]) is None
}

/// Whether nothing is wrong with any parameter of the handler.
pub open spec fn handler_valid(h: HandlerModel) -> bool {
    parameters_valid_before(h.parameters, h.parameters.len() as int)
}

/// Whether nothing is wrong with any handler before `upto`.
pub open spec fn handlers_valid_before(handlers: Seq<HandlerModel>, upto: int) -> bool {
    forall|i: int| 0 <= i < upto ==> handler_valid(#[trigger] handlers[i])
}

/// The schema entry of a parameter: an argument of its name, required unless
/// its shape is optional.
pub open spec fn arg_entry_spec(p: ParameterModel) -> ArgEntryModel {
    ArgEntryModel {
        name: p.name->Some_0,
        required: !(resolve_spec(p.declared_type)->Ok_0).is_optional,
    }
}

/// The schema entry of a handler: a subcommand of its name and description
/// with one argument for each parameter, in declared order.
pub open spec fn subcommand_spec(h: HandlerModel) -> SubcommandModel {
    SubcommandModel {
        name: h.name,
        about: h.about,
        args: Seq::new(h.parameters.len(), |k: int| arg_entry_spec(h.parameters[k])),
    }
}

/// The plan of a handler.
pub open spec fn handler_plan_spec(h: HandlerModel) -> HandlerPlanModel {
    HandlerPlanModel {
        name: h.name,
        params: Seq::new(
            h.parameters.len(),
            |k: int|
                arg_plan_spec(
                    h.parameters[k].name->Some_0,
                    resolve_spec(h.parameters[k].declared_type)->Ok_0,
                ),
        ),
    }
}

/// Whether nothing is wrong with the declaration.
pub open spec fn declaration_valid(decl: InterfaceModel) -> bool {
    &&& flags_valid_before(decl.global_flags, decl.global_flags.len() as int)
    &&& handlers_valid_before(decl.handlers, decl.handlers.len() as int)
}

/// Whether `e` names the first thing that is wrong with the declaration.
pub open spec fn first_problem(decl: InterfaceModel, e: GenerationError) -> bool {
    match e {
        GenerationError::Flag { index, problem } => {
            &&& index < decl.global_flags.len()
            &&& flags_valid_before(decl.global_flags, index as int)
            &&& flag_problem(decl.global_flags, index as int) == Some(problem)
        },
        GenerationError::Parameter { handler, parameter, problem } => {
            &&& flags_valid_before(decl.global_flags, decl.global_flags.len() as int)
            &&& handler < decl.handlers.len()
            &&& handlers_valid_before(decl.handlers, handler as int)
            &&& parameter < decl.handlers[handler as int].parameters.len()
            &&& parameters_valid_before(
                decl.handlers[handler as int].parameters,
                parameter as int,
            )
            &&& parameter_problem(decl.handlers[handler as int].parameters[parameter as int])
                == Some(problem)
        },
    }
}

/// The schema of a valid declaration: the root carries the program's name
/// and its trimmed description and requires a subcommand; the entries of the
/// flags and of the handlers follow in declared order.
pub open spec fn schema_spec(decl: InterfaceModel) -> SchemaModel {
    SchemaModel {
        root_name: decl.program_name,
        about: trimmed(decl.about),
        subcommand_required: true,
        global_flag_entries: flag_entries_spec(decl.global_flags),
        subcommand_entries: Seq::new(
            decl.handlers.len(),
            |i: int| subcommand_spec(decl.handlers[i]),
        ),
    }
}

/// The dispatch plan of a valid declaration.
pub open spec fn plan_spec(decl: InterfaceModel) -> PlanModel {
    PlanModel {
        flags: flag_plans_spec(decl.global_flags),
        handlers: Seq::new(decl.handlers.len(), |i: int| handler_plan_spec(decl.handlers[i])),
    }
}


/// Checks the flag at `i` against the flags before it, whose plans are
/// `plans`, and makes its schema entry and its plan.
fn build_flag(flags: &Vec<GlobalFlagDecl>, i: usize, plans: &Vec<ArgPlan>) -> (r: Result<
    (FlagEntry, ArgPlan),
    FlagProblem,
>)
    requires
        i < flags.len(),
        flags_valid_before(flag_models(flags@), i as int),
        arg_plan_models(plans@) == flag_plans_spec(flag_models(flags@)).take(i as int),
    ensures
        match r {
            Ok((entry, plan)) => {
                let f = flags@[i as int]@;
                &&& flag_problem(flag_models(flags@), i as int) is None
                &&& entry@ == flag_entry_spec(f, resolve_spec(f.declared_type)->Ok_0)
                &&& plan@ == arg_plan_spec(f.name, resolve_spec(f.declared_type)->Ok_0)
            },
            Err(problem) => flag_problem(flag_models(flags@), i as int) == Some(problem),
        },
{
    let ghost fm = flag_models(flags@);
    let f = &flags[i];
    assert(fm[i as int] == f@);
    if f.name.as_str().unicode_len() == 0 {
        return Err(FlagProblem::EmptyName);
    }
    let shape = match resolve(&f.declared_type) {
        Ok(shape) => shape,
        Err(e) => {
            return Err(FlagProblem::Type(e));
        },
    };
    let optional = shape.is_optional;
    let first = f.name.as_str().get_char(0);
    let mut clash = false;
    let mut j: usize = 0;
    assert(plans@.len() == i) by {
        assert(arg_plan_models(plans@).len() == plans@.len());
    }
    while j < i
        invariant
            j <= i,
            i < flags.len(),
            plans@.len() == i,
            fm == flag_models(flags@),
            f@ == fm[i as int],
            flags_valid_before(fm, i as int),
            arg_plan_models(plans@) == flag_plans_spec(fm).take(i as int),
            f@.name.len() > 0,
            resolve_spec(f@.declared_type) is Ok,
            first == f@.name[0],
            optional == flag_optional(f@),
            forall|k: int| 0 <= k < j ==> (#[trigger] fm[k]).name != f@.name,
            clash == exists|k: int| 0 <= k < j && short_clash(#[trigger] fm[k], f@),
        decreases i - j,
    {
        let other = &flags[j];
        proof {
            assert(fm[j as int] == other@);
            assert(flag_problem(fm, j as int) is None);
            assert(arg_plan_models(plans@)[j as int] == plans@[j as int]@);
            assert(flag_plans_spec(fm).take(i as int)[j as int] == flag_plans_spec(fm)[j as int]);
            assert(plans@[j as int].shape.is_optional == flag_optional(other@));
        }
        if same_text(other.name.as_str(), f.name.as_str()) {
            assert(fm[j as int].name == f@.name);
            return Err(FlagProblem::DuplicateName);
        }
        if optional && plans[j].shape.is_optional {
            if other.name.as_str().get_char(0) == first {
                assert(short_clash(fm[j as int], f@));
                clash = true;
            }
        }
        j += 1;
    }
    if clash {
        return Err(FlagProblem::ShortCollision);
    }
    let (long, short) = if optional {
        proof {
            reveal_strlit("--");
            reveal_strlit("-");
        }
        let long = String::from_str("--").concat(f.name.as_str());
        let short = String::from_str("-").concat(f.name.as_str().substring_char(0, 1));
        proof {
            assert(long@ =~= long_form(f@.name));
            assert(short@ =~= short_form(f@.name));
        }
        (Some(long), Some(short))
    } else {
        (None, None)
    };
    let entry = FlagEntry {
        name: f.name.clone(),
        long,
        short,
        required: !optional,
        takes_value: true,
        help: f.help.clone(),
    };
    let kind = classify(&shape.leaf_type);
    let plan = ArgPlan { name: f.name.clone(), shape, kind };
    Ok((entry, plan))
}

/// Builds the schema entries and the plans of the global flags, in declared
/// order, or names the first flag from which none can be made.
pub fn build_global_flags(flags: &Vec<GlobalFlagDecl>) -> (r: Result<
    (Vec<FlagEntry>, Vec<ArgPlan>),
    GenerationError,
>)
    ensures
        match r {
            Ok((entries, plans)) => {
                &&& flags_valid_before(flag_models(flags@), flags@.len() as int)
                &&& flag_entry_models(entries@) == flag_entries_spec(flag_models(flags@))
                &&& arg_plan_models(plans@) == flag_plans_spec(flag_models(flags@))
            },
            Err(e) => {
                &&& e matches GenerationError::Flag { index, problem }
                &&& index < flags@.len()
                &&& flags_valid_before(flag_models(flags@), index as int)
                &&& flag_problem(flag_models(flags@), index as int) == Some(problem)
            },
        },
{
    let ghost fm = flag_models(flags@);
    let mut entries: Vec<FlagEntry> = Vec::new();
    let mut plans: Vec<ArgPlan> = Vec::new();
    let mut i: usize = 0;
    proof {
        assert(flag_entry_models(entries@) =~= flag_entries_spec(fm).take(0));
        assert(arg_plan_models(plans@) =~= flag_plans_spec(fm).take(0));
    }
    while i < flags.len()
        invariant
            i <= flags.len(),
            fm == flag_models(flags@),
            flags_valid_before(fm, i as int),
            flag_entry_models(entries@) == flag_entries_spec(fm).take(i as int),
            arg_plan_models(plans@) == flag_plans_spec(fm).take(i as int),
        decreases flags.len() - i,
    {
        let ghost old_entries = entries@;
        let ghost old_plans = plans@;
        match build_flag(flags, i, &plans) {
            Ok((entry, plan)) => {
                entries.push(entry);
                plans.push(plan);
                proof {
                    assert(fm[i as int] == flags@[i as int]@);
                    assert(flag_entry_models(old_entries).len() == i);
                    assert(arg_plan_models(old_plans).len() == i);
                    assert forall|k: int| 0 <= k < i + 1 implies flag_entry_models(entries@)[k]
                        == flag_entries_spec(fm)[k] by {
                        if k < i {
                            assert(flag_entry_models(old_entries)[k] == flag_entries_spec(
                                fm,
                            ).take(i as int)[k]);
                        }
                    }
                    assert forall|k: int| 0 <= k < i + 1 implies arg_plan_models(plans@)[k]
                        == flag_plans_spec(fm)[k] by {
                        if k < i {
                            assert(arg_plan_models(old_plans)[k] == flag_plans_spec(fm).take(
                                i as int,
                            )[k]);
                        }
                    }
                    assert(flag_entry_models(entries@) =~= flag_entries_spec(fm).take(i + 1));
                    assert(arg_plan_models(plans@) =~= flag_plans_spec(fm).take(i + 1));
                }
            },
            Err(problem) => {
                return Err(GenerationError::Flag { index: i, problem });
            },
        }
        i += 1;
    }
    proof {
        assert(flag_entries_spec(fm).take(i as int) =~= flag_entries_spec(fm));
        assert(flag_plans_spec(fm).take(i as int) =~= flag_plans_spec(fm));
    }
    Ok((entries, plans))
}


/// Builds the schema entry and the plan of a handler, or names the first
/// parameter from which none can be made.
pub fn build_subcommand(handler: &HandlerDecl) -> (r: Result<
    (SubcommandEntry, HandlerPlan),
    (usize, ParameterProblem),
>)
    ensures
        match r {
            Ok((entry, plan)) => {
                &&& handler_valid(handler@)
                &&& entry@ == subcommand_spec(handler@)
                &&& plan@ == handler_plan_spec(handler@)
            },
            Err((k, problem)) => {
                &&& k < handler@.parameters.len()
                &&& parameters_valid_before(handler@.parameters, k as int)
                &&& parameter_problem(handler@.parameters[k as int]) == Some(problem)
            },
        },
{
    let ghost pm = handler@.parameters;
    let ghost want_entry = subcommand_spec(handler@);
    let ghost want_plan = handler_plan_spec(handler@);
    let mut args: Vec<ArgEntry> = Vec::new();
    let mut params: Vec<ArgPlan> = Vec::new();
    let mut k: usize = 0;
    while k < handler.parameters.len()
        invariant
            k <= handler.parameters.len(),
            pm == parameter_models(handler.parameters@),
            want_entry == subcommand_spec(handler@),
            want_plan == handler_plan_spec(handler@),
            pm == handler@.parameters,
            parameters_valid_before(pm, k as int),
            args@.len() == k,
            params@.len() == k,
            forall|n: int| 0 <= n < k ==> (#[trigger] args@[n])@ == want_entry.args[n],
            forall|n: int| 0 <= n < k ==> (#[trigger] params@[n])@ == want_plan.params[n],
        decreases handler.parameters.len() - k,
    {
        let p = &handler.parameters[k];
        assert(pm[k as int] == p@);
        let name = match &p.name {
            Some(name) => name,
            None => {
                return Err((k, ParameterProblem::Pattern));
            },
        };
        let shape = match resolve(&p.declared_type) {
            Ok(shape) => shape,
            Err(e) => {
                return Err((k, ParameterProblem::Type(e)));
            },
        };
        args.push(ArgEntry { name: name.clone(), required: !shape.is_optional });
        let kind = classify(&shape.leaf_type);
        params.push(ArgPlan { name: name.clone(), shape, kind });
        k += 1;
    }
    let entry = SubcommandEntry {
        name: handler.name.clone(),
        about: handler.about.clone(),
        args,
    };
    let plan = HandlerPlan { name: handler.name.clone(), params };
    proof {
        assert(entry@.args =~= want_entry.args);
        assert(plan@.params =~= want_plan.params);
    }
    Ok((entry, plan))
}

/// What generation makes of a declaration.
#[derive(Debug, PartialEq, Eq)]
pub struct Generated {
    pub schema: ParserSchema,
    pub plan: DispatchPlan,
}

/// Generates the schema and the dispatch plan of a declaration.
///
/// Succeeds exactly when nothing is wrong with the declaration; otherwise
/// names the first thing that is wrong, and nothing is generated.
pub fn experiment(decl: &InterfaceDeclaration) -> (r: Result<Generated, GenerationError>)
    ensures
        match r {
            Ok(g) => {
                &&& declaration_valid(decl@)
                &&& g.schema@ == schema_spec(decl@)
                &&& g.plan@ == plan_spec(decl@)
            },
            Err(e) => first_problem(decl@, e),
        },
{
    let (flag_entries, flag_plans) = match build_global_flags(&decl.global_flags) {
        Ok(built) => built,
        Err(e) => {
            return Err(e);
        },
    };
    let ghost hm = decl@.handlers;
    let ghost want_schema = schema_spec(decl@);
    let ghost want_plan = plan_spec(decl@);
    let mut subcommands: Vec<SubcommandEntry> = Vec::new();
    let mut handlers: Vec<HandlerPlan> = Vec::new();
    let mut i: usize = 0;
    while i < decl.handlers.len()
        invariant
            i <= decl.handlers.len(),
            hm == handler_models(decl.handlers@),
            hm == decl@.handlers,
            want_schema == schema_spec(decl@),
            want_plan == plan_spec(decl@),
            flags_valid_before(decl@.global_flags, decl@.global_flags.len() as int),
            handlers_valid_before(hm, i as int),
            subcommands@.len() == i,
            handlers@.len() == i,
            forall|n: int|
                0 <= n < i ==> (#[trigger] subcommands@[n])@ == want_schema.subcommand_entries[n],
            forall|n: int| 0 <= n < i ==> (#[trigger] handlers@[n])@ == want_plan.handlers[n],
        decreases decl.handlers.len() - i,
    {
        let h = &decl.handlers[i];
        assert(hm[i as int] == h@);
        match build_subcommand(h) {
            Ok((entry, plan)) => {
                subcommands.push(entry);
                handlers.push(plan);
            },
            Err((k, problem)) => {
                return Err(GenerationError::Parameter { handler: i, parameter: k, problem });
            },
        }
        i += 1;
    }
    let schema = ParserSchema {
        root_name: decl.program_name.clone(),
        about: trim(decl.about.as_str()),
        subcommand_required: true,
        global_flag_entries: flag_entries,
        subcommand_entries: subcommands,
    };
    let plan = DispatchPlan { flags: flag_plans, handlers };
    proof {
        assert(schema@.subcommand_entries =~= want_schema.subcommand_entries);
        assert(plan@.handlers =~= want_plan.handlers);
    }
    Ok(Generated { schema, plan })
}


/// The schema of a valid declaration keeps the declared order: its flag
/// entries, its subcommands and the arguments of each follow the flags, the
/// handlers and the parameters one for one.
pub proof fn lemma_schema_keeps_declared_order(decl: InterfaceModel)
    requires
        declaration_valid(decl),
    ensures
        schema_spec(decl).global_flag_entries.len() == decl.global_flags.len(),
        forall|i: int|
            0 <= i < decl.global_flags.len() ==> (#[trigger] schema_spec(
                decl,
            ).global_flag_entries[i]).name == decl.global_flags[i].name,
        schema_spec(decl).subcommand_entries.len() == decl.handlers.len(),
        forall|i: int|
            0 <= i < decl.handlers.len() ==> {
                let sub = #[trigger] schema_spec(decl).subcommand_entries[i];
                &&& sub.name == decl.handlers[i].name
                &&& sub.args.len() == decl.handlers[i].parameters.len()
                &&& forall|k: int|
                    0 <= k < sub.args.len() ==> Some((#[trigger] sub.args[k]).name)
                        == decl.handlers[i].parameters[k].name
            },
{
    assert forall|i: int| 0 <= i < decl.handlers.len() implies ({
        let sub = #[trigger] schema_spec(decl).subcommand_entries[i];
        &&& sub.name == decl.handlers[i].name
        &&& sub.args.len() == decl.handlers[i].parameters.len()
        &&& forall|k: int|
            0 <= k < sub.args.len() ==> Some((#[trigger] sub.args[k]).name)
                == decl.handlers[i].parameters[k].name
    }) by {
        let h = decl.handlers[i];
        let sub = schema_spec(decl).subcommand_entries[i];
        assert(handler_valid(h));
        assert forall|k: int| 0 <= k < sub.args.len() implies Some((#[trigger] sub.args[k]).name)
            == h.parameters[k].name by {
            assert(parameter_problem(h.parameters[k]) is None);
        }
    }
}

/// In a valid list of flags no name occurs twice, and no two optional flags
/// have the same short form.
pub proof fn lemma_valid_flags_distinct(flags: Seq<FlagDeclModel>, i: int, j: int)
    requires
        flags_valid_before(flags, flags.len() as int),
        0 <= i < j < flags.len(),
    ensures
        flags[i].name != flags[j].name,
        flag_optional(flags[i]) && flag_optional(flags[j]) ==> short_form(flags[i].name)
            != short_form(flags[j].name),
{
    assert(flag_problem(flags, j) is None);
    assert(flag_problem(flags, i) is None);
    if flag_optional(flags[i]) && flag_optional(flags[j]) {
        assert(!short_clash(flags[i], flags[j]));
        assert(short_form(flags[i].name)[1] == flags[i].name[0]);
        assert(short_form(flags[j].name)[1] == flags[j].name[0]);
    }
}


/// The schema and the plan of a valid declaration are made from one shape
/// for each argument: they name the same arguments in the same order, and
/// an argument is required in the schema exactly when its plan is not
/// optional.
pub proof fn lemma_schema_agrees_with_plan(decl: InterfaceModel)
    requires
        declaration_valid(decl),
    ensures
        schema_spec(decl).global_flag_entries.len() == plan_spec(decl).flags.len(),
        forall|i: int|
            0 <= i < decl.global_flags.len() ==> {
                let entry = #[trigger] schema_spec(decl).global_flag_entries[i];
                let plan = plan_spec(decl).flags[i];
                entry.name == plan.name && entry.required == !plan.shape.is_optional
            },
        schema_spec(decl).subcommand_entries.len() == plan_spec(decl).handlers.len(),
        forall|i: int|
            0 <= i < decl.handlers.len() ==> {
                let sub = #[trigger] schema_spec(decl).subcommand_entries[i];
                let handler = plan_spec(decl).handlers[i];
                &&& sub.name == handler.name
                &&& sub.args.len() == handler.params.len()
                &&& forall|k: int|
                    0 <= k < sub.args.len() ==> {
                        let arg = #[trigger] sub.args[k];
                        arg.name == handler.params[k].name && arg.required
                            == !handler.params[k].shape.is_optional
                    }
            },
{
}


/// The name that a parameter is reported under: its own, or an underscore
/// where it has none.
pub open spec fn parameter_label(p: ParameterModel) -> Seq<char> {
    match p.name {
        Some(name) => name,
        None => "_"@,
    }
}

/// The report of an error of generation under the declaration that it arose
/// from: the declaration that it points at, and what is wrong with it. An
/// error that points outside the declaration is reported by its diagnostic
/// alone.
pub open spec fn generation_report(decl: InterfaceModel, e: GenerationError) -> Seq<char> {
    match e {
        GenerationError::Flag { index, problem } => if index < decl.global_flags.len() {
            "global flag "@ + decl.global_flags[index as int].name + ": "@
                + problem.message_spec()
        } else {
            problem.message_spec()
        },
        GenerationError::Parameter { handler, parameter, problem } => if handler
            < decl.handlers.len() && parameter < decl.handlers[handler as int].parameters.len() {
            "subcommand "@ + decl.handlers[handler as int].name + ", parameter "@
                + parameter_label(decl.handlers[handler as int].parameters[parameter as int])
                + ": "@ + problem.message_spec()
        } else {
            problem.message_spec()
        },
    }
}

impl GenerationError {
    /// Writes the report of the error under the declaration that it arose from.
    pub fn describe(&self, decl: &InterfaceDeclaration) -> (r: String)
        ensures
            r@ == generation_report(decl@, *self),
    {
        match *self {
            GenerationError::Flag { index, problem } => {
                if index < decl.global_flags.len() {
                    let flag = &decl.global_flags[index];
                    assert(decl@.global_flags[index as int] == flag@);
                    let r = String::from_str("global flag ").concat(flag.name.as_str()).concat(
                        ": ",
                    ).concat(problem.message());
                    proof {
                        assert(r@ =~= generation_report(decl@, *self));
                    }
                    r
                } else {
                    String::from_str(problem.message())
                }
            },
            GenerationError::Parameter { handler, parameter, problem } => {
                if handler < decl.handlers.len() && parameter
                    < decl.handlers[handler].parameters.len() {
                    let h = &decl.handlers[handler];
                    let p = &h.parameters[parameter];
                    assert(decl@.handlers[handler as int] == h@);
                    assert(h@.parameters[parameter as int] == p@);
                    let label = match &p.name {
                        Some(name) => name.as_str(),
                        None => "_",
                    };
                    let r = String::from_str("subcommand ").concat(h.name.as_str()).concat(
                        ", parameter ",
                    ).concat(label).concat(": ").concat(problem.message());
                    proof {
                        assert(r@ =~= generation_report(decl@, *self));
                    }
                    r
                } else {
                    String::from_str(problem.message())
                }
            },
        }
    }
}

} // verus!
