//! Dispatch: from the matches of the parser to the call of one handler with
//! converted arguments.

use vstd::prelude::*;
use crate::matches::{value_of_spec, MatchModel, MatchResult, Matched, Matches};
use crate::plan::{
    arg_plan_models, handler_plan_models, ArgPlan, ArgPlanModel, DispatchPlan, HandlerPlan,
    HandlerPlanModel, PlanModel,
};
use crate::type_expr::{has_name, name_from_type_path, name_of_type};
use crate::text::{first_index_of, names_of, position_of};
use crate::value::{parse_value, parse_value_spec, ArgValue, ValueModel};

verus! {

/// An argument as the handler receives it.
#[derive(Debug, PartialEq, Eq)]
pub enum CallArg {
    /// The value of a required parameter.
    Required(ArgValue),
    /// The value of an optional parameter, absent where no text was matched.
    Optional(Option<ArgValue>),
}

/// The mathematical value of a `CallArg`.
pub enum CallArgModel {
    Required(ValueModel),
    Optional(Option<ValueModel>),
}

impl View for CallArg {
    type V = CallArgModel;

    open spec fn view(&self) -> CallArgModel {
        match self {
            CallArg::Required(v) => CallArgModel::Required(v@),
            CallArg::Optional(Some(v)) => CallArgModel::Optional(Some(v@)),
            CallArg::Optional(None) => CallArgModel::Optional(None),
        }
    }
}

/// The values of a list of arguments.
pub open spec fn call_arg_models(args: Seq<CallArg>) -> Seq<CallArgModel> {
    args.map_values(|a: CallArg| a@)
}

/// Why an argument could not be converted.
#[derive(Clone, Copy, Debug, PartialEq, Eq, Structural)]
pub enum ArgError {
    /// No text was matched for a required argument.
    Missing,
    /// The matched text is not the text of a value of the leaf type.
    Unparseable,
    /// What was matched is not text at all: it is not valid UTF-8. This is
    /// found when the matches of the parser are read.
    NotUtf8,
}

impl ArgError {
    /// The diagnostic that goes with the error.
    pub open spec fn message_spec(self) -> Seq<char> {
        match self {
            ArgError::Missing => "required value is missing"@,
            ArgError::Unparseable => "Failed to parse value. Double check!"@,
            ArgError::NotUtf8 => "value is not valid UTF-8"@,
        }
    }

    /// The diagnostic that goes with the error.
    pub fn message(&self) -> (r: &'static str)
        ensures
            r@ == self.message_spec(),
    {
        match self {
            ArgError::Missing => "required value is missing",
            ArgError::Unparseable => "Failed to parse value. Double check!",
            ArgError::NotUtf8 => "value is not valid UTF-8",
        }
    }
}

/// What the conversion of one argument yields.
///
/// Matched text must parse as a value of the argument's kind, for an optional
/// argument as much as for a required one. Without text, an optional
/// argument is absent and a required one is an error.
pub open spec fn convert_spec(plan: ArgPlanModel, text: Option<Seq<char>>) -> Result<
    CallArgModel,
    ArgError,
> {
    match text {
        Some(t) => match parse_value_spec(plan.kind, t) {
            Some(v) => Ok(
                if plan.shape.is_optional {
                    CallArgModel::Optional(Some(v))
                } else {
                    CallArgModel::Required(v)
                },
            ),
            None => Err(ArgError::Unparseable),
        },
        None => if plan.shape.is_optional {
            Ok(CallArgModel::Optional(None))
        } else {
            Err(ArgError::Missing)
        },
    }
}

/// What the conversion of a list of arguments yields: the converted
/// arguments in order, or the position and the error of the first that fails.
pub open spec fn convert_all_spec(plans: Seq<ArgPlanModel>, matches: Seq<Matched>) -> Result<
    Seq<CallArgModel>,
    (int, ArgError),
>
    decreases plans.len(),
{
    if plans.len() == 0 {
        Ok(Seq::empty())
    } else {
        match convert_all_spec(plans.drop_last(), matches) {
            Ok(args) => match convert_spec(
                plans.last(),
                value_of_spec(matches, plans.last().name),
            ) {
                Ok(arg) => Ok(args.push(arg)),
                Err(e) => Err((plans.len() - 1, e)),
            },
            Err(e) => Err(e),
        }
    }
}

/// Whether a conversion result is the given model.
pub open spec fn converted_as(r: Result<CallArg, ArgError>, m: Result<CallArgModel, ArgError>)
    -> bool {
    match r {
        Ok(arg) => m == Ok::<CallArgModel, ArgError>(arg@),
        Err(e) => m == Err::<CallArgModel, ArgError>(e),
    }
}

/// Converts the text matched for one argument, if any, as its plan says.
pub fn convert(plan: &ArgPlan, text: Option<&String>) -> (r: Result<CallArg, ArgError>)
    ensures
        converted_as(
            r,
            convert_spec(
                plan@,
                match text {
                    Some(t) => Some(t@),
                    None => None,
                },
            ),
        ),
{
    match text {
        Some(t) => match parse_value(plan.kind, t.as_str()) {
            Some(v) => Ok(
                if plan.shape.is_optional {
                    CallArg::Optional(Some(v))
                } else {
                    CallArg::Required(v)
                },
            ),
            None => Err(ArgError::Unparseable),
        },
        None => if plan.shape.is_optional {
            Ok(CallArg::Optional(None))
        } else {
            Err(ArgError::Missing)
        },
    }
}

/// Converts the arguments of `plans` from `matches`, in order, and stops at
/// the first that fails.
pub fn convert_all(plans: &Vec<ArgPlan>, matches: &Matches) -> (r: Result<
    Vec<CallArg>,
    (usize, ArgError),
>)
    ensures
        match r {
            Ok(args) => convert_all_spec(arg_plan_models(plans@), matches@) == Ok::<
                Seq<CallArgModel>,
                (int, ArgError),
            >(call_arg_models(args@)),
            Err((k, e)) => convert_all_spec(arg_plan_models(plans@), matches@) == Err::<
                Seq<CallArgModel>,
                (int, ArgError),
            >((k as int, e)),
        },
{
    let ghost pm = arg_plan_models(plans@);
    let mut args: Vec<CallArg> = Vec::new();
    let mut k: usize = 0;
    proof {
        assert(pm.take(0) =~= Seq::<ArgPlanModel>::empty());
        assert(call_arg_models(args@) =~= Seq::<CallArgModel>::empty());
    }
    while k < plans.len()
        invariant
            k <= plans.len(),
            pm == arg_plan_models(plans@),
            convert_all_spec(pm.take(k as int), matches@) == Ok::<
                Seq<CallArgModel>,
                (int, ArgError),
            >(call_arg_models(args@)),
        decreases plans.len() - k,
    {
        let plan = &plans[k];
        let ghost before = call_arg_models(args@);
        proof {
            assert(pm.take(k + 1).drop_last() =~= pm.take(k as int));
            assert(pm.take(k + 1).last() == plan@);
        }
        match convert(plan, matches.value_of(plan.name.as_str())) {
            Ok(arg) => {
                args.push(arg);
                proof {
                    assert(call_arg_models(args@) =~= before.push(arg@));
                }
            },
            Err(e) => {
                proof {
                    lemma_convert_all_fails_on(pm, matches@, k + 1);
                }
                return Err((k, e));
            },
        }
        k += 1;
    }
    proof {
        assert(pm.take(k as int) =~= pm);
    }
    Ok(args)
}

/// A conversion that fails on the first `n` arguments fails in the same way
/// on all of them.
pub proof fn lemma_convert_all_fails_on(plans: Seq<ArgPlanModel>, matches: Seq<Matched>, n: int)
    requires
        0 <= n <= plans.len(),
        convert_all_spec(plans.take(n), matches) is Err,
    ensures
        convert_all_spec(plans, matches) == convert_all_spec(plans.take(n), matches),
    decreases plans.len(),
{
    if n == plans.len() {
        assert(plans.take(n) =~= plans);
    } else {
        assert(plans.drop_last().take(n) =~= plans.take(n));
        lemma_convert_all_fails_on(plans.drop_last(), matches, n);
    }
}

/// The names of the handlers of a plan.
pub open spec fn handler_names(handlers: Seq<HandlerPlanModel>) -> Seq<Seq<char>> {
    handlers.map_values(|h: HandlerPlanModel| h.name)
}

/// The position of the first handler of the given name, if there is one.
pub open spec fn find_handler(handlers: Seq<HandlerPlanModel>, name: Seq<char>) -> Option<int> {
    first_index_of(handler_names(handlers), name)
}

/// The call of a handler: its position in the plan, its name, and its
/// arguments in declared order.
#[derive(Debug, PartialEq, Eq)]
pub struct Invocation {
    pub handler: usize,
    pub name: String,
    pub args: Vec<CallArg>,
}

/// The mathematical value of an `Invocation`.
pub struct InvocationModel {
    pub handler: int,
    pub name: Seq<char>,
    pub args: Seq<CallArgModel>,
}

impl View for Invocation {
    type V = InvocationModel;

    open spec fn view(&self) -> InvocationModel {
        InvocationModel {
            handler: self.handler as int,
            name: self.name@,
            args: call_arg_models(self.args@),
        }
    }
}

/// Why nothing was dispatched.
#[derive(Clone, Copy, Debug, PartialEq, Eq, Structural)]
pub enum DispatchError {
    /// A global flag could not be converted.
    Flag { index: usize, error: ArgError },
    /// An argument of the selected handler could not be converted.
    Argument { handler: usize, parameter: usize, error: ArgError },
}

/// What dispatch yields.
///
/// Without a selected subcommand, and with one that no handler is named
/// after, nothing is called and nothing fails. Otherwise the first handler of
/// that name is called with all its arguments converted, or the first
/// argument that cannot be converted is reported and nothing is called.
pub open spec fn dispatch_spec(handlers: Seq<HandlerPlanModel>, m: MatchModel) -> Result<
    Option<InvocationModel>,
    DispatchError,
> {
    match m.subcommand {
        None => Ok(None),
        Some((name, matches)) => match find_handler(handlers, name) {
            None => Ok(None),
            Some(i) => match convert_all_spec(handlers[i].params, matches) {
                Ok(args) => Ok(Some(InvocationModel { handler: i, name, args })),
                Err((k, error)) => Err(
                    DispatchError::Argument { handler: i as usize, parameter: k as usize, error },
                ),
            },
        },
    }
}

/// Whether a dispatch result is the given model.
pub open spec fn dispatched_as(
    r: Result<Option<Invocation>, DispatchError>,
    m: Result<Option<InvocationModel>, DispatchError>,
) -> bool {
    match r {
        Ok(Some(call)) => m == Ok::<Option<InvocationModel>, DispatchError>(Some(call@)),
        Ok(None) => m == Ok::<Option<InvocationModel>, DispatchError>(None),
        Err(e) => m == Err::<Option<InvocationModel>, DispatchError>(e),
    }
}

/// Finds the first handler of the given name.
pub fn select_handler(handlers: &Vec<HandlerPlan>, name: &str) -> (r: Option<usize>)
    ensures
        match r {
            Some(i) => find_handler(handler_plan_models(handlers@), name@) == Some(i as int),
            None => find_handler(handler_plan_models(handlers@), name@) is None,
        },
        r matches Some(i) ==> i < handlers@.len(),
{
    proof {
        assert(names_of(handlers@) =~= handler_names(handler_plan_models(handlers@)));
    }
    position_of(handlers, name)
}

/// Selects the handler that the matches name and converts its arguments.
pub fn dispatch(plan: &DispatchPlan, m: &MatchResult) -> (r: Result<
    Option<Invocation>,
    DispatchError,
>)
    ensures
        dispatched_as(r, dispatch_spec(plan@.handlers, m@)),
{
    match &m.subcommand {
        None => Ok(None),
        Some((name, matches)) => match select_handler(&plan.handlers, name.as_str()) {
            None => Ok(None),
            Some(i) => {
                let handler = &plan.handlers[i];
                assert(plan@.handlers[i as int] == handler@);
                match convert_all(&handler.params, matches) {
                    Ok(args) => Ok(Some(Invocation { handler: i, name: name.clone(), args })),
                    Err((k, error)) => Err(
                        DispatchError::Argument { handler: i, parameter: k, error },
                    ),
                }
            },
        },
    }
}


/// The report of an argument that could not be converted: its name, what
/// went wrong, and the type that was expected.
pub open spec fn argument_report(plan: ArgPlanModel, error: ArgError) -> Seq<char> {
    plan.name + ": "@ + error.message_spec() + " (expected "@ + match name_of_type(
        plan.shape.leaf_type,
    ) {
        Some(name) => name,
        None => Seq::empty(),
    } + ")"@
}

/// The report of an error of dispatch under the plan that it arose from. An
/// error that points outside the plan is reported by its diagnostic alone.
pub open spec fn dispatch_report(plan: PlanModel, e: DispatchError) -> Seq<char> {
    match e {
        DispatchError::Flag { index, error } => if index < plan.flags.len() {
            "global flag "@ + argument_report(plan.flags[index as int], error)
        } else {
            error.message_spec()
        },
        DispatchError::Argument { handler, parameter, error } => if handler < plan.handlers.len()
            && parameter < plan.handlers[handler as int].params.len() {
            "subcommand "@ + plan.handlers[handler as int].name + ", argument "@
                + argument_report(plan.handlers[handler as int].params[parameter as int], error)
        } else {
            error.message_spec()
        },
    }
}

/// Writes the report of an argument that could not be converted.
fn report_argument(plan: &ArgPlan, error: ArgError) -> (r: String)
    ensures
        r@ == argument_report(plan@, error),
{
    let expected = if has_name(&plan.shape.leaf_type) {
        name_from_type_path(&plan.shape.leaf_type)
    } else {
        String::new()
    };
    let r = plan.name.clone().concat(": ").concat(error.message()).concat(" (expected ").concat(
        expected.as_str(),
    ).concat(")");
    proof {
        assert(r@ =~= argument_report(plan@, error));
    }
    r
}

impl DispatchError {
    /// Writes the report of the error under the plan that it arose from.
    pub fn describe(&self, plan: &DispatchPlan) -> (r: String)
        ensures
            r@ == dispatch_report(plan@, *self),
    {
        match *self {
            DispatchError::Flag { index, error } => {
                if index < plan.flags.len() {
                    assert(plan@.flags[index as int] == plan.flags@[index as int]@);
                    String::from_str("global flag ").concat(
                        report_argument(&plan.flags[index], error).as_str(),
                    )
                } else {
                    String::from_str(error.message())
                }
            },
            DispatchError::Argument { handler, parameter, error } => {
                if handler < plan.handlers.len() && parameter
                    < plan.handlers[handler].params.len() {
                    let h = &plan.handlers[handler];
                    assert(plan@.handlers[handler as int] == h@);
                    assert(h@.params[parameter as int] == h.params@[parameter as int]@);
                    let r = String::from_str("subcommand ").concat(h.name.as_str()).concat(
                        ", argument ",
                    ).concat(report_argument(&h.params[parameter], error).as_str());
                    proof {
                        assert(r@ =~= dispatch_report(plan@, *self));
                    }
                    r
                } else {
                    String::from_str(error.message())
                }
            },
        }
    }
}

} // verus!
