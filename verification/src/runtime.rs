//! The run of a generated program, from the matches of the parser on: the
//! store of global flags is populated first, and only then is a handler
//! selected.

use vstd::prelude::*;
use crate::dispatch::{
    convert_all_spec, convert_spec, dispatch, dispatch_spec, find_handler, ArgError,
    DispatchError, Invocation, InvocationModel,
};
use crate::matches::{value_of_spec, MatchModel, MatchResult, Matched};
use crate::plan::{ArgPlanModel, DispatchPlan, HandlerPlanModel, PlanModel};
use crate::store::{
    empty_store, lemma_populated_required_present, populate_spec, populated_store,
    GlobalFlagStore, StoreError, StoreModel,
};

verus! {

/// What a run leaves: the populated store, and the call to make, if any.
#[derive(Debug, PartialEq, Eq)]
pub struct Outcome {
    pub store: GlobalFlagStore,
    pub invocation: Option<Invocation>,
}

/// What a run yields.
///
/// The global flags are converted first. If one of them fails, the run fails
/// with it, whatever subcommand was selected. Otherwise the store holds their
/// values, and the run is what dispatch makes of the selected subcommand.
pub open spec fn run_spec(plan: PlanModel, m: MatchModel) -> Result<
    (StoreModel, Option<InvocationModel>),
    DispatchError,
> {
    match convert_all_spec(plan.flags, m.flags) {
        Err((k, error)) => Err(DispatchError::Flag { index: k as usize, error }),
        Ok(args) => match dispatch_spec(plan.handlers, m) {
            Ok(call) => Ok((populated_store(plan.flags, args), call)),
            Err(e) => Err(e),
        },
    }
}

/// The call of an outcome, as a value.
pub open spec fn call_model(call: Option<Invocation>) -> Option<InvocationModel> {
    match call {
        Some(c) => Some(c@),
        None => None,
    }
}

/// Populates a fresh store from the matches of the root command, then
/// dispatches on the selected subcommand.
pub fn run(plan: &DispatchPlan, m: &MatchResult) -> (r: Result<Outcome, DispatchError>)
    ensures
        match r {
            Ok(out) => run_spec(plan@, m@) == Ok::<
                (StoreModel, Option<InvocationModel>),
                DispatchError,
            >((out.store@, call_model(out.invocation))),
            Err(e) => run_spec(plan@, m@) == Err::<
                (StoreModel, Option<InvocationModel>),
                DispatchError,
            >(e),
        },
        r matches Ok(out) ==> out.store@.populated,
{
    let mut store = GlobalFlagStore::new_empty_store(&plan.flags);
    if let Err(e) = store.populate(&m.flags) {
        return match e {
            StoreError::Flag { index, error } => Err(DispatchError::Flag { index, error }),
            StoreError::AlreadyPopulated => vstd::pervasive::unreached(),
        };
    }
    match dispatch(plan, m) {
        Ok(invocation) => Ok(Outcome { store, invocation }),
        Err(e) => Err(e),
    }
}

/// Where every argument of a list is converted, each of them is.
pub proof fn lemma_converted_each(plans: Seq<ArgPlanModel>, matches: Seq<Matched>, k: int)
    requires
        convert_all_spec(plans, matches) is Ok,
        0 <= k < plans.len(),
    ensures
        convert_spec(plans[k], value_of_spec(matches, plans[k].name)) is Ok,
    decreases plans.len(),
{
    if k < plans.len() - 1 {
        lemma_converted_each(plans.drop_last(), matches, k);
    }
}

/// A handler is never called without a value for one of its required
/// parameters: where the matches of the selected subcommand lack one,
/// dispatch fails and no call is made.
pub proof fn lemma_missing_required_not_dispatched(
    handlers: Seq<HandlerPlanModel>,
    m: MatchModel,
    k: int,
)
    requires
        m.subcommand is Some,
        find_handler(handlers, m.subcommand->Some_0.0) is Some,
        ({
            let params = handlers[find_handler(handlers, m.subcommand->Some_0.0)->Some_0].params;
            &&& 0 <= k < params.len()
            &&& !params[k].shape.is_optional
            &&& value_of_spec(m.subcommand->Some_0.1, params[k].name) is None
        }),
    ensures
        dispatch_spec(handlers, m) is Err,
{
    let params = handlers[find_handler(handlers, m.subcommand->Some_0.0)->Some_0].params;
    let matches = m.subcommand->Some_0.1;
    if convert_all_spec(params, matches) is Ok {
        lemma_converted_each(params, matches, k);
    }
}

/// No handler is called before the store is populated: a run that ends in
/// a call, or in none, has populated the store, with a value for every
/// required flag; and a run in which a global flag cannot be converted
/// fails, whatever was selected.
pub proof fn lemma_store_populated_before_call(plan: PlanModel, m: MatchModel)
    ensures
        match run_spec(plan, m) {
            Ok((store, call)) => {
                &&& store.populated
                &&& store == populate_spec(empty_store(plan.flags), m.flags).0
                &&& forall|i: int|
                    0 <= i < plan.flags.len() && !plan.flags[i].shape.is_optional ==> (
                    #[trigger] store.values[i]) is Some
            },
            Err(_) => true,
        },
        convert_all_spec(plan.flags, m.flags) is Err ==> run_spec(plan, m) is Err,
{
    if convert_all_spec(plan.flags, m.flags) is Ok {
        lemma_populated_required_present(plan.flags, m.flags);
    }
}


/// Where the parser has seen to it that every required argument has a
/// value, the conversion never finds one missing.
pub proof fn lemma_required_present_none_missing(plans: Seq<ArgPlanModel>, matches: Seq<Matched>)
    requires
        forall|k: int|
            0 <= k < plans.len() && !(#[trigger] plans[k]).shape.is_optional ==> value_of_spec(
                matches,
                plans[k].name,
            ) is Some,
    ensures
        convert_all_spec(plans, matches) matches Err((k, error)) ==> error
            == ArgError::Unparseable,
    decreases plans.len(),
{
    if plans.len() > 0 {
        let front = plans.drop_last();
        assert forall|k: int| 0 <= k < front.len() && !(#[trigger] front[k]).shape.is_optional
            implies value_of_spec(matches, front[k].name) is Some by {
            assert(front[k] == plans[k]);
        }
        lemma_required_present_none_missing(front, matches);
        assert(plans.last() == plans[plans.len() - 1]);
    }
}

} // verus!
