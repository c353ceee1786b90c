//! The dispatch plan: for each global flag and each parameter of each
//! handler, the name under which its text is looked up and the shape by which
//! the text is converted.

use vstd::prelude::*;
use crate::text::Named;
use crate::type_expr::{ShapeModel, TypeShape};
use crate::value::{scalar_kind, ScalarKind};

verus! {

/// How one argument is looked up and converted.
#[derive(Debug, PartialEq, Eq)]
pub struct ArgPlan {
    pub name: String,
    pub shape: TypeShape,
    pub kind: ScalarKind,
}

/// The mathematical value of an `ArgPlan`.
pub struct ArgPlanModel {
    pub name: Seq<char>,
    pub shape: ShapeModel,
    pub kind: ScalarKind,
}

impl View for ArgPlan {
    type V = ArgPlanModel;

    open spec fn view(&self) -> ArgPlanModel {
        ArgPlanModel { name: self.name@, shape: self.shape@, kind: self.kind }
    }
}

impl Clone for ArgPlan {
    fn clone(&self) -> (r: ArgPlan)
        ensures
            r@ == self@,
    {
        ArgPlan { name: self.name.clone(), shape: self.shape.clone(), kind: self.kind }
    }
}

/// The plan of an argument of the given name and shape: its values are of
/// the kind that the leaf of the shape names.
pub open spec fn arg_plan_spec(name: Seq<char>, shape: ShapeModel) -> ArgPlanModel {
    ArgPlanModel { name, shape, kind: scalar_kind(shape.leaf_type) }
}

/// The values of a list of argument plans.
pub open spec fn arg_plan_models(plans: Seq<ArgPlan>) -> Seq<ArgPlanModel> {
    plans.map_values(|p: ArgPlan| p@)
}

/// How the arguments of one handler are looked up and converted.
#[derive(Debug, PartialEq, Eq)]
pub struct HandlerPlan {
    pub name: String,
    pub params: Vec<ArgPlan>,
}

/// The mathematical value of a `HandlerPlan`.
pub struct HandlerPlanModel {
    pub name: Seq<char>,
    pub params: Seq<ArgPlanModel>,
}

impl View for HandlerPlan {
    type V = HandlerPlanModel;

    open spec fn view(&self) -> HandlerPlanModel {
        HandlerPlanModel { name: self.name@, params: arg_plan_models(self.params@) }
    }
}

/// The values of a list of handler plans.
pub open spec fn handler_plan_models(plans: Seq<HandlerPlan>) -> Seq<HandlerPlanModel> {
    plans.map_values(|h: HandlerPlan| h@)
}

/// The plan of a whole program.
#[derive(Debug, PartialEq, Eq)]
pub struct DispatchPlan {
    pub flags: Vec<ArgPlan>,
    pub handlers: Vec<HandlerPlan>,
}

/// The mathematical value of a `DispatchPlan`.
pub struct PlanModel {
    pub flags: Seq<ArgPlanModel>,
    pub handlers: Seq<HandlerPlanModel>,
}

impl View for DispatchPlan {
    type V = PlanModel;

    open spec fn view(&self) -> PlanModel {
        PlanModel {
            flags: arg_plan_models(self.flags@),
            handlers: handler_plan_models(self.handlers@),
        }
    }
}


impl Named for ArgPlan {
    open spec fn name_text(&self) -> Seq<char> {
        self.name@
    }

    fn name(&self) -> (r: &String) {
        &self.name
    }
}

impl Named for HandlerPlan {
    open spec fn name_text(&self) -> Seq<char> {
        self.name@
    }

    fn name(&self) -> (r: &String) {
        &self.name
    }
}

} // verus!
