//! The declaration of a program: its global flags and its handlers.

use vstd::prelude::*;
use crate::text::{join, join_with, views_of};
use crate::type_expr::{TypeExpr, TypeModel};

verus! {

/// A flag that every subcommand shares.
#[derive(Debug, PartialEq, Eq)]
pub struct GlobalFlagDecl {
    pub name: String,
    pub declared_type: TypeExpr,
    pub help: String,
}

/// The mathematical value of a `GlobalFlagDecl`.
pub struct FlagDeclModel {
    pub name: Seq<char>,
    pub declared_type: TypeModel,
    pub help: Seq<char>,
}

impl View for GlobalFlagDecl {
    type V = FlagDeclModel;

    open spec fn view(&self) -> FlagDeclModel {
        FlagDeclModel {
            name: self.name@,
            declared_type: self.declared_type@,
            help: self.help@,
        }
    }
}

/// A parameter of a handler. It has a name only where it was declared as a
/// plain named binding.
#[derive(Debug, PartialEq, Eq)]
pub struct ParameterDecl {
    pub name: Option<String>,
    pub declared_type: TypeExpr,
}

/// The mathematical value of a `ParameterDecl`.
pub struct ParameterModel {
    pub name: Option<Seq<char>>,
    pub declared_type: TypeModel,
}

impl View for ParameterDecl {
    type V = ParameterModel;

    open spec fn view(&self) -> ParameterModel {
        ParameterModel {
            name: match self.name {
                Some(n) => Some(n@),
                None => None,
            },
            declared_type: self.declared_type@,
        }
    }
}

/// The values of a list of parameters.
pub open spec fn parameter_models(params: Seq<ParameterDecl>) -> Seq<ParameterModel> {
    params.map_values(|p: ParameterDecl| p@)
}

/// A handler: the subcommand of its name, with one argument for each parameter.
#[derive(Debug, PartialEq, Eq)]
pub struct HandlerDecl {
    pub name: String,
    pub about: String,
    pub parameters: Vec<ParameterDecl>,
}

/// The mathematical value of a `HandlerDecl`.
pub struct HandlerModel {
    pub name: Seq<char>,
    pub about: Seq<char>,
    pub parameters: Seq<ParameterModel>,
}

impl View for HandlerDecl {
    type V = HandlerModel;

    open spec fn view(&self) -> HandlerModel {
        HandlerModel {
            name: self.name@,
            about: self.about@,
            parameters: parameter_models(self.parameters@),
        }
    }
}

/// The values of a list of flags.
pub open spec fn flag_models(flags: Seq<GlobalFlagDecl>) -> Seq<FlagDeclModel> {
    flags.map_values(|f: GlobalFlagDecl| f@)
}

/// The values of a list of handlers.
pub open spec fn handler_models(handlers: Seq<HandlerDecl>) -> Seq<HandlerModel> {
    handlers.map_values(|h: HandlerDecl| h@)
}

/// The whole description of a program.
#[derive(Debug, PartialEq, Eq)]
pub struct InterfaceDeclaration {
    pub program_name: String,
    pub about: String,
    pub global_flags: Vec<GlobalFlagDecl>,
    pub handlers: Vec<HandlerDecl>,
}

/// The mathematical value of an `InterfaceDeclaration`.
pub struct InterfaceModel {
    pub program_name: Seq<char>,
    pub about: Seq<char>,
    pub global_flags: Seq<FlagDeclModel>,
    pub handlers: Seq<HandlerModel>,
}

impl View for InterfaceDeclaration {
    type V = InterfaceModel;

    open spec fn view(&self) -> InterfaceModel {
        InterfaceModel {
            program_name: self.program_name@,
            about: self.about@,
            global_flags: flag_models(self.global_flags@),
            handlers: handler_models(self.handlers@),
        }
    }
}

/// The separator between the lines of a description.
pub open spec fn line_separator() -> Seq<char> {
    seq!['\n']
}

/// The description that documentation lines make: all the lines, in order,
/// with one line break between neighbours; empty where there is no line.
pub open spec fn about_of(lines: Seq<Seq<char>>) -> Seq<char> {
    join_with(lines, line_separator())
}

/// Joins documentation lines into one description.
pub fn extract_about(lines: &Vec<String>) -> (r: String)
    ensures
        r@ == about_of(views_of(lines@)),
{
    proof {
        reveal_strlit("\n");
        assert("\n"@ =~= line_separator());
    }
    join(lines, "\n")
}

} // verus!
