//! The schema that the argument parser is configured with.

use vstd::prelude::*;
use crate::text::Named;

verus! {

/// The schema entry of a global flag.
///
/// A required flag has neither a long nor a short form. An optional flag has
/// both, and is then given by either, followed by its value.
#[derive(Debug, PartialEq, Eq)]
pub struct FlagEntry {
    pub name: String,
    pub long: Option<String>,
    pub short: Option<String>,
    pub required: bool,
    pub takes_value: bool,
    pub help: String,
}

/// The mathematical value of a `FlagEntry`.
pub struct FlagEntryModel {
    pub name: Seq<char>,
    pub long: Option<Seq<char>>,
    pub short: Option<Seq<char>>,
    pub required: bool,
    pub takes_value: bool,
    pub help: Seq<char>,
}

/// The characters of a string that may be absent.
pub open spec fn optional_text(s: Option<String>) -> Option<Seq<char>> {
    match s {
        Some(t) => Some(t@),
        None => None,
    }
}

impl View for FlagEntry {
    type V = FlagEntryModel;

    open spec fn view(&self) -> FlagEntryModel {
        FlagEntryModel {
            name: self.name@,
            long: optional_text(self.long),
            short: optional_text(self.short),
            required: self.required,
            takes_value: self.takes_value,
            help: self.help@,
        }
    }
}

/// The schema entry of one argument of a subcommand.
#[derive(Debug, PartialEq, Eq)]
pub struct ArgEntry {
    pub name: String,
    pub required: bool,
}

/// The mathematical value of an `ArgEntry`.
pub struct ArgEntryModel {
    pub name: Seq<char>,
    pub required: bool,
}

impl View for ArgEntry {
    type V = ArgEntryModel;

    open spec fn view(&self) -> ArgEntryModel {
        ArgEntryModel { name: self.name@, required: self.required }
    }
}

/// The values of a list of argument entries.
pub open spec fn arg_entry_models(entries: Seq<ArgEntry>) -> Seq<ArgEntryModel> {
    entries.map_values(|a: ArgEntry| a@)
}

/// The schema entry of a subcommand.
#[derive(Debug, PartialEq, Eq)]
pub struct SubcommandEntry {
    pub name: String,
    pub about: String,
    pub args: Vec<ArgEntry>,
}

/// The mathematical value of a `SubcommandEntry`.
pub struct SubcommandModel {
    pub name: Seq<char>,
    pub about: Seq<char>,
    pub args: Seq<ArgEntryModel>,
}

impl View for SubcommandEntry {
    type V = SubcommandModel;

    open spec fn view(&self) -> SubcommandModel {
        SubcommandModel {
            name: self.name@,
            about: self.about@,
            args: arg_entry_models(self.args@),
        }
    }
}

/// The values of a list of flag entries.
pub open spec fn flag_entry_models(entries: Seq<FlagEntry>) -> Seq<FlagEntryModel> {
    entries.map_values(|e: FlagEntry| e@)
}

/// The values of a list of subcommand entries.
pub open spec fn subcommand_models(entries: Seq<SubcommandEntry>) -> Seq<SubcommandModel> {
    entries.map_values(|e: SubcommandEntry| e@)
}

/// The schema of a whole program.
#[derive(Debug, PartialEq, Eq)]
pub struct ParserSchema {
    pub root_name: String,
    pub about: String,
    pub subcommand_required: bool,
    pub global_flag_entries: Vec<FlagEntry>,
    pub subcommand_entries: Vec<SubcommandEntry>,
}

/// The mathematical value of a `ParserSchema`.
pub struct SchemaModel {
    pub root_name: Seq<char>,
    pub about: Seq<char>,
    pub subcommand_required: bool,
    pub global_flag_entries: Seq<FlagEntryModel>,
    pub subcommand_entries: Seq<SubcommandModel>,
}

impl View for ParserSchema {
    type V = SchemaModel;

    open spec fn view(&self) -> SchemaModel {
        SchemaModel {
            root_name: self.root_name@,
            about: self.about@,
            subcommand_required: self.subcommand_required,
            global_flag_entries: flag_entry_models(self.global_flag_entries@),
            subcommand_entries: subcommand_models(self.subcommand_entries@),
        }
    }
}


impl Named for FlagEntry {
    open spec fn name_text(&self) -> Seq<char> {
        self.name@
    }

    fn name(&self) -> (r: &String) {
        &self.name
    }
}

impl Named for ArgEntry {
    open spec fn name_text(&self) -> Seq<char> {
        self.name@
    }

    fn name(&self) -> (r: &String) {
        &self.name
    }
}

impl Named for SubcommandEntry {
    open spec fn name_text(&self) -> Seq<char> {
        self.name@
    }

    fn name(&self) -> (r: &String) {
        &self.name
    }
}

} // verus!
