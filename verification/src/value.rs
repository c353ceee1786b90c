//! Typed argument values: the kinds of scalar leaf, and the conversion between
//! a value and its canonical text.

use vstd::prelude::*;
use crate::number::{
    format_int, format_int_spec, lemma_int_round_trip, parse_int, parse_int_spec, IntKind,
    IntValue,
};
use crate::text::same_text;
use crate::type_expr::{has_name, name_from_type_path, name_of_type, TypeExpr, TypeModel};

verus! {

/// How the text of an argument is converted, by the name of its leaf type.
#[derive(Clone, Copy, Debug, PartialEq, Eq, Structural)]
pub enum ScalarKind {
    /// A string: the text itself.
    Text,
    /// A boolean: `true` or `false`.
    Bool,
    /// An integer of the given type.
    Int(IntKind),
    /// A type that this library does not convert: the text is handed on as it is.
    Other,
}

/// An argument after conversion.
#[derive(Debug, PartialEq, Eq)]
pub enum ArgValue {
    Text(String),
    Bool(bool),
    Int(IntValue),
    Raw(String),
}

/// The mathematical value of an `ArgValue`.
pub enum ValueModel {
    Text(Seq<char>),
    Bool(bool),
    Int(IntKind, int),
    Raw(Seq<char>),
}

impl View for ArgValue {
    type V = ValueModel;

    open spec fn view(&self) -> ValueModel {
        match self {
            ArgValue::Text(s) => ValueModel::Text(s@),
            ArgValue::Bool(b) => ValueModel::Bool(*b),
            ArgValue::Int(v) => ValueModel::Int(v.kind(), v.value()),
            ArgValue::Raw(s) => ValueModel::Raw(s@),
        }
    }
}

impl Clone for ArgValue {
    fn clone(&self) -> (r: ArgValue)
        ensures
            r@ == self@,
    {
        match self {
            ArgValue::Text(s) => ArgValue::Text(s.clone()),
            ArgValue::Bool(b) => ArgValue::Bool(*b),
            ArgValue::Int(v) => ArgValue::Int(*v),
            ArgValue::Raw(s) => ArgValue::Raw(s.clone()),
        }
    }
}

impl ValueModel {
    /// The kind of scalar that the value is.
    pub open spec fn kind(self) -> ScalarKind {
        match self {
            ValueModel::Text(_) => ScalarKind::Text,
            ValueModel::Bool(_) => ScalarKind::Bool,
            ValueModel::Int(kind, _) => ScalarKind::Int(kind),
            ValueModel::Raw(_) => ScalarKind::Other,
        }
    }

    /// Whether the value is one of its kind: an integer lies within its type.
    pub open spec fn well_formed(self) -> bool {
        self matches ValueModel::Int(kind, v) ==> kind.holds(v)
    }
}

/// The kind of scalar that a type name stands for.
pub open spec fn kind_of_name(name: Seq<char>) -> ScalarKind {
    if name == "String"@ || name == "str"@ {
        ScalarKind::Text
    } else if name == "bool"@ {
        ScalarKind::Bool
    } else if name == "i8"@ {
        ScalarKind::Int(IntKind::I8)
    } else if name == "i16"@ {
        ScalarKind::Int(IntKind::I16)
    } else if name == "i32"@ {
        ScalarKind::Int(IntKind::I32)
    } else if name == "i64"@ {
        ScalarKind::Int(IntKind::I64)
    } else if name == "i128"@ {
        ScalarKind::Int(IntKind::I128)
    } else if name == "isize"@ {
        ScalarKind::Int(IntKind::Isize)
    } else if name == "u8"@ {
        ScalarKind::Int(IntKind::U8)
    } else if name == "u16"@ {
        ScalarKind::Int(IntKind::U16)
    } else if name == "u32"@ {
        ScalarKind::Int(IntKind::U32)
    } else if name == "u64"@ {
        ScalarKind::Int(IntKind::U64)
    } else if name == "u128"@ {
        ScalarKind::Int(IntKind::U128)
    } else if name == "usize"@ {
        ScalarKind::Int(IntKind::Usize)
    } else {
        ScalarKind::Other
    }
}

/// The kind of scalar of a leaf type: that of its name, seen through references.
pub open spec fn scalar_kind(leaf: TypeModel) -> ScalarKind {
    match name_of_type(leaf) {
        Some(name) => kind_of_name(name),
        None => ScalarKind::Other,
    }
}

/// Finds the kind of scalar that a type name stands for.
pub fn classify_name(name: &str) -> (r: ScalarKind)
    ensures
        r == kind_of_name(name@),
{
    if same_text(name, "String") || same_text(name, "str") {
        ScalarKind::Text
    } else if same_text(name, "bool") {
        ScalarKind::Bool
    } else if same_text(name, "i8") {
        ScalarKind::Int(IntKind::I8)
    } else if same_text(name, "i16") {
        ScalarKind::Int(IntKind::I16)
    } else if same_text(name, "i32") {
        ScalarKind::Int(IntKind::I32)
    } else if same_text(name, "i64") {
        ScalarKind::Int(IntKind::I64)
    } else if same_text(name, "i128") {
        ScalarKind::Int(IntKind::I128)
    } else if same_text(name, "isize") {
        ScalarKind::Int(IntKind::Isize)
    } else if same_text(name, "u8") {
        ScalarKind::Int(IntKind::U8)
    } else if same_text(name, "u16") {
        ScalarKind::Int(IntKind::U16)
    } else if same_text(name, "u32") {
        ScalarKind::Int(IntKind::U32)
    } else if same_text(name, "u64") {
        ScalarKind::Int(IntKind::U64)
    } else if same_text(name, "u128") {
        ScalarKind::Int(IntKind::U128)
    } else if same_text(name, "usize") {
        ScalarKind::Int(IntKind::Usize)
    } else {
        ScalarKind::Other
    }
}

/// Finds the kind of scalar of a leaf type.
pub fn classify(leaf: &TypeExpr) -> (r: ScalarKind)
    ensures
        r == scalar_kind(leaf@),
{
    if has_name(leaf) {
        classify_name(name_from_type_path(leaf).as_str())
    } else {
        ScalarKind::Other
    }
}

/// What the text of a boolean parses to: only `true` and `false` are booleans.
pub open spec fn parse_bool_spec(text: Seq<char>) -> Option<bool> {
    if text == "true"@ {
        Some(true)
    } else if text == "false"@ {
        Some(false)
    } else {
        None
    }
}

/// The canonical text of a boolean.
pub open spec fn format_bool_spec(b: bool) -> Seq<char> {
    if b {
        "true"@
    } else {
        "false"@
    }
}

/// What a text parses to as a value of the given kind, `None` where it is
/// not the text of one.
pub open spec fn parse_value_spec(kind: ScalarKind, text: Seq<char>) -> Option<ValueModel> {
    match kind {
        ScalarKind::Text => Some(ValueModel::Text(text)),
        ScalarKind::Bool => match parse_bool_spec(text) {
            Some(b) => Some(ValueModel::Bool(b)),
            None => None,
        },
        ScalarKind::Int(int_kind) => match parse_int_spec(text, int_kind) {
            Some(v) => Some(ValueModel::Int(int_kind, v)),
            None => None,
        },
        ScalarKind::Other => Some(ValueModel::Raw(text)),
    }
}

/// The canonical text of a value.
pub open spec fn format_value_spec(v: ValueModel) -> Seq<char> {
    match v {
        ValueModel::Text(s) => s,
        ValueModel::Bool(b) => format_bool_spec(b),
        ValueModel::Int(_, n) => format_int_spec(n),
        ValueModel::Raw(s) => s,
    }
}

/// Whether a conversion result is the given model.
pub open spec fn parsed_as(r: Option<ArgValue>, m: Option<ValueModel>) -> bool {
    match r {
        Some(v) => m == Some(v@),
        None => m is None,
    }
}

/// Parses the text of a boolean.
pub fn parse_bool(text: &str) -> (r: Option<bool>)
    ensures
        r == parse_bool_spec(text@),
{
    if same_text(text, "true") {
        Some(true)
    } else if same_text(text, "false") {
        Some(false)
    } else {
        None
    }
}

/// Converts the text of an argument into a value of the given kind.
pub fn parse_value(kind: ScalarKind, text: &str) -> (r: Option<ArgValue>)
    ensures
        parsed_as(r, parse_value_spec(kind, text@)),
{
    match kind {
        ScalarKind::Text => Some(ArgValue::Text(String::from_str(text))),
        ScalarKind::Bool => match parse_bool(text) {
            Some(b) => Some(ArgValue::Bool(b)),
            None => None,
        },
        ScalarKind::Int(int_kind) => match parse_int(text, int_kind) {
            Some(v) => Some(ArgValue::Int(v)),
            None => None,
        },
        ScalarKind::Other => Some(ArgValue::Raw(String::from_str(text))),
    }
}

/// Writes a value in its canonical text.
pub fn format_value(v: &ArgValue) -> (r: String)
    ensures
        r@ == format_value_spec(v@),
{
    match v {
        ArgValue::Text(s) => s.clone(),
        ArgValue::Bool(b) => if *b {
            String::from_str("true")
        } else {
            String::from_str("false")
        },
        ArgValue::Int(n) => format_int(*n),
        ArgValue::Raw(s) => s.clone(),
    }
}

/// Parsing the canonical text of a boolean gives the boolean back.
pub proof fn lemma_bool_round_trip(b: bool)
    ensures
        parse_bool_spec(format_bool_spec(b)) == Some(b),
{
    reveal_strlit("true");
    reveal_strlit("false");
    assert("true"@.len() != "false"@.len());
}

/// Parsing the canonical text of a value, as a value of its own kind, gives
/// the value back.
pub proof fn lemma_value_round_trip(v: ValueModel)
    requires
        v.well_formed(),
    ensures
        parse_value_spec(v.kind(), format_value_spec(v)) == Some(v),
{
    match v {
        ValueModel::Bool(b) => lemma_bool_round_trip(b),
        ValueModel::Int(kind, n) => lemma_int_round_trip(n, kind),
        _ => {},
    }
}

impl ArgValue {
    /// The kind of scalar that the value is.
    pub fn kind(&self) -> (r: ScalarKind)
        ensures
            r == self@.kind(),
            self@.well_formed(),
    {
        match self {
            ArgValue::Text(_) => ScalarKind::Text,
            ArgValue::Bool(_) => ScalarKind::Bool,
            ArgValue::Int(v) => ScalarKind::Int(v.int_kind()),
            ArgValue::Raw(_) => ScalarKind::Other,
        }
    }
}

} // verus!
