//! Reading what `clap` matched.
//!
//! The parser itself is configured and run by the program. Its result is read
//! here, argument by argument as the schema names them, into a `MatchResult`.

use vstd::prelude::*;
use crate::dispatch::{ArgError, DispatchError, InvocationModel};
use crate::generate::Generated;
use crate::matches::{
    matched_models, value_of_spec, MatchModel, MatchResult, Matched, Matches,
};
use crate::plan::PlanModel;
use crate::runtime::{call_model, run, run_spec, Outcome};
use crate::schema::{
    arg_entry_models, flag_entry_models, optional_text, subcommand_models, ArgEntryModel,
    FlagEntryModel, ParserSchema, SchemaModel, SubcommandModel,
};
use crate::store::StoreModel;
use crate::text::{copy_names, first_index_of, names_of, position_of, views_of};

verus! {

/// Declares `clap::ArgMatches`, the result of a parse. Nothing is known of
/// a value of it but what the functions below say.
#[verifier::external_type_specification]
#[verifier::external_body]
pub struct ExArgMatches<'a>(clap::ArgMatches<'a>);

/// What the matches of a command hold: for each argument that was given a
/// value, the text of its first value, or `None` where that value is not
/// valid UTF-8.
pub uninterp spec fn matched_values(m: clap::ArgMatches) -> Map<Seq<char>, Option<Seq<char>>>;

/// The name of the subcommand that the matches of a command select, if any.
pub uninterp spec fn selected_name(m: clap::ArgMatches) -> Option<Seq<char>>;

/// What the matches of the selected subcommand hold, as `matched_values`
/// tells it of a command.
pub uninterp spec fn selected_values(m: clap::ArgMatches) -> Map<Seq<char>, Option<Seq<char>>>;

/// Calls `clap::ArgMatches::value_of_os`, which looks the argument up by its
/// name and gives the first of its values, if it has one, as the operating
/// system handed it over. The value is turned into text where it is valid
/// UTF-8. The contract says that this is what `matched_values` holds for the
/// name: no result for a name without a value, and no text for a value that
/// is not UTF-8.
#[verifier::external_body]
fn first_value(m: &clap::ArgMatches, name: &str) -> (r: Option<Option<String>>)
    ensures
        r is Some == matched_values(*m).contains_key(name@),
        r matches Some(value) ==> optional_text(value) == matched_values(*m)[name@],
{
    m.value_of_os(name).map(|value| value.to_str().map(|text| text.to_string()))
}

/// Calls `clap::ArgMatches::subcommand`, which gives the name and the matches
/// of the selected subcommand, or an empty name and no matches. The contract
/// says that the name is `selected_name` and that the matches hold
/// `selected_values`.
#[verifier::external_body]
fn selected<'m, 'a>(m: &'m clap::ArgMatches<'a>) -> (r: Option<
    (String, &'m clap::ArgMatches<'a>),
>)
    ensures
        match r {
            Some((name, sub)) => selected_name(*m) == Some(name@) && matched_values(*sub)
                == selected_values(*m),
            None => selected_name(*m) is None,
        },
{
    match m.subcommand() {
        (name, Some(sub)) => Some((name.to_string(), sub)),
        (_, None) => None,
    }
}

/// The entries of `names` that have a value, each with its text, in the
/// order of `names`; or the position of the first name whose value is not
/// text.
pub open spec fn gathered(names: Seq<Seq<char>>, values: Map<Seq<char>, Option<Seq<char>>>)
    -> Result<Seq<Matched>, int>
    decreases names.len(),
{
    if names.len() == 0 {
        Ok(Seq::empty())
    } else {
        match gathered(names.drop_last(), values) {
            Err(k) => Err(k),
            Ok(before) => if values.contains_key(names.last()) {
                match values[names.last()] {
                    Some(text) => Ok(before.push((names.last(), text))),
                    None => Err(names.len() - 1),
                }
            } else {
                Ok(before)
            },
        }
    }
}

/// A failure among the first `n` names is the failure among all.
pub proof fn lemma_gathered_fails_on(
    names: Seq<Seq<char>>,
    values: Map<Seq<char>, Option<Seq<char>>>,
    n: int,
)
    requires
        0 <= n <= names.len(),
        gathered(names.take(n), values) is Err,
    ensures
        gathered(names, values) == gathered(names.take(n), values),
    decreases names.len(),
{
    if n == names.len() {
        assert(names.take(n) =~= names);
    } else {
        assert(names.drop_last().take(n) =~= names.take(n));
        lemma_gathered_fails_on(names.drop_last(), values, n);
    }
}

/// The names of the flag entries of a schema.
pub open spec fn flag_names(entries: Seq<FlagEntryModel>) -> Seq<Seq<char>> {
    entries.map_values(|e: FlagEntryModel| e.name)
}

/// The names of the arguments of a subcommand.
pub open spec fn arg_names(entries: Seq<ArgEntryModel>) -> Seq<Seq<char>> {
    entries.map_values(|e: ArgEntryModel| e.name)
}

/// The names of the subcommands of a schema.
pub open spec fn subcommand_names(entries: Seq<SubcommandModel>) -> Seq<Seq<char>> {
    entries.map_values(|e: SubcommandModel| e.name)
}

/// The error of a value that is not text, for the global flag at `index`.
pub open spec fn flag_not_text(index: int) -> DispatchError {
    DispatchError::Flag { index: index as usize, error: ArgError::NotUtf8 }
}

/// The error of a value that is not text, for the argument at `parameter`
/// of the subcommand at `handler`.
pub open spec fn argument_not_text(handler: int, parameter: int) -> DispatchError {
    DispatchError::Argument {
        handler: handler as usize,
        parameter: parameter as usize,
        error: ArgError::NotUtf8,
    }
}

/// What is read from matches under a schema.
///
/// The root's matches are the global flags that have a value, in the order of
/// the schema. The selected subcommand is kept under its name, with those of
/// its arguments that have a value, in the order of the schema; a selected
/// subcommand that the schema does not know has no arguments. A value that
/// is not text is an error: that of the first such global flag, else that of
/// the first such argument of the selected subcommand.
pub open spec fn collected(
    schema: SchemaModel,
    values: Map<Seq<char>, Option<Seq<char>>>,
    selected: Option<Seq<char>>,
    sub_values: Map<Seq<char>, Option<Seq<char>>>,
) -> Result<MatchModel, DispatchError> {
    match gathered(flag_names(schema.global_flag_entries), values) {
        Err(k) => Err(flag_not_text(k)),
        Ok(flags) => match selected {
            None => Ok(MatchModel { flags, subcommand: None }),
            Some(name) => match first_index_of(
                subcommand_names(schema.subcommand_entries),
                name,
            ) {
                None => Ok(MatchModel { flags, subcommand: Some((name, Seq::empty())) }),
                Some(i) => match gathered(
                    arg_names(schema.subcommand_entries[i].args),
                    sub_values,
                ) {
                    Ok(args) => Ok(MatchModel { flags, subcommand: Some((name, args)) }),
                    Err(k) => Err(argument_not_text(i, k)),
                },
            },
        },
    }
}

/// What a generated program makes of matches: they are read under the
/// schema, and what was read is run under the plan.
pub open spec fn start_spec(
    schema: SchemaModel,
    plan: PlanModel,
    values: Map<Seq<char>, Option<Seq<char>>>,
    selected: Option<Seq<char>>,
    sub_values: Map<Seq<char>, Option<Seq<char>>>,
) -> Result<(StoreModel, Option<InvocationModel>), DispatchError> {
    match collected(schema, values, selected, sub_values) {
        Ok(read) => run_spec(plan, read),
        Err(e) => Err(e),
    }
}

/// Reads the values of the arguments of the given names, in their order, and
/// stops at the first that is not text.
pub fn gather(names: &Vec<String>, m: &clap::ArgMatches) -> (r: Result<Matches, usize>)
    ensures
        match r {
            Ok(read) => gathered(views_of(names@), matched_values(*m)) == Ok::<
                Seq<Matched>,
                int,
            >(read@),
            Err(k) => gathered(views_of(names@), matched_values(*m)) == Err::<
                Seq<Matched>,
                int,
            >(k as int),
        },
{
    let ghost all = views_of(names@);
    let mut values: Vec<(String, String)> = Vec::new();
    let mut i: usize = 0;
    proof {
        assert(all.take(0) =~= Seq::<Seq<char>>::empty());
        assert(matched_models(values@) =~= Seq::<Matched>::empty());
    }
    while i < names.len()
        invariant
            i <= names.len(),
            all == views_of(names@),
            gathered(all.take(i as int), matched_values(*m)) == Ok::<Seq<Matched>, int>(
                matched_models(values@),
            ),
        decreases names.len() - i,
    {
        let ghost before = matched_models(values@);
        proof {
            assert(all.take(i + 1).drop_last() =~= all.take(i as int));
            assert(all.take(i + 1).last() == names@[i as int]@);
        }
        match first_value(m, names[i].as_str()) {
            Some(Some(text)) => {
                values.push((names[i].clone(), text));
                proof {
                    assert(matched_models(values@) =~= before.push((names@[i as int]@, text@)));
                }
            },
            Some(None) => {
                proof {
                    lemma_gathered_fails_on(all, matched_values(*m), i + 1);
                }
                return Err(i);
            },
            None => {},
        }
        i += 1;
    }
    proof {
        assert(all.take(i as int) =~= all);
    }
    Ok(Matches { values })
}

/// Whether a result of reading is the given model.
pub open spec fn collected_as(
    r: Result<MatchResult, DispatchError>,
    m: Result<MatchModel, DispatchError>,
) -> bool {
    match r {
        Ok(read) => m == Ok::<MatchModel, DispatchError>(read@),
        Err(e) => m == Err::<MatchModel, DispatchError>(e),
    }
}

/// Reads what the parser matched under a schema into a `MatchResult`.
pub fn collect(schema: &ParserSchema, m: &clap::ArgMatches) -> (r: Result<
    MatchResult,
    DispatchError,
>)
    ensures
        collected_as(
            r,
            collected(schema@, matched_values(*m), selected_name(*m), selected_values(*m)),
        ),
{
    proof {
        assert(names_of(schema.global_flag_entries@) =~= flag_names(
            flag_entry_models(schema.global_flag_entries@),
        ));
        assert(names_of(schema.subcommand_entries@) =~= subcommand_names(
            subcommand_models(schema.subcommand_entries@),
        ));
    }
    let flags = match gather(&copy_names(&schema.global_flag_entries), m) {
        Ok(flags) => flags,
        Err(k) => {
            return Err(DispatchError::Flag { index: k, error: ArgError::NotUtf8 });
        },
    };
    let subcommand = match selected(m) {
        None => None,
        Some((name, sub)) => match position_of(&schema.subcommand_entries, name.as_str()) {
            None => Some((name, Matches { values: Vec::new() })),
            Some(i) => {
                let entry = &schema.subcommand_entries[i];
                proof {
                    assert(schema@.subcommand_entries[i as int] == entry@);
                    assert(names_of(entry.args@) =~= arg_names(arg_entry_models(entry.args@)));
                }
                match gather(&copy_names(&entry.args), sub) {
                    Ok(args) => Some((name, args)),
                    Err(k) => {
                        return Err(
                            DispatchError::Argument {
                                handler: i,
                                parameter: k,
                                error: ArgError::NotUtf8,
                            },
                        );
                    },
                }
            },
        },
    };
    let r = MatchResult { flags, subcommand };
    proof {
        let want = collected(
            schema@,
            matched_values(*m),
            selected_name(*m),
            selected_values(*m),
        );
        assert(want is Ok);
        assert(r@.flags == want->Ok_0.flags);
        if r.subcommand is Some {
            assert(r@.subcommand->Some_0.1 =~= want->Ok_0.subcommand->Some_0.1);
        }
    }
    Ok(r)
}

/// Runs a generated program on what the parser matched: reads the matches
/// under the schema, populates the store, and dispatches.
pub fn start(generated: &Generated, m: &clap::ArgMatches) -> (r: Result<Outcome, DispatchError>)
    ensures
        ({
            let want = start_spec(
                generated.schema@,
                generated.plan@,
                matched_values(*m),
                selected_name(*m),
                selected_values(*m),
            );
            match r {
                Ok(out) => want == Ok::<(StoreModel, Option<InvocationModel>), DispatchError>(
                    (out.store@, call_model(out.invocation)),
                ),
                Err(e) => want == Err::<(StoreModel, Option<InvocationModel>), DispatchError>(e),
            }
        }),
{
    match collect(&generated.schema, m) {
        Ok(read) => run(&generated.plan, &read),
        Err(e) => Err(e),
    }
}

/// The value that `value_of_spec` finds when one more entry is appended.
pub proof fn lemma_value_of_push(values: Seq<Matched>, entry: Matched, name: Seq<char>)
    ensures
        value_of_spec(values.push(entry), name) == match value_of_spec(values, name) {
            Some(v) => Some(v),
            None => if entry.0 == name {
                Some(entry.1)
            } else {
                None
            },
        },
    decreases values.len(),
{
    if values.len() == 0 {
        assert(values.push(entry).drop_first() =~= values);
    } else {
        assert(values.push(entry).drop_first() =~= values.drop_first().push(entry));
        lemma_value_of_push(values.drop_first(), entry, name);
    }
}

/// Nothing is lost in reading: what is looked up among the gathered entries
/// is the text that the parser holds for the name, for every name that was
/// gathered; other names are not found.
pub proof fn lemma_gathered_value_of(
    names: Seq<Seq<char>>,
    values: Map<Seq<char>, Option<Seq<char>>>,
    name: Seq<char>,
)
    requires
        gathered(names, values) is Ok,
    ensures
        value_of_spec(gathered(names, values)->Ok_0, name) == if names.contains(name)
            && values.contains_key(name) {
            values[name]
        } else {
            None
        },
    decreases names.len(),
{
    if names.len() > 0 {
        let front = names.drop_last();
        lemma_gathered_value_of(front, values, name);
        assert(names.contains(name) <==> front.contains(name) || names.last() == name) by {
            if front.contains(name) {
                let k = choose|k: int| 0 <= k < front.len() && front[k] == name;
                assert(names[k] == name);
            }
            if names.last() == name {
                assert(names[names.len() - 1] == name);
            }
            if names.contains(name) {
                let k = choose|k: int| 0 <= k < names.len() && names[k] == name;
                if k < names.len() - 1 {
                    assert(front[k] == name);
                }
            }
        }
        if values.contains_key(names.last()) {
            lemma_value_of_push(
                gathered(front, values)->Ok_0,
                (names.last(), values[names.last()]->Some_0),
                name,
            );
        }
    }
}

} // verus!
