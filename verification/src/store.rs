//! The store of global flag values: written once, after parsing, and only
//! read from then on.

use vstd::prelude::*;
use crate::dispatch::{
    call_arg_models, convert_all, convert_all_spec, ArgError, CallArg, CallArgModel,
};
use crate::matches::{Matched, Matches};
use crate::plan::{arg_plan_models, ArgPlan, ArgPlanModel};
use crate::text::{first_index_of, names_of, position_of};
use crate::value::{ArgValue, ValueModel};

verus! {

/// The values of the global flags of a program.
///
/// A store is made empty. It is populated once from the matches of the
/// parser, and after that every required flag has a value. Its values can
/// be read only once it is populated.
#[derive(Debug, PartialEq, Eq)]
pub struct GlobalFlagStore {
    flags: Vec<ArgPlan>,
    values: Vec<Option<ArgValue>>,
    populated: bool,
}

/// The mathematical value of a `GlobalFlagStore`: the plans of the flags in
/// declared order, the value held for each, and whether the store has been
/// populated.
pub struct StoreModel {
    pub flags: Seq<ArgPlanModel>,
    pub values: Seq<Option<ValueModel>>,
    pub populated: bool,
}

/// The value of a slot.
pub open spec fn slot_model(v: Option<ArgValue>) -> Option<ValueModel> {
    match v {
        Some(x) => Some(x@),
        None => None,
    }
}

/// What is stored for a converted flag: the value of a required flag, and
/// the value of an optional flag if it was given.
pub open spec fn stored(arg: CallArgModel) -> Option<ValueModel> {
    match arg {
        CallArgModel::Required(v) => Some(v),
        CallArgModel::Optional(v) => v,
    }
}

/// Why a flag could not be read.
#[derive(Clone, Copy, Debug, PartialEq, Eq, Structural)]
pub enum AccessError {
    /// The store has not been populated yet.
    NotPopulated,
    /// The store has no flag of that name.
    UnknownFlag,
    /// The flag is optional and was not given.
    Unset,
}

impl AccessError {
    /// The diagnostic that goes with the error.
    pub open spec fn message_spec(self) -> Seq<char> {
        match self {
            AccessError::NotPopulated => "global flags read before they were parsed"@,
            AccessError::UnknownFlag => "no global flag of that name"@,
            AccessError::Unset => "global flag was not given"@,
        }
    }

    /// The report of the error for the flag that was asked for: its name,
    /// and what went wrong.
    pub open spec fn report(self, name: Seq<char>) -> Seq<char> {
        "global flag "@ + name + ": "@ + self.message_spec()
    }

    /// Writes the report of the error for the flag that was asked for.
    pub fn describe(&self, name: &str) -> (r: String)
        ensures
            r@ == self.report(name@),
    {
        let r = String::from_str("global flag ").concat(name).concat(": ").concat(self.message());
        proof {
            assert(r@ =~= self.report(name@));
        }
        r
    }

    /// The diagnostic that goes with the error.
    pub fn message(&self) -> (r: &'static str)
        ensures
            r@ == self.message_spec(),
    {
        match self {
            AccessError::NotPopulated => "global flags read before they were parsed",
            AccessError::UnknownFlag => "no global flag of that name",
            AccessError::Unset => "global flag was not given",
        }
    }
}

/// The names of the flags of a store.
pub open spec fn plan_names(flags: Seq<ArgPlanModel>) -> Seq<Seq<char>> {
    flags.map_values(|p: ArgPlanModel| p.name)
}

/// The position of the first flag of the given name, if there is one.
pub open spec fn find_flag(flags: Seq<ArgPlanModel>, name: Seq<char>) -> Option<int> {
    first_index_of(plan_names(flags), name)
}

/// What reading a flag yields: an error before the store is populated, for a
/// name that is not a flag's, and for a flag without a value; the value
/// otherwise.
pub open spec fn get_spec(store: StoreModel, name: Seq<char>) -> Result<ValueModel, AccessError> {
    if !store.populated {
        Err(AccessError::NotPopulated)
    } else {
        match find_flag(store.flags, name) {
            None => Err(AccessError::UnknownFlag),
            Some(i) => match store.values[i] {
                Some(v) => Ok(v),
                None => Err(AccessError::Unset),
            },
        }
    }
}

/// The store of the given flags before it is populated: no flag has a value.
pub open spec fn empty_store(flags: Seq<ArgPlanModel>) -> StoreModel {
    StoreModel {
        flags,
        values: Seq::new(flags.len(), |i: int| None::<ValueModel>),
        populated: false,
    }
}

/// The store of the given flags once it is populated with their converted
/// values.
pub open spec fn populated_store(flags: Seq<ArgPlanModel>, args: Seq<CallArgModel>) -> StoreModel {
    StoreModel { flags, values: args.map_values(|a: CallArgModel| stored(a)), populated: true }
}

/// Why a store could not be populated.
#[derive(Clone, Copy, Debug, PartialEq, Eq, Structural)]
pub enum StoreError {
    /// The store is populated already: it is written only once.
    AlreadyPopulated,
    /// The flag at `index` could not be converted.
    Flag { index: usize, error: ArgError },
}

/// What populating a store yields: the store as it is left, and the error if
/// there was one. A store that is populated already, and one of whose flags
/// one cannot be converted, is left as it was.
pub open spec fn populate_spec(store: StoreModel, matches: Seq<Matched>) -> (
    StoreModel,
    Option<StoreError>,
) {
    if store.populated {
        (store, Some(StoreError::AlreadyPopulated))
    } else {
        match convert_all_spec(store.flags, matches) {
            Ok(args) => (populated_store(store.flags, args), None),
            Err((k, error)) => (store, Some(StoreError::Flag { index: k as usize, error })),
        }
    }
}

/// Converted arguments are as many as their plans, and each is of the form
/// that its plan asks for: required or optional.
pub proof fn lemma_converted_forms(plans: Seq<ArgPlanModel>, matches: Seq<Matched>)
    requires
        convert_all_spec(plans, matches) is Ok,
    ensures
        convert_all_spec(plans, matches)->Ok_0.len() == plans.len(),
        forall|i: int|
            0 <= i < plans.len() ==> (#[trigger] convert_all_spec(plans, matches)->Ok_0[i])
                is Optional == plans[i].shape.is_optional,
    decreases plans.len(),
{
    if plans.len() > 0 {
        lemma_converted_forms(plans.drop_last(), matches);
    }
}

/// Once a store is populated, every required flag has a value.
pub proof fn lemma_populated_required_present(flags: Seq<ArgPlanModel>, matches: Seq<Matched>)
    requires
        convert_all_spec(flags, matches) is Ok,
    ensures
        ({
            let store = populate_spec(empty_store(flags), matches).0;
            &&& store.populated
            &&& store.values.len() == flags.len()
            &&& forall|i: int|
                0 <= i < flags.len() && !flags[i].shape.is_optional ==> (
                #[trigger] store.values[i]) is Some
        }),
{
    lemma_converted_forms(flags, matches);
    let args = convert_all_spec(flags, matches)->Ok_0;
    let store = populate_spec(empty_store(flags), matches).0;
    assert forall|i: int| 0 <= i < flags.len() && !flags[i].shape.is_optional implies (
    #[trigger] store.values[i]) is Some by {
        assert(args[i] is Required);
    }
}

impl View for GlobalFlagStore {
    type V = StoreModel;

    closed spec fn view(&self) -> StoreModel {
        StoreModel {
            flags: arg_plan_models(self.flags@),
            values: self.values@.map_values(|v: Option<ArgValue>| slot_model(v)),
            populated: self.populated,
        }
    }
}

impl GlobalFlagStore {
    /// A store has a slot for each flag, and before it is populated no slot
    /// holds a value.
    #[verifier::type_invariant]
    spec fn consistent(&self) -> bool {
        &&& self.flags@.len() == self.values@.len()
        &&& !self.populated ==> forall|i: int|
            0 <= i < self.values@.len() ==> (#[trigger] self.values@[i]) is None
    }

    /// Makes the empty store of the given flags: it has a slot for each, no
    /// values, and is not populated.
    pub fn new_empty_store(flags: &Vec<ArgPlan>) -> (r: GlobalFlagStore)
        ensures
            r@ == empty_store(arg_plan_models(flags@)),
    {
        let mut own: Vec<ArgPlan> = Vec::new();
        let mut values: Vec<Option<ArgValue>> = Vec::new();
        let mut i: usize = 0;
        while i < flags.len()
            invariant
                i <= flags.len(),
                own@.len() == i,
                values@.len() == i,
                forall|k: int| 0 <= k < i ==> (#[trigger] own@[k])@ == flags@[k]@,
                forall|k: int| 0 <= k < i ==> (#[trigger] values@[k]) is None,
            decreases flags.len() - i,
        {
            own.push(flags[i].clone());
            values.push(None);
            i += 1;
        }
        let r = GlobalFlagStore { flags: own, values, populated: false };
        proof {
            assert(r@.flags =~= arg_plan_models(flags@));
            assert(r@.values =~= empty_store(arg_plan_models(flags@)).values);
        }
        r
    }

    /// Whether the store has been populated.
    pub fn is_populated(&self) -> (r: bool)
        ensures
            r == self@.populated,
    {
        self.populated
    }

    /// Reads the value of the flag of the given name.
    pub fn get(&self, name: &str) -> (r: Result<ArgValue, AccessError>)
        ensures
            match r {
                Ok(v) => get_spec(self@, name@) == Ok::<ValueModel, AccessError>(v@),
                Err(e) => get_spec(self@, name@) == Err::<ValueModel, AccessError>(e),
            },
            !self@.populated ==> r == Err::<ArgValue, AccessError>(AccessError::NotPopulated),
    {
        proof {
            use_type_invariant(self);
        }
        if !self.populated {
            return Err(AccessError::NotPopulated);
        }
        proof {
            assert(names_of(self.flags@) =~= plan_names(self@.flags));
        }
        match position_of(&self.flags, name) {
            None => Err(AccessError::UnknownFlag),
            Some(i) => {
                assert(self@.values[i as int] == slot_model(self.values@[i as int]));
                match &self.values[i] {
                    Some(v) => Ok(v.clone()),
                    None => Err(AccessError::Unset),
                }
            },
        }
    }

    /// Populates the store from the matches of the root command.
    pub fn populate(&mut self, matches: &Matches) -> (r: Result<(), StoreError>)
        ensures
            final(self)@ == populate_spec(old(self)@, matches@).0,
            match r {
                Ok(()) => populate_spec(old(self)@, matches@).1 is None,
                Err(e) => populate_spec(old(self)@, matches@).1 == Some(e),
            },
    {
        proof {
            use_type_invariant(&*self);
        }
        if self.populated {
            return Err(StoreError::AlreadyPopulated);
        }
        match convert_all(&self.flags, matches) {
            Err((k, error)) => Err(StoreError::Flag { index: k, error }),
            Ok(args) => {
                proof {
                    lemma_converted_forms(self@.flags, matches@);
                }
                let mut values: Vec<Option<ArgValue>> = Vec::new();
                let ghost all = call_arg_models(args@);
                let mut k: usize = 0;
                while k < args.len()
                    invariant
                        k <= args.len(),
                        all == call_arg_models(args@),
                        values@.len() == k,
                        forall|n: int|
                            0 <= n < k ==> slot_model(#[trigger] values@[n]) == stored(all[n]),
                    decreases args.len() - k,
                {
                    assert(all[k as int] == args@[k as int]@);
                    values.push(
                        match &args[k] {
                            CallArg::Required(v) => Some(v.clone()),
                            CallArg::Optional(Some(v)) => Some(v.clone()),
                            CallArg::Optional(None) => None,
                        },
                    );
                    k += 1;
                }
                assert(values@.len() == self.flags@.len()) by {
                    assert(all.len() == args@.len());
                    assert(self@.flags.len() == self.flags@.len());
                }
                self.populated = true;
                self.values = values;
                proof {
                    assert(self@.values =~= all.map_values(|a: CallArgModel| stored(a)));
                }
                Ok(())
            },
        }
    }
}

} // verus!
