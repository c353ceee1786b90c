//! What the argument parser matched: the text given for each argument, and
//! the subcommand that was selected.

use vstd::prelude::*;

verus! {

/// The text matched for the arguments of one command, by name. Where a name
/// occurs more than once, its first entry counts.
#[derive(Debug, PartialEq, Eq)]
pub struct Matches {
    pub values: Vec<(String, String)>,
}

/// A name and the text matched for it.
pub type Matched = (Seq<char>, Seq<char>);

/// The values of a list of matched entries.
pub open spec fn matched_models(values: Seq<(String, String)>) -> Seq<Matched> {
    values.map_values(|p: (String, String)| (p.0@, p.1@))
}

impl View for Matches {
    type V = Seq<Matched>;

    open spec fn view(&self) -> Seq<Matched> {
        matched_models(self.values@)
    }
}

/// The text matched for `name`: that of the first entry of that name, if
/// there is one.
pub open spec fn value_of_spec(values: Seq<Matched>, name: Seq<char>) -> Option<Seq<char>>
    decreases values.len(),
{
    if values.len() == 0 {
        None
    } else if values[0].0 == name {
        Some(values[0].1)
    } else {
        value_of_spec(values.drop_first(), name)
    }
}

impl Matches {
    /// Looks up the text matched for `name`.
    pub fn value_of(&self, name: &str) -> (r: Option<&String>)
        ensures
            match r {
                Some(text) => value_of_spec(self@, name@) == Some(text@),
                None => value_of_spec(self@, name@) is None,
            },
    {
        let ghost all = self@;
        let n = self.values.len();
        let mut i: usize = 0;
        proof {
            assert(all.subrange(0, n as int) =~= all);
        }
        while i < n
            invariant
                i <= n,
                n == self.values@.len(),
                all == self@,
                value_of_spec(all, name@) == value_of_spec(all.subrange(i as int, n as int), name@),
            decreases n - i,
        {
            let entry = &self.values[i];
            proof {
                let rest = all.subrange(i as int, n as int);
                assert(rest[0] == (entry.0@, entry.1@));
                assert(rest.drop_first() =~= all.subrange(i + 1, n as int));
            }
            if crate::text::same_text(entry.0.as_str(), name) {
                return Some(&entry.1);
            }
            i += 1;
        }
        None
    }
}

/// What the parser hands over: the matches of the root command, and the
/// selected subcommand with its own matches.
#[derive(Debug, PartialEq, Eq)]
pub struct MatchResult {
    pub flags: Matches,
    pub subcommand: Option<(String, Matches)>,
}

/// The mathematical value of a `MatchResult`.
pub struct MatchModel {
    pub flags: Seq<Matched>,
    pub subcommand: Option<(Seq<char>, Seq<Matched>)>,
}

impl View for MatchResult {
    type V = MatchModel;

    open spec fn view(&self) -> MatchModel {
        MatchModel {
            flags: self.flags@,
            subcommand: match self.subcommand {
                Some((name, matches)) => Some((name@, matches@)),
                None => None,
            },
        }
    }
}

} // verus!
