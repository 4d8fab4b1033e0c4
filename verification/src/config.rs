//! The bot's settings.

use vstd::prelude::*;
use crate::text::str_equal;

verus! {

/// The settings that the bot reads at start: the channels to join, the instructions given to
/// the language model, the broadcaster's own user id, and a switch for each optional feature.
/// The settings file holds the switches as a map, so each name comes at most once
/// (`distinct_names`); `feature_flag` states what it reads both with and without that.
pub struct Config {
    pub channels: Vec<String>,
    pub ai_prompt: String,
    pub own_user_id: String,
    pub features: Vec<(String, bool)>,
}

/// No feature is named twice.
pub open spec fn distinct_names(entries: Seq<(String, bool)>) -> bool {
    forall|j: int, k: int| 0 <= j < k < entries.len() ==> entries[j].0@ != entries[k].0@
}

/// The switch recorded for the feature `name`: the value of its first entry, or `false`
/// where it has none.
pub open spec fn flag_of(entries: Seq<(String, bool)>, name: Seq<char>) -> bool
    decreases entries.len(),
{
    if entries.len() == 0 {
        false
    } else if entries[0].0@ == name {
        entries[0].1
    } else {
        flag_of(entries.drop_first(), name)
    }
}

impl Config {
    /// Whether the feature `name` is switched on; `false` where the settings do not name it.
    /// Where each feature is named at most once, this is the switch recorded under `name`.
    pub fn feature_flag(&self, name: &str) -> (r: bool)
        ensures
            r == flag_of(self.features@, name@),
            distinct_names(self.features@) ==> forall|i: int| 0 <= i < self.features@.len()
                && #[trigger] self.features@[i].0@ == name@ ==> r == self.features@[i].1,
            (forall|i: int| 0 <= i < self.features@.len() ==> #[trigger] self.features@[i].0@ != name@) ==> !r,
    {
        proof {
            if distinct_names(self.features@) {
                assert forall|i: int| 0 <= i < self.features@.len() && #[trigger] self.features@[i].0@ == name@
                    implies flag_of(self.features@, name@) == self.features@[i].1 by {
                    law_flag_of_named(self.features@, i);
                }
            }
            lemma_flag_of_absent(self.features@, name@);
        }
        let n = self.features.len();
        let mut i: usize = 0;
        proof {
            assert(self.features@.skip(0) =~= self.features@);
        }
        while i < n
            invariant
                n == self.features@.len(),
                i <= n,
                flag_of(self.features@, name@) == flag_of(self.features@.skip(i as int), name@),
            decreases n - i,
        {
            let ghost rest = self.features@.skip(i as int);
            proof {
                assert(rest.drop_first() =~= self.features@.skip(i + 1));
            }
            if str_equal(self.features[i].0.as_str(), name) {
                return self.features[i].1;
            }
            i = i + 1;
        }
        false
    }
}

/// A name that no entry has is switched off.
proof fn lemma_flag_of_absent(entries: Seq<(String, bool)>, name: Seq<char>)
    ensures
        (forall|i: int| 0 <= i < entries.len() ==> #[trigger] entries[i].0@ != name) ==> !flag_of(entries, name),
    decreases entries.len(),
{
    if entries.len() > 0 {
        lemma_flag_of_absent(entries.drop_first(), name);
        if forall|i: int| 0 <= i < entries.len() ==> #[trigger] entries[i].0@ != name {
            assert forall|i: int| 0 <= i < entries.drop_first().len() implies #[trigger] entries.drop_first()[i].0@ != name by {
                assert(entries.drop_first()[i] == entries[i + 1]);
            }
            assert(entries[0].0@ != name);
        }
    }
}

/// Law: where every feature is named at most once, the switch of a named feature is the one
/// recorded for it.
pub proof fn law_flag_of_named(entries: Seq<(String, bool)>, i: int)
    requires
        0 <= i < entries.len(),
        distinct_names(entries),
    ensures
        flag_of(entries, entries[i].0@) == entries[i].1,
    decreases i,
{
    if i > 0 {
        let rest = entries.drop_first();
        assert forall|j: int, k: int| 0 <= j < k < rest.len() implies rest[j].0@ != rest[k].0@ by {
            assert(rest[j] == entries[j + 1]);
            assert(rest[k] == entries[k + 1]);
        }
        assert(entries[0].0@ != entries[i].0@);
        assert(rest[i - 1] == entries[i]);
        law_flag_of_named(rest, i - 1);
    }
}

} // verus!
