//! The association from model identifier to the provider that serves it.

use vstd::prelude::*;
use crate::config::{Provider, ProviderView};
use crate::text::same_text;

verus! {

/// One model and the provider that serves it.
pub struct MappingEntry {
    pub model: String,
    pub provider: Provider,
}

/// The map that a list of entries stands for: of two entries for one model the
/// earlier counts.
pub open spec fn entries_map(entries: Seq<MappingEntry>) -> Map<Seq<char>, ProviderView>
    decreases entries.len(),
{
    if entries.len() == 0 {
        Map::empty()
    } else {
        let earlier = entries_map(entries.drop_last());
        if earlier.dom().contains(entries.last().model@) {
            earlier
        } else {
            earlier.insert(entries.last().model@, entries.last().provider@)
        }
    }
}

/// No model has two entries.
pub open spec fn distinct_models(entries: Seq<MappingEntry>) -> bool {
    forall|i: int, j: int|
        0 <= i < j < entries.len() ==> (#[trigger] entries[i]).model@ != (#[trigger] entries[j]).model@
}

/// A model is mapped exactly if it has an entry, and then to the provider of
/// its first entry.
pub proof fn entries_map_lookup(entries: Seq<MappingEntry>, model: Seq<char>)
    ensures
        entries_map(entries).dom().contains(model) <==> exists|i: int|
            0 <= i < entries.len() && (#[trigger] entries[i]).model@ == model,
        forall|i: int|
            0 <= i < entries.len() && (#[trigger] entries[i]).model@ == model && (forall|j: int|
                0 <= j < i ==> (#[trigger] entries[j]).model@ != model) ==> entries_map(entries)[model]
                == entries[i].provider@,
    decreases entries.len(),
{
    if entries.len() > 0 {
        let shorter = entries.drop_last();
        entries_map_lookup(shorter, model);
        let earlier = entries_map(shorter);
        if earlier.dom().contains(model) {
            let w = choose|i: int| 0 <= i < shorter.len() && (#[trigger] shorter[i]).model@ == model;
            assert(entries[w].model@ == model);
        } else if entries.last().model@ == model {
            assert(entries[entries.len() - 1].model@ == model);
        }
        if exists|i: int| 0 <= i < entries.len() && (#[trigger] entries[i]).model@ == model {
            let w = choose|i: int| 0 <= i < entries.len() && (#[trigger] entries[i]).model@ == model;
            if w < shorter.len() {
                assert(shorter[w].model@ == model);
            }
        }
        assert forall|i: int|
            0 <= i < entries.len() && (#[trigger] entries[i]).model@ == model && (forall|j: int|
                0 <= j < i ==> (#[trigger] entries[j]).model@ != model) implies entries_map(entries)[model]
            == entries[i].provider@ by {
            if i < shorter.len() {
                assert(shorter[i].model@ == model);
                assert forall|j: int| 0 <= j < i implies (#[trigger] shorter[j]).model@ != model by {
                    assert(entries[j].model@ != model);
                }
            } else {
                if earlier.dom().contains(model) {
                    let w = choose|k: int| 0 <= k < shorter.len() && (#[trigger] shorter[k]).model@ == model;
                    assert(entries[w].model@ == model);
                }
            }
        }
    }
}

/// The map of a list of entries is finite, and where no model has two entries
/// it has as many keys as the list has entries.
pub proof fn entries_map_size(entries: Seq<MappingEntry>)
    ensures
        entries_map(entries).dom().finite(),
        distinct_models(entries) ==> entries_map(entries).dom().len() == entries.len(),
    decreases entries.len(),
{
    if entries.len() > 0 {
        let shorter = entries.drop_last();
        entries_map_size(shorter);
        if distinct_models(entries) {
            assert forall|i: int, j: int| 0 <= i < j < shorter.len() implies (#[trigger] shorter[i]).model@
                != (#[trigger] shorter[j]).model@ by {
                assert(entries[i].model@ != entries[j].model@);
            }
            entries_map_lookup(shorter, entries.last().model@);
            if entries_map(shorter).dom().contains(entries.last().model@) {
                let w = choose|i: int|
                    0 <= i < shorter.len() && (#[trigger] shorter[i]).model@ == entries.last().model@;
                assert(entries[w].model@ != entries[entries.len() - 1].model@);
            }
        }
    }
}

/// Which provider serves which model. Built afresh for every resolution; a
/// model once entered keeps its provider.
pub struct ModelMapping {
    entries: Vec<MappingEntry>,
}

impl View for ModelMapping {
    type V = Map<Seq<char>, ProviderView>;

    closed spec fn view(&self) -> Map<Seq<char>, ProviderView> {
        entries_map(self.entries@)
    }
}

impl ModelMapping {
    #[verifier::type_invariant]
    spec fn well_formed(&self) -> bool {
        distinct_models(self.entries@)
    }

    /// The mapping without any model.
    pub fn new() -> (mapping: Self)
        ensures
            mapping@ == Map::<Seq<char>, ProviderView>::empty(),
    {
        ModelMapping { entries: Vec::new() }
    }

    /// The number of models that are mapped.
    pub fn len(&self) -> (n: usize)
        ensures
            self@.dom().finite(),
            n == self@.dom().len(),
    {
        proof {
            use_type_invariant(self);
            entries_map_size(self.entries@);
        }
        self.entries.len()
    }

    /// Whether no model is mapped.
    pub fn is_empty(&self) -> (empty: bool)
        ensures
            empty == (self@ == Map::<Seq<char>, ProviderView>::empty()),
    {
        proof {
            if self.entries@.len() > 0 {
                entries_map_lookup(self.entries@, self.entries@[0].model@);
                assert(self@.dom().contains(self.entries@[0].model@));
            }
        }
        self.entries.len() == 0
    }

    /// The provider that serves `model`, if one does.
    pub fn get(&self, model: &str) -> (found: Option<&Provider>)
        ensures
            match found {
                Some(provider) => self@.dom().contains(model@) && self@[model@] == provider@,
                None => !self@.dom().contains(model@),
            },
    {
        let mut i: usize = 0;
        while i < self.entries.len()
            invariant
                i <= self.entries.len(),
                forall|j: int| 0 <= j < i ==> (#[trigger] self.entries@[j]).model@ != model@,
            decreases self.entries.len() - i,
        {
            if same_text(self.entries[i].model.as_str(), model) {
                proof {
                    entries_map_lookup(self.entries@, model@);
                    assert(self.entries@[i as int].model@ == model@);
                }
                return Some(&self.entries[i].provider);
            }
            i += 1;
        }
        proof {
            entries_map_lookup(self.entries@, model@);
        }
        None
    }

    /// Whether some provider serves `model`.
    pub fn contains_key(&self, model: &str) -> (present: bool)
        ensures
            present == self@.dom().contains(model@),
    {
        self.get(model).is_some()
    }

    /// Maps `model` to `provider` unless the model is mapped already; an
    /// existing association is never replaced.
    pub fn insert_if_absent(&mut self, model: String, provider: Provider)
        ensures
            final(self)@ == if old(self)@.dom().contains(model@) {
                old(self)@
            } else {
                old(self)@.insert(model@, provider@)
            },
    {
        if self.contains_key(model.as_str()) {
            return ;
        }
        proof {
            use_type_invariant(&*self);
            entries_map_lookup(self.entries@, model@);
        }
        let ghost before = self.entries@;
        let mut entries: Vec<MappingEntry> = Vec::new();
        core::mem::swap(&mut self.entries, &mut entries);
        entries.push(MappingEntry { model, provider });
        proof {
            assert(entries@.drop_last() =~= before);
            assert forall|i: int, j: int| 0 <= i < j < entries@.len() implies (#[trigger] entries@[i]).model@
                != (#[trigger] entries@[j]).model@ by {
                if j < before.len() {
                    assert(before[i].model@ != before[j].model@);
                } else {
                    assert(before[i].model@ != model@);
                }
            }
        }
        core::mem::swap(&mut self.entries, &mut entries);
    }
}

} // verus!
