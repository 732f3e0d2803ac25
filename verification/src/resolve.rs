//! Resolution: which provider serves which model, over all providers.
//!
//! Providers are taken in their configured order, and of two providers that
//! offer one model the earlier one serves it.

use vstd::prelude::*;
use crate::config::{Config, Provider, ProviderView};
use crate::text::{contains_text, push_contains, texts};
use crate::json::{doc_of, docs_of, json_copy, JsonDoc};
use crate::listing::{id_of, ids_in, record_id, records_and_ids_agree};
use crate::mapping::ModelMapping;
use crate::upstream::UpstreamOutcome;

verus! {

/// The outcome reported for the provider at position `i`; where none was
/// reported, no call was made.
pub open spec fn outcome_at(outcomes: Seq<UpstreamOutcome>, i: int) -> UpstreamOutcome {
    if 0 <= i < outcomes.len() {
        outcomes[i]
    } else {
        UpstreamOutcome::NotAsked
    }
}

/// Some list before position `n` holds `model`.
pub open spec fn offered_before(lists: Seq<Seq<Seq<char>>>, n: int, model: Seq<char>) -> bool {
    exists|i: int| 0 <= i < n && i < lists.len() && #[trigger] lists[i].contains(model)
}

/// `mapping` is what the first `n` providers resolve to: it maps exactly the
/// models that one of them offers, each to the first provider that offers it.
pub open spec fn resolves_first(
    mapping: Map<Seq<char>, ProviderView>,
    providers: Seq<ProviderView>,
    lists: Seq<Seq<Seq<char>>>,
    n: int,
) -> bool {
    &&& forall|model: Seq<char>| #[trigger]
        mapping.dom().contains(model) <==> offered_before(lists, n, model)
    &&& forall|model: Seq<char>, i: int|
        0 <= i < n && i < lists.len() && #[trigger] lists[i].contains(model) && !offered_before(
            lists,
            i,
            model,
        ) ==> mapping[model] == providers[i]
}

/// `mapping` is the resolution of `providers`, where `lists[i]` holds the
/// models that `providers[i]` offers.
pub open spec fn resolves(
    mapping: Map<Seq<char>, ProviderView>,
    providers: Seq<ProviderView>,
    lists: Seq<Seq<Seq<char>>>,
) -> bool {
    resolves_first(mapping, providers, lists, lists.len() as int)
}

/// `mapping` holds the first `k` providers and the first `t` models of
/// provider `k`.
spec fn resolves_partly(
    mapping: Map<Seq<char>, ProviderView>,
    providers: Seq<ProviderView>,
    lists: Seq<Seq<Seq<char>>>,
    k: int,
    t: int,
) -> bool {
    &&& forall|model: Seq<char>| #[trigger]
        mapping.dom().contains(model) <==> (offered_before(lists, k, model) || lists[k].take(
            t,
        ).contains(model))
    &&& forall|model: Seq<char>, i: int|
        0 <= i < k && i < lists.len() && #[trigger] lists[i].contains(model) && !offered_before(
            lists,
            i,
            model,
        ) ==> mapping[model] == providers[i]
    &&& forall|model: Seq<char>| #[trigger]
        lists[k].take(t).contains(model) && !offered_before(lists, k, model) ==> mapping[model]
            == providers[k]
}

/// A model is offered before position `n + 1` exactly if it is offered before
/// `n` or at `n`.
pub proof fn offered_before_next(lists: Seq<Seq<Seq<char>>>, n: int, model: Seq<char>)
    requires
        0 <= n < lists.len(),
    ensures
        offered_before(lists, n + 1, model) <==> (offered_before(lists, n, model)
            || lists[n].contains(model)),
{
    if offered_before(lists, n + 1, model) {
        let i = choose|i: int| 0 <= i < n + 1 && i < lists.len() && #[trigger] lists[i].contains(model);
        if i < n {
            assert(offered_before(lists, n, model));
        }
    }
    if offered_before(lists, n, model) {
        let i = choose|i: int| 0 <= i < n && i < lists.len() && #[trigger] lists[i].contains(model);
        assert(0 <= i < n + 1 && lists[i].contains(model));
    }
    if lists[n].contains(model) {
        assert(offered_before(lists, n + 1, model));
    }
}

proof fn resolution_begins(
    mapping: Map<Seq<char>, ProviderView>,
    providers: Seq<ProviderView>,
    lists: Seq<Seq<Seq<char>>>,
    k: int,
)
    requires
        0 <= k < lists.len(),
        resolves_first(mapping, providers, lists, k),
    ensures
        resolves_partly(mapping, providers, lists, k, 0),
{
    assert(lists[k].take(0) =~= Seq::<Seq<char>>::empty());
}

proof fn resolution_takes_model(
    before: Map<Seq<char>, ProviderView>,
    after: Map<Seq<char>, ProviderView>,
    providers: Seq<ProviderView>,
    lists: Seq<Seq<Seq<char>>>,
    k: int,
    t: int,
)
    requires
        0 <= k < lists.len(),
        0 <= t < lists[k].len(),
        resolves_partly(before, providers, lists, k, t),
        after == if before.dom().contains(lists[k][t]) {
            before
        } else {
            before.insert(lists[k][t], providers[k])
        },
    ensures
        resolves_partly(after, providers, lists, k, t + 1),
{
    let list = lists[k];
    let added = list[t];
    assert(list.take(t + 1) =~= list.take(t).push(added));
    assert forall|model: Seq<char>| #[trigger]
        list.take(t + 1).contains(model) <==> (list.take(t).contains(model) || model == added) by {
        if list.take(t).contains(model) {
            let u = choose|u: int| 0 <= u < list.take(t).len() && list.take(t)[u] == model;
            assert(list.take(t + 1)[u] == model);
        }
        if model == added {
            assert(list.take(t + 1)[t] == model);
        }
    }
    assert forall|model: Seq<char>, i: int|
        0 <= i < k && i < lists.len() && #[trigger] lists[i].contains(model) && !offered_before(
            lists,
            i,
            model,
        ) implies after[model] == providers[i] by {
        assert(offered_before(lists, k, model));
        assert(before.dom().contains(model));
    }
}

proof fn resolution_ends(
    mapping: Map<Seq<char>, ProviderView>,
    providers: Seq<ProviderView>,
    lists: Seq<Seq<Seq<char>>>,
    k: int,
)
    requires
        0 <= k < lists.len(),
        resolves_partly(mapping, providers, lists, k, lists[k].len() as int),
    ensures
        resolves_first(mapping, providers, lists, k + 1),
{
    assert(lists[k].take(lists[k].len() as int) =~= lists[k]);
    assert forall|model: Seq<char>| #[trigger]
        mapping.dom().contains(model) <==> offered_before(lists, k + 1, model) by {
        offered_before_next(lists, k, model);
    }
}

/// The given lists, one after the other.
pub open spec fn gathered(lists: Seq<Seq<JsonDoc>>) -> Seq<JsonDoc>
    decreases lists.len(),
{
    if lists.len() == 0 {
        Seq::empty()
    } else {
        gathered(lists.drop_last()) + lists.last()
    }
}

/// The records that have an identifier which no earlier record has, in the
/// records' order. Records without an identifier are left out.
pub open spec fn first_seen(records: Seq<JsonDoc>) -> Seq<JsonDoc>
    decreases records.len(),
{
    if records.len() == 0 {
        Seq::empty()
    } else {
        let earlier = first_seen(records.drop_last());
        match record_id(records.last()) {
            Some(id) => if ids_in(records.drop_last()).contains(id) {
                earlier
            } else {
                earlier.push(records.last())
            },
            None => earlier,
        }
    }
}

/// A model that is offered has a first provider that offers it.
pub proof fn first_offer_exists(lists: Seq<Seq<Seq<char>>>, n: int, model: Seq<char>)
    requires
        offered_before(lists, n, model),
    ensures
        exists|i: int|
            0 <= i < n && i < lists.len() && #[trigger] lists[i].contains(model) && !offered_before(
                lists,
                i,
                model,
            ),
    decreases n,
{
    let w = choose|i: int| 0 <= i < n && i < lists.len() && #[trigger] lists[i].contains(model);
    if offered_before(lists, w, model) {
        first_offer_exists(lists, w, model);
        let f = choose|i: int|
            0 <= i < w && i < lists.len() && #[trigger] lists[i].contains(model) && !offered_before(
                lists,
                i,
                model,
            );
        assert(0 <= f < n && lists[f].contains(model) && !offered_before(lists, f, model));
    } else {
        assert(0 <= w < n && lists[w].contains(model) && !offered_before(lists, w, model));
    }
}

/// Providers and their offers have one resolution only.
pub proof fn resolution_is_unique(
    a: Map<Seq<char>, ProviderView>,
    b: Map<Seq<char>, ProviderView>,
    providers: Seq<ProviderView>,
    lists: Seq<Seq<Seq<char>>>,
)
    requires
        resolves(a, providers, lists),
        resolves(b, providers, lists),
    ensures
        a == b,
{
    let n = lists.len() as int;
    assert forall|model: Seq<char>| a.dom().contains(model) implies a[model] == b[model] by {
        first_offer_exists(lists, n, model);
        let f = choose|i: int|
            0 <= i < n && i < lists.len() && #[trigger] lists[i].contains(model) && !offered_before(
                lists,
                i,
                model,
            );
        assert(a[model] == providers[f]);
        assert(b[model] == providers[f]);
    }
    assert forall|model: Seq<char>| a.dom().contains(model) <==> b.dom().contains(model) by {
        assert(a.dom().contains(model) <==> offered_before(lists, n, model));
        assert(b.dom().contains(model) <==> offered_before(lists, n, model));
    }
    assert(a =~= b);
}

/// Where several providers offer one model, the one that comes first in the
/// configured order serves it, whatever the later ones are and offer.
pub proof fn earliest_provider_wins(
    mapping: Map<Seq<char>, ProviderView>,
    providers: Seq<ProviderView>,
    lists: Seq<Seq<Seq<char>>>,
    first: int,
    later: int,
    model: Seq<char>,
)
    requires
        resolves(mapping, providers, lists),
        0 <= first < later < lists.len(),
        lists[first].contains(model),
        lists[later].contains(model),
        forall|j: int| 0 <= j < first ==> !(#[trigger] lists[j]).contains(model),
    ensures
        mapping.dom().contains(model),
        mapping[model] == providers[first],
{
    assert(offered_before(lists, lists.len() as int, model));
}

/// A model that any provider offers is mapped, whatever became of the other
/// providers' listings: a provider that offers nothing takes nothing away.
pub proof fn offered_model_is_mapped(
    mapping: Map<Seq<char>, ProviderView>,
    providers: Seq<ProviderView>,
    lists: Seq<Seq<Seq<char>>>,
    i: int,
    model: Seq<char>,
)
    requires
        resolves(mapping, providers, lists),
        0 <= i < lists.len(),
        lists[i].contains(model),
    ensures
        mapping.dom().contains(model),
        exists|k: int| 0 <= k <= i && #[trigger] lists[k].contains(model) && mapping[model] == providers[k],
{
    let n = lists.len() as int;
    assert(offered_before(lists, i + 1, model));
    first_offer_exists(lists, i + 1, model);
    let f = choose|k: int|
        0 <= k < i + 1 && k < lists.len() && #[trigger] lists[k].contains(model) && !offered_before(
            lists,
            k,
            model,
        );
    assert(offered_before(lists, n, model));
    assert(mapping[model] == providers[f]);
}

/// A model that no provider offers is not mapped.
pub proof fn unoffered_model_is_not_mapped(
    mapping: Map<Seq<char>, ProviderView>,
    providers: Seq<ProviderView>,
    lists: Seq<Seq<Seq<char>>>,
    model: Seq<char>,
)
    requires
        resolves(mapping, providers, lists),
        forall|i: int| 0 <= i < lists.len() ==> !(#[trigger] lists[i]).contains(model),
    ensures
        !mapping.dom().contains(model),
{
}

/// An identifier is among those of some records exactly if one of the
/// records has it.
pub proof fn ids_in_contains(records: Seq<JsonDoc>, id: Seq<char>)
    ensures
        ids_in(records).contains(id) <==> exists|j: int|
            0 <= j < records.len() && record_id(#[trigger] records[j]) == Some(id),
    decreases records.len(),
{
    if records.len() > 0 {
        let shorter = records.drop_last();
        ids_in_contains(shorter, id);
        match record_id(records.last()) {
            Some(last_id) => {
                push_contains(ids_in(shorter), last_id, id);
            },
            None => {},
        }
        if ids_in(shorter).contains(id) {
            let j = choose|j: int| 0 <= j < shorter.len() && record_id(#[trigger] shorter[j]) == Some(id);
            assert(record_id(records[j]) == Some(id));
        }
        if record_id(records.last()) == Some(id) {
            assert(record_id(records[records.len() - 1]) == Some(id));
        }
        if exists|j: int| 0 <= j < records.len() && record_id(#[trigger] records[j]) == Some(id) {
            let j = choose|j: int| 0 <= j < records.len() && record_id(#[trigger] records[j]) == Some(id);
            if j < shorter.len() {
                assert(record_id(shorter[j]) == Some(id));
            }
        }
    }
}

/// The records that are kept carry each identifier of the given records, and
/// each once; none of them is without an identifier.
pub proof fn first_seen_ids(records: Seq<JsonDoc>)
    ensures
        ids_in(first_seen(records)).no_duplicates(),
        ids_in(first_seen(records)).len() == first_seen(records).len(),
        forall|id: Seq<char>| #[trigger]
            ids_in(first_seen(records)).contains(id) <==> ids_in(records).contains(id),
    decreases records.len(),
{
    if records.len() > 0 {
        let shorter = records.drop_last();
        let last = records.last();
        let kept = first_seen(shorter);
        first_seen_ids(shorter);
        match record_id(last) {
            Some(id) => {
                assert forall|other: Seq<char>| #[trigger]
                    ids_in(records).contains(other) <==> (ids_in(shorter).contains(other) || other
                        == id) by {
                    push_contains(ids_in(shorter), id, other);
                }
                if !ids_in(shorter).contains(id) {
                    assert(kept.push(last).drop_last() =~= kept);
                    assert(ids_in(kept.push(last)) == ids_in(kept).push(id));
                    assert forall|other: Seq<char>| #[trigger]
                        ids_in(kept.push(last)).contains(other) <==> (ids_in(kept).contains(other)
                            || other == id) by {
                        push_contains(ids_in(kept), id, other);
                    }
                    assert(!ids_in(kept).contains(id));
                    assert forall|i: int, j: int|
                        0 <= i < j < ids_in(kept).push(id).len() implies ids_in(kept).push(id)[i]
                        != ids_in(kept).push(id)[j] by {
                        if j == ids_in(kept).len() {
                            assert(ids_in(kept).contains(ids_in(kept)[i]));
                        }
                    }
                }
            },
            None => {},
        }
    }
}

/// Of the records with one identifier, the first is the one that is kept.
pub proof fn first_seen_keeps_first(records: Seq<JsonDoc>, i: int, id: Seq<char>)
    requires
        0 <= i < records.len(),
        record_id(records[i]) == Some(id),
        forall|j: int| 0 <= j < i ==> record_id(#[trigger] records[j]) != Some(id),
    ensures
        first_seen(records).contains(records[i]),
    decreases records.len(),
{
    let shorter = records.drop_last();
    let kept = first_seen(shorter);
    if i < shorter.len() {
        assert(shorter[i] == records[i]);
        assert forall|j: int| 0 <= j < i implies record_id(#[trigger] shorter[j]) != Some(id) by {
            assert(shorter[j] == records[j]);
        }
        first_seen_keeps_first(shorter, i, id);
        let at = choose|k: int| 0 <= k < kept.len() && kept[k] == records[i];
        if first_seen(records) != kept {
            assert(first_seen(records) == kept.push(records.last()));
            assert(kept.push(records.last())[at] == records[i]);
        }
    } else {
        ids_in_contains(shorter, id);
        if ids_in(shorter).contains(id) {
            let j = choose|j: int| 0 <= j < shorter.len() && record_id(#[trigger] shorter[j]) == Some(id);
            assert(record_id(records[j]) == Some(id));
        }
        assert(first_seen(records) == kept.push(records[i]));
        assert(kept.push(records[i])[kept.len() as int] == records[i]);
    }
}

/// The identifiers of two lists of records, one after the other, are those
/// of the first followed by those of the second.
pub proof fn ids_in_concat(a: Seq<JsonDoc>, b: Seq<JsonDoc>)
    ensures
        ids_in(a + b) == ids_in(a) + ids_in(b),
    decreases b.len(),
{
    if b.len() == 0 {
        assert(a + b =~= a);
        assert(ids_in(a) + ids_in(b) =~= ids_in(a));
    } else {
        ids_in_concat(a, b.drop_last());
        assert((a + b).drop_last() =~= a + b.drop_last());
        assert((a + b).last() == b.last());
        assert(ids_in(a + b) =~= ids_in(a) + ids_in(b));
    }
}

/// An identifier is among those of the gathered records exactly if one of
/// the lists has a record with it.
pub proof fn gathered_ids(lists: Seq<Seq<JsonDoc>>, id: Seq<char>)
    ensures
        ids_in(gathered(lists)).contains(id) <==> exists|i: int|
            0 <= i < lists.len() && ids_in(#[trigger] lists[i]).contains(id),
    decreases lists.len(),
{
    if lists.len() > 0 {
        let shorter = lists.drop_last();
        gathered_ids(shorter, id);
        ids_in_concat(gathered(shorter), lists.last());
        let left = ids_in(gathered(shorter));
        let right = ids_in(lists.last());
        if (left + right).contains(id) {
            let k = choose|k: int| 0 <= k < (left + right).len() && (left + right)[k] == id;
            if k < left.len() {
                assert(left[k] == id);
                let i = choose|i: int| 0 <= i < shorter.len() && ids_in(#[trigger] shorter[i]).contains(id);
                assert(ids_in(lists[i]).contains(id));
            } else {
                assert(right[k - left.len()] == id);
                assert(ids_in(lists[lists.len() - 1]).contains(id));
            }
        }
        if exists|i: int| 0 <= i < lists.len() && ids_in(#[trigger] lists[i]).contains(id) {
            let i = choose|i: int| 0 <= i < lists.len() && ids_in(#[trigger] lists[i]).contains(id);
            if i < shorter.len() {
                assert(ids_in(shorter[i]).contains(id));
                let k = choose|k: int| 0 <= k < left.len() && left[k] == id;
                assert((left + right)[k] == id);
            } else {
                let k = choose|k: int| 0 <= k < right.len() && right[k] == id;
                assert((left + right)[left.len() + k] == id);
            }
        }
    }
}

/// The listing route and the completions route know the same models: an
/// identifier is listed exactly if a completion request for it finds a
/// provider.
pub proof fn catalog_and_mapping_agree(
    config: Config,
    outcomes: Seq<UpstreamOutcome>,
    mapping: Map<Seq<char>, ProviderView>,
    id: Seq<char>,
)
    requires
        resolves(mapping, config.provider_views(), config.offered(outcomes)),
    ensures
        mapping.dom().contains(id) <==> ids_in(
            first_seen(gathered(config.offered_records(outcomes))),
        ).contains(id),
{
    let lists = config.offered(outcomes);
    let records = config.offered_records(outcomes);
    first_seen_ids(gathered(records));
    gathered_ids(records, id);
    assert forall|i: int| 0 <= i < lists.len() implies lists[i] == ids_in(#[trigger] records[i]) by {
        records_and_ids_agree(&config.providers@[i], outcome_at(outcomes, i));
    }
    if offered_before(lists, lists.len() as int, id) {
        let i = choose|i: int| 0 <= i < lists.len() && #[trigger] lists[i].contains(id);
        assert(ids_in(records[i]).contains(id));
    }
    if exists|i: int| 0 <= i < records.len() && ids_in(#[trigger] records[i]).contains(id) {
        let i = choose|i: int| 0 <= i < records.len() && ids_in(#[trigger] records[i]).contains(id);
        assert(lists[i].contains(id));
    }
}

impl Config {
    /// The providers, in mathematical terms.
    pub open spec fn provider_views(&self) -> Seq<ProviderView> {
        self.providers@.map_values(|p: Provider| p@)
    }

    /// For each provider the model identifiers that it offers, given the
    /// outcomes of the listing calls.
    pub open spec fn offered(&self, outcomes: Seq<UpstreamOutcome>) -> Seq<Seq<Seq<char>>> {
        Seq::new(
            self.providers@.len(),
            |i: int| self.providers@[i].model_ids(outcome_at(outcomes, i)),
        )
    }

    /// For each provider the model records that it offers, given the outcomes
    /// of the listing calls.
    pub open spec fn offered_records(&self, outcomes: Seq<UpstreamOutcome>) -> Seq<Seq<JsonDoc>> {
        Seq::new(
            self.providers@.len(),
            |i: int| self.providers@[i].raw_records(outcome_at(outcomes, i)),
        )
    }

    /// The model records of all providers, in the providers' order, each
    /// identifier once: the record that came first stays, whole. `outcomes` is
    /// read as in [`Config::get_model_mapping`].
    pub fn get_all_raw_models(
        &self,
        outcomes: &Vec<UpstreamOutcome>,
    ) -> (records: Vec<serde_json::Value>)
        ensures
            docs_of(records@) == first_seen(gathered(self.offered_records(outcomes@))),
    {
        let ghost lists = self.offered_records(outcomes@);
        let not_asked = UpstreamOutcome::NotAsked;
        let mut all: Vec<serde_json::Value> = Vec::new();
        let mut seen: Vec<String> = Vec::new();
        let mut k: usize = 0;
        assert(lists.take(0) =~= Seq::<Seq<JsonDoc>>::empty());
        assert(docs_of(all@) =~= Seq::<JsonDoc>::empty());
        while k < self.providers.len()
            invariant
                k <= self.providers.len(),
                lists == self.offered_records(outcomes@),
                not_asked == UpstreamOutcome::NotAsked,
                docs_of(all@) == first_seen(gathered(lists.take(k as int))),
                forall|id: Seq<char>| #[trigger]
                    texts(seen@).contains(id) <==> ids_in(gathered(lists.take(k as int))).contains(id),
            decreases self.providers.len() - k,
        {
            let provider = &self.providers[k];
            let outcome = if k < outcomes.len() {
                &outcomes[k]
            } else {
                &not_asked
            };
            let offered = self.fetch_raw_models_from_provider(provider, outcome);
            let ghost earlier = gathered(lists.take(k as int));
            assert(docs_of(offered@) == lists[k as int]);
            assert(earlier + lists[k as int].take(0) =~= earlier);
            let mut t: usize = 0;
            while t < offered.len()
                invariant
                    t <= offered.len(),
                    k < lists.len(),
                    docs_of(offered@) == lists[k as int],
                    docs_of(all@) == first_seen(earlier + lists[k as int].take(t as int)),
                    forall|id: Seq<char>| #[trigger]
                        texts(seen@).contains(id) <==> ids_in(
                            earlier + lists[k as int].take(t as int),
                        ).contains(id),
                decreases offered.len() - t,
            {
                let ghost done = earlier + lists[k as int].take(t as int);
                let ghost next = earlier + lists[k as int].take(t + 1);
                let ghost seen_before = texts(seen@);
                let ghost all_before = docs_of(all@);
                proof {
                    assert(next.drop_last() =~= done);
                    assert(next.last() == doc_of(offered@[t as int]));
                }
                match id_of(&offered[t]) {
                    Some(id) => {
                        proof {
                            assert forall|other: Seq<char>| #[trigger]
                                ids_in(next).contains(other) <==> (ids_in(done).contains(other)
                                    || other == id@) by {
                                push_contains(ids_in(done), id@, other);
                            }
                        }
                        if !contains_text(&seen, id.as_str()) {
                            all.push(json_copy(&offered[t]));
                            seen.push(id);
                            proof {
                                assert(docs_of(all@) =~= all_before.push(doc_of(offered@[t as int])));
                                assert(texts(seen@) =~= seen_before.push(id@));
                                assert forall|other: Seq<char>| #[trigger]
                                    texts(seen@).contains(other) <==> (seen_before.contains(other)
                                        || other == id@) by {
                                    push_contains(seen_before, id@, other);
                                }
                            }
                        }
                    },
                    None => {},
                }
                t += 1;
            }
            proof {
                assert(lists[k as int].take(offered.len() as int) =~= lists[k as int]);
                assert(lists.take(k + 1).drop_last() =~= lists.take(k as int));
                assert(lists.take(k + 1).last() == lists[k as int]);
            }
            k += 1;
        }
        assert(lists.take(self.providers.len() as int) =~= lists);
        all
    }

    /// Resolves every model to the provider that serves it. `outcomes[i]` is
    /// how the listing call of provider `i` ended; it is not looked at for a
    /// provider with configured models, and a provider without an outcome
    /// counts as not asked. A provider whose listing failed offers nothing and
    /// does not disturb the others.
    pub fn get_model_mapping(&self, outcomes: &Vec<UpstreamOutcome>) -> (mapping: ModelMapping)
        ensures
            resolves(mapping@, self.provider_views(), self.offered(outcomes@)),
    {
        let ghost providers = self.provider_views();
        let ghost lists = self.offered(outcomes@);
        let not_asked = UpstreamOutcome::NotAsked;
        let mut mapping = ModelMapping::new();
        let mut k: usize = 0;
        while k < self.providers.len()
            invariant
                k <= self.providers.len(),
                providers == self.provider_views(),
                lists == self.offered(outcomes@),
                not_asked == UpstreamOutcome::NotAsked,
                resolves_first(mapping@, providers, lists, k as int),
            decreases self.providers.len() - k,
        {
            let provider = &self.providers[k];
            let outcome = if k < outcomes.len() {
                &outcomes[k]
            } else {
                &not_asked
            };
            let models = self.fetch_models_from_provider(provider, outcome);
            assert(texts(models@) == lists[k as int]);
            proof {
                resolution_begins(mapping@, providers, lists, k as int);
            }
            let mut t: usize = 0;
            while t < models.len()
                invariant
                    t <= models.len(),
                    k < self.providers.len(),
                    provider == self.providers[k as int],
                    providers == self.provider_views(),
                    lists.len() == self.providers.len(),
                    texts(models@) == lists[k as int],
                    resolves_partly(mapping@, providers, lists, k as int, t as int),
                decreases models.len() - t,
            {
                let ghost before = mapping@;
                mapping.insert_if_absent(models[t].clone(), provider.clone());
                proof {
                    assert(lists[k as int][t as int] == models[t as int]@);
                    assert(providers[k as int] == provider@);
                    resolution_takes_model(before, mapping@, providers, lists, k as int, t as int);
                }
                t += 1;
            }
            proof {
                resolution_ends(mapping@, providers, lists, k as int);
            }
            k += 1;
        }
        mapping
    }
}

} // verus!
