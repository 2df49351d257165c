//! The identifier index: for each record identifier, the places where
//! records that carry it stand.
//!
//! The index is filled by one pass over the records. A record without an
//! identifier (a single dot) leaves no trace in it.

use crate::codec::{decode_entries, decoded_entries, encode_entries, encoded_entries, EntriesModel};
use crate::variant::{identified, lemma_identified_or_not, missing_id, unidentified, Variant};
use vstd::hash_map::StringHashMap;
use vstd::prelude::*;
use vstd::string::*;

verus! {

/// One identifier with the places of its records, in file order.
#[derive(Debug, Clone, PartialEq)]
pub struct IdEntry {
    pub id: String,
    pub locations: Vec<(String, u64)>,
}

/// The identifier index. `entries` holds the identifiers in the order in
/// which they were first seen; `slots` finds an identifier's entry.
pub struct IdIndex {
    pub entries: Vec<IdEntry>,
    pub slots: StringHashMap<usize>,
}

/// The test that picks the records with a given identifier.
pub open spec fn carries(id: Seq<char>) -> spec_fn(Variant) -> bool {
    |v: Variant| v.id@ == id
}

/// The place of a record: its chromosome and position.
pub open spec fn place() -> spec_fn(Variant) -> (Seq<char>, u64) {
    |v: Variant| (v.chromosome@, v.position)
}

/// The places of the records that carry `id`, in the order of the records.
pub open spec fn locations_of(records: Seq<Variant>, id: Seq<char>) -> Seq<(Seq<char>, u64)> {
    records.filter(carries(id)).map_values(place())
}

/// Adding a record to the end adds its place to its own identifier's
/// places and to no other's.
pub proof fn lemma_locations_of_push(records: Seq<Variant>, v: Variant, id: Seq<char>)
    ensures
        locations_of(records.push(v), id) == if v.id@ == id {
            locations_of(records, id).push((v.chromosome@, v.position))
        } else {
            locations_of(records, id)
        },
{
    Seq::lemma_filter_push(records, v, carries(id));
    if v.id@ == id {
        assert(records.filter(carries(id)).push(v).map_values(place())
            =~= records.filter(carries(id)).map_values(place()).push((v.chromosome@, v.position)));
    }
}

/// How many places the entries hold in all.
pub open spec fn places_total(entries: Seq<IdEntry>) -> int
    decreases entries.len(),
{
    if entries.len() == 0 {
        0
    } else {
        places_total(entries.drop_last()) + entries.last().locations@.len()
    }
}

/// One more entry adds its places.
pub proof fn lemma_places_push(entries: Seq<IdEntry>, entry: IdEntry)
    ensures
        places_total(entries.push(entry)) == places_total(entries) + entry.locations@.len(),
{
    assert(entries.push(entry).drop_last() =~= entries);
}

/// A changed entry changes the total by the difference of its places.
pub proof fn lemma_places_update(entries: Seq<IdEntry>, i: int, entry: IdEntry)
    requires
        0 <= i < entries.len(),
    ensures
        places_total(entries.update(i, entry)) == places_total(entries)
            - entries[i].locations@.len() + entry.locations@.len(),
    decreases entries.len(),
{
    if i == entries.len() - 1 {
        assert(entries.update(i, entry).drop_last() =~= entries.drop_last());
    } else {
        assert(entries.update(i, entry).drop_last() =~= entries.drop_last().update(i, entry));
        lemma_places_update(entries.drop_last(), i, entry);
    }
}

impl IdIndex {
    /// Every entry has an identifier and at least one place, and `slots`
    /// names exactly the entries, each under its identifier.
    pub open spec fn wf(&self) -> bool {
        &&& forall|i: int|
            0 <= i < self.entries@.len() ==> {
                &&& (#[trigger] self.entries@[i]).id@ != missing_id()
                &&& self.entries@[i].locations@.len() > 0
                &&& self.slots@.contains_key(self.entries@[i].id@)
                &&& self.slots@[self.entries@[i].id@] == i
            }
        &&& forall|k: Seq<char>| #[trigger]
            self.slots@.contains_key(k) ==> {
                &&& self.slots@[k] < self.entries@.len()
                &&& self.entries@[self.slots@[k] as int].id@ == k
            }
    }

    /// The identifiers that the index holds.
    pub open spec fn ids(&self) -> Set<Seq<char>> {
        self.slots@.dom()
    }

    /// The places recorded for `id`; none if the index does not hold it.
    pub open spec fn lookup(&self, id: Seq<char>) -> Seq<(Seq<char>, u64)> {
        if self.slots@.contains_key(id) {
            self.entries@[self.slots@[id] as int].locations.deep_view()
        } else {
            Seq::empty()
        }
    }

    /// The index describes `records`: it holds an identifier's places as
    /// the records give them, and nothing for the missing identifier.
    pub open spec fn describes(&self, records: Seq<Variant>) -> bool {
        forall|id: Seq<char>|
            #[trigger] self.lookup(id) == if id == missing_id() {
                Seq::empty()
            } else {
                locations_of(records, id)
            }
    }

    /// How many places the index holds under all its identifiers together.
    pub open spec fn total_places(&self) -> int {
        places_total(self.entries@)
    }

    /// The index holds one place for each record of `records` that has an
    /// identifier.
    pub open spec fn counts(&self, records: Seq<Variant>) -> bool {
        self.total_places() == records.filter(identified()).len()
    }

    /// Where the index holds one place for each record with an identifier,
    /// every record is counted once: among the index's places or among the
    /// records without an identifier.
    pub proof fn lemma_every_record_is_counted_once(&self, records: Seq<Variant>)
        requires
            self.counts(records),
        ensures
            self.total_places() + records.filter(unidentified()).len() == records.len(),
    {
        lemma_identified_or_not(records);
    }

    /// An index that holds nothing.
    pub fn new() -> (index: IdIndex)
        ensures
            index.wf(),
            index.entries@.len() == 0,
            index.total_places() == 0,
            forall|id: Seq<char>| #[trigger] index.lookup(id) == Seq::<(Seq<char>, u64)>::empty(),
    {
        IdIndex { entries: Vec::new(), slots: StringHashMap::new() }
    }

    /// How many identifiers the index holds.
    pub fn len(&self) -> (n: usize)
        ensures
            n == self.entries@.len(),
    {
        self.entries.len()
    }

    /// Records that a record with identifier `id` stands at `position` on
    /// `chromosome`. The missing identifier is not recorded.
    pub fn insert(&mut self, id: &str, chromosome: &str, position: u64)
        requires
            old(self).wf(),
        ensures
            final(self).wf(),
            forall|other: Seq<char>|
                #[trigger] final(self).lookup(other) == if other == id@ && id@ != missing_id() {
                    old(self).lookup(other).push((chromosome@, position))
                } else {
                    old(self).lookup(other)
                },
            final(self).ids() == if id@ == missing_id() {
                old(self).ids()
            } else {
                old(self).ids().insert(id@)
            },
            final(self).total_places() == old(self).total_places() + if id@ == missing_id() {
                0int
            } else {
                1int
            },
    {
        let n: usize = id.unicode_len();
        if n == 1 && id.get_char(0) == '.' {
            assert(id@ =~= missing_id());
            return;
        }
        assert(id@ != missing_id()) by {
            if id@ == missing_id() {
                assert(id@.len() == 1 && id@[0] == '.');
            }
        }
        let location = (String::from_str(chromosome), position);
        let ghost before = *self;
        let found: Option<usize> = match self.slots.get(id) {
            Some(slot) => Some(*slot),
            None => None,
        };
        match found {
            Some(slot) => {
                self.entries[slot].locations.push(location);
                proof {
                    assert(self.entries@ =~= before.entries@.update(
                        slot as int,
                        self.entries@[slot as int],
                    ));
                    lemma_places_update(before.entries@, slot as int, self.entries@[slot as int]);
                }
                assert(self.entries@[slot as int].locations.deep_view()
                    =~= before.entries@[slot as int].locations.deep_view().push(
                    (chromosome@, position),
                ));
                assert(self.ids() =~= before.ids().insert(id@));
                assert(final(self).wf()) by {
                    assert forall|i: int| 0 <= i < self.entries@.len() implies {
                        &&& (#[trigger] self.entries@[i]).id@ != missing_id()
                        &&& self.entries@[i].locations@.len() > 0
                        &&& self.slots@.contains_key(self.entries@[i].id@)
                        &&& self.slots@[self.entries@[i].id@] == i
                    } by {
                        assert(before.entries@[i].id@ == self.entries@[i].id@);
                    }
                }
            },
            None => {
                let slot: usize = self.entries.len();
                let mut locations: Vec<(String, u64)> = Vec::new();
                locations.push(location);
                assert(locations.deep_view() =~= Seq::<(Seq<char>, u64)>::empty().push(
                    (chromosome@, position),
                ));
                self.entries.push(IdEntry { id: String::from_str(id), locations });
                proof {
                    lemma_places_push(before.entries@, self.entries@[slot as int]);
                }
                self.slots.insert(String::from_str(id), slot);
                assert(self.ids() =~= before.ids().insert(id@));
                assert(final(self).wf()) by {
                    assert forall|i: int| 0 <= i < self.entries@.len() implies {
                        &&& (#[trigger] self.entries@[i]).id@ != missing_id()
                        &&& self.entries@[i].locations@.len() > 0
                        &&& self.slots@.contains_key(self.entries@[i].id@)
                        &&& self.slots@[self.entries@[i].id@] == i
                    } by {
                        if i < slot {
                            assert(before.entries@[i] == self.entries@[i]);
                        }
                    }
                }
            },
        }
    }

    /// Adds one record to the index.
    pub fn record(&mut self, variant: &Variant)
        requires
            old(self).wf(),
        ensures
            final(self).wf(),
            forall|records: Seq<Variant>|
                old(self).describes(records) ==> #[trigger] final(self).describes(
                    records.push(*variant),
                ),
            forall|records: Seq<Variant>|
                old(self).counts(records) ==> #[trigger] final(self).counts(records.push(*variant)),
    {
        let ghost before = *self;
        self.insert(variant.id.as_str(), variant.chromosome.as_str(), variant.position);
        proof {
            assert forall|records: Seq<Variant>| before.counts(records) implies #[trigger] self.counts(
                records.push(*variant),
            ) by {
                Seq::lemma_filter_push(records, *variant, identified());
            }
            assert forall|records: Seq<Variant>| before.describes(records) implies #[trigger] self.describes(
                records.push(*variant),
            ) by {
                assert forall|id: Seq<char>|
                    #[trigger] self.lookup(id) == if id == missing_id() {
                        Seq::empty()
                    } else {
                        locations_of(records.push(*variant), id)
                    } by {
                    lemma_locations_of_push(records, *variant, id);
                    assert(before.lookup(id) == if id == missing_id() {
                        Seq::empty()
                    } else {
                        locations_of(records, id)
                    });
                }
            }
        }
    }

    /// Builds the index of `records` in one pass.
    pub fn build(records: &Vec<Variant>) -> (index: IdIndex)
        ensures
            index.wf(),
            index.describes(records@),
            index.counts(records@),
    {
        let mut index = IdIndex::new();
        let mut i: usize = 0;
        proof {
            assert(records@.take(0) =~= Seq::<Variant>::empty());
            assert forall|id: Seq<char>|
                locations_of(Seq::<Variant>::empty(), id) =~= Seq::<(Seq<char>, u64)>::empty() by {
                reveal(Seq::filter);
            }
            assert(Seq::<Variant>::empty().filter(identified()).len() == 0) by {
                reveal(Seq::filter);
            }
        }
        while i < records.len()
            invariant
                i <= records.len(),
                index.wf(),
                index.describes(records@.take(i as int)),
                index.counts(records@.take(i as int)),
            decreases records.len() - i,
        {
            index.record(&records[i]);
            assert(records@.take(i + 1) =~= records@.take(i as int).push(records@[i as int]));
            i += 1;
        }
        assert(records@.take(records@.len() as int) =~= records@);
        index
    }

    /// The places recorded for `id`, in file order; empty if the index
    /// does not hold it.
    pub fn locations(&self, id: &str) -> (found: Vec<(String, u64)>)
        requires
            self.wf(),
        ensures
            found.deep_view() == self.lookup(id@),
    {
        let mut found: Vec<(String, u64)> = Vec::new();
        match self.slots.get(id) {
            Some(slot) => {
                let held = &self.entries[*slot].locations;
                let mut i: usize = 0;
                while i < held.len()
                    invariant
                        i <= held.len(),
                        found@.len() == i,
                        found.deep_view() == held.deep_view().take(i as int),
                    decreases held.len() - i,
                {
                    let ghost prior = found;
                    found.push((held[i].0.clone(), held[i].1));
                    assert forall|j: int| 0 <= j < found@.len() implies found.deep_view()[j]
                        == held.deep_view().take(i + 1)[j] by {
                        if j < i {
                            assert(prior.deep_view()[j] == prior@[j].deep_view());
                            assert(prior.deep_view()[j] == held.deep_view().take(i as int)[j]);
                        }
                    }
                    assert(found.deep_view() =~= held.deep_view().take(i + 1));
                    i += 1;
                }
                assert(held.deep_view().take(held@.len() as int) =~= held.deep_view());
            },
            None => {
                assert(found.deep_view() =~= Seq::<(Seq<char>, u64)>::empty());
            },
        }
        found
    }
}

/// Why an identifier index could not be read from bytes.
#[derive(Debug, Clone, Copy, PartialEq, Eq, Structural)]
pub enum IndexFileError {
    /// The bytes are not an encoded sequence of entries.
    Decode,
    /// The bytes hold entries that no index holds: a missing identifier,
    /// an identifier without a place, or an identifier twice.
    Invalid,
}

/// The entries can be those of an index: every identifier is present and
/// has a place, and none stands twice.
pub open spec fn valid_entries(entries: EntriesModel) -> bool {
    &&& forall|i: int|
        0 <= i < entries.len() ==> (#[trigger] entries[i]).0 != missing_id() && entries[i].1.len()
            > 0
    &&& forall|i: int, j: int|
        0 <= i < j < entries.len() ==> (#[trigger] entries[i]).0 != (#[trigger] entries[j]).0
}

/// The places that the entries give for `id`.
pub open spec fn places_in(entries: EntriesModel, id: Seq<char>) -> Seq<(Seq<char>, u64)> {
    if exists|i: int| 0 <= i < entries.len() && (#[trigger] entries[i]).0 == id {
        entries[choose|i: int| 0 <= i < entries.len() && (#[trigger] entries[i]).0 == id].1
    } else {
        Seq::empty()
    }
}

fn copy_locations(held: &Vec<(String, u64)>) -> (copy: Vec<(String, u64)>)
    ensures
        copy@ == held@,
{
    let mut copy: Vec<(String, u64)> = Vec::new();
    let mut i: usize = 0;
    while i < held.len()
        invariant
            i <= held.len(),
            copy@ == held@.take(i as int),
        decreases held.len() - i,
    {
        copy.push((held[i].0.clone(), held[i].1));
        assert(copy@ =~= held@.take(i + 1));
        i += 1;
    }
    assert(held@.take(held@.len() as int) =~= held@);
    copy
}

impl IdIndex {
    /// The entries of the index as plain values, in the order in which
    /// the identifiers were first seen.
    pub open spec fn entries_model(&self) -> EntriesModel {
        Seq::new(
            self.entries@.len(),
            |i: int| (self.entries@[i].id@, self.entries@[i].locations.deep_view()),
        )
    }

    /// The entries of a well-formed index are valid, and what the index
    /// holds for an identifier is what its entries give for it.
    pub proof fn lemma_entries_tell_all(&self)
        requires
            self.wf(),
        ensures
            valid_entries(self.entries_model()),
            forall|id: Seq<char>| #[trigger] self.lookup(id) == places_in(self.entries_model(), id),
    {
        let model = self.entries_model();
        assert forall|i: int, j: int| 0 <= i < j < model.len() implies (#[trigger] model[i]).0 != (
        #[trigger] model[j]).0 by {
            assert(self.slots@[self.entries@[i].id@] == i);
            assert(self.slots@[self.entries@[j].id@] == j);
        }
        assert forall|id: Seq<char>| #[trigger] self.lookup(id) == places_in(model, id) by {
            if self.slots@.contains_key(id) {
                let slot = self.slots@[id] as int;
                assert(model[slot].0 == id);
                let i = choose|i: int| 0 <= i < model.len() && (#[trigger] model[i]).0 == id;
                assert(self.slots@[self.entries@[i].id@] == i);
            } else {
                if exists|i: int| 0 <= i < model.len() && (#[trigger] model[i]).0 == id {
                    let i = choose|i: int| 0 <= i < model.len() && (#[trigger] model[i]).0 == id;
                    assert(self.slots@.contains_key(self.entries@[i].id@));
                }
            }
        }
    }

    /// Lists the entries of the index.
    pub fn to_entries(&self) -> (listed: Vec<(String, Vec<(String, u64)>)>)
        ensures
            listed.deep_view() == self.entries_model(),
    {
        let mut listed: Vec<(String, Vec<(String, u64)>)> = Vec::new();
        let mut i: usize = 0;
        while i < self.entries.len()
            invariant
                i <= self.entries.len(),
                listed@.len() == i,
                forall|j: int|
                    0 <= j < i ==> (#[trigger] listed@[j]).0 == self.entries@[j].id && listed@[j].1@
                        == self.entries@[j].locations@,
            decreases self.entries.len() - i,
        {
            listed.push((self.entries[i].id.clone(), copy_locations(&self.entries[i].locations)));
            i += 1;
        }
        assert(listed.deep_view() =~= self.entries_model()) by {
            assert forall|j: int| 0 <= j < listed@.len() implies listed.deep_view()[j]
                == self.entries_model()[j] by {
                assert(listed@[j].1.deep_view() =~= self.entries@[j].locations.deep_view());
            }
        }
        listed
    }

    /// Makes an index of listed entries, if they can be those of an index.
    pub fn from_entries(listed: Vec<(String, Vec<(String, u64)>)>) -> (made: Option<IdIndex>)
        ensures
            made is Some == valid_entries(listed.deep_view()),
            made is Some ==> made.unwrap().wf() && made.unwrap().entries_model()
                == listed.deep_view(),
    {
        let ghost all = listed@;
        let ghost model = listed.deep_view();
        let mut index = IdIndex::new();
        assert(index.entries_model() =~= model.take(0));
        for pair in it: listed.into_iter()
            invariant
                it.seq() == all,
                model == listed.deep_view(),
                model.len() == all.len(),
                forall|j: int| 0 <= j < all.len() ==> #[trigger] model[j] == all[j].deep_view(),
                index.wf(),
                index.entries@.len() == it.index(),
                index.entries_model() == model.take(it.index() as int),
                valid_entries(model.take(it.index() as int)),
        {
            let ghost i = it.index() as int;
            let ghost before = index;
            assert(pair == all[i]);
            assert(model[i] == (pair.0@, pair.1.deep_view()));
            let id = pair.0;
            let locations = pair.1;
            let n: usize = id.as_str().unicode_len();
            if n == 1 && id.as_str().get_char(0) == '.' {
                assert(id@ =~= missing_id());
                assert(model[i].0 == missing_id());
                return None;
            }
            if locations.len() == 0 || index.slots.contains_key(id.as_str()) {
                proof {
                    if locations@.len() > 0 {
                        let slot = index.slots@[id@] as int;
                        assert(model.take(i)[slot].0 == id@);
                        assert(model[slot].0 == model[i].0);
                    } else {
                        assert(model[i].1.len() == 0);
                    }
                }
                return None;
            }
            let slot: usize = index.entries.len();
            index.slots.insert(id.clone(), slot);
            index.entries.push(IdEntry { id, locations });
            proof {
                assert(id@ != missing_id()) by {
                    if id@ == missing_id() {
                        assert(id@.len() == 1 && id@[0] == '.');
                    }
                }
                assert(index.entries_model() =~= model.take(i + 1)) by {
                    assert forall|j: int| 0 <= j < i + 1 implies index.entries_model()[j]
                        == model.take(i + 1)[j] by {
                        if j < i {
                            assert(before.entries_model()[j] == model.take(i)[j]);
                        }
                    }
                }
                assert forall|j: int| 0 <= j < index.entries@.len() implies {
                    &&& (#[trigger] index.entries@[j]).id@ != missing_id()
                    &&& index.entries@[j].locations@.len() > 0
                    &&& index.slots@.contains_key(index.entries@[j].id@)
                    &&& index.slots@[index.entries@[j].id@] == j
                } by {
                    if j < i {
                        assert(before.entries@[j] == index.entries@[j]);
                    }
                }
                assert forall|a: int, b: int| 0 <= a < b < i + 1 implies (#[trigger] model.take(
                    i + 1,
                )[a]).0 != (#[trigger] model.take(i + 1)[b]).0 by {
                    if b < i {
                        assert(model.take(i)[a].0 != model.take(i)[b].0);
                    } else {
                        assert(before.entries_model()[a].0 == before.entries@[a].id@);
                        assert(before.slots@.contains_key(before.entries@[a].id@));
                    }
                }
                assert forall|a: int| 0 <= a < i + 1 implies (#[trigger] model.take(i + 1)[a]).0
                    != missing_id() && model.take(i + 1)[a].1.len() > 0 by {
                    if a < i {
                        assert(model.take(i)[a].0 != missing_id());
                    }
                }
            }
        }
        assert(model.take(model.len() as int) =~= model);
        Some(index)
    }

    /// Writes the index to bytes.
    pub fn encode(&self) -> (bytes: Vec<u8>)
        ensures
            bytes@ == encoded_entries(self.entries_model()),
    {
        let listed = self.to_entries();
        match encode_entries(&listed) {
            Ok(bytes) => bytes,
            Err(_) => Vec::new(),
        }
    }

    /// Reads an index from bytes. Bytes that `encode` wrote for a
    /// well-formed index give an index that holds the same places for
    /// every identifier.
    pub fn decode(bytes: &[u8]) -> (outcome: Result<IdIndex, IndexFileError>)
        ensures
            match outcome {
                Ok(index) => index.wf() && decoded_entries(bytes@) == Some(index.entries_model()),
                Err(e) => match decoded_entries(bytes@) {
                    Some(entries) => e == IndexFileError::Invalid && !valid_entries(entries),
                    None => e == IndexFileError::Decode,
                },
            },
            forall|written: IdIndex|
                written.wf() && #[trigger] encoded_entries(written.entries_model()) == bytes@
                    ==> outcome is Ok && forall|id: Seq<char>| #[trigger]
                    outcome.unwrap().lookup(id) == written.lookup(id),
    {
        match decode_entries(bytes) {
            Err(_) => {
                assert forall|written: IdIndex|
                    written.wf() && #[trigger] encoded_entries(written.entries_model()) == bytes@ implies false by {}
                Err(IndexFileError::Decode)
            },
            Ok(listed) => {
                let ghost model = listed.deep_view();
                match IdIndex::from_entries(listed) {
                    Some(index) => {
                        proof {
                            index.lemma_entries_tell_all();
                            assert forall|written: IdIndex|
                                written.wf() && #[trigger] encoded_entries(written.entries_model())
                                    == bytes@ implies forall|id: Seq<char>| #[trigger]
                                index.lookup(id) == written.lookup(id) by {
                                written.lemma_entries_tell_all();
                            }
                        }
                        Ok(index)
                    },
                    None => {
                        proof {
                            assert forall|written: IdIndex|
                                written.wf() && #[trigger] encoded_entries(written.entries_model())
                                    == bytes@ implies false by {
                                written.lemma_entries_tell_all();
                            }
                        }
                        Err(IndexFileError::Invalid)
                    },
                }
            },
        }
    }
}

} // verus!
