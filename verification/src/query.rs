//! The query layer: position, region and identifier queries.
//!
//! The layer does not read the file. A caller seeks in the file with the
//! positional index and hands over the records that the seek brought, the
//! candidates; the layer resolves the chromosome, checks the window and
//! keeps the candidates that truly overlap it, in the order given.

use crate::chromosome::{resolve, resolve_chromosome};
use crate::coordinate::{check_window, is_coordinate, is_window};
use crate::id_index::{carries, locations_of, place, IdIndex};
use crate::metadata::{
    contig_names, copy_names, describe_reference_genome, extract_metadata,
    extract_reference_genome, list_contig_names, reference_of, reference_sentence, HeaderFacts,
    VcfMetadata,
};
use crate::variant::{missing_id, on_chromosome, Variant};
use vstd::prelude::*;

verus! {

/// The test that picks the records on `chromosome` whose interval meets
/// `[start, end]`.
pub open spec fn within(chromosome: Seq<char>, start: u64, end: u64) -> spec_fn(Variant) -> bool {
    |v: Variant| v.overlaps(chromosome, start, end)
}

/// The candidates that a query for `[start, end]` on `chromosome` returns:
/// those that overlap the window, in the order given; none if the window
/// cannot be asked for.
pub open spec fn selected(candidates: Seq<Variant>, chromosome: Seq<char>, start: u64, end: u64) -> Seq<
    Variant,
> {
    if is_window(start, end) {
        candidates.filter(within(chromosome, start, end))
    } else {
        Seq::empty()
    }
}

/// What the first `n` seeks of an identifier query return together: for
/// each place, the candidates of its seek that overlap it, place after
/// place. A place without a seek, or a seek without a place, adds nothing.
pub open spec fn gathered(
    places: Seq<(Seq<char>, u64)>,
    fetched: Seq<Vec<Variant>>,
    n: nat,
) -> Seq<Variant>
    decreases n,
{
    if n == 0 {
        Seq::empty()
    } else if n > places.len() || n > fetched.len() {
        gathered(places, fetched, (n - 1) as nat)
    } else {
        gathered(places, fetched, (n - 1) as nat) + selected(
            fetched[n - 1]@,
            places[n - 1].0,
            places[n - 1].1,
            places[n - 1].1,
        )
    }
}

/// Keeps the candidates that overlap `[start, end]` on `chromosome`.
pub fn select_overlapping(candidates: Vec<Variant>, chromosome: &String, start: u64, end: u64) -> (kept:
    Vec<Variant>)
    ensures
        kept@ == selected(candidates@, chromosome@, start, end),
{
    let mut kept: Vec<Variant> = Vec::new();
    if !check_window(start, end) {
        return kept;
    }
    let ghost all = candidates@;
    let ghost test = within(chromosome@, start, end);
    assert(all.take(0).filter(test) =~= Seq::<Variant>::empty()) by {
        reveal(Seq::filter);
    }
    for v in it: candidates.into_iter()
        invariant
            it.seq() == all,
            test == within(chromosome@, start, end),
            kept@ == all.take(it.index() as int).filter(test),
    {
        proof {
            let i = it.index() as int;
            assert(all.take(i + 1) =~= all.take(i).push(v));
            Seq::lemma_filter_push(all.take(i), v, test);
        }
        if v.covers(chromosome, start, end) {
            kept.push(v);
        }
    }
    assert(all.take(all.len() as int) =~= all);
    kept
}

/// The query layer of one file: its header, the chromosome names of its
/// positional index and its identifier index.
pub struct VcfIndex {
    pub header: HeaderFacts,
    pub index_names: Vec<String>,
    pub id_index: IdIndex,
}

impl VcfIndex {
    /// The identifier index is well formed.
    pub open spec fn wf(&self) -> bool {
        self.id_index.wf()
    }

    /// The chromosome names that the file uses: those of the header's
    /// contig lines or, if it has none, those of the positional index.
    pub open spec fn available(&self) -> Seq<String> {
        if self.header.contigs@.len() > 0 {
            contig_names(self.header.contigs@)
        } else {
            self.index_names@
        }
    }

    /// Puts a query layer together from its parts.
    pub fn new(header: HeaderFacts, index_names: Vec<String>, id_index: IdIndex) -> (index: VcfIndex)
        requires
            id_index.wf(),
        ensures
            index.wf(),
            index.header == header,
            index.index_names == index_names,
            index.id_index == id_index,
    {
        VcfIndex { header, index_names, id_index }
    }

    /// Lists the chromosome names that the file uses.
    pub fn get_available_chromosomes(&self) -> (names: Vec<String>)
        ensures
            names@ == self.available(),
    {
        if self.header.contigs.len() > 0 {
            list_contig_names(&self.header.contigs)
        } else {
            copy_names(&self.index_names)
        }
    }

    /// Finds the name under which the file knows a requested chromosome.
    pub fn find_matching_chromosome(&self, chromosome: &str) -> (matched: Option<String>)
        ensures
            matched is Some == resolve(self.available(), chromosome@) is Some,
            matched is Some ==> Some(matched.unwrap()@) == resolve(self.available(), chromosome@),
    {
        let names = self.get_available_chromosomes();
        resolve_chromosome(&names, chromosome)
    }

    /// Answers a region query from the candidates of its seek. An unknown
    /// chromosome gives no records and no matched name; a known one gives
    /// its name in the file's spelling and the candidates that overlap the
    /// window, which may be none.
    pub fn query_by_region(
        &self,
        candidates: Vec<Variant>,
        chromosome: &str,
        start: u64,
        end: u64,
    ) -> (answer: (Vec<Variant>, Option<String>))
        ensures
            answer.1 is Some == resolve(self.available(), chromosome@) is Some,
            answer.1 is Some ==> Some(answer.1.unwrap()@) == resolve(
                self.available(),
                chromosome@,
            ),
            answer.1 is Some ==> answer.0@ == selected(
                candidates@,
                answer.1.unwrap()@,
                start,
                end,
            ),
            answer.1 is None ==> answer.0@.len() == 0,
    {
        match self.find_matching_chromosome(chromosome) {
            Some(name) => {
                let kept = select_overlapping(candidates, &name, start, end);
                (kept, Some(name))
            },
            None => (Vec::new(), None),
        }
    }

    /// Answers a position query: the region query for the window that
    /// holds this one position.
    pub fn query_by_position(&self, candidates: Vec<Variant>, chromosome: &str, position: u64) -> (answer:
        (Vec<Variant>, Option<String>))
        ensures
            answer.1 is Some == resolve(self.available(), chromosome@) is Some,
            answer.1 is Some ==> Some(answer.1.unwrap()@) == resolve(
                self.available(),
                chromosome@,
            ),
            answer.1 is Some ==> answer.0@ == selected(
                candidates@,
                answer.1.unwrap()@,
                position,
                position,
            ),
            answer.1 is None ==> answer.0@.len() == 0,
    {
        self.query_by_region(candidates, chromosome, position, position)
    }

    /// The places that the identifier index holds for `id`: one seek is
    /// due for each.
    pub fn locate_id(&self, id: &str) -> (places: Vec<(String, u64)>)
        requires
            self.wf(),
        ensures
            places.deep_view() == self.id_index.lookup(id@),
    {
        self.id_index.locations(id)
    }

    /// Answers an identifier query from the candidates of its seeks:
    /// `fetched` holds, place for place, what the seek at each place of
    /// `locate_id` brought.
    pub fn query_by_id(&self, id: &str, fetched: Vec<Vec<Variant>>) -> (found: Vec<Variant>)
        requires
            self.wf(),
        ensures
            found@ == gathered(self.id_index.lookup(id@), fetched@, fetched@.len()),
    {
        let places = self.id_index.locations(id);
        let batches: usize = fetched.len();
        let ghost all = fetched@;
        let ghost looked = self.id_index.lookup(id@);
        let mut found: Vec<Variant> = Vec::new();
        let mut j: usize = 0;
        for batch in it: fetched.into_iter()
            invariant
                it.seq() == all,
                all.len() == batches,
                j == it.index(),
                places.deep_view() == looked,
                found@ == gathered(looked, all, j as nat),
        {
            assert(j < all.len() && batch == all[j as int]);
            if j < places.len() {
                assert(places.deep_view()[j as int] == places@[j as int].deep_view());
                let mut kept = select_overlapping(batch, &places[j].0, places[j].1, places[j].1);
                found.append(&mut kept);
            }
            j += 1;
        }
        found
    }

    /// The header's content as callers are shown it.
    pub fn get_metadata(&self) -> (metadata: VcfMetadata)
        ensures
            metadata.file_format == self.header.file_format,
            (metadata.reference_genome.build@, metadata.reference_genome.source) == reference_of(
                self.header,
            ),
            metadata.contigs@.len() == self.header.contigs@.len(),
            forall|i: int|
                0 <= i < self.header.contigs@.len() ==> (#[trigger] metadata.contigs@[i]).id
                    == self.header.contigs@[i].id,
            metadata.samples@ == self.header.samples@,
    {
        extract_metadata(&self.header)
    }

    /// The sentence that names the file's reference genome and its origin.
    pub fn get_reference_genome(&self) -> (sentence: String)
        ensures
            sentence@ == reference_sentence(
                reference_of(self.header).0,
                reference_of(self.header).1,
            ),
    {
        let info = extract_reference_genome(&self.header);
        describe_reference_genome(&info)
    }
}

/// The test that picks the records that stand at one place.
pub open spec fn at_place(chromosome: Seq<char>, position: u64) -> spec_fn(Variant) -> bool {
    |v: Variant| v.chromosome@ == chromosome && v.position == position
}

/// Two tests that agree on every element keep the same elements.
proof fn lemma_filter_agree(s: Seq<Variant>, p: spec_fn(Variant) -> bool, q: spec_fn(Variant) -> bool)
    requires
        forall|i: int| 0 <= i < s.len() ==> p(#[trigger] s[i]) == q(s[i]),
    ensures
        s.filter(p) == s.filter(q),
    decreases s.len(),
{
    reveal(Seq::filter);
    if s.len() > 0 {
        lemma_filter_agree(s.drop_last(), p, q);
    }
}

/// A test that one element alone passes keeps that element alone.
proof fn lemma_filter_single(s: Seq<Variant>, p: spec_fn(Variant) -> bool, i: int)
    requires
        0 <= i < s.len(),
        p(s[i]),
        forall|k: int| 0 <= k < s.len() && k != i ==> !p(#[trigger] s[k]),
    ensures
        s.filter(p) == seq![s[i]],
    decreases s.len(),
{
    reveal(Seq::filter);
    if i == s.len() - 1 {
        lemma_filter_agree(s.drop_last(), p, |v: Variant| false);
        lemma_filter_none(s.drop_last());
        assert(Seq::<Variant>::empty().push(s[i]) =~= seq![s[i]]);
    } else {
        lemma_filter_single(s.drop_last(), p, i);
    }
}

/// The test that nothing passes keeps nothing.
proof fn lemma_filter_none(s: Seq<Variant>)
    ensures
        s.filter(|v: Variant| false) == Seq::<Variant>::empty(),
    decreases s.len(),
{
    reveal(Seq::filter);
    if s.len() > 0 {
        lemma_filter_none(s.drop_last());
    }
}

/// What a test keeps was there and passes it.
proof fn lemma_filter_member(s: Seq<Variant>, p: spec_fn(Variant) -> bool, j: int)
    requires
        0 <= j < s.filter(p).len(),
    ensures
        exists|i: int| 0 <= i < s.len() && #[trigger] s[i] == s.filter(p)[j] && p(s[i]),
    decreases s.len(),
{
    reveal(Seq::filter);
    if s.len() > 0 {
        let rest = s.drop_last();
        if j < rest.filter(p).len() {
            lemma_filter_member(rest, p, j);
            let i = choose|i: int| 0 <= i < rest.len() && #[trigger] rest[i] == rest.filter(p)[j] && p(rest[i]);
            assert(s[i] == s.filter(p)[j]);
        } else {
            assert(s[s.len() - 1] == s.filter(p)[j]);
        }
    }
}

/// A query for an inverted window returns nothing.
pub proof fn lemma_inverted_window_is_empty(
    candidates: Seq<Variant>,
    chromosome: Seq<char>,
    start: u64,
    end: u64,
)
    requires
        start > end,
    ensures
        selected(candidates, chromosome, start, end) == Seq::<Variant>::empty(),
{
}

/// No candidate on `chromosome` that starts before `position` reaches it.
pub open spec fn none_reaches(candidates: Seq<Variant>, chromosome: Seq<char>, position: u64) -> bool {
    forall|i: int|
        0 <= i < candidates.len() && (#[trigger] candidates[i]).chromosome@ == chromosome
            && candidates[i].position < position ==> candidates[i].end < position
}

/// Every candidate's interval is in order.
pub open spec fn all_wf(candidates: Seq<Variant>) -> bool {
    forall|i: int| 0 <= i < candidates.len() ==> (#[trigger] candidates[i]).wf()
}

/// A query for a position returns every candidate that stands there. If
/// no candidate that starts before the position reaches it, the query
/// returns the candidates that stand there and no others.
pub proof fn lemma_position_query_exact(
    candidates: Seq<Variant>,
    chromosome: Seq<char>,
    position: u64,
)
    requires
        is_coordinate(position),
        all_wf(candidates),
    ensures
        forall|i: int|
            0 <= i < candidates.len() && (#[trigger] candidates[i]).chromosome@ == chromosome
                && candidates[i].position == position ==> selected(
                candidates,
                chromosome,
                position,
                position,
            ).contains(candidates[i]),
        none_reaches(candidates, chromosome, position) ==> selected(
            candidates,
            chromosome,
            position,
            position,
        ) == candidates.filter(at_place(chromosome, position)),
{
    let test = within(chromosome, position, position);
    assert forall|i: int|
        0 <= i < candidates.len() && (#[trigger] candidates[i]).chromosome@ == chromosome
            && candidates[i].position == position implies candidates.filter(test).contains(
        candidates[i],
    ) by {
        assert(candidates[i].wf());
        assert(test(candidates[i]));
        candidates.lemma_filter_contains(test, i);
    }
    if none_reaches(candidates, chromosome, position) {
        assert forall|i: int| 0 <= i < candidates.len() implies test(#[trigger] candidates[i])
            == at_place(chromosome, position)(candidates[i]) by {
            assert(candidates[i].wf());
        }
        lemma_filter_agree(candidates, test, at_place(chromosome, position));
    }
}

/// The records that carry `id` can be told apart by their places: each
/// stands at a coordinate with its interval in order, and no other record
/// of the file overlaps its place.
pub open spec fn stands_alone(records: Seq<Variant>, id: Seq<char>) -> bool {
    &&& forall|i: int|
        0 <= i < records.len() && (#[trigger] records[i]).id@ == id ==> records[i].wf()
            && is_coordinate(records[i].position)
    &&& forall|i: int, k: int|
        0 <= i < records.len() && 0 <= k < records.len() && k != i && (#[trigger] records[i]).id@
            == id ==> !(#[trigger] records[k]).overlaps(
            records[i].chromosome@,
            records[i].position,
            records[i].position,
        )
}

/// Each seek of an identifier query brought what a scan of the file's
/// records would have found at its place.
pub open spec fn seeks_agree_with_scan(
    places: Seq<(Seq<char>, u64)>,
    fetched: Seq<Vec<Variant>>,
    records: Seq<Variant>,
) -> bool {
    &&& fetched.len() == places.len()
    &&& forall|j: int|
        0 <= j < places.len() ==> selected(
            (#[trigger] fetched[j])@,
            places[j].0,
            places[j].1,
            places[j].1,
        ) == selected(records, places[j].0, places[j].1, places[j].1)
}

proof fn lemma_gathered_prefix(
    records: Seq<Variant>,
    id: Seq<char>,
    fetched: Seq<Vec<Variant>>,
    n: nat,
)
    requires
        stands_alone(records, id),
        seeks_agree_with_scan(locations_of(records, id), fetched, records),
        n <= fetched.len(),
    ensures
        gathered(locations_of(records, id), fetched, n) == records.filter(carries(id)).take(
            n as int,
        ),
    decreases n,
{
    let with_id = records.filter(carries(id));
    let places = locations_of(records, id);
    if n == 0 {
        assert(with_id.take(0) =~= Seq::<Variant>::empty());
    } else {
        lemma_gathered_prefix(records, id, fetched, (n - 1) as nat);
        let j = n - 1;
        let found = with_id[j];
        assert(places[j] == (found.chromosome@, found.position));
        lemma_filter_member(records, carries(id), j);
        let i = choose|i: int| 0 <= i < records.len() && #[trigger] records[i] == with_id[j] && carries(id)(records[i]);
        let test = within(found.chromosome@, found.position, found.position);
        assert(records[i].wf() && test(records[i]));
        assert forall|k: int| 0 <= k < records.len() && k != i implies !test(#[trigger] records[k]) by {
            assert(!records[k].overlaps(
                records[i].chromosome@,
                records[i].position,
                records[i].position,
            ));
        }
        lemma_filter_single(records, test, i);
        assert(with_id.take(j) + seq![found] =~= with_id.take(n as int));
    }
}

/// An identifier query returns exactly the records that carry the
/// identifier, in file order, where no other record overlaps the place of
/// one of them, the index describes the file and each seek brought what a
/// scan would have found.
pub proof fn lemma_id_query_exact(
    index: IdIndex,
    records: Seq<Variant>,
    id: Seq<char>,
    fetched: Seq<Vec<Variant>>,
)
    requires
        index.wf(),
        index.describes(records),
        id != missing_id(),
        stands_alone(records, id),
        seeks_agree_with_scan(index.lookup(id), fetched, records),
    ensures
        gathered(index.lookup(id), fetched, fetched.len()) == records.filter(carries(id)),
        gathered(index.lookup(id), fetched, fetched.len()).len() == index.lookup(id).len(),
{
    assert(index.lookup(id) == locations_of(records, id));
    lemma_gathered_prefix(records, id, fetched, fetched.len());
    let with_id = records.filter(carries(id));
    assert(with_id.take(with_id.len() as int) =~= with_id);
}

/// Whatever the seeks brought, an identifier query returns records of
/// the candidates it was given and nothing else.
pub proof fn lemma_id_query_returns_candidates(
    places: Seq<(Seq<char>, u64)>,
    fetched: Seq<Vec<Variant>>,
    n: nat,
    k: int,
)
    requires
        n <= fetched.len(),
        0 <= k < gathered(places, fetched, n).len(),
    ensures
        exists|j: int, i: int|
            0 <= j < n && 0 <= i < fetched[j]@.len() && #[trigger] fetched[j]@[i] == gathered(
                places,
                fetched,
                n,
            )[k],
    decreases n,
{
    if n > 0 {
        let before = gathered(places, fetched, (n - 1) as nat);
        if k < before.len() {
            lemma_id_query_returns_candidates(places, fetched, (n - 1) as nat, k);
            let (j, i) = choose|j: int, i: int|
                0 <= j < n - 1 && 0 <= i < fetched[j]@.len() && #[trigger] fetched[j]@[i]
                    == before[k];
            assert(fetched[j]@[i] == gathered(places, fetched, n)[k]);
        } else {
            let j = n - 1;
            let test = within(places[j].0, places[j].1, places[j].1);
            lemma_filter_member(fetched[j]@, test, k - before.len());
            let i = choose|i: int| 0 <= i < fetched[j]@.len() && #[trigger] fetched[j]@[i] == fetched[j]@.filter(test)[k - before.len()] && test(fetched[j]@[i]);
            assert(fetched[j]@[i] == gathered(places, fetched, n)[k]);
        }
    }
}

/// How many records the region queries for the first `n` names return
/// together, each asked from the first coordinate to `last`.
pub open spec fn region_counts(
    records: Seq<Variant>,
    names: Seq<Seq<char>>,
    last: u64,
    n: nat,
) -> int
    decreases n,
{
    if n == 0 {
        0
    } else {
        region_counts(records, names, last, (n - 1) as nat) + selected(
            records,
            names[n - 1],
            1,
            last,
        ).len()
    }
}

/// How many records stand on the first `n` names, name by name.
spec fn count_on(records: Seq<Variant>, names: Seq<Seq<char>>, n: nat) -> int
    decreases n,
{
    if n == 0 {
        0
    } else {
        count_on(records, names, (n - 1) as nat) + records.filter(on_chromosome(names[n - 1])).len()
    }
}

/// How many of the first `n` names are `name`.
spec fn hits(names: Seq<Seq<char>>, n: nat, name: Seq<char>) -> int
    decreases n,
{
    if n == 0 {
        0
    } else {
        hits(names, (n - 1) as nat, name) + if names[n - 1] == name {
            1int
        } else {
            0int
        }
    }
}

/// No name stands twice.
pub open spec fn distinct_names(names: Seq<Seq<char>>) -> bool {
    forall|i: int, j: int| 0 <= i < j < names.len() ==> #[trigger] names[i] != #[trigger] names[j]
}

/// Every record stands on one of the names, at a coordinate, with its
/// interval in order and ending at `last` or before.
pub open spec fn all_within(records: Seq<Variant>, names: Seq<Seq<char>>, last: u64) -> bool {
    forall|k: int|
        0 <= k < records.len() ==> {
            &&& names.contains((#[trigger] records[k]).chromosome@)
            &&& records[k].wf()
            &&& is_coordinate(records[k].position)
            &&& records[k].end <= last
        }
}

proof fn lemma_hits_once(names: Seq<Seq<char>>, n: nat, name: Seq<char>)
    requires
        n <= names.len(),
        distinct_names(names),
    ensures
        hits(names, n, name) == if exists|i: int| 0 <= i < n && #[trigger] names[i] == name {
            1int
        } else {
            0int
        },
    decreases n,
{
    if n > 0 {
        lemma_hits_once(names, (n - 1) as nat, name);
        if names[n - 1] == name {
            assert forall|i: int| 0 <= i < n - 1 implies #[trigger] names[i] != name by {
                assert(names[i] != names[n - 1]);
            }
        } else {
            if exists|i: int| 0 <= i < n && #[trigger] names[i] == name {
                let i = choose|i: int| 0 <= i < n && #[trigger] names[i] == name;
                assert(0 <= i < n - 1 && names[i] == name);
            }
        }
    }
}

proof fn lemma_count_on_push(records: Seq<Variant>, v: Variant, names: Seq<Seq<char>>, n: nat)
    requires
        n <= names.len(),
    ensures
        count_on(records.push(v), names, n) == count_on(records, names, n) + hits(
            names,
            n,
            v.chromosome@,
        ),
    decreases n,
{
    if n > 0 {
        lemma_count_on_push(records, v, names, (n - 1) as nat);
        Seq::lemma_filter_push(records, v, on_chromosome(names[n - 1]));
    }
}

proof fn lemma_count_on_all(records: Seq<Variant>, names: Seq<Seq<char>>)
    requires
        distinct_names(names),
        forall|k: int| 0 <= k < records.len() ==> names.contains((#[trigger] records[k]).chromosome@),
    ensures
        count_on(records, names, names.len()) == records.len(),
    decreases records.len(),
{
    if records.len() == 0 {
        lemma_count_on_none(names, names.len());
        assert(records =~= Seq::<Variant>::empty());
    } else {
        let rest = records.drop_last();
        let v = records.last();
        assert(rest.push(v) =~= records);
        assert forall|k: int| 0 <= k < rest.len() implies names.contains(
            (#[trigger] rest[k]).chromosome@,
        ) by {
            assert(rest[k] == records[k]);
        }
        lemma_count_on_all(rest, names);
        lemma_count_on_push(rest, v, names, names.len());
        lemma_hits_once(names, names.len(), v.chromosome@);
        assert(names.contains(records[records.len() - 1].chromosome@));
        let i = choose|i: int| 0 <= i < names.len() && names[i] == v.chromosome@;
        assert(0 <= i < names.len() && names[i] == v.chromosome@);
    }
}

proof fn lemma_count_on_none(names: Seq<Seq<char>>, n: nat)
    requires
        n <= names.len(),
    ensures
        count_on(Seq::<Variant>::empty(), names, n) == 0,
    decreases n,
{
    reveal(Seq::filter);
    if n > 0 {
        lemma_count_on_none(names, (n - 1) as nat);
    }
}

proof fn lemma_region_counts_are_counts(
    records: Seq<Variant>,
    names: Seq<Seq<char>>,
    last: u64,
    n: nat,
)
    requires
        n <= names.len(),
        is_coordinate(last),
        all_within(records, names, last),
    ensures
        region_counts(records, names, last, n) == count_on(records, names, n),
    decreases n,
{
    if n > 0 {
        lemma_region_counts_are_counts(records, names, last, (n - 1) as nat);
        let name = names[n - 1];
        assert forall|k: int| 0 <= k < records.len() implies within(name, 1, last)(
            #[trigger] records[k],
        ) == on_chromosome(name)(records[k]) by {
            assert(records[k].wf() && is_coordinate(records[k].position));
        }
        lemma_filter_agree(records, within(name, 1, last), on_chromosome(name));
    }
}

/// Region queries over the whole of each chromosome return every record
/// of the file once: where no name stands twice and every record stands
/// on one of the names and ends at `last` or before, the numbers of
/// records that the queries return add up to the number of records.
pub proof fn lemma_region_counts_add_up(records: Seq<Variant>, names: Seq<Seq<char>>, last: u64)
    requires
        is_coordinate(last),
        distinct_names(names),
        all_within(records, names, last),
    ensures
        region_counts(records, names, last, names.len()) == records.len(),
{
    lemma_region_counts_are_counts(records, names, last, names.len());
    lemma_count_on_all(records, names);
}

} // verus!
