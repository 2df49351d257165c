//! Whole-file statistics, gathered record by record in one forward pass.
//!
//! Quality scores are floating-point numbers; the pass counts the records
//! that carry one and leaves their minimum, maximum and mean to the caller.

use crate::tally::Tally;
use crate::variant::{identified, on_chromosome, Variant};
use vstd::prelude::*;
use vstd::string::*;

verus! {

/// The kinds into which records are sorted by the lengths of their alleles.
#[derive(Debug, Clone, Copy, PartialEq, Eq, Structural)]
pub enum VariantType {
    Snp,
    Insertion,
    Deletion,
    Mnp,
    Complex,
}

/// The kind of a record. With exactly one alternate allele: a
/// single-nucleotide change if both alleles have one base, an insertion if
/// the alternate is longer, a deletion if it is shorter, a multi-nucleotide
/// substitution if both have the same length above one. Every other record
/// is complex.
pub open spec fn variant_type(v: Variant) -> VariantType {
    if v.alternate@.len() != 1 {
        VariantType::Complex
    } else {
        let r = v.reference@.len();
        let a = v.alternate@[0]@.len();
        if r == 1 && a == 1 {
            VariantType::Snp
        } else if a > r {
            VariantType::Insertion
        } else if a < r {
            VariantType::Deletion
        } else if r > 1 {
            VariantType::Mnp
        } else {
            VariantType::Complex
        }
    }
}

/// Sorts a record into its kind.
pub fn classify(v: &Variant) -> (kind: VariantType)
    ensures
        kind == variant_type(*v),
{
    if v.alternate.len() != 1 {
        return VariantType::Complex;
    }
    let r: usize = v.reference.as_str().unicode_len();
    let a: usize = v.alternate[0].as_str().unicode_len();
    if r == 1 && a == 1 {
        VariantType::Snp
    } else if a > r {
        VariantType::Insertion
    } else if a < r {
        VariantType::Deletion
    } else if r > 1 {
        VariantType::Mnp
    } else {
        VariantType::Complex
    }
}

/// How many records there are of each kind.
#[derive(Debug, Clone, Copy, PartialEq, Eq, Structural)]
pub struct VariantTypeStats {
    pub snps: u64,
    pub insertions: u64,
    pub deletions: u64,
    pub mnps: u64,
    pub complex: u64,
}

impl VariantTypeStats {
    /// The number of records of one kind.
    pub open spec fn count(self, kind: VariantType) -> u64 {
        match kind {
            VariantType::Snp => self.snps,
            VariantType::Insertion => self.insertions,
            VariantType::Deletion => self.deletions,
            VariantType::Mnp => self.mnps,
            VariantType::Complex => self.complex,
        }
    }

    /// The number of records of all kinds.
    pub open spec fn total(self) -> int {
        self.snps + self.insertions + self.deletions + self.mnps + self.complex
    }
}

/// The test that picks the records with a quality score.
pub open spec fn scored() -> spec_fn(Variant) -> bool {
    |v: Variant| v.quality is Some
}

/// The test that picks the records of one kind.
pub open spec fn of_type(kind: VariantType) -> spec_fn(Variant) -> bool {
    |v: Variant| variant_type(v) == kind
}

/// The test that picks a tag among tags.
pub open spec fn is_tag(tag: Seq<char>) -> spec_fn(String) -> bool {
    |s: String| s@ == tag
}

/// How often the records carry the filter tag `tag`.
pub open spec fn tag_count(records: Seq<Variant>, tag: Seq<char>) -> int
    decreases records.len(),
{
    if records.len() == 0 {
        0
    } else {
        tag_count(records.drop_last(), tag) + records.last().filter@.filter(is_tag(tag)).len()
    }
}

/// How many filter tags the records carry in all.
pub open spec fn tag_total(records: Seq<Variant>) -> int
    decreases records.len(),
{
    if records.len() == 0 {
        0
    } else {
        tag_total(records.drop_last()) + records.last().filter@.len()
    }
}

/// The tags of a prefix of the records are at most those of all.
pub proof fn lemma_tag_total_prefix(records: Seq<Variant>, n: int)
    requires
        0 <= n <= records.len(),
    ensures
        0 <= tag_total(records.take(n)) <= tag_total(records),
    decreases records.len(),
{
    if n == records.len() {
        assert(records.take(n) =~= records);
        if n > 0 {
            lemma_tag_total_prefix(records.drop_last(), n - 1);
        }
    } else {
        assert(records.drop_last().take(n) =~= records.take(n));
        lemma_tag_total_prefix(records.drop_last(), n);
    }
}

/// Counts each tag of `tags` once in `tally`, unless the table cannot
/// hold them all; then it counts none. Tells whether it counted.
pub fn bump_all(tally: &mut Tally, tags: &Vec<String>) -> (done: bool)
    requires
        old(tally).wf(),
    ensures
        final(tally).wf(),
        done == (old(tally).total() + tags@.len() <= u64::MAX),
        !done ==> *final(tally) == *old(tally),
        done ==> final(tally).total() == old(tally).total() + tags@.len(),
        done ==> forall|tag: Seq<char>|
            #[trigger] final(tally).count_of(tag) == old(tally).count_of(tag) + tags@.filter(
                is_tag(tag),
            ).len(),
{
    if tags.len() as u64 > u64::MAX - tally.counted {
        return false;
    }
    let mut k: usize = 0;
    proof {
        assert(tags@.take(0) =~= Seq::<String>::empty());
        assert forall|tag: Seq<char>| tags@.take(0).filter(is_tag(tag)).len() == 0 by {
            reveal(Seq::filter);
        }
    }
    while k < tags.len()
        invariant
            k <= tags.len(),
            tally.wf(),
            old(tally).total() + tags@.len() <= u64::MAX,
            tally.total() == old(tally).total() + k,
            forall|tag: Seq<char>|
                #[trigger] tally.count_of(tag) == old(tally).count_of(tag) + tags@.take(
                    k as int,
                ).filter(is_tag(tag)).len(),
        decreases tags.len() - k,
    {
        let ghost prior = *tally;
        let counted = tally.bump(tags[k].as_str());
        assert(counted);
        proof {
            assert(tags@.take(k + 1) =~= tags@.take(k as int).push(tags@[k as int]));
            assert forall|tag: Seq<char>|
                #[trigger] tally.count_of(tag) == old(tally).count_of(tag) + tags@.take(
                    k + 1,
                ).filter(is_tag(tag)).len() by {
                Seq::lemma_filter_push(tags@.take(k as int), tags@[k as int], is_tag(tag));
                assert(prior.count_of(tag) == old(tally).count_of(tag) + tags@.take(
                    k as int,
                ).filter(is_tag(tag)).len());
            }
        }
        k += 1;
    }
    assert(tags@.take(tags@.len() as int) =~= tags@);
    true
}

/// The statistics of a file: what its header says and what a pass over its
/// records counted.
#[derive(Debug, Clone, PartialEq)]
pub struct VcfStatistics {
    pub file_format: String,
    pub reference_genome: String,
    pub chromosome_count: usize,
    pub sample_count: usize,
    pub chromosomes: Vec<String>,
    pub total_variants: u64,
    pub variants_per_chromosome: Tally,
    pub unique_ids: u64,
    pub missing_ids: u64,
    pub with_quality: u64,
    pub filter_counts: Tally,
    pub variant_types: VariantTypeStats,
}

impl VcfStatistics {
    /// The counts agree: the records per chromosome, the records with and
    /// without an identifier, and the records of the five kinds each add
    /// up to the number of records.
    pub open spec fn wf(&self) -> bool {
        &&& self.variants_per_chromosome.wf()
        &&& self.filter_counts.wf()
        &&& self.variants_per_chromosome.total() == self.total_variants
        &&& self.unique_ids + self.missing_ids == self.total_variants
        &&& self.variant_types.total() == self.total_variants
        &&& self.with_quality <= self.total_variants
    }

    /// One more record with `tags` filter tags still fits the counters,
    /// which are 64 bits wide.
    pub open spec fn has_room(&self, tags: nat) -> bool {
        self.total_variants < u64::MAX && self.filter_counts.total() + tags <= u64::MAX
    }

    /// The counts are those of `records`.
    pub open spec fn describes(&self, records: Seq<Variant>) -> bool {
        &&& self.total_variants == records.len()
        &&& self.unique_ids == records.filter(identified()).len()
        &&& self.missing_ids == records.len() - records.filter(identified()).len()
        &&& self.with_quality == records.filter(scored()).len()
        &&& self.filter_counts.total() == tag_total(records)
        &&& forall|name: Seq<char>| #[trigger]
            self.variants_per_chromosome.count_of(name) == records.filter(on_chromosome(name)).len()
        &&& forall|kind: VariantType| #[trigger]
            self.variant_types.count(kind) == records.filter(of_type(kind)).len()
        &&& forall|tag: Seq<char>| #[trigger]
            self.filter_counts.count_of(tag) == tag_count(records, tag)
    }

    /// The header part of two statistics is the same.
    pub open spec fn same_header(&self, other: &VcfStatistics) -> bool {
        &&& self.file_format == other.file_format
        &&& self.reference_genome == other.reference_genome
        &&& self.chromosome_count == other.chromosome_count
        &&& self.sample_count == other.sample_count
        &&& self.chromosomes == other.chromosomes
    }

    /// The statistics of a file of which no record was counted yet.
    pub fn new(
        file_format: String,
        reference_genome: String,
        chromosomes: Vec<String>,
        sample_count: usize,
    ) -> (stats: VcfStatistics)
        ensures
            stats.wf(),
            stats.describes(Seq::empty()),
            stats.file_format == file_format,
            stats.reference_genome == reference_genome,
            stats.chromosomes == chromosomes,
            stats.chromosome_count == chromosomes@.len(),
            stats.sample_count == sample_count,
    {
        proof {
            reveal(Seq::filter);
            assert forall|name: Seq<char>|
                Seq::<Variant>::empty().filter(on_chromosome(name)).len() == 0 by {}
            assert forall|kind: VariantType|
                Seq::<Variant>::empty().filter(of_type(kind)).len() == 0 by {}
            assert(Seq::<Variant>::empty().filter(identified()).len() == 0);
            assert(Seq::<Variant>::empty().filter(scored()).len() == 0);
        }
        VcfStatistics {
            file_format,
            reference_genome,
            chromosome_count: chromosomes.len(),
            sample_count,
            chromosomes,
            total_variants: 0,
            variants_per_chromosome: Tally::new(),
            unique_ids: 0,
            missing_ids: 0,
            with_quality: 0,
            filter_counts: Tally::new(),
            variant_types: VariantTypeStats {
                snps: 0,
                insertions: 0,
                deletions: 0,
                mnps: 0,
                complex: 0,
            },
        }
    }

    /// Counts one more record, unless the counters have no room for it;
    /// then nothing changes. Tells whether it counted.
    pub fn observe(&mut self, v: &Variant) -> (done: bool)
        requires
            old(self).wf(),
        ensures
            final(self).wf(),
            done == old(self).has_room(v.filter@.len()),
            !done ==> *final(self) == *old(self),
            done ==> final(self).same_header(old(self)),
            done ==> final(self).total_variants == old(self).total_variants + 1,
            done ==> forall|records: Seq<Variant>|
                old(self).describes(records) ==> #[trigger] final(self).describes(
                    records.push(*v),
                ),
    {
        let ghost before = *self;
        if self.total_variants == u64::MAX {
            return false;
        }
        if !bump_all(&mut self.filter_counts, &v.filter) {
            return false;
        }
        self.total_variants = self.total_variants + 1;
        let placed = self.variants_per_chromosome.bump(v.chromosome.as_str());
        assert(placed);
        if v.is_identified() {
            self.unique_ids = self.unique_ids + 1;
        } else {
            self.missing_ids = self.missing_ids + 1;
        }
        if v.quality.is_some() {
            self.with_quality = self.with_quality + 1;
        }
        match classify(v) {
            VariantType::Snp => {
                self.variant_types.snps = self.variant_types.snps + 1;
            },
            VariantType::Insertion => {
                self.variant_types.insertions = self.variant_types.insertions + 1;
            },
            VariantType::Deletion => {
                self.variant_types.deletions = self.variant_types.deletions + 1;
            },
            VariantType::Mnp => {
                self.variant_types.mnps = self.variant_types.mnps + 1;
            },
            VariantType::Complex => {
                self.variant_types.complex = self.variant_types.complex + 1;
            },
        }
        proof {
            assert forall|records: Seq<Variant>| before.describes(records) implies #[trigger] self.describes(
                records.push(*v),
            ) by {
                let more = records.push(*v);
                assert(more.drop_last() =~= records);
                Seq::lemma_filter_push(records, *v, identified());
                Seq::lemma_filter_push(records, *v, scored());
                assert forall|name: Seq<char>| #[trigger]
                    self.variants_per_chromosome.count_of(name) == more.filter(
                        on_chromosome(name),
                    ).len() by {
                    Seq::lemma_filter_push(records, *v, on_chromosome(name));
                    assert(before.variants_per_chromosome.count_of(name) == records.filter(
                        on_chromosome(name),
                    ).len());
                }
                assert forall|kind: VariantType| #[trigger]
                    self.variant_types.count(kind) == more.filter(of_type(kind)).len() by {
                    Seq::lemma_filter_push(records, *v, of_type(kind));
                    assert(before.variant_types.count(kind) == records.filter(of_type(kind)).len());
                }
                assert forall|tag: Seq<char>| #[trigger]
                    self.filter_counts.count_of(tag) == tag_count(more, tag) by {
                    assert(before.filter_counts.count_of(tag) == tag_count(records, tag));
                }
            }
        }
        true
    }

    /// Gathers the statistics of `records` in one pass. The counters are 64
    /// bits wide: where the filter tags of all records together do not fit
    /// one, there are no statistics.
    pub fn compute(
        records: &Vec<Variant>,
        file_format: String,
        reference_genome: String,
        chromosomes: Vec<String>,
        sample_count: usize,
    ) -> (gathered: Option<VcfStatistics>)
        ensures
            gathered is Some == (tag_total(records@) <= u64::MAX),
            gathered is Some ==> {
                let stats = gathered.unwrap();
                &&& stats.wf()
                &&& stats.describes(records@)
                &&& stats.file_format == file_format
                &&& stats.reference_genome == reference_genome
                &&& stats.chromosomes == chromosomes
                &&& stats.chromosome_count == chromosomes@.len()
                &&& stats.sample_count == sample_count
            },
    {
        let mut stats = VcfStatistics::new(file_format, reference_genome, chromosomes, sample_count);
        let mut i: usize = 0;
        assert(records@.take(0) =~= Seq::<Variant>::empty());
        while i < records.len()
            invariant
                i <= records.len(),
                stats.wf(),
                stats.describes(records@.take(i as int)),
                stats.file_format == file_format,
                stats.reference_genome == reference_genome,
                stats.chromosomes == chromosomes,
                stats.chromosome_count == chromosomes@.len(),
                stats.sample_count == sample_count,
            decreases records.len() - i,
        {
            proof {
                assert(records@.take(i + 1) =~= records@.take(i as int).push(records@[i as int]));
                assert(records@.take(i + 1).drop_last() =~= records@.take(i as int));
                lemma_tag_total_prefix(records@, i + 1);
            }
            if !stats.observe(&records[i]) {
                return None;
            }
            i += 1;
        }
        proof {
            assert(records@.take(records@.len() as int) =~= records@);
        }
        Some(stats)
    }
}

} // verus!
