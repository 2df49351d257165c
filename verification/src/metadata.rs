//! What a file's header tells: format, reference genome, contigs, samples.

use vstd::prelude::*;
use vstd::string::*;

verus! {

/// Where the name of the reference genome build was found.
#[derive(Debug, Clone, Copy, PartialEq, Eq, Structural)]
pub enum ReferenceGenomeSource {
    HeaderLine,
    InferredFromContigLengths,
    Unknown,
}

/// The reference genome build and where its name was found.
#[derive(Debug, Clone, PartialEq)]
pub struct ReferenceGenomeInfo {
    pub build: String,
    pub source: ReferenceGenomeSource,
}

/// A contig that the header declares.
#[derive(Debug, Clone, PartialEq)]
pub struct ContigInfo {
    pub id: String,
}

/// The header's content as callers are shown it.
#[derive(Debug, Clone, PartialEq)]
pub struct VcfMetadata {
    pub file_format: String,
    pub reference_genome: ReferenceGenomeInfo,
    pub contigs: Vec<ContigInfo>,
    pub samples: Vec<String>,
}

/// A contig line of the header: its name and, where stated, its length.
#[derive(Debug, Clone, PartialEq)]
pub struct ContigLine {
    pub id: String,
    pub length: Option<u64>,
}

/// The header as the decoder read it: the file format, the values of its
/// `reference` lines, its contig lines and its sample names, each in file
/// order.
#[derive(Debug, Clone, PartialEq)]
pub struct HeaderFacts {
    pub file_format: String,
    pub reference: Vec<String>,
    pub contigs: Vec<ContigLine>,
    pub samples: Vec<String>,
}

/// Length of chromosome 1 in build GRCh37.
pub const CHR1_GRCH37_LENGTH: u64 = 249_250_621;

/// Length of chromosome 1 in build GRCh38.
pub const CHR1_GRCH38_LENGTH: u64 = 248_956_422;

/// How far a stated length may lie from a build's and still count as it.
pub const LENGTH_TOLERANCE: u64 = 1000;

/// `length` lies within the tolerance of `expected`.
pub open spec fn is_near(length: u64, expected: u64) -> bool {
    if length >= expected {
        length - expected < LENGTH_TOLERANCE
    } else {
        expected - length < LENGTH_TOLERANCE
    }
}

/// The build whose chromosome 1 has about this length.
pub open spec fn build_of_length(length: u64) -> Option<Seq<char>> {
    if is_near(length, CHR1_GRCH37_LENGTH) {
        Some("GRCh37"@)
    } else if is_near(length, CHR1_GRCH38_LENGTH) {
        Some("GRCh38"@)
    } else {
        None
    }
}

/// The length that the first contig line named `name` states.
pub open spec fn stated_length(contigs: Seq<ContigLine>, name: Seq<char>) -> Option<u64>
    decreases contigs.len(),
{
    if contigs.len() == 0 {
        None
    } else if contigs[0].id@ == name {
        contigs[0].length
    } else {
        stated_length(contigs.skip(1), name)
    }
}

/// The build that the contig named `name` speaks for, if it is declared
/// with a length that fits one.
pub open spec fn build_by_contig(contigs: Seq<ContigLine>, name: Seq<char>) -> Option<Seq<char>> {
    match stated_length(contigs, name) {
        Some(length) => build_of_length(length),
        None => None,
    }
}

/// The build inferred from the length of chromosome 1, looked for as
/// `chr1` and then as `1`.
pub open spec fn inferred_build(contigs: Seq<ContigLine>) -> Option<Seq<char>> {
    if build_by_contig(contigs, "chr1"@) is Some {
        build_by_contig(contigs, "chr1"@)
    } else {
        build_by_contig(contigs, "1"@)
    }
}

/// The name and origin of the reference genome: the first `reference`
/// line if there is one, else the build inferred from the contigs, else
/// unknown.
pub open spec fn reference_of(facts: HeaderFacts) -> (Seq<char>, ReferenceGenomeSource) {
    if facts.reference@.len() > 0 {
        (facts.reference@[0]@, ReferenceGenomeSource::HeaderLine)
    } else if inferred_build(facts.contigs@) is Some {
        (inferred_build(facts.contigs@).unwrap(), ReferenceGenomeSource::InferredFromContigLengths)
    } else {
        ("Unknown"@, ReferenceGenomeSource::Unknown)
    }
}

/// The words that name a source in a sentence.
pub open spec fn source_label(source: ReferenceGenomeSource) -> Seq<char> {
    match source {
        ReferenceGenomeSource::HeaderLine => "from header"@,
        ReferenceGenomeSource::InferredFromContigLengths => "inferred from contigs"@,
        ReferenceGenomeSource::Unknown => "unknown source"@,
    }
}

fn near(length: u64, expected: u64) -> (close: bool)
    ensures
        close == is_near(length, expected),
{
    if length >= expected {
        length - expected < LENGTH_TOLERANCE
    } else {
        expected - length < LENGTH_TOLERANCE
    }
}

fn find_stated_length(contigs: &Vec<ContigLine>, name: &str) -> (length: Option<u64>)
    ensures
        length == stated_length(contigs@, name@),
{
    let wanted = String::from_str(name);
    let mut i: usize = 0;
    assert(contigs@.skip(0) =~= contigs@);
    while i < contigs.len()
        invariant
            i <= contigs.len(),
            wanted@ == name@,
            stated_length(contigs@, name@) == stated_length(contigs@.skip(i as int), name@),
        decreases contigs.len() - i,
    {
        assert(contigs@.skip(i as int)[0] == contigs@[i as int]);
        assert(contigs@.skip(i as int).skip(1) =~= contigs@.skip(i + 1));
        if contigs[i].id == wanted {
            return contigs[i].length;
        }
        i += 1;
    }
    None
}

fn infer_by_contig(contigs: &Vec<ContigLine>, name: &str) -> (build: Option<String>)
    ensures
        build is Some == build_by_contig(contigs@, name@) is Some,
        build is Some ==> Some(build.unwrap()@) == build_by_contig(contigs@, name@),
{
    match find_stated_length(contigs, name) {
        Some(length) => {
            if near(length, CHR1_GRCH37_LENGTH) {
                Some(String::from_str("GRCh37"))
            } else if near(length, CHR1_GRCH38_LENGTH) {
                Some(String::from_str("GRCh38"))
            } else {
                None
            }
        },
        None => None,
    }
}

/// Infers the genome build from the declared length of chromosome 1.
pub fn infer_genome_build_from_contigs(contigs: &Vec<ContigLine>) -> (build: Option<String>)
    ensures
        build is Some == inferred_build(contigs@) is Some,
        build is Some ==> Some(build.unwrap()@) == inferred_build(contigs@),
{
    let prefixed = infer_by_contig(contigs, "chr1");
    if prefixed.is_some() {
        return prefixed;
    }
    infer_by_contig(contigs, "1")
}

/// Finds the reference genome that a header speaks of.
pub fn extract_reference_genome(facts: &HeaderFacts) -> (info: ReferenceGenomeInfo)
    ensures
        (info.build@, info.source) == reference_of(*facts),
{
    if facts.reference.len() > 0 {
        return ReferenceGenomeInfo {
            build: facts.reference[0].clone(),
            source: ReferenceGenomeSource::HeaderLine,
        };
    }
    match infer_genome_build_from_contigs(&facts.contigs) {
        Some(build) => ReferenceGenomeInfo {
            build,
            source: ReferenceGenomeSource::InferredFromContigLengths,
        },
        None => ReferenceGenomeInfo {
            build: String::from_str("Unknown"),
            source: ReferenceGenomeSource::Unknown,
        },
    }
}

/// The names of the declared contigs, in header order.
pub open spec fn contig_names(contigs: Seq<ContigLine>) -> Seq<String> {
    contigs.map_values(|c: ContigLine| c.id)
}

/// Lists the names of the declared contigs.
pub fn list_contig_names(contigs: &Vec<ContigLine>) -> (names: Vec<String>)
    ensures
        names@ == contig_names(contigs@),
{
    let mut names: Vec<String> = Vec::new();
    let mut i: usize = 0;
    while i < contigs.len()
        invariant
            i <= contigs.len(),
            names@ == contig_names(contigs@.take(i as int)),
        decreases contigs.len() - i,
    {
        names.push(contigs[i].id.clone());
        assert(names@ =~= contig_names(contigs@.take(i + 1)));
        i += 1;
    }
    assert(contigs@.take(contigs@.len() as int) =~= contigs@);
    names
}

/// Copies a list of names.
pub fn copy_names(names: &Vec<String>) -> (copy: Vec<String>)
    ensures
        copy@ == names@,
{
    let mut copy: Vec<String> = Vec::new();
    let mut i: usize = 0;
    while i < names.len()
        invariant
            i <= names.len(),
            copy@ == names@.take(i as int),
        decreases names.len() - i,
    {
        copy.push(names[i].clone());
        assert(copy@ =~= names@.take(i + 1));
        i += 1;
    }
    assert(names@.take(names@.len() as int) =~= names@);
    copy
}

/// Draws up the metadata that callers are shown from the header.
pub fn extract_metadata(facts: &HeaderFacts) -> (metadata: VcfMetadata)
    ensures
        metadata.file_format == facts.file_format,
        (metadata.reference_genome.build@, metadata.reference_genome.source) == reference_of(
            *facts,
        ),
        metadata.contigs@.len() == facts.contigs@.len(),
        forall|i: int|
            0 <= i < facts.contigs@.len() ==> (#[trigger] metadata.contigs@[i]).id
                == facts.contigs@[i].id,
        metadata.samples@ == facts.samples@,
{
    let mut contigs: Vec<ContigInfo> = Vec::new();
    let mut i: usize = 0;
    while i < facts.contigs.len()
        invariant
            i <= facts.contigs.len(),
            contigs@.len() == i,
            forall|j: int| 0 <= j < i ==> (#[trigger] contigs@[j]).id == facts.contigs@[j].id,
        decreases facts.contigs.len() - i,
    {
        contigs.push(ContigInfo { id: facts.contigs[i].id.clone() });
        i += 1;
    }
    VcfMetadata {
        file_format: facts.file_format.clone(),
        reference_genome: extract_reference_genome(facts),
        contigs,
        samples: copy_names(&facts.samples),
    }
}

/// The sentence that names a reference genome and its origin: the build,
/// a space, and the origin in round brackets.
pub open spec fn reference_sentence(build: Seq<char>, source: ReferenceGenomeSource) -> Seq<char> {
    build + " ("@ + source_label(source) + ")"@
}

/// Writes the sentence that names a reference genome and its origin.
pub fn describe_reference_genome(info: &ReferenceGenomeInfo) -> (sentence: String)
    ensures
        sentence@ == reference_sentence(info.build@, info.source),
{
    let label = match info.source {
        ReferenceGenomeSource::HeaderLine => "from header",
        ReferenceGenomeSource::InferredFromContigLengths => "inferred from contigs",
        ReferenceGenomeSource::Unknown => "unknown source",
    };
    info.build.clone().concat(" (").concat(label).concat(")")
}

} // verus!
