//! One decoded record and the interval it covers.
//!
//! The interval is the decoder's: it starts at the record's position and
//! ends where the decoder says the record ends, which may lie far behind
//! the reference allele (a block that states its end, a structural
//! variant that states its length).

use vstd::prelude::*;
use vstd::string::*;

verus! {

/// One element of a multi-valued info field. A float is held by the bits of
/// its IEEE-754 double, so that the value survives unchanged.
#[derive(Debug, Clone, PartialEq)]
pub enum InfoItem {
    Integer(i64),
    Float(u64),
    Text(String),
}

/// A typed value of an info field; floats are held as in `InfoItem`.
#[derive(Debug, Clone, PartialEq)]
pub enum InfoValue {
    Integer(i64),
    Float(u64),
    Text(String),
    Flag(bool),
    Array(Vec<InfoItem>),
}

/// One decoded record. `position` is 1-based and `end` is the last
/// coordinate that the record covers, as the decoder resolved it; an `id`
/// of a single dot means that the record has no identifier. `quality`
/// holds the bits of the single-precision score; `raw_row` is the record's
/// row as the file has it, kept for the filter evaluator and shown to no
/// client.
#[derive(Debug, Clone, PartialEq)]
pub struct Variant {
    pub chromosome: String,
    pub position: u64,
    pub end: u64,
    pub id: String,
    pub reference: String,
    pub alternate: Vec<String>,
    pub quality: Option<u32>,
    pub filter: Vec<String>,
    pub info: Vec<(String, InfoValue)>,
    pub raw_row: String,
}

/// The identifier of a record that has none.
pub open spec fn missing_id() -> Seq<char> {
    seq!['.']
}

/// The identifier under which a record is known: the first of those it
/// lists, the missing identifier if it lists none.
pub open spec fn first_id(ids: Seq<String>) -> Seq<char> {
    if ids.len() > 0 {
        ids[0]@
    } else {
        missing_id()
    }
}

/// An alternate allele as a record shows it: its text, a single dot where
/// the decoder could not read it.
pub open spec fn allele_text(allele: Option<String>) -> Seq<char> {
    match allele {
        Some(text) => text@,
        None => missing_id(),
    }
}

/// The test that picks the records on one chromosome.
pub open spec fn on_chromosome(name: Seq<char>) -> spec_fn(Variant) -> bool {
    |v: Variant| v.chromosome@ == name
}

/// The test that picks the records with an identifier.
pub open spec fn identified() -> spec_fn(Variant) -> bool {
    |v: Variant| v.has_id()
}

/// The test that picks the records without an identifier.
pub open spec fn unidentified() -> spec_fn(Variant) -> bool {
    |v: Variant| !v.has_id()
}

/// Every record either has an identifier or has none.
pub proof fn lemma_identified_or_not(records: Seq<Variant>)
    ensures
        records.filter(identified()).len() + records.filter(unidentified()).len() == records.len(),
    decreases records.len(),
{
    reveal(Seq::filter);
    if records.len() > 0 {
        lemma_identified_or_not(records.drop_last());
    }
}

impl Variant {
    /// The record's interval is not inverted.
    pub open spec fn wf(self) -> bool {
        self.position <= self.end
    }

    /// The last coordinate that the record covers.
    pub open spec fn span_end(self) -> int {
        self.end as int
    }

    /// The record lies on `chromosome` and its interval meets `[start, end]`.
    pub open spec fn overlaps(self, chromosome: Seq<char>, start: u64, end: u64) -> bool {
        &&& self.chromosome@ == chromosome
        &&& self.position <= end
        &&& self.span_end() >= start
    }

    /// The record has an identifier: anything but a single dot.
    pub open spec fn has_id(self) -> bool {
        self.id@ != missing_id()
    }

    /// Decides `overlaps`.
    pub fn covers(&self, chromosome: &String, start: u64, end: u64) -> (hit: bool)
        ensures
            hit == self.overlaps(chromosome@, start, end),
    {
        self.chromosome == *chromosome && self.position <= end && self.end >= start
    }

    /// Tells whether the record carries an identifier.
    pub fn is_identified(&self) -> (named: bool)
        ensures
            named == self.has_id(),
    {
        let id = self.id.as_str();
        let n: usize = id.unicode_len();
        let dot = n == 1 && id.get_char(0) == '.';
        proof {
            if dot {
                assert(self.id@ =~= seq!['.']);
            }
        }
        !dot
    }
}

/// Puts a record together from what the decoder read of a row. A row
/// whose position is missing or unreadable gives no record. The record is
/// known by the first identifier of the row, by a single dot if the row
/// has none; an alternate allele that could not be read is shown as a
/// single dot; a record whose end the decoder could not resolve ends where
/// it starts.
pub fn make_variant(
    chromosome: String,
    position: Option<u64>,
    end: Option<u64>,
    ids: Vec<String>,
    reference: String,
    alternate: Vec<Option<String>>,
    quality: Option<u32>,
    filter: Vec<String>,
    info: Vec<(String, InfoValue)>,
    raw_row: String,
) -> (made: Option<Variant>)
    ensures
        made is Some == position is Some,
        made is Some ==> {
            let v = made.unwrap();
            &&& v.chromosome == chromosome
            &&& v.position == position.unwrap()
            &&& v.end == match end {
                Some(last) => last,
                None => position.unwrap(),
            }
            &&& v.id@ == first_id(ids@)
            &&& v.reference == reference
            &&& v.alternate@.len() == alternate@.len()
            &&& forall|i: int|
                0 <= i < alternate@.len() ==> (#[trigger] v.alternate@[i])@ == allele_text(
                    alternate@[i],
                )
            &&& v.quality == quality
            &&& v.filter == filter
            &&& v.info == info
            &&& v.raw_row == raw_row
        },
{
    let start: u64 = match position {
        Some(start) => start,
        None => {
            return None;
        },
    };
    let last: u64 = match end {
        Some(last) => last,
        None => start,
    };
    proof {
        reveal_strlit(".");
        assert("."@ =~= missing_id());
    }
    let id = if ids.len() > 0 {
        ids[0].clone()
    } else {
        String::from_str(".")
    };
    let mut alleles: Vec<String> = Vec::new();
    let mut i: usize = 0;
    while i < alternate.len()
        invariant
            i <= alternate.len(),
            alleles@.len() == i,
            "."@ == missing_id(),
            forall|j: int| 0 <= j < i ==> (#[trigger] alleles@[j])@ == allele_text(alternate@[j]),
        decreases alternate.len() - i,
    {
        let allele = match &alternate[i] {
            Some(text) => text.clone(),
            None => String::from_str("."),
        };
        alleles.push(allele);
        i += 1;
    }
    Some(
        Variant {
            chromosome,
            position: start,
            end: last,
            id,
            reference,
            alternate: alleles,
            quality,
            filter,
            info,
            raw_row,
        },
    )
}

/// Hands a record on as the response layer shows it: unchanged.
pub fn format_variant(variant: Variant) -> (shown: Variant)
    ensures
        shown == variant,
{
    variant
}

} // verus!
