use vcf_mcp_server::stats::{bump_all, classify, VariantType, VcfStatistics};
use vcf_mcp_server::tally::Tally;
use vcf_mcp_server::variant::Variant;

fn record(
    chromosome: &str,
    id: &str,
    reference: &str,
    alternate: &[&str],
    quality: Option<f32>,
    filter: &[&str],
) -> Variant {
    Variant {
        chromosome: chromosome.to_string(),
        position: 1,
        end: 1,
        id: id.to_string(),
        reference: reference.to_string(),
        alternate: alternate.iter().map(|s| s.to_string()).collect(),
        quality: quality.map(f32::to_bits),
        filter: filter.iter().map(|s| s.to_string()).collect(),
        info: Vec::new(),
        raw_row: String::new(),
    }
}

fn kind(reference: &str, alternate: &[&str]) -> VariantType {
    classify(&record("1", ".", reference, alternate, None, &[]))
}

fn sample() -> Vec<Variant> {
    vec![
        record("20", "rs1", "G", &["A"], Some(29.0), &["PASS"]),
        record("20", ".", "T", &["A"], Some(3.0), &["q10"]),
        record("20", "rs2", "A", &["G", "T"], Some(67.0), &["PASS"]),
        record("20", ".", "T", &[], None, &["PASS"]),
        record("20", "ms1", "GTC", &["G"], Some(50.0), &["q10", "s50"]),
        record("X", "rs3", "A", &["ATG"], None, &[]),
        record("X", "rs4", "AC", &["GT"], Some(10.0), &["PASS"]),
    ]
}

fn compute(records: &Vec<Variant>) -> VcfStatistics {
    VcfStatistics::compute(
        records,
        "VCFv4.2".to_string(),
        "GRCh38".to_string(),
        vec!["20".to_string(), "X".to_string()],
        3,
    )
    .unwrap()
}

#[test]
fn classify_sorts_by_allele_lengths() {
    assert_eq!(kind("G", &["A"]), VariantType::Snp);
    assert_eq!(kind("A", &["ATG"]), VariantType::Insertion);
    assert_eq!(kind("GTC", &["G"]), VariantType::Deletion);
    assert_eq!(kind("AC", &["GT"]), VariantType::Mnp);
    assert_eq!(kind("A", &["G", "T"]), VariantType::Complex);
    assert_eq!(kind("GTC", &["G", "GTCT"]), VariantType::Complex);
}

#[test]
fn classify_counts_the_rest_as_complex() {
    assert_eq!(kind("T", &[]), VariantType::Complex);
    assert_eq!(kind("", &[""]), VariantType::Complex);
    assert_eq!(kind("", &["A"]), VariantType::Insertion);
    assert_eq!(kind("A", &[""]), VariantType::Deletion);
}

#[test]
fn tally_counts_names() {
    let mut tally = Tally::new();
    assert_eq!(tally.get("20"), 0);
    assert!(tally.bump("20"));
    assert!(tally.bump("X"));
    assert!(tally.bump("20"));
    assert_eq!(tally.get("20"), 2);
    assert_eq!(tally.get("X"), 1);
    assert_eq!(tally.get("Y"), 0);
    assert_eq!(tally.rows, vec![("20".to_string(), 2), ("X".to_string(), 1)]);
    assert_eq!(tally.counted, 3);
}

#[test]
fn a_full_tally_counts_no_more() {
    let mut tally = Tally { rows: vec![("20".to_string(), u64::MAX)], counted: u64::MAX };
    let before = tally.clone();
    assert!(!tally.bump("20"));
    assert!(!tally.bump("X"));
    assert_eq!(tally, before);
    let mut nearly = Tally { rows: vec![("20".to_string(), u64::MAX - 1)], counted: u64::MAX - 1 };
    let tags = vec!["a".to_string(), "b".to_string()];
    assert!(!bump_all(&mut nearly, &tags));
    assert_eq!(nearly.rows.len(), 1);
    assert!(nearly.bump("20"));
    assert_eq!(nearly.get("20"), u64::MAX);
}

#[test]
fn bump_all_counts_each_tag_each_time() {
    let mut tally = Tally::new();
    let tags: Vec<String> = ["q10", "s50", "q10"].iter().map(|s| s.to_string()).collect();
    assert!(bump_all(&mut tally, &tags));
    assert_eq!(tally.get("q10"), 2);
    assert_eq!(tally.get("s50"), 1);
    assert!(bump_all(&mut tally, &Vec::new()));
    assert_eq!(tally.get("q10"), 2);
    assert_eq!(tally.counted, 3);
}

#[test]
fn new_statistics_count_nothing() {
    let stats = compute(&Vec::new());
    assert_eq!(stats.total_variants, 0);
    assert_eq!(stats.unique_ids + stats.missing_ids, 0);
    assert!(stats.variants_per_chromosome.rows.is_empty());
    assert!(stats.filter_counts.rows.is_empty());
    assert_eq!(stats.file_format, "VCFv4.2");
    assert_eq!(stats.reference_genome, "GRCh38");
    assert_eq!(stats.chromosome_count, 2);
    assert_eq!(stats.sample_count, 3);
}

#[test]
fn compute_counts_the_sample() {
    let stats = compute(&sample());
    assert_eq!(stats.total_variants, 7);
    assert_eq!(stats.variants_per_chromosome.get("20"), 5);
    assert_eq!(stats.variants_per_chromosome.get("X"), 2);
    assert_eq!(stats.variants_per_chromosome.get("Y"), 0);
    assert_eq!(stats.unique_ids, 5);
    assert_eq!(stats.missing_ids, 2);
    assert_eq!(stats.with_quality, 5);
    assert_eq!(stats.filter_counts.get("PASS"), 4);
    assert_eq!(stats.filter_counts.get("q10"), 2);
    assert_eq!(stats.filter_counts.get("s50"), 1);
    assert_eq!(stats.variant_types.snps, 2);
    assert_eq!(stats.variant_types.insertions, 1);
    assert_eq!(stats.variant_types.deletions, 1);
    assert_eq!(stats.variant_types.mnps, 1);
    assert_eq!(stats.variant_types.complex, 2);
}

#[test]
fn counts_add_up_to_the_total() {
    let stats = compute(&sample());
    let per_chromosome: u64 = stats.variants_per_chromosome.rows.iter().map(|row| row.1).sum();
    assert_eq!(per_chromosome, stats.total_variants);
    assert_eq!(stats.unique_ids + stats.missing_ids, stats.total_variants);
    let types = stats.variant_types;
    assert_eq!(
        types.snps + types.insertions + types.deletions + types.mnps + types.complex,
        stats.total_variants
    );
}

#[test]
fn observe_leaves_full_counters_alone() {
    let mut stats = compute(&sample());
    stats.filter_counts.rows[0].1 += u64::MAX - 7;
    stats.filter_counts.counted = u64::MAX;
    let before = stats.clone();
    assert!(!stats.observe(&record("Y", ".", "A", &["C"], None, &["PASS"])));
    assert_eq!(stats, before);
    assert!(stats.observe(&record("Y", ".", "A", &["C"], None, &[])));
    assert_eq!(stats.total_variants, 8);
}

#[test]
fn observe_counts_one_record() {
    let mut stats = compute(&sample());
    assert!(stats.observe(&record("Y", ".", "A", &["C"], Some(1.0), &["PASS", "PASS"])));
    assert_eq!(stats.total_variants, 8);
    assert_eq!(stats.variants_per_chromosome.get("Y"), 1);
    assert_eq!(stats.missing_ids, 3);
    assert_eq!(stats.unique_ids, 5);
    assert_eq!(stats.with_quality, 6);
    assert_eq!(stats.variant_types.snps, 3);
    assert_eq!(stats.filter_counts.get("PASS"), 6);
    assert_eq!(stats.chromosomes, vec!["20", "X"]);
}
