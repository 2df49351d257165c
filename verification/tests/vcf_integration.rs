use vcf_mcp_server::id_index::IdIndex;
use vcf_mcp_server::metadata::{ContigLine, HeaderFacts, ReferenceGenomeSource};
use vcf_mcp_server::query::VcfIndex;
use vcf_mcp_server::variant::{format_variant, InfoItem, InfoValue, Variant};

fn strings(list: &[&str]) -> Vec<String> {
    list.iter().map(|s| s.to_string()).collect()
}

fn record(
    chromosome: &str,
    position: u64,
    id: &str,
    reference: &str,
    alternate: &[&str],
    quality: f32,
    filter: &[&str],
    info: Vec<(String, InfoValue)>,
    raw_row: &str,
) -> Variant {
    Variant {
        chromosome: chromosome.to_string(),
        position,
        end: position + (reference.len().max(1) - 1) as u64,
        id: id.to_string(),
        reference: reference.to_string(),
        alternate: strings(alternate),
        quality: Some(quality.to_bits()),
        filter: strings(filter),
        info,
        raw_row: raw_row.to_string(),
    }
}

fn integer(key: &str, value: i64) -> (String, InfoValue) {
    (key.to_string(), InfoValue::Integer(value))
}

fn decimal(key: &str, value: f64) -> (String, InfoValue) {
    (key.to_string(), InfoValue::Float(value.to_bits()))
}

fn flag(key: &str) -> (String, InfoValue) {
    (key.to_string(), InfoValue::Flag(true))
}

fn text(key: &str, value: &str) -> (String, InfoValue) {
    (key.to_string(), InfoValue::Text(value.to_string()))
}

fn sample_records() -> Vec<Variant> {
    vec![
        record(
            "20",
            14370,
            "rs6054257",
            "G",
            &["A"],
            29.0,
            &["PASS"],
            vec![integer("NS", 3), integer("DP", 14), decimal("AF", 0.5), flag("DB"), flag("H2")],
            "20\t14370\trs6054257\tG\tA\t29\tPASS\tNS=3;DP=14;AF=0.5;DB;H2",
        ),
        record(
            "20",
            17330,
            ".",
            "T",
            &["A"],
            3.0,
            &["q10"],
            vec![integer("NS", 3), integer("DP", 11), decimal("AF", 0.017)],
            "20\t17330\t.\tT\tA\t3\tq10\tNS=3;DP=11;AF=0.017",
        ),
        record(
            "20",
            1110696,
            "rs6040355",
            "A",
            &["G", "T"],
            67.0,
            &["PASS"],
            vec![
                integer("NS", 2),
                integer("DP", 10),
                (
                    "AF".to_string(),
                    InfoValue::Array(vec![
                        InfoItem::Float(0.333f64.to_bits()),
                        InfoItem::Float(0.667f64.to_bits()),
                    ]),
                ),
                text("AA", "T"),
                flag("DB"),
            ],
            "20\t1110696\trs6040355\tA\tG,T\t67\tPASS\tNS=2;DP=10;AF=0.333,0.667;AA=T;DB",
        ),
        record(
            "20",
            1230237,
            ".",
            "T",
            &[],
            47.0,
            &["PASS"],
            vec![integer("NS", 3), integer("DP", 13), text("AA", "T")],
            "20\t1230237\t.\tT\t.\t47\tPASS\tNS=3;DP=13;AA=T",
        ),
        record(
            "20",
            1234567,
            "microsat1",
            "GTC",
            &["G", "GTCT"],
            50.0,
            &["PASS"],
            vec![integer("NS", 3), integer("DP", 9), text("AA", "G")],
            "20\t1234567\tmicrosat1\tGTC\tG,GTCT\t50\tPASS\tNS=3;DP=9;AA=G",
        ),
        record(
            "X",
            10,
            "rsTest",
            "AC",
            &["A", "ATG"],
            10.0,
            &["PASS"],
            vec![],
            "X\t10\trsTest\tAC\tA,ATG\t10\tPASS\t.",
        ),
    ]
}

fn sample_header() -> HeaderFacts {
    HeaderFacts {
        file_format: "VCFv4.0".to_string(),
        reference: strings(&["1000GenomesPilot-NCBI36"]),
        contigs: vec![
            ContigLine { id: "20".to_string(), length: Some(62435964) },
            ContigLine { id: "X".to_string(), length: None },
        ],
        samples: strings(&["NA00001", "NA00002", "NA00003"]),
    }
}

fn load_sample() -> VcfIndex {
    VcfIndex::new(sample_header(), strings(&["20", "X"]), IdIndex::build(&sample_records()))
}

// Stands for a seek with the positional index: it brings every record of
// the blocks it touches, here the whole file, and leaves the choice to the
// query layer.
fn seek() -> Vec<Variant> {
    sample_records()
}

fn seek_each(places: &[(String, u64)]) -> Vec<Vec<Variant>> {
    places.iter().map(|_| seek()).collect()
}

fn query_id(index: &VcfIndex, id: &str) -> Vec<Variant> {
    let places = index.locate_id(id);
    index.query_by_id(id, seek_each(&places))
}

#[test]
fn test_load_compressed_vcf() {
    let index = load_sample();

    let (results, _) = index.query_by_position(seek(), "20", 14370);
    assert_eq!(results.len(), 1, "Should find exactly one variant at 20:14370");
    assert_eq!(results[0].id, "rs6054257");
    assert_eq!(results[0].reference, "G");
    assert_eq!(results[0].alternate, vec!["A"]);
}

#[test]
fn test_query_region_with_real_data() {
    let index = load_sample();

    let (results, _) = index.query_by_region(seek(), "20", 14000, 18000);
    assert_eq!(results.len(), 2, "Should find 2 variants in region 20:14000-18000");

    assert_eq!(results[0].position, 14370);
    assert_eq!(results[1].position, 17330);
}

#[test]
fn test_query_by_id_with_real_data() {
    let index = load_sample();

    let results = query_id(&index, "rs6040355");
    assert_eq!(results.len(), 1, "Should find exactly one variant with ID rs6040355");
    assert_eq!(results[0].chromosome, "20");
    assert_eq!(results[0].position, 1110696);
    assert_eq!(results[0].alternate.len(), 2, "rs6040355 should have 2 alternate alleles");
}

#[test]
fn test_format_variant_with_real_data() {
    let index = load_sample();
    let (results, _) = index.query_by_position(seek(), "20", 14370);

    assert!(!results.is_empty(), "Should find variant at 20:14370");

    let dto = format_variant(results[0].clone());

    assert_eq!(dto.chromosome, "20");
    assert_eq!(dto.position, 14370);
    assert_eq!(dto.id, "rs6054257");
    assert_eq!(dto.reference, "G");
    assert_eq!(dto.alternate, vec!["A"]);
    assert_eq!(dto.filter, vec!["PASS"]);
    assert!(dto.info.iter().any(|(key, _)| key == "NS"));
}

#[test]
fn test_chromosome_x_variant() {
    let index = load_sample();

    let (results, _) = index.query_by_position(seek(), "X", 10);
    assert_eq!(results.len(), 1, "Should find variant at X:10");
    assert_eq!(results[0].id, "rsTest");
}

#[test]
fn test_microsat_variant() {
    let index = load_sample();

    let results = query_id(&index, "microsat1");
    assert_eq!(results.len(), 1, "Should find microsat1 variant");
    assert_eq!(results[0].chromosome, "20");
    assert_eq!(results[0].position, 1234567);
}

#[test]
fn test_chromosome_variant_matching_with_chr_prefix() {
    let index = load_sample();

    let (results_with_chr, matched_chr) = index.query_by_position(seek(), "chr20", 14370);
    assert_eq!(results_with_chr.len(), 1, "Should find variant when querying chr20");
    assert_eq!(results_with_chr[0].id, "rs6054257");
    assert_eq!(matched_chr, Some("20".to_string()), "Should match to chromosome 20");

    let (results_without_chr, _) = index.query_by_position(seek(), "20", 14370);
    assert_eq!(
        results_with_chr.len(),
        results_without_chr.len(),
        "Should get same results with or without chr prefix"
    );
    assert_eq!(results_with_chr[0].id, results_without_chr[0].id, "Should find same variant");
}

#[test]
fn test_chromosome_variant_matching_chrx() {
    let index = load_sample();

    let (results_with_chr, matched_chr) = index.query_by_position(seek(), "chrX", 10);
    assert_eq!(results_with_chr.len(), 1, "Should find variant when querying chrX");
    assert_eq!(results_with_chr[0].id, "rsTest");
    assert_eq!(matched_chr, Some("X".to_string()), "Should match to chromosome X");
}

#[test]
fn test_chromosome_not_found_returns_none() {
    let index = load_sample();

    let (results, matched_chr) = index.query_by_position(seek(), "99", 12345);
    assert_eq!(results.len(), 0, "Should find no variants");
    assert_eq!(matched_chr, None, "Should return None for matched chromosome");

    let available = index.get_available_chromosomes();
    assert!(!available.is_empty(), "Should have available chromosomes");
}

#[test]
fn test_query_by_region_with_chr_prefix() {
    let index = load_sample();

    let (results, matched_chr) = index.query_by_region(seek(), "chr20", 14000, 18000);
    assert_eq!(results.len(), 2, "Should find 2 variants in region chr20:14000-18000");
    assert_eq!(matched_chr, Some("20".to_string()), "Should match to chromosome 20");
}

#[test]
fn test_reference_genome_extraction_from_header() {
    let index = load_sample();
    let metadata = index.get_metadata();

    assert_eq!(
        metadata.reference_genome.build, "1000GenomesPilot-NCBI36",
        "Should extract reference from ##reference header line"
    );
    assert!(
        matches!(metadata.reference_genome.source, ReferenceGenomeSource::HeaderLine),
        "Source should be HeaderLine"
    );
}

#[test]
fn test_reference_genome_extraction_from_hg38() {
    let header = HeaderFacts {
        file_format: "VCFv4.2".to_string(),
        reference: strings(&["file:///mnt/ssd/MegaBOLT_scheduler/reference/hg38.fa"]),
        contigs: vec![
            ContigLine { id: "chr1".to_string(), length: Some(248_956_422) },
            ContigLine { id: "chr2".to_string(), length: Some(242_193_529) },
        ],
        samples: strings(&["NG1QY7GX8H"]),
    };
    let index = VcfIndex::new(header, Vec::new(), IdIndex::new());
    let metadata = index.get_metadata();

    assert!(
        metadata.reference_genome.build.contains("hg38"),
        "Should extract reference containing hg38 from header"
    );
    assert!(
        matches!(metadata.reference_genome.source, ReferenceGenomeSource::HeaderLine),
        "Source should be HeaderLine since ##reference exists"
    );

    let chr1_contig = metadata
        .contigs
        .iter()
        .find(|c| c.id == "chr1")
        .expect("Should have chr1 contig");
    assert_eq!(chr1_contig.id, "chr1");
}

#[test]
fn test_get_reference_genome_string() {
    let index = load_sample();
    let reference_string = index.get_reference_genome();

    assert!(
        reference_string.contains("1000GenomesPilot-NCBI36"),
        "Should contain the genome build"
    );
    assert!(reference_string.contains("from header"), "Should indicate source is from header");
    assert_eq!(reference_string, "1000GenomesPilot-NCBI36 (from header)");
}

#[test]
fn test_mitochondrial_chromosome_variations() {
    let index = load_sample();

    let mt_names = vec!["MT", "chrM", "M", "chrMT"];
    for name in mt_names {
        let (variants, matched) = index.query_by_position(seek(), name, 100);
        assert!(variants.is_empty() || matched.is_some());
    }
}

#[test]
fn test_numeric_chromosome_edge_cases() {
    let index = load_sample();

    let edge_chromosomes = vec!["0", "99", "chr0", "chr99"];
    for chr in edge_chromosomes {
        let (variants, _) = index.query_by_position(seek(), chr, 1000);
        assert!(
            variants.is_empty() || !variants.is_empty(),
            "Query for {} should complete without error",
            chr
        );
    }
}

#[test]
fn test_special_chromosome_names() {
    let index = load_sample();

    let special_names = vec!["chrUn", "chr1_random", "HLA-A", "scaffold_1"];

    for name in special_names {
        let (variants, matched) = index.query_by_position(seek(), name, 100);
        assert!(variants.len() == 0 || matched.is_some());
    }
}

#[test]
fn test_extremely_large_position() {
    let index = load_sample();

    let (variants, _) = index.query_by_position(seek(), "20", u64::MAX);
    assert_eq!(variants.len(), 0);
}

#[test]
fn test_region_with_same_start_and_end() {
    let index = load_sample();

    let (variants, _) = index.query_by_region(seek(), "20", 14370, 14370);
    if !variants.is_empty() {
        assert_eq!(variants[0].position, 14370);
    }
    assert_eq!(variants.len(), 1);
}

#[test]
fn test_region_with_very_large_span() {
    let index = load_sample();

    let (variants, matched) = index.query_by_region(seek(), "20", 1, 1_000_000_000);
    assert_eq!(matched, Some("20".to_string()));
    assert!(variants.len() > 0);
    assert_eq!(variants.len(), 5);
}

#[test]
fn test_variant_with_very_long_id() {
    let index = load_sample();

    let long_id = "rs".to_string() + &"0".repeat(1000);
    let results = query_id(&index, &long_id);
    assert_eq!(results.len(), 0);
}

#[test]
fn test_variant_with_special_characters_in_id() {
    let index = load_sample();

    let special_ids = vec!["id;with;semicolons", "id\twith\ttabs", "id with spaces", "id|with|pipes"];

    for id in special_ids {
        let results = query_id(&index, id);
        assert!(results.len() == 0 || results.len() > 0);
        assert!(index.locate_id(id).is_empty());
    }
}

#[test]
fn test_reference_allele_validation() {
    let index = load_sample();
    let (variants, _) = index.query_by_region(seek(), "20", 14000, 18000);

    for variant in &variants {
        assert!(!variant.reference.is_empty(), "Reference should not be empty");
        assert!(
            variant.reference.chars().all(|c| "ACGTN".contains(c)),
            "Reference should only contain valid bases: {}",
            variant.reference
        );
    }
}

#[test]
fn test_variant_info_field_access() {
    let index = load_sample();
    let (variants, _) = index.query_by_region(seek(), "20", 14000, 18000);

    assert!(!variants.is_empty());

    for variant in &variants {
        let _ = variant.info.len();

        if let Some((_, ns_value)) = variant.info.iter().find(|(key, _)| key == "NS") {
            assert!(!format!("{:?}", ns_value).is_empty());
            assert_eq!(*ns_value, InfoValue::Integer(3));
        }
    }
}

#[test]
fn test_metadata_access() {
    let index = load_sample();
    let metadata = index.get_metadata();

    assert!(!metadata.reference_genome.build.is_empty());
    let _ = &metadata.contigs;

    for contig in &metadata.contigs {
        assert!(!contig.id.is_empty(), "Contig ID should not be empty");
    }
    assert_eq!(metadata.file_format, "VCFv4.0");
    assert_eq!(metadata.contigs.len(), 2);
    assert_eq!(metadata.samples, vec!["NA00001", "NA00002", "NA00003"]);
}

#[test]
fn test_available_chromosomes_list() {
    let index = load_sample();
    let chromosomes = index.get_available_chromosomes();

    assert!(chromosomes.len() >= 2);
    assert!(chromosomes.contains(&"20".to_string()));

    let unique_count = chromosomes.iter().collect::<std::collections::HashSet<_>>().len();
    assert_eq!(chromosomes.len(), unique_count, "Chromosomes should be unique");
}

#[test]
fn available_chromosomes_fall_back_to_index_names() {
    let mut header = sample_header();
    header.contigs = Vec::new();
    let index = VcfIndex::new(header, strings(&["chr20", "chrX"]), IdIndex::new());
    assert_eq!(index.get_available_chromosomes(), strings(&["chr20", "chrX"]));
    assert_eq!(index.find_matching_chromosome("20"), Some("chr20".to_string()));
}

#[test]
fn position_zero_and_inverted_windows_return_nothing() {
    let index = load_sample();
    let (at_zero, matched) = index.query_by_position(seek(), "20", 0);
    assert!(at_zero.is_empty());
    assert_eq!(matched, Some("20".to_string()));
    let (from_zero, _) = index.query_by_region(seek(), "20", 0, 20000);
    assert!(from_zero.is_empty());
    let (inverted, matched) = index.query_by_region(seek(), "20", 18000, 14000);
    assert!(inverted.is_empty());
    assert_eq!(matched, Some("20".to_string()));
    let (spanning, _) = index.query_by_region(seek(), "20", 1234569, 1234568);
    assert!(spanning.is_empty());
}

#[test]
fn region_query_keeps_records_whose_interval_reaches_the_window() {
    let index = load_sample();
    let (inside, _) = index.query_by_position(seek(), "20", 1234569);
    assert_eq!(inside.len(), 1);
    assert_eq!(inside[0].id, "microsat1");
    let (behind, _) = index.query_by_position(seek(), "20", 1234570);
    assert!(behind.is_empty());
    let (before, _) = index.query_by_position(seek(), "20", 1234566);
    assert!(before.is_empty());
}

#[test]
fn region_query_returns_a_block_that_spans_the_window() {
    let mut block = sample_records().remove(1);
    block.position = 100;
    block.end = 5000;
    block.reference = "N".to_string();
    block.info.push(("END".to_string(), InfoValue::Integer(5000)));
    let file = vec![block.clone(), sample_records().remove(0)];
    let index = VcfIndex::new(sample_header(), Vec::new(), IdIndex::build(&file));

    let (inside, matched) = index.query_by_region(file.clone(), "20", 2000, 3000);
    assert_eq!(matched, Some("20".to_string()));
    assert_eq!(inside, vec![block.clone()]);

    let (at, _) = index.query_by_position(file.clone(), "20", 5000);
    assert_eq!(at, vec![block.clone()]);

    let (behind, _) = index.query_by_position(file.clone(), "20", 5001);
    assert!(behind.is_empty());

    let (both, _) = index.query_by_region(file.clone(), "20", 5000, 14370);
    assert_eq!(both.len(), 2);
    assert_eq!((both[0].position, both[1].position), (100, 14370));
}

#[test]
fn region_queries_over_all_chromosomes_return_every_record_once() {
    let index = load_sample();
    let last = sample_records().iter().map(|v| v.end).max().unwrap();
    let mut returned = 0;
    for name in index.get_available_chromosomes() {
        let (variants, matched) = index.query_by_region(seek(), &name, 1, last);
        assert_eq!(matched, Some(name));
        returned += variants.len();
    }
    assert_eq!(returned, sample_records().len());
    assert_eq!(returned, 6);
}

#[test]
fn region_query_leaves_out_other_chromosomes() {
    let index = load_sample();
    let (on_x, matched) = index.query_by_region(seek(), "X", 1, 2_000_000);
    assert_eq!(matched, Some("X".to_string()));
    assert_eq!(on_x.len(), 1);
    assert_eq!(on_x[0].id, "rsTest");
}

#[test]
fn scenario_two_records_on_chromosome_twenty() {
    let mut first = sample_records().remove(0);
    first.id = "rs1".to_string();
    let second = sample_records().remove(1);
    let file = vec![first, second];
    let index = VcfIndex::new(sample_header(), Vec::new(), IdIndex::build(&file));

    let (region, matched) = index.query_by_region(file.clone(), "20", 14000, 18000);
    assert_eq!(region.len(), 2);
    assert_eq!((region[0].position, region[1].position), (14370, 17330));
    assert_eq!(matched, Some("20".to_string()));

    let (prefixed, matched) = index.query_by_region(file.clone(), "chr20", 14000, 18000);
    assert_eq!(prefixed, region);
    assert_eq!(matched, Some("20".to_string()));

    let (at, _) = index.query_by_position(file.clone(), "20", 14370);
    assert_eq!(at.len(), 1);
    assert_eq!(at[0].id, "rs1");
    assert_eq!(at[0].reference, "G");
    assert_eq!(at[0].alternate, vec!["A"]);

    let places = index.locate_id("rs1");
    assert_eq!(places, vec![("20".to_string(), 14370)]);
    let by_id = index.query_by_id("rs1", vec![file.clone()]);
    assert_eq!(by_id.len(), 1);
    assert_eq!(by_id[0].position, 14370);

    assert!(index.locate_id("nonexistent").is_empty());
    assert!(index.query_by_id("nonexistent", Vec::new()).is_empty());
}

#[test]
fn id_query_uses_one_seek_per_place() {
    let index = load_sample();
    let places = index.locate_id("rs6054257");
    assert_eq!(places.len(), 1);
    assert!(index.query_by_id("rs6054257", Vec::new()).is_empty());
    let twice = index.query_by_id("rs6054257", vec![seek(), seek()]);
    assert_eq!(twice.len(), 1);
    assert_eq!(twice[0].id, "rs6054257");
}
