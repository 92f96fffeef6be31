use alnflt::AlnRecord;
use alnflt::Opt;
use alnflt::Strand;
use alnflt::filter_records;

fn no_filters() -> Opt {
    Opt {
        input: None,
        threads: 1,
        output: None,
        filter_strand: None,
        min_mapping_quality: None,
        min_insertsize: None,
        max_insertsize: None,
    }
}

fn sample_records() -> Vec<AlnRecord> {
    vec![
        AlnRecord { mapping_quality: 0, strand: Strand::Forward, insert_size: 0 },
        AlnRecord { mapping_quality: 15, strand: Strand::Reverse, insert_size: -250 },
        AlnRecord { mapping_quality: 30, strand: Strand::Forward, insert_size: 250 },
        AlnRecord { mapping_quality: 60, strand: Strand::Reverse, insert_size: 1000 },
    ]
}

#[test]
fn identity_filter_passes_everything() {
    let opt = no_filters();
    let records = sample_records();
    for r in &records {
        assert!(opt.decide(r));
    }
    let out = filter_records(&opt, &records);
    assert_eq!(out, records);
}

#[test]
fn quality_bound_is_inclusive() {
    let opt = Opt { min_mapping_quality: Some(30), ..no_filters() };
    let at_bound = AlnRecord { mapping_quality: 30, strand: Strand::Forward, insert_size: 0 };
    let below = AlnRecord { mapping_quality: 29, strand: Strand::Forward, insert_size: 0 };
    assert!(opt.decide(&at_bound));
    assert!(!opt.decide(&below));
}

#[test]
fn raising_quality_bound_never_increases_count() {
    let records = sample_records();
    let mut last_count = usize::MAX;
    for bound in [0u8, 10, 20, 40, 61] {
        let opt = Opt { min_mapping_quality: Some(bound), ..no_filters() };
        let count = filter_records(&opt, &records).len();
        assert!(count <= last_count);
        last_count = count;
    }
    assert_eq!(last_count, 0);
}

#[test]
fn strand_forward_rejects_reverse() {
    let opt = Opt { filter_strand: Some(Strand::Forward), ..no_filters() };
    let fwd = AlnRecord { mapping_quality: 10, strand: Strand::Forward, insert_size: 0 };
    let rev = AlnRecord { mapping_quality: 10, strand: Strand::Reverse, insert_size: 0 };
    assert!(opt.decide(&fwd));
    assert!(!opt.decide(&rev));
}

#[test]
fn strand_reverse_rejects_forward() {
    let opt = Opt { filter_strand: Some(Strand::Reverse), ..no_filters() };
    let fwd = AlnRecord { mapping_quality: 10, strand: Strand::Forward, insert_size: 0 };
    let rev = AlnRecord { mapping_quality: 10, strand: Strand::Reverse, insert_size: 0 };
    assert!(!opt.decide(&fwd));
    assert!(opt.decide(&rev));
}

#[test]
fn absent_strand_filter_has_no_effect() {
    let opt = Opt { min_mapping_quality: Some(5), ..no_filters() };
    let fwd = AlnRecord { mapping_quality: 10, strand: Strand::Forward, insert_size: 7 };
    let rev = AlnRecord { mapping_quality: 10, strand: Strand::Reverse, insert_size: 7 };
    assert_eq!(opt.decide(&fwd), opt.decide(&rev));
    assert!(opt.decide(&fwd));
}

#[test]
fn insert_size_sign_is_ignored() {
    let configs = [
        (None, None),
        (Some(100), None),
        (None, Some(400)),
        (Some(100), Some(400)),
        (Some(301), None),
        (None, Some(299)),
    ];
    for (lo, hi) in configs {
        let opt = Opt { min_insertsize: lo, max_insertsize: hi, ..no_filters() };
        let pos = AlnRecord { mapping_quality: 10, strand: Strand::Forward, insert_size: 300 };
        let neg = AlnRecord { mapping_quality: 10, strand: Strand::Forward, insert_size: -300 };
        assert_eq!(opt.decide(&pos), opt.decide(&neg));
    }
}

#[test]
fn insert_size_bounds_are_inclusive() {
    let opt = Opt { min_insertsize: Some(200), max_insertsize: Some(300), ..no_filters() };
    let at_min = AlnRecord { mapping_quality: 10, strand: Strand::Forward, insert_size: -200 };
    let at_max = AlnRecord { mapping_quality: 10, strand: Strand::Forward, insert_size: 300 };
    let under = AlnRecord { mapping_quality: 10, strand: Strand::Forward, insert_size: 199 };
    let over = AlnRecord { mapping_quality: 10, strand: Strand::Forward, insert_size: -301 };
    assert!(opt.decide(&at_min));
    assert!(opt.decide(&at_max));
    assert!(!opt.decide(&under));
    assert!(!opt.decide(&over));
}

#[test]
fn zero_insert_size_passes_zero_bounds() {
    let opt = Opt { min_insertsize: Some(0), max_insertsize: Some(0), ..no_filters() };
    let zero = AlnRecord { mapping_quality: 10, strand: Strand::Forward, insert_size: 0 };
    assert!(opt.decide(&zero));
}

#[test]
fn contradictory_bounds_reject_every_record() {
    let opt = Opt { min_insertsize: Some(500), max_insertsize: Some(100), ..no_filters() };
    for r in &sample_records() {
        assert!(!opt.decide(r));
    }
    let out = filter_records(&opt, &sample_records());
    assert_eq!(out, Vec::new());
}

#[test]
fn most_negative_insert_size_has_huge_magnitude() {
    let extreme = AlnRecord {
        mapping_quality: 10,
        strand: Strand::Forward,
        insert_size: i64::MIN,
    };
    let min_only = Opt { min_insertsize: Some(i64::MAX), ..no_filters() };
    assert!(min_only.decide(&extreme));
    let max_only = Opt { max_insertsize: Some(i64::MAX), ..no_filters() };
    assert!(!max_only.decide(&extreme));
}
