use credit_data_simulator::config::{CoreBankingConfig, Ratio};
use credit_data_simulator::core_banking::{
    CalendarDate, CoreBankingState, GenerateCreditsRequest, ListCreditsParams, LoadCreditsRequest,
    UpdateConfigRequest, date_in_window, is_stream_listing, next_cursor_if_any, parse_cursor, parse_date_opt,
    within_cutoff,
};
use credit_data_simulator::credit::{CreditRecord, NameCatalog, parse_names};
use credit_data_simulator::random::RngState;

fn ratio(p: f64) -> Ratio {
    Ratio { threshold: (p.clamp(0.0, 1.0) * u64::MAX as f64) as u64 }
}

fn names() -> NameCatalog {
    NameCatalog::parse("Budi, Agus ,Joko", "Santoso, Wijaya", "Siti,Dewi", "Rahayu, Lestari")
}

fn params() -> ListCreditsParams {
    ListCreditsParams {
        page: None,
        page_size: None,
        cursor: None,
        cutoff_start: None,
        cutoff_end: None,
        mode: None,
        stream_chunk_size: None,
    }
}

#[test]
fn test_credit_record_generate_clean() {
    let mut rng = RngState::from_seed(42);
    let record = CreditRecord::generate_clean(&mut rng, 1, &names());

    assert_eq!(record.id, "CR0000000001");
    assert_eq!(record.nik.len(), 16);
    assert!(record.nik.chars().all(|c| c.is_numeric()));
    assert!(!record.nama_lengkap.is_empty());
    assert_eq!(record.mata_uang, "IDR");
    assert!(record.jumlah_kredit > 0);
    assert!(record.saldo_outstanding <= record.jumlah_kredit);
    assert!((1..=5).contains(&record.kolektabilitas));
    assert!(record._has_error.is_none());
}

#[test]
fn test_credit_record_inject_invalid_nik() {
    let mut rng = RngState::from_seed(42);
    let record = CreditRecord::generate_clean(&mut rng, 1, &names()).inject_error(&mut rng, "invalid_nik");

    assert_eq!(record._has_error, Some(true));
    assert_eq!(record._error_type, Some("invalid_nik".to_string()));
    assert!(record.nik.len() != 16 || !record.nik.chars().all(|c| c.is_numeric()));
}

#[test]
fn test_credit_record_inject_negative_amount() {
    let mut rng = RngState::from_seed(42);
    let record = CreditRecord::generate_clean(&mut rng, 1, &names()).inject_error(&mut rng, "negative_amount");

    assert_eq!(record._has_error, Some(true));
    assert!(record.jumlah_kredit < 0);
}

#[test]
fn test_credit_record_inject_invalid_date() {
    let mut rng = RngState::from_seed(42);
    let record = CreditRecord::generate_clean(&mut rng, 1, &names()).inject_error(&mut rng, "invalid_date");

    assert_eq!(record._has_error, Some(true));
    let invalid_start = record.tanggal_mulai == "2024-13-45" || record.tanggal_mulai == "not-a-date";
    let invalid_end = record.tanggal_jatuh_tempo.is_empty();
    assert!(invalid_start || invalid_end);
}

#[test]
fn test_state_generate_records_deterministic() {
    let config = CoreBankingConfig::default();

    let mut state1 = CoreBankingState::new(config.clone(), names());
    let records1 = CoreBankingState::generate_records(100, ratio(0.1), Some(12345), 0, &names());
    state1.insert_records(records1);

    let mut state2 = CoreBankingState::new(config, names());
    let records2 = CoreBankingState::generate_records(100, ratio(0.1), Some(12345), 0, &names());
    state2.insert_records(records2);

    assert_eq!(state1.records.len(), state2.records.len());
    for r1 in &state1.records {
        let r2 = state2.get_credit(&r1.id).expect("Record missing in state2");
        assert_eq!(r1.id, r2.id);
        assert_eq!(r1.nik, r2.nik);
        assert_eq!(r1.jumlah_kredit, r2.jumlah_kredit);
        assert_eq!(r1._has_error, r2._has_error);
    }
}

#[test]
fn test_within_cutoff() {
    let ts = "2024-01-15T10:00:00Z";
    let jan1 = CalendarDate { year: 2024, month: 1, day: 1 };
    let jan31 = CalendarDate { year: 2024, month: 1, day: 31 };
    let feb1 = CalendarDate { year: 2024, month: 2, day: 1 };
    assert!(within_cutoff(ts, Some(jan1), Some(jan31)));
    assert!(!within_cutoff(ts, Some(feb1), None));
}

#[test]
fn cursors_are_offsets() {
    assert_eq!(parse_cursor(&Some("40".to_string())), 40);
    assert_eq!(parse_cursor(&Some("x".to_string())), 0);
    assert_eq!(parse_cursor(&None), 0);
    assert_eq!(next_cursor_if_any(10, 5, 20), Some("15".to_string()));
    assert_eq!(next_cursor_if_any(10, 10, 20), None);
    assert_eq!(next_cursor_if_any(usize::MAX, 1, 5), None);
}

#[test]
fn names_are_trimmed_and_empty_ones_dropped() {
    assert_eq!(parse_names(" Budi ,, Agus\n,  "), vec!["Budi".to_string(), "Agus".to_string()]);
    assert!(parse_names("").is_empty());
}

#[test]
fn bad_cutoffs_are_refused() {
    assert_eq!(parse_date_opt(&Some("2024-02-30".to_string())), Err("invalid date format"));
    assert_eq!(parse_date_opt(&None), Ok(None));
    assert_eq!(
        parse_date_opt(&Some("2024-02-03".to_string())),
        Ok(Some(CalendarDate { year: 2024, month: 2, day: 3 }))
    );
    assert!(!within_cutoff("not a time", None, None));
}

#[test]
fn pages_walk_the_dataset_with_cursors() {
    let mut config = CoreBankingConfig::default();
    config.default_record_count = 25;
    config.seed = Some(7);
    config.default_dirty_ratio = ratio(0.0);
    let mut state = CoreBankingState::new(config, names());
    state.start();
    assert!(state.ready);
    assert_eq!(state.records.len(), 25);
    let mut p = params();
    p.page_size = Some(10);
    let first = state.list_page(&p, None, None);
    assert_eq!(first.records.len(), 10);
    assert_eq!(first.total_count, 25);
    assert_eq!(first.next_cursor, Some("10".to_string()));
    p.cursor = first.next_cursor.clone();
    let second = state.list_page(&p, None, None);
    assert_eq!(second.records[0].id, "CR0000000010");
    p.cursor = Some("20".to_string());
    let last = state.list_page(&p, None, None);
    assert_eq!(last.records.len(), 5);
    assert_eq!(last.next_cursor, None);
    // Every clean record was last updated in January 2024.
    let jan = Some(CalendarDate { year: 2024, month: 1, day: 1 });
    assert_eq!(state.count_credits(jan, None), 25);
    assert_eq!(state.count_credits(Some(CalendarDate { year: 2024, month: 1, day: 29 }), None), 0);
    let mut s = params();
    s.mode = Some("stream".to_string());
    assert!(is_stream_listing(&s));
    assert_eq!(state.stream_page(&s, None, None).len(), 25);
}

#[test]
fn generation_replaces_or_appends() {
    let mut state = CoreBankingState::new(CoreBankingConfig::default(), names());
    let summary = state.generate_credits(&GenerateCreditsRequest {
        count: 30,
        dirty_ratio: Some(ratio(0.5)),
        seed: Some(1),
        append: None,
    });
    assert_eq!(summary.generated, 30);
    assert_eq!(summary.total_records, 30);
    let more = state.generate_credits(&GenerateCreditsRequest { count: 5, dirty_ratio: None, seed: None, append: Some(true) });
    assert_eq!(more.total_records, 35);
    assert!(state.get_credit("CR0000000034").is_some());
    let copy = state.records[0].clone();
    let (loaded, total) = state.load_credits(LoadCreditsRequest { records: vec![copy], append: Some(true) });
    assert_eq!((loaded, total), (1, 35));
    let (_, total) = state.load_credits(LoadCreditsRequest { records: vec![], append: None });
    assert_eq!(total, 0);
}

#[test]
fn dirty_generation_marks_every_bad_record() {
    let records = CoreBankingState::generate_records(200, ratio(1.0), Some(3), 0, &names());
    assert!(records.iter().all(|r| r._has_error == Some(true) || r._has_error.is_none()));
    assert!(records.iter().filter(|r| r._has_error == Some(true)).count() > 150);
    let clean = CoreBankingState::generate_records(50, ratio(0.0), Some(3), 0, &names());
    assert!(clean.iter().all(|r| r._has_error.is_none() && r.nik.len() == 16));
}

#[test]
fn config_updates_apply() {
    let mut state = CoreBankingState::new(CoreBankingConfig::default(), names());
    state.update_config(&UpdateConfigRequest { dirty_ratio: Some(ratio(0.25)), latency_ms: Some(40), failure_rate: Some(ratio(0.0)) });
    assert_eq!(state.config.default_dirty_ratio, ratio(0.25));
    assert_eq!(state.config.latency.jitter_ms, 4);
    assert!(!state.config.failure_injection.enabled);
}

#[test]
fn swapped_and_out_of_range_errors() {
    let mut rng = RngState::from_seed(9);
    let rec = CreditRecord::generate_clean(&mut rng, 2, &names());
    let (start, end) = (rec.tanggal_mulai.clone(), rec.tanggal_jatuh_tempo.clone());
    let swapped = rec.clone().inject_error(&mut rng, "end_before_start");
    assert_eq!(swapped.tanggal_mulai, end);
    assert_eq!(swapped.tanggal_jatuh_tempo, start);
    let kol = rec.clone().inject_error(&mut rng, "invalid_collectability");
    assert!(kol.kolektabilitas >= 6);
    let other = rec.clone().inject_error(&mut rng, "something_else");
    assert_eq!(other.nik, "INVALID");
    let over = rec.inject_error(&mut rng, "outstanding_gt_plafon");
    assert!(over.saldo_outstanding > over.jumlah_kredit);
}

#[test]
fn stored_record_is_found_by_id() {
    let mut state = CoreBankingState::new(CoreBankingConfig::default(), names());
    let mut rng = RngState::from_seed(7);
    let first = CreditRecord::generate_clean(&mut rng, 1, &names());
    let second = CreditRecord::generate_clean(&mut rng, 2, &names());
    state.insert_record(first.clone());
    state.insert_record(second.clone());

    let mut replacement = CreditRecord::generate_clean(&mut rng, 1, &names());
    replacement.nama_lengkap = "Replaced Name".to_string();
    state.insert_record(replacement.clone());

    assert_eq!(state.records.len(), 2);
    let found = state.get_credit("CR0000000001").unwrap();
    assert_eq!(found.nama_lengkap, "Replaced Name");
    assert_eq!(found.nik, replacement.nik);
    let other = state.get_credit("CR0000000002").unwrap();
    assert_eq!(other.nik, second.nik);
    assert!(state.get_credit("CR0000000003").is_none());
}

#[test]
fn full_dirty_ratio_makes_every_record_dirty() {
    let records = CoreBankingState::generate_records(300, ratio(1.0), Some(11), 0, &names());
    assert_eq!(records.len(), 300);
    assert!(records.iter().all(|r| r._has_error == Some(true) && r._error_type.is_some()));
}

#[test]
fn generation_records_the_dataset_it_made() {
    let mut state = CoreBankingState::new(CoreBankingConfig::default(), names());
    state.generate_credits(&GenerateCreditsRequest { count: 10, dirty_ratio: Some(ratio(0.5)), seed: Some(99), append: None });
    assert_eq!(state.dataset_seed, Some(99));
    assert_eq!(state.dataset_dirty_ratio, ratio(0.5));
    state.generate_credits(&GenerateCreditsRequest { count: 5, dirty_ratio: Some(ratio(0.0)), seed: Some(7), append: Some(true) });
    assert_eq!(state.dataset_seed, Some(99));
    assert_eq!(state.dataset_dirty_ratio, ratio(0.5));
    state.generate_credits(&GenerateCreditsRequest { count: 5, dirty_ratio: None, seed: None, append: Some(false) });
    assert_eq!(state.dataset_seed, None);
    assert_eq!(state.dataset_dirty_ratio, CoreBankingConfig::default().default_dirty_ratio);
}

#[test]
fn clean_records_are_drawn_from_their_ranges() {
    let mut rng = RngState::from_seed(5);
    for id in 0..200u64 {
        let r = CreditRecord::generate_clean(&mut rng, id, &names());
        assert!(r.nik.len() == 16 && !r.nik.starts_with('0'));
        assert!((10_000_000..=9_999_999_999).contains(&r.jumlah_kredit));
        assert!(r.saldo_outstanding >= r.jumlah_kredit / 10 && r.saldo_outstanding <= r.jumlah_kredit);
        assert!((500..1500).contains(&r.suku_bunga_bps));
        assert!((1..=5).contains(&r.kolektabilitas));
    }
}

#[test]
fn injected_errors_stay_in_their_ranges() {
    let mut rng = RngState::from_seed(42);
    for _ in 0..50 {
        let rec = CreditRecord::generate_clean(&mut rng, 1, &names());
        let nik = rec.clone().inject_error(&mut rng, "invalid_nik").nik;
        let ten = nik.len() == 10 && nik.chars().all(|c| c.is_ascii_digit());
        let abc = nik.len() == 16 && nik.starts_with("ABC") && nik[3..].chars().all(|c| c.is_ascii_digit());
        assert!(ten || abc || nik.is_empty());
        let amount = rec.clone().inject_error(&mut rng, "negative_amount").jumlah_kredit;
        assert!((-99_999_999..=-1_000).contains(&amount));
        let over = rec.clone().inject_error(&mut rng, "outstanding_gt_plafon");
        assert!(over.saldo_outstanding >= rec.jumlah_kredit + 1_000);
        assert!(over.saldo_outstanding <= rec.jumlah_kredit + 999_999);
        let cur = rec.clone().inject_error(&mut rng, "invalid_currency").mata_uang;
        assert!(["XXX", "INVALID", "123", ""].contains(&cur.as_str()));
        let kol = rec.inject_error(&mut rng, "invalid_collectability").kolektabilitas;
        assert!((6..=99).contains(&kol));
    }
}

#[test]
fn last_loaded_record_wins() {
    let mut state = CoreBankingState::new(CoreBankingConfig::default(), names());
    let mut rng = RngState::from_seed(3);
    let mut a = CreditRecord::generate_clean(&mut rng, 1, &names());
    let b = CreditRecord::generate_clean(&mut rng, 2, &names());
    let mut a2 = a.clone();
    a.nama_lengkap = "First".to_string();
    a2.nama_lengkap = "Second".to_string();
    let (loaded, total) = state.load_credits(LoadCreditsRequest { records: vec![a, b, a2], append: None });
    assert_eq!((loaded, total), (3, 2));
    assert_eq!(state.get_credit("CR0000000001").unwrap().nama_lengkap, "Second");
}

#[test]
fn dates_in_a_window() {
    let d = |year, month, day| CalendarDate { year, month, day };
    assert!(date_in_window(d(2024, 1, 15), Some(d(2024, 1, 15)), Some(d(2024, 1, 15))));
    assert!(!date_in_window(d(2024, 1, 14), Some(d(2024, 1, 15)), None));
    assert!(!date_in_window(d(2024, 2, 1), None, Some(d(2024, 1, 31))));
    assert!(date_in_window(d(1999, 12, 31), None, None));
}

#[test]
fn clean_maturity_follows_the_start() {
    let mut rng = RngState::from_seed(8);
    for id in 0..100u64 {
        let r = CreditRecord::generate_clean(&mut rng, id, &names());
        assert_eq!(r.tanggal_mulai.len(), 10);
        assert_eq!(r.tanggal_jatuh_tempo.len(), 10);
        assert!(r.tanggal_jatuh_tempo > r.tanggal_mulai);
    }
}

#[test]
fn invalid_date_breaks_exactly_one_date() {
    let mut rng = RngState::from_seed(42);
    for _ in 0..30 {
        let rec = CreditRecord::generate_clean(&mut rng, 1, &names());
        let broken = rec.clone().inject_error(&mut rng, "invalid_date");
        let start_changed = broken.tanggal_mulai != rec.tanggal_mulai;
        let end_changed = broken.tanggal_jatuh_tempo != rec.tanggal_jatuh_tempo;
        assert!(start_changed != end_changed);
        assert_eq!(broken.nik, rec.nik);
        assert_eq!(broken._error_type.as_deref(), Some("invalid_date"));
    }
}

#[test]
fn replacing_load_with_distinct_ids_keeps_the_order() {
    let mut state = CoreBankingState::new(CoreBankingConfig::default(), names());
    let records = CoreBankingState::generate_records(5, ratio(0.0), Some(1), 0, &names());
    let mut reversed = records.clone();
    reversed.reverse();
    let (_, total) = state.load_credits(LoadCreditsRequest { records: reversed.clone(), append: None });
    assert_eq!(total, 5);
    let ids: Vec<&str> = state.records.iter().map(|r| r.id.as_str()).collect();
    let want: Vec<&str> = reversed.iter().map(|r| r.id.as_str()).collect();
    assert_eq!(ids, want);
}
