use umami::config::HistoConfig;
use umami::event::{EventHisto, EventTime};
use umami::shm::{shm_magic, ShmBox, ShmError, ShmInterface, ShmReader, SHM_HEADER_SIZE};

fn test_config() -> HistoConfig {
    HistoConfig { nx: 4, ny: 4, max_nt: 4, max_ni: 0 }
}

#[test]
fn test_shm_interface_size() {
    assert_eq!(std::mem::size_of::<ShmInterface>(), SHM_HEADER_SIZE);
}

#[test]
fn test_shm_create_and_basic_ops() {
    let mut shm = ShmBox::create(&test_config()).unwrap();
    assert_eq!(shm.header.magic, *b"UMAMI01 ");
    assert_eq!(shm.header.magic, shm_magic());

    shm.header.set_run_id("run_001");
    let run_id = std::str::from_utf8(&shm.header.run_id).unwrap();
    assert!(run_id.starts_with("run_001"));

    assert_eq!(shm.header.global_state & 1, 0);
    shm.header.set_initialized();
    assert_eq!(shm.header.global_state & 1, 1);

    shm.add_histo(EventHisto { x: 0, y: 0, t: 0, i: 0 });
    shm.add_histo(EventHisto { x: 0, y: 0, t: 0, i: 0 });
    shm.add_histo(EventHisto { x: 1, y: 2, t: 3, i: 0 });
    assert_eq!(shm.bins[0], 2);
    assert_eq!(shm.bins[57], 1);
}

#[test]
fn test_shm_counters() {
    let mut shm = ShmBox::create(&test_config()).unwrap();
    shm.header.add_events(3);
    shm.header.add_events(2);
    assert_eq!(shm.header.total_events, 5);

    shm.add_histo(EventHisto { x: 0, y: 0, t: 0, i: 0 });
    shm.add_histo(EventHisto { x: 10, y: 10, t: 10, i: 0 });
    assert_eq!(shm.header.total_neutrons, 1);

    shm.header.add_tzero();
    shm.header.add_tzero();
    assert_eq!(shm.header.tzero_count, 2);

    shm.header.add_monitor(0);
    shm.header.add_monitor(4);
    shm.header.add_monitor(4);
    shm.header.add_monitor(100);
    assert_eq!(shm.header.monitor_counts, [1, 0, 0, 0, 2]);

    shm.header.set_lifetime(EventTime(12345));
    assert_eq!(shm.header.lifetime_ns, 12345);

    shm.header.clear_counters();
    assert_eq!(shm.header.total_events, 0);
    assert_eq!(shm.header.total_neutrons, 0);
    assert_eq!(shm.header.lifetime_ns, 0);
    assert_eq!(shm.header.tzero_count, 0);
    assert_eq!(shm.header.monitor_counts, [0; 5]);
}

#[test]
fn test_shm_add_out_of_bounds_ignored() {
    let mut shm = ShmBox::create(&test_config()).unwrap();
    shm.add_histo(EventHisto { x: 10, y: 10, t: 10, i: 0 });
    assert!(shm.bins.iter().all(|&v| v == 0));
}

#[test]
fn test_shm_clear_histo() {
    let mut shm = ShmBox::create(&test_config()).unwrap();
    shm.add_histo(EventHisto { x: 0, y: 0, t: 0, i: 0 });
    shm.add_histo(EventHisto { x: 1, y: 1, t: 1, i: 0 });
    shm.clear_histo();
    assert_eq!(shm.bins.len(), 4 * 4 * 4);
    assert!(shm.bins.iter().all(|&v| v == 0));
}

#[test]
fn test_shm_save_to_file() {
    let mut shm = ShmBox::create(&test_config()).unwrap();
    shm.add_histo(EventHisto { x: 0, y: 0, t: 0, i: 0 });
    shm.add_histo(EventHisto { x: 0, y: 0, t: 0, i: 0 });
    let content = shm.histo_text(4);
    assert!(content.contains('2'));
    assert!(content.starts_with(" 2 0 0 0\n"));
}

#[test]
fn test_shm_save_to_file_large_offsets() {
    let config = HistoConfig { nx: 56, ny: 1024, max_nt: 2, max_ni: 0 };
    let mut shm = ShmBox::create(&config).unwrap();
    shm.add_histo(EventHisto { x: 10, y: 1000, t: 1, i: 0 });
    let content = shm.histo_text(2);
    assert!(content.contains('1'));
}

#[test]
fn test_shm_zero_size_fails() {
    let config = HistoConfig { nx: 0, ny: 1, max_nt: 1, max_ni: 0 };
    assert!(matches!(ShmBox::create(&config), Err(ShmError::ZeroSize)));
}

#[test]
fn test_shm_oversized_fails() {
    let config = HistoConfig { nx: 1_000_000, ny: 1_000_000, max_nt: 1_000, max_ni: 0 };
    assert!(matches!(ShmBox::create(&config), Err(ShmError::TooLarge)));
}

#[test]
fn test_shm_reader_reads_header_and_histo() {
    let mut shm = ShmBox::create(&test_config()).unwrap();
    shm.header.set_run_id("run_007");
    shm.header.set_initialized();
    shm.header.set_running(true);
    shm.header.add_events(5);
    shm.add_histo(EventHisto { x: 1, y: 2, t: 3, i: 0 });

    let reader = ShmReader::from_parts(shm.header, shm.bins.clone()).unwrap();
    assert_eq!(reader.run_id(), "run_007");
    assert!(reader.running());
    assert_eq!((reader.nx(), reader.ny(), reader.nt()), (4, 4, 4));
    assert_eq!(reader.total_events(), 5);
    assert_eq!(reader.histo_data()[57], 1);
}

#[test]
fn test_shm_reader_rejects_bad_magic() {
    let mut shm = ShmBox::create(&test_config()).unwrap();
    shm.header.magic = *b"BOGUS!! ";
    assert!(matches!(ShmReader::from_parts(shm.header, vec![]), Err(ShmError::BadMagic)));
}

#[test]
fn test_shm_running_bit_toggles() {
    let mut shm = ShmBox::create(&test_config()).unwrap();
    shm.header.set_running(true);
    assert_eq!(shm.header.global_state, 2);
    shm.header.set_running(false);
    assert_eq!(shm.header.global_state, 0);
}

#[test]
fn test_shm_run_id_truncated_to_127_bytes() {
    let mut shm = ShmBox::create(&test_config()).unwrap();
    let long = "x".repeat(200);
    shm.header.set_run_id(&long);
    assert_eq!(shm.header.run_id[126], b'x');
    assert_eq!(shm.header.run_id[127], 0);
}

#[test]
fn run_id_reads_back_as_written() {
    for id in ["", "r", "Messung_ä_µs", &"x".repeat(127)] {
        let mut shm = ShmBox::create(&test_config()).unwrap();
        shm.header.set_run_id(id);
        let reader = ShmReader::from_parts(shm.header, shm.bins.clone()).unwrap();
        assert_eq!(reader.run_id(), id);
    }
}
