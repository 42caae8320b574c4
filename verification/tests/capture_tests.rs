use lanwatch::CapError;
use lanwatch::StatTable;
use lanwatch::build_lease_map;
use lanwatch::can_count;
use lanwatch::capture_step;
use lanwatch::check_report_due;
use lanwatch::render_report;
use lanwatch::render_single_report;
use lanwatch::validate_interface_name;
use lanwatch::u64_to_dec;

fn frame_from(src: [u8; 6]) -> Vec<u8> {
    let mut buf = vec![0u8; 14];
    buf[6..12].copy_from_slice(&src);
    buf
}

#[test]
fn interface_name_length_is_checked() {
    assert!(validate_interface_name("lo0").is_ok());
    assert!(validate_interface_name("eth0").is_ok());
    assert!(validate_interface_name("a23456789012345").is_ok());
    assert_eq!(validate_interface_name("a234567890123456"), Err(CapError::ConfigError));
}

#[test]
fn report_due_compares_elapsed_to_period() {
    assert!(!check_report_due(1000, 2));
    assert!(!check_report_due(2000, 2));
    assert!(check_report_due(2001, 2));
    assert!(check_report_due(0, -1));
}

#[test]
fn decimal_rendering_is_exact() {
    assert_eq!(u64_to_dec(0), "0");
    assert_eq!(u64_to_dec(7), "7");
    assert_eq!(u64_to_dec(1024), "1024");
    assert_eq!(u64_to_dec(u64::MAX), "18446744073709551615");
}

#[test]
fn truncated_buffer_stops_the_step() {
    let mut table = StatTable::new();
    let buf = vec![0u8; 13];
    assert!(can_count(&table, &buf));
    match capture_step(&mut table, &buf, 0, 10) {
        Err(CapError::TruncatedInput) => {}
        _ => panic!("expected TruncatedInput"),
    }
    assert_eq!(table.snapshot_and_reset_period().len(), 0);
}

#[test]
fn quiet_interval_then_one_frame_reports_period_one() {
    // No traffic, no steps, no output. The first frame after the period
    // elapses is counted and makes the report due, with that source at
    // period one.
    let src = [0x0a, 0x0b, 0x0c, 0x0d, 0x0e, 0x0f];
    let mut table = StatTable::new();

    // While no frame arrives, the loop takes no step, so nothing is
    // rendered even after the interval elapses; the due check alone says
    // the quiet stretch was still too short.
    assert!(!check_report_due(1500, 2));

    let buf = frame_from(src);
    assert!(can_count(&table, &buf));
    let (frame, due) = capture_step(&mut table, &buf, 2500, 2).unwrap();
    assert_eq!(frame.eth_src, src);
    assert!(due);

    let leases = build_lease_map(&Vec::new());
    let rendered = render_report(&mut table, &leases);
    assert!(rendered.contains("0a:0b:0c:0d:0e:0f"));
    assert!(rendered.contains("unknown"));
    assert!(rendered.contains("1"));
    assert_eq!(rendered.matches("0a:0b:0c:0d:0e:0f").count(), 1);
}

#[test]
fn full_report_renders_table_with_header_and_rows() {
    let mut table = StatTable::new();
    let a = [0x00, 0x11, 0x22, 0x33, 0x44, 0x55];
    for _ in 0..3 {
        table.record(&a);
    }
    let lines = vec![String::from("x 00:11:22:33:44:55 y hostA")];
    let leases = build_lease_map(&lines);
    let rendered = render_report(&mut table, &leases);
    assert!(rendered.contains("src"));
    assert!(rendered.contains("resolved"));
    assert!(rendered.contains("total"));
    assert!(rendered.contains("period"));
    assert!(rendered.contains("00:11:22:33:44:55"));
    assert!(rendered.contains("hostA"));
    assert!(rendered.contains("3"));
    // The modern border style draws box lines round the cells.
    assert!(rendered.contains("│"));
    assert!(rendered.contains("┌"));
}

#[test]
fn report_resets_periods_but_not_totals() {
    let mut table = StatTable::new();
    let a = [1, 2, 3, 4, 5, 6];
    table.record(&a);
    table.record(&a);
    let leases = build_lease_map(&Vec::new());
    let _ = render_report(&mut table, &leases);
    let snap = table.snapshot_and_reset_period();
    assert_eq!(snap[0].total, 2);
    assert_eq!(snap[0].period, 0);
}

#[test]
fn single_address_report_is_one_line() {
    let mut table = StatTable::new();
    let a = [0x00, 0x11, 0x22, 0x33, 0x44, 0x55];
    table.record(&a);
    table.record(&a);
    table.record(&a);
    let line = render_single_report(&mut table, "Mon, 01 Jan 2024 00:00:00 +0000", &a);
    assert_eq!(line, "Mon, 01 Jan 2024 00:00:00 +0000 3");
    let line = render_single_report(&mut table, "ts", &a);
    assert_eq!(line, "ts 0");
}
