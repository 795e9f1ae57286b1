use carrier_pigeon::logging::RecordBuff;

#[test]
fn single_log_insertion() {
    let mut logs = RecordBuff::new();
    logs.push_line("[DEBUG] test::target: Test Log".to_string());

    assert_eq!(logs.latest_idx(), 0);
    assert_ne!(logs.slot(0), None);
}

#[test]
fn multiple_log_insertion() {
    let mut logs = RecordBuff::new();
    let line = "[DEBUG] test::target: Test Log".to_string();

    logs.push_line(line.clone());
    logs.push_line(line.clone());
    logs.push_line(line);

    assert_eq!(logs.latest_idx(), 2);
}

#[test]
fn overflow_insertion() {
    let mut logs = RecordBuff::new();
    for _ in 0..256 {
        logs.push_line("[DEBUG] test::target: Test Log".to_string());
    }
    logs.push_line("[DEBUG] test::target: Test Log :: OVERFLOW".to_string());

    assert!(!logs.slot(255).unwrap().contains("OVERFLOW"));
    assert!(logs.slot(0).unwrap().contains("OVERFLOW"));
    assert_eq!(logs.latest_idx(), 0);
}

#[test]
fn display_keeps_most_recent_lines_in_order() {
    let mut logs = RecordBuff::new();
    for i in 1..=300 {
        logs.push_line(format!("L{}", i));
    }
    let shown = logs.display_logs();
    let expected: Vec<String> = (45..=300).map(|i| format!("L{}", i)).collect();
    assert_eq!(shown.len(), 256);
    assert_eq!(shown, expected);
}

#[test]
fn display_before_wrapping() {
    let mut logs = RecordBuff::new();
    assert!(logs.display_logs().is_empty());
    logs.push_line("a".to_string());
    logs.push_line("b".to_string());
    assert_eq!(logs.display_logs(), vec!["a".to_string(), "b".to_string()]);
}

#[test]
fn display_exactly_full() {
    let mut logs = RecordBuff::new();
    for i in 0..256 {
        logs.push_line(format!("{}", i));
    }
    let shown = logs.display_logs();
    assert_eq!(shown.len(), 256);
    assert_eq!(shown[0], "0");
    assert_eq!(shown[255], "255");
    assert_eq!(logs.latest_idx(), 255);
}
