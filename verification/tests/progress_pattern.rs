use handbrake::progress::ProgressPattern;

#[test]
fn test_progress_re_full_match() {
    let line = "Encoding: task 1 of 1, 12.34 % (120.00 fps, avg 110.00 fps, ETA 00h01m30s)";
    let re = ProgressPattern::new().unwrap();
    let caps = re.captures(line.as_bytes()).unwrap();

    assert_eq!(caps.name("pct").unwrap().slice(line.as_bytes()), b"12.34");
    assert_eq!(caps.name("fps").unwrap().slice(line.as_bytes()), b"120.00");
    assert_eq!(caps.name("avg_fps").unwrap().slice(line.as_bytes()), b"110.00");
    assert_eq!(caps.name("eta").unwrap().slice(line.as_bytes()), b"00h01m30s");
}

#[test]
fn test_progress_re_pct_only() {
    let line = "Encoding: task 1 of 1, 56.78 %";
    let re = ProgressPattern::new().unwrap();
    let caps = re.captures(line.as_bytes()).unwrap();

    assert_eq!(caps.name("pct").unwrap().slice(line.as_bytes()), b"56.78");
    assert!(caps.name("fps").is_none());
    assert!(caps.name("avg_fps").is_none());
    assert!(caps.name("eta").is_none());
}

#[test]
fn test_progress_re_no_match() {
    let line = "Some other output that does not match";
    let re = ProgressPattern::new().unwrap();
    assert!(re.captures(line.as_bytes()).is_none());
}

#[test]
fn test_progress_re_another_full_match() {
    let line = "Encoding: task 2 of 5, 99.99 % (30.00 fps, avg 25.50 fps, ETA 01h23m45s)";
    let re = ProgressPattern::new().unwrap();
    let caps = re.captures(line.as_bytes()).unwrap();

    assert_eq!(caps.name("pct").unwrap().slice(line.as_bytes()), b"99.99");
    assert_eq!(caps.name("fps").unwrap().slice(line.as_bytes()), b"30.00");
    assert_eq!(caps.name("avg_fps").unwrap().slice(line.as_bytes()), b"25.50");
    assert_eq!(caps.name("eta").unwrap().slice(line.as_bytes()), b"01h23m45s");
}
