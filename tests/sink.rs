use rust_packets::sink::render_log;

#[test]
fn log_lists_samples_in_order() {
    assert_eq!(render_log(&[0, 200_000, 42]), b"0\n200000\n42\n".to_vec());
    assert_eq!(render_log(&[u64::MAX]), b"18446744073709551615\n".to_vec());
    assert!(render_log(&[]).is_empty());
}

#[test]
fn log_has_one_parsable_line_per_sample() {
    let samples: Vec<u64> = (0..250u64).map(|i| i * 7919 + i % 3).collect();
    let log = String::from_utf8(render_log(&samples)).unwrap();
    assert!(log.ends_with('\n'));
    let lines: Vec<&str> = log.lines().collect();
    assert_eq!(lines.len(), samples.len());
    for (line, s) in lines.iter().zip(samples.iter()) {
        assert_eq!(line.parse::<u64>().unwrap(), *s);
    }
}
