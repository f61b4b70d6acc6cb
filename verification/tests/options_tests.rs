use memcore::memory::options::LogOptions;

#[test]
fn number_of_segments_1() {
    let log_options = LogOptions::new(100, 10);
    assert_eq!(10, log_options.number_of_segments());
}

#[test]
fn number_of_segments_2() {
    let log_options = LogOptions::new(50, 3);
    assert_eq!(17, log_options.number_of_segments());
}
