use lora_mesh::gps::{parse_gprmc, split_sentence};

#[test]
fn parses_gprmc_sentence() {
    let sentence = b"$GPRMC,123519,A,4807.038,N,01131.000,E,022.4,084.4,230394,003.1,W,A*6A\r\n";
    let data = parse_gprmc(sentence).unwrap();
    assert_eq!(data.time, "123519");
    assert_eq!(data.status, "A");
    assert_eq!(data.latitude, "4807.038");
    assert_eq!(data.latitude_hemisphere, "N");
    assert_eq!(data.longitude, "01131.000");
    assert_eq!(data.longitude_hemisphere, "E");
    assert_eq!(data.speed, "022.4");
    assert_eq!(data.track_angle, "084.4");
    assert_eq!(data.date, "230394");
    assert_eq!(data.magnetic_variation, "003.1");
    assert_eq!(data.magnetic_variation_direction, "W");
    assert_eq!(data.mode, "A*6A\r\n");
}

#[test]
fn rejects_other_or_short_sentences() {
    assert!(parse_gprmc(b"$GPGGA,123519,4807.038,N,01131.000,E,1,08,0.9,545.4,M,46.9,M,,*47").is_err());
    assert!(parse_gprmc(b"$GPRMC,123519,A,4807.038,N,01131.000,E,022.4,084.4,230394,003.1,W*6A").is_err());
    assert!(parse_gprmc(b"").is_err());
}

#[test]
fn splits_at_commas() {
    assert_eq!(split_sentence(b"a,,bc"), vec![b"a".to_vec(), vec![], b"bc".to_vec()]);
    assert_eq!(split_sentence(b""), vec![Vec::<u8>::new()]);
    assert_eq!(split_sentence(b","), vec![Vec::<u8>::new(), Vec::new()]);
}
