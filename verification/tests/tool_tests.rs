use flv_toolbox::crc32::Crc32;
use flv_toolbox::split::{delta, split_flv_by_min};
use flv_toolbox::strfmt::{format_seconds_ms, write_flv_config};

#[test]
fn test_crc32() {
    let mut crc32 = Crc32::new();
    crc32.update(b"123456789");
    assert_eq!(crc32.finish(), 0xcbf43926);
}

#[test]
fn crc32_reset_and_chunks() {
    let mut c = Crc32::new();
    c.update(b"1234");
    c.update(b"56789");
    assert_eq!(c.finish(), 0xcbf43926);
    c.reset();
    assert_eq!(c.finish(), 0);
    c.update(b"");
    assert_eq!(c.finish(), 0);
}

#[test]
fn clock_strings() {
    assert_eq!(format_seconds_ms(0), "00:00.000");
    assert_eq!(format_seconds_ms(62_003), "01:02.003");
    assert_eq!(format_seconds_ms(3_723_004), "01:02:03.004");
    assert_eq!(format_seconds_ms(45_296_789), "12:34:56.789");
    assert_eq!(format_seconds_ms(360_000_000), "100:00:00.000");
}

#[test]
fn test_config() {
    let info_vec = vec![(1, 1), (2, 2)];
    let flvs = vec!["1.flv".to_string(), "1.flv".to_string()];
    let timelength = 60;
    let url_prefix = "http://localhost/".to_string();

    let doc = write_flv_config(&info_vec, &flvs, timelength, &url_prefix);
    println!("{}", doc);
}

#[test]
fn config_document_layout() {
    let info_vec = vec![(1500u64, 1024u64)];
    let flvs = vec!["a.flv".to_string()];
    let doc = write_flv_config(&info_vec, &flvs, 1500, &"http://h/".to_string());
    assert_eq!(
        doc,
        "<video><timelength>1500</timelength><durl><length>1500</length><size>1024</size><url>http://h/a.flv</url></durl></video>"
    );
}

#[test]
fn split_points_pick_closest_audio() {
    assert_eq!(delta(7, 3), 4);
    assert_eq!(delta(3, 7), 4);

    // (timestamp ms, audio distance, byte position)
    let infos = vec![
        (0u64, 0u64, 13u64),
        (0, 5, 100),
        (30_000, 3, 200),
        (61_000, 4, 300),
        (61_900, 2, 400),
        (95_000, 1, 500),
        (125_000, 6, 600),
    ];
    let parts = split_flv_by_min(&infos, 1, 5);
    // the final short part is merged into the one before it
    assert_eq!(parts, vec![(0, 100, 3, 0), (61_900, 400, 3, 2)]);
}
