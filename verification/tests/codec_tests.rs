use flv_toolbox::amf0::{read_amf0_value, write_amf0_value, Amf0Value};
use flv_toolbox::audio::AudioSpecificConfig;
use flv_toolbox::endian::{push_u32_be, read_u16_be, read_u32_be, read_u64_be};
use flv_toolbox::fbits::f64_bits_of_ratio;
use flv_toolbox::profile::TagProfile;
use flv_toolbox::tag::{FLVHeader, FLVTag, FLVTagRead, FLVTagType, FLVTagWrite};
use flv_toolbox::FlvError;

fn num(f: f64) -> Amf0Value {
    Amf0Value::Number(f.to_bits())
}

fn s(text: &str) -> Amf0Value {
    Amf0Value::Str(text.as_bytes().to_vec())
}

fn test_amf(v: Amf0Value) {
    let mut c: Vec<u8> = Vec::new();
    write_amf0_value(&mut c, &v);
    let (v2, end) = read_amf0_value(&c, 0).expect("decode failed");
    assert_eq!(v, v2);
    assert_eq!(end, c.len());
    println!("test success: {:?}", v);
}

#[test]
fn write_and_read() {
    test_amf(Amf0Value::Null);
    test_amf(num(1f64));
    test_amf(Amf0Value::Boolean(true));
    test_amf(Amf0Value::Boolean(false));
    test_amf(s("Hello"));
    test_amf(Amf0Value::Array(vec![Amf0Value::Null, num(0f64)]));
    let obj = vec![("Hello".as_bytes().to_vec(), Amf0Value::Boolean(false))];
    test_amf(Amf0Value::Object(obj));
}

#[test]
fn nested_value_round_trip() {
    let inner = Amf0Value::Object(vec![
        ("times".as_bytes().to_vec(), Amf0Value::Array(vec![num(0.0), num(1.5)])),
        ("filepositions".as_bytes().to_vec(), Amf0Value::Array(vec![num(13.0), num(467.0)])),
    ]);
    let outer = Amf0Value::Object(vec![
        ("duration".as_bytes().to_vec(), num(12.345)),
        ("keyframes".as_bytes().to_vec(), inner),
        ("flag".as_bytes().to_vec(), Amf0Value::Boolean(true)),
        ("name".as_bytes().to_vec(), s("movie")),
        ("nothing".as_bytes().to_vec(), Amf0Value::Null),
    ]);
    test_amf(outer);
}

#[test]
fn ecma_array_decodes_as_object() {
    // marker 8, redundant count, one entry, terminator
    let mut data: Vec<u8> = vec![8, 0, 0, 0, 1];
    data.extend_from_slice(&[0, 1, b'k']); // key "k"
    data.push(5); // null value
    data.extend_from_slice(&[0, 0, 9]);
    let (v, end) = read_amf0_value(&data, 0).expect("decode failed");
    assert_eq!(v, Amf0Value::Object(vec![("k".as_bytes().to_vec(), Amf0Value::Null)]));
    assert_eq!(end, data.len());
}

#[test]
fn unknown_marker_is_rejected() {
    let data: Vec<u8> = vec![4, 0, 0];
    assert_eq!(read_amf0_value(&data, 0), Err(FlvError::UnknownMarker));
    let empty: Vec<u8> = vec![0, 1]; // number marker, truncated body
    assert_eq!(read_amf0_value(&empty, 0), Err(FlvError::Truncated));
}

fn make_tag(tag_type: u8, ts_ms: u32, payload: &[u8]) -> Vec<u8> {
    let ds = payload.len() as u32;
    let mut v: Vec<u8> = Vec::new();
    v.push(tag_type);
    v.push(((ds >> 16) & 0xff) as u8);
    v.push(((ds >> 8) & 0xff) as u8);
    v.push((ds & 0xff) as u8);
    v.push(((ts_ms >> 16) & 0xff) as u8);
    v.push(((ts_ms >> 8) & 0xff) as u8);
    v.push((ts_ms & 0xff) as u8);
    v.push(((ts_ms >> 24) & 0xff) as u8);
    v.push(0);
    v.push(0);
    v.push(0);
    v.extend_from_slice(payload);
    let total = v.len() as u32;
    push_u32_be(&mut v, total);
    v
}

#[test]
fn tag_round_trip_preserves_bytes() {
    let bytes = make_tag(8, 0x01020304, &[0xAF, 1, 0xde, 0xad]);
    let tag = FLVTag::read(&bytes, 0).expect("read").expect("tag");
    assert_eq!(tag.get_data_size(), 4);
    assert_eq!(tag.get_tag_size(), 15);
    assert_eq!(tag.get_timestamp(), 0x01020304);
    assert_eq!(tag.get_tag_type(), FLVTagType::TAG_TYPE_AUDIO);
    let mut out: Vec<u8> = Vec::new();
    tag.write(&mut out);
    assert_eq!(out, bytes);
}

#[test]
fn timestamp_rewrite_preserves_length() {
    let bytes = make_tag(9, 1000, &[0x17, 1, 0, 0, 0, 1, 2, 3]);
    let mut tag = FLVTag::read(&bytes, 0).expect("read").expect("tag");
    let before = tag.get_tag_size();
    tag.set_timestamp(0xFEDCBA98);
    assert_eq!(tag.get_timestamp(), 0xFEDCBA98);
    assert_eq!(tag.get_tag_size(), before);
    let mut out: Vec<u8> = Vec::new();
    tag.write(&mut out);
    assert_eq!(out.len(), bytes.len());
    // the extended byte sits after the three low-order bytes
    assert_eq!(out[4], 0xDC);
    assert_eq!(out[5], 0xBA);
    assert_eq!(out[6], 0x98);
    assert_eq!(out[7], 0xFE);
    // only the four timestamp bytes changed
    for i in 0..bytes.len() {
        if i == 4 || i == 5 || i == 6 || i == 7 {
            continue;
        }
        assert_eq!(out[i], bytes[i]);
    }
}

#[test]
fn truncated_tag_is_fatal_not_eof() {
    let mut bytes = make_tag(8, 0, &[0xAF, 1, 0, 0]);
    bytes.truncate(bytes.len() - 2); // cut into the back-pointer
    assert!(matches!(FLVTag::read(&bytes, 0), Err(FlvError::Truncated)));
    let empty: Vec<u8> = Vec::new();
    assert!(matches!(FLVTag::read(&empty, 0), Ok(None)));
}

#[test]
fn unknown_tag_type_is_rejected() {
    let bytes = make_tag(5, 0, &[0]);
    assert!(matches!(FLVTag::read(&bytes, 0), Err(FlvError::UnknownTagType)));
    assert_eq!(FLVTagType::from_byte(18), Ok(FLVTagType::TAG_TYPE_SCRIPTDATAOBJECT));
    assert_eq!(FLVTagType::from_byte(7), Err(FlvError::UnknownTagType));
}

fn header_bytes(audio: bool, video: bool) -> Vec<u8> {
    let mut v: Vec<u8> = vec![b'F', b'L', b'V', 1];
    let mut flags = 0u8;
    if audio {
        flags |= 4;
    }
    if video {
        flags |= 1;
    }
    v.push(flags);
    v.extend_from_slice(&[0, 0, 0, 9, 0, 0, 0, 0]);
    v
}

#[test]
fn header_round_trip() {
    let h = FLVHeader { hasAudioTags: true, hasVideoTags: true };
    let mut out: Vec<u8> = Vec::new();
    h.write(&mut out);
    assert_eq!(out, header_bytes(true, true));
    let h2 = FLVHeader::read(&out).expect("header");
    assert_eq!(h, h2);
    let bad: Vec<u8> = vec![b'F', b'L', b'X', 1, 5, 0, 0, 0, 9, 0, 0, 0, 0];
    assert_eq!(FLVHeader::read(&bad), Err(FlvError::BadFileHeader));
}

#[test]
fn big_endian_fields() {
    let data: Vec<u8> = vec![0x01, 0x02, 0x03, 0x04, 0x05, 0x06, 0x07, 0x08];
    assert_eq!(read_u16_be(&data, 0), 0x0102);
    assert_eq!(read_u32_be(&data, 0), 0x01020304);
    assert_eq!(read_u64_be(&data, 0), 0x0102030405060708);
    let mut out: Vec<u8> = Vec::new();
    push_u32_be(&mut out, 0xA1B2C3D4);
    assert_eq!(out, vec![0xA1, 0xB2, 0xC3, 0xD4]);
}

#[test]
fn audio_config_decodes_bit_fields() {
    // AAC-LC (object type 2), sample index 4 (44100), stereo
    let payload = [0xAF, 0, 0x12, 0x10];
    let bytes = make_tag(8, 0, &payload);
    let tag = FLVTag::read(&bytes, 0).expect("read").expect("tag");
    assert_eq!(tag.get_sound_format(), 10);
    assert!(tag.is_acc_sequence_header());
    let cfg = tag.get_sound_audio_specific_config();
    assert_eq!(cfg.audio_object_type, 2);
    assert_eq!(cfg.sample_index, 4);
    assert_eq!(cfg.channel_config, 2);
    assert_eq!(cfg.get_sample_rate(), 44100);
    assert_eq!(cfg.nominal_frame_duration_us(), 23219);
}

#[test]
fn adts_header_packs_frame_length() {
    let cfg = AudioSpecificConfig {
        original_audio_object_type: 2,
        audio_object_type: 2,
        sample_index: 4,
        channel_config: 2,
    };
    let h = FLVTag::get_sound_adts_header_data(&cfg, 413);
    assert_eq!(h[0], 0xff);
    assert_eq!(h[1], 0xf1);
    assert_eq!(h[2], ((2 - 1) << 6) | (4 << 2) | 0);
    assert_eq!(h[3], ((2u32 & 3) << 6 | ((413u32 & 0x1800) >> 11)) as u8);
    assert_eq!(h[4], ((413 & 0x7f8) >> 3) as u8);
    assert_eq!(h[5], (((413 & 7) << 5) | 0x1f) as u8);
    assert_eq!(h[6], 0xfc);
}

#[test]
fn sound_field_accessors() {
    let payload = [0xAF, 1, 0xAA, 0xBB];
    let bytes = make_tag(8, 0, &payload);
    let tag = FLVTag::read(&bytes, 0).expect("read").expect("tag");
    assert_eq!(tag.get_sound_size(), 16);
    assert_eq!(tag.get_sound_channels(), 2);
    assert!(!tag.is_acc_sequence_header());
    assert_eq!(tag.get_sound_data(), &payload[2..]);
    assert_eq!(tag.get_sound_data_size(), 2);
}

#[test]
fn composition_offset_sign_extends() {
    // codec 7, packet type 1, cts = -2 (0xFFFFFE)
    let payload = [0x27, 1, 0xFF, 0xFF, 0xFE, 9, 9];
    let bytes = make_tag(9, 0, &payload);
    let tag = FLVTag::read(&bytes, 0).expect("read").expect("tag");
    assert_eq!(tag.get_frame_type(), 2);
    assert_eq!(tag.get_codec_id(), 7);
    assert_eq!(tag.get_avc_packet_type(), 1);
    assert_eq!(tag.get_avc_composition_time_offset(), -2);
    // positive offset
    let payload2 = [0x17, 1, 0x00, 0x00, 0x50, 9];
    let bytes2 = make_tag(9, 0, &payload2);
    let tag2 = FLVTag::read(&bytes2, 0).expect("read").expect("tag");
    assert_eq!(tag2.get_avc_composition_time_offset(), 0x50);
    // sequence headers carry no offset
    let payload3 = [0x17, 0, 0, 0, 0];
    let bytes3 = make_tag(9, 0, &payload3);
    let tag3 = FLVTag::read(&bytes3, 0).expect("read").expect("tag");
    assert_eq!(tag3.get_avc_composition_time_offset(), 0);
}

#[test]
fn nal_units_walk() {
    let mut payload: Vec<u8> = vec![0x17, 1, 0, 0, 0];
    payload.extend_from_slice(&[0, 0, 0, 2, 0x65, 0xAA]); // IDR, class I
    payload.extend_from_slice(&[0, 0, 0, 1, 0x41]); // slice, class P
    let bytes = make_tag(9, 0, &payload);
    let tag = FLVTag::read(&bytes, 0).expect("read").expect("tag");
    let infos = tag.get_nal_uints_info();
    assert_eq!(infos.0.len(), 2);
    assert_eq!(infos.0[0].nalu_type, 5);
    assert_eq!(infos.0[0].nalu_tag, 0b11);
    assert_eq!(infos.0[0].nalu_size, 2);
    assert_eq!(infos.0[1].nalu_type, 1);
    assert_eq!(infos.0[1].nalu_tag, 0b10);
    let units = tag.get_nal_units();
    assert_eq!(units, vec![vec![0x65, 0xAA], vec![0x41]]);
}

#[test]
fn avcc_parse() {
    let mut payload: Vec<u8> = vec![0x17, 0, 0, 0, 0];
    payload.extend_from_slice(&[1, 0x64, 0x00, 0x1f, 0xff, 0xe1]); // version..num_sps
    payload.extend_from_slice(&[0, 3, 0x67, 0x64, 0x00]); // sps
    payload.push(1); // one pps
    payload.extend_from_slice(&[0, 2, 0x68, 0xee]);
    let bytes = make_tag(9, 0, &payload);
    let tag = FLVTag::read(&bytes, 0).expect("read").expect("tag");
    let avcc = tag.get_avcc().expect("avcc");
    assert_eq!(avcc.version, 1);
    assert_eq!(avcc.profile, 0x64);
    assert_eq!(avcc.level, 0x1f);
    assert_eq!(avcc.nalu_length_size_minus_1, 3);
    assert_eq!(avcc.num_of_sps, 1);
    assert_eq!(avcc.sps, vec![0x67, 0x64, 0x00]);
    assert_eq!(avcc.pps_array, vec![vec![0x68, 0xee]]);
    // two sequence-parameter sets are malformed
    let mut bad: Vec<u8> = vec![0x17, 0, 0, 0, 0];
    bad.extend_from_slice(&[1, 0x64, 0x00, 0x1f, 0xff, 0xe2]);
    bad.extend_from_slice(&[0, 3, 0x67, 0x64, 0x00]);
    let bbytes = make_tag(9, 0, &bad);
    let btag = FLVTag::read(&bbytes, 0).expect("read").expect("tag");
    assert_eq!(btag.get_avcc().unwrap_err(), FlvError::BadDecoderConfig);
}

#[test]
fn float_bits_match_ieee() {
    assert_eq!(f64_bits_of_ratio(0, 1000), 0);
    assert_eq!(f64_bits_of_ratio(1, 1), 1.0f64.to_bits());
    assert_eq!(f64_bits_of_ratio(1500, 1000), 1.5f64.to_bits());
    assert_eq!(f64_bits_of_ratio(12345, 1000), (12345f64 / 1000f64).to_bits());
    assert_eq!(f64_bits_of_ratio(1, 1000), (1f64 / 1000f64).to_bits());
    assert_eq!(f64_bits_of_ratio(999, 1000), (999f64 / 1000f64).to_bits());
    assert_eq!(f64_bits_of_ratio(123456789, 1), 123456789f64.to_bits());
    assert_eq!(f64_bits_of_ratio(86400000, 1000), 86400f64.to_bits());
    for n in [7u64, 333, 1001, 65537, 4099] {
        assert_eq!(f64_bits_of_ratio(n, 1000), (n as f64 / 1000f64).to_bits(), "n={}", n);
        assert_eq!(f64_bits_of_ratio(n, 1), (n as f64).to_bits(), "n={}", n);
    }
}

#[test]
fn mute_tag_bytes_are_exact() {
    let tag = TagProfile::new_mute_tag(512000, 2);
    let mut out: Vec<u8> = Vec::new();
    tag.write(&mut out);
    let expected_payload = [0xAF, 1, 0x21, 0x10, 0x04, 0x60, 0x8c, 0x1c];
    let expected = make_tag(8, 512, &expected_payload);
    assert_eq!(out, expected);
    let mono = TagProfile::new_mute_tag(0, 1);
    let mut mout: Vec<u8> = Vec::new();
    mono.write(&mut mout);
    assert_eq!(mout, make_tag(8, 0, &[0xAE, 1, 0x01, 0x18, 0x20, 0x07]));
}

#[test]
fn stream_reader_and_writer() {
    let mut file = header_bytes(true, true);
    file.extend_from_slice(&make_tag(8, 0, &[0xAF, 0, 0x12, 0x10]));
    file.extend_from_slice(&make_tag(9, 0, &[0x17, 0, 0, 0, 0]));
    let mut parser = FLVTagRead::new(&file).expect("header");
    assert_eq!(parser.get_position(), 13);
    let t1 = parser.next(&file).expect("ok").expect("tag");
    assert_eq!(t1.get_tag_type(), FLVTagType::TAG_TYPE_AUDIO);
    let t2 = parser.next(&file).expect("ok").expect("tag");
    assert_eq!(t2.get_tag_type(), FLVTagType::TAG_TYPE_VIDEO);
    assert!(matches!(parser.next(&file), Ok(None)));
    assert_eq!(parser.get_position(), file.len());

    let mut w = FLVTagWrite::new();
    w.write_header(&FLVHeader { hasAudioTags: true, hasVideoTags: true });
    w.write_tag(&t1);
    w.write_tag(&t2);
    assert_eq!(w.get_position(), file.len());
    assert_eq!(w.into_bytes(), file);
}

#[test]
fn meta_objects_round_trip() {
    let mut payload: Vec<u8> = Vec::new();
    write_amf0_value(&mut payload, &s("onMetaData"));
    let obj = Amf0Value::Object(vec![
        ("duration".as_bytes().to_vec(), num(0.0)),
        (
            "keyframes".as_bytes().to_vec(),
            Amf0Value::Object(vec![
                ("times".as_bytes().to_vec(), Amf0Value::Array(vec![])),
                ("filepositions".as_bytes().to_vec(), Amf0Value::Array(vec![])),
            ]),
        ),
    ]);
    write_amf0_value(&mut payload, &obj);
    let bytes = make_tag(18, 0, &payload);
    let mut tag = FLVTag::read(&bytes, 0).expect("read").expect("tag");
    let objs = tag.get_objects().expect("objects");
    assert_eq!(objs.len(), 2);
    assert_eq!(objs[0], s("onMetaData"));
    let replacement = vec![s("onMetaData"), Amf0Value::Object(vec![(
        "duration".as_bytes().to_vec(),
        num(9.5),
    )])];
    tag.set_objects(&replacement).expect("set");
    let objs2 = tag.get_objects().expect("objects");
    assert_eq!(objs2[1], replacement[1]);
    assert_eq!(tag.get_data_size() as usize + 11, tag.get_tag_size() as usize);
}
