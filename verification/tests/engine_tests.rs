use flv_toolbox::amf0::{write_amf0_value, Amf0Value};
use flv_toolbox::drift::{check_offset, fix_decision, need_fix, offset_analysis, FixDecision};
use flv_toolbox::endian::push_u32_be;
use flv_toolbox::fix::{get_fix_info, get_fix_info2, mark_gop_deletions};
use flv_toolbox::profile::{get_info, TagProfile, MAX_ID};
use flv_toolbox::rewrite::fix_file;
use flv_toolbox::tag::{FLVTag, FLVTagRead, FLVTagType};
use flv_toolbox::FlvError;

fn make_tag(tag_type: u8, ts_ms: u32, payload: &[u8]) -> Vec<u8> {
    let ds = payload.len() as u32;
    let mut v: Vec<u8> = Vec::new();
    v.push(tag_type);
    v.push(((ds >> 16) & 0xff) as u8);
    v.push(((ds >> 8) & 0xff) as u8);
    v.push((ds & 0xff) as u8);
    v.push(((ts_ms >> 16) & 0xff) as u8);
    v.push(((ts_ms >> 8) & 0xff) as u8);
    v.push((ts_ms & 0xff) as u8);
    v.push(((ts_ms >> 24) & 0xff) as u8);
    v.push(0);
    v.push(0);
    v.push(0);
    v.extend_from_slice(payload);
    let total = v.len() as u32;
    push_u32_be(&mut v, total);
    v
}

fn header_bytes() -> Vec<u8> {
    vec![b'F', b'L', b'V', 1, 5, 0, 0, 0, 9, 0, 0, 0, 0]
}

// audio sequence header naming the 8000 Hz table entry, stereo: the nominal
// frame duration is then exactly 128 ms.
fn audio_sh(ts: u32) -> Vec<u8> {
    make_tag(8, ts, &[0xAF, 0, 0x15, 0x90])
}

fn audio_frame(ts: u32) -> Vec<u8> {
    make_tag(8, ts, &[0xAF, 1, 0x21, 0x10])
}

fn video_sh(ts: u32) -> Vec<u8> {
    make_tag(9, ts, &[0x17, 0, 0, 0, 0, 1, 0x64, 0, 0x1f, 0xff, 0xe1, 0, 1, 0x67, 1, 0, 2, 0x68,
        0xee])
}

fn video_frame(ts: u32, keyframe: bool) -> Vec<u8> {
    let first = if keyframe { 0x17 } else { 0x27 };
    make_tag(9, ts, &[first, 1, 0, 0, 0, 0, 0, 0, 1, 0x41])
}

fn meta_tag() -> Vec<u8> {
    let mut payload: Vec<u8> = Vec::new();
    write_amf0_value(&mut payload, &Amf0Value::Str("onMetaData".as_bytes().to_vec()));
    let obj = Amf0Value::Object(vec![
        ("duration".as_bytes().to_vec(), Amf0Value::Number(0f64.to_bits())),
        (
            "keyframes".as_bytes().to_vec(),
            Amf0Value::Object(vec![
                ("times".as_bytes().to_vec(), Amf0Value::Array(vec![])),
                ("filepositions".as_bytes().to_vec(), Amf0Value::Array(vec![])),
            ]),
        ),
    ]);
    write_amf0_value(&mut payload, &obj);
    make_tag(18, 0, &payload)
}

// D is the nominal frame duration: 128 ms at the 8000 Hz table entry.
const D: u32 = 128;

fn build_file(audio_ts: &[u32], video_ts: &[(u32, bool)], with_meta: bool) -> Vec<u8> {
    let mut f = header_bytes();
    if with_meta {
        f.extend_from_slice(&meta_tag());
    }
    f.extend_from_slice(&audio_sh(0));
    f.extend_from_slice(&video_sh(0));
    for &(ts, kf) in video_ts {
        f.extend_from_slice(&video_frame(ts, kf));
    }
    for &ts in audio_ts {
        f.extend_from_slice(&audio_frame(ts));
    }
    f
}

#[test]
fn profiler_classifies_records() {
    let file = build_file(&[0, D], &[(0, true), (40, false)], true);
    let (info, rate, channels) = get_info(&file).expect("profile");
    assert_eq!(rate, 8000);
    assert_eq!(channels, 2);
    assert_eq!(info.len(), 7);
    assert_eq!(info[0].tag_type, FLVTagType::TAG_TYPE_SCRIPTDATAOBJECT);
    assert!(info[1].sequence_header);
    assert_eq!(info[1].tag_type, FLVTagType::TAG_TYPE_AUDIO);
    assert!(info[2].sequence_header);
    assert_eq!(info[2].tag_type, FLVTagType::TAG_TYPE_VIDEO);
    assert!(info[3].keyframe);
    assert_eq!(info[5].timestamp_us, 0);
    assert_eq!(info[6].timestamp_us, (D as i64) * 1000);
    assert_eq!(info[6].decode_duration_us, 128000);
}

#[test]
fn profiler_rejects_single_stream() {
    let mut f: Vec<u8> = vec![b'F', b'L', b'V', 1, 4, 0, 0, 0, 9, 0, 0, 0, 0];
    f.extend_from_slice(&audio_sh(0));
    assert_eq!(get_info(&f).unwrap_err(), FlvError::SingleStream);
}

#[test]
fn profiler_rejects_other_sound_formats() {
    let mut f = header_bytes();
    f.extend_from_slice(&make_tag(8, 0, &[0x2F, 1, 0, 0])); // MP3 format code
    assert_eq!(get_info(&f).unwrap_err(), FlvError::NotAac);
}

#[test]
fn profiler_needs_config_before_frames() {
    let mut f = header_bytes();
    f.extend_from_slice(&audio_frame(0));
    assert_eq!(get_info(&f).unwrap_err(), FlvError::NoAudioConfig);
}

#[test]
fn profiler_rejects_unknown_codec() {
    let mut f = header_bytes();
    f.extend_from_slice(&make_tag(9, 0, &[0x13, 1, 0, 0, 0])); // codec id 3
    assert_eq!(get_info(&f).unwrap_err(), FlvError::UnsupportedCodec);
}

#[test]
fn profiler_rejects_bad_sample_index() {
    let mut f = header_bytes();
    // sample index 13 points past the rate table
    f.extend_from_slice(&make_tag(8, 0, &[0xAF, 0, 0x16, 0x90]));
    f.extend_from_slice(&audio_frame(0));
    assert_eq!(get_info(&f).unwrap_err(), FlvError::BadAudioConfig);
}

#[test]
fn detector_stays_silent_on_ideal_timeline() {
    let file = build_file(&[0, D, 2 * D, 3 * D], &[(0, true)], false);
    let (info, _, _) = get_info(&file).expect("profile");
    let (events, count, audio_count) = check_offset(&info);
    assert_eq!(events.len(), 0);
    assert_eq!(count, 0);
    assert_eq!(audio_count, 4);
}

#[test]
fn detector_reports_stall_and_jump() {
    // a stall then a jump: 0, D, D, 3D
    let file = build_file(&[0, D, D, 3 * D], &[(0, true)], false);
    let (info, _, _) = get_info(&file).expect("profile");
    let (events, count, audio_count) = check_offset(&info);
    assert_eq!(audio_count, 4);
    assert_eq!(count, 2);
    // the third frame repeats the second: it arrives one duration early
    assert_eq!(events[0].current_offset, -(D as i64) * 1000);
    assert_eq!(events[0].tm_to, (D as i64) * 1000);
    assert_eq!(events[0].total_offset, (D as i64) * 1000 - 2 * (D as i64) * 1000);
    // the fourth frame jumps one duration past the predicted end
    assert_eq!(events[1].current_offset, (D as i64) * 1000);
    assert_eq!(events[1].total_offset, 0);
    let (max_offset, sum_offset) = offset_analysis(&events);
    assert_eq!(max_offset, -(D as i64) * 1000);
    assert_eq!(sum_offset, 2 * (D as i64) * 1000);
}

#[test]
fn threshold_gate_refuses_small_drift() {
    // P5: a drift whose magnitude stays below the threshold must yield no fix
    let max_offset: i64 = 50_000;
    let threshold: i64 = 100_000;
    assert_eq!(fix_decision(max_offset, threshold, 1, 100, 1_000_000), FixDecision::BelowThreshold);
    assert!(!need_fix(max_offset, threshold, 1, 100, 1_000_000));
    assert_eq!(fix_decision(200_000, threshold, 1, 100, 1_000_000), FixDecision::Fix);
    // one in two frames drifting is over a 1% allowance
    assert_eq!(fix_decision(200_000, threshold, 1, 2, 10_000), FixDecision::RateTooHigh);
    assert!(!need_fix(200_000, threshold, 1, 2, 10_000));
    assert!(need_fix(200_000, threshold, 1, 1000, 10_000));
}

#[test]
fn gop_deletion_is_atomic() {
    // P4: one deleted frame takes its whole keyframe-delimited run with it
    let mut v: Vec<TagProfile> = Vec::new();
    for (i, &(kf, del)) in [
        (true, false),
        (false, true),
        (false, false),
        (true, false),
        (false, false),
    ]
        .iter()
        .enumerate()
    {
        let mut p = TagProfile::new_video(i as u64, (i as i64) * 40_000, 0, false, kf, 0);
        p.deleted = del;
        v.push(p);
    }
    mark_gop_deletions(&mut v);
    assert!(v[0].deleted);
    assert!(v[1].deleted);
    assert!(v[2].deleted);
    assert!(!v[3].deleted);
    assert!(!v[4].deleted);
}

#[test]
fn drop_strategy_deletes_gap_videos_by_gop() {
    // audio stalls: frames at 0, D, D, 3D, 4D; videos inside the overlap zone
    let file = build_file(
        &[0, D, 2 * D, 5 * D, 6 * D],
        &[(3 * D, true), (3 * D + 20, false), (6 * D, true)],
        false,
    );
    let (info, _, _) = get_info(&file).expect("profile");
    let fixed = get_fix_info(info);
    // the verbatim partition leads: audio then video sequence headers
    assert!(fixed[0].sequence_header && fixed[0].tag_type == FLVTagType::TAG_TYPE_AUDIO);
    assert!(fixed[1].sequence_header && fixed[1].tag_type == FLVTagType::TAG_TYPE_VIDEO);
    // the two videos inside the gap are gone, the later keyframe survives
    let videos: Vec<&TagProfile> = fixed
        .iter()
        .filter(|p| p.tag_type == FLVTagType::TAG_TYPE_VIDEO && !p.sequence_header)
        .collect();
    assert_eq!(videos.len(), 1);
    assert_eq!(videos[0].timestamp_us, 6 * (D as i64) * 1000);
    // the audio frames all survive with the gap absorbed into their shift
    let audios: Vec<&TagProfile> = fixed
        .iter()
        .filter(|p| p.tag_type == FLVTagType::TAG_TYPE_AUDIO && !p.sequence_header)
        .collect();
    assert_eq!(audios.len(), 5);
    let last = audios[audios.len() - 1];
    assert_eq!(last.timestamp_us + last.offset_us, 4 * (D as i64) * 1000);
}

#[test]
fn fill_strategy_inserts_exact_silence() {
    // P6: one audio gap of exactly three nominal durations, fill mode
    let file = build_file(
        &[0, D, 2 * D, 6 * D, 7 * D],
        &[(0, true), (2 * D, false), (5 * D, false)],
        true,
    );
    let (info, rate, channels) = get_info(&file).expect("profile");
    let mute = TagProfile::new_mute(0, rate, channels);
    assert_eq!(mute.decode_duration_us, 128_000);
    let fixed = get_fix_info2(info, mute, false);
    let silents: Vec<&TagProfile> = fixed.iter().filter(|p| p.id == MAX_ID).collect();
    assert_eq!(silents.len(), 3);
    let gap_left = 3 * (D as i64) * 1000;
    assert_eq!(silents[0].timestamp_us, gap_left);
    assert_eq!(silents[1].timestamp_us, gap_left + 128_000);
    assert_eq!(silents[2].timestamp_us, gap_left + 2 * 128_000);
    // this strategy never deletes video
    assert!(fixed.iter().all(|p| !p.deleted));
    // and the full pipeline produces an output stream with the silence added
    let out = fix_file(&file, &fixed).expect("rewrite");
    let mut parser = FLVTagRead::new(&out).expect("header");
    let mut audio_count = 0;
    let mut video_count = 0;
    let mut meta_count = 0;
    loop {
        match parser.next(&out).expect("scan") {
            None => break,
            Some(t) => match t.get_tag_type() {
                FLVTagType::TAG_TYPE_AUDIO => audio_count += 1,
                FLVTagType::TAG_TYPE_VIDEO => video_count += 1,
                FLVTagType::TAG_TYPE_SCRIPTDATAOBJECT => meta_count += 1,
            },
        }
    }
    assert_eq!(meta_count, 1);
    assert_eq!(audio_count, 1 + 5 + 3); // sequence header, originals, silence
    assert_eq!(video_count, 1 + 3);
}

#[test]
fn offset_mode_fills_to_overlap() {
    let file = build_file(&[0, D, 2 * D, 6 * D - 50, 7 * D - 50], &[(0, true)], false);
    let (info, rate, channels) = get_info(&file).expect("profile");
    let mute = TagProfile::new_mute(0, rate, channels);
    let fixed = get_fix_info2(info, mute, true);
    let silents: Vec<&TagProfile> = fixed.iter().filter(|p| p.id == MAX_ID).collect();
    // fill runs to or past the gap's right edge, then the shift absorbs the rest
    assert_eq!(silents.len(), 3);
    let audios: Vec<&TagProfile> = fixed
        .iter()
        .filter(|p| p.tag_type == FLVTagType::TAG_TYPE_AUDIO && !p.sequence_header && p.id != MAX_ID)
        .collect();
    let last = audios[audios.len() - 1];
    assert!(last.offset_us > 0);
}

#[test]
fn rewriter_rejects_double_sequence_headers() {
    // P7: a plan failing the single-sequence-header guard produces no output
    let mut f = header_bytes();
    f.extend_from_slice(&audio_sh(0));
    f.extend_from_slice(&audio_sh(0));
    f.extend_from_slice(&video_sh(0));
    f.extend_from_slice(&audio_frame(0));
    let (info, _, _) = get_info(&f).expect("profile");
    let r = fix_file(&f, &info);
    assert_eq!(r.unwrap_err(), FlvError::BadAudioSequenceHeaderCount);
    // and a plan without a video sequence header is refused as well
    let mut g = header_bytes();
    g.extend_from_slice(&audio_sh(0));
    let info2 = vec![TagProfile::new_audio(0, 0, 13, true, 0)];
    let r2 = fix_file(&g, &info2);
    assert_eq!(r2.unwrap_err(), FlvError::BadVideoSequenceHeaderCount);
}

#[test]
fn rewriter_rejects_double_metadata() {
    let mut f = header_bytes();
    f.extend_from_slice(&meta_tag());
    f.extend_from_slice(&meta_tag());
    f.extend_from_slice(&audio_sh(0));
    f.extend_from_slice(&video_sh(0));
    f.extend_from_slice(&audio_frame(0));
    let (info, _, _) = get_info(&f).expect("profile");
    assert_eq!(fix_file(&f, &info).unwrap_err(), FlvError::BadMetadataCount);
}

#[test]
fn rewriter_round_trips_stream() {
    let file = build_file(&[0, D, 2 * D], &[(0, true), (D, false)], true);
    let (info, _, _) = get_info(&file).expect("profile");
    let out = fix_file(&file, &info).expect("rewrite");
    // the output opens with the file header and a patched metadata record
    assert_eq!(&out[..13], &file[..13]);
    let mut parser = FLVTagRead::new(&out).expect("header");
    let meta = parser.next(&out).expect("scan").expect("meta");
    assert_eq!(meta.get_tag_type(), FLVTagType::TAG_TYPE_SCRIPTDATAOBJECT);
    let objs = meta.get_objects().expect("objects");
    assert_eq!(objs.len(), 2);
    // duration covers the last audio frame: 3 x 128 ms = 0.384 s
    match &objs[1] {
        Amf0Value::Object(es) => {
            let dur = es.iter().find(|p| p.0 == b"duration".to_vec()).expect("duration");
            match dur.1 {
                Amf0Value::Number(bits) => assert_eq!(f64::from_bits(bits), 0.384),
                _ => panic!("duration is not a number"),
            }
            assert!(es.iter().any(|p| p.0 == b"gapfixedby".to_vec()));
            // the second write patched the placeholder with real offsets
            let kf = es.iter().find(|p| p.0 == b"keyframes".to_vec()).expect("keyframes");
            match &kf.1 {
                Amf0Value::Object(ke) => {
                    let fp = ke
                        .iter()
                        .find(|p| p.0 == b"filepositions".to_vec())
                        .expect("filepositions");
                    match &fp.1 {
                        Amf0Value::Array(items) => {
                            // the video sequence header counts as a keyframe too
                            assert_eq!(items.len(), 2);
                            for it in items {
                                match it {
                                    Amf0Value::Number(bits) => {
                                        let pos = f64::from_bits(*bits);
                                        // keyframes land after header and metadata
                                        assert!(pos > 13.0);
                                        assert_eq!(pos, pos.floor());
                                    },
                                    _ => panic!("position is not a number"),
                                }
                            }
                        },
                        _ => panic!("filepositions is not an array"),
                    }
                },
                _ => panic!("keyframes is not a record"),
            }
        },
        _ => panic!("metadata is not a record"),
    }
}

#[test]
fn mute_profile_materializes_as_tag() {
    let mute = TagProfile::new_mute(512_000, 44100, 2);
    assert_eq!(mute.id, MAX_ID);
    assert_eq!(mute.decode_duration_us, 23219);
    let shifted = mute.with_timestamp_us(1_000_000);
    assert_eq!(shifted.timestamp_us, 1_000_000);
    assert_eq!(shifted.position, 2);
    let data: Vec<u8> = Vec::new();
    let tag: FLVTag = shifted.tag(&data).expect("mute tag");
    assert_eq!(tag.get_timestamp(), 1000);
    assert_eq!(tag.get_tag_type(), FLVTagType::TAG_TYPE_AUDIO);
}
