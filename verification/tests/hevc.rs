//! HEVC byte streams.
use remote_play::hevc::{
    DecoderFormat, FormatOutcome, FrameUnits, encoder_output_to_annex_b, find_start,
    hevc_nal_type, is_hevc_keyframe, is_hevc_vcl, opens_keyframe, start_code_len,
    take_access_unit,
};

#[test]
fn splits_two_vcl_nals_into_access_units() {
    let mut buffer = vec![
        0, 0, 0, 1, 0x02, 0xAA, // trail VCL
        0, 0, 0, 1, 0x02, 0xBB, // next picture VCL
        0, 0, 0, 1, 0x02, // incomplete
    ];
    let first = take_access_unit(&mut buffer).expect("first AU");
    assert_eq!(first, vec![0, 0, 0, 1, 0x02, 0xAA]);
    assert!(take_access_unit(&mut buffer).is_none());
}

#[test]
fn detects_idr_keyframe() {
    let idr = vec![0, 0, 0, 1, 40, 0x00]; // type 20
    assert!(is_hevc_keyframe(&idr));
    let trail = vec![0, 0, 0, 1, 0x02, 0x00];
    assert!(!is_hevc_keyframe(&trail));
}

#[test]
fn start_codes_have_three_or_four_bytes() {
    assert_eq!(start_code_len(&[0, 0, 0, 1, 9]), 4);
    assert_eq!(start_code_len(&[0, 0, 1, 9]), 3);
    assert_eq!(start_code_len(&[0, 0, 0, 0, 1]), 0);
    assert_eq!(start_code_len(&[0, 0]), 0);
    assert_eq!(find_start(&[7, 0, 0, 1, 9], 0), Some(1));
    assert_eq!(find_start(&[7, 0, 0, 1, 9], 2), None);
    assert_eq!(find_start(&[7], 5), None);
}

#[test]
fn unit_types_come_from_the_byte_behind_the_code() {
    assert_eq!(hevc_nal_type(&[0, 0, 0, 1, 0x40, 1]), Some(32));
    assert_eq!(hevc_nal_type(&[0, 0, 1, 0x26]), Some(19));
    assert_eq!(hevc_nal_type(&[0, 0, 0, 1]), None);
    assert!(is_hevc_vcl(31));
    assert!(!is_hevc_vcl(32));
}

#[test]
fn bytes_before_the_first_start_code_are_dropped() {
    let mut buffer = vec![9, 9, 0, 0, 1, 0x02, 0xAA, 0, 0, 1, 0x02, 0xBB, 0, 0, 1, 0x02];
    let first = take_access_unit(&mut buffer).expect("first AU");
    assert_eq!(first, vec![0, 0, 1, 0x02, 0xAA]);
    assert_eq!(buffer, vec![0, 0, 1, 0x02, 0xBB, 0, 0, 1, 0x02]);
}

#[test]
fn first_unit_tells_whether_decoding_can_start() {
    assert!(opens_keyframe(&[0, 0, 0, 1, 0x40, 1])); // parameter set
    assert!(opens_keyframe(&[0, 0, 0, 1, 38, 1])); // type 19
    assert!(!opens_keyframe(&[0, 0, 0, 1, 0x02, 1]));
    assert!(!opens_keyframe(&[0, 0, 0, 1]));
}

#[test]
fn lengths_become_start_codes_and_back() {
    let sets = vec![vec![0x40, 1, 7], vec![0x42, 1, 8], vec![0x44, 1, 9]];
    let data = [0, 0, 0, 3, 0x26, 1, 5, 0, 0, 0, 2, 0x02, 6];
    let stream = encoder_output_to_annex_b(&sets, true, &data);
    assert_eq!(
        stream,
        vec![
            0, 0, 0, 1, 0x40, 1, 7, 0, 0, 0, 1, 0x42, 1, 8, 0, 0, 0, 1, 0x44, 1, 9, 0, 0, 0, 1,
            0x26, 1, 5, 0, 0, 0, 1, 0x02, 6,
        ]
    );

    let units = FrameUnits::parse(&stream);
    assert_eq!(units.vps, Some(vec![0x40, 1, 7]));
    assert_eq!(units.sps, Some(vec![0x42, 1, 8]));
    assert_eq!(units.pps, Some(vec![0x44, 1, 9]));
    assert_eq!(units.pictures, data.to_vec());

    // Without a keyframe the parameter sets stay away; what is cut short stays away too.
    let cut = [0, 0, 0, 1, 0x02, 0, 0, 0, 9, 1, 2];
    assert_eq!(
        encoder_output_to_annex_b(&sets, false, &cut),
        vec![0, 0, 0, 1, 0x02]
    );
}

#[test]
fn decoder_is_set_up_once_the_parameter_sets_are_there() {
    let mut format = DecoderFormat::new();
    let picture = FrameUnits::parse(&[0, 0, 0, 1, 0x02, 1, 5]);
    assert!(!format.needs_setup(&picture));
    assert_eq!(
        format.check_decodable(&picture),
        Err("No frame data or session not ready")
    );

    let key = FrameUnits::parse(&[
        0, 0, 0, 1, 0x40, 7, 0, 0, 0, 1, 0x42, 8, 0, 0, 0, 1, 0x44, 9, 0, 0, 0, 1, 0x26, 1,
    ]);
    assert!(format.needs_setup(&key));
    format.set_up(FormatOutcome::Ready);
    assert_eq!(format.check_decodable(&key), Ok(()));
    assert!(!format.needs_setup(&key));
}

#[test]
fn access_units_are_the_same_however_the_stream_comes_in() {
    let stream = vec![
        9, 9, // before the first code
        0, 0, 0, 1, 0x40, 1, // parameters
        0, 0, 1, 40, 2, 0, 0, // a picture
        0, 0, 0, 1, 0x02, 3, // another
        0, 0, 1, 0x02, 4, // and another
        0, 0, 1, 0x02,
    ];
    let mut whole = stream.clone();
    let mut at_once = Vec::new();
    while let Some(unit) = take_access_unit(&mut whole) {
        at_once.push(unit);
    }
    let mut bit_by_bit = Vec::new();
    let mut buffer = Vec::new();
    for byte in stream {
        buffer.push(byte);
        while let Some(unit) = take_access_unit(&mut buffer) {
            bit_by_bit.push(unit);
        }
    }
    assert_eq!(at_once.len(), 2);
    assert_eq!(at_once, bit_by_bit);
}
