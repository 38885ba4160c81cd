use colink::runtime::h264::{
    avcc_parameter_sets_to_annex_b, contains_idr, contains_parameter_sets, h264_to_annex_b,
    has_start_code, nal_unit_types,
};

#[test]
fn converts_length_prefixed_h264_access_unit_to_annex_b() {
    assert_eq!(
        h264_to_annex_b(&[0, 0, 0, 2, 0x67, 0x42, 0, 0, 0, 2, 0x68, 0xce]),
        vec![0, 0, 0, 1, 0x67, 0x42, 0, 0, 0, 1, 0x68, 0xce],
    );
}

#[test]
fn converts_avcc_parameter_sets_to_annex_b() {
    assert_eq!(
        avcc_parameter_sets_to_annex_b(&[
            1, 0x42, 0, 0x1e, 0xff, 0xe1, 0, 2, 0x67, 0x42, 1, 0, 2, 0x68, 0xce,
        ]),
        vec![0, 0, 0, 1, 0x67, 0x42, 0, 0, 0, 1, 0x68, 0xce],
    );
}

#[test]
fn keeps_annex_b_and_unparseable_units() {
    let annex_b = [0, 0, 1, 0x65, 0x88];
    assert_eq!(h264_to_annex_b(&annex_b), annex_b.to_vec());
    assert_eq!(h264_to_annex_b(&[]), Vec::<u8>::new());
    assert_eq!(h264_to_annex_b(&[0, 0, 0, 9, 1]), vec![0, 0, 0, 9, 1]);
}

#[test]
fn falls_back_to_shorter_length_prefixes() {
    assert_eq!(h264_to_annex_b(&[0, 2, 0x65, 0x88]), vec![0, 0, 0, 1, 0x65, 0x88]);
    assert_eq!(h264_to_annex_b(&[1, 0x41]), vec![0, 0, 0, 1, 0x41]);
}

#[test]
fn rejects_malformed_configuration_records() {
    assert!(avcc_parameter_sets_to_annex_b(&[1, 0x42, 0, 0x1e, 0xff, 0xe1]).is_empty());
    assert!(avcc_parameter_sets_to_annex_b(&[2, 0x42, 0, 0x1e, 0xff, 0xe1, 0, 1, 7]).is_empty());
    assert!(avcc_parameter_sets_to_annex_b(&[1, 0x42, 0, 0x1e, 0xff, 0xe1, 0, 9, 0x67]).is_empty());
    assert_eq!(
        avcc_parameter_sets_to_annex_b(&[1, 0x42, 0, 0x1e, 0xff, 0xe1, 0, 1, 0x67]),
        vec![0, 0, 0, 1, 0x67],
    );
}

#[test]
fn finds_nal_unit_types_and_start_codes() {
    let stream = [0, 0, 0, 1, 0x67, 0, 0, 1, 0x68, 0, 0, 1, 0x65, 0xaa];
    assert_eq!(nal_unit_types(&stream), vec![7, 8, 5]);
    assert!(contains_idr(&stream));
    assert!(contains_parameter_sets(&stream));
    assert!(!contains_idr(&[0, 0, 1, 0x41]));
    assert!(!contains_parameter_sets(&[0, 0, 1, 0x67]));
    assert!(has_start_code(&[9, 0, 0, 1]));
    assert!(!has_start_code(&[0, 0, 2, 1]));
    assert_eq!(nal_unit_types(&[0, 0, 1]), Vec::<u8>::new());
}
