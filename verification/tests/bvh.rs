use backlot::bvh::{clip_frame_check, parse_bvh, BvhError};

#[test]
fn parses_minimal_motion() {
    let bvh = "HIERARCHY\nROOT Hips\n{\nOFFSET 0 0 0\nCHANNELS 6 Xposition Yposition Zposition Zrotation Xrotation Yrotation\nJOINT Chest\n{\nOFFSET 0 1 0\nCHANNELS 3 Zrotation Xrotation Yrotation\n}\n}\nMOTION\nFrames: 1\nFrame Time: 0.033333\n0 0 0 0 0 0 0 0 0";
    let parsed = parse_bvh(bvh).unwrap();
    assert_eq!(parsed.joints.len(), 2);
    assert_eq!(parsed.joints[1].parent, Some(0));
    assert_eq!(parsed.frames[0].len(), 9);
}

#[test]
fn bvh_keeps_names_offsets_channels_and_tokens() {
    let bvh = "HIERARCHY\r\nROOT Root\r\n{\r\n  OFFSET 0 0 0\r\n  CHANNELS 6 Xposition Yposition Zposition Zrotation Yrotation Xrotation\r\n  JOINT Hips\r\n  {\r\n    OFFSET 0 100 0 7\r\n    CHANNELS 3 Zrotation Yrotation Xrotation\r\n  }\r\n}\r\nMOTION\r\nFrames: 2\r\nFrame Time: 0.033333\r\n0 0 0 0 0 0 0 0 0\r\n\r\n0 0 0 0 0 0 30 -1.5e2 .5\r\n";
    let parsed = parse_bvh(bvh).unwrap();
    assert_eq!(parsed.joints[0].name, "Root");
    assert_eq!(parsed.joints[0].parent, None);
    assert_eq!(parsed.joints[1].name, "Hips");
    assert_eq!(parsed.joints[1].offset, vec!["0", "100", "0"]);
    assert_eq!(parsed.joints[1].channels, vec!["Zrotation", "Yrotation", "Xrotation"]);
    assert_eq!(parsed.frame_time, "0.033333");
    assert_eq!(parsed.frames.len(), 2);
    assert_eq!(parsed.frames[1][6], "30");
    assert_eq!(parsed.frames[1][7], "-1.5e2");
    assert_eq!(parsed.frames[1][8], ".5");
}

#[test]
fn bvh_without_motion_is_refused() {
    assert!(matches!(parse_bvh("HIERARCHY\nROOT Hips\n{\n}\n"), Err(BvhError::MissingMotion)));
}

#[test]
fn bvh_offset_with_a_bad_number_is_refused() {
    let bvh = "ROOT Hips\n{\nOFFSET 0 x1 0\n}\nMOTION\nFrames: 1\nFrame Time: 0.1\n";
    match parse_bvh(bvh) {
        Err(BvhError::InvalidNumber(t)) => assert_eq!(t, "x1"),
        other => panic!("unexpected {:?}", other),
    }
}

#[test]
fn bvh_frame_metadata_must_be_readable() {
    let no_count = "ROOT Hips\n{\nCHANNELS 1 Xrotation\n}\nMOTION\nFrames: many\nFrame Time: 0.1\n0\n";
    assert!(matches!(parse_bvh(no_count), Err(BvhError::InvalidFrameMetadata)));
    let bad_time = "ROOT Hips\n{\nCHANNELS 1 Xrotation\n}\nMOTION\nFrames: 1\nFrame Time: soon\n0\n";
    assert!(matches!(parse_bvh(bad_time), Err(BvhError::InvalidFrameMetadata)));
    let short = "ROOT Hips\n{\nCHANNELS 1 Xrotation\n}\nMOTION\nFrames: 3\nFrame Time: 0.1\n0\n1\n";
    assert!(matches!(parse_bvh(short), Err(BvhError::InvalidFrameMetadata)));
}

#[test]
fn bvh_frames_are_checked_in_order() {
    let wrong_count = "ROOT Hips\n{\nCHANNELS 2 Xrotation Yrotation\n}\nMOTION\nFrames: 2\nFrame Time: 0.1\n0 1\n0 1 2\n";
    match parse_bvh(wrong_count) {
        Err(BvhError::ChannelCount { frame, actual, expected }) => {
            assert_eq!((frame, actual, expected), (1, 3, 2));
        }
        other => panic!("unexpected {:?}", other),
    }
    let bad_value = "ROOT Hips\n{\nCHANNELS 2 Xrotation Yrotation\n}\nMOTION\nFrames: 2\nFrame Time: 0.1\n0 nope 7\n0 1\n";
    match parse_bvh(bad_value) {
        Err(BvhError::InvalidNumber(t)) => assert_eq!(t, "nope"),
        other => panic!("unexpected {:?}", other),
    }
    let extra_rows = "ROOT Hips\n{\nCHANNELS 1 Xrotation\n}\nMOTION\nFrames: 1\nFrame Time: 0.1\n4\nnot read\n";
    assert_eq!(parse_bvh(extra_rows).unwrap().frames, vec![vec!["4".to_string()]]);
}

#[test]
fn bvh_number_tokens_follow_the_float_grammar() {
    let row = |tok: &str| {
        format!("ROOT Hips\n{{\nCHANNELS 1 Xrotation\n}}\nMOTION\nFrames: 1\nFrame Time: 0.1\n{}\n", tok)
    };
    for ok in ["1", "+1", "-0.5", "5.", ".5", "1e3", "1E-3", "inf", "-Infinity", "NaN"] {
        assert!(parse_bvh(&row(ok)).is_ok(), "{ok} should read");
        assert!(ok.parse::<f32>().is_ok());
    }
    for bad in [".", "e3", "1e", "1.2.3", "--1", "0x10", "in"] {
        assert!(parse_bvh(&row(bad)).is_err(), "{bad} should be refused");
        assert!(bad.parse::<f32>().is_err());
    }
}

#[test]
fn clip_frames_must_match_the_sidecar() {
    assert!(matches!(clip_frame_check(0, 0, 0), Err(BvhError::NoFrames)));
    assert!(matches!(clip_frame_check(2, 1, 0), Err(BvhError::SidecarFrameCount)));
    assert!(matches!(clip_frame_check(2, 2, 1), Err(BvhError::SidecarFrameCount)));
    assert!(clip_frame_check(2, 2, 0).is_ok());
    assert!(clip_frame_check(2, 2, 2).is_ok());
}
