use libvpuppr::frame::Vector3;
use libvpuppr::text_protocol::{decode_text, DataParser, TextIssue};

fn v(x: &str, y: &str, z: &str) -> Vector3<String> {
    Vector3 { x: x.to_string(), y: y.to_string(), z: z.to_string() }
}

#[test]
fn head_and_smile_scenario() {
    let r = DataParser::ifacial_mocap(b"=head#1.0,0.0,0.0,0.5,0.0,0.0|Smile-50");
    let f = &r.frame;
    assert_eq!(f.head_rotation, Some(v("1.0", "0.0", "0.0")));
    assert_eq!(f.head_position, Some(v("0.5", "0.0", "0.0")));
    assert_eq!(f.blend_shapes.len(), 1);
    assert_eq!(f.blend_shapes.get("smile"), Some(&50));
    let rot = f.head_rotation.as_ref().unwrap();
    assert_eq!(rot.x.parse::<f32>().unwrap(), 1.0);
    assert_eq!(f32::from(*f.blend_shapes.get("smile").unwrap()) / 100.0, 0.5);
    assert!(r.issues.is_empty());
}

#[test]
fn head_six_values_split_three_and_three() {
    let r = decode_text("=head#1,2,3,4,5,6");
    assert_eq!(r.frame.head_rotation, Some(v("1", "2", "3")));
    assert_eq!(r.frame.head_position, Some(v("4", "5", "6")));
}

#[test]
fn head_extra_values_ignored() {
    let r = decode_text("=head#1,2,3,4,5,6,7,8");
    assert_eq!(r.frame.head_position, Some(v("4", "5", "6")));
}

#[test]
fn head_missing_values_are_empty() {
    let r = decode_text("=head#1,2");
    assert_eq!(r.frame.head_rotation, Some(v("1", "2", "")));
    assert_eq!(r.frame.head_position, Some(v("", "", "")));
}

#[test]
fn eye_tokens() {
    let r = decode_text("rightEye#1,2,3|leftEye#4,5,6,7");
    assert_eq!(r.frame.right_eye_rotation, Some(v("1", "2", "3")));
    assert_eq!(r.frame.left_eye_rotation, Some(v("4", "5", "6")));
    assert_eq!(r.frame.head_rotation, None);
}

#[test]
fn blend_keys_are_normalised() {
    let r = decode_text("eyeBlink_L-75|mouthSmile_R--20|Jaw_Open-abc");
    let s = &r.frame.blend_shapes;
    assert_eq!(s.len(), 3);
    assert_eq!(s.get("eyeblinkleft"), Some(&75));
    assert_eq!(s.get("mouthsmileright"), Some(&-20));
    assert_eq!(s.get("jaw_open"), Some(&0));
    assert_eq!(
        r.issues,
        vec![TextIssue::UnreadableWeight { key: "Jaw_Open".to_string(), value: "abc".to_string() }]
    );
}

#[test]
fn blend_weight_reading() {
    let r = decode_text("a-40000|b-+5|c-|d-32767|e--32768|f-1x");
    let s = &r.frame.blend_shapes;
    assert_eq!(s.get("a"), Some(&0));
    assert_eq!(s.get("b"), Some(&5));
    assert_eq!(s.get("c"), Some(&0));
    assert_eq!(s.get("d"), Some(&32767));
    assert_eq!(s.get("e"), Some(&-32768));
    assert_eq!(s.get("f"), Some(&0));
    let unreadable: Vec<&str> = r
        .issues
        .iter()
        .map(|i| match i {
            TextIssue::UnreadableWeight { key, .. } => key.as_str(),
            _ => "",
        })
        .collect();
    assert_eq!(unreadable, vec!["a", "c", "f"]);
}

#[test]
fn later_blend_token_wins() {
    let r = decode_text("a-1|A-2");
    assert_eq!(r.frame.blend_shapes.len(), 1);
    assert_eq!(r.frame.blend_shapes.get("a"), Some(&2));
}

#[test]
fn empty_datagram_is_empty_frame() {
    let r = DataParser::ifacial_mocap(b"");
    assert_eq!(r.frame.head_rotation, None);
    assert_eq!(r.frame.head_position, None);
    assert_eq!(r.frame.left_eye_rotation, None);
    assert_eq!(r.frame.right_eye_rotation, None);
    assert_eq!(r.frame.blend_shapes.len(), 0);
    assert!(r.issues.is_empty());
}

#[test]
fn invalid_utf8_is_reported() {
    let r = DataParser::ifacial_mocap(&[b'a', 0xff, 0xfe]);
    assert_eq!(r.issues, vec![TextIssue::InvalidUtf8]);
    assert_eq!(r.frame.blend_shapes.len(), 0);
    assert_eq!(r.frame.head_rotation, None);
}

#[test]
fn utf8_text_is_decoded() {
    let r = DataParser::ifacial_mocap("ÄÖ-12".as_bytes());
    assert!(r.issues.is_empty());
    assert_eq!(r.frame.blend_shapes.get("äö"), Some(&12));
}

#[test]
fn unknown_and_unrecognised_tokens() {
    let r = decode_text("foo#1|bar||");
    assert_eq!(
        r.issues,
        vec![
            TextIssue::UnknownKey { key: "foo".to_string() },
            TextIssue::Unrecognized { token: "bar".to_string() },
        ]
    );
}
