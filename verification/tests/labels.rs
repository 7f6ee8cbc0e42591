use flour::bxcad::brcad::{Animation, BRCAD};
use flour::bxcad::labels::chars_of;
use flour::error::Error;

fn brcad(animations: usize) -> BRCAD {
    BRCAD {
        timestamp: None,
        unk0: 0,
        spritesheet_num: 0,
        spritesheet_control: 0,
        texture_width: 0,
        texture_height: 0,
        unk1: 0,
        sprites: vec![],
        unk2: 0,
        animations: (0..animations)
            .map(|i| Animation { name: None, unk: i as u16, steps: vec![] })
            .collect(),
    }
}

fn names(brcad: &BRCAD) -> Vec<Option<&str>> {
    brcad.animations.iter().map(|a| a.name.as_deref()).collect()
}

fn labelled(animations: usize, text: &str) -> BRCAD {
    let mut brcad = brcad(animations);
    brcad.apply_label_text(text).unwrap();
    brcad
}

fn refused(animations: usize, text: &str) {
    let mut doc = brcad(animations);
    doc.animations[0].name = Some("kept".to_string());
    let before = doc.clone();
    assert!(matches!(doc.apply_label_text(text), Err(Error::BadLabelsFile)), "{:?}", text);
    assert_eq!(doc, before, "{:?}", text);
}

#[test]
fn label_application() {
    let mut doc = brcad(3);
    doc.apply_labels(b"#define ATTACK 1\n").unwrap();
    assert_eq!(names(&doc), vec![None, Some("ATTACK"), None]);
    assert_eq!(doc.animations[1].unk, 1);
    let mut doc = brcad(3);
    assert!(matches!(doc.apply_labels(b"#define ATTACK 5\n"), Err(Error::BadLabelsFile)));
    assert_eq!(doc, brcad(3));
}

#[test]
fn several_labels() {
    let doc = labelled(4, "#define A 0\n#define B 3\n#define C 2");
    assert_eq!(names(&doc), vec![Some("A"), None, Some("C"), Some("B")]);
}

#[test]
fn the_later_label_stays() {
    let doc = labelled(2, "#define A 1\n#define B 1\n");
    assert_eq!(names(&doc), vec![None, Some("B")]);
}

#[test]
fn a_label_takes_the_place_of_a_name() {
    let mut doc = brcad(2);
    doc.animations[0].name = Some("old".to_string());
    doc.animations[1].name = Some("other".to_string());
    doc.apply_label_text("#define NEW 0").unwrap();
    assert_eq!(names(&doc), vec![Some("NEW"), Some("other")]);
}

#[test]
fn comments_are_cut_off() {
    let doc = labelled(3, "// #define A 0\n#define B 1 // #define C 2\n#define D 2//x\n");
    assert_eq!(names(&doc), vec![None, Some("B"), Some("D")]);
    // a comment that leaves no index
    refused(3, "#define A // 1\n");
    // one slash is no comment
    let doc = labelled(3, "#define A/B 1 / 2\n");
    assert_eq!(names(&doc), vec![None, Some("A/B"), None]);
}

#[test]
fn tabs_count_as_spaces() {
    let doc = labelled(3, "#define\tA\t1\n#define \t B \t 2\t\n");
    assert_eq!(names(&doc), vec![None, Some("A"), Some("B")]);
}

#[test]
fn what_follows_the_index_is_left_unread() {
    let doc = labelled(3, "#define A 1 2 3\n#define B 2 whatever, really\n");
    assert_eq!(names(&doc), vec![None, Some("A"), Some("B")]);
}

#[test]
fn carriage_returns_end_lines_with_their_line_feed() {
    let doc = labelled(3, "#define A 1\r\n#define B 2\r\n");
    assert_eq!(names(&doc), vec![None, Some("A"), Some("B")]);
    let doc = labelled(3, "\r\n\r\n#define A 1\r\n");
    assert_eq!(names(&doc), vec![None, Some("A"), None]);
    // a last line without a line feed keeps its carriage return, which is
    // white space
    let doc = labelled(3, "#define A 1\r");
    assert_eq!(names(&doc), vec![None, Some("A"), None]);
}

#[test]
fn white_space_around_the_fields() {
    let doc = labelled(3, "#define    A    1   \n#define  B  2");
    assert_eq!(names(&doc), vec![None, Some("A"), Some("B")]);
    let doc = labelled(3, "#define \u{3000}A\u{a0}\u{3000} 1\u{2003}\n");
    assert_eq!(names(&doc), vec![None, Some("A\u{a0}\u{3000}"), None]);
}

#[test]
fn other_lines_are_skipped() {
    let text = "\n\nint x;\n #define A 0\n#defineA 0\n#DEFINE A 0\n#define\n#undef A\n#def";
    assert_eq!(labelled(1, text), brcad(1));
    assert_eq!(labelled(1, ""), brcad(1));
    assert_eq!(labelled(0, "\n"), brcad(0));
}

#[test]
fn numbers() {
    assert_eq!(names(&labelled(12, "#define A 011")), {
        let mut n = vec![None; 12];
        n[11] = Some("A");
        n
    });
    assert_eq!(names(&labelled(2, "#define A +1")), vec![None, Some("A")]);
    assert_eq!(names(&labelled(2, "#define A 0000000000000000000000000000001")), vec![
        None,
        Some("A")
    ]);
    for text in [
        "#define A -1",
        "#define A +",
        "#define A ++1",
        "#define A 1x",
        "#define A x",
        "#define A 0x1",
        "#define A 1.0",
        "#define A １",
        "#define A 1_000",
    ] {
        refused(2000, text);
    }
}

#[test]
fn malformed_definitions() {
    for text in ["#define ", "#define A", "#define A ", "#define   ", "#define A\n#define B 0"] {
        refused(3, text);
    }
}

#[test]
fn index_out_of_range() {
    refused(3, "#define A 3");
    refused(3, "#define A 5");
    refused(3, "#define A 18446744073709551615");
    refused(3, "#define A 18446744073709551616");
    refused(3, "#define A 99999999999999999999999999999999999999");
    let mut doc = brcad(0);
    assert!(matches!(doc.apply_label_text("#define A 0"), Err(Error::BadLabelsFile)));
}

#[test]
fn a_refused_text_changes_nothing() {
    refused(3, "#define A 1\n#define B 2\n#define C 3\n");
    refused(3, "#define A 1\n#define B\n");
}

#[test]
fn labels_in_shift_jis() {
    // "#define アニメ 1 // コメント" in Shift-JIS
    let mut bytes = b"#define ".to_vec();
    bytes.extend_from_slice(&[0x83, 0x41, 0x83, 0x6a, 0x83, 0x81]);
    bytes.extend_from_slice(b" 1 // ");
    bytes.extend_from_slice(&[0x83, 0x52, 0x83, 0x81, 0x83, 0x93, 0x83, 0x67]);
    bytes.push(b'\n');
    let mut doc = brcad(2);
    doc.apply_labels(&bytes).unwrap();
    assert_eq!(names(&doc), vec![None, Some("アニメ")]);
}

#[test]
fn half_width_katakana_is_one_byte_each() {
    let mut bytes = b"#define ".to_vec();
    bytes.extend_from_slice(&[0xb1, 0xb2]);
    bytes.extend_from_slice(b" 0");
    let mut doc = brcad(1);
    doc.apply_labels(&bytes).unwrap();
    assert_eq!(names(&doc), vec![Some("ｱｲ")]);
}

#[test]
fn labels_that_are_not_shift_jis() {
    let mut doc = brcad(2);
    doc.animations[1].name = Some("kept".to_string());
    let before = doc.clone();
    // a lead byte without its trail byte
    assert!(matches!(
        doc.apply_labels(b"#define A 0\n\x83"),
        Err(Error::LabelsFileNotShiftJIS)
    ));
    assert!(matches!(
        doc.apply_labels(b"#define \xfd\xfe 0\n"),
        Err(Error::LabelsFileNotShiftJIS)
    ));
    assert_eq!(doc, before);
}

#[test]
fn characters_of_a_text() {
    assert_eq!(chars_of(""), Vec::<char>::new());
    assert_eq!(chars_of("aé🎵"), vec!['a', 'é', '🎵']);
}
