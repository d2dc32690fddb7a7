use aheui::hangul::{
    assemble_jamo, count_lines_in_char, disassemble_jamo, get_end_count, Final, Initial, Medial,
};

fn finals() -> Vec<Final> {
    vec![
        Final::Blank,
        Final::Giyeok,
        Final::SsangGiyeok,
        Final::GiyeokSiot,
        Final::Nieun,
        Final::NieunJieut,
        Final::NieunHieuh,
        Final::Digeut,
        Final::Rieul,
        Final::RieulGiyeok,
        Final::RieulMieum,
        Final::RieulBieup,
        Final::RieulSiot,
        Final::RieulThieuth,
        Final::RieulPhieuph,
        Final::RieulHieuh,
        Final::Mieum,
        Final::Bieup,
        Final::BieupSiot,
        Final::Siot,
        Final::SsangSiot,
        Final::Ieung,
        Final::Jieut,
        Final::Chieut,
        Final::Khieukh,
        Final::Thieuth,
        Final::Phieuph,
        Final::Hieuh,
    ]
}

#[test]
fn decompose_of_compose_is_identity_over_component_space() {
    // every character of the syllabic block decomposes, and composing the
    // components gives the character back
    for code in 0xAC00u32..=0xD7A3u32 {
        let c = char::from_u32(code).unwrap();
        let k = disassemble_jamo(c);
        assert_eq!(k.orig, c);
        let (i, m, f) = k.jamo.expect("syllabic character must decompose");
        assert_eq!(assemble_jamo(i, m, f), c);
    }
}

#[test]
fn compose_first_and_last_syllables() {
    assert_eq!(
        assemble_jamo(Initial::Giyeok, Medial::A, Final::Blank),
        char::from_u32(0xAC00).unwrap()
    );
    assert_eq!(
        assemble_jamo(Initial::Hieuh, Medial::I, Final::Hieuh),
        char::from_u32(0xD7A3).unwrap()
    );
}

#[test]
fn decompose_outside_block_is_blank() {
    for c in ['A', '0', ' ', '\n', char::from_u32(0xABFF).unwrap(), char::from_u32(0xD7A4).unwrap()]
    {
        let k = disassemble_jamo(c);
        assert!(k.jamo.is_none());
        assert_eq!(k.orig, c);
    }
}

#[test]
fn end_count_is_table_position() {
    let fs = finals();
    for (i, f) in fs.iter().enumerate() {
        assert_eq!(get_end_count(*f), i);
    }
    assert_eq!(get_end_count(Final::Ieung), 21);
    assert_eq!(get_end_count(Final::Hieuh), 27);
}

#[test]
fn stroke_counts_match_table() {
    assert_eq!(count_lines_in_char(Final::Blank), 0);
    assert_eq!(count_lines_in_char(Final::Giyeok), 2);
    assert_eq!(count_lines_in_char(Final::Digeut), 3);
    assert_eq!(count_lines_in_char(Final::Mieum), 4);
    assert_eq!(count_lines_in_char(Final::Rieul), 5);
    assert_eq!(count_lines_in_char(Final::BieupSiot), 6);
    assert_eq!(count_lines_in_char(Final::RieulGiyeok), 7);
    assert_eq!(count_lines_in_char(Final::RieulHieuh), 8);
    assert_eq!(count_lines_in_char(Final::RieulMieum), 9);
    assert_eq!(count_lines_in_char(Final::Ieung), 0);
    assert_eq!(count_lines_in_char(Final::Hieuh), 0);
}
