//! Decomposition and composition of syllabic characters into their three
//! phonetic components, together with the fixed component tables the
//! interpreter dispatches on: 19 initial consonants, 21 medial vowels and
//! 28 final consonant pairs (the empty pair included).

use vstd::prelude::*;

verus! {

/// First code point of the syllabic block.
pub const SYLLABLE_BASE: u32 = 0xAC00;
/// Last code point of the syllabic block.
pub const SYLLABLE_LAST: u32 = 0xD7A3;

/// The 19 initial consonants, in code-point order.
#[derive(Clone, Copy, PartialEq, Eq, Debug)]
pub enum Initial {
    Giyeok,
    SsangGiyeok,
    Nieun,
    Digeut,
    SsangDigeut,
    Rieul,
    Mieum,
    Bieup,
    SsangBieup,
    Siot,
    SsangSiot,
    Ieung,
    Jieut,
    SsangJieut,
    Chieut,
    Khieukh,
    Thieuth,
    Phieuph,
    Hieuh,
}

/// The 21 medial vowels, in code-point order.
#[derive(Clone, Copy, PartialEq, Eq, Debug)]
pub enum Medial {
    A,
    Ae,
    Ya,
    Yae,
    Eo,
    E,
    Yeo,
    Ye,
    O,
    Wa,
    Wae,
    Oe,
    Yo,
    U,
    Weo,
    We,
    Wi,
    Yu,
    Eu,
    Ui,
    I,
}

/// The 28 final consonant pairs, in code-point order; `Blank` is the
/// empty pair.
#[derive(Clone, Copy, PartialEq, Eq, Debug)]
pub enum Final {
    Blank,
    Giyeok,
    SsangGiyeok,
    GiyeokSiot,
    Nieun,
    NieunJieut,
    NieunHieuh,
    Digeut,
    Rieul,
    RieulGiyeok,
    RieulMieum,
    RieulBieup,
    RieulSiot,
    RieulThieuth,
    RieulPhieuph,
    RieulHieuh,
    Mieum,
    Bieup,
    BieupSiot,
    Siot,
    SsangSiot,
    Ieung,
    Jieut,
    Chieut,
    Khieukh,
    Thieuth,
    Phieuph,
    Hieuh,
}

/// One cell of a program: the three phonetic components of a syllabic
/// character, or nothing for a character outside the syllabic block,
/// plus the original character (kept only for display).
#[derive(Clone, Copy, PartialEq, Eq, Debug)]
pub struct KChar {
    /// `Some` exactly when the original character lies in the syllabic block.
    pub jamo: Option<(Initial, Medial, Final)>,
    /// The character the cell was decoded from.
    pub orig: char,
}

/// Position of an initial consonant in its table.
pub open spec fn initial_index(x: Initial) -> int {
    match x {
        Initial::Giyeok => 0,
        Initial::SsangGiyeok => 1,
        Initial::Nieun => 2,
        Initial::Digeut => 3,
        Initial::SsangDigeut => 4,
        Initial::Rieul => 5,
        Initial::Mieum => 6,
        Initial::Bieup => 7,
        Initial::SsangBieup => 8,
        Initial::Siot => 9,
        Initial::SsangSiot => 10,
        Initial::Ieung => 11,
        Initial::Jieut => 12,
        Initial::SsangJieut => 13,
        Initial::Chieut => 14,
        Initial::Khieukh => 15,
        Initial::Thieuth => 16,
        Initial::Phieuph => 17,
        Initial::Hieuh => 18,
    }
}

/// Position of a medial vowel in its table.
pub open spec fn medial_index(x: Medial) -> int {
    match x {
        Medial::A => 0,
        Medial::Ae => 1,
        Medial::Ya => 2,
        Medial::Yae => 3,
        Medial::Eo => 4,
        Medial::E => 5,
        Medial::Yeo => 6,
        Medial::Ye => 7,
        Medial::O => 8,
        Medial::Wa => 9,
        Medial::Wae => 10,
        Medial::Oe => 11,
        Medial::Yo => 12,
        Medial::U => 13,
        Medial::Weo => 14,
        Medial::We => 15,
        Medial::Wi => 16,
        Medial::Yu => 17,
        Medial::Eu => 18,
        Medial::Ui => 19,
        Medial::I => 20,
    }
}

/// Position of a final consonant pair in its table; this is also the
/// storage slot the pair selects.
pub open spec fn final_index(x: Final) -> int {
    match x {
        Final::Blank => 0,
        Final::Giyeok => 1,
        Final::SsangGiyeok => 2,
        Final::GiyeokSiot => 3,
        Final::Nieun => 4,
        Final::NieunJieut => 5,
        Final::NieunHieuh => 6,
        Final::Digeut => 7,
        Final::Rieul => 8,
        Final::RieulGiyeok => 9,
        Final::RieulMieum => 10,
        Final::RieulBieup => 11,
        Final::RieulSiot => 12,
        Final::RieulThieuth => 13,
        Final::RieulPhieuph => 14,
        Final::RieulHieuh => 15,
        Final::Mieum => 16,
        Final::Bieup => 17,
        Final::BieupSiot => 18,
        Final::Siot => 19,
        Final::SsangSiot => 20,
        Final::Ieung => 21,
        Final::Jieut => 22,
        Final::Chieut => 23,
        Final::Khieukh => 24,
        Final::Thieuth => 25,
        Final::Phieuph => 26,
        Final::Hieuh => 27,
    }
}

/// The initial consonant at position `n` of its table.
pub open spec fn initial_of(n: int) -> Initial {
    if n == 0 { Initial::Giyeok }
    else if n == 1 { Initial::SsangGiyeok }
    else if n == 2 { Initial::Nieun }
    else if n == 3 { Initial::Digeut }
    else if n == 4 { Initial::SsangDigeut }
    else if n == 5 { Initial::Rieul }
    else if n == 6 { Initial::Mieum }
    else if n == 7 { Initial::Bieup }
    else if n == 8 { Initial::SsangBieup }
    else if n == 9 { Initial::Siot }
    else if n == 10 { Initial::SsangSiot }
    else if n == 11 { Initial::Ieung }
    else if n == 12 { Initial::Jieut }
    else if n == 13 { Initial::SsangJieut }
    else if n == 14 { Initial::Chieut }
    else if n == 15 { Initial::Khieukh }
    else if n == 16 { Initial::Thieuth }
    else if n == 17 { Initial::Phieuph }
    else { Initial::Hieuh }
}

/// The medial vowel at position `n` of its table.
pub open spec fn medial_of(n: int) -> Medial {
    if n == 0 { Medial::A }
    else if n == 1 { Medial::Ae }
    else if n == 2 { Medial::Ya }
    else if n == 3 { Medial::Yae }
    else if n == 4 { Medial::Eo }
    else if n == 5 { Medial::E }
    else if n == 6 { Medial::Yeo }
    else if n == 7 { Medial::Ye }
    else if n == 8 { Medial::O }
    else if n == 9 { Medial::Wa }
    else if n == 10 { Medial::Wae }
    else if n == 11 { Medial::Oe }
    else if n == 12 { Medial::Yo }
    else if n == 13 { Medial::U }
    else if n == 14 { Medial::Weo }
    else if n == 15 { Medial::We }
    else if n == 16 { Medial::Wi }
    else if n == 17 { Medial::Yu }
    else if n == 18 { Medial::Eu }
    else if n == 19 { Medial::Ui }
    else { Medial::I }
}

/// The final consonant pair at position `n` of its table.
pub open spec fn final_of(n: int) -> Final {
    if n == 0 { Final::Blank }
    else if n == 1 { Final::Giyeok }
    else if n == 2 { Final::SsangGiyeok }
    else if n == 3 { Final::GiyeokSiot }
    else if n == 4 { Final::Nieun }
    else if n == 5 { Final::NieunJieut }
    else if n == 6 { Final::NieunHieuh }
    else if n == 7 { Final::Digeut }
    else if n == 8 { Final::Rieul }
    else if n == 9 { Final::RieulGiyeok }
    else if n == 10 { Final::RieulMieum }
    else if n == 11 { Final::RieulBieup }
    else if n == 12 { Final::RieulSiot }
    else if n == 13 { Final::RieulThieuth }
    else if n == 14 { Final::RieulPhieuph }
    else if n == 15 { Final::RieulHieuh }
    else if n == 16 { Final::Mieum }
    else if n == 17 { Final::Bieup }
    else if n == 18 { Final::BieupSiot }
    else if n == 19 { Final::Siot }
    else if n == 20 { Final::SsangSiot }
    else if n == 21 { Final::Ieung }
    else if n == 22 { Final::Jieut }
    else if n == 23 { Final::Chieut }
    else if n == 24 { Final::Khieukh }
    else if n == 25 { Final::Thieuth }
    else if n == 26 { Final::Phieuph }
    else { Final::Hieuh }
}

/// What `disassemble_jamo` returns: for a character inside the syllabic
/// block, the components read off its code point by base-offset division;
/// for any other character, no components at all.
pub open spec fn disassemble_spec(chr: char) -> KChar {
    let code = chr as u32;
    if code < SYLLABLE_BASE || code > SYLLABLE_LAST {
        KChar { jamo: None, orig: chr }
    } else {
        let n = code - SYLLABLE_BASE;
        let q = n / 28;
        KChar {
            jamo: Some((initial_of(q / 21), medial_of(q % 21), final_of(n % 28))),
            orig: chr,
        }
    }
}

/// The code point of the syllable composed from three components.
pub open spec fn assemble_code(start: Initial, middle: Medial, end: Final) -> int {
    SYLLABLE_BASE + initial_index(start) * 588 + medial_index(middle) * 28 + final_index(end)
}

/// Whether `v` is a Unicode scalar value, i.e. a value some `char` carries.
pub open spec fn valid_scalar(v: u32) -> bool {
    v < 0xD800 || (0xE000 <= v && v <= 0x10FFFF)
}

/// The character `char::from_u32` of std returns on a Unicode scalar
/// value: the one whose code point is `v`.
pub uninterp spec fn char_of(v: u32) -> char;

/// Relies on `char::from_u32` of std: it returns the character whose code
/// point is exactly `v` when `v` is a Unicode scalar value, and `None`
/// otherwise; the result depends on `v` alone.
#[verifier::external_body]
pub(crate) fn char_from_u32(v: u32) -> (c: Option<char>)
    ensures
        match c {
            Some(ch) => valid_scalar(v) && ch as u32 == v && ch == char_of(v),
            None => !valid_scalar(v),
        },
{
    char::from_u32(v)
}

fn initial_from_index(n: u32) -> (x: Initial)
    requires
        n < 19,
    ensures
        x == initial_of(n as int),
{
    if n == 0 { Initial::Giyeok }
    else if n == 1 { Initial::SsangGiyeok }
    else if n == 2 { Initial::Nieun }
    else if n == 3 { Initial::Digeut }
    else if n == 4 { Initial::SsangDigeut }
    else if n == 5 { Initial::Rieul }
    else if n == 6 { Initial::Mieum }
    else if n == 7 { Initial::Bieup }
    else if n == 8 { Initial::SsangBieup }
    else if n == 9 { Initial::Siot }
    else if n == 10 { Initial::SsangSiot }
    else if n == 11 { Initial::Ieung }
    else if n == 12 { Initial::Jieut }
    else if n == 13 { Initial::SsangJieut }
    else if n == 14 { Initial::Chieut }
    else if n == 15 { Initial::Khieukh }
    else if n == 16 { Initial::Thieuth }
    else if n == 17 { Initial::Phieuph }
    else { Initial::Hieuh }
}

fn medial_from_index(n: u32) -> (x: Medial)
    requires
        n < 21,
    ensures
        x == medial_of(n as int),
{
    if n == 0 { Medial::A }
    else if n == 1 { Medial::Ae }
    else if n == 2 { Medial::Ya }
    else if n == 3 { Medial::Yae }
    else if n == 4 { Medial::Eo }
    else if n == 5 { Medial::E }
    else if n == 6 { Medial::Yeo }
    else if n == 7 { Medial::Ye }
    else if n == 8 { Medial::O }
    else if n == 9 { Medial::Wa }
    else if n == 10 { Medial::Wae }
    else if n == 11 { Medial::Oe }
    else if n == 12 { Medial::Yo }
    else if n == 13 { Medial::U }
    else if n == 14 { Medial::Weo }
    else if n == 15 { Medial::We }
    else if n == 16 { Medial::Wi }
    else if n == 17 { Medial::Yu }
    else if n == 18 { Medial::Eu }
    else if n == 19 { Medial::Ui }
    else { Medial::I }
}

fn final_from_index(n: u32) -> (x: Final)
    requires
        n < 28,
    ensures
        x == final_of(n as int),
{
    if n == 0 { Final::Blank }
    else if n == 1 { Final::Giyeok }
    else if n == 2 { Final::SsangGiyeok }
    else if n == 3 { Final::GiyeokSiot }
    else if n == 4 { Final::Nieun }
    else if n == 5 { Final::NieunJieut }
    else if n == 6 { Final::NieunHieuh }
    else if n == 7 { Final::Digeut }
    else if n == 8 { Final::Rieul }
    else if n == 9 { Final::RieulGiyeok }
    else if n == 10 { Final::RieulMieum }
    else if n == 11 { Final::RieulBieup }
    else if n == 12 { Final::RieulSiot }
    else if n == 13 { Final::RieulThieuth }
    else if n == 14 { Final::RieulPhieuph }
    else if n == 15 { Final::RieulHieuh }
    else if n == 16 { Final::Mieum }
    else if n == 17 { Final::Bieup }
    else if n == 18 { Final::BieupSiot }
    else if n == 19 { Final::Siot }
    else if n == 20 { Final::SsangSiot }
    else if n == 21 { Final::Ieung }
    else if n == 22 { Final::Jieut }
    else if n == 23 { Final::Chieut }
    else if n == 24 { Final::Khieukh }
    else if n == 25 { Final::Thieuth }
    else if n == 26 { Final::Phieuph }
    else { Final::Hieuh }
}

fn initial_ordinal(x: Initial) -> (n: u32)
    ensures
        n == initial_index(x),
{
    match x {
        Initial::Giyeok => 0,
        Initial::SsangGiyeok => 1,
        Initial::Nieun => 2,
        Initial::Digeut => 3,
        Initial::SsangDigeut => 4,
        Initial::Rieul => 5,
        Initial::Mieum => 6,
        Initial::Bieup => 7,
        Initial::SsangBieup => 8,
        Initial::Siot => 9,
        Initial::SsangSiot => 10,
        Initial::Ieung => 11,
        Initial::Jieut => 12,
        Initial::SsangJieut => 13,
        Initial::Chieut => 14,
        Initial::Khieukh => 15,
        Initial::Thieuth => 16,
        Initial::Phieuph => 17,
        Initial::Hieuh => 18,
    }
}

fn medial_ordinal(x: Medial) -> (n: u32)
    ensures
        n == medial_index(x),
{
    match x {
        Medial::A => 0,
        Medial::Ae => 1,
        Medial::Ya => 2,
        Medial::Yae => 3,
        Medial::Eo => 4,
        Medial::E => 5,
        Medial::Yeo => 6,
        Medial::Ye => 7,
        Medial::O => 8,
        Medial::Wa => 9,
        Medial::Wae => 10,
        Medial::Oe => 11,
        Medial::Yo => 12,
        Medial::U => 13,
        Medial::Weo => 14,
        Medial::We => 15,
        Medial::Wi => 16,
        Medial::Yu => 17,
        Medial::Eu => 18,
        Medial::Ui => 19,
        Medial::I => 20,
    }
}

/// The storage slot a final consonant pair selects: its position in the
/// final-pair table.
pub fn get_end_count(end: Final) -> (n: usize)
    ensures
        n == final_index(end),
{
    match end {
        Final::Blank => 0,
        Final::Giyeok => 1,
        Final::SsangGiyeok => 2,
        Final::GiyeokSiot => 3,
        Final::Nieun => 4,
        Final::NieunJieut => 5,
        Final::NieunHieuh => 6,
        Final::Digeut => 7,
        Final::Rieul => 8,
        Final::RieulGiyeok => 9,
        Final::RieulMieum => 10,
        Final::RieulBieup => 11,
        Final::RieulSiot => 12,
        Final::RieulThieuth => 13,
        Final::RieulPhieuph => 14,
        Final::RieulHieuh => 15,
        Final::Mieum => 16,
        Final::Bieup => 17,
        Final::BieupSiot => 18,
        Final::Siot => 19,
        Final::SsangSiot => 20,
        Final::Ieung => 21,
        Final::Jieut => 22,
        Final::Chieut => 23,
        Final::Khieukh => 24,
        Final::Thieuth => 25,
        Final::Phieuph => 26,
        Final::Hieuh => 27,
    }
}

/// The inline literal a final consonant pair stands for: the number of
/// strokes needed to draw the pair.
pub open spec fn stroke_count(end: Final) -> int {
    match end {
        Final::Giyeok => 2,
        Final::Nieun => 2,
        Final::Siot => 2,
        Final::Digeut => 3,
        Final::Jieut => 3,
        Final::Khieukh => 3,
        Final::Mieum => 4,
        Final::Bieup => 4,
        Final::Chieut => 4,
        Final::Thieuth => 4,
        Final::Phieuph => 4,
        Final::SsangGiyeok => 4,
        Final::GiyeokSiot => 4,
        Final::SsangSiot => 4,
        Final::Rieul => 5,
        Final::NieunJieut => 5,
        Final::NieunHieuh => 5,
        Final::BieupSiot => 6,
        Final::RieulGiyeok => 7,
        Final::RieulSiot => 7,
        Final::RieulHieuh => 8,
        Final::RieulMieum => 9,
        Final::RieulBieup => 9,
        Final::RieulThieuth => 9,
        Final::RieulPhieuph => 9,
        _ => 0,
    }
}

/// The stroke count of a final consonant pair, as an inline literal.
pub fn count_lines_in_char(chr: Final) -> (n: i32)
    ensures
        n == stroke_count(chr),
{
    match chr {
        Final::Giyeok | Final::Nieun | Final::Siot => 2,
        Final::Digeut | Final::Jieut | Final::Khieukh => 3,
        Final::Mieum | Final::Bieup | Final::Chieut | Final::Thieuth | Final::Phieuph
            | Final::SsangGiyeok | Final::GiyeokSiot | Final::SsangSiot => 4,
        Final::Rieul | Final::NieunJieut | Final::NieunHieuh => 5,
        Final::BieupSiot => 6,
        Final::RieulGiyeok | Final::RieulSiot => 7,
        Final::RieulHieuh => 8,
        Final::RieulMieum | Final::RieulBieup | Final::RieulThieuth | Final::RieulPhieuph => 9,
        _ => 0,
    }
}

/// Decode one character into its phonetic components, per
/// `disassemble_spec`.
pub fn disassemble_jamo(chr: char) -> (k: KChar)
    ensures
        k == disassemble_spec(chr),
{
    let code = chr as u32;
    if code < SYLLABLE_BASE || code > SYLLABLE_LAST {
        return KChar { jamo: None, orig: chr };
    }

    let n = code - SYLLABLE_BASE;
    let q = n / 28;
    assert(n <= 11171);
    assert(q < 399);
    KChar {
        jamo: Some((
            initial_from_index(q / 21),
            medial_from_index(q % 21),
            final_from_index(n % 28),
        )),
        orig: chr,
    }
}

/// Law: decomposition inverts composition. Any character whose code point
/// was composed from three components decomposes to exactly those
/// components, over the whole 19 x 21 x 28 component space.
pub proof fn lemma_disassemble_assemble(c: char, start: Initial, middle: Medial, end: Final)
    requires
        c as u32 == assemble_code(start, middle, end),
    ensures
        disassemble_spec(c) == (KChar { jamo: Some((start, middle, end)), orig: c }),
{
    let si = initial_index(start);
    let mi = medial_index(middle);
    let fi = final_index(end);
    assert(0 <= si < 19);
    assert(0 <= mi < 21);
    assert(0 <= fi < 28);
    let code = c as u32;
    let n = code - SYLLABLE_BASE;
    assert(n == (si * 21 + mi) * 28 + fi);
    vstd::arithmetic::div_mod::lemma_fundamental_div_mod_converse(n as int, 28, si * 21 + mi, fi);
    vstd::arithmetic::div_mod::lemma_fundamental_div_mod_converse(si * 21 + mi, 21, si, mi);
    assert(initial_of(si) == start);
    assert(medial_of(mi) == middle);
    assert(final_of(fi) == end);
}

/// Law: any character outside the syllabic block decomposes to a cell
/// without components.
pub proof fn lemma_disassemble_outside(c: char)
    requires
        (c as u32) < SYLLABLE_BASE || (c as u32) > SYLLABLE_LAST,
    ensures
        disassemble_spec(c) == (KChar { jamo: None, orig: c }),
{
}

/// Compose three phonetic components back into the syllabic character
/// they came from.
pub fn assemble_jamo(start: Initial, middle: Medial, end: Final) -> (c: char)
    ensures
        c as u32 == assemble_code(start, middle, end),
{
    let si = initial_ordinal(start);
    let mi = medial_ordinal(middle);
    let fi = get_end_count(end) as u32;
    let code = SYLLABLE_BASE + si * 588 + mi * 28 + fi;
    assert(code <= SYLLABLE_LAST);
    let c = char_from_u32(code);
    match c {
        Some(ch) => ch,
        None => {
            proof {
                assert(false);
            }
            ' '
        },
    }
}

} // verus!
