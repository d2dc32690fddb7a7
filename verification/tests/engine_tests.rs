use std::collections::VecDeque;

use aheui::aheui::{Aheui, ExitCode};
use aheui::hangul::{assemble_jamo, Final, Initial, Medial};

fn string(v: &[char]) -> String {
    v.iter().collect()
}

// push the stroke-count literal of `f`, moving east
fn push_lit(f: Final) -> char {
    assemble_jamo(Initial::Bieup, Medial::A, f)
}

fn run_to_end(engine: &mut Aheui, max_steps: usize) {
    let mut i = 0;
    while !engine.ended {
        assert!(i < max_steps, "program did not end in {} steps", max_steps);
        engine.next();
        i += 1;
    }
}

#[test]
fn grid_is_rectangular_with_longest_line_width() {
    // two lines of different length: every row is padded to the longest
    let a = assemble_jamo(Initial::Ieung, Medial::A, Final::Blank);
    let mut src: Vec<char> = vec![a, a, a, a, '\n'];
    src.extend([a, a]);
    let engine = Aheui::new(src);
    assert_eq!(engine.src_mat, (4, 2));
    assert_eq!(engine.src_map.len(), 2);
    for row in &engine.src_map {
        assert_eq!(row.len(), 4);
    }
    // padding cells decode to pass-through cells
    assert!(engine.src_map[1][2].jamo.is_none());
    assert!(engine.src_map[1][3].jamo.is_none());
}

#[test]
fn rejects_empty_source() {
    assert!(Aheui::try_new(Vec::new()).is_none());
    assert!(Aheui::try_new(vec!['\n', '\n']).is_none());
    assert!(Aheui::try_new(vec!['x']).is_some());
}

#[test]
fn single_terminate_cell_ends_in_one_step_with_zero() {
    // popping the untouched selected slot yields 0, never a failure
    let src = vec![assemble_jamo(Initial::Hieuh, Medial::A, Final::Blank)];
    let mut engine = Aheui::new(src);
    engine.next();
    assert!(engine.ended);
    assert_eq!(engine.step, 1);
    assert_eq!(engine.exit_code, Some(ExitCode::Success(0)));
}

#[test]
fn terminate_reports_last_pushed_value() {
    let src = vec![
        push_lit(Final::Digeut), // literal 3
        assemble_jamo(Initial::Hieuh, Medial::A, Final::Blank),
    ];
    let mut engine = Aheui::new(src);
    run_to_end(&mut engine, 10);
    assert_eq!(engine.exit_code, Some(ExitCode::Success(3)));
}

#[test]
fn prints_pushed_literal_as_decimal_text() {
    // push 2, print it as a number, then terminate: output is "2"
    let src = vec![
        push_lit(Final::Giyeok), // literal 2
        assemble_jamo(Initial::Mieum, Medial::A, Final::Ieung),
        assemble_jamo(Initial::Hieuh, Medial::A, Final::Blank),
    ];
    let mut engine = Aheui::new(src);
    run_to_end(&mut engine, 10);
    assert_eq!(string(&engine.result), "2");
    assert_eq!(engine.exit_code, Some(ExitCode::Success(0)));
}

#[test]
fn prints_value_as_character() {
    // push 65, print as a character: output is "A"
    let src = vec![
        push_lit(Final::Rieul),                                   // 5
        push_lit(Final::RieulMieum),                              // 9
        assemble_jamo(Initial::SsangDigeut, Medial::A, Final::Blank), // 45
        push_lit(Final::Giyeok),                                  // 2
        assemble_jamo(Initial::SsangDigeut, Medial::A, Final::Blank), // 90
        push_lit(Final::NieunJieut),                              // 5
        push_lit(Final::Rieul),                                   // 5
        assemble_jamo(Initial::SsangDigeut, Medial::A, Final::Blank), // 25
        assemble_jamo(Initial::Thieuth, Medial::A, Final::Blank), // 90 - 25 = 65
        assemble_jamo(Initial::Mieum, Medial::A, Final::Hieuh),   // print char
        assemble_jamo(Initial::Hieuh, Medial::A, Final::Blank),
    ];
    let mut engine = Aheui::new(src);
    run_to_end(&mut engine, 20);
    assert_eq!(string(&engine.result), "A");
}

#[test]
fn underflow_bounces_instead_of_failing() {
    // the divide cell finds one value where it needs two: direction must
    // reverse and the program must neither end nor fail
    let src = vec![
        push_lit(Final::Digeut), // literal 3
        assemble_jamo(Initial::Nieun, Medial::A, Final::Blank), // divide
    ];
    let mut engine = Aheui::new(src);
    engine.next();
    assert_eq!(engine.cursor, (1, 0));
    assert_eq!(engine.dir, (1, 0));
    engine.next();
    assert!(!engine.ended);
    assert_eq!(engine.dir, (-1, 0), "bounce must reverse the direction");
    assert_eq!(engine.cursor, (0, 0));
    assert_eq!(engine.stacks[0], VecDeque::from(vec![3]));
}

#[test]
fn cursor_stays_on_torus_for_ten_thousand_steps() {
    // pass-through cells only: the program never terminates, and a
    // double-step move keeps wrapping over the right edge
    let src = vec![
        assemble_jamo(Initial::Ieung, Medial::Ya, Final::Blank), // move east by 2
        assemble_jamo(Initial::Ieung, Medial::Ae, Final::Blank), // keep direction
        assemble_jamo(Initial::Ieung, Medial::Ae, Final::Blank),
    ];
    let mut engine = Aheui::new(src);
    for _ in 0..10000 {
        engine.next();
        assert!(!engine.ended);
        assert!(engine.cursor.0 < 3);
        assert!(engine.cursor.1 < 1);
    }
}

#[test]
fn modulo_with_zero_in_checked_position_reports_divide_by_zero() {
    // on the queue, 5 then 0 put the zero in the checked (second-popped)
    // position; the run ends there and reports the cursor coordinates
    let src = vec![
        assemble_jamo(Initial::Siot, Medial::A, Final::Ieung), // select the queue
        push_lit(Final::Rieul),                                // 5
        push_lit(Final::Blank),                                // 0
        assemble_jamo(Initial::Rieul, Medial::A, Final::Blank), // modulo
    ];
    let mut engine = Aheui::new(src);
    run_to_end(&mut engine, 10);
    assert_eq!(engine.exit_code, Some(ExitCode::DivideByZero));
    assert_eq!(engine.cursor, (3, 0));
}

#[test]
fn division_by_zero_divisor_also_ends_the_run() {
    // on a stack, 5 then 0 leave the zero as the divisor; the checked
    // operand is 5, but dividing by zero still cannot proceed
    let src = vec![
        push_lit(Final::Rieul), // 5
        push_lit(Final::Blank), // 0
        assemble_jamo(Initial::Nieun, Medial::A, Final::Blank), // divide
    ];
    let mut engine = Aheui::new(src);
    run_to_end(&mut engine, 10);
    assert_eq!(engine.exit_code, Some(ExitCode::DivideByZero));
    assert_eq!(engine.cursor, (2, 0));
}

#[test]
fn swap_is_its_own_inverse_on_a_stack() {
    let swap = assemble_jamo(Initial::Phieuph, Medial::A, Final::Blank);
    let src = vec![
        push_lit(Final::Giyeok), // 2
        push_lit(Final::Digeut), // 3
        swap,
        swap,
        assemble_jamo(Initial::Hieuh, Medial::A, Final::Blank),
    ];
    let mut engine = Aheui::new(src);
    engine.next();
    engine.next();
    assert_eq!(engine.stacks[0], VecDeque::from(vec![3, 2]));
    engine.next();
    assert_eq!(engine.stacks[0], VecDeque::from(vec![2, 3]));
    engine.next();
    assert_eq!(engine.stacks[0], VecDeque::from(vec![3, 2]), "two swaps restore the slot");
}

#[test]
fn swap_is_its_own_inverse_on_the_queue() {
    // swap exchanges the two front values in place even on the queue:
    // [2, 3, 5] becomes [3, 2, 5], and a second swap restores it
    let swap = assemble_jamo(Initial::Phieuph, Medial::A, Final::Blank);
    let src = vec![
        assemble_jamo(Initial::Siot, Medial::A, Final::Ieung), // select the queue
        push_lit(Final::Giyeok), // 2
        push_lit(Final::Digeut), // 3
        push_lit(Final::Rieul),  // 5
        swap,
        swap,
    ];
    let mut engine = Aheui::new(src);
    for _ in 0..4 {
        engine.next();
    }
    assert_eq!(engine.stacks[21], VecDeque::from(vec![2, 3, 5]));
    engine.next();
    assert_eq!(engine.stacks[21], VecDeque::from(vec![3, 2, 5]));
    engine.next();
    assert_eq!(engine.stacks[21], VecDeque::from(vec![2, 3, 5]), "two swaps restore the queue");
}

#[test]
fn duplicate_copies_the_front_of_the_queue() {
    // the duplicated value goes back to the front it was taken from
    let src = vec![
        assemble_jamo(Initial::Siot, Medial::A, Final::Ieung), // select the queue
        push_lit(Final::Giyeok), // 2
        push_lit(Final::Digeut), // 3
        assemble_jamo(Initial::SsangBieup, Medial::A, Final::Blank), // duplicate
    ];
    let mut engine = Aheui::new(src);
    for _ in 0..4 {
        engine.next();
    }
    assert_eq!(engine.stacks[21], VecDeque::from(vec![2, 2, 3]));
}

#[test]
fn arithmetic_works_through_selected_storage() {
    // 9 * 5 = 45, 45 + 2 = 47, 47 % 9 = 2, prints 2
    let src = vec![
        push_lit(Final::RieulMieum), // 9
        push_lit(Final::Rieul),      // 5
        assemble_jamo(Initial::SsangDigeut, Medial::A, Final::Blank), // multiply
        push_lit(Final::Giyeok),     // 2
        assemble_jamo(Initial::Digeut, Medial::A, Final::Blank), // add
        push_lit(Final::RieulMieum), // 9
        assemble_jamo(Initial::Rieul, Medial::A, Final::Blank), // modulo: 47 % 9
        assemble_jamo(Initial::Mieum, Medial::A, Final::Ieung), // print number
        assemble_jamo(Initial::Hieuh, Medial::A, Final::Blank),
    ];
    let mut engine = Aheui::new(src);
    run_to_end(&mut engine, 20);
    assert_eq!(string(&engine.result), "2");
}

#[test]
fn duplicate_and_compare() {
    // push 3, duplicate, compare: 3 >= 3 pushes 1; terminate reports it
    let src = vec![
        push_lit(Final::Digeut), // 3
        assemble_jamo(Initial::SsangBieup, Medial::A, Final::Blank), // duplicate
        assemble_jamo(Initial::Jieut, Medial::A, Final::Blank), // compare
        assemble_jamo(Initial::Hieuh, Medial::A, Final::Blank),
    ];
    let mut engine = Aheui::new(src);
    run_to_end(&mut engine, 10);
    assert_eq!(engine.exit_code, Some(ExitCode::Success(1)));
}

#[test]
fn transfer_moves_a_value_between_slots() {
    // push 2 onto slot 0, transfer it to the slot of the Nieun pair, select
    // that slot, terminate: the value travelled along
    let src = vec![
        push_lit(Final::Giyeok), // 2
        assemble_jamo(Initial::SsangSiot, Medial::A, Final::Nieun), // transfer to slot 4
        assemble_jamo(Initial::Siot, Medial::A, Final::Nieun), // select slot 4
        assemble_jamo(Initial::Hieuh, Medial::A, Final::Blank),
    ];
    let mut engine = Aheui::new(src);
    run_to_end(&mut engine, 10);
    assert_eq!(engine.exit_code, Some(ExitCode::Success(2)));
    assert_eq!(engine.sel, 4);
}

#[test]
fn conditional_bounces_on_zero() {
    // push 0; the conditional pops it, finds zero and bounces
    let src = vec![
        push_lit(Final::Blank), // 0
        assemble_jamo(Initial::Chieut, Medial::A, Final::Blank), // conditional
    ];
    let mut engine = Aheui::new(src);
    engine.next();
    engine.next();
    assert!(!engine.ended);
    assert_eq!(engine.dir, (-1, 0));
}

#[test]
fn reads_a_number_from_fed_input() {
    let src = vec![
        assemble_jamo(Initial::Bieup, Medial::A, Final::Ieung), // read number
        assemble_jamo(Initial::Mieum, Medial::A, Final::Ieung), // print number
        assemble_jamo(Initial::Hieuh, Medial::A, Final::Blank),
    ];
    let mut engine = Aheui::new(src);
    assert!(engine.needs_input());
    engine.feed_input("  42 ".chars().collect());
    assert!(!engine.needs_input());
    run_to_end(&mut engine, 10);
    assert_eq!(string(&engine.result), "42");
}

#[test]
fn reads_characters_as_code_points() {
    let src = vec![
        assemble_jamo(Initial::Bieup, Medial::A, Final::Hieuh), // read characters
    ];
    let mut engine = Aheui::new(src);
    engine.feed_input("AB".chars().collect());
    engine.next();
    // pushed in order onto a stack: the later code point sits on top
    assert_eq!(engine.stacks[0], VecDeque::from(vec![66, 65]));
}

#[test]
fn read_without_input_pushes_zero() {
    // an empty input line parses to 0
    let src = vec![
        assemble_jamo(Initial::Bieup, Medial::A, Final::Ieung),
        assemble_jamo(Initial::Hieuh, Medial::A, Final::Blank),
    ];
    let mut engine = Aheui::new(src);
    run_to_end(&mut engine, 10);
    assert_eq!(engine.exit_code, Some(ExitCode::Success(0)));
}

#[test]
fn vertical_movement_wraps_around() {
    // a single column: the pass-through cell moves down, wraps to the top,
    // and reaches the terminate cell below it again and again
    let a = assemble_jamo(Initial::Ieung, Medial::Yu, Final::Blank); // move down by 2
    let pad = assemble_jamo(Initial::Ieung, Medial::Ae, Final::Blank); // keep direction
    // grid: 3 rows, 1 column; start moves down one row per step
    let src = vec![a, '\n', pad, '\n', pad];
    let mut engine = Aheui::new(src);
    engine.next();
    assert_eq!(engine.cursor, (0, 2));
    engine.next();
    assert_eq!(engine.cursor, (0, 1), "moving by two wraps over the edge");
}
