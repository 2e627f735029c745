use mars_rover::{Coordinate, Rover, RoverError};

#[test]
fn check_first() {
    let lhs = Rover::compute_location(String::from(
        "5 5 
        1 2 N 
        LMLMLMLMM",
    ))
    .unwrap();

    let rhs = Rover {
        x: 1,
        y: 3,
        position: Coordinate::N,
    };

    assert_eq!(lhs.first().unwrap(), &rhs);
}

#[test]
fn check_second() {
    let lhs = Rover::compute_location(String::from(
        "5 5 
            3 3 E 
            MMRMMRMRRM",
    ))
    .unwrap();

    let rhs = Rover {
        x: 5,
        y: 1,
        position: Coordinate::E,
    };

    assert_eq!(lhs.first().unwrap(), &rhs);
}

#[test]
fn check_combined() {
    let lhs = Rover::compute_location(String::from(
        "5 5 
            1 2 N 
            LMLMLMLMM 
            3 3 E 
            MMRMMRMRRM",
    ))
    .unwrap();

    let rhs_1 = Rover {
        x: 1,
        y: 3,
        position: Coordinate::N,
    };
    let rhs_2 = Rover {
        x: 5,
        y: 1,
        position: Coordinate::E,
    };

    assert_eq!(lhs.first().unwrap(), &rhs_1);
    assert_eq!(lhs.get(1).unwrap(), &rhs_2);
}

#[test]
fn combined_document_has_two_rovers_in_order() {
    let both = Rover::compute_location(String::from(
        "5 5\n1 2 N\nLMLMLMLMM\n3 3 E\nMMRMMRMRRM",
    ))
    .unwrap();
    let first = Rover::compute_location(String::from("5 5\n1 2 N\nLMLMLMLMM")).unwrap();
    let second = Rover::compute_location(String::from("5 5\n3 3 E\nMMRMMRMRRM")).unwrap();
    assert_eq!(both.len(), 2);
    assert_eq!(both[0], first[0]);
    assert_eq!(both[1], second[0]);
}

#[test]
fn rover_is_untouched_by_another_rovers_instructions() {
    let a = Rover::compute_location(String::from("5 5\n1 2 N\nLMLMLMLMM\n3 3 E\nM")).unwrap();
    let b = Rover::compute_location(String::from("5 5\n1 2 N\nLMLMLMLMM\n0 0 S\nRRMM")).unwrap();
    assert_eq!(a[0], b[0]);
    assert_eq!(a[0], Rover { x: 1, y: 3, position: Coordinate::N });
    assert_eq!(a[1], Rover { x: 4, y: 3, position: Coordinate::E });
    assert_eq!(b[1], Rover { x: 0, y: 2, position: Coordinate::N });
}

#[test]
fn move_at_the_origin_facing_south_stays() {
    let got = Rover::compute_location(String::from("5 5\n0 0 S\nM")).unwrap();
    assert_eq!(got, vec![Rover { x: 0, y: 0, position: Coordinate::S }]);
}

#[test]
fn move_past_the_far_corner_stays_at_the_edge() {
    let got = Rover::compute_location(String::from("3 2\n3 2 N\nMRM")).unwrap();
    assert_eq!(got, vec![Rover { x: 3, y: 2, position: Coordinate::E }]);
}

#[test]
fn unknown_instruction_letter_is_a_parse_error() {
    assert_eq!(
        Rover::compute_location(String::from("5 5\n1 2 N\nLMXM")),
        Err(RoverError::ParseError)
    );
    assert_eq!(
        Rover::compute_location(String::from("5 5\n1 2 N\nX")),
        Err(RoverError::ParseError)
    );
}

#[test]
fn lower_case_instruction_is_a_parse_error() {
    assert_eq!(
        Rover::compute_location(String::from("5 5\n1 2 N\nm")),
        Err(RoverError::ParseError)
    );
}

#[test]
fn one_bad_rover_fails_the_whole_document() {
    assert_eq!(
        Rover::compute_location(String::from("5 5\n1 2 N\nLM\n3 3 Q\nM")),
        Err(RoverError::ParseError)
    );
}

#[test]
fn empty_document_is_missing_input() {
    assert_eq!(Rover::compute_location(String::new()), Err(RoverError::MissingInput));
}

#[test]
fn invalid_heading_is_a_parse_error() {
    assert_eq!(
        Rover::compute_location(String::from("5 5\n1 2 X\nM")),
        Err(RoverError::ParseError)
    );
}

#[test]
fn pose_without_heading_is_a_parse_error() {
    assert_eq!(
        Rover::compute_location(String::from("5 5\n1 2\nM")),
        Err(RoverError::ParseError)
    );
}

#[test]
fn pose_with_a_letter_for_a_digit_is_a_parse_error() {
    assert_eq!(
        Rover::compute_location(String::from("5 5\nN 2 N\nM")),
        Err(RoverError::ParseError)
    );
}

#[test]
fn boundary_without_digits_is_a_parse_error() {
    assert_eq!(
        Rover::compute_location(String::from("a b\n1 2 N\nM")),
        Err(RoverError::ParseError)
    );
    assert_eq!(
        Rover::compute_location(String::from("5\n1 2 N\nM")),
        Err(RoverError::ParseError)
    );
    assert_eq!(Rover::compute_location(String::from("x")), Err(RoverError::ParseError));
}

#[test]
fn numeric_character_that_is_no_digit_is_a_parse_error() {
    // Superscript two is numeric to Unicode but has no decimal value.
    assert_eq!(
        Rover::compute_location(String::from("\u{b2} 5\n1 2 N\nM")),
        Err(RoverError::ParseError)
    );
    assert_eq!(
        Rover::compute_location(String::from("5 5\n\u{663} 2 N\nM")),
        Err(RoverError::ParseError)
    );
}

#[test]
fn non_ascii_letter_among_instructions_is_a_parse_error() {
    assert_eq!(
        Rover::compute_location(String::from("5 5\n1 2 N\nM\u{e9}M")),
        Err(RoverError::ParseError)
    );
}

#[test]
fn punctuation_and_digits_among_instructions_are_passed_over() {
    let got = Rover::compute_location(String::from("5 5\n1 2 N\nM, 7 M;R-M")).unwrap();
    assert_eq!(got, vec![Rover { x: 2, y: 4, position: Coordinate::E }]);
}

#[test]
fn punctuation_in_boundary_and_pose_is_passed_over() {
    let got = Rover::compute_location(String::from("(5, 5)\n<1; 2> N\nMM")).unwrap();
    assert_eq!(got, vec![Rover { x: 1, y: 4, position: Coordinate::N }]);
}

#[test]
fn boundary_line_alone_gives_no_rover() {
    assert_eq!(Rover::compute_location(String::from("5 5")), Ok(vec![]));
    assert_eq!(Rover::compute_location(String::from("5 5\n1 2 N")), Ok(vec![]));
}

#[test]
fn trailing_newline_does_not_count_as_a_line() {
    let got = Rover::compute_location(String::from("5 5\n1 2 N\nM\n")).unwrap();
    assert_eq!(got, vec![Rover { x: 1, y: 3, position: Coordinate::N }]);
}

#[test]
fn trailing_blank_line_counts_as_a_line() {
    // Four lines: one rover; the blank fourth line opens no second rover.
    let got = Rover::compute_location(String::from("5 5\n1 2 N\nM\n\n")).unwrap();
    assert_eq!(got.len(), 1);
    // Five lines: the blank lines are taken for a second rover, which has no pose.
    assert_eq!(
        Rover::compute_location(String::from("5 5\n1 2 N\nM\n\n\n")),
        Err(RoverError::ParseError)
    );
}

#[test]
fn carriage_returns_are_passed_over() {
    let got = Rover::compute_location(String::from("5 5\r\n1 2 N\r\nMM\r\n")).unwrap();
    assert_eq!(got, vec![Rover { x: 1, y: 4, position: Coordinate::N }]);
}

#[test]
fn start_beyond_the_plateau_is_clamped_by_the_first_move() {
    let got = Rover::compute_location(String::from("5 5\n7 7 N\nM")).unwrap();
    assert_eq!(got, vec![Rover { x: 5, y: 5, position: Coordinate::N }]);
    let turned = Rover::compute_location(String::from("5 5\n7 7 N\nL")).unwrap();
    assert_eq!(turned, vec![Rover { x: 7, y: 7, position: Coordinate::W }]);
}

#[test]
fn only_the_first_two_boundary_digits_count() {
    let got = Rover::compute_location(String::from("12 5\n0 0 E\nMMMM")).unwrap();
    assert_eq!(got, vec![Rover { x: 1, y: 0, position: Coordinate::E }]);
}

#[test]
fn blank_first_line_is_passed_over() {
    let got = Rover::compute_location(String::from("\n5 5\n1 2 N\nM")).unwrap();
    assert_eq!(got, vec![Rover { x: 1, y: 3, position: Coordinate::N }]);
}

#[test]
fn blank_lines_before_the_plateau_still_count_as_lines() {
    // Five lines count two rovers; behind the plateau's line stands one only.
    assert_eq!(
        Rover::compute_location(String::from("\n\n5 5\n1 2 N\nM")),
        Err(RoverError::ParseError)
    );
    // Six lines count two rovers, and both stand behind the plateau's line.
    let got = Rover::compute_location(String::from("\n5 5\n1 2 N\nLMLMLMLMM\n3 3 E\nMMRMMRMRRM"))
        .unwrap();
    assert_eq!(
        got,
        vec![
            Rover { x: 1, y: 3, position: Coordinate::N },
            Rover { x: 5, y: 1, position: Coordinate::E },
        ]
    );
}

#[test]
fn document_of_blank_lines_is_a_parse_error() {
    for doc in ["\n", "\n\n", "\n\n\n\n\n"] {
        assert_eq!(Rover::compute_location(String::from(doc)), Err(RoverError::ParseError));
    }
}

#[test]
fn line_of_blanks_is_not_empty() {
    assert_eq!(
        Rover::compute_location(String::from(" \n5 5\n1 2 N\nM")),
        Err(RoverError::ParseError)
    );
}

#[test]
fn each_rover_fares_as_it_would_alone() {
    let lines = ["5 4", "1 2 N", "LMLMLMLMM", "3 3 E", "MMRMMRMRRM", "0 0 S", "MLMMMMMMLMMMMMM"];
    let whole = Rover::compute_location(lines.join("\n")).unwrap();
    assert_eq!(whole.len(), 3);
    for i in 0..3 {
        let alone = [lines[0], lines[2 * i + 1], lines[2 * i + 2]].join("\n");
        let got = Rover::compute_location(alone).unwrap();
        assert_eq!(got.len(), 1);
        assert_eq!(got[0], whole[i]);
    }
    assert_eq!(whole[2], Rover { x: 5, y: 4, position: Coordinate::N });
}
