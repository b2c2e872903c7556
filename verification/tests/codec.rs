use sudoku_game::{
    compress_string, decompress_string, get_count, get_letter, is_valid_game_str, push_if_full,
    push_repeated, SudokuData,
};

fn some(s: &str) -> Option<String> {
    Some(s.to_string())
}

#[test]
fn test_compress_string() {
    let cases = [
        ("", ""),
        ("1", "1"),
        ("11", "1b"),
        ("111111111", "1i"),
        ("111111112", "1h2"),
        ("111111122", "1g2b"),
        ("111111222", "1f2c"),
        ("111112222", "1e2d"),
        ("111122222", "1d2e"),
        ("111222222", "1c2f"),
        ("112222222", "1b2g"),
        ("122222222", "12h"),
        ("222222222", "2i"),
        ("1....2", "1.d2"),
    ];
    for (input, expected) in cases {
        assert_eq!(compress_string(input), some(expected), "compressing {input:?}");
    }
}

#[test]
fn test_decompress_string() {
    let cases = [
        ("", ""),
        ("1", "1"),
        ("1b", "11"),
        ("1i", "111111111"),
        ("1h2", "111111112"),
        ("1g2b", "111111122"),
        ("1f2c", "111111222"),
        ("1e2d", "111112222"),
        ("1d2e", "111122222"),
        ("1c2f", "111222222"),
        ("1b2g", "112222222"),
        ("12h", "122222222"),
        ("2i", "222222222"),
        ("1.d2", "1....2"),
    ];
    for (input, expected) in cases {
        assert_eq!(decompress_string(input), some(expected), "decompressing {input:?}");
    }
    assert_eq!(decompress_string("d"), None);
}

#[test]
fn compress_examples_of_short_runs() {
    assert_eq!(compress_string("1....2"), some("1.d2"));
    assert_eq!(compress_string("111111111"), some("1i"));
}

#[test]
fn decompress_token_without_literal_fails() {
    assert_eq!(decompress_string("d"), None);
    assert_eq!(decompress_string("Z1"), None);
    assert_eq!(decompress_string("a"), None);
}

#[test]
fn decompress_two_tokens_in_a_row_fails() {
    assert_eq!(decompress_string("1bb"), None);
    assert_eq!(decompress_string("1aZ"), None);
    assert_eq!(decompress_string("12cd3"), None);
}

#[test]
fn decompress_token_a_keeps_single_character() {
    assert_eq!(decompress_string("1a"), some("1"));
    assert_eq!(decompress_string("1a2"), some("12"));
}

#[test]
fn compress_run_of_52_is_one_chunk() {
    let input = ".".repeat(52);
    assert_eq!(compress_string(&input), some(".Z"));
    let ones = "1".repeat(52);
    assert_eq!(compress_string(&ones), some("1Z"));
}

#[test]
fn compress_run_of_53_starts_a_new_run() {
    let input = ".".repeat(53);
    assert_eq!(compress_string(&input), some(".Z."));
}

#[test]
fn compress_run_of_54_and_104_and_105() {
    assert_eq!(compress_string(&"7".repeat(54)), some("7Z7b"));
    assert_eq!(compress_string(&"7".repeat(104)), some("7Z7Z"));
    assert_eq!(compress_string(&"7".repeat(105)), some("7Z7Z7"));
}

#[test]
fn compress_run_of_27_uses_upper_case() {
    assert_eq!(compress_string(&"3".repeat(26)), some("3z"));
    assert_eq!(compress_string(&"3".repeat(27)), some("3A"));
    assert_eq!(compress_string(&"3".repeat(28)), some("3B"));
}

#[test]
fn decompress_upper_case_tokens() {
    assert_eq!(decompress_string("3z"), Some("3".repeat(26)));
    assert_eq!(decompress_string("3A"), Some("3".repeat(27)));
    assert_eq!(decompress_string("3Z"), Some("3".repeat(52)));
}

#[test]
fn round_trip_of_long_single_run() {
    for n in [1usize, 2, 51, 52, 53, 103, 104, 105, 1000, 2600, 5000] {
        let input = "9".repeat(n);
        let packed = compress_string(&input).expect("compression never fails");
        assert_eq!(decompress_string(&packed), Some(input), "run of {n}");
    }
}

#[test]
fn round_trip_of_puzzle_texts() {
    let puzzles = [
        "53..7....6..195....98....6.8...6...34..8.3..17...2...6.6....28....419..5....8..79",
        ".................................................................................",
        "111111111222222222333333333444444444555555555666666666777777777888888888999999999",
        "123456789123456789123456789123456789123456789123456789123456789123456789123456789",
        "1...............................................................................2",
    ];
    for puzzle in puzzles {
        assert_eq!(puzzle.chars().count(), 81);
        let packed = compress_string(puzzle).expect("compression never fails");
        assert!(packed.len() <= puzzle.len());
        assert_eq!(decompress_string(&packed), some(puzzle));
    }
}

#[test]
fn compress_empty_board_text() {
    let blank = ".".repeat(81);
    assert_eq!(compress_string(&blank), some(".Z.C"));
    assert_eq!(decompress_string(".Z.C"), Some(blank));
}

#[test]
fn compress_keeps_other_characters() {
    assert_eq!(compress_string("0.0"), some("0.0"));
    assert_eq!(compress_string("é"), some("é"));
    assert_eq!(compress_string("ééé"), some("éc"));
    assert_eq!(decompress_string("éc"), some("ééé"));
}

#[test]
fn get_count_of_letters() {
    assert_eq!(get_count('a'), Some(0));
    assert_eq!(get_count('b'), Some(1));
    assert_eq!(get_count('z'), Some(25));
    assert_eq!(get_count('A'), Some(26));
    assert_eq!(get_count('Z'), Some(51));
}

#[test]
fn get_count_of_other_characters() {
    for c in ['0', '9', '.', ' ', '[', '`', '{', '@', 'é'] {
        assert_eq!(get_count(c), None, "{c:?}");
    }
}

#[test]
fn get_letter_of_indices() {
    assert_eq!(get_letter(0), Some('a'));
    assert_eq!(get_letter(3), Some('d'));
    assert_eq!(get_letter(8), Some('i'));
    assert_eq!(get_letter(25), Some('z'));
    assert_eq!(get_letter(26), Some('A'));
    assert_eq!(get_letter(51), Some('Z'));
}

#[test]
fn get_letter_out_of_range() {
    assert_eq!(get_letter(52), None);
    assert_eq!(get_letter(53), None);
    assert_eq!(get_letter(usize::MAX), None);
}

#[test]
fn get_letter_and_get_count_are_inverse() {
    for idx in 0..52usize {
        let letter = get_letter(idx).expect("a letter for every index below 52");
        assert_eq!(get_count(letter), Some(idx));
    }
}

#[test]
fn push_repeated_writes_one_chunk() {
    let mut out = String::from("x");
    assert_eq!(push_repeated(&mut out, '4', 1), Some(()));
    assert_eq!(out, "x4");
    assert_eq!(push_repeated(&mut out, '5', 2), Some(()));
    assert_eq!(out, "x45b");
    assert_eq!(push_repeated(&mut out, '6', 52), Some(()));
    assert_eq!(out, "x45b6Z");
    assert_eq!(push_repeated(&mut out, '7', 0), Some(()));
    assert_eq!(out, "x45b6Z7");
}

#[test]
fn push_repeated_refuses_more_than_52() {
    let mut out = String::from("x");
    assert_eq!(push_repeated(&mut out, '4', 53), None);
    assert_eq!(out, "x");
    assert_eq!(push_repeated(&mut out, '4', 1000), None);
    assert_eq!(out, "x");
}

#[test]
fn push_if_full_counts_and_flushes() {
    let mut out = String::new();
    assert_eq!(push_if_full(&mut out, '1', 0), Some(1));
    assert_eq!(push_if_full(&mut out, '1', 1), Some(2));
    assert_eq!(push_if_full(&mut out, '1', 51), Some(52));
    assert_eq!(out, "");
    assert_eq!(push_if_full(&mut out, '1', 52), Some(1));
    assert_eq!(out, "1Z");
    assert_eq!(push_if_full(&mut out, '1', 53), Some(54));
    assert_eq!(out, "1Z");
}

#[test]
fn valid_game_text_is_81_digits_or_dots() {
    assert!(is_valid_game_str(&".".repeat(81)));
    assert!(is_valid_game_str(&"0".repeat(81)));
    assert!(is_valid_game_str(
        "53..7....6..195....98....6.8...6...34..8.3..17...2...6.6....28....419..5....8..79"
    ));
}

#[test]
fn invalid_game_texts() {
    assert!(!is_valid_game_str(""));
    assert!(!is_valid_game_str(&".".repeat(80)));
    assert!(!is_valid_game_str(&".".repeat(82)));
    assert!(!is_valid_game_str(&".".repeat(200)));
    let mut with_letter = ".".repeat(80);
    with_letter.push('a');
    assert!(!is_valid_game_str(&with_letter));
    let mut with_wide = ".".repeat(80);
    with_wide.push('é');
    assert!(!is_valid_game_str(&with_wide));
}

#[test]
fn board_to_compressed_round_trip() {
    let puzzle = "53..7....6..195....98....6.8...6...34..8.3..17...2...6.6....28....419..5....8..79";
    let board = SudokuData::from_str(puzzle).expect("a valid puzzle");
    let packed = board.to_compressed();
    assert_eq!(Some(packed.clone()), compress_string(puzzle));
    assert_eq!(decompress_string(&packed), some(puzzle));
    assert_eq!(SudokuData::default().to_compressed(), ".Z.C");
}
