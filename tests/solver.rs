use wortify::{convert_to_dataset, is_solution, points, solve, Input, Word};

struct SolutionTestcase {
    name: &'static str,
    letters: &'static str,
    word: &'static str,
    solution: bool,
}

const SOLUTION_TESTCASES: &[SolutionTestcase] = &[
    SolutionTestcase {
        name: "Solution contains all letter exactly once",
        letters: "abcdefg",
        word: "abcdefg",
        solution: true,
    },
    SolutionTestcase {
        name: "Word contains only required letter",
        letters: "abcdefg",
        word: "a",
        solution: true,
    },
    SolutionTestcase {
        name: "Empty word does not contain required letter",
        letters: "abcdefg",
        word: "",
        solution: false,
    },
    SolutionTestcase {
        name: "Word contains required letter but also others",
        letters: "abcdefg",
        word: "auiop",
        solution: false,
    },
    SolutionTestcase {
        name: "No common letters",
        letters: "abcdefg",
        word: "hijklmnop",
        solution: false,
    },
];

#[test]
fn test_is_solution() {
    for testcase in SOLUTION_TESTCASES {
        let input = Input::try_from(testcase.letters).unwrap();
        let word = Word::from(testcase.word);
        assert_eq!(
            is_solution(&input, &word),
            testcase.solution,
            "Testcase: {}",
            testcase.name
        );
    }
}

#[test]
fn scenario_scores() {
    assert_eq!(points("abcdefg"), 14);
    assert_eq!(points("a"), 1);
}

#[test]
fn points_short_and_long_words() {
    assert_eq!(points("abcd"), 1);
    assert_eq!(points("abcde"), 5);
    assert_eq!(points("aabbccdd"), 8);
    assert_eq!(points(""), 1);
}

#[test]
fn points_pangram_with_repeats() {
    assert_eq!(points("abcdefga"), 15);
    assert_eq!(points("gebratene"), 16);
}

#[test]
fn points_count_characters_not_bytes() {
    assert_eq!(points("äpfel"), 5);
    assert_eq!(points("übel"), 1);
}

#[test]
fn points_depend_only_on_length_and_distinct_count() {
    assert_eq!(points("abcdeff"), points("zyxwvuu"));
    assert_eq!(points("abcdeff"), points("ffedcba"));
    assert_eq!(points("abcdeff"), 7);
}

#[test]
fn empty_word_never_solves() {
    for letters in ["abcdefg", "eanrgbt", "zyxwvut"] {
        let input = Input::try_from(letters).unwrap();
        assert!(!is_solution(&input, &Word::from("")));
    }
}

#[test]
fn solutions_use_only_puzzle_letters() {
    let input = Input::try_from("eanrgbt").unwrap();
    let all: Vec<char> = "eanrgbt".chars().collect();
    for text in ["garten", "ernte", "gabe", "garn", "brot", "e", "tee"] {
        let word = Word::from(text);
        if is_solution(&input, &word) {
            assert!(word.as_str().chars().all(|c| all.contains(&c)));
            assert!(word.as_str().contains('e'));
        }
    }
}

#[test]
fn uppercase_dictionary_words_match_lowercase_letters() {
    let input = Input::try_from("eanrgbt").unwrap();
    assert!(is_solution(&input, &Word::from("GARTEN")));
}

#[test]
fn solve_picks_and_scores_words() {
    let input = Input::try_from("eanrgbt").unwrap();
    let dataset = convert_to_dataset(
        "garten\nbrot\nernte\nbaum\ngabe\ngarn\ngebratene\n".to_string(),
    );
    let solution = solve(&input, &dataset);
    let found: Vec<&str> = solution.words.iter().map(|w| w.as_str()).collect();
    assert_eq!(found, vec!["garten", "ernte", "gabe", "gebratene"]);
    assert_eq!(solution.points, 6 + 5 + 1 + 16);
}

#[test]
fn solve_on_empty_dataset() {
    let input = Input::try_from("eanrgbt").unwrap();
    let dataset = convert_to_dataset(String::new());
    let solution = solve(&input, &dataset);
    assert!(solution.words.is_empty());
    assert_eq!(solution.points, 0);
}

#[test]
fn points_ignore_order_and_letter_names() {
    assert_eq!(points("gebratene"), points("eeegbratn"));
    assert_eq!(points("gebratene"), points("hfcsbufof"));
    assert_eq!(points("ernte"), points("xyzux"));
}
