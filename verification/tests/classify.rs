use wordle::Config;
use wordle::MatchType;
use wordle::MatchType::Match;
use wordle::MatchType::Misplaced;
use wordle::MatchType::NoMatch;
use wordle::WORD_LENGTH;

fn test_match(word: &str, guess: &str) -> Vec<MatchType> {
    let w = word.to_string();
    let g = guess.to_string();
    Config::new(w.clone(), vec![w.clone(), g.clone()], false).determine_match(&g.clone())
}

#[test]
fn test_equal_strings() {
    assert_eq!(test_match("robot", "robot"), vec![Match; WORD_LENGTH]);
}

#[test]
fn test_robot_robto() {
    assert_eq!(
        test_match("robot", "robto"),
        vec![Match, Match, Match, Misplaced, Misplaced]
    );
}

#[test]
fn test_spine_every() {
    assert_eq!(
        test_match("spine", "every"),
        vec![Misplaced, NoMatch, Misplaced, NoMatch, NoMatch]
    );
}

#[test]
fn test_robot_roboo() {
    assert_eq!(
        test_match("robot", "rooot"),
        vec![Match, Match, NoMatch, Match, Match]
    );
}

#[test]
fn test_rebus_arise() {
    assert_eq!(
        test_match("rebus", "arise"),
        vec![NoMatch, Misplaced, NoMatch, Misplaced, Misplaced]
    );
}

#[test]
fn test_rebus_route() {
    assert_eq!(
        test_match("rebus", "route"),
        vec![Match, NoMatch, Misplaced, NoMatch, Misplaced]
    );
}

#[test]
fn test_rebus_rules() {
    assert_eq!(
        test_match("rebus", "rules"),
        vec![Match, Misplaced, NoMatch, Misplaced, Match]
    );
}

#[test]
fn classify_empty_word() {
    let mut config = Config::new(String::new(), vec![String::new()], false);
    let tags = config.determine_match(&String::new());
    assert_eq!(tags, Vec::<MatchType>::new());
}

#[test]
fn classify_is_deterministic() {
    let w = "rebus".to_string();
    let g = "route".to_string();
    let mut config = Config::new(w.clone(), vec![w.clone(), g.clone()], false);
    let first = config.determine_match(&g);
    let second = config.determine_match(&g);
    assert_eq!(first, second);
}

// A letter of a repeat-free guess is scored at most as often as the word
// holds it.
#[test]
fn scored_letters_bounded_by_word() {
    let word = "rebus";
    let guess = "route";
    let tags = test_match(word, guess);
    for c in guess.chars() {
        let scored = guess
            .chars()
            .zip(tags.iter())
            .filter(|(g, t)| *g == c && **t != NoMatch)
            .count();
        let in_word = word.chars().filter(|w| *w == c).count();
        assert!(scored <= in_word);
    }
}
