use wordle::Config;
use wordle::MatchType::Match;
use wordle::Turn;
use wordle::pick_random_word;

fn dictionary() -> Vec<String> {
    vec![
        "rebus".to_string(),
        "route".to_string(),
        "radex".to_string(),
        "stole".to_string(),
        "robot".to_string(),
    ]
}

#[test]
fn in_list_finds_dictionary_words() {
    let config = Config::new("rebus".to_string(), dictionary(), false);
    assert!(config.in_list("route"));
    assert!(!config.in_list("crane"));
}

// Prior feedback greens {(r, 0)} and yellows {e}: "route" reuses both,
// "stole" misses the green.
#[test]
fn hard_mode_reuses_previous_feedback() {
    let mut config = Config::new("rebus".to_string(), dictionary(), true);
    config.determine_match(&"radex".to_string());
    assert!(config.is_good_hard_mode_guess(&"route".to_string()));
    assert!(!config.is_good_hard_mode_guess(&"stole".to_string()));
}

#[test]
fn hard_mode_first_guess_always_allowed() {
    let config = Config::new("rebus".to_string(), dictionary(), true);
    assert!(config.is_good_hard_mode_guess(&"zzzzz".to_string()));
    assert!(config.is_good_hard_mode_guess(&"stole".to_string()));
}

#[test]
fn play_turn_rejects_wrong_length() {
    let mut config = Config::new("rebus".to_string(), dictionary(), false);
    let t = config.play_turn(&"go".to_string(), 0);
    assert!(matches!(t, Turn::WrongLength));
}

#[test]
fn play_turn_rejects_unknown_word() {
    let mut config = Config::new("rebus".to_string(), dictionary(), false);
    let t = config.play_turn(&"crane".to_string(), 0);
    assert!(matches!(t, Turn::NotInList));
}

#[test]
fn play_turn_rejects_hard_violation() {
    let mut config = Config::new("rebus".to_string(), dictionary(), true);
    let t = config.play_turn(&"radex".to_string(), 0);
    assert!(matches!(t, Turn::Continue(_)));
    let t = config.play_turn(&"stole".to_string(), 1);
    assert!(matches!(t, Turn::HardViolation));
}

#[test]
fn play_turn_win() {
    let mut config = Config::new("rebus".to_string(), dictionary(), false);
    match config.play_turn(&"rebus".to_string(), 3) {
        Turn::Won(tags) => assert_eq!(tags, vec![Match; 5]),
        _ => panic!("expected a win"),
    }
}

#[test]
fn play_turn_loss_on_last_attempt() {
    let mut config = Config::new("rebus".to_string(), dictionary(), false);
    let t = config.play_turn(&"stole".to_string(), 5);
    assert!(matches!(t, Turn::Lost(_)));
}

#[test]
fn play_turn_continues_with_attempts_left() {
    let mut config = Config::new("rebus".to_string(), dictionary(), false);
    let t = config.play_turn(&"stole".to_string(), 4);
    assert!(matches!(t, Turn::Continue(_)));
}

#[test]
fn pick_random_word_from_singleton() {
    let words = vec!["rebus".to_string()];
    assert_eq!(pick_random_word(&words), Some("rebus".to_string()));
}

#[test]
fn pick_random_word_of_empty_list() {
    let words: Vec<String> = Vec::new();
    assert_eq!(pick_random_word(&words), None);
}

#[test]
fn pick_random_word_is_from_the_list() {
    let words = dictionary();
    let picked = pick_random_word(&words);
    assert!(words.contains(&picked.unwrap()));
}
