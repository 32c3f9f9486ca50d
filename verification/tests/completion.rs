use mpsc_chat::shell::completion::{
    choose_completion, command_matches, complete_argument, find_longest_common_prefix,
    find_word_at_pos, TabState,
};

fn words(list: &[&str]) -> Vec<String> {
    list.iter().map(|w| w.to_string()).collect()
}

#[test]
fn the_word_at_the_cursor_is_found() {
    assert_eq!(find_word_at_pos("echo hello", 7), (5, "hello".to_string()));
    assert_eq!(find_word_at_pos("echo hello", 10), (5, "hello".to_string()));
    assert_eq!(find_word_at_pos("echo hello", 99), (5, "hello".to_string()));
    assert_eq!(find_word_at_pos("echo hello", 0), (0, "echo".to_string()));
    assert_eq!(find_word_at_pos("echo hello", 4), (0, "echo".to_string()));
    assert_eq!(find_word_at_pos("echo hello", 5), (5, "hello".to_string()));
    assert_eq!(find_word_at_pos("echo  ", 6), (6, String::new()));
    assert_eq!(find_word_at_pos("", 0), (0, String::new()));
    assert_eq!(find_word_at_pos("a\tbc d", 3), (2, "bc".to_string()));
}

#[test]
fn the_longest_common_prefix_is_found() {
    assert_eq!(find_longest_common_prefix(&words(&[])), None);
    assert_eq!(find_longest_common_prefix(&words(&["alone"])), Some("alone".to_string()));
    assert_eq!(find_longest_common_prefix(&words(&[""])), Some(String::new()));
    assert_eq!(
        find_longest_common_prefix(&words(&["xyz_foo", "xyz_foo_bar", "xyz_foo_baz"])),
        Some("xyz_foo".to_string())
    );
    assert_eq!(find_longest_common_prefix(&words(&["abc", "abd", "a"])), Some("a".to_string()));
    assert_eq!(find_longest_common_prefix(&words(&["abc", "xbc"])), None);
    assert_eq!(find_longest_common_prefix(&words(&["same", "same"])), Some("same".to_string()));
}

#[test]
fn command_names_are_collected_once_and_sorted() {
    let builtins = words(&["cd", "pwd", "type", "exit", "echo"]);
    let found = words(&["env", "echo", "expr", "ls", "env"]);
    assert_eq!(command_matches("e", &builtins, &found), words(&["echo", "env", "exit", "expr"]));
    assert_eq!(command_matches("ec", &builtins, &found), words(&["echo"]));
    assert_eq!(command_matches("z", &builtins, &found), words(&[]));
    assert_eq!(
        command_matches("", &builtins, &words(&[])),
        words(&["cd", "echo", "exit", "pwd", "type"])
    );
}

#[test]
fn one_match_is_completed_with_a_blank() {
    let mut state = TabState::new();
    let answer = choose_completion("ec", words(&["echo"]), &mut state);
    assert_eq!(answer.candidates.len(), 1);
    assert_eq!(answer.candidates[0].display, "echo");
    assert_eq!(answer.candidates[0].replacement, "echo ");
    assert!(!answer.ring_bell);
    assert!(answer.list.is_none());

    let answer = choose_completion("zz", words(&[]), &mut state);
    assert!(answer.candidates.is_empty());
    assert!(!answer.ring_bell);
    assert!(answer.list.is_none());
}

#[test]
fn several_matches_are_completed_as_far_as_they_agree() {
    let mut state = TabState::new();
    let names = words(&["xyz_foo", "xyz_foo_bar", "xyz_foo_baz"]);
    let answer = choose_completion("xyz_", names, &mut state);
    assert_eq!(answer.candidates.len(), 1);
    assert_eq!(answer.candidates[0].display, "xyz_foo");
    assert_eq!(answer.candidates[0].replacement, "xyz_foo");
    assert!(!answer.ring_bell);
}

#[test]
fn the_bell_rings_first_and_the_list_comes_second() {
    let mut state = TabState::new();
    let names = words(&["echo", "env", "exit"]);
    let first = choose_completion("e", names.clone(), &mut state);
    assert!(first.candidates.is_empty());
    assert!(first.ring_bell);
    assert!(first.list.is_none());

    let second = choose_completion("e", names.clone(), &mut state);
    assert!(second.candidates.is_empty());
    assert!(!second.ring_bell);
    assert_eq!(second.list, Some(names.clone()));

    let third = choose_completion("e", names.clone(), &mut state);
    assert!(third.ring_bell);

    // another word starts over
    let other = choose_completion("", words(&["cd", "pwd"]), &mut state);
    assert!(other.ring_bell);
    let again = choose_completion("e", names, &mut state);
    assert!(again.ring_bell);
}

#[test]
fn arguments_are_suggested_from_history() {
    let history = words(&[
        "git commit -m x",
        "git checkout main",
        "git  commit --amend",
        "gitk commit",
        "ls commit",
        "git",
        "git clone",
    ]);
    let found = complete_argument(&words(&["git"]), "c", &history);
    let shown: Vec<&str> = found.iter().map(|p| p.display.as_str()).collect();
    assert_eq!(shown, vec!["commit", "checkout", "clone"]);
    assert!(found.iter().all(|p| p.display == p.replacement));

    let found = complete_argument(&words(&["git", "commit"]), "-", &history);
    let shown: Vec<&str> = found.iter().map(|p| p.display.as_str()).collect();
    assert_eq!(shown, vec!["-m", "--amend"]);

    assert!(complete_argument(&words(&["git"]), "x", &history).is_empty());
    assert!(complete_argument(&words(&["svn"]), "", &history).is_empty());
}
