use todo_lists::command::{eval_mode, parse_command, Command, Usage};

fn words(list: &[&str]) -> Vec<String> {
    list.iter().map(|w| w.to_string()).collect()
}

fn parse(list: &[&str]) -> Command {
    parse_command(&words(list))
}

#[test]
fn no_command_gives_full_usage() {
    assert_eq!(parse(&[]), Command::Usage(Usage::Full));
    assert_eq!(parse(&["todo"]), Command::Usage(Usage::Full));
}

#[test]
fn unknown_command_gives_full_usage() {
    assert_eq!(parse(&["todo", "frobnicate"]), Command::Usage(Usage::Full));
    assert_eq!(parse(&["todo", "--eval", "use", "1", "in", "x"]), Command::Usage(Usage::Full));
    assert_eq!(parse(&["todo", "ADD", "x"]), Command::Usage(Usage::Full));
    assert_eq!(parse(&["todo", ""]), Command::Usage(Usage::Full));
}

#[test]
fn add_to_a_named_list() {
    assert_eq!(
        parse(&["todo", "add", "buy milk", "to", "groceries"]),
        Command::Add { task: "buy milk".to_string(), list: "groceries".to_string() }
    );
    assert_eq!(
        parse(&["todo", "add", "buy", "oat", "milk", "to", "groceries"]),
        Command::Add { task: "buy oat milk".to_string(), list: "groceries".to_string() }
    );
}

#[test]
fn add_keeps_an_earlier_to_in_the_task() {
    assert_eq!(
        parse(&["todo", "add", "go", "to", "town", "to", "errands"]),
        Command::Add { task: "go to town".to_string(), list: "errands".to_string() }
    );
}

#[test]
fn add_without_a_task() {
    assert_eq!(parse(&["todo", "add"]), Command::Usage(Usage::Add));
}

#[test]
fn add_with_to_in_the_wrong_place() {
    assert_eq!(parse(&["todo", "add", "to", "x"]), Command::Usage(Usage::AddTo));
    assert_eq!(parse(&["todo", "add", "go", "to", "town", "now"]), Command::Usage(Usage::AddTo));
    assert_eq!(parse(&["todo", "add", "talk", "to"]), Command::Usage(Usage::AddTo));
    assert_eq!(parse(&["todo", "add", "to"]), Command::Usage(Usage::AddTo));
}

#[test]
fn add_without_to_asks_for_the_list() {
    assert_eq!(
        parse(&["todo", "add", "buy", "milk"]),
        Command::AddAsking { task: "buy milk".to_string() }
    );
    assert_eq!(parse(&["todo", "add", "x"]), Command::AddAsking { task: "x".to_string() });
}

#[test]
fn program_name_is_no_word_of_the_task() {
    assert_eq!(parse(&["to", "add", "milk"]), Command::AddAsking { task: "milk".to_string() });
    assert_eq!(
        parse(&["to", "add", "milk", "to", "groceries"]),
        Command::Add { task: "milk".to_string(), list: "groceries".to_string() }
    );
}

#[test]
fn add_reads_only_whole_words() {
    assert_eq!(
        parse(&["todo", "add", "go to town"]),
        Command::AddAsking { task: "go to town".to_string() }
    );
    assert_eq!(
        parse(&["todo", "add", "TO", "tomorrow"]),
        Command::AddAsking { task: "TO tomorrow".to_string() }
    );
    assert_eq!(
        parse(&["todo", "add", "to", "to", "to", "to"]),
        Command::Add { task: "to to".to_string(), list: "to".to_string() }
    );
    assert_eq!(
        parse(&["todo", "add", "to", "to", "to"]),
        Command::Add { task: "to".to_string(), list: "to".to_string() }
    );
}

#[test]
fn list_forms() {
    assert_eq!(parse(&["todo", "list"]), Command::ListNames);
    assert_eq!(parse(&["todo", "list", "all"]), Command::ListAll);
    assert_eq!(
        parse(&["todo", "list", "groceries"]),
        Command::ListTasks { list: "groceries".to_string() }
    );
    assert_eq!(
        parse(&["todo", "list", "groceries", "and", "more"]),
        Command::ListTasks { list: "groceries".to_string() }
    );
    assert_eq!(parse(&["todo", "list", "all", "of", "them"]), Command::ListAll);
    assert_eq!(parse(&["todo", "list", "All"]), Command::ListTasks { list: "All".to_string() });
}

#[test]
fn remove_by_number() {
    assert_eq!(
        parse(&["todo", "remove", "2", "from", "groceries"]),
        Command::Remove { num: 2, list: "groceries".to_string() }
    );
    assert_eq!(
        parse(&["todo", "remove", "0", "from", "groceries"]),
        Command::Remove { num: 0, list: "groceries".to_string() }
    );
}

#[test]
fn remove_in_a_wrong_shape() {
    assert_eq!(parse(&["todo", "remove"]), Command::Usage(Usage::Remove));
    assert_eq!(parse(&["todo", "remove", "2"]), Command::Usage(Usage::Remove));
    assert_eq!(parse(&["todo", "remove", "2", "groceries"]), Command::Usage(Usage::Remove));
    assert_eq!(parse(&["todo", "remove", "2", "in", "groceries"]), Command::Usage(Usage::Remove));
    assert_eq!(parse(&["todo", "remove", "2", "from", "a", "b"]), Command::Usage(Usage::Remove));
    assert_eq!(parse(&["todo", "remove", "from", "groceries"]), Command::Usage(Usage::Remove));
}

#[test]
fn remove_with_what_is_no_number() {
    assert_eq!(parse(&["todo", "remove", "two", "from", "groceries"]), Command::InvalidTaskNumber);
    assert_eq!(parse(&["todo", "remove", "-1", "from", "groceries"]), Command::InvalidTaskNumber);
    assert_eq!(parse(&["todo", "remove", "", "from", "groceries"]), Command::InvalidTaskNumber);
    assert_eq!(
        parse(&["todo", "remove", "99999999999999999999999999", "from", "x"]),
        Command::InvalidTaskNumber
    );
}

#[test]
fn edit_by_number() {
    assert_eq!(
        parse(&["todo", "edit", "1", "in", "groceries", "buy", "oat", "milk"]),
        Command::Edit {
            num: 1,
            list: "groceries".to_string(),
            text: "buy oat milk".to_string()
        }
    );
    assert_eq!(
        parse(&["todo", "edit", "3", "in", "x", "y"]),
        Command::Edit { num: 3, list: "x".to_string(), text: "y".to_string() }
    );
}

#[test]
fn edit_in_a_wrong_shape() {
    assert_eq!(parse(&["todo", "edit"]), Command::Usage(Usage::Edit));
    assert_eq!(parse(&["todo", "edit", "1", "in", "groceries"]), Command::Usage(Usage::Edit));
    assert_eq!(
        parse(&["todo", "edit", "1", "of", "groceries", "text"]),
        Command::Usage(Usage::Edit)
    );
    assert_eq!(
        parse(&["todo", "edit", "in", "1", "groceries", "text"]),
        Command::Usage(Usage::Edit)
    );
}

#[test]
fn edit_with_what_is_no_number() {
    assert_eq!(
        parse(&["todo", "edit", "one", "in", "groceries", "text"]),
        Command::InvalidTaskNumber
    );
}

#[test]
fn tag_with_the_current_directory() {
    assert_eq!(
        parse(&["todo", "tag", "1", "in", "work"]),
        Command::Tag { file: None, num: 1, list: "work".to_string() }
    );
}

#[test]
fn tag_with_a_file() {
    assert_eq!(
        parse(&["todo", "tag", "notes.txt", "2", "in", "work"]),
        Command::Tag { file: Some("notes.txt".to_string()), num: 2, list: "work".to_string() }
    );
    assert_eq!(
        parse(&["todo", "tag", "a", "b", "7", "in", "work"]),
        Command::Tag { file: Some("a".to_string()), num: 7, list: "work".to_string() }
    );
}

#[test]
fn tag_in_a_wrong_shape() {
    assert_eq!(parse(&["todo", "tag"]), Command::Usage(Usage::Tag));
    assert_eq!(parse(&["todo", "tag", "in", "work"]), Command::Usage(Usage::Tag));
    assert_eq!(parse(&["todo", "tag", "1", "work"]), Command::Usage(Usage::Tag));
    assert_eq!(parse(&["todo", "tag", "1", "to", "work"]), Command::Usage(Usage::Tag));
    assert_eq!(parse(&["todo", "tag", "1", "in", "work", "x"]), Command::Usage(Usage::Tag));
}

#[test]
fn tag_with_what_is_no_number() {
    assert_eq!(parse(&["todo", "tag", "one", "in", "work"]), Command::InvalidTaskNumber);
    assert_eq!(parse(&["todo", "tag", "1", "notes.txt", "in", "work"]), Command::InvalidTaskNumber);
}

#[test]
fn use_the_only_tag() {
    assert_eq!(
        parse(&["todo", "use", "1", "in", "work"]),
        Command::Use { num: 1, tag_num: None, list: "work".to_string() }
    );
}

#[test]
fn use_a_numbered_tag() {
    assert_eq!(
        parse(&["todo", "use", "1", "2", "in", "work"]),
        Command::Use { num: 1, tag_num: Some(2), list: "work".to_string() }
    );
    assert_eq!(
        parse(&["todo", "use", "1", "2", "--eval", "in", "work"]),
        Command::Use { num: 1, tag_num: Some(2), list: "work".to_string() }
    );
    assert_eq!(
        parse(&["todo", "use", "1", "0", "in", "work"]),
        Command::Use { num: 1, tag_num: Some(0), list: "work".to_string() }
    );
}

#[test]
fn use_with_what_is_no_number() {
    assert_eq!(
        parse(&["todo", "use", "one", "in", "work"]),
        Command::Use { num: 0, tag_num: None, list: "work".to_string() }
    );
    assert_eq!(
        parse(&["todo", "use", "1", "two", "in", "work"]),
        Command::Use { num: 1, tag_num: None, list: "work".to_string() }
    );
    assert_eq!(
        parse(&["todo", "use", "1", "--eval", "in", "work"]),
        Command::Use { num: 1, tag_num: None, list: "work".to_string() }
    );
}

#[test]
fn use_in_a_wrong_shape() {
    assert_eq!(parse(&["todo", "use"]), Command::Usage(Usage::Use));
    assert_eq!(parse(&["todo", "use", "1"]), Command::Usage(Usage::Use));
    assert_eq!(parse(&["todo", "use", "1", "work"]), Command::Usage(Usage::Use));
    assert_eq!(parse(&["todo", "use", "in", "work"]), Command::Usage(Usage::Use));
    assert_eq!(parse(&["todo", "use", "1", "in", "work", "--eval"]), Command::Usage(Usage::Use));
}

#[test]
fn cleanup_forms() {
    assert_eq!(
        parse(&["todo", "cleanup", "groceries"]),
        Command::Cleanup { list: "groceries".to_string() }
    );
    assert_eq!(
        parse(&["todo", "cleanup", "groceries", "now"]),
        Command::Cleanup { list: "groceries".to_string() }
    );
    assert_eq!(parse(&["todo", "cleanup"]), Command::Usage(Usage::Cleanup));
}

#[test]
fn eval_flag_is_found_anywhere() {
    assert!(eval_mode(&words(&["todo", "use", "1", "--eval", "in", "work"])));
    assert!(eval_mode(&words(&["--eval"])));
    assert!(eval_mode(&words(&["todo", "use", "1", "in", "work", "--eval"])));
    assert!(!eval_mode(&words(&["todo", "use", "1", "in", "work"])));
    assert!(!eval_mode(&words(&["todo", "use", "--evaluate", "-eval", "eval"])));
    assert!(!eval_mode(&words(&[])));
}
