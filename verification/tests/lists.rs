use todo_lists::item::TodoItem;
use todo_lists::list::{number_lines, overview, InvalidTaskNumber, TodoList};

fn list_of(lines: &[&str]) -> TodoList {
    TodoList::new(lines.iter().map(|l| l.to_string()).collect())
}

fn lines_of(list: &TodoList) -> Vec<&str> {
    list.lines.iter().map(|l| l.as_str()).collect()
}

#[test]
fn removed_task_leaves_the_others_in_order() {
    let mut list = list_of(&["a", "b [TAGS:/x]", "c"]);
    assert_eq!(list.remove_task(2), Ok(()));
    assert_eq!(lines_of(&list), vec!["a", "c"]);
    assert_eq!(list.remove_task(1), Ok(()));
    assert_eq!(lines_of(&list), vec!["c"]);
    assert_eq!(list.remove_task(1), Ok(()));
    assert!(list.lines.is_empty());
}

#[test]
fn remove_keeps_other_lines_as_they_are() {
    let mut list = list_of(&["x [TAGS: a ]", "b"]);
    assert_eq!(list.remove_task(2), Ok(()));
    assert_eq!(lines_of(&list), vec!["x [TAGS: a ]"]);
}

#[test]
fn remove_refuses_a_number_without_a_task() {
    let mut list = list_of(&["a", "b"]);
    assert_eq!(list.remove_task(0), Err(InvalidTaskNumber));
    assert_eq!(list.remove_task(3), Err(InvalidTaskNumber));
    assert_eq!(list.remove_task(usize::MAX), Err(InvalidTaskNumber));
    assert_eq!(lines_of(&list), vec!["a", "b"]);
    let mut empty = list_of(&[]);
    assert_eq!(empty.remove_task(1), Err(InvalidTaskNumber));
    assert!(empty.lines.is_empty());
}

#[test]
fn edited_task_gets_the_new_text() {
    let mut list = list_of(&["a", "b", "c"]);
    assert_eq!(list.edit_task(3, "see"), Ok(()));
    assert_eq!(lines_of(&list), vec!["a", "b", "see"]);
}

#[test]
fn edit_discards_the_tags_of_the_line() {
    let mut list = list_of(&["a [TAGS:/tmp/a]", "b [TAGS: x ]"]);
    assert_eq!(list.edit_task(1, "new"), Ok(()));
    assert_eq!(lines_of(&list), vec!["new", "b [TAGS: x ]"]);
}

#[test]
fn edit_refuses_a_number_without_a_task() {
    let mut list = list_of(&["a", "b"]);
    assert_eq!(list.edit_task(0, "x"), Err(InvalidTaskNumber));
    assert_eq!(list.edit_task(3, "x"), Err(InvalidTaskNumber));
    assert_eq!(lines_of(&list), vec!["a", "b"]);
}

#[test]
fn tagged_task_shows_its_tag_when_listed() {
    let mut list = list_of(&["write report"]);
    assert_eq!(list.add_tag(1, "/tmp/x"), Ok(()));
    assert_eq!(lines_of(&list), vec!["write report [TAGS:/tmp/x]"]);
    assert_eq!(list.list_tasks(), vec!["1. write report [TAGS:/tmp/x]"]);
}

#[test]
fn tagging_three_times_keeps_two_tags() {
    let mut list = list_of(&["t"]);
    assert_eq!(list.add_tag(1, "/tmp/a"), Ok(()));
    assert_eq!(list.add_tag(1, "/tmp/b"), Ok(()));
    assert_eq!(list.add_tag(1, "/tmp/a"), Ok(()));
    assert_eq!(lines_of(&list), vec!["t [TAGS:/tmp/b|/tmp/a]"]);
    let task = list.task(1).unwrap();
    assert_eq!(task.tags, vec!["/tmp/b", "/tmp/a"]);
}

#[test]
fn tagging_writes_every_line_back_as_read() {
    let mut list = list_of(&["a [TAGS: x | y ]", "b", "c [TAGS:z] tail"]);
    assert_eq!(list.add_tag(2, "/t"), Ok(()));
    assert_eq!(lines_of(&list), vec!["a [TAGS:x|y]", "b [TAGS:/t]", "c [TAGS:z]"]);
}

#[test]
fn tag_refuses_a_number_without_a_task() {
    let mut list = list_of(&["a [TAGS: x ]", "b"]);
    assert_eq!(list.add_tag(0, "/t"), Err(InvalidTaskNumber));
    assert_eq!(list.add_tag(3, "/t"), Err(InvalidTaskNumber));
    assert_eq!(lines_of(&list), vec!["a [TAGS: x ]", "b"]);
}

#[test]
fn removed_tag_leaves_the_line() {
    let mut list = list_of(&["a [TAGS:/x|/y]", "b [TAGS:/x]"]);
    assert_eq!(list.remove_tag(1, "/x"), Ok(()));
    assert_eq!(lines_of(&list), vec!["a [TAGS:/y]", "b [TAGS:/x]"]);
    assert_eq!(list.remove_tag(2, "/x"), Ok(()));
    assert_eq!(lines_of(&list), vec!["a [TAGS:/y]", "b"]);
    assert_eq!(list.remove_tag(3, "/x"), Err(InvalidTaskNumber));
    assert_eq!(list.remove_tag(0, "/x"), Err(InvalidTaskNumber));
    assert_eq!(lines_of(&list), vec!["a [TAGS:/y]", "b"]);
}

#[test]
fn task_is_read_by_number() {
    let list = list_of(&["a", "b [TAGS:/x|/y]"]);
    let task = list.task(2).unwrap();
    assert_eq!(task.text, "b");
    assert_eq!(task.tags, vec!["/x", "/y"]);
    assert_eq!(list.task(1).unwrap(), TodoItem::new("a".to_string()));
    assert_eq!(list.task(0), Err(InvalidTaskNumber));
    assert_eq!(list.task(3), Err(InvalidTaskNumber));
}

#[test]
fn listed_tasks_are_numbered_from_one() {
    let list = list_of(&["a", "b [TAGS: /x ]", "c"]);
    assert_eq!(list.list_tasks(), vec!["1. a", "2. b [TAGS:/x]", "3. c"]);
    assert!(list_of(&[]).list_tasks().is_empty());
}

#[test]
fn numbers_have_as_many_digits_as_needed() {
    let entries: Vec<String> = (0..12).map(|_| "x".to_string()).collect();
    let shown = number_lines("", &entries);
    assert_eq!(shown.len(), 12);
    assert_eq!(shown[0], "1. x");
    assert_eq!(shown[8], "9. x");
    assert_eq!(shown[9], "10. x");
    assert_eq!(shown[11], "12. x");
}

#[test]
fn numbered_lines_carry_the_indent() {
    let entries = vec!["/tmp/a".to_string(), "/tmp/b".to_string()];
    assert_eq!(number_lines("  ", &entries), vec!["  1. /tmp/a", "  2. /tmp/b"]);
    assert_eq!(number_lines("", &entries), vec!["1. /tmp/a", "2. /tmp/b"]);
}

#[test]
fn overview_shows_lines_as_they_are() {
    let list = list_of(&["a", "b [TAGS: /x ]"]);
    assert_eq!(overview(Some(&list)), vec!["  1. a", "  2. b [TAGS: /x ]"]);
}

#[test]
fn overview_of_nothing_says_empty() {
    assert_eq!(overview(None), vec!["  (empty)"]);
    assert_eq!(overview(Some(&list_of(&[]))), vec!["  (empty)"]);
}

#[test]
fn add_command_gives_one_line_for_the_list() {
    let words: Vec<String> =
        ["todo", "add", "buy milk", "to", "groceries"].iter().map(|w| w.to_string()).collect();
    match todo_lists::command::parse_command(&words) {
        todo_lists::command::Command::Add { task, list } => {
            assert_eq!(list, "groceries");
            let mut lines: Vec<String> = Vec::new();
            lines.push(TodoItem::new(task).to_string());
            assert_eq!(lines, vec!["buy milk"]);
        }
        other => panic!("{:?}", other),
    }
}

#[test]
fn refusal_has_its_message() {
    assert_eq!(InvalidTaskNumber.message(), "Error: Invalid task number");
    let mut list = list_of(&["a"]);
    assert_eq!(list.remove_task(2).unwrap_err().message(), "Error: Invalid task number");
}
