use horme::codec::{decode, encode};
use horme::task::{Status, Task};

#[test]
fn decode_two_sections() {
    let content = "## Todo\n- Buy milk\n    > 2% please\n\n## Doing\n\n## Done\n- Pay rent\n";
    let tasks = decode(content);
    assert_eq!(tasks.len(), 2);
    assert_eq!(tasks[0].name, "Buy milk");
    assert_eq!(tasks[0].description, "2% please");
    assert_eq!(tasks[0].status, Status::Todo);
    assert_eq!(tasks[1].name, "Pay rent");
    assert_eq!(tasks[1].description, "");
    assert_eq!(tasks[1].status, Status::Done);
}

#[test]
fn encode_after_decode_is_byte_for_byte() {
    let content = "## Todo\n- Buy milk\n    > 2% please\n\n## Doing\n\n## Done\n- Pay rent\n";
    let tasks = decode(content);
    assert_eq!(encode(&tasks), content);
}

#[test]
fn decode_assigns_sequential_ids() {
    let tasks = decode("## Todo\n- a\n- b\n\n## Done\n- c\n");
    assert_eq!(tasks[0].id, 0);
    assert_eq!(tasks[1].id, 1);
    assert_eq!(tasks[2].id, 2);
}

#[test]
fn headings_match_case_insensitively() {
    let tasks = decode("# TODO\n- a\n### doing\n- b\n###### dOnE\n- c\n");
    assert_eq!(tasks[0].status, Status::Todo);
    assert_eq!(tasks[1].status, Status::Doing);
    assert_eq!(tasks[2].status, Status::Done);
}

#[test]
fn unknown_heading_falls_back_to_todo() {
    let tasks = decode("## Done\n- a\n## Someday\n- b\n");
    assert_eq!(tasks[0].status, Status::Done);
    assert_eq!(tasks[1].status, Status::Todo);
}

#[test]
fn tasks_before_any_heading_are_todo() {
    let tasks = decode("- early\n");
    assert_eq!(tasks.len(), 1);
    assert_eq!(tasks[0].status, Status::Todo);
}

#[test]
fn unrecognized_lines_are_ignored() {
    let tasks = decode("junk\n####### not a heading\n- a\n  indented junk\n");
    assert_eq!(tasks.len(), 1);
    assert_eq!(tasks[0].name, "a");
    assert_eq!(tasks[0].description, "");
}

#[test]
fn orphan_markers_before_first_task_are_ignored() {
    let tasks = decode("    > stray description\n    * [x] stray subtask\n- a\n");
    assert_eq!(tasks.len(), 1);
    assert_eq!(tasks[0].description, "");
    assert!(tasks[0].subtasks.is_empty());
}

#[test]
fn subtask_lines_carry_the_done_flag() {
    let text = "## Todo\n- shopping\n    * [ ] milk\n    * [x] bread\n";
    let tasks = decode(text);
    assert_eq!(tasks[0].subtasks.len(), 2);
    assert_eq!(tasks[0].subtasks[0].name, "milk");
    assert!(!tasks[0].subtasks[0].status);
    assert_eq!(tasks[0].subtasks[1].name, "bread");
    assert!(tasks[0].subtasks[1].status);
}

#[test]
fn round_trip_with_subtasks_keeps_content() {
    let mut t0 = Task::new("shopping".to_string(), "soon".to_string(), Status::Doing, Some(0));
    t0.add_subtask("milk".to_string(), false);
    t0.add_subtask("bread".to_string(), true);
    let t1 = Task::new("rest".to_string(), "".to_string(), Status::Todo, Some(1));
    let tasks = vec![t0, t1];
    let again = decode(encode(&tasks).as_str());
    assert_eq!(again.len(), 2);
    // Grouped by status: the Todo task now comes first.
    assert_eq!(again[0].name, "rest");
    assert_eq!(again[1].name, "shopping");
    assert_eq!(again[1].description, "soon");
    assert_eq!(again[1].status, Status::Doing);
    assert_eq!(again[1].subtasks.len(), 2);
    assert_eq!(again[1].subtasks[0].name, "milk");
    assert!(!again[1].subtasks[0].status);
    assert_eq!(again[1].subtasks[1].name, "bread");
    assert!(again[1].subtasks[1].status);
}

#[test]
fn round_trip_keeps_order_within_each_status() {
    let tasks = vec![
        Task::new("d1".to_string(), "".to_string(), Status::Done, Some(0)),
        Task::new("t1".to_string(), "".to_string(), Status::Todo, Some(1)),
        Task::new("d2".to_string(), "".to_string(), Status::Done, Some(2)),
        Task::new("t2".to_string(), "".to_string(), Status::Todo, Some(3)),
    ];
    let again = decode(encode(&tasks).as_str());
    let names: Vec<&str> = again.iter().map(|t| t.name.as_str()).collect();
    assert_eq!(names, ["t1", "t2", "d1", "d2"]);
}

#[test]
fn empty_list_encodes_to_bare_sections() {
    let tasks: Vec<Task> = Vec::new();
    assert_eq!(encode(&tasks), "## Todo\n\n## Doing\n\n## Done\n");
    assert!(decode("## Todo\n\n## Doing\n\n## Done\n").is_empty());
    assert!(decode("").is_empty());
}
