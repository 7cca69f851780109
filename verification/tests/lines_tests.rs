use cmdqueue::lines::line_is_blank;
use cmdqueue::lines::plan_jobs;

#[test]
fn empty_line_is_blank() {
    assert!(line_is_blank(""));
}

#[test]
fn whitespace_only_lines_are_blank() {
    assert!(line_is_blank("   "));
    assert!(line_is_blank("\t"));
    assert!(line_is_blank(" \t \r"));
}

#[test]
fn command_lines_are_not_blank() {
    assert!(!line_is_blank("echo a"));
    assert!(!line_is_blank("  x  "));
    assert!(!line_is_blank("true"));
}

#[test]
fn plan_drops_blank_lines_and_keeps_order() {
    let lines = vec![
        String::from("echo a"),
        String::from(""),
        String::from("   "),
        String::from("echo b"),
        String::from("\t"),
        String::from("echo c"),
    ];
    let jobs = plan_jobs(&lines);
    assert_eq!(jobs, vec![
        String::from("echo a"),
        String::from("echo b"),
        String::from("echo c"),
    ]);
}

#[test]
fn plan_of_empty_input_is_empty() {
    let lines: Vec<String> = Vec::new();
    let jobs = plan_jobs(&lines);
    assert!(jobs.is_empty());
}

#[test]
fn plan_keeps_every_non_blank_line() {
    let lines = vec![String::from("a"), String::from("b")];
    let jobs = plan_jobs(&lines);
    assert_eq!(jobs, lines);
}
