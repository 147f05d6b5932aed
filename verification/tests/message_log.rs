use rterm::messages::{MessageLogger, MAX_MESSAGES};

fn lines(log: &MessageLogger) -> Vec<String> {
    log.snapshot()
}

#[test]
fn capacity_three_keeps_last_three() {
    let mut log = MessageLogger::with_capacity(3);
    log.log("a".to_string());
    log.log("b".to_string());
    log.log("c".to_string());
    log.log("d".to_string());
    assert_eq!(lines(&log), vec!["b", "c", "d"]);
    assert_eq!(log.len(), 3);
    assert_eq!(log.capacity(), 3);
}

#[test]
fn new_log_is_empty_with_default_capacity() {
    let log = MessageLogger::new();
    assert_eq!(log.len(), 0);
    assert_eq!(log.capacity(), 1000);
    assert_eq!(MAX_MESSAGES, 1000);
}

#[test]
fn multi_line_message_is_split() {
    let mut log = MessageLogger::new();
    log.log("one\ntwo\r\nthree".to_string());
    assert_eq!(lines(&log), vec!["one", "two", "three"]);
    for line in lines(&log) {
        assert!(!line.contains('\n'));
    }
}

#[test]
fn trailing_newline_adds_no_line() {
    let mut log = MessageLogger::new();
    log.log("one\n".to_string());
    assert_eq!(lines(&log), vec!["one"]);
}

#[test]
fn empty_message_is_one_empty_line() {
    let mut log = MessageLogger::new();
    log.log(String::new());
    assert_eq!(lines(&log), vec![""]);
}

#[test]
fn lone_newline_is_two_empty_lines() {
    let mut log = MessageLogger::new();
    log.log("\n".to_string());
    assert_eq!(lines(&log), vec!["", ""]);
}

#[test]
fn carriage_return_stays_unless_before_newline() {
    let mut log = MessageLogger::new();
    log.log("a\rb\r\r\nc\r".to_string());
    assert_eq!(lines(&log), vec!["a\rb\r", "c\r"]);
}

#[test]
fn split_agrees_with_std_lines() {
    let samples = [
        "", "\n", "\n\n", "a", "a\n", "a\nb", "a\r\nb\r\n", "\r\n", "\r", "a\n\nb", "x\r\r\n",
        "\n\r\n", "caf\u{e9}\nna\u{ef}ve",
    ];
    for sample in samples {
        let mut log = MessageLogger::new();
        log.log(sample.to_string());
        let mut expected: Vec<String> = sample.lines().map(|l| l.to_string()).collect();
        if sample.is_empty() || sample == "\n" {
            expected.push(String::new());
        }
        assert_eq!(lines(&log), expected, "sample {:?}", sample);
    }
}

#[test]
fn eviction_keeps_order_within_one_message() {
    let mut log = MessageLogger::with_capacity(2);
    log.log("1\n2\n3\n4\n5".to_string());
    assert_eq!(lines(&log), vec!["4", "5"]);
}

#[test]
fn oldest_line_after_overflow_is_the_expected_one() {
    let c = 7;
    let n = 25;
    let mut log = MessageLogger::with_capacity(c);
    for i in 1..=n {
        log.log(format!("line {}", i));
        assert!(log.len() <= c);
    }
    assert_eq!(log.line(0).as_str(), format!("line {}", n - c + 1));
    assert_eq!(log.len(), c);
}

#[test]
fn tagged_helpers_prepend_their_tag() {
    let mut log = MessageLogger::new();
    log.info("i");
    log.error("e");
    log.success("s");
    log.warning("w");
    log.debug("d");
    assert_eq!(
        lines(&log),
        vec!["[INFO] i", "[ERROR] e", "[SUCCESS] s", "[WARNING] w", "[DEBUG] d"]
    );
}

#[test]
fn clone_is_independent() {
    let mut log = MessageLogger::with_capacity(4);
    log.log("a".to_string());
    let copy = log.clone();
    log.log("b".to_string());
    assert_eq!(lines(&copy), vec!["a"]);
    assert_eq!(copy.capacity(), 4);
    assert_eq!(lines(&log), vec!["a", "b"]);
}
