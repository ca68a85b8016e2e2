use ticket_validator::answer::{read_answer, Answer};

#[test]
fn answers_are_trimmed_and_case_blind() {
    assert_eq!(read_answer("y\n"), Answer::Yes);
    assert_eq!(read_answer("  Y \r\n"), Answer::Yes);
    assert_eq!(read_answer("n\n"), Answer::No);
    assert_eq!(read_answer("\u{3000}N\t"), Answer::No);
    assert_eq!(read_answer("yes\n"), Answer::Other);
    assert_eq!(read_answer(""), Answer::Other);
    assert_eq!(read_answer("   \n"), Answer::Other);
    assert_eq!(read_answer("ÿ"), Answer::Other);
}
