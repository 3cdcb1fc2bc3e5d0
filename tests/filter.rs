use ptyterm::filter::remove_ansi_escape_codes;

#[test]
fn colour_codes_are_removed() {
    assert_eq!(remove_ansi_escape_codes("\x1b[32mHello\x1b[0m"), "Hello");
}

#[test]
fn colour_codes_inside_text_are_removed() {
    assert_eq!(remove_ansi_escape_codes("a\x1b[1;31mb\x1b[mc"), "abc");
}

#[test]
fn erase_line_is_removed() {
    assert_eq!(remove_ansi_escape_codes("\x1b[Kline\x1b[2K"), "line");
}

#[test]
fn two_parameters_of_two_digits_are_removed() {
    assert_eq!(remove_ansi_escape_codes("x\x1b[01;34my"), "xy");
}

#[test]
fn three_digit_parameters_are_kept() {
    assert_eq!(remove_ansi_escape_codes("\x1b[123mz"), "\x1b[123mz");
}

#[test]
fn cursor_movement_is_kept() {
    assert_eq!(remove_ansi_escape_codes("\x1b[2Jq"), "\x1b[2Jq");
}

#[test]
fn bar_is_no_final_byte() {
    assert_eq!(remove_ansi_escape_codes("\x1b[1|"), "\x1b[1|");
}

#[test]
fn prompt_is_stripped() {
    let out = remove_ansi_escape_codes("bash-3.2$ ls\nbash-3.2$ ");
    assert!(!out.contains("bash-3.2$"));
    assert_eq!(out, " ls\n ");
}

#[test]
fn prompt_after_colour_is_stripped() {
    assert_eq!(remove_ansi_escape_codes("\x1b[32mbash-3.2$\x1b[0m done"), " done");
}

#[test]
fn nested_prompts_are_all_removed() {
    let out = remove_ansi_escape_codes("babash-3.2$sh-3.2$");
    assert!(!out.contains("bash-3.2$"));
    assert_eq!(out, "");
    assert_eq!(remove_ansi_escape_codes("x bbashbash-3.2$-3.2$ash-3.2$ y"), "x  y");
}

#[test]
fn plain_text_is_unchanged_and_cleaning_is_idempotent() {
    let once = remove_ansi_escape_codes("file1.txt\nfile2.txt\n$ ");
    assert_eq!(once, "file1.txt\nfile2.txt\n$ ");
    assert_eq!(remove_ansi_escape_codes(&once), once);
}

#[test]
fn cleaning_text_with_prompts_twice_gives_the_same() {
    let once = remove_ansi_escape_codes("bash-3.2$ echo hi\nhi\n");
    assert_eq!(remove_ansi_escape_codes(&once), once);
}

#[test]
fn empty_text_stays_empty() {
    assert_eq!(remove_ansi_escape_codes(""), "");
}

#[test]
fn colour_codes_around_hello_clean_piecewise() {
    let a = "\x1b[1mbash-3.2$ ba";
    let b = "sh-3.2$\x1b[K tail";
    let whole = format!("{}\x1b[32mHello\x1b[0m{}", a, b);
    let expected = format!("{}Hello{}", remove_ansi_escape_codes(a), remove_ansi_escape_codes(b));
    assert_eq!(remove_ansi_escape_codes(&whole), expected);
    assert_eq!(expected, " baHellosh-3.2$ tail");
}
