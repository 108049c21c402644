use muzak::flags::{flag_value, parse_bool_flag, parse_u32, parse_value_flag, FlagError};

fn args(list: &[&str]) -> Vec<String> {
    list.iter().map(|s| s.to_string()).collect()
}

#[test]
fn value_flag_reads_the_next_argument() {
    let a = args(&["muzak", "-m", "2", "-f", "10", "-l"]);
    assert_eq!(parse_value_flag(a, String::from("-f")), Ok(Some(10)));
}

#[test]
fn value_flag_missing_is_none() {
    assert_eq!(parse_value_flag(args(&["muzak", "-l"]), String::from("-f")), Ok(None));
    assert_eq!(parse_value_flag(args(&["muzak", "-f"]), String::from("-f")), Ok(None));
}

#[test]
fn value_flag_uses_first_occurrence() {
    let a = args(&["muzak", "-f", "3", "-f", "x"]);
    assert_eq!(parse_value_flag(a, String::from("-f")), Ok(Some(3)));
}

#[test]
fn value_flag_that_does_not_parse_is_an_error() {
    assert_eq!(
        parse_value_flag(args(&["muzak", "-f", "abc"]), String::from("-f")),
        Err(FlagError::InvalidValue)
    );
    assert_eq!(
        parse_value_flag(args(&["muzak", "-f", "-l"]), String::from("-f")),
        Err(FlagError::InvalidValue)
    );
}

#[test]
fn numbers_parse_as_std_does() {
    for text in ["0", "7", "+7", "007", "4294967295", "4294967296", "-1", "+", "", "1 ", "1.5", "99999999999"] {
        assert_eq!(parse_u32(&String::from(text)), text.parse::<u32>().ok(), "{}", text);
    }
}

#[test]
fn bool_flag_is_some_when_present() {
    assert_eq!(parse_bool_flag(args(&["muzak", "-l"]), String::from("-l")), Some(true));
    assert_eq!(parse_bool_flag(args(&["muzak", "-f", "5"]), String::from("-l")), None);
}

#[test]
fn flag_value_is_the_raw_text() {
    let a = args(&["muzak", "-m", "1.5"]);
    assert_eq!(flag_value(&a, &String::from("-m")), Some(String::from("1.5")));
    assert_eq!(flag_value(&a, &String::from("-x")), None);
}
