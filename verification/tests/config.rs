use websocket_relay::config::{is_port_number, port_from_args, ConfigError};

fn args(list: &[&str]) -> Vec<String> {
    list.iter().map(|s| s.to_string()).collect()
}

#[test]
fn one_numeric_argument_is_the_port() {
    assert_eq!(port_from_args(&args(&["relay", "8080"])), Ok("8080".to_string()));
    assert_eq!(port_from_args(&args(&["relay", "0"])), Ok("0".to_string()));
}

#[test]
fn port_is_returned_as_written() {
    assert_eq!(port_from_args(&args(&["relay", "+80"])), Ok("+80".to_string()));
    assert_eq!(port_from_args(&args(&["relay", "-5"])), Ok("-5".to_string()));
    assert_eq!(port_from_args(&args(&["relay", "0080"])), Ok("0080".to_string()));
}

#[test]
fn missing_or_surplus_arguments_are_a_usage_error() {
    assert_eq!(port_from_args(&args(&[])), Err(ConfigError::Usage));
    assert_eq!(port_from_args(&args(&["relay"])), Err(ConfigError::Usage));
    assert_eq!(port_from_args(&args(&["relay", "80", "81"])), Err(ConfigError::Usage));
    assert_eq!(port_from_args(&args(&["relay", "x", "y"])), Err(ConfigError::Usage));
}

#[test]
fn argument_that_is_no_number_is_refused() {
    for bad in ["", "abc", "80a", " 80", "80 ", "8 0", "+", "-", "--1", "+-1", "1.0", "0x10", "\u{664}\u{662}"] {
        assert_eq!(port_from_args(&args(&["relay", bad])), Err(ConfigError::NotANumber), "{:?}", bad);
    }
}

#[test]
fn range_is_that_of_a_32_bit_signed_integer() {
    assert!(is_port_number("2147483647"));
    assert!(!is_port_number("2147483648"));
    assert!(is_port_number("+2147483647"));
    assert!(!is_port_number("+2147483648"));
    assert!(is_port_number("-2147483648"));
    assert!(!is_port_number("-2147483649"));
    assert!(is_port_number("000000000000000000000002147483647"));
    assert!(!is_port_number("99999999999999999999999999999999999999"));
    assert!(!is_port_number("-99999999999999999999999999999999999999"));
    assert!(is_port_number("-0"));
}

#[test]
fn agrees_with_the_standard_parser() {
    let mut samples: Vec<String> = Vec::new();
    let alphabet = ['0', '1', '9', '+', '-', 'a', ' '];
    for a in alphabet {
        samples.push(a.to_string());
        for b in alphabet {
            samples.push(format!("{}{}", a, b));
            for c in alphabet {
                samples.push(format!("{}{}{}", a, b, c));
            }
        }
    }
    for n in [0i64, 1, 9, 10, 65535, 2147483646, 2147483647, 2147483648, 4294967295, 21474836470] {
        samples.push(n.to_string());
        samples.push(format!("-{}", n));
        samples.push(format!("+{}", n));
        samples.push(format!("0{}", n));
    }
    for s in samples {
        assert_eq!(is_port_number(&s), s.parse::<i32>().is_ok(), "{:?}", s);
    }
}

#[test]
fn messages_for_the_operator() {
    assert_eq!(
        ConfigError::Usage.message(),
        "USAGE: websocket-relay-server [listening on server port]"
    );
    assert_eq!(ConfigError::NotANumber.message(), "Error: port is not a number");
}
