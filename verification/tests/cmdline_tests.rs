use contrail::cmdline::{split_options_from_command, strip_newlines};

#[test]
fn strip_leading_newlines() {
    let input = String::from("\nHello, world!");
    let expected = "Hello, world!";

    assert_eq!(expected, strip_newlines(&input, "leading"));
}

#[test]
fn strip_trailing_newlines() {
    let input = String::from("Hello, world!\n\r");
    let expected = "Hello, world!";

    assert_eq!(expected, strip_newlines(&input, "trailing"));
}

#[test]
fn strip_all_newlines() {
    let input = String::from("\rThis \nstring \rhad \nmany \nnewlines.\r");
    let expected = "This string had many newlines.";

    assert_eq!(expected, strip_newlines(&input, "all"))
}

fn owned(words: Vec<&str>) -> Vec<String> {
    words.into_iter().map(|w| w.to_string()).collect()
}

#[test]
fn no_option_commands() {
    struct Test<'a> {
        input: &'a str,
        expected: (&'a str, Vec<&'a str>),
    }

    let tests = vec![
        Test {
            input: "contrail",
            expected: ("contrail", Vec::new()),
        },
        Test {
            input: "contrail ",
            expected: ("contrail", Vec::new()),
        },
        Test {
            input: " contrail ",
            expected: ("contrail", Vec::new()),
        },
    ];

    for test in &tests {
        let expected = (test.expected.0.to_string(), owned(test.expected.1.clone()));
        assert_eq!(expected, split_options_from_command(test.input));
    }
}

#[test]
fn single_option_commands() {
    struct Test<'a> {
        input: &'a str,
        expected: (&'a str, Vec<&'a str>),
    }

    let tests = vec![
        Test {
            input: "contrail -v",
            expected: ("contrail", vec!["-v"]),
        },
        Test {
            input: " contrail -v ",
            expected: ("contrail", vec!["-v"]),
        },
        Test {
            input: "ls -al",
            expected: ("ls", vec!["-al"]),
        },
    ];

    for test in &tests {
        let expected = (test.expected.0.to_string(), owned(test.expected.1.clone()));
        assert_eq!(expected, split_options_from_command(test.input));
    }
}

#[test]
fn multiple_option_commands() {
    struct Test<'a> {
        input: &'a str,
        expected: (&'a str, Vec<&'a str>),
    }

    let tests = vec![
        Test {
            input: "contrail -v  -g -a",
            expected: ("contrail", vec!["-v", "-g", "-a"]),
        },
        Test {
            input: " contrail -v -- \"Hello\" ",
            expected: ("contrail", vec!["-v", "--", "\"Hello\""]),
        },
        // Probably not the desired result by the user, but it's
        // their responsibility to format their commands correctly
        Test {
            input: "contrail -v ls -al",
            expected: ("contrail", vec!["-v", "ls", "-al"]),
        },
    ];

    for test in &tests {
        let expected = (test.expected.0.to_string(), owned(test.expected.1.clone()));
        assert_eq!(expected, split_options_from_command(test.input));
    }
}
