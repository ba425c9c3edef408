//! Texts, numbers, the environment, the report and the probing helper.

use seabox::probe::{
    parse_argument, parse_i64, parse_request, probe_exit_code, request_exit_code, ProbeRequest,
};
use seabox::text::{
    c_text, chars_of, contains, parse_i64_radix, parse_u64_radix, push_decimal, push_numeral,
    push_signed, same, split, split_lines, split_once, split_words, starts_with, string_from, trim,
    ParseIntError,
};
use seabox::{check_capabilities, Capabilities, CommandSpec, EnvVars, NamespaceType};

fn words(list: &[&str]) -> Vec<String> {
    list.iter().map(|word| word.to_string()).collect()
}

#[test]
fn pieces_between_separators() {
    assert_eq!(split(&chars_of("a,b,,c"), ','), words(&["a", "b", "", "c"]));
    assert_eq!(split(&chars_of(""), ','), words(&[""]));
    assert_eq!(split(&chars_of("é,"), ','), words(&["é", ""]));
    for text in ["a,b,,c", "", ",", "é,ü"] {
        assert_eq!(split(&chars_of(text), ',').join(","), text);
    }
}

#[test]
fn parts_around_a_separator() {
    assert_eq!(split_once("a=b=c", '='), Some(("a".to_string(), "b=c".to_string())));
    assert_eq!(split_once("=", '='), Some((String::new(), String::new())));
    assert_eq!(split_once("abc", '='), None);
}

#[test]
fn lines_and_words() {
    for text in ["", "a", "a\n", "a\n\nb", "a\r\nb\r", "\n", "\r\n\n", "x\ry\n"] {
        let expected: Vec<String> = text.lines().map(|line| line.to_string()).collect();
        assert_eq!(split_lines(text), expected, "{text:?}");
    }
    for text in ["", " a  b ", "\ta\u{a0}b\u{3000}c\n", "\u{85}x\u{200b}y", "\u{1680}z\u{2028}"] {
        let expected: Vec<String> = text.split_whitespace().map(|w| w.to_string()).collect();
        assert_eq!(split_words(&chars_of(text)), expected, "{text:?}");
        let trimmed: Vec<char> = text.trim().chars().collect();
        assert_eq!(trim(&chars_of(text)), trimmed, "{text:?}");
    }
}

#[test]
fn searching() {
    assert!(contains("a seccomp b", "seccomp"));
    assert!(contains("abc", ""));
    assert!(contains("", ""));
    assert!(!contains("secomp", "seccomp"));
    assert!(starts_with("0x1f", "0x"));
    assert!(!starts_with("0", "0x"));
    assert!(same("a", "a"));
    assert!(!same("a", "b"));
    assert_eq!(string_from(&chars_of("abcd"), 1, 3), "bc");
}

#[test]
fn c_strings_end_at_no_nul() {
    assert_eq!(c_text("ls"), "ls");
    assert_eq!(c_text("l\0s"), "");
    assert_eq!(c_text(""), "");
}

#[test]
fn numerals() {
    for number in [0u64, 7, 10, 99, 1234567890, u64::MAX] {
        let mut out = String::new();
        push_decimal(&mut out, number);
        assert_eq!(out, format!("{number}"));
        assert_eq!(parse_u64_radix(&chars_of(&out), 10), Ok(number));
        let mut out = String::new();
        push_numeral(&mut out, number, 16);
        assert_eq!(out, format!("{number:x}"));
        assert_eq!(parse_u64_radix(&chars_of(&out), 16), Ok(number));
    }
    for number in [0i32, -1, 42, i32::MIN, i32::MAX] {
        let mut out = "n=".to_string();
        push_signed(&mut out, number);
        assert_eq!(out, format!("n={number}"));
    }
}

#[test]
fn numbers_are_read_as_std_reads_them() {
    let texts = [
        "", "+", "-", "0", "-0", "+7", "--1", "1 ", "9223372036854775807", "9223372036854775808",
        "-9223372036854775808", "-9223372036854775809", "ff", "FF", "1_0", "\u{661}",
        "99999999999999999999x",
    ];
    for text in texts {
        for radix in [10, 16] {
            let ours = parse_i64_radix(&chars_of(text), radix);
            let theirs = i64::from_str_radix(text, radix);
            assert_eq!(ours.is_ok(), theirs.is_ok(), "{text:?}");
            match (ours, theirs) {
                (Ok(a), Ok(b)) => assert_eq!(a, b),
                (Err(a), Err(b)) => assert_eq!(a.message(), b.to_string(), "{text:?} {radix}"),
                _ => unreachable!(),
            }
            let ours = parse_u64_radix(&chars_of(text), radix);
            let theirs = u64::from_str_radix(text, radix);
            match (ours, theirs) {
                (Ok(a), Ok(b)) => assert_eq!(a, b),
                (Err(a), Err(b)) => assert_eq!(a.message(), b.to_string(), "{text:?} {radix}"),
                (a, b) => panic!("{text:?} {radix}: {a:?} {b:?}"),
            }
        }
    }
}

#[test]
fn probe_numbers() {
    assert_eq!(parse_i64("165"), Ok(165));
    assert_eq!(parse_i64("0x1F"), Ok(31));
    assert_eq!(parse_i64("0X1f"), Ok(31));
    assert_eq!(parse_i64("-1"), Ok(-1));
    assert_eq!(parse_i64("0x"), Err(ParseIntError::Empty));
    assert_eq!(parse_i64("ten"), Err(ParseIntError::InvalidDigit));
    assert_eq!(parse_i64("0x8000000000000000"), Err(ParseIntError::PosOverflow));
    assert_eq!(parse_i64("-9223372036854775809"), Err(ParseIntError::NegOverflow));
    assert_eq!(parse_i64("NULL"), Err(ParseIntError::InvalidDigit));
    assert_eq!(parse_argument("NULL"), Ok(0));
    assert_eq!(parse_argument("0"), Ok(0));
}

#[test]
fn probe_requests() {
    assert_eq!(parse_request(&vec![]), ProbeRequest::Usage);
    assert_eq!(
        parse_request(&words(&["x"])),
        ProbeRequest::BadNumber(ParseIntError::InvalidDigit)
    );
    assert_eq!(
        parse_request(&words(&["165", "NULL", "0x10", "-1"])),
        ProbeRequest::Call { nr: 165, args: vec![0, 16, -1] }
    );
    assert_eq!(
        parse_request(&words(&["1", "0", "y"])),
        ProbeRequest::BadArgument { index: 1, error: ParseIntError::InvalidDigit }
    );
    assert_eq!(
        parse_request(&words(&["1", "0", "0", "0", "0", "0", "0", "y"])),
        ProbeRequest::TooMany { count: 7 }
    );
}

#[test]
fn probe_exit_codes() {
    assert_eq!(probe_exit_code(0, 0), 0);
    assert_eq!(probe_exit_code(5, 1), 0);
    assert_eq!(probe_exit_code(-1, libc::EPERM), 101);
    assert_eq!(probe_exit_code(-1, 25), 125);
    assert_eq!(probe_exit_code(-1, 38), 125);
    assert_eq!(request_exit_code(&ProbeRequest::Usage), Some(2));
    assert_eq!(request_exit_code(&ProbeRequest::TooMany { count: 7 }), Some(2));
    assert_eq!(request_exit_code(&ProbeRequest::BadNumber(ParseIntError::Empty)), Some(1));
    let bad = ProbeRequest::BadArgument { index: 0, error: ParseIntError::Empty };
    assert_eq!(request_exit_code(&bad), Some(1));
    assert_eq!(request_exit_code(&ProbeRequest::Call { nr: 1, args: vec![] }), None);
}

#[test]
fn variables() {
    let mut env = EnvVars::new();
    env.insert("A", "1");
    env.insert("B", "2");
    env.insert("A", "3");
    assert_eq!(env.len(), 2);
    assert_eq!(env.get("A"), Some("3".to_string()));
    assert_eq!(env.entry(0), (&"B".to_string(), &"2".to_string()));
    assert_eq!(env.entry(1), (&"A".to_string(), &"3".to_string()));
    let copy = env.clone();
    env.remove("A");
    env.remove("C");
    assert_eq!(env.len(), 1);
    assert_eq!(env.entry(0), (&"B".to_string(), &"2".to_string()));
    assert_eq!(copy.get("A"), Some("3".to_string()));
}

#[test]
fn commands() {
    let spec = CommandSpec::default();
    assert_eq!(spec.program, "");
    assert_eq!(spec.cwd, ".");
    assert_eq!(spec.timeout_millis, 30_000);
    let spec = spec
        .with_program("sh")
        .with_args(words(&["-c", "echo $MSG"]))
        .with_cwd("/")
        .with_env("OLD", "x")
        .with_clearenv()
        .with_env("MSG", "hello from seabox")
        .with_timeout(5_000);
    assert_eq!(spec.program, "sh");
    assert_eq!(spec.args.len(), 2);
    assert_eq!(spec.cwd, "/");
    assert_eq!(spec.env.get("MSG"), Some("hello from seabox".to_string()));
    assert_eq!(spec.env.len(), 1);
    assert_eq!(spec.timeout_millis, 5_000);
}

#[test]
fn report_on_a_linux_system() {
    let found = Capabilities {
        landlock: true,
        landlock_abi: Some(7),
        seccomp: true,
        user_ns: true,
        ipc_ns: false,
        pid_ns: false,
        net_ns: true,
        uts_ns: false,
        cgroup_ns: false,
    };
    assert_eq!(
        check_capabilities(Some(found)),
        "Capability                    Status\n\
         ----------------------------- --------------------\n\
         Landlock                      available (ABI v7)\n\
         Seccomp                       available\n\
         User namespace                available\n\
         IPC namespace                 not available\n\
         PID namespace                 not available\n\
         Network namespace             available\n\
         UTS namespace                 not available\n\
         Cgroup namespace              not available\n"
    );
    let unknown = Capabilities { landlock_abi: None, ..found };
    assert!(check_capabilities(Some(unknown)).contains("available (ABI v0)"));
    let without = Capabilities { landlock: false, ..found };
    assert!(check_capabilities(Some(without)).contains("Landlock                      not available\n"));
}

#[test]
fn report_on_another_system() {
    let report = check_capabilities(None);
    assert_eq!(report.matches("not available (non-Linux)\n").count(), 8);
}

#[test]
fn namespace_labels() {
    let labels = [
        (NamespaceType::User, "user"),
        (NamespaceType::Ipc, "ipc"),
        (NamespaceType::Pid, "pid"),
        (NamespaceType::Net, "net"),
        (NamespaceType::Uts, "uts"),
        (NamespaceType::Cgroup, "cgroup"),
    ];
    for (namespace, label) in labels {
        assert_eq!(namespace.label(), label);
    }
}
