//! Scripts written as text.

use io_mock::text_scenario::parse_text_scenario;
use io_mock::{Action, Builder, ErrorKind, ParseError};

fn summarize_actions(actions: &[Action]) -> String {
    let mut s = String::with_capacity(64);
    for a in actions {
        match a {
            Action::Read(vec) => s.push_str(&format!("r{}", vec.len())),
            Action::Write(vec) => s.push_str(&format!("w{}", vec.len())),
            Action::Wait(_duration) => s.push_str("t"),
            Action::ReadError(_error) => s.push_str("ER"),
            Action::WriteError(_error) => s.push_str("EW"),
            Action::ReadZeroes(n) => s.push_str(&format!("ZR{}", n)),
            Action::WriteZeroes(n) => s.push_str(&format!("ZW{}", n)),
            Action::IgnoreWritten(n) => s.push_str(&format!("I{}", n)),
            Action::ReadEof(_) => s.push_str("X"),
            Action::StopChecking => s.push_str("Q"),
            Action::WriteShutdown(_) => s.push_str("D"),
        }
    }
    s
}

fn problem(scenario: &str) -> ParseError {
    match parse_text_scenario(scenario) {
        Err(error) => error,
        Ok(given) => panic!("{given:?}"),
    }
}

#[test]
fn text_scenaio_1() {
    let ret = parse_text_scenario("R qqq|W \\x01\\x02\\x03|R \\ \\n\\t\\0\\r\\\\\\|").unwrap();
    assert_eq!(summarize_actions(&ret.0), "r3w3r7");
    assert_eq!(ret.1, None);
    assert!(matches!(&ret.0[0], Action::Read(v) if v == b"qqq"));
    assert!(matches!(&ret.0[1], Action::Write(v) if v == b"\x01\x02\x03"));
    assert!(matches!(&ret.0[2], Action::Read(v) if v == b" \n\t\x00\r\\|"));
}

#[test]
fn text_scenaio_2() {
    let ret = parse_text_scenario("T4|ER|EW|N qwerty").unwrap();
    assert_eq!(summarize_actions(&ret.0), "tEREW");
    assert_eq!(ret.1.as_deref(), Some("qwerty"));
}

#[test]
fn text_scenaio_3() {
    let ret = parse_text_scenario("T0|T123|Tx456|T0x112233").unwrap();
    assert_eq!(summarize_actions(&ret.0), "tttt");
    assert!(matches!(&ret.0[0], Action::Wait(t) if t.as_millis() == 0));
    assert!(matches!(&ret.0[1], Action::Wait(t) if t.as_millis() == 123));
    assert!(matches!(&ret.0[2], Action::Wait(t) if t.as_millis() == 0x456));
    assert!(matches!(&ret.0[3], Action::Wait(t) if t.as_millis() == 0x112233));
}

#[test]
fn text_scenaio_4() {
    let ret = parse_text_scenario("ZR45|ZW0|ZRx34|zw0x20").unwrap();
    assert_eq!(summarize_actions(&ret.0), "ZR45ZW0ZR52ZW32");
}

#[test]
fn text_scenaio_5() {
    let ret = parse_text_scenario("X|Q|I55").unwrap();
    assert_eq!(summarize_actions(&ret.0), "XQI55");
}

#[test]
fn empty_texts() {
    for text in ["", " ", "|", " | \t\n||"] {
        let (actions, name) = parse_text_scenario(text).unwrap();
        assert!(actions.is_empty());
        assert_eq!(name, None);
    }
}

#[test]
fn documented_examples() {
    let (actions, name) = parse_text_scenario("R hello|W world").unwrap();
    assert_eq!(summarize_actions(&actions), "r5w5");
    assert!(matches!(&actions[0], Action::Read(v) if v == b"hello"));
    assert!(matches!(&actions[1], Action::Write(v) if v == b"world"));
    assert_eq!(name, None);

    let (actions, _) =
        parse_text_scenario("R \\x55\\x00| ZR x5500| R \\x00\\x03| ZR 3").unwrap();
    assert_eq!(summarize_actions(&actions), "r2ZR21760r2ZR3");
    assert!(matches!(&actions[0], Action::Read(v) if v == b"\x55\x00"));
    assert!(matches!(&actions[2], Action::Read(v) if v == b"\x00\x03"));

    let (actions, _) =
        parse_text_scenario("R cat; echo qqq\\n| R 1234|W 1234| R 56|W 56| X | W qqq|").unwrap();
    assert_eq!(summarize_actions(&actions), "r14r4w4r2w2Xw3");
    assert!(matches!(&actions[0], Action::Read(v) if v == b"cat; echo qqq\n"));

    let (actions, name) = parse_text_scenario("N calc|R 2+2|W 4|R 3+$RANDOM|Q").unwrap();
    assert_eq!(summarize_actions(&actions), "r3w1r9Q");
    assert_eq!(name.as_deref(), Some("calc"));

    let (actions, _) = parse_text_scenario("R PING|W PONG|T5000|R PING|W PONG|T5000|ER").unwrap();
    assert_eq!(summarize_actions(&actions), "r4w4tr4w4tER");
    assert!(matches!(&actions[2], Action::Wait(t) if t.as_millis() == 5000));
    assert!(
        matches!(&actions[6], Action::ReadError(Some(e)) if e.kind == ErrorKind::Other && e.cause.is_none())
    );
}

#[test]
fn commands_in_lower_case() {
    let (actions, name) = parse_text_scenario("r a|w b|n c|zr1|zw2|i3|x|q|Ewr").unwrap();
    assert_eq!(summarize_actions(&actions), "r1w1ZR1ZW2I3XQEWER");
    assert_eq!(name.as_deref(), Some("c"));
}

#[test]
fn only_upper_case_commands() {
    for text in ["er", "t1", "d"] {
        let error = problem(text);
        assert_eq!(error.position, 0);
        assert_eq!(error.chararter, Some(text.as_bytes()[0]));
        assert_eq!(error.state, "waiting for a command character");
    }
}

#[test]
fn shutdown_command() {
    let (actions, _) = parse_text_scenario("W bye|D").unwrap();
    assert_eq!(summarize_actions(&actions), "w3D");
    assert!(matches!(&actions[1], Action::WriteShutdown(false)));
}

#[test]
fn several_errors_in_one_command() {
    let (actions, _) = parse_text_scenario("E R W wr |R x").unwrap();
    assert_eq!(summarize_actions(&actions), "EREWEWERr1");
}

#[test]
fn commands_without_separator() {
    let (actions, _) = parse_text_scenario("XXQD X").unwrap();
    assert_eq!(summarize_actions(&actions), "XXQDX");
}

#[test]
fn blanks_lead_and_trail() {
    let (actions, _) = parse_text_scenario("R \t\n ab c \n|W\\ x").unwrap();
    assert!(matches!(&actions[0], Action::Read(v) if v == b"ab c \n"));
    assert!(matches!(&actions[1], Action::Write(v) if v == b" x"));
}

#[test]
fn content_may_be_empty() {
    let (actions, name) = parse_text_scenario("R|W |N").unwrap();
    assert_eq!(summarize_actions(&actions), "r0w0");
    assert_eq!(name.as_deref(), Some(""));
}

#[test]
fn the_last_name_counts() {
    let (_, name) = parse_text_scenario("N one|R x|N two").unwrap();
    assert_eq!(name.as_deref(), Some("two"));
}

#[test]
fn names_are_decoded() {
    let (_, name) = parse_text_scenario("N gr\u{fc}n").unwrap();
    assert_eq!(name.as_deref(), Some("gr\u{fc}n"));
    let (_, name) = parse_text_scenario("N a\\xFFb").unwrap();
    assert_eq!(name.as_deref(), Some("a\u{fffd}b"));
}

#[test]
fn every_hex_escape() {
    for byte in 0u8..=255 {
        for text in [format!("R \\x{byte:02x}"), format!("R \\x{byte:02X}")] {
            let (actions, _) = parse_text_scenario(&text).unwrap();
            assert!(matches!(&actions[0], Action::Read(v) if v == &[byte]));
        }
    }
}

#[test]
fn unknown_escapes_stand_for_themselves() {
    let (actions, _) = parse_text_scenario("R \\a\\\"\\X\\1").unwrap();
    assert!(matches!(&actions[0], Action::Read(v) if v == b"a\"X1"));
}

#[test]
fn numbers() {
    let (actions, _) =
        parse_text_scenario("I|I 1 2 3|I x|I 0 0 X f F|I18446744073709551615|I xffffffffffffffff")
            .unwrap();
    assert_eq!(
        summarize_actions(&actions),
        "I0I123I0I255I18446744073709551615I18446744073709551615"
    );
}

#[test]
fn problem_with_a_command() {
    let error = problem("R a|? b");
    assert_eq!(error.position, 4);
    assert_eq!(error.chararter, Some(b'?'));
    assert_eq!(error.state, "waiting for a command character");
    assert_eq!(
        error.describe(),
        "Unexpected character `?` at position 4 while waiting for a command character"
    );
}

#[test]
fn problem_with_an_escape() {
    let error = problem("R a\\");
    assert_eq!((error.position, error.chararter), (4, None));
    assert_eq!(error.state, "interpreting a character after `\\`");
    assert_eq!(
        error.describe(),
        "Unexpected EOF while interpreting a character after `\\`"
    );
}

#[test]
fn problem_with_a_hex_escape() {
    let error = problem("R \\xg0");
    assert_eq!((error.position, error.chararter), (4, Some(b'g')));
    assert_eq!(error.state, "interpreting a hex escape, first letter");

    let error = problem("R \\x0|");
    assert_eq!((error.position, error.chararter), (5, Some(b'|')));
    assert_eq!(error.state, "interpreting a hex escape, second letter");

    let error = problem("R \\x");
    assert_eq!((error.position, error.chararter), (4, None));
    assert_eq!(error.state, "interpreting a hex escape, first letter");

    let error = problem("R \\x0");
    assert_eq!((error.position, error.chararter), (5, None));
    assert_eq!(error.state, "interpreting a hex escape, second letter");
}

#[test]
fn problem_with_a_number() {
    let error = problem("T z");
    assert_eq!((error.position, error.chararter), (2, Some(b'z')));
    assert_eq!(error.state, "waiting for a number");

    let error = problem("T 1x2");
    assert_eq!((error.position, error.chararter), (3, Some(b'x')));
    assert_eq!(error.state, "continuing a decimal number");

    let error = problem("T xfg");
    assert_eq!((error.position, error.chararter), (4, Some(b'g')));
    assert_eq!(error.state, "continuing a hexadecimal number");

    let error = problem("T18446744073709551616");
    assert_eq!((error.position, error.chararter), (20, Some(b'6')));
    assert_eq!(error.state, "continuing a decimal number (which overflowed)");

    let error = problem("Tx10000000000000000");
    assert_eq!((error.position, error.chararter), (18, Some(b'0')));
    assert_eq!(error.state, "continuing a hex number (which overflowed)");
}

#[test]
fn problem_with_a_subcommand() {
    let error = problem("Z q");
    assert_eq!((error.position, error.chararter), (2, Some(b'q')));
    assert_eq!(error.state, "waiting for a subcommand character ater `Z`");

    let error = problem("Z ");
    assert_eq!((error.position, error.chararter), (2, None));
    assert_eq!(
        error.describe(),
        "Unexpected EOF while waiting for a subcommand character ater `Z`"
    );

    let error = problem("ERX");
    assert_eq!((error.position, error.chararter), (2, Some(b'X')));
    assert_eq!(
        error.state,
        "waiting for R or W character to choose which error to inject"
    );
}

#[test]
fn unexpected_bytes_are_shown_escaped() {
    for byte in 0u8..=255 {
        let error = ParseError {
            position: 7,
            chararter: Some(byte),
            state: "testing",
        };
        assert_eq!(
            error.describe(),
            format!(
                "Unexpected character `{}` at position 7 while testing",
                std::ascii::escape_default(byte)
            )
        );
    }
}

#[test]
fn scenarios_one_behind_the_other() {
    let first = "R a|W b|N one|T7";
    let second = "I3|D|N two";
    let (actions, name) = parse_text_scenario(&format!("{first}|{second}")).unwrap();
    assert_eq!(summarize_actions(&actions), "r1w1tI3D");
    assert_eq!(name.as_deref(), Some("two"));

    let alone = problem("I3|?");
    let behind = problem(&format!("{first}|I3|?"));
    assert_eq!(behind.position, alone.position + first.len() + 1);
    assert_eq!(behind.chararter, alone.chararter);
    assert_eq!(behind.state, alone.state);
}

#[test]
fn what_follows_a_problem_does_not_matter() {
    for (bad, rest) in [
        ("R a|?", " b|R c"),
        ("R \\xg", "0|X"),
        ("T 1x", "2|N n"),
        ("T18446744073709551616", "7"),
        ("ERX", "R"),
        ("Z q", "|"),
    ] {
        let short = problem(bad);
        let long = problem(&format!("{bad}{rest}"));
        assert_eq!(short.position, bad.len() - 1);
        assert_eq!(long.position, short.position);
        assert_eq!(long.chararter, short.chararter);
        assert_eq!(long.state, short.state);
    }
}

#[test]
fn builder_rejects_what_is_no_scenario() {
    let mut builder = Builder::new();
    builder.read(b"kept").name("kept");
    let error = builder.text_scenario("R x|N y|!").expect_err("no scenario");
    assert_eq!((error.position, error.chararter), (8, Some(b'!')));
    let mock = builder.build();
    assert_eq!(
        mock.pmsg(),
        "(name kept, 1 actions remain, 0 bytes was read, 0 bytes was written)"
    );
}
