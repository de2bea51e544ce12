use stress::stress::{Args, Cmd, Config};
use stress::text::{decode_output, push_decimal, push_signed_decimal};
use stress::Cli;

fn cli(words: &[&str]) -> Cli {
    Cli { cmd: words.iter().map(|word| word.to_string()).collect(), bail: true, output: false, runs: 3 }
}

fn decimal(n: u64) -> String {
    let mut text = String::new();
    push_decimal(&mut text, n);
    text
}

fn signed_decimal(n: i32) -> String {
    let mut text = String::new();
    push_signed_decimal(&mut text, n);
    text
}

#[test]
fn cmd_takes_the_first_word_as_the_program() {
    let cmd = Cmd::new(cli(&["echo", "hello", "world"]));
    assert_eq!(cmd.program, "echo");
    assert_eq!(cmd.args.list, vec!["hello".to_string(), "world".to_string()]);
}

#[test]
fn cmd_of_one_word_has_no_arguments() {
    let cmd = Cmd::new(cli(&["ls"]));
    assert_eq!(cmd.program, "ls");
    assert!(cmd.args.list.is_empty());
}

#[test]
fn cmd_text_of_a_program_alone_has_no_space_after_it() {
    assert_eq!(Cmd::new(cli(&["ls"])).to_text(), "ls");
}

#[test]
fn cmd_text_writes_the_arguments_with_nothing_between_them() {
    assert_eq!(Cmd::new(cli(&["ls", "-a"])).to_text(), "ls -a");
    assert_eq!(Cmd::new(cli(&["echo", "hello", "world"])).to_text(), "echo helloworld");
    assert_eq!(Cmd::new(cli(&["sh", "-c", "exit 3"])).to_text(), "sh -cexit 3");
}

#[test]
fn cmd_text_has_no_white_space_at_either_end() {
    assert_eq!(Cmd::new(cli(&["  ls", "-a \n"])).to_text(), "ls -a");
    assert_eq!(Cmd::new(cli(&["\t\u{a0}run\u{3000}", "\u{2009}"])).to_text(), "run");
    assert_eq!(Cmd::new(cli(&["\u{200b}x", " "])).to_text(), "\u{200b}x");
    assert_eq!(Cmd::new(cli(&[" ", " "])).to_text(), "");
    assert_eq!(Cmd::new(cli(&["a b", " c  d"])).to_text(), "a b  c  d");
}

#[test]
fn args_text_is_all_arguments_in_order() {
    let args = Args { list: vec!["a".to_string(), "".to_string(), " b ".to_string(), "c".to_string()] };
    assert_eq!(args.to_text(), "a b c");
    assert_eq!(Args { list: Vec::new() }.to_text(), "");
}

#[test]
fn config_takes_the_settings() {
    let config = Config::new(Cli { cmd: Vec::new(), bail: true, output: false, runs: 3 });
    assert!(config.bail);
    assert!(!config.output);
    assert_eq!(config.runs, 3);
    let config = Config::new(Cli { cmd: vec!["x".to_string()], bail: false, output: true, runs: 0 });
    assert!(!config.bail);
    assert!(config.output);
    assert_eq!(config.runs, 0);
}

#[test]
fn cli_clone_keeps_every_field() {
    let cli = Cli { cmd: vec!["a".to_string(), "b".to_string()], bail: true, output: true, runs: 9 };
    let copy = cli.clone();
    assert_eq!(copy.cmd, cli.cmd);
    assert_eq!(copy.bail, cli.bail);
    assert_eq!(copy.output, cli.output);
    assert_eq!(copy.runs, cli.runs);
}

#[test]
fn decimal_of_small_numbers() {
    assert_eq!(decimal(0), "0");
    assert_eq!(decimal(7), "7");
    assert_eq!(decimal(9), "9");
    assert_eq!(decimal(10), "10");
    assert_eq!(decimal(1234567890), "1234567890");
}

#[test]
fn decimal_of_the_largest_number() {
    assert_eq!(decimal(u64::MAX), "18446744073709551615");
    assert_eq!(decimal(u64::MAX), u64::MAX.to_string());
}

#[test]
fn decimal_is_written_at_the_end() {
    let mut text = "n = ".to_string();
    push_decimal(&mut text, 405);
    assert_eq!(text, "n = 405");
    push_signed_decimal(&mut text, -6);
    assert_eq!(text, "n = 405-6");
}

#[test]
fn signed_decimal_has_a_sign_for_negative_numbers() {
    assert_eq!(signed_decimal(0), "0");
    assert_eq!(signed_decimal(1), "1");
    assert_eq!(signed_decimal(-1), "-1");
    assert_eq!(signed_decimal(255), "255");
    assert_eq!(signed_decimal(i32::MAX), "2147483647");
    assert_eq!(signed_decimal(i32::MIN), "-2147483648");
}

#[test]
fn signed_decimal_agrees_with_std() {
    for n in [-100_000, -4096, -10, -9, 9, 10, 99, 100, 65536] {
        assert_eq!(signed_decimal(n), n.to_string());
    }
}

#[test]
fn output_is_decoded_as_utf8() {
    assert_eq!(decode_output(b"plain\n".to_vec()), "plain\n");
    assert_eq!(decode_output("h\u{e9}llo \u{4e16}\u{754c} \u{1f600}".as_bytes().to_vec()), "h\u{e9}llo \u{4e16}\u{754c} \u{1f600}");
    assert_eq!(decode_output(Vec::new()), "");
}

#[test]
fn output_that_is_not_utf8_decodes_to_nothing() {
    assert_eq!(decode_output(vec![0xff]), "");
    assert_eq!(decode_output(vec![b'a', 0xc3]), "");
    assert_eq!(decode_output(vec![0xed, 0xa0, 0x80]), "");
    assert_eq!(decode_output(vec![0xc0, 0x80]), "");
}

fn is_white_space(c: char) -> bool {
    matches!(
        c,
        '\u{9}'..='\u{d}'
            | ' '
            | '\u{85}'
            | '\u{a0}'
            | '\u{1680}'
            | '\u{2000}'..='\u{200a}'
            | '\u{2028}'
            | '\u{2029}'
            | '\u{202f}'
            | '\u{205f}'
            | '\u{3000}'
    )
}

#[test]
fn cmd_text_loses_exactly_the_white_space_characters() {
    let mut white = 0;
    for c in '\u{0}'..=char::MAX {
        let cmd = Cmd {
            program: format!("{}x", c),
            args: Args { list: vec![format!("y{}", c)] },
        };
        let text = cmd.to_text();
        if is_white_space(c) {
            white += 1;
            assert_eq!(text, "x y", "U+{:04X}", c as u32);
        } else {
            assert_eq!(text, format!("{}x y{}", c, c), "U+{:04X}", c as u32);
        }
    }
    assert_eq!(white, 25);
}
