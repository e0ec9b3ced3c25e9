use ql_bridge::console::parse_line;
use ql_bridge::message::{Fader, Json1Message};
use regex::Regex;

fn level(channel: u8, position: u8, value: i16, comment: &str) -> Option<Json1Message> {
    Some(Json1Message {
        channel,
        fader: Some(Fader { position: Some(position), value: Some(value), comment: Some(comment.to_string()) }),
        state: None,
    })
}

#[test]
fn parse_line_reads_a_level() {
    assert_eq!(
        parse_line("NOTIFY set MIXER:Current/InCh/Fader/Level 3 0 -2000 \"test\""),
        level(3, 28, -2000, "test")
    );
    assert_eq!(parse_line("OK set MIXER:Current/InCh/Fader/Level 0 17 1000 \"\""), level(0, 100, 1000, ""));
    assert_eq!(parse_line("OK set MIXER:Current/InCh/Fader/Level 0 17 -0 \"\""), level(0, 66, 0, ""));
}

#[test]
fn parse_line_reads_an_on_state() {
    assert_eq!(
        parse_line("NOTIFY set MIXER:Current/InCh/Fader/On 5 0 1"),
        Some(Json1Message { channel: 5, fader: None, state: Some(true) })
    );
    assert_eq!(
        parse_line("OK set MIXER:Current/InCh/Fader/On 5 3 0 "),
        Some(Json1Message { channel: 5, fader: None, state: Some(false) })
    );
}

#[test]
fn parse_line_reads_nothing_from_other_lines() {
    assert_eq!(parse_line(""), None);
    assert_eq!(parse_line("OK devstatus runmode \"normal\""), None);
    assert_eq!(parse_line("NOTIFY set MIXER:Current/InCh/Fader/Level 3 0 -2000 test"), None);
    assert_eq!(parse_line("NOTIFY set MIXER:Current/InCh/Fader/On 5 0 -1"), None);
}

#[test]
fn parse_line_takes_the_first_line_that_matches() {
    let first = "OK set MIXER:Current/InCh/Fader/Level 1 0 5 \"";
    let second = "OK set MIXER:Current/InCh/Fader/Level 2 0 7 \"x\"";
    let both = format!("{}{}\"", first, second);
    assert_eq!(parse_line(&both), level(1, 66, 5, second));
}

#[test]
fn parse_line_counts_characters_not_bytes() {
    assert_eq!(
        parse_line("\u{e9}\u{4e2d} OK set MIXER:Current/InCh/Fader/Level 1 0 5 \"\u{1f39a} f\u{e4}der\" \u{e9}"),
        level(1, 66, 5, "\u{1f39a} f\u{e4}der")
    );
}

#[test]
fn parse_line_agrees_with_the_pattern_as_a_regular_expression() {
    let pattern =
        Regex::new("(OK|NOTIFY) set MIXER:Current/InCh/Fader/Level (\\d+) (\\d+) (-?\\d+) \"(.*)\"").unwrap();
    let lines = [
        "NOTIFY set MIXER:Current/InCh/Fader/Level 3 0 -2000 \"test\"",
        "OK set MIXER:Current/InCh/Fader/Level 12 5 1000 \"\"",
        "xx OK set MIXER:Current/InCh/Fader/Level 12 5 1000 \"a\"b\" c\" d",
        "NOTIFYOK set MIXER:Current/InCh/Fader/Level 1 1 1 \"q\"",
        "OK set MIXER:Current/InCh/Fader/Level 1 1 1 \"q",
        "OK set MIXER:Current/InCh/Fader/Level 1 1 1\"q\"",
        "OK set MIXER:Current/InCh/Fader/Level 1 1 --1 \"q\"",
        "OK set MIXER:Current/InCh/Fader/Level 1 1 -1 \"q\"\n\"r\"",
        "OK set MIXER:Current/InCh/Fader/Level 1 1 -1 \"q\n\"",
        "OK set MIXER:Current/InCh/Fader/Level 1 a -1 \"q\" OK set MIXER:Current/InCh/Fader/Level 2 0 -2 \"r\"",
        "OK set MIXER:Current/InCh/Fader/Level -1 0 -1 \"q\"",
        "OK  set MIXER:Current/InCh/Fader/Level 1 0 -1 \"q\"",
        "OK set MIXER:Current/InCh/Fader/On 1 0 1 \"q\"",
        "",
        "\"\"",
    ];
    for line in lines {
        let expected = pattern.captures(line).map(|found| {
            let value: i16 = found[4].parse().unwrap();
            (found[2].parse::<u8>().unwrap(), value, found[5].to_string())
        });
        let actual = match parse_line(line) {
            Some(Json1Message { channel, fader: Some(fader), state: None }) => {
                Some((channel, fader.value.unwrap(), fader.comment.unwrap()))
            }
            _ => None,
        };
        assert_eq!(actual, expected, "line {:?}", line);
    }
}
