use crate::fader::{to_position, value_to_position};
use crate::message::{Fader, FaderView, Json1Message, Json1MessageView, message_view};
use crate::text::{
    chars_of, decimal_value, digits_end, has_at, parse_digits, scan_digits, starts_with_at,
};
use vstd::prelude::*;

verus! {

/// The words that the console's lines are made of, as characters.
pub struct Words {
    pub ok: Vec<char>,
    pub notify: Vec<char>,
    pub level: Vec<char>,
    pub on: Vec<char>,
}

/// What follows the verb in a line that reports a fader's level.
pub open spec fn level_path() -> Seq<char> {
    " set MIXER:Current/InCh/Fader/Level "@
}

/// What follows the verb in a line that reports whether a channel is on.
pub open spec fn on_path() -> Seq<char> {
    " set MIXER:Current/InCh/Fader/On "@
}

impl Words {
    /// The words are those of the console's protocol.
    pub open spec fn wf(&self) -> bool {
        &&& self.ok@ == "OK"@
        &&& self.notify@ == "NOTIFY"@
        &&& self.level@ == level_path()
        &&& self.on@ == on_path()
    }

    pub fn new() -> (words: Words)
        ensures
            words.wf(),
    {
        Words {
            ok: chars_of("OK"),
            notify: chars_of("NOTIFY"),
            level: chars_of(" set MIXER:Current/InCh/Fader/Level "),
            on: chars_of(" set MIXER:Current/InCh/Fader/On "),
        }
    }
}

/// Where the verb that starts at `at` ends: `OK` or `NOTIFY`.
pub open spec fn verb_end(line: Seq<char>, at: int) -> Option<int> {
    if has_at(line, at, "OK"@) {
        Some(at + "OK"@.len())
    } else if has_at(line, at, "NOTIFY"@) {
        Some(at + "NOTIFY"@.len())
    } else {
        None
    }
}

/// The part that both kinds of line share, read from `at`: the verb, the
/// path, the channel (digits that spell at most 255), a space, a run of
/// digits that is not used, and a space. Gives the channel and the index
/// behind the second space.
pub open spec fn head_at(line: Seq<char>, at: int, path: Seq<char>) -> Option<(u8, int)> {
    match verb_end(line, at) {
        None => None,
        Some(a) => {
            let b = a + path.len();
            let c = digits_end(line, b);
            let d = digits_end(line, c + 1);
            if has_at(line, a, path) && b < c && decimal_value(line.subrange(b, c)) <= 255 && c
                < line.len() && line[c] == ' ' && c + 1 < d && d < line.len() && line[d] == ' ' {
                Some((decimal_value(line.subrange(b, c)) as u8, d + 1))
            } else {
                None
            }
        },
    }
}

/// The end of the text line that `from` lies in: the index of the first
/// line feed at or behind `from`, or the length of `line`.
pub open spec fn line_end(line: Seq<char>, from: int) -> int
    decreases line.len() - from,
{
    if 0 <= from < line.len() && line[from] != '\n' {
        line_end(line, from + 1)
    } else {
        from
    }
}

/// The index of the last double quote in `line` from `from` up to `to`.
pub open spec fn last_quote(line: Seq<char>, from: int, to: int) -> Option<int>
    decreases to - from,
{
    if to <= from || to > line.len() {
        None
    } else if line[to - 1] == '"' {
        Some(to - 1)
    } else {
        last_quote(line, from, to - 1)
    }
}

/// The message of a level line that starts at `at`: the shared head with
/// the level path, the raw value (digits behind an optional minus sign, within
/// 16 bits), a space, and the comment between a double quote and the last
/// double quote of the text line.
pub open spec fn level_at(line: Seq<char>, at: int) -> Option<Json1MessageView> {
    match head_at(line, at, level_path()) {
        None => None,
        Some((channel, e)) => {
            let negative = e < line.len() && line[e] == '-';
            let f = if negative {
                e + 1
            } else {
                e
            };
            let g = digits_end(line, f);
            let magnitude = decimal_value(line.subrange(f, g)) as int;
            let value = if negative {
                -magnitude
            } else {
                magnitude
            };
            if f < g && -32768 <= value <= 32767 && g + 1 < line.len() && line[g] == ' '
                && line[g + 1] == '"' {
                match last_quote(line, g + 2, line_end(line, g + 2)) {
                    None => None,
                    Some(r) => Some(
                        Json1MessageView {
                            channel,
                            fader: Some(
                                FaderView {
                                    position: Some(value_to_position(value) as u8),
                                    value: Some(value as i16),
                                    comment: Some(line.subrange(g + 2, r)),
                                },
                            ),
                            state: None,
                        },
                    ),
                }
            } else {
                None
            }
        },
    }
}

/// The message of an on/off line that starts at `at`: the shared head with
/// the on path, and a run of digits that is `0` or `1`.
pub open spec fn on_at(line: Seq<char>, at: int) -> Option<Json1MessageView> {
    match head_at(line, at, on_path()) {
        None => None,
        Some((channel, e)) => {
            if digits_end(line, e) == e + 1 && (line[e] == '0' || line[e] == '1') {
                Some(Json1MessageView { channel, fader: None, state: Some(line[e] == '1') })
            } else {
                None
            }
        },
    }
}

/// The message of the first level line that starts at `from` or behind it.
pub open spec fn first_level(line: Seq<char>, from: int) -> Option<Json1MessageView>
    decreases line.len() - from,
{
    if from < 0 || from >= line.len() {
        None
    } else if level_at(line, from) is Some {
        level_at(line, from)
    } else {
        first_level(line, from + 1)
    }
}

/// The message of the first on/off line that starts at `from` or behind it.
pub open spec fn first_on(line: Seq<char>, from: int) -> Option<Json1MessageView>
    decreases line.len() - from,
{
    if from < 0 || from >= line.len() {
        None
    } else if on_at(line, from) is Some {
        on_at(line, from)
    } else {
        first_on(line, from + 1)
    }
}

/// What a line of the console says: the first level line in it, else the
/// first on/off line in it, else nothing.
pub open spec fn console_message(line: Seq<char>) -> Option<Json1MessageView> {
    match first_level(line, 0) {
        Some(message) => Some(message),
        None => first_on(line, 0),
    }
}

/// The first level line at or behind `from` is the one that starts
/// earliest, and there is none exactly when none starts there.
pub proof fn lemma_first_level(line: Seq<char>, from: int)
    requires
        0 <= from,
    ensures
        first_level(line, from) is None <==> forall|at: int|
            from <= at < line.len() ==> #[trigger] level_at(line, at) is None,
        first_level(line, from) is Some ==> exists|at: int|
            from <= at < line.len() && #[trigger] level_at(line, at) == first_level(line, from)
                && forall|before: int|
                from <= before < at ==> #[trigger] level_at(line, before) is None,
    decreases line.len() - from,
{
    if from < line.len() {
        lemma_first_level(line, from + 1);
        if level_at(line, from) is Some {
            assert(level_at(line, from) == first_level(line, from));
        } else if first_level(line, from) is Some {
            let at = choose|at: int|
                from + 1 <= at < line.len() && #[trigger] level_at(line, at) == first_level(
                    line,
                    from + 1,
                ) && forall|before: int|
                    from + 1 <= before < at ==> #[trigger] level_at(line, before) is None;
            assert(level_at(line, at) == first_level(line, from));
            assert forall|before: int| from <= before < at implies #[trigger] level_at(
                line,
                before,
            ) is None by {
                if before > from {
                    assert(from + 1 <= before < at);
                }
            }
        }
    }
}

/// The first on/off line at or behind `from` is the one that starts
/// earliest, and there is none exactly when none starts there.
pub proof fn lemma_first_on(line: Seq<char>, from: int)
    requires
        0 <= from,
    ensures
        first_on(line, from) is None <==> forall|at: int|
            from <= at < line.len() ==> #[trigger] on_at(line, at) is None,
        first_on(line, from) is Some ==> exists|at: int|
            from <= at < line.len() && #[trigger] on_at(line, at) == first_on(line, from)
                && forall|before: int| from <= before < at ==> #[trigger] on_at(line, before) is None,
    decreases line.len() - from,
{
    if from < line.len() {
        lemma_first_on(line, from + 1);
        if on_at(line, from) is Some {
            assert(on_at(line, from) == first_on(line, from));
        } else if first_on(line, from) is Some {
            let at = choose|at: int|
                from + 1 <= at < line.len() && #[trigger] on_at(line, at) == first_on(
                    line,
                    from + 1,
                ) && forall|before: int|
                    from + 1 <= before < at ==> #[trigger] on_at(line, before) is None;
            assert(on_at(line, at) == first_on(line, from));
            assert forall|before: int| from <= before < at implies #[trigger] on_at(
                line,
                before,
            ) is None by {
                if before > from {
                    assert(from + 1 <= before < at);
                }
            }
        }
    }
}

/// A line says nothing exactly when neither kind of line starts anywhere
/// in it.
pub proof fn lemma_silent_line(line: Seq<char>)
    ensures
        console_message(line) is None <==> ((forall|at: int|
            0 <= at < line.len() ==> #[trigger] level_at(line, at) is None) && (forall|at: int|
            0 <= at < line.len() ==> #[trigger] on_at(line, at) is None)),
{
    lemma_first_level(line, 0);
    lemma_first_on(line, 0);
}

/// What a level line says: the channel and the raw value that it names,
/// and the display position of that value.
pub proof fn lemma_level_message(line: Seq<char>)
    requires
        first_level(line, 0) is Some,
    ensures
        console_message(line) == first_level(line, 0),
        console_message(line).unwrap().state is None,
        console_message(line).unwrap().fader is Some,
        console_message(line).unwrap().fader.unwrap().value is Some,
        console_message(line).unwrap().fader.unwrap().comment is Some,
        console_message(line).unwrap().fader.unwrap().position == Some(
            value_to_position(console_message(line).unwrap().fader.unwrap().value.unwrap() as int) as u8,
        ),
{
    lemma_first_level(line, 0);
    let at = choose|at: int|
        0 <= at < line.len() && #[trigger] level_at(line, at) == first_level(line, 0);
    let message = level_at(line, at).unwrap();
    let value = message.fader.unwrap().value.unwrap();
    assert(message.fader.unwrap().position == Some(value_to_position(value as int) as u8));
}

/// Reads the shared head of a line at `at`.
fn read_head(line: &Vec<char>, at: usize, words: &Words, path: &Vec<char>) -> (head: Option<
    (u8, usize),
>)
    requires
        words.wf(),
    ensures
        match head {
            Some((channel, next)) => head_at(line@, at as int, path@) == Some(
                (channel, next as int),
            ) && next <= line.len(),
            None => head_at(line@, at as int, path@) is None,
        },
{
    let a: usize = if starts_with_at(line, at, &words.ok) {
        at + words.ok.len()
    } else if starts_with_at(line, at, &words.notify) {
        at + words.notify.len()
    } else {
        return None;
    };
    if !starts_with_at(line, a, path) {
        return None;
    }
    let b: usize = a + path.len();
    let c: usize = scan_digits(line, b);
    if b >= c || c >= line.len() || line[c] != ' ' {
        return None;
    }
    let d: usize = scan_digits(line, c + 1);
    if c + 1 >= d || d >= line.len() || line[d] != ' ' {
        return None;
    }
    match parse_digits(line, b, c, 255) {
        Some(channel) => Some((channel as u8, d + 1)),
        None => None,
    }
}

/// Finds the end of the text line that `from` lies in.
fn find_line_end(line: &Vec<char>, from: usize) -> (end: usize)
    requires
        from <= line.len(),
    ensures
        end == line_end(line@, from as int),
        from <= end <= line.len(),
{
    let mut end: usize = from;
    while end < line.len() && line[end] != '\n'
        invariant
            from <= end <= line.len(),
            line_end(line@, from as int) == line_end(line@, end as int),
        decreases line.len() - end,
    {
        end += 1;
    }
    end
}

/// Finds the last double quote in `line` from `from` up to `to`.
fn find_last_quote(line: &Vec<char>, from: usize, to: usize) -> (found: Option<usize>)
    requires
        from <= to <= line.len(),
    ensures
        match found {
            Some(r) => last_quote(line@, from as int, to as int) == Some(r as int) && from <= r
                < to,
            None => last_quote(line@, from as int, to as int) is None,
        },
{
    let mut end: usize = to;
    while end > from
        invariant
            from <= end <= to <= line.len(),
            last_quote(line@, from as int, to as int) == last_quote(
                line@,
                from as int,
                end as int,
            ),
        decreases end - from,
    {
        if line[end - 1] == '"' {
            return Some(end - 1);
        }
        end -= 1;
    }
    None
}

/// Reads a level line at `at`.
fn read_level(raw: &str, line: &Vec<char>, at: usize, words: &Words) -> (message: Option<
    Json1Message,
>)
    requires
        line@ == raw@,
        words.wf(),
    ensures
        message_view(message) == level_at(line@, at as int),
{
    let (channel, e) = match read_head(line, at, words, &words.level) {
        Some(head) => head,
        None => {
            return None;
        },
    };
    let negative: bool = e < line.len() && line[e] == '-';
    let f: usize = if negative {
        e + 1
    } else {
        e
    };
    let g: usize = scan_digits(line, f);
    if f >= g || g >= line.len() || g + 1 >= line.len() || line[g] != ' ' || line[g + 1] != '"' {
        return None;
    }
    let magnitude: u32 = match parse_digits(line, f, g, 32768) {
        Some(magnitude) => magnitude,
        None => {
            return None;
        },
    };
    if !negative && magnitude > 32767 {
        return None;
    }
    let value: i16 = if negative {
        (0 - magnitude as i32) as i16
    } else {
        magnitude as i16
    };
    let end: usize = find_line_end(line, g + 2);
    match find_last_quote(line, g + 2, end) {
        None => None,
        Some(r) => {
            let comment = raw.substring_char(g + 2, r).to_owned();
            Some(
                Json1Message {
                    channel,
                    fader: Some(
                        Fader {
                            position: Some(to_position(value as i64)),
                            value: Some(value),
                            comment: Some(comment),
                        },
                    ),
                    state: None,
                },
            )
        },
    }
}

/// Reads an on/off line at `at`.
fn read_on(line: &Vec<char>, at: usize, words: &Words) -> (message: Option<Json1Message>)
    requires
        words.wf(),
    ensures
        message_view(message) == on_at(line@, at as int),
{
    let (channel, e) = match read_head(line, at, words, &words.on) {
        Some(head) => head,
        None => {
            return None;
        },
    };
    let end: usize = scan_digits(line, e);
    if e < line.len() && end == e + 1 && (line[e] == '0' || line[e] == '1') {
        Some(Json1Message { channel, fader: None, state: Some(line[e] == '1') })
    } else {
        None
    }
}

/// Reads what a line of the console says: a fader's level, whether a
/// channel is on, or nothing that a client is told.
pub fn parse_line(raw: &str) -> (message: Option<Json1Message>)
    ensures
        message_view(message) == console_message(raw@),
{
    let line = chars_of(raw);
    let words = Words::new();
    let mut at: usize = 0;
    while at < line.len()
        invariant
            line@ == raw@,
            words.wf(),
            at <= line.len(),
            first_level(line@, 0) == first_level(line@, at as int),
        decreases line.len() - at,
    {
        let found = read_level(raw, &line, at, &words);
        if found.is_some() {
            return found;
        }
        at += 1;
    }
    at = 0;
    while at < line.len()
        invariant
            line@ == raw@,
            words.wf(),
            at <= line.len(),
            first_level(line@, 0) is None,
            first_on(line@, 0) == first_on(line@, at as int),
        decreases line.len() - at,
    {
        let found = read_on(&line, at, &words);
        if found.is_some() {
            return found;
        }
        at += 1;
    }
    None
}

} // verus!
