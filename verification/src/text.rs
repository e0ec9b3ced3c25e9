use vstd::prelude::*;

verus! {

/// Whether `c` is one of the ten ASCII digits.
pub open spec fn is_digit(c: char) -> bool {
    '0' <= c <= '9'
}

/// The number that the digit `c` stands for.
pub open spec fn digit_value(c: char) -> nat {
    (c as u32 - '0' as u32) as nat
}

/// The digit that stands for `d`.
pub open spec fn digit_char(d: nat) -> char {
    (('0' as u8 + d) as u8) as char
}

/// The number that a run of digits spells in base ten; leading zeros count
/// for nothing and the empty run spells zero.
pub open spec fn decimal_value(digits: Seq<char>) -> nat
    decreases digits.len(),
{
    if digits.len() == 0 {
        0
    } else {
        decimal_value(digits.drop_last()) * 10 + digit_value(digits.last())
    }
}

/// The digits of `n` in base ten, without leading zeros.
pub open spec fn decimal_digits(n: nat) -> Seq<char>
    decreases n,
{
    if n < 10 {
        seq![digit_char(n)]
    } else {
        decimal_digits(n / 10).push(digit_char(n % 10))
    }
}

/// An integer written in base ten, with a minus sign where it is negative.
pub open spec fn decimal(n: int) -> Seq<char> {
    if n < 0 {
        seq!['-'] + decimal_digits((-n) as nat)
    } else {
        decimal_digits(n as nat)
    }
}

/// Whether `word` stands in `line` at index `at`.
pub open spec fn has_at(line: Seq<char>, at: int, word: Seq<char>) -> bool {
    0 <= at && at + word.len() <= line.len() && line.subrange(at, at + word.len()) == word
}

/// Where the longest run of digits that starts at `from` ends.
pub open spec fn digits_end(line: Seq<char>, from: int) -> int
    decreases line.len() - from,
{
    if 0 <= from < line.len() && is_digit(line[from]) {
        digits_end(line, from + 1)
    } else {
        from
    }
}

/// The characters of a string, one by one.
pub fn chars_of(text: &str) -> (chars: Vec<char>)
    ensures
        chars@ == text@,
{
    let mut chars: Vec<char> = Vec::new();
    for c in it: text.chars()
        invariant
            chars@ == it.seq().take(it.index() as int),
            it.seq() == text@,
    {
        chars.push(c);
    }
    chars
}

/// Whether `word` stands in `line` at index `at`.
pub fn starts_with_at(line: &Vec<char>, at: usize, word: &Vec<char>) -> (found: bool)
    ensures
        found == has_at(line@, at as int, word@),
        found ==> at + word.len() <= line.len(),
{
    if word.len() > line.len() || at > line.len() - word.len() {
        return false;
    }
    let mut i: usize = 0;
    while i < word.len()
        invariant
            i <= word.len(),
            at + word.len() <= line.len(),
            line@.subrange(at as int, at + i) == word@.take(i as int),
        decreases word.len() - i,
    {
        if line[at + i] != word[i] {
            assert(line@.subrange(at as int, at + word.len())[i as int] != word@[i as int]);
            return false;
        }
        assert(line@.subrange(at as int, at + i + 1) == line@.subrange(at as int, at + i).push(
            line@[at + i],
        ));
        assert(word@.take(i + 1) == word@.take(i as int).push(word@[i as int]));
        i += 1;
    }
    assert(word@.take(word.len() as int) == word@);
    true
}

/// Finds where the longest run of digits that starts at `from` ends.
pub fn scan_digits(line: &Vec<char>, from: usize) -> (end: usize)
    requires
        from <= line.len(),
    ensures
        end == digits_end(line@, from as int),
        from <= end <= line.len(),
        forall|i: int| from <= i < end ==> is_digit(#[trigger] line@[i]),
{
    let mut end: usize = from;
    while end < line.len() && '0' <= line[end] && line[end] <= '9'
        invariant
            from <= end <= line.len(),
            digits_end(line@, from as int) == digits_end(line@, end as int),
            forall|i: int| from <= i < end ==> is_digit(#[trigger] line@[i]),
        decreases line.len() - end,
    {
        end += 1;
    }
    end
}

/// A longer run of digits spells no smaller number than a run it begins with.
pub proof fn lemma_decimal_value_prefix(digits: Seq<char>, n: int)
    requires
        0 <= n <= digits.len(),
    ensures
        decimal_value(digits.take(n)) <= decimal_value(digits),
    decreases digits.len() - n,
{
    if n == digits.len() {
        assert(digits.take(n) == digits);
    } else {
        lemma_decimal_value_prefix(digits.drop_last(), n);
        assert(digits.drop_last().take(n) == digits.take(n));
    }
}

/// The one-character string of a digit.
fn digit_str(d: u64) -> (s: &'static str)
    requires
        d < 10,
    ensures
        s@ == seq![digit_char(d as nat)],
{
    proof {
        reveal_strlit("0");
        reveal_strlit("1");
        reveal_strlit("2");
        reveal_strlit("3");
        reveal_strlit("4");
        reveal_strlit("5");
        reveal_strlit("6");
        reveal_strlit("7");
        reveal_strlit("8");
        reveal_strlit("9");
    }
    let s: &'static str = if d == 0 {
        "0"
    } else if d == 1 {
        "1"
    } else if d == 2 {
        "2"
    } else if d == 3 {
        "3"
    } else if d == 4 {
        "4"
    } else if d == 5 {
        "5"
    } else if d == 6 {
        "6"
    } else if d == 7 {
        "7"
    } else if d == 8 {
        "8"
    } else {
        "9"
    };
    assert(s@ =~= seq![digit_char(d as nat)]);
    s
}

/// Appends the digits of `n` to `out`.
pub fn push_digits(out: &mut String, n: u64)
    ensures
        final(out)@ == old(out)@ + decimal_digits(n as nat),
    decreases n,
{
    if n >= 10 {
        push_digits(out, n / 10);
    }
    out.append(digit_str(n % 10));
    assert(old(out)@ + decimal_digits((n / 10) as nat) + seq![digit_char((n % 10) as nat)]
        =~= old(out)@ + decimal_digits((n / 10) as nat).push(digit_char((n % 10) as nat)));
}

/// Appends `n`, written in base ten, to `out`.
pub fn push_integer(out: &mut String, n: i64)
    ensures
        final(out)@ == old(out)@ + decimal(n as int),
{
    if n < 0 {
        let magnitude: u64 = (-(n + 1)) as u64 + 1;
        proof {
            reveal_strlit("-");
        }
        out.append("-");
        push_digits(out, magnitude);
        assert(old(out)@ + "-"@ + decimal_digits(magnitude as nat) =~= old(out)@ + decimal(
            n as int,
        ));
    } else {
        push_digits(out, n as u64);
    }
}

/// Reads the number that the digits of `line` from `from` up to `to` spell,
/// when it is no greater than `limit`.
pub fn parse_digits(line: &Vec<char>, from: usize, to: usize, limit: u32) -> (number: Option<u32>)
    requires
        from <= to <= line.len(),
        forall|i: int| from <= i < to ==> is_digit(#[trigger] line@[i]),
    ensures
        number == (if decimal_value(line@.subrange(from as int, to as int)) <= limit {
            Some(decimal_value(line@.subrange(from as int, to as int)) as u32)
        } else {
            None
        }),
{
    let ghost digits = line@.subrange(from as int, to as int);
    let mut value: u64 = 0;
    let mut i: usize = from;
    while i < to
        invariant
            from <= i <= to <= line.len(),
            digits == line@.subrange(from as int, to as int),
            forall|k: int| from <= k < to ==> is_digit(#[trigger] line@[k]),
            value == decimal_value(digits.take(i - from)),
            value <= limit,
        decreases to - i,
    {
        let c: char = line[i];
        let d: u64 = (c as u32 - '0' as u32) as u64;
        assert(digits.take(i + 1 - from).drop_last() == digits.take(i - from));
        assert(digits.take(i + 1 - from).last() == c);
        value = value * 10 + d;
        i += 1;
        if value > limit as u64 {
            proof {
                lemma_decimal_value_prefix(digits, i - from);
            }
            return None;
        }
    }
    assert(digits.take(to - from) == digits);
    Some(value as u32)
}

} // verus!
