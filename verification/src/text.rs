//! Text as the sequence of characters it stands for.
use vstd::prelude::*;

verus! {

/// `String::push` appends one character to the end of a string.
pub assume_specification[ String::push ](s: &mut String, ch: char)
    ensures
        final(s)@ == old(s)@.push(ch),
;

/// `==` on string slices holds exactly when both hold the same characters.
pub assume_specification[ <str as PartialEq>::eq ](a: &str, b: &str) -> (r: bool)
    ensures
        r == (a@ == b@),
;

/// The texts that a sequence of strings stands for.
pub open spec fn texts(strings: Seq<String>) -> Seq<Seq<char>> {
    strings.map_values(|s: String| s@)
}

/// The text that an optional string stands for.
pub open spec fn optional_text(string: Option<String>) -> Option<Seq<char>> {
    match string {
        Some(s) => Some(s@),
        None => None,
    }
}

/// The bytes that an optional buffer stands for.
pub open spec fn optional_bytes(bytes: Option<Vec<u8>>) -> Option<Seq<u8>> {
    match bytes {
        Some(b) => Some(b@),
        None => None,
    }
}

/// Whether two texts are the same.
pub fn same_text(a: &str, b: &str) -> (r: bool)
    ensures
        r == (a@ == b@),
{
    *a == *b
}

/// A copy of a list of strings.
pub fn copy_texts(strings: &Vec<String>) -> (r: Vec<String>)
    ensures
        r@ == strings@,
{
    let r = strings.clone();
    assert(r@ =~= strings@);
    r
}

/// A copy of an optional string.
pub fn copy_optional_text(string: &Option<String>) -> (r: Option<String>)
    ensures
        r == *string,
{
    match string {
        Some(s) => Some(s.clone()),
        None => None,
    }
}

/// A copy of an optional buffer.
pub fn copy_optional_bytes(bytes: &Option<Vec<u8>>) -> (r: Option<Vec<u8>>)
    ensures
        optional_bytes(r) == optional_bytes(*bytes),
{
    match bytes {
        Some(b) => Some(b.clone()),
        None => None,
    }
}

/// The text with its line feeds and carriage returns taken out.
pub open spec fn without_line_breaks(text: Seq<char>) -> Seq<char> {
    text.filter(|c: char| c != '\n' && c != '\r')
}

/// Takes the line feeds and carriage returns out of a text.
pub fn strip_line_breaks(text: &str) -> (r: String)
    ensures
        r@ == without_line_breaks(text@),
{
    let mut kept = String::new();
    let ghost keep = |c: char| c != '\n' && c != '\r';
    assert(text@.take(0).filter(keep) == Seq::<char>::empty()) by {
        reveal(Seq::filter);
    }
    for c in it: text.chars()
        invariant
            it.seq() == text@,
            keep == (|c: char| c != '\n' && c != '\r'),
            kept@ == text@.take(it.index()).filter(keep),
    {
        proof {
            assert(text@.take(it.index() + 1).drop_last() == text@.take(it.index()));
            reveal(Seq::filter);
        }
        if c != '\n' && c != '\r' {
            kept.push(c);
        }
    }
    assert(text@.take(text@.len() as int) == text@);
    kept
}

/// Whether two full stops stand side by side in the text.
pub open spec fn has_double_dot(text: Seq<char>) -> bool {
    exists|i: int| 0 <= i < text.len() - 1 && #[trigger] text[i] == '.' && text[i + 1] == '.'
}

/// Looks for two full stops side by side.
pub fn contains_double_dot(text: &str) -> (r: bool)
    ensures
        r == has_double_dot(text@),
{
    let mut after_dot = false;
    let mut found = false;
    for c in it: text.chars()
        invariant
            it.seq() == text@,
            after_dot == (it.index() > 0 && text@[it.index() - 1] == '.'),
            found == has_double_dot(text@.take(it.index())),
    {
        proof {
            let n = it.index();
            let before = text@.take(n);
            let now = text@.take(n + 1);
            if has_double_dot(before) {
                let i = choose|i: int|
                    0 <= i < before.len() - 1 && #[trigger] before[i] == '.' && before[i + 1] == '.';
                assert(now[i] == '.' && now[i + 1] == '.');
            }
            if n > 0 && text@[n - 1] == '.' && c == '.' {
                assert(now[n - 1] == '.' && now[n] == '.');
            }
            if has_double_dot(now) && !has_double_dot(before) {
                let i = choose|i: int|
                    0 <= i < now.len() - 1 && #[trigger] now[i] == '.' && now[i + 1] == '.';
                if i + 1 < n {
                    assert(before[i] == '.' && before[i + 1] == '.');
                }
            }
        }
        if c == '.' && after_dot {
            found = true;
        }
        after_dot = c == '.';
    }
    assert(text@.take(text@.len() as int) == text@);
    found
}

/// The character of a decimal digit.
pub open spec fn digit_char(digit: nat) -> char {
    if digit == 0 {
        '0'
    } else if digit == 1 {
        '1'
    } else if digit == 2 {
        '2'
    } else if digit == 3 {
        '3'
    } else if digit == 4 {
        '4'
    } else if digit == 5 {
        '5'
    } else if digit == 6 {
        '6'
    } else if digit == 7 {
        '7'
    } else if digit == 8 {
        '8'
    } else {
        '9'
    }
}

/// A number in decimal, without leading zeros.
pub open spec fn decimal(n: nat) -> Seq<char>
    decreases n,
{
    if n < 10 {
        seq![digit_char(n)]
    } else {
        decimal(n / 10).push(digit_char(n % 10))
    }
}

fn to_digit(digit: u16) -> (r: char)
    requires
        digit < 10,
    ensures
        r == digit_char(digit as nat),
{
    match digit {
        0 => '0',
        1 => '1',
        2 => '2',
        3 => '3',
        4 => '4',
        5 => '5',
        6 => '6',
        7 => '7',
        8 => '8',
        _ => '9',
    }
}

/// Writes a number in decimal.
pub fn to_decimal(n: u16) -> (r: String)
    ensures
        r@ == decimal(n as nat),
    decreases n,
{
    if n < 10 {
        let mut r = String::new();
        r.push(to_digit(n));
        r
    } else {
        let mut r = to_decimal(n / 10);
        r.push(to_digit(n % 10));
        r
    }
}

/// Taking the line breaks out goes character by character: of two texts one after the other it
/// leaves what it leaves of each, of a line feed or a carriage return nothing, and any other
/// character as it is.
pub proof fn line_breaks_alone_are_taken_out(first: Seq<char>, second: Seq<char>, c: char)
    ensures
        without_line_breaks(first + second) == without_line_breaks(first) + without_line_breaks(
            second,
        ),
        without_line_breaks(Seq::empty()) == Seq::<char>::empty(),
        c == '\n' || c == '\r' ==> without_line_breaks(seq![c]) == Seq::<char>::empty(),
        c != '\n' && c != '\r' ==> without_line_breaks(seq![c]) == seq![c],
    decreases second.len(),
{
    reveal(Seq::filter);
    assert(seq![c].drop_last() =~= Seq::<char>::empty());
    assert(Seq::<char>::empty().push(c) =~= seq![c]);
    if second.len() == 0 {
        assert(first + second =~= first);
        assert(without_line_breaks(first) + Seq::<char>::empty() =~= without_line_breaks(first));
    } else {
        assert((first + second).drop_last() =~= first + second.drop_last());
        line_breaks_alone_are_taken_out(first, second.drop_last(), c);
        assert(without_line_breaks(first + second) =~= without_line_breaks(first)
            + without_line_breaks(second));
    }
}

/// Two full stops side by side are found wherever they stand between two texts, and nowhere else.
pub proof fn double_dot_is_found_where_it_stands(
    text: Seq<char>,
    before: Seq<char>,
    after: Seq<char>,
)
    ensures
        has_double_dot(before + seq!['.', '.'] + after),
        has_double_dot(text) ==> exists|i: int|
            0 <= i <= text.len() - 2 && #[trigger] text.take(i) + seq!['.', '.'] + text.skip(i + 2)
                == text,
{
    let whole = before + seq!['.', '.'] + after;
    let n = before.len() as int;
    assert(whole[n] == '.' && whole[n + 1] == '.');
    if has_double_dot(text) {
        let i = choose|i: int|
            0 <= i < text.len() - 1 && #[trigger] text[i] == '.' && text[i + 1] == '.';
        assert(text.take(i) + seq!['.', '.'] + text.skip(i + 2) =~= text);
    }
}

/// The number that some decimal digits stand for.
pub open spec fn value_of(digits: Seq<char>) -> int
    decreases digits.len(),
{
    if digits.len() == 0 {
        0
    } else {
        value_of(digits.drop_last()) * 10 + (digits.last() as int - '0' as int)
    }
}

/// A number in decimal is made of decimal digits alone, stands for the number, and starts with a
/// zero only where the number is zero.
pub proof fn decimal_stands_for_the_number(n: nat)
    ensures
        decimal(n).len() > 0,
        forall|i: int| 0 <= i < decimal(n).len() ==> '0' <= #[trigger] decimal(n)[i] <= '9',
        value_of(decimal(n)) == n,
        decimal(n)[0] == '0' <==> n == 0,
    decreases n,
{
    let digits = decimal(n);
    if n < 10 {
        assert(digits.drop_last() =~= Seq::<char>::empty());
        reveal_with_fuel(value_of, 2);
    } else {
        decimal_stands_for_the_number(n / 10);
        assert(digits.drop_last() =~= decimal(n / 10));
        assert(digits[0] == decimal(n / 10)[0]);
        assert forall|i: int| 0 <= i < digits.len() implies '0' <= #[trigger] digits[i] <= '9' by {
            if i < digits.len() - 1 {
                assert(digits[i] == decimal(n / 10)[i]);
            }
        }
    }
}

/// What is said of strings is what they hold, one by one and in order.
pub proof fn strings_are_seen_as_they_are(
    strings: Seq<String>,
    string: Option<String>,
    bytes: Option<Vec<u8>>,
)
    ensures
        texts(strings).len() == strings.len(),
        forall|i: int| 0 <= i < strings.len() ==> #[trigger] texts(strings)[i] == strings[i]@,
        string is Some <==> optional_text(string) is Some,
        string matches Some(s) ==> optional_text(string) == Some(s@),
        bytes is Some <==> optional_bytes(bytes) is Some,
        bytes matches Some(b) ==> optional_bytes(bytes) == Some(b@),
{
}

} // verus!
