//! Text as sequences of characters.

use vstd::prelude::*;
use vstd::std_specs::iter::IteratorSpec;

verus! {

/// The texts of the given strings.
pub open spec fn names_of(texts: Seq<String>) -> Seq<Seq<char>> {
    texts.map_values(|text: String| text@)
}

/// `String::push`: the character is appended to the text.
#[verifier::external_body]
fn push_char(text: &mut String, c: char)
    ensures
        final(text)@ == old(text)@.push(c),
{
    text.push(c)
}

/// The characters of a text.
pub fn chars_of(text: &str) -> (chars: Vec<char>)
    ensures
        chars@ == text@,
{
    let mut chars: Vec<char> = Vec::new();
    let mut rest = text.chars();
    loop
        invariant
            rest.obeys_prophetic_iter_laws(),
            rest.decrease() is Some,
            chars@ + rest.remaining() == text@,
        ensures
            chars@ == text@,
        decreases rest.decrease()->0,
    {
        match rest.next() {
            Some(c) => {
                chars.push(c);
            },
            None => {
                break ;
            },
        }
    }
    chars
}

/// The text made of the given characters.
pub fn text_of(chars: &Vec<char>) -> (text: String)
    ensures
        text@ == chars@,
{
    let mut text = String::new();
    let mut i: usize = 0;
    while i < chars.len()
        invariant
            i <= chars.len(),
            text@ == chars@.take(i as int),
        decreases chars.len() - i,
    {
        push_char(&mut text, chars[i]);
        proof {
            assert(chars@.take(i + 1) == chars@.take(i as int).push(chars@[i as int]));
        }
        i = i + 1;
    }
    proof {
        assert(chars@.take(chars.len() as int) == chars@);
    }
    text
}

/// The digit of the given value, for values below sixteen: `0` to `9`, then `a` to `f`.
pub open spec fn digit(value: int) -> char {
    if value == 0 {
        '0'
    } else if value == 1 {
        '1'
    } else if value == 2 {
        '2'
    } else if value == 3 {
        '3'
    } else if value == 4 {
        '4'
    } else if value == 5 {
        '5'
    } else if value == 6 {
        '6'
    } else if value == 7 {
        '7'
    } else if value == 8 {
        '8'
    } else if value == 9 {
        '9'
    } else if value == 10 {
        'a'
    } else if value == 11 {
        'b'
    } else if value == 12 {
        'c'
    } else if value == 13 {
        'd'
    } else if value == 14 {
        'e'
    } else {
        'f'
    }
}

/// The number in decimal, without sign or leading zeros.
pub open spec fn decimal_text(n: nat) -> Seq<char>
    decreases n,
{
    if n < 10 {
        seq![digit(n as int)]
    } else {
        decimal_text(n / 10).push(digit((n % 10) as int))
    }
}

/// The number in hexadecimal with lower-case digits, without prefix or leading zeros.
pub open spec fn hex_text(n: nat) -> Seq<char>
    decreases n,
{
    if n < 16 {
        seq![digit(n as int)]
    } else {
        hex_text(n / 16).push(digit((n % 16) as int))
    }
}

/// Whether `token` stands in `text` at the position `at`.
pub open spec fn occurs_at(text: Seq<char>, token: Seq<char>, at: int) -> bool {
    0 <= at && at + token.len() <= text.len() && text.subrange(at, at + token.len()) == token
}

/// Whether `token` stands somewhere in `text`.
pub open spec fn contains_token(text: Seq<char>, token: Seq<char>) -> bool {
    exists|at: int| occurs_at(text, token, at)
}

/// The text with every `token` in it replaced, from the left, those that overlap an
/// earlier one left alone. A text is returned as it is where the token is empty.
pub open spec fn replaced(text: Seq<char>, token: Seq<char>, with: Seq<char>) -> Seq<char>
    decreases text.len(),
{
    if token.len() == 0 || text.len() < token.len() {
        text
    } else if occurs_at(text, token, 0) {
        with + replaced(text.skip(token.len() as int), token, with)
    } else {
        seq![text[0]] + replaced(text.skip(1), token, with)
    }
}

/// Whether `text` ends with `suffix`.
pub open spec fn ends_with(text: Seq<char>, suffix: Seq<char>) -> bool {
    suffix.len() <= text.len() && text.skip(text.len() - suffix.len()) == suffix
}

fn digit_of(value: u8) -> (c: char)
    requires
        value < 16,
    ensures
        c == digit(value as int),
{
    match value {
        0 => '0',
        1 => '1',
        2 => '2',
        3 => '3',
        4 => '4',
        5 => '5',
        6 => '6',
        7 => '7',
        8 => '8',
        9 => '9',
        10 => 'a',
        11 => 'b',
        12 => 'c',
        13 => 'd',
        14 => 'e',
        _ => 'f',
    }
}

/// The text of the digits, which come least significant first.
fn text_of_reversed(digits: &Vec<char>) -> (text: String)
    ensures
        text@ == digits@.reverse(),
{
    let mut text = String::new();
    let mut i: usize = digits.len();
    while i > 0
        invariant
            i <= digits.len(),
            text@ == digits@.reverse().take(digits.len() - i),
        decreases i,
    {
        i = i - 1;
        push_char(&mut text, digits[i]);
        proof {
            let reversed = digits@.reverse();
            assert(reversed.take(digits.len() - i) == reversed.take(digits.len() - i - 1).push(
                digits@[i as int],
            ));
        }
    }
    proof {
        assert(digits@.reverse().take(digits.len() as int) == digits@.reverse());
    }
    text
}

/// Writes a number in decimal.
pub fn decimal(n: usize) -> (text: String)
    ensures
        text@ == decimal_text(n as nat),
{
    let mut digits: Vec<char> = Vec::new();
    let mut rest: usize = n;
    while rest >= 10
        invariant
            decimal_text(n as nat) == decimal_text(rest as nat) + digits@.reverse(),
        decreases rest,
    {
        let ghost before = digits@;
        digits.push(digit_of((rest % 10) as u8));
        proof {
            assert(digits@.reverse() == seq![digit((rest % 10) as int)] + before.reverse());
            assert(decimal_text(rest as nat) == decimal_text((rest / 10) as nat).push(
                digit((rest % 10) as int),
            ));
            assert(decimal_text(rest as nat) + before.reverse() == decimal_text(
                (rest / 10) as nat,
            ) + digits@.reverse());
        }
        rest = rest / 10;
    }
    let ghost before = digits@;
    digits.push(digit_of(rest as u8));
    proof {
        assert(digits@.reverse() == seq![digit(rest as int)] + before.reverse());
    }
    text_of_reversed(&digits)
}

/// Writes a number in hexadecimal, with lower-case digits.
pub fn hex(n: u64) -> (text: String)
    ensures
        text@ == hex_text(n as nat),
{
    let mut digits: Vec<char> = Vec::new();
    let mut rest: u64 = n;
    while rest >= 16
        invariant
            hex_text(n as nat) == hex_text(rest as nat) + digits@.reverse(),
        decreases rest,
    {
        let ghost before = digits@;
        digits.push(digit_of((rest % 16) as u8));
        proof {
            assert(digits@.reverse() == seq![digit((rest % 16) as int)] + before.reverse());
            assert(hex_text(rest as nat) == hex_text((rest / 16) as nat).push(
                digit((rest % 16) as int),
            ));
            assert(hex_text(rest as nat) + before.reverse() == hex_text((rest / 16) as nat)
                + digits@.reverse());
        }
        rest = rest / 16;
    }
    let ghost before = digits@;
    digits.push(digit_of(rest as u8));
    proof {
        assert(digits@.reverse() == seq![digit(rest as int)] + before.reverse());
    }
    text_of_reversed(&digits)
}

/// Whether `token` stands in `text` at the position `at`.
fn matches_at(text: &Vec<char>, token: &Vec<char>, at: usize) -> (found: bool)
    ensures
        found == occurs_at(text@, token@, at as int),
{
    if at > text.len() || token.len() > text.len() - at {
        return false;
    }
    let mut j: usize = 0;
    while j < token.len()
        invariant
            j <= token.len(),
            at + token.len() <= text.len(),
            text@.subrange(at as int, at + j) == token@.take(j as int),
        decreases token.len() - j,
    {
        if text[at + j] != token[j] {
            proof {
                let part = text@.subrange(at as int, at + token.len());
                assert(part[j as int] != token@[j as int]);
            }
            return false;
        }
        proof {
            assert(text@.subrange(at as int, at + j + 1) == text@.subrange(at as int, at + j).push(
                text@[at + j],
            ));
            assert(token@.take(j + 1) == token@.take(j as int).push(token@[j as int]));
        }
        j = j + 1;
    }
    proof {
        assert(token@.take(token.len() as int) == token@);
    }
    true
}

/// Tells whether `token` stands somewhere in `text`.
pub fn contains(text: &str, token: &str) -> (found: bool)
    ensures
        found == contains_token(text@, token@),
{
    let chars = chars_of(text);
    let wanted = chars_of(token);
    let mut at: usize = 0;
    while at < chars.len()
        invariant
            at <= chars.len(),
            chars@ == text@,
            wanted@ == token@,
            forall|k: int| 0 <= k < at ==> !occurs_at(text@, token@, k),
        decreases chars.len() - at,
    {
        if matches_at(&chars, &wanted, at) {
            proof {
                assert(occurs_at(text@, token@, at as int));
            }
            return true;
        }
        at = at + 1;
    }
    let found = matches_at(&chars, &wanted, at);
    proof {
        if found {
            assert(occurs_at(text@, token@, at as int));
        } else {
            assert forall|k: int| !occurs_at(text@, token@, k) by {}
        }
    }
    found
}

proof fn lemma_replaced_short(text: Seq<char>, token: Seq<char>, with: Seq<char>)
    requires
        text.len() < token.len(),
    ensures
        replaced(text, token, with) == text,
{
}

/// Replaces every `token` in `text`, from the left; a `token` that overlaps a replaced one
/// stays. Where `token` is empty nothing is replaced.
pub fn replace(text: &str, token: &str, with: &str) -> (result: String)
    ensures
        result@ == replaced(text@, token@, with@),
{
    let chars = chars_of(text);
    let token = chars_of(token);
    let with = chars_of(with);
    if token.len() == 0 {
        return text_of(&chars);
    }
    let mut out: Vec<char> = Vec::new();
    let mut at: usize = 0;
    proof {
        assert(chars@.skip(0) == chars@);
    }
    while at < chars.len()
        invariant
            at <= chars.len(),
            token.len() > 0,
            out@ + replaced(chars@.skip(at as int), token@, with@) == replaced(
                chars@,
                token@,
                with@,
            ),
        decreases chars.len() - at,
    {
        let ghost rest = chars@.skip(at as int);
        let ghost before = out@;
        if matches_at(&chars, &token, at) {
            proof {
                assert(rest.subrange(0, token.len() as int) == chars@.subrange(
                    at as int,
                    at + token.len(),
                ));
                assert(occurs_at(rest, token@, 0));
                assert(rest.skip(token.len() as int) == chars@.skip(at + token.len()));
            }
            let mut j: usize = 0;
            while j < with.len()
                invariant
                    j <= with.len(),
                    out@ == before + with@.take(j as int),
                decreases with.len() - j,
            {
                out.push(with[j]);
                proof {
                    assert(with@.take(j + 1) == with@.take(j as int).push(with@[j as int]));
                }
                j = j + 1;
            }
            proof {
                assert(with@.take(with.len() as int) == with@);
                assert(out@ + replaced(chars@.skip(at + token.len()), token@, with@) == before + (
                with@ + replaced(rest.skip(token.len() as int), token@, with@)));
            }
            at = at + token.len();
        } else {
            proof {
                assert(rest.skip(1) == chars@.skip(at + 1));
                if rest.len() >= token.len() {
                    assert(rest.subrange(0, token.len() as int) == chars@.subrange(
                        at as int,
                        at + token.len(),
                    ));
                    assert(!occurs_at(rest, token@, 0));
                } else {
                    lemma_replaced_short(rest, token@, with@);
                    lemma_replaced_short(rest.skip(1), token@, with@);
                    assert(rest == seq![rest[0]] + rest.skip(1));
                }
                assert(replaced(rest, token@, with@) == seq![rest[0]] + replaced(
                    rest.skip(1),
                    token@,
                    with@,
                ));
            }
            out.push(chars[at]);
            proof {
                assert(out@ + replaced(chars@.skip(at + 1), token@, with@) == before + (seq![
                    rest[0],
                ] + replaced(rest.skip(1), token@, with@)));
            }
            at = at + 1;
        }
    }
    proof {
        lemma_replaced_short(chars@.skip(at as int), token@, with@);
        assert(out@ + chars@.skip(at as int) == out@);
    }
    text_of(&out)
}

/// Takes `suffix` off the end of `text`; a text that does not end with it is returned as
/// it is.
pub fn strip_suffix(text: &str, suffix: &str) -> (result: String)
    ensures
        result@ == (if ends_with(text@, suffix@) {
            text@.take(text@.len() - suffix@.len())
        } else {
            text@
        }),
{
    let chars = chars_of(text);
    let suffix = chars_of(suffix);
    if suffix.len() > chars.len() {
        return text_of(&chars);
    }
    let keep = chars.len() - suffix.len();
    proof {
        assert(chars@.skip(keep as int) == chars@.subrange(keep as int, keep + suffix.len()));
    }
    if !matches_at(&chars, &suffix, keep) {
        return text_of(&chars);
    }
    let mut kept: Vec<char> = Vec::new();
    let mut i: usize = 0;
    while i < keep
        invariant
            i <= keep <= chars.len(),
            kept@ == chars@.take(i as int),
        decreases keep - i,
    {
        kept.push(chars[i]);
        proof {
            assert(chars@.take(i + 1) == chars@.take(i as int).push(chars@[i as int]));
        }
        i = i + 1;
    }
    text_of(&kept)
}

/// Whether the character is white space.
pub open spec fn is_space(c: char) -> bool {
    ||| c == '\u{9}'
    ||| c == '\u{a}'
    ||| c == '\u{b}'
    ||| c == '\u{c}'
    ||| c == '\u{d}'
    ||| c == '\u{20}'
    ||| c == '\u{85}'
    ||| c == '\u{a0}'
    ||| c == '\u{1680}'
    ||| c == '\u{2000}'
    ||| c == '\u{2001}'
    ||| c == '\u{2002}'
    ||| c == '\u{2003}'
    ||| c == '\u{2004}'
    ||| c == '\u{2005}'
    ||| c == '\u{2006}'
    ||| c == '\u{2007}'
    ||| c == '\u{2008}'
    ||| c == '\u{2009}'
    ||| c == '\u{200a}'
    ||| c == '\u{2028}'
    ||| c == '\u{2029}'
    ||| c == '\u{202f}'
    ||| c == '\u{205f}'
    ||| c == '\u{3000}'
}

/// The text without the white space at its start.
pub open spec fn trimmed_start(text: Seq<char>) -> Seq<char>
    decreases text.len(),
{
    if text.len() > 0 && is_space(text.first()) {
        trimmed_start(text.drop_first())
    } else {
        text
    }
}

/// The text without the white space at its end.
pub open spec fn trimmed_end(text: Seq<char>) -> Seq<char>
    decreases text.len(),
{
    if text.len() > 0 && is_space(text.last()) {
        trimmed_end(text.drop_last())
    } else {
        text
    }
}

/// The text without the white space at its start and at its end.
pub open spec fn trimmed(text: Seq<char>) -> Seq<char> {
    trimmed_end(trimmed_start(text))
}

/// The value of a decimal digit, and `None` for any other character.
pub open spec fn digit_value(c: char) -> Option<nat> {
    if c == '0' {
        Some(0)
    } else if c == '1' {
        Some(1)
    } else if c == '2' {
        Some(2)
    } else if c == '3' {
        Some(3)
    } else if c == '4' {
        Some(4)
    } else if c == '5' {
        Some(5)
    } else if c == '6' {
        Some(6)
    } else if c == '7' {
        Some(7)
    } else if c == '8' {
        Some(8)
    } else if c == '9' {
        Some(9)
    } else {
        None
    }
}

/// Whether the text holds decimal digits and nothing else.
pub open spec fn all_digits(text: Seq<char>) -> bool {
    forall|i: int| 0 <= i < text.len() ==> (#[trigger] digit_value(text[i])) is Some
}

/// The number that a text of decimal digits stands for.
pub open spec fn number_of(digits: Seq<char>) -> nat
    decreases digits.len(),
{
    if digits.len() == 0 {
        0
    } else {
        number_of(digits.drop_last()) * 10 + digit_value(digits.last()).unwrap_or(0)
    }
}

/// The number that a text stands for: the text is one or more decimal digits, with or
/// without a `+` in front. Any other text stands for no number.
pub open spec fn parsed_number(text: Seq<char>) -> Option<nat> {
    let digits = if text.len() > 0 && text.first() == '+' {
        text.drop_first()
    } else {
        text
    };
    if digits.len() > 0 && all_digits(digits) {
        Some(number_of(digits))
    } else {
        None
    }
}

fn space(c: char) -> (yes: bool)
    ensures
        yes == is_space(c),
{
    match c {
        '\u{9}' | '\u{a}' | '\u{b}' | '\u{c}' | '\u{d}' | '\u{20}' | '\u{85}' | '\u{a0}' => true,
        '\u{1680}' | '\u{2000}' | '\u{2001}' | '\u{2002}' | '\u{2003}' | '\u{2004}' => true,
        '\u{2005}' | '\u{2006}' | '\u{2007}' | '\u{2008}' | '\u{2009}' | '\u{200a}' => true,
        '\u{2028}' | '\u{2029}' | '\u{202f}' | '\u{205f}' | '\u{3000}' => true,
        _ => false,
    }
}

fn value_of(c: char) -> (value: Option<u8>)
    ensures
        match value {
            Some(v) => digit_value(c) == Some(v as nat),
            None => digit_value(c) is None,
        },
{
    match c {
        '0' => Some(0),
        '1' => Some(1),
        '2' => Some(2),
        '3' => Some(3),
        '4' => Some(4),
        '5' => Some(5),
        '6' => Some(6),
        '7' => Some(7),
        '8' => Some(8),
        '9' => Some(9),
        _ => None,
    }
}

proof fn lemma_trimmed_start_skip(text: Seq<char>, n: int)
    requires
        0 <= n <= text.len(),
        forall|i: int| 0 <= i < n ==> is_space(text[i]),
    ensures
        trimmed_start(text) == trimmed_start(text.skip(n)),
    decreases n,
{
    if n > 0 {
        assert(text.drop_first().skip(n - 1) == text.skip(n));
        lemma_trimmed_start_skip(text.drop_first(), n - 1);
    } else {
        assert(text.skip(0) == text);
    }
}

proof fn lemma_trimmed_end_take(text: Seq<char>, n: int)
    requires
        0 <= n <= text.len(),
        forall|i: int| n <= i < text.len() ==> is_space(text[i]),
    ensures
        trimmed_end(text) == trimmed_end(text.take(n)),
    decreases text.len() - n,
{
    if n < text.len() {
        assert(text.drop_last().take(n) == text.take(n));
        lemma_trimmed_end_take(text.drop_last(), n);
    } else {
        assert(text.take(n) == text);
    }
}

/// Takes the white space off both ends of a text.
pub fn trim(text: &str) -> (result: String)
    ensures
        result@ == trimmed(text@),
{
    let chars = chars_of(text);
    let mut start: usize = 0;
    while start < chars.len() && space(chars[start])
        invariant
            start <= chars.len(),
            forall|i: int| 0 <= i < start ==> is_space(chars@[i]),
        decreases chars.len() - start,
    {
        start = start + 1;
    }
    let mut end: usize = chars.len();
    while end > start && space(chars[end - 1])
        invariant
            start <= end <= chars.len(),
            forall|i: int| end <= i < chars.len() ==> is_space(chars@[i]),
        decreases end,
    {
        end = end - 1;
    }
    let mut kept: Vec<char> = Vec::new();
    let mut i: usize = start;
    while i < end
        invariant
            start <= i <= end <= chars.len(),
            kept@ == chars@.subrange(start as int, i as int),
        decreases end - i,
    {
        kept.push(chars[i]);
        proof {
            assert(chars@.subrange(start as int, i + 1) == chars@.subrange(
                start as int,
                i as int,
            ).push(chars@[i as int]));
        }
        i = i + 1;
    }
    proof {
        let tail = chars@.skip(start as int);
        lemma_trimmed_start_skip(chars@, start as int);
        assert(trimmed_start(chars@) == tail);
        assert(tail.take(end - start) == kept@);
        assert forall|i: int| end - start <= i < tail.len() implies is_space(tail[i]) by {
            assert(tail[i] == chars@[i + start]);
        }
        lemma_trimmed_end_take(tail, end - start);
        if kept@.len() > 0 {
            assert(kept@.last() == chars@[end - 1]);
        }
        assert(trimmed_end(kept@) == kept@);
    }
    text_of(&kept)
}

proof fn lemma_number_of_prefix(digits: Seq<char>, n: int)
    requires
        0 <= n <= digits.len(),
    ensures
        number_of(digits.take(n)) <= number_of(digits),
    decreases digits.len() - n,
{
    if n < digits.len() {
        lemma_number_of_prefix(digits, n + 1);
        assert(digits.take(n + 1).drop_last() == digits.take(n));
    } else {
        assert(digits.take(n) == digits);
    }
}

/// Reads a number: one or more decimal digits, with or without a `+` in front. Any other
/// text gives `None`, and so does a number too large for `usize`.
pub fn parse_usize(text: &str) -> (number: Option<usize>)
    ensures
        number == (match parsed_number(text@) {
            Some(value) => if value <= usize::MAX {
                Some(value as usize)
            } else {
                None
            },
            None => None,
        }),
{
    let chars = chars_of(text);
    let start: usize = if chars.len() > 0 && chars[0] == '+' {
        1
    } else {
        0
    };
    let ghost digits = chars@.skip(start as int);
    let ghost unsigned = if text@.len() > 0 && text@.first() == '+' {
        text@.drop_first()
    } else {
        text@
    };
    proof {
        assert(chars@.skip(0) == chars@);
        if chars.len() > 0 {
            assert(chars@.drop_first() == chars@.skip(1));
        }
        assert(digits == unsigned);
    }
    if start == chars.len() {
        return None;
    }
    let mut value: usize = 0;
    let mut i: usize = start;
    while i < chars.len()
        invariant
            start <= i <= chars.len(),
            digits == chars@.skip(start as int),
            digits.len() > 0,
            digits == (if text@.len() > 0 && text@.first() == '+' {
                text@.drop_first()
            } else {
                text@
            }),
            all_digits(digits.take(i - start)),
            value == number_of(digits.take(i - start)),
        decreases chars.len() - i,
    {
        let ghost k = i - start;
        proof {
            assert(digits[k] == chars@[i as int]);
            assert(digits.take(k + 1).drop_last() == digits.take(k));
            assert(digits.take(k + 1).last() == digits[k]);
        }
        match value_of(chars[i]) {
            None => {
                proof {
                    assert(digit_value(digits[k]) is None);
                }
                return None;
            },
            Some(d) => {
                if value > (usize::MAX - d as usize) / 10 {
                    proof {
                        if all_digits(digits) {
                            lemma_number_of_prefix(digits, k + 1);
                        }
                    }
                    return None;
                }
                value = value * 10 + d as usize;
                proof {
                    assert forall|j: int| 0 <= j < k + 1 implies (#[trigger] digit_value(
                        digits.take(k + 1)[j],
                    )) is Some by {
                        if j < k {
                            assert(digits.take(k + 1)[j] == digits.take(k)[j]);
                        }
                    }
                }
            },
        }
        i = i + 1;
    }
    proof {
        assert(digits.take(chars.len() - start) == digits);
    }
    Some(value)
}

/// The path of an entry of a directory: the name alone where the directory is the empty
/// path, and else the directory, a `/` unless it ends with one, and the name.
pub open spec fn joined_path(dir: Seq<char>, name: Seq<char>) -> Seq<char> {
    if dir.len() == 0 {
        name
    } else if dir.last() == '/' {
        dir + name
    } else {
        dir + seq!['/'] + name
    }
}

/// Makes the path of an entry of a directory. The name is a relative path.
pub fn join_path(dir: &str, name: &str) -> (path: String)
    ensures
        path@ == joined_path(dir@, name@),
{
    let mut chars = chars_of(dir);
    let tail = chars_of(name);
    if chars.len() > 0 && chars[chars.len() - 1] != '/' {
        chars.push('/');
    }
    let ghost head = chars@;
    let mut i: usize = 0;
    while i < tail.len()
        invariant
            i <= tail.len(),
            chars@ == head + tail@.take(i as int),
        decreases tail.len() - i,
    {
        chars.push(tail[i]);
        proof {
            assert(tail@.take(i + 1) == tail@.take(i as int).push(tail@[i as int]));
        }
        i = i + 1;
    }
    proof {
        assert(tail@.take(tail.len() as int) == tail@);
        assert(chars@ =~= joined_path(dir@, name@));
    }
    text_of(&chars)
}

/// A number written in decimal reads back as itself.
pub proof fn lemma_decimal_text_reads_back(n: nat)
    ensures
        parsed_number(decimal_text(n)) == Some(n),
        all_digits(decimal_text(n)),
        number_of(decimal_text(n)) == n,
        decimal_text(n).len() > 0,
        decimal_text(n).first() != '+',
    decreases n,
{
    let text = decimal_text(n);
    if n < 10 {
        assert(text.drop_last() == Seq::<char>::empty());
        assert(number_of(text.drop_last()) == 0);
        assert(text.last() == digit(n as int));
    } else {
        lemma_decimal_text_reads_back(n / 10);
        let front = decimal_text(n / 10);
        assert(text.drop_last() == front);
        assert(text.last() == digit((n % 10) as int));
        assert(text.first() == front.first());
        assert forall|i: int| 0 <= i < text.len() implies (#[trigger] digit_value(text[i])) is Some by {
            if i < front.len() {
                assert(text[i] == front[i]);
            }
        }
    }
}

/// The value of a hexadecimal digit in lower case, and 0 for any other character.
pub open spec fn hex_digit_value(c: char) -> nat {
    if c == '1' {
        1
    } else if c == '2' {
        2
    } else if c == '3' {
        3
    } else if c == '4' {
        4
    } else if c == '5' {
        5
    } else if c == '6' {
        6
    } else if c == '7' {
        7
    } else if c == '8' {
        8
    } else if c == '9' {
        9
    } else if c == 'a' {
        10
    } else if c == 'b' {
        11
    } else if c == 'c' {
        12
    } else if c == 'd' {
        13
    } else if c == 'e' {
        14
    } else if c == 'f' {
        15
    } else {
        0
    }
}

/// The number that a text of hexadecimal digits stands for.
pub open spec fn hex_value(digits: Seq<char>) -> nat
    decreases digits.len(),
{
    if digits.len() == 0 {
        0
    } else {
        hex_value(digits.drop_last()) * 16 + hex_digit_value(digits.last())
    }
}

/// A number written in hexadecimal reads back as itself.
pub proof fn lemma_hex_text_reads_back(n: nat)
    ensures
        hex_value(hex_text(n)) == n,
        hex_text(n).len() > 0,
    decreases n,
{
    if n < 16 {
        let text = hex_text(n);
        assert(text.drop_last() == Seq::<char>::empty());
        assert(hex_value(text.drop_last()) == 0);
        assert(text.last() == digit(n as int));
    } else {
        lemma_hex_text_reads_back(n / 16);
        let text = hex_text(n);
        assert(text.drop_last() == hex_text(n / 16));
        assert(text.last() == digit((n % 16) as int));
    }
}

/// Different numbers are written differently in hexadecimal.
pub proof fn lemma_hex_text_is_injective(a: nat, b: nat)
    ensures
        hex_text(a) == hex_text(b) <==> a == b,
{
    lemma_hex_text_reads_back(a);
    lemma_hex_text_reads_back(b);
}

} // verus!
