//! Names of wells: a coordinate written in capital letters, `A` for 1 up to
//! `Z` for 26, then `AA` for 27 and so on, and a coordinate written in
//! decimal digits.
//!
//! The letters are a base-26 numeral without a zero digit, so every positive
//! number has exactly one name and every name one number.

use vstd::prelude::*;
use vstd::string::StringExecFns;

verus! {

/// Whether `c` is one of the capital letters `A` to `Z`.
pub open spec fn is_letter(c: char) -> bool {
    'A' <= c <= 'Z'
}

/// The value of a letter: 1 for `A` up to 26 for `Z`.
pub open spec fn letter_value(c: char) -> int {
    c as u32 - 64
}

/// The letter with the given value, 1 to 26.
pub open spec fn letter(v: int) -> char {
    (64 + v) as u8 as char
}

/// Whether `s` holds capital letters only.
pub open spec fn all_letters(s: Seq<char>) -> bool {
    forall|i: int| 0 <= i < s.len() ==> is_letter(#[trigger] s[i])
}

/// The number that a sequence of letters stands for; nothing stands for 0.
pub open spec fn letters_value(s: Seq<char>) -> int
    decreases s.len(),
{
    if s.len() == 0 {
        0
    } else {
        26 * letters_value(s.drop_last()) + letter_value(s.last())
    }
}

/// The letters that stand for `n`, none for a number below 1.
pub open spec fn letters_of(n: int) -> Seq<char>
    decreases n,
{
    if n <= 0 {
        Seq::empty()
    } else {
        letters_of((n - 1) / 26).push(letter((n - 1) % 26 + 1))
    }
}

/// What a sequence of characters reads as: the number its letters stand
/// for, if they are all capital letters and the number is a coordinate.
pub open spec fn decoded(s: Seq<char>) -> Option<u8> {
    if all_letters(s) && letters_value(s) <= 255 {
        Some(letters_value(s) as u8)
    } else {
        None
    }
}

/// How a coordinate is written in letters; 0 is not written.
pub open spec fn encoded(n: u8) -> Option<Seq<char>> {
    if n == 0 {
        None
    } else {
        Some(letters_of(n as int))
    }
}

/// A name that starts with `p` stands for no less than `p`, where the
/// longer name holds letters only.
pub proof fn lemma_letters_value_grows(s: Seq<char>, k: int)
    requires
        all_letters(s),
        0 <= k <= s.len(),
    ensures
        0 <= letters_value(s.take(k)) <= letters_value(s),
    decreases s.len() - k,
{
    if k == s.len() {
        assert(s.take(k) =~= s);
        lemma_letters_value_nonnegative(s);
    } else {
        lemma_letters_value_grows(s, k + 1);
        let longer = s.take(k + 1);
        assert(longer.drop_last() =~= s.take(k));
        assert(is_letter(s[k]));
        assert(longer.last() == s[k]);
        lemma_letters_value_nonnegative(s.take(k));
    }
}

/// Letters stand for a number that is not negative.
pub proof fn lemma_letters_value_nonnegative(s: Seq<char>)
    requires
        all_letters(s),
    ensures
        0 <= letters_value(s),
        s.len() > 0 ==> 1 <= letters_value(s),
    decreases s.len(),
{
    if s.len() > 0 {
        assert(is_letter(s.last()));
        assert(all_letters(s.drop_last())) by {
            assert forall|i: int| 0 <= i < s.drop_last().len() implies is_letter(
                #[trigger] s.drop_last()[i],
            ) by {
                assert(s.drop_last()[i] == s[i]);
            }
        }
        lemma_letters_value_nonnegative(s.drop_last());
    }
}

/// Writing a positive number in letters and reading the letters gives the
/// number back.
pub proof fn lemma_letters_round_trip(n: int)
    requires
        n >= 1,
    ensures
        all_letters(letters_of(n)),
        letters_of(n).len() >= 1,
        letters_value(letters_of(n)) == n,
    decreases n,
{
    let head = (n - 1) / 26;
    let last = (n - 1) % 26 + 1;
    let name = letters_of(n);
    assert(name.drop_last() =~= letters_of(head));
    assert(name.last() == letter(last));
    assert(letter_value(letter(last)) == last && is_letter(letter(last))) by {
        assert(1 <= last <= 26);
        assert((64 + last) as u8 == 64 + last);
    }
    if head >= 1 {
        lemma_letters_round_trip(head);
    } else {
        assert(letters_value(letters_of(head)) == 0);
    }
    assert(name.len() >= 1);
    assert(letters_value(name) == 26 * letters_value(name.drop_last()) + letter_value(
        name.last(),
    ));
    assert forall|i: int| 0 <= i < name.len() implies is_letter(#[trigger] name[i]) by {
        if i < name.len() - 1 {
            assert(name[i] == letters_of(head)[i]);
        }
    }
}

/// Reading letters and writing the number they stand for gives the letters
/// back.
pub proof fn lemma_letters_unique(s: Seq<char>)
    requires
        all_letters(s),
    ensures
        letters_of(letters_value(s)) == s,
    decreases s.len(),
{
    if s.len() == 0 {
        assert(letters_of(0) =~= s);
    } else {
        let v = letter_value(s.last());
        assert(is_letter(s.last()));
        assert(1 <= v <= 26);
        assert(all_letters(s.drop_last())) by {
            assert forall|i: int| 0 <= i < s.drop_last().len() implies is_letter(
                #[trigger] s.drop_last()[i],
            ) by {
                assert(s.drop_last()[i] == s[i]);
            }
        }
        lemma_letters_unique(s.drop_last());
        lemma_letters_value_nonnegative(s.drop_last());
        let head = letters_value(s.drop_last());
        let n = letters_value(s);
        assert(n == 26 * head + v);
        assert((n - 1) / 26 == head && (n - 1) % 26 == v - 1) by {
            vstd::arithmetic::div_mod::lemma_fundamental_div_mod_converse(n - 1, 26, head, v - 1);
        }
        assert(letter(v) == s.last()) by {
            assert((64 + v) as u8 == s.last() as u32);
        }
        assert(letters_of(n) =~= s);
    }
}

/// Every coordinate from 1 on is written in letters that read as that
/// coordinate, and whatever reads as a coordinate from 1 on is how that
/// coordinate is written.
pub proof fn lemma_codec_round_trip(n: u8, s: Seq<char>)
    ensures
        n >= 1 ==> encoded(n) is Some && decoded(encoded(n).unwrap()) == Some(n),
        decoded(s) matches Some(m) ==> (m >= 1 ==> encoded(m) == Some(s)),
{
    if n >= 1 {
        lemma_letters_round_trip(n as int);
    }
    if all_letters(s) {
        lemma_letters_unique(s);
    }
}

/// Writes a coordinate in letters. There are no letters for 0.
pub fn num_to_letters(num: u8) -> (r: Option<String>)
    ensures
        match r {
            Some(text) => encoded(num) == Some(text@),
            None => encoded(num) is None,
        },
{
    if num == 0 {
        return None;
    }
    let mut text = String::new();
    let head: u8 = (num - 1) / 26;
    let last: u8 = (num - 1) % 26 + 1;
    proof {
        assert(letters_of(0) =~= Seq::<char>::empty());
        assert(head >= 1 ==> (head - 1) / 26 == 0 && (head - 1) % 26 + 1 == head);
        assert(head >= 1 ==> letters_of(head as int) =~= seq![letter(head as int)]);
    }
    if head != 0 {
        text.push((64 + head) as char);
    }
    text.push((64 + last) as char);
    assert(text@ =~= letters_of(num as int));
    Some(text)
}

/// Reads a coordinate written in letters. Text that holds anything but
/// capital letters, or that stands for more than 255, reads as nothing;
/// the empty text reads as 0.
pub fn letters_to_num(letters: &str) -> (r: Option<u8>)
    ensures
        r == decoded(letters@),
{
    let len = letters.unicode_len();
    let mut num: u32 = 0;
    let mut k: usize = 0;
    while k < len
        invariant
            len == letters@.len(),
            k <= len,
            all_letters(letters@.take(k as int)),
            num == letters_value(letters@.take(k as int)),
            num <= 255,
        decreases len - k,
    {
        let c = letters.get_char(k);
        proof {
            assert(letters@.take(k + 1).drop_last() =~= letters@.take(k as int));
            assert(letters@.take(k + 1).last() == c);
        }
        if c < 'A' || c > 'Z' {
            assert(!all_letters(letters@)) by {
                assert(letters@[k as int] == c);
            }
            return None;
        }
        let grown: u32 = 26 * num + (c as u32 - 64);
        if grown > 255 {
            proof {
                if all_letters(letters@) {
                    lemma_letters_value_grows(letters@, k + 1);
                }
            }
            return None;
        }
        proof {
            assert forall|i: int| 0 <= i < letters@.take(k + 1).len() implies is_letter(
                #[trigger] letters@.take(k + 1)[i],
            ) by {
                if i < k {
                    assert(letters@.take(k + 1)[i] == letters@.take(k as int)[i]);
                }
            }
        }
        num = grown;
        k = k + 1;
    }
    assert(letters@.take(k as int) =~= letters@);
    Some(num as u8)
}

/// Whether `c` is one of the digits `0` to `9`.
pub open spec fn is_digit(c: char) -> bool {
    '0' <= c <= '9'
}

/// The value of a digit.
pub open spec fn digit_value(c: char) -> int {
    c as u32 - 48
}

/// The digit with the given value, 0 to 9.
pub open spec fn digit(v: int) -> char {
    (48 + v) as u8 as char
}

/// Whether `s` holds digits only.
pub open spec fn all_digits(s: Seq<char>) -> bool {
    forall|i: int| 0 <= i < s.len() ==> is_digit(#[trigger] s[i])
}

/// The number that a sequence of digits stands for in base ten.
pub open spec fn digits_value(s: Seq<char>) -> int
    decreases s.len(),
{
    if s.len() == 0 {
        0
    } else {
        10 * digits_value(s.drop_last()) + digit_value(s.last())
    }
}

/// The digits of `n` in base ten, without leading zeros.
pub open spec fn digits_of(n: int) -> Seq<char>
    decreases n,
{
    if n < 10 {
        seq![digit(n)]
    } else {
        digits_of(n / 10).push(digit(n % 10))
    }
}

/// What a sequence of characters reads as in base ten: an optional plus
/// sign and then at least one digit, leading zeros allowed, standing for a
/// number that is a coordinate.
pub open spec fn parsed(s: Seq<char>) -> Option<u8> {
    let body = if s.len() > 0 && s[0] == '+' {
        s.drop_first()
    } else {
        s
    };
    if body.len() > 0 && all_digits(body) && digits_value(body) <= 255 {
        Some(digits_value(body) as u8)
    } else {
        None
    }
}

/// Digits stand for a number that is not negative, and a sequence of digits
/// that starts with `p` stands for no less than `p`.
pub proof fn lemma_digits_value_grows(s: Seq<char>, k: int)
    requires
        all_digits(s),
        0 <= k <= s.len(),
    ensures
        0 <= digits_value(s.take(k)) <= digits_value(s),
    decreases s.len(), s.len() - k,
{
    if k == s.len() {
        assert(s.take(k) =~= s);
        if s.len() > 0 {
            assert(is_digit(s.last()));
            assert(s.drop_last() =~= s.take(s.len() - 1));
            assert(all_digits(s.drop_last())) by {
                assert forall|i: int| 0 <= i < s.drop_last().len() implies is_digit(
                    #[trigger] s.drop_last()[i],
                ) by {
                    assert(s.drop_last()[i] == s[i]);
                }
            }
            lemma_digits_value_grows(s.drop_last(), s.len() - 1);
            assert(s.drop_last().take(s.len() - 1) =~= s.drop_last());
        }
    } else {
        lemma_digits_value_grows(s, k + 1);
        let longer = s.take(k + 1);
        assert(longer.drop_last() =~= s.take(k));
        assert(is_digit(s[k]));
        assert(longer.last() == s[k]);
        assert(all_digits(s.take(k))) by {
            assert forall|i: int| 0 <= i < s.take(k).len() implies is_digit(
                #[trigger] s.take(k)[i],
            ) by {
                assert(s.take(k)[i] == s[i]);
            }
        }
        if k > 0 {
            lemma_digits_value_grows(s.take(k), k);
            assert(s.take(k).take(k) =~= s.take(k));
        }
    }
}

/// Writing a number in digits and reading the digits gives the number back.
pub proof fn lemma_digits_round_trip(n: int)
    requires
        n >= 0,
    ensures
        all_digits(digits_of(n)),
        digits_of(n).len() >= 1,
        digits_of(n)[0] != '+',
        digits_value(digits_of(n)) == n,
    decreases n,
{
    let text = digits_of(n);
    assert(is_digit(digit(n % 10)) && digit_value(digit(n % 10)) == n % 10) by {
        assert((48 + n % 10) as u8 == 48 + n % 10);
    }
    if n < 10 {
        assert(text.drop_last() =~= Seq::<char>::empty());
        assert(digits_value(text.drop_last()) == 0);
        assert(text.last() == digit(n));
    } else {
        lemma_digits_round_trip(n / 10);
        assert(text.drop_last() =~= digits_of(n / 10));
        assert(text.last() == digit(n % 10));
        assert(text[0] == digits_of(n / 10)[0]);
        assert forall|i: int| 0 <= i < text.len() implies is_digit(#[trigger] text[i]) by {
            if i < text.len() - 1 {
                assert(text[i] == digits_of(n / 10)[i]);
            }
        }
    }
    assert(digits_value(text) == 10 * digits_value(text.drop_last()) + digit_value(text.last()));
}

/// Every coordinate is written in digits that read as that coordinate.
pub proof fn lemma_decimal_round_trip(n: u8)
    ensures
        parsed(digits_of(n as int)) == Some(n),
{
    lemma_digits_round_trip(n as int);
}

/// Reads a coordinate written in decimal digits, as `str::parse` does for
/// `u8`: an optional plus sign, then digits that stand for at most 255.
pub fn read_decimal(text: &str) -> (r: Option<u8>)
    ensures
        r == parsed(text@),
{
    let len = text.unicode_len();
    if len == 0 {
        return None;
    }
    let start: usize = if text.get_char(0) == '+' { 1 } else { 0 };
    if start == len {
        return None;
    }
    let ghost body = if text@[0] == '+' {
        text@.drop_first()
    } else {
        text@
    };
    assert(body =~= text@.subrange(start as int, len as int));
    let mut num: u32 = 0;
    let mut k: usize = start;
    while k < len
        invariant
            len == text@.len(),
            start <= k <= len,
            len > 0,
            body == text@.subrange(start as int, len as int),
            body == if text@[0] == '+' {
                text@.drop_first()
            } else {
                text@
            },
            all_digits(body.take(k - start)),
            num == digits_value(body.take(k - start)),
            num <= 255,
        decreases len - k,
    {
        let c = text.get_char(k);
        proof {
            assert(body[k - start] == c);
            assert(body.take(k - start + 1).drop_last() =~= body.take(k - start));
            assert(body.take(k - start + 1).last() == c);
        }
        if c < '0' || c > '9' {
            return None;
        }
        let grown: u32 = 10 * num + (c as u32 - 48);
        proof {
            assert forall|i: int| 0 <= i < body.take(k - start + 1).len() implies is_digit(
                #[trigger] body.take(k - start + 1)[i],
            ) by {
                if i < k - start {
                    assert(body.take(k - start + 1)[i] == body.take(k - start)[i]);
                }
            }
        }
        if grown > 255 {
            proof {
                if all_digits(body) {
                    lemma_digits_value_grows(body, k - start + 1);
                }
            }
            return None;
        }
        num = grown;
        k = k + 1;
    }
    assert(body.take(k - start) =~= body);
    Some(num as u8)
}

/// Writes a coordinate in decimal digits, without leading zeros.
pub fn write_decimal(n: u8) -> (text: String)
    ensures
        text@ == digits_of(n as int),
{
    let mut text = String::new();
    if n >= 100 {
        text.push((48 + n / 100) as char);
    }
    if n >= 10 {
        text.push((48 + (n / 10) % 10) as char);
    }
    text.push((48 + n % 10) as char);
    proof {
        let n = n as int;
        if n >= 100 {
            assert(digits_of(n / 100) =~= seq![digit(n / 100)]);
            assert(digits_of(n / 10) =~= seq![digit(n / 100), digit((n / 10) % 10)]);
        } else if n >= 10 {
            assert(digits_of(n / 10) =~= seq![digit(n / 10)]);
        }
        assert(text@ =~= digits_of(n));
    }
    text
}

/// How a well is named: the first coordinate in letters, then the second
/// in digits. A well whose first coordinate is 0 has no name.
pub open spec fn well_label(well: (u8, u8)) -> Option<Seq<char>> {
    if well.0 == 0 {
        None
    } else {
        Some(letters_of(well.0 as int) + digits_of(well.1 as int))
    }
}

/// Names a well: the first coordinate in letters, then the second in
/// digits.
pub fn well_name(well: (u8, u8)) -> (r: Option<String>)
    ensures
        r.deep_view() == well_label(well),
{
    match num_to_letters(well.0) {
        Some(mut text) => {
            let digits = write_decimal(well.1);
            text.append(digits.as_str());
            Some(text)
        },
        None => None,
    }
}

} // verus!
