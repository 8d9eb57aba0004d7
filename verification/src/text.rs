//! The text operations that messages and configuration values need, each with its meaning as a
//! function on sequences of characters.

use vstd::prelude::*;

verus! {

broadcast use vstd::string::axiom_spec_iter;

/// The characters of `s`, in order.
pub fn characters(s: &str) -> (chars: Vec<char>)
    ensures
        chars@ == s@,
{
    let mut chars: Vec<char> = Vec::new();
    for c in it: s.chars()
        invariant
            chars@ == it.seq().take(it.index() as int),
            it.seq() == s@,
    {
        chars.push(c);
        assert(it.seq().take(it.index() as int + 1) == it.seq().take(it.index() as int).push(c));
    }
    assert(s@.take(s@.len() as int) == s@);
    chars
}

/// Whether the two texts are the same.
pub fn same_text(a: &str, b: &str) -> (same: bool)
    ensures
        same == (a@ == b@),
{
    a.to_owned() == b.to_owned()
}

/// The text of one decimal digit.
fn digit_text(d: u64) -> (text: &'static str)
    requires
        d < 10,
    ensures
        text@ == seq![digit_char(d as nat)],
{
    proof {
        reveal_strlit("0");
        reveal_strlit("1");
        reveal_strlit("2");
        reveal_strlit("3");
        reveal_strlit("4");
        reveal_strlit("5");
        reveal_strlit("6");
        reveal_strlit("7");
        reveal_strlit("8");
        reveal_strlit("9");
    }
    match d {
        0 => "0",
        1 => "1",
        2 => "2",
        3 => "3",
        4 => "4",
        5 => "5",
        6 => "6",
        7 => "7",
        8 => "8",
        _ => "9",
    }
}

/// The character that stands for the digit `d`.
pub open spec fn digit_char(d: nat) -> char {
    ('0' as nat + d) as char
}

/// The decimal numeral of `n`, without leading zeros.
pub open spec fn decimal(n: nat) -> Seq<char>
    decreases n,
{
    if n < 10 {
        seq![digit_char(n)]
    } else {
        decimal(n / 10).push(digit_char(n % 10))
    }
}

/// Writes `n` in decimal.
pub fn decimal_text(n: u64) -> (text: String)
    ensures
        text@ == decimal(n as nat),
    decreases n,
{
    if n < 10 {
        digit_text(n).to_owned()
    } else {
        let text = decimal_text(n / 10).concat(digit_text(n % 10));
        assert(text@ == decimal(n as nat));
        text
    }
}

/// Whether `needle` occurs in `haystack` as a run of consecutive characters.
pub open spec fn occurs_in(needle: Seq<char>, haystack: Seq<char>) -> bool {
    exists|at: int| #[trigger] occurs_at(needle, haystack, at)
}

/// Whether `needle` occurs in `haystack` from position `at` on.
pub open spec fn occurs_at(needle: Seq<char>, haystack: Seq<char>, at: int) -> bool {
    0 <= at && at + needle.len() <= haystack.len() && haystack.subrange(at, at + needle.len())
        == needle
}

/// Whether `needle` occurs somewhere in `haystack`.
pub fn contains_text(haystack: &str, needle: &str) -> (found: bool)
    ensures
        found == occurs_in(needle@, haystack@),
{
    let h = characters(haystack);
    let n = characters(needle);
    if n.len() > h.len() {
        return false;
    }
    let last: usize = h.len() - n.len();
    let mut at: usize = 0;
    while at <= last
        invariant
            h@ == haystack@,
            n@ == needle@,
            last == h.len() - n.len(),
            at <= last + 1,
            forall|k: int| 0 <= k < at ==> !occurs_at(needle@, haystack@, k),
        decreases last + 1 - at,
    {
        let mut len: usize = 0;
        while len < n.len() && h[at + len] == n[len]
            invariant
                h@ == haystack@,
                n@ == needle@,
                last == h.len() - n.len(),
                at <= last,
                len <= n.len(),
                forall|k: int| 0 <= k < len ==> h@[at + k] == n@[k],
            decreases n.len() - len,
        {
            len += 1;
        }
        if len == n.len() {
            assert(haystack@.subrange(at as int, at + needle@.len()) == needle@);
            assert(occurs_at(needle@, haystack@, at as int));
            return true;
        }
        assert(!occurs_at(needle@, haystack@, at as int)) by {
            if occurs_at(needle@, haystack@, at as int) {
                assert(haystack@.subrange(at as int, at + needle@.len())[len as int] == needle@[len as int]);
            }
        }
        if at == last {
            return false;
        }
        at += 1;
    }
    false
}

/// Whether `c` has the Unicode property White_Space.
pub open spec fn is_white_space(c: char) -> bool {
    let code = c as u32;
    ||| 0x9 <= code <= 0xd
    ||| code == 0x20
    ||| code == 0x85
    ||| code == 0xa0
    ||| code == 0x1680
    ||| 0x2000 <= code <= 0x200a
    ||| code == 0x2028
    ||| code == 0x2029
    ||| code == 0x202f
    ||| code == 0x205f
    ||| code == 0x3000
}

/// Tells whether `c` is white space.
pub fn white_space(c: char) -> (yes: bool)
    ensures
        yes == is_white_space(c),
{
    let code: u32 = c as u32;
    (0x9 <= code && code <= 0xd) || code == 0x20 || code == 0x85 || code == 0xa0 || code == 0x1680
        || (0x2000 <= code && code <= 0x200a) || code == 0x2028 || code == 0x2029 || code == 0x202f
        || code == 0x205f || code == 0x3000
}

/// The number of characters before the first white space of `s`.
pub open spec fn word_len(s: Seq<char>) -> nat
    decreases s.len(),
{
    if s.len() == 0 || is_white_space(s[0]) {
        0
    } else {
        1 + word_len(s.drop_first())
    }
}

/// The words of `s`: its maximal runs of characters that are not white space, in order.
pub open spec fn words(s: Seq<char>) -> Seq<Seq<char>>
    decreases s.len(),
{
    if s.len() == 0 {
        Seq::empty()
    } else if is_white_space(s[0]) {
        words(s.drop_first())
    } else {
        proof {
            lemma_word_len(s);
        }
        seq![s.take(word_len(s) as int)] + words(s.skip(word_len(s) as int))
    }
}

/// A word ends at the first white space, and a text that starts with none starts with a word.
pub proof fn lemma_word_len(s: Seq<char>)
    ensures
        word_len(s) <= s.len(),
        s.len() > 0 && !is_white_space(s[0]) ==> word_len(s) > 0,
        forall|k: int| 0 <= k < word_len(s) ==> !is_white_space(#[trigger] s[k]),
        word_len(s) < s.len() ==> is_white_space(s[word_len(s) as int]),
    decreases s.len(),
{
    if s.len() > 0 && !is_white_space(s[0]) {
        lemma_word_len(s.drop_first());
        assert forall|k: int| 0 <= k < word_len(s) implies !is_white_space(#[trigger] s[k]) by {
            if k > 0 {
                assert(s.drop_first()[k - 1] == s[k]);
            }
        }
        if word_len(s) < s.len() {
            assert(s[word_len(s) as int] == s.drop_first()[word_len(s) as int - 1]);
        }
    }
}

/// `word_len` is the only length with a word before it and a break at it.
proof fn lemma_word_len_is(s: Seq<char>, n: int)
    requires
        0 <= n <= s.len(),
        forall|k: int| 0 <= k < n ==> !is_white_space(#[trigger] s[k]),
        n < s.len() ==> is_white_space(s[n]),
    ensures
        word_len(s) == n,
{
    lemma_word_len(s);
}

/// The texts that a vector of strings holds.
pub open spec fn texts(v: Seq<String>) -> Seq<Seq<char>> {
    v.map_values(|s: String| s@)
}

/// Splits `s` at white space.
pub fn split_words(s: &str) -> (list: Vec<String>)
    ensures
        texts(list@) == words(s@),
{
    let chars = characters(s);
    let mut list: Vec<String> = Vec::new();
    let mut at: usize = 0;
    assert(s@.skip(0) == s@);
    assert(texts(list@) + words(s@.skip(0)) == words(s@));
    while at < chars.len()
        invariant
            chars@ == s@,
            at <= chars.len(),
            texts(list@) + words(s@.skip(at as int)) == words(s@),
        decreases chars.len() - at,
    {
        let ghost rest = s@.skip(at as int);
        if white_space(chars[at]) {
            assert(rest.drop_first() == s@.skip(at as int + 1));
            at += 1;
        } else {
            let start: usize = at;
            while at < chars.len() && !white_space(chars[at])
                invariant
                    chars@ == s@,
                    start <= at <= chars.len(),
                    rest == s@.skip(start as int),
                    forall|k: int| 0 <= k < at - start ==> !is_white_space(#[trigger] rest[k]),
                decreases chars.len() - at,
            {
                at += 1;
            }
            proof {
                lemma_word_len_is(rest, at - start);
            }
            let ghost before = list@;
            let word = s.substring_char(start, at).to_owned();
            assert(word@ == rest.take(at - start));
            list.push(word);
            assert(rest.skip(at - start) == s@.skip(at as int));
            assert(texts(list@) == texts(before) + seq![word@]);
            assert(texts(list@) + words(s@.skip(at as int)) == texts(before) + words(rest));
        }
    }
    assert(s@.skip(at as int) == Seq::<char>::empty());
    list
}

/// Why a text is no 16-bit number.
#[derive(Clone, Copy, PartialEq, Eq, Structural)]
pub enum NumberError {
    /// There is nothing to read.
    Empty,
    /// A character is not a decimal digit.
    InvalidDigit,
    /// The value is above the largest 16-bit number.
    Overflow,
}

/// Whether `c` is a decimal digit.
pub open spec fn is_digit(c: char) -> bool {
    '0' <= c <= '9'
}

/// Whether every character of `s` is a decimal digit.
pub open spec fn all_digits(s: Seq<char>) -> bool {
    forall|i: int| 0 <= i < s.len() ==> is_digit(#[trigger] s[i])
}

/// The value of `s` read as a decimal numeral.
pub open spec fn numeral(s: Seq<char>) -> nat
    decreases s.len(),
{
    if s.len() == 0 {
        0
    } else {
        numeral(s.drop_last()) * 10 + (s.last() as nat - '0' as nat) as nat
    }
}

/// `s` without the plus sign that a numeral may start with.
pub open spec fn unsigned(s: Seq<char>) -> Seq<char> {
    if s.len() > 1 && s[0] == '+' {
        s.drop_first()
    } else {
        s
    }
}

/// The first position at which reading `s` as a 16-bit number cannot go on: the character there is
/// no digit, or takes the value above the limit.
pub open spec fn first_stop(s: Seq<char>, at: int) -> bool {
    &&& 0 <= at < s.len()
    &&& all_digits(s.take(at))
    &&& numeral(s.take(at)) <= u16::MAX
    &&& !is_digit(s[at]) || numeral(s.take(at + 1)) > u16::MAX
}

/// What reading `s` as a 16-bit number gives: the value where `s` is, after an optional plus sign,
/// a numeral that fits; else the reason that is met first from the left.
pub open spec fn read_number(s: Seq<char>) -> Result<u16, NumberError> {
    let digits = unsigned(s);
    if s.len() == 0 {
        Err(NumberError::Empty)
    } else if all_digits(digits) && numeral(digits) <= u16::MAX {
        Ok(numeral(digits) as u16)
    } else if exists|at: int| #[trigger] first_stop(digits, at) && is_digit(digits[at]) {
        Err(NumberError::Overflow)
    } else {
        Err(NumberError::InvalidDigit)
    }
}

/// Reads a 16-bit number: decimal digits, with at most one plus sign in front.
pub fn parse_number(s: &str) -> (r: Result<u16, NumberError>)
    ensures
        r == read_number(s@),
{
    let chars = characters(s);
    if chars.len() == 0 {
        return Err(NumberError::Empty);
    }
    let start: usize = if chars.len() > 1 && chars[0] == '+' {
        1
    } else {
        0
    };
    let ghost digits = unsigned(s@);
    assert(digits == s@.skip(start as int));
    let mut value: u32 = 0;
    let mut at: usize = start;
    assert(digits.take(0) == Seq::<char>::empty());
    while at < chars.len()
        invariant
            chars@ == s@,
            start <= at <= chars.len(),
            digits == s@.skip(start as int),
            digits == unsigned(s@),
            all_digits(digits.take(at - start)),
            value == numeral(digits.take(at - start)),
            value <= u16::MAX,
        decreases chars.len() - at,
    {
        let c = chars[at];
        let ghost i = at - start;
        assert(digits[i] == c);
        if c < '0' || c > '9' {
            assert(first_stop(digits, i));
            proof {
                lemma_stop_is_unique(digits, i);
            }
            return Err(NumberError::InvalidDigit);
        }
        assert(digits.take(i + 1).drop_last() == digits.take(i));
        assert(digits.take(i + 1).last() == c);
        let next: u32 = value * 10 + (c as u32 - '0' as u32);
        assert(next == numeral(digits.take(i + 1)));
        if next > 65535 {
            assert(first_stop(digits, i));
            proof {
                lemma_numeral_grows(digits, i + 1);
            }
            return Err(NumberError::Overflow);
        }
        assert(all_digits(digits.take(i + 1)));
        value = next;
        at += 1;
    }
    assert(digits.take(at - start) == digits);
    Ok(value as u16)
}

proof fn lemma_stop_is_unique(s: Seq<char>, i: int)
    requires
        first_stop(s, i),
    ensures
        forall|j: int| #[trigger] first_stop(s, j) ==> j == i,
{
    assert forall|j: int| #[trigger] first_stop(s, j) implies j == i by {
        lemma_stop_order(s, i, j);
        lemma_stop_order(s, j, i);
    }
}

proof fn lemma_stop_order(s: Seq<char>, i: int, j: int)
    requires
        first_stop(s, i),
        first_stop(s, j),
    ensures
        j <= i,
{
    if i < j {
        assert(s.take(j)[i] == s[i]);
        assert(s.take(j).take(i + 1) == s.take(i + 1));
        lemma_numeral_grows(s.take(j), i + 1);
    }
}

proof fn lemma_numeral_grows(s: Seq<char>, n: int)
    requires
        0 <= n <= s.len(),
    ensures
        numeral(s.take(n)) <= numeral(s),
    decreases s.len(),
{
    if n < s.len() {
        assert(s.drop_last().take(n) == s.take(n));
        lemma_numeral_grows(s.drop_last(), n);
    } else {
        assert(s.take(n) == s);
    }
}

/// A number that is written in decimal is read back as itself.
pub proof fn law_number_round_trip(n: u16)
    ensures
        read_number(decimal(n as nat)) == Ok::<u16, NumberError>(n),
{
    lemma_decimal_reads_back(n as nat);
}

proof fn lemma_decimal_reads_back(n: nat)
    ensures
        decimal(n).len() > 0,
        all_digits(decimal(n)),
        unsigned(decimal(n)) == decimal(n),
        numeral(decimal(n)) == n,
    decreases n,
{
    if n < 10 {
        assert(decimal(n).drop_last() == Seq::<char>::empty());
        assert(numeral(decimal(n).drop_last()) == 0);
    } else {
        lemma_decimal_reads_back(n / 10);
        assert(decimal(n).drop_last() == decimal(n / 10));
        assert(decimal(n)[0] == decimal(n / 10)[0]);
        assert forall|i: int| 0 <= i < decimal(n).len() implies is_digit(#[trigger] decimal(n)[i]) by {
            if i < decimal(n / 10).len() {
                assert(decimal(n)[i] == decimal(n / 10)[i]);
            }
        }
    }
}

/// How `s` is written between double quotes, with escapes for what cannot stand there.
pub uninterp spec fn quoted(s: Seq<char>) -> Seq<char>;

/// Writes `s` as the formatting trait `std::fmt::Debug` of `str` does: between double quotes, with
/// escapes. The contract gives the result a name and claims only that it depends on nothing but the
/// text.
#[verifier::external_body]
pub(crate) fn quote(s: &str) -> (text: String)
    ensures
        text@ == quoted(s@),
{
    format!("{:?}", s)
}

/// A numeral grows by a digit as the number grows tenfold, and has no leading zero.
pub proof fn law_decimal_grows_by_digits(n: nat, d: nat)
    requires
        d < 10,
    ensures
        decimal(d) == seq![('0' as nat + d) as char],
        n > 0 ==> decimal(10 * n + d) == decimal(n).push(('0' as nat + d) as char),
        n > 0 ==> decimal(n)[0] != '0',
    decreases n,
{
    if n > 0 {
        assert((10 * n + d) / 10 == n && (10 * n + d) % 10 == d);
        if n >= 10 {
            law_decimal_grows_by_digits(n / 10, n % 10);
            lemma_decimal_reads_back(n / 10);
            assert(decimal(n)[0] == decimal(n / 10)[0]);
        }
    }
}

/// Texts fall into words at white space and nowhere else: a text without any is one word, an empty
/// text has none, and the words on either side of a white space character are those of the two parts.
pub proof fn law_words_are_split_at_white_space(a: Seq<char>, c: char, b: Seq<char>)
    ensures
        words(Seq::empty()) == Seq::<Seq<char>>::empty(),
        a.len() > 0 && (forall|i: int| 0 <= i < a.len() ==> !is_white_space(#[trigger] a[i]))
            ==> words(a) == seq![a],
        is_white_space(c) ==> words(a.push(c) + b) == words(a) + words(b),
    decreases a.len(),
{
    let s = a.push(c) + b;
    if a.len() > 0 && (forall|i: int| 0 <= i < a.len() ==> !is_white_space(#[trigger] a[i])) {
        lemma_word_len_is(a, a.len() as int);
        assert(a.take(a.len() as int) =~= a);
        assert(a.skip(a.len() as int) =~= Seq::empty());
        assert(words(a.skip(a.len() as int)) =~= Seq::empty());
        assert(words(a) =~= seq![a]);
    }
    if is_white_space(c) {
        if a.len() == 0 {
            assert(s[0] == c);
            assert(s.drop_first() =~= b);
            assert(words(a) + words(b) =~= words(b));
        } else if is_white_space(a[0]) {
            assert(s[0] == a[0]);
            assert(s.drop_first() =~= a.drop_first().push(c) + b);
            law_words_are_split_at_white_space(a.drop_first(), c, b);
        } else {
            lemma_word_len(a);
            let n = word_len(a) as int;
            assert forall|k: int| 0 <= k < n implies !is_white_space(#[trigger] s[k]) by {
                assert(s[k] == a[k]);
            }
            assert(is_white_space(s[n])) by {
                if n < a.len() {
                    assert(s[n] == a[n]);
                } else {
                    assert(s[n] == c);
                }
            }
            lemma_word_len_is(s, n);
            assert(s[0] == a[0]);
            assert(s.take(n) =~= a.take(n));
            assert(s.skip(n) =~= a.skip(n).push(c) + b);
            law_words_are_split_at_white_space(a.skip(n), c, b);
            assert(words(s) =~= seq![a.take(n)] + (words(a.skip(n)) + words(b)));
            assert(words(s) =~= words(a) + words(b));
        }
    }
}

proof fn lemma_has_stop(s: Seq<char>)
    requires
        !(all_digits(s) && numeral(s) <= u16::MAX),
    ensures
        exists|at: int| #[trigger] first_stop(s, at),
    decreases s.len(),
{
    let rest = s.drop_last();
    let last = s.len() - 1;
    assert(s.take(last + 1) =~= s);
    assert(s.take(last) =~= rest);
    if all_digits(rest) && numeral(rest) <= u16::MAX {
        assert(!is_digit(s[last]) || numeral(s) > u16::MAX) by {
            if is_digit(s[last]) && numeral(s) <= u16::MAX {
                assert forall|i: int| 0 <= i < s.len() implies is_digit(#[trigger] s[i]) by {
                    if i < last {
                        assert(rest[i] == s[i]);
                    }
                }
            }
        }
        assert(first_stop(s, last));
    } else {
        lemma_has_stop(rest);
        let at = choose|at: int| #[trigger] first_stop(rest, at);
        lemma_stop_stays(rest, s[last], at);
        assert(rest.push(s[last]) =~= s);
    }
}

proof fn lemma_stop_stays(s: Seq<char>, c: char, at: int)
    requires
        first_stop(s, at),
    ensures
        first_stop(s.push(c), at),
        s.push(c)[at] == s[at],
{
    assert(s.push(c).take(at) =~= s.take(at));
    assert(s.push(c).take(at + 1) =~= s.take(at + 1));
}

/// Numbers are read digit by digit, after one plus sign at most. A digit by itself is its value; a
/// digit behind a number adds to ten times that, and where this does not fit in 16 bits the number
/// has overflown, which it has for good; any other character is an invalid digit, which stays so; and
/// so is a plus sign by itself. There is nothing to read exactly where there is no character.
pub proof fn law_numbers_are_read_by_digits(s: Seq<char>, c: char)
    ensures
        read_number(s) == Err::<u16, NumberError>(NumberError::Empty) <==> s.len() == 0,
        '0' <= c <= '9' ==> read_number(seq![c]) == Ok::<u16, NumberError>(
            (c as u32 - '0' as u32) as u16,
        ),
        !('0' <= c <= '9') ==> read_number(seq![c]) == Err::<u16, NumberError>(
            NumberError::InvalidDigit,
        ),
        s == seq!['+'] ==> read_number(s.push(c)) == read_number(seq![c]),
        s != seq!['+'] ==> match read_number(s) {
            Ok(n) => read_number(s.push(c)) == if !('0' <= c <= '9') {
                Err::<u16, NumberError>(NumberError::InvalidDigit)
            } else if 10 * n + (c as u32 - '0' as u32) <= 65535 {
                Ok::<u16, NumberError>((10 * n + (c as u32 - '0' as u32)) as u16)
            } else {
                Err::<u16, NumberError>(NumberError::Overflow)
            },
            Err(NumberError::Overflow) => read_number(s.push(c)) == Err::<u16, NumberError>(
                NumberError::Overflow,
            ),
            Err(NumberError::InvalidDigit) => read_number(s.push(c)) == Err::<u16, NumberError>(
                NumberError::InvalidDigit,
            ),
            Err(NumberError::Empty) => s.len() == 0,
        },
{
    lemma_one_character(c);
    if s == seq!['+'] {
        assert(unsigned(s.push(c)) =~= seq![c]);
        assert(unsigned(seq![c]) =~= seq![c]);
    } else if s.len() > 0 {
        let digits = unsigned(s);
        let more = digits.push(c);
        assert(unsigned(s.push(c)) =~= more) by {
            if s.len() == 1 {
                assert(s =~= seq![s[0]]);
            }
        }
        assert(more.drop_last() =~= digits);
        assert(more.take(digits.len() as int) =~= digits);
        assert(more.take(more.len() as int) =~= more);
        let last = digits.len() as int;
        match read_number(s) {
            Ok(_) => {
                if is_digit(c) {
                    assert(all_digits(more));
                    if numeral(more) > u16::MAX {
                        assert(first_stop(more, last) && is_digit(more[last]));
                    }
                } else {
                    assert(!is_digit(more[last]));
                    assert(first_stop(more, last));
                    lemma_stop_is_unique(more, last);
                }
            },
            Err(NumberError::Overflow) => {
                let at = choose|at: int| #[trigger] first_stop(digits, at) && is_digit(digits[at]);
                lemma_stop_stays(digits, c, at);
                assert(first_stop(more, at) && is_digit(more[at]));
                lemma_numeral_grows(more, at + 1);
            },
            Err(NumberError::InvalidDigit) => {
                lemma_has_stop(digits);
                let at = choose|at: int| #[trigger] first_stop(digits, at);
                assert(!is_digit(digits[at]));
                lemma_stop_stays(digits, c, at);
                lemma_stop_is_unique(more, at);
                assert(!is_digit(more[at]));
                assert(!all_digits(more));
            },
            Err(NumberError::Empty) => {},
        }
    }
}

proof fn lemma_one_character(c: char)
    ensures
        is_digit(c) ==> read_number(seq![c]) == Ok::<u16, NumberError>(
            (c as u32 - '0' as u32) as u16,
        ),
        !is_digit(c) ==> read_number(seq![c]) == Err::<u16, NumberError>(NumberError::InvalidDigit),
{
    let s = seq![c];
    assert(s.drop_last() =~= Seq::empty());
    assert(numeral(s.drop_last()) == 0);
    assert(s.take(0) =~= Seq::empty());
    assert(s.take(1) =~= s);
    if !is_digit(c) {
        assert(!is_digit(s[0]));
        assert(first_stop(s, 0));
        lemma_stop_is_unique(s, 0);
    }
}

} // verus!
