//! Decimal and hexadecimal text.

use vstd::prelude::*;

verus! {

/// The digit character of `d < 16`, lower case.
pub open spec fn digit_char(d: nat) -> char {
    if d < 10 {
        (('0' as nat) + d) as char
    } else {
        (('a' as nat) + (d - 10)) as char
    }
}

/// The shortest decimal text of `n`.
pub open spec fn decimal(n: nat) -> Seq<char>
    decreases n,
{
    if n < 10 {
        seq![digit_char(n)]
    } else {
        decimal(n / 10).push(digit_char(n % 10))
    }
}

/// Two lower-case hexadecimal digits for each byte, in order.
pub open spec fn hex(bytes: Seq<u8>) -> Seq<char>
    decreases bytes.len(),
{
    if bytes.len() == 0 {
        Seq::empty()
    } else {
        hex(bytes.drop_last()) + seq![
            digit_char((bytes.last() / 16) as nat),
            digit_char((bytes.last() % 16) as nat),
        ]
    }
}

/// `String::push`: appends one character.
pub assume_specification[ std::string::String::push ](s: &mut String, c: char)
    ensures
        final(s)@ == old(s)@.push(c),
;

/// The digit character of `d`.
pub fn digit(d: u8) -> (c: char)
    requires
        d < 16,
    ensures
        c == digit_char(d as nat),
{
    if d < 10 {
        (48 + d) as char
    } else {
        (87 + d) as char
    }
}

/// Appends the decimal text of `n` to `out`.
pub fn push_decimal(out: &mut String, n: u64)
    ensures
        final(out)@ == old(out)@ + decimal(n as nat),
    decreases n,
{
    if n >= 10 {
        push_decimal(out, n / 10);
    }
    out.push(digit((n % 10) as u8));
    proof {
        if n >= 10 {
            assert(old(out)@ + decimal((n / 10) as nat) + seq![digit_char((n % 10) as nat)]
                =~= old(out)@ + decimal(n as nat));
        } else {
            assert(old(out)@.push(digit_char(n as nat)) =~= old(out)@ + decimal(n as nat));
        }
    }
}

/// The decimal text of `n`.
pub fn to_decimal(n: u64) -> (text: String)
    ensures
        text@ == decimal(n as nat),
{
    let mut out = String::new();
    push_decimal(&mut out, n);
    proof {
        assert(Seq::<char>::empty() + decimal(n as nat) =~= decimal(n as nat));
    }
    out
}

/// The hexadecimal text of `bytes`.
pub fn to_hex(bytes: &[u8]) -> (text: String)
    ensures
        text@ == hex(bytes@),
{
    let mut out = String::new();
    let mut i: usize = 0;
    while i < bytes.len()
        invariant
            i <= bytes.len(),
            out@ == hex(bytes@.take(i as int)),
        decreases bytes.len() - i,
    {
        let b: u8 = bytes[i];
        out.push(digit(b / 16));
        out.push(digit(b % 16));
        proof {
            let next = bytes@.take(i + 1);
            assert(next.drop_last() =~= bytes@.take(i as int));
            assert(next.last() == b);
            assert(out@ =~= hex(next));
        }
        i = i + 1;
    }
    proof {
        assert(bytes@.take(bytes@.len() as int) =~= bytes@);
    }
    out
}

/// The value of decimal digits, the most significant first.
pub open spec fn digits_value(digits: Seq<char>) -> nat
    decreases digits.len(),
{
    if digits.len() == 0 {
        0
    } else {
        digits_value(digits.drop_last()) * 10 + (digits.last() as nat - '0' as nat) as nat
    }
}

/// Every character is a decimal digit.
pub open spec fn all_digits(text: Seq<char>) -> bool {
    forall|i: int| 0 <= i < text.len() ==> '0' <= #[trigger] text[i] <= '9'
}

/// The number that a text stands for: digits with an optional plus sign before
/// them, within the range of `u64`.
pub open spec fn number_of(text: Seq<char>) -> Option<u64> {
    let digits = if text.len() > 0 && text[0] == '+' {
        text.skip(1)
    } else {
        text
    };
    if digits.len() > 0 && all_digits(digits) && digits_value(digits) <= u64::MAX {
        Some(digits_value(digits) as u64)
    } else {
        None
    }
}

proof fn lemma_more_digits(digits: Seq<char>, i: int)
    requires
        0 <= i <= digits.len(),
        all_digits(digits),
    ensures
        digits_value(digits.take(i)) <= digits_value(digits),
    decreases digits.len() - i,
{
    if i < digits.len() {
        let next = digits.take(i + 1);
        assert(next.drop_last() =~= digits.take(i));
        lemma_more_digits(digits, i + 1);
    } else {
        assert(digits.take(i) =~= digits);
    }
}

/// Reads a decimal number.
pub fn parse_decimal(text: &str) -> (number: Option<u64>)
    ensures
        number == number_of(text@),
{
    let len: usize = text.unicode_len();
    let start: usize = if len > 0 && text.get_char(0) == '+' {
        1
    } else {
        0
    };
    if start == len {
        return None;
    }
    let ghost digits = text@.skip(start as int);
    assert(start == 0 ==> digits =~= text@);
    let mut value: u64 = 0;
    let mut i: usize = start;
    while i < len
        invariant
            start <= i <= len,
            start <= 1,
            len == text@.len(),
            digits == text@.skip(start as int),
            start == 0 ==> digits == text@,
            start == if len > 0 && text@[0] == '+' {
                1int
            } else {
                0
            },
            digits.len() > 0,
            value == digits_value(digits.take(i - start)),
            all_digits(digits.take(i - start)),
        decreases len - i,
    {
        let c: char = text.get_char(i);
        let ghost k = i - start;
        let ghost next = digits.take(k + 1);
        proof {
            assert(digits[k] == c);
            assert(next.drop_last() =~= digits.take(k));
            assert(next.last() == c);
        }
        if c < '0' || c > '9' {
            assert(!all_digits(digits));
            return None;
        }
        let digit: u64 = (c as u32 - 48) as u64;
        proof {
            assert(digits_value(next) == digits_value(digits.take(k)) * 10 + digit);
            if all_digits(digits) {
                lemma_more_digits(digits, k + 1);
            }
        }
        let tenfold: u64 = match value.checked_mul(10) {
            Some(tenfold) => tenfold,
            None => {
                return None;
            },
        };
        value =
        match tenfold.checked_add(digit) {
            Some(value) => value,
            None => {
                return None;
            },
        };
        proof {
            assert forall|j: int| 0 <= j < next.len() implies '0' <= #[trigger] next[j]
                <= '9' by {
                if j < k {
                    assert(next[j] == digits.take(k)[j]);
                }
            }
        }
        i = i + 1;
    }
    proof {
        assert(digits.take(digits.len() as int) =~= digits);
    }
    Some(value)
}

/// A text that may be absent.
pub open spec fn optional_text(text: Option<String>) -> Option<Seq<char>> {
    match text {
        Some(text) => Some(text@),
        None => None,
    }
}

/// The shortest decimal text of an integer that may be negative.
pub open spec fn signed_decimal(n: int) -> Seq<char> {
    if n < 0 {
        seq!['-'] + decimal((-n) as nat)
    } else {
        decimal(n as nat)
    }
}

/// Appends the decimal text of `n` to `out`.
pub fn push_signed(out: &mut String, n: i64)
    ensures
        final(out)@ == old(out)@ + signed_decimal(n as int),
{
    if n < 0 {
        out.push('-');
        let magnitude: u64 = if n == i64::MIN {
            9223372036854775808
        } else {
            (-n) as u64
        };
        push_decimal(out, magnitude);
        proof {
            assert(old(out)@.push('-') + decimal((-n) as nat) =~= old(out)@ + signed_decimal(
                n as int,
            ));
        }
    } else {
        push_decimal(out, n as u64);
    }
}

/// The text ends with the suffix.
pub open spec fn has_suffix(s: Seq<char>, suffix: Seq<char>) -> bool {
    suffix.len() <= s.len() && s.skip(s.len() - suffix.len()) == suffix
}

/// Whether the text ends with the suffix.
pub fn ends_with(s: &str, suffix: &str) -> (ends: bool)
    ensures
        ends == has_suffix(s@, suffix@),
{
    let n: usize = s.unicode_len();
    let m: usize = suffix.unicode_len();
    if m > n {
        return false;
    }
    let tail = s.substring_char(n - m, n).to_owned();
    assert(s@.subrange(n - m, n as int) =~= s@.skip(n - m));
    tail == suffix.to_owned()
}

/// What follows the last slash; everything where there is none.
pub open spec fn after_last_slash(s: Seq<char>) -> Seq<char>
    decreases s.len(),
{
    if s.len() == 0 || s.last() == '/' {
        Seq::empty()
    } else {
        after_last_slash(s.drop_last()).push(s.last())
    }
}

/// The part of a resource name after its last slash.
pub fn last_segment(s: &str) -> (segment: String)
    ensures
        segment@ == after_last_slash(s@),
{
    let mut segment = String::new();
    for c in iter: s.chars()
        invariant
            iter.seq() == s@,
            segment@ == after_last_slash(s@.take(iter.index() as int)),
    {
        proof {
            let i = iter.index() as int;
            assert(s@.take(i + 1).drop_last() =~= s@.take(i));
            assert(s@.take(i + 1).last() == c);
        }
        if c == '/' {
            segment = String::new();
        } else {
            segment.push(c);
        }
    }
    proof {
        assert(s@.take(s@.len() as int) =~= s@);
    }
    segment
}

/// The text without slashes at its end.
pub open spec fn trim_end(s: Seq<char>) -> Seq<char>
    decreases s.len(),
{
    if s.len() > 0 && s.last() == '/' {
        trim_end(s.drop_last())
    } else {
        s
    }
}

/// The text without slashes at its start.
pub open spec fn trim_start(s: Seq<char>) -> Seq<char>
    decreases s.len(),
{
    if s.len() > 0 && s[0] == '/' {
        trim_start(s.drop_first())
    } else {
        s
    }
}

/// Trims slashes from both ends.
pub fn trim_slashes(s: &str) -> (trimmed: String)
    ensures
        trimmed@ == trim_end(trim_start(s@)),
{
    let n: usize = s.unicode_len();
    let mut from: usize = 0;
    proof {
        assert(s@.skip(0) =~= s@);
    }
    while from < n && s.get_char(from) == '/'
        invariant
            from <= n,
            n == s@.len(),
            trim_start(s@.skip(from as int)) == trim_start(s@),
        decreases n - from,
    {
        assert(s@.skip(from as int).drop_first() =~= s@.skip(from + 1));
        from = from + 1;
    }
    let ghost rest = s@.skip(from as int);
    assert(trim_start(s@) == rest);
    let mut to: usize = n;
    proof {
        assert(s@.subrange(from as int, to as int) =~= rest);
    }
    while to > from && s.get_char(to - 1) == '/'
        invariant
            from <= to <= n,
            n == s@.len(),
            trim_end(s@.subrange(from as int, to as int)) == trim_end(rest),
        decreases to,
    {
        assert(s@.subrange(from as int, to as int).drop_last() =~= s@.subrange(
            from as int,
            to - 1,
        ));
        to = to - 1;
    }
    s.substring_char(from, to).to_owned()
}

/// Whether the text starts with the prefix.
pub open spec fn has_prefix(s: Seq<char>, prefix: Seq<char>) -> bool {
    prefix.len() <= s.len() && s.take(prefix.len() as int) == prefix
}

/// Whether the text starts with the prefix.
pub fn starts_with(s: &str, prefix: &str) -> (starts: bool)
    ensures
        starts == has_prefix(s@, prefix@),
{
    let n: usize = s.unicode_len();
    let m: usize = prefix.unicode_len();
    if m > n {
        return false;
    }
    let mut i: usize = 0;
    while i < m
        invariant
            i <= m,
            m == prefix@.len(),
            n == s@.len(),
            m <= n,
            forall|j: int| 0 <= j < i ==> s@[j] == prefix@[j],
        decreases m - i,
    {
        if s.get_char(i) != prefix.get_char(i) {
            assert(s@.take(m as int)[i as int] != prefix@[i as int]);
            return false;
        }
        i = i + 1;
    }
    assert(s@.take(m as int) =~= prefix@);
    true
}

/// The parts one after the other, with `separator` between them.
pub open spec fn joined(parts: Seq<Seq<char>>, separator: Seq<char>) -> Seq<char>
    decreases parts.len(),
{
    if parts.len() == 0 {
        Seq::empty()
    } else if parts.len() == 1 {
        parts[0]
    } else {
        joined(parts.drop_last(), separator) + separator + parts.last()
    }
}

/// The texts of strings.
pub open spec fn texts(parts: Seq<String>) -> Seq<Seq<char>> {
    parts.map_values(|part: String| part@)
}

/// Joins the parts.
pub fn join(parts: &Vec<String>, separator: &str) -> (text: String)
    ensures
        text@ == joined(texts(parts@), separator@),
{
    let mut out = String::new();
    let mut i: usize = 0;
    while i < parts.len()
        invariant
            i <= parts@.len(),
            out@ == joined(texts(parts@).take(i as int), separator@),
        decreases parts@.len() - i,
    {
        let ghost before = texts(parts@).take(i as int);
        let ghost after = texts(parts@).take(i + 1);
        proof {
            assert(after.drop_last() =~= before);
            assert(after.last() == parts@[i as int]@);
        }
        if i > 0 {
            out.append(separator);
        }
        out.append(parts[i].as_str());
        proof {
            if i == 0 {
                assert(out@ =~= after[0]);
            }
        }
        i = i + 1;
    }
    proof {
        assert(texts(parts@).take(i as int) =~= texts(parts@));
    }
    out
}

proof fn lemma_decimal_digits(n: nat)
    ensures
        decimal(n).len() > 0,
        all_digits(decimal(n)),
        digits_value(decimal(n)) == n,
        decimal(n)[0] != '+',
        n > 0 ==> decimal(n)[0] != '0',
    decreases n,
{
    if n < 10 {
        assert(decimal(n).drop_last() =~= Seq::<char>::empty());
        reveal_with_fuel(digits_value, 2);
    } else {
        lemma_decimal_digits(n / 10);
        let rest = decimal(n / 10);
        assert(decimal(n).drop_last() =~= rest);
        assert forall|i: int| 0 <= i < decimal(n).len() implies '0' <= #[trigger] decimal(n)[i]
            <= '9' by {
            if i < rest.len() {
                assert(decimal(n)[i] == rest[i]);
            }
        }
        assert(decimal(n)[0] == rest[0]);
    }
}

/// A number that is written down and read again is the same number.
pub proof fn law_decimals_are_read_back(n: u64, text: String, s: &str, number: Option<u64>)
    requires
        call_ensures(to_decimal, (n,), text),
        s@ == text@,
        call_ensures(parse_decimal, (s,), number),
    ensures
        number == Some(n),
{
    lemma_decimal_digits(n as nat);
}

/// Numbers are written with the digits `0` to `9`, the units last: a number of
/// several digits is its tenth followed by its units.
pub proof fn law_decimals_end_in_their_units(n: u64, text: String, tenth: String)
    requires
        call_ensures(to_decimal, (n,), text),
        call_ensures(to_decimal, (n / 10,), tenth),
    ensures
        text@.len() > 0,
        text@.last() as nat == 48 + n % 10,
        n < 10 ==> text@.len() == 1,
        n >= 10 ==> text@.drop_last() == tenth@,
{
    if n >= 10 {
        assert(text@.drop_last() =~= tenth@);
    }
}

/// Writing at the end of a text leaves the text before it alone; a negative
/// number is written as a minus and its magnitude.
pub proof fn law_numbers_are_written_at_the_end(
    out: &mut String,
    n: u64,
    text: String,
    signed: &mut String,
    m: i64,
    magnitude: u64,
    magnitude_text: String,
)
    requires
        call_ensures(push_decimal, (out, n), ()),
        call_ensures(to_decimal, (n,), text),
        call_ensures(push_signed, (signed, m), ()),
        magnitude == if m < 0 {
            -m
        } else {
            m as int
        },
        call_ensures(to_decimal, (magnitude,), magnitude_text),
    ensures
        final(out)@ == old(out)@ + text@,
        m >= 0 ==> final(signed)@ == old(signed)@ + magnitude_text@,
        m < 0 ==> final(signed)@ == old(signed)@ + (seq!['-'] + magnitude_text@),
{
}

/// Reading goes digit by digit: one more digit makes ten times the number and
/// that digit, as long as it fits 64 bits. A lone digit is itself; an empty text
/// and one with any other character are no number.
pub proof fn law_digits_are_read_in_order(
    shorter: &str,
    before: Option<u64>,
    longer: &str,
    after: Option<u64>,
    c: char,
)
    requires
        call_ensures(parse_decimal, (shorter,), before),
        call_ensures(parse_decimal, (longer,), after),
        longer@ == shorter@.push(c),
    ensures
        shorter@.len() == 0 ==> before is None,
        ({
            let digit = c as nat - 48;
            &&& !(48 <= c as nat <= 57) ==> after is None
            &&& shorter@.len() == 0 && 48 <= c as nat <= 57 ==> after is Some && after->Some_0
                == digit
            &&& before is Some && 48 <= c as nat <= 57 && before->Some_0 * 10 + digit <= u64::MAX
                ==> after is Some && after->Some_0 == before->Some_0 * 10 + digit
            &&& before is Some && before->Some_0 * 10 + digit > u64::MAX ==> after is None
            &&& before is None && shorter@.len() > 0 && shorter@ != seq!['+'] ==> after is None
            &&& shorter@ == seq!['+'] && 48 <= c as nat <= 57 ==> after is Some && after->Some_0
                == digit
        }),
{
    let start: int = if longer@.len() > 0 && longer@[0] == '+' {
        1
    } else {
        0
    };
    let digits = if start == 1 {
        longer@.skip(1)
    } else {
        longer@
    };
    assert(digits =~= longer@.skip(start));
    if digits.len() > 0 {
        assert(digits.last() == c);
        if shorter@.len() > 0 {
            assert(shorter@[0] == longer@[0]);
            let earlier = shorter@.skip(start);
            assert(start == 0 ==> earlier =~= shorter@);
            assert(digits.drop_last() =~= earlier);
            assert forall|i: int| 0 <= i < earlier.len() implies digits[i] == #[trigger] earlier[i] by {}
            assert(all_digits(digits) <==> all_digits(earlier) && '0' <= c <= '9') by {
                if all_digits(earlier) && '0' <= c <= '9' {
                    assert forall|i: int| 0 <= i < digits.len() implies '0' <= #[trigger] digits[i]
                        <= '9' by {
                        if i < earlier.len() {
                            assert(digits[i] == earlier[i]);
                        }
                    }
                }
                if all_digits(digits) {
                    assert forall|i: int|
                        0 <= i < earlier.len() implies '0' <= #[trigger] earlier[i] <= '9' by {
                        assert(digits[i] == earlier[i]);
                    }
                    assert('0' <= digits[digits.len() - 1] <= '9');
                }
            }
            if earlier.len() == 0 {
                assert(shorter@ =~= seq!['+']);
                reveal_with_fuel(digits_value, 2);
            }
        } else {
            assert(digits.drop_last() =~= Seq::<char>::empty());
            reveal_with_fuel(digits_value, 2);
            assert(digits =~= seq![c]);
            assert(all_digits(digits) <==> '0' <= c <= '9') by {
                if all_digits(digits) {
                    assert('0' <= digits[0] <= '9');
                }
            }
        }
    }
}

proof fn lemma_hex_place(bytes: Seq<u8>, i: int)
    requires
        0 <= i < bytes.len(),
    ensures
        hex(bytes).len() == 2 * bytes.len(),
        hex(bytes)[2 * i] == digit_char((bytes[i] / 16) as nat),
        hex(bytes)[2 * i + 1] == digit_char((bytes[i] % 16) as nat),
    decreases bytes.len(),
{
    let rest = bytes.drop_last();
    if i < rest.len() {
        lemma_hex_place(rest, i);
    } else if rest.len() > 0 {
        lemma_hex_place(rest, 0);
    }
}

/// Each byte becomes two hexadecimal digits in its place, the high half first,
/// in lower case.
pub proof fn law_hex_digits_stand_in_place(bytes: &[u8], text: String, i: int)
    requires
        call_ensures(to_hex, (bytes,), text),
        0 <= i < bytes@.len(),
    ensures
        text@.len() == 2 * bytes@.len(),
        bytes@[i] / 16 < 10 ==> text@[2 * i] as nat == 48 + bytes@[i] / 16,
        bytes@[i] / 16 >= 10 ==> text@[2 * i] as nat == 87 + bytes@[i] / 16,
        bytes@[i] % 16 < 10 ==> text@[2 * i + 1] as nat == 48 + bytes@[i] % 16,
        bytes@[i] % 16 >= 10 ==> text@[2 * i + 1] as nat == 87 + bytes@[i] % 16,
{
    lemma_hex_place(bytes@, i);
}

/// A text has an affix exactly if it is made of it and some other text.
pub proof fn law_affixes_are_parts(
    s: &str,
    affix: &str,
    ends: bool,
    starts: bool,
    other: Seq<char>,
)
    requires
        call_ensures(ends_with, (s, affix), ends),
        call_ensures(starts_with, (s, affix), starts),
    ensures
        s@ == other + affix@ ==> ends,
        s@ == affix@ + other ==> starts,
        ends ==> exists|before: Seq<char>| s@ == #[trigger] (before + affix@),
        starts ==> exists|after: Seq<char>| s@ == #[trigger] (affix@ + after),
{
    if s@ == other + affix@ {
        assert(s@.skip(s@.len() - affix@.len()) =~= affix@);
    }
    if s@ == affix@ + other {
        assert(s@.take(affix@.len() as int) =~= affix@);
    }
    if ends {
        assert(s@ =~= s@.take(s@.len() - affix@.len()) + affix@);
    }
    if starts {
        assert(s@ =~= affix@ + s@.skip(affix@.len() as int));
    }
}

/// What follows no slash is its own last part, and what follows the last slash
/// is the last part of the whole.
pub proof fn lemma_after_last_slash(parent: Seq<char>, own: Seq<char>)
    requires
        forall|i: int| 0 <= i < own.len() ==> #[trigger] own[i] != '/',
    ensures
        after_last_slash(own) == own,
        after_last_slash(parent + seq!['/'] + own) == own,
    decreases own.len(),
{
    let whole = parent + seq!['/'] + own;
    if own.len() == 0 {
        assert(whole.last() == '/');
        assert(after_last_slash(own) =~= own);
        assert(after_last_slash(whole) =~= own);
    } else {
        let rest = own.drop_last();
        assert(whole.drop_last() =~= parent + seq!['/'] + rest);
        assert(whole.last() == own.last());
        assert(own[own.len() - 1] != '/');
        assert forall|i: int| 0 <= i < rest.len() implies #[trigger] rest[i] != '/' by {
            assert(rest[i] == own[i]);
        }
        lemma_after_last_slash(parent, rest);
        assert(rest.push(own.last()) =~= own);
    }
}

/// The last part of a name is what follows its last slash, and the whole of a
/// name without one.
pub proof fn law_last_part_follows_the_last_slash(
    s: &str,
    segment: String,
    parent: Seq<char>,
    own: Seq<char>,
)
    requires
        call_ensures(last_segment, (s,), segment),
        forall|i: int| 0 <= i < own.len() ==> #[trigger] own[i] != '/',
    ensures
        s@ == own ==> segment@ == own,
        s@ == parent + seq!['/'] + own ==> segment@ == own,
{
    lemma_after_last_slash(parent, own);
}

proof fn lemma_trim_end(core: Seq<char>, slashes: Seq<char>)
    requires
        forall|i: int| 0 <= i < slashes.len() ==> #[trigger] slashes[i] == '/',
        core.len() > 0 ==> core.last() != '/',
    ensures
        trim_end(core + slashes) == core,
    decreases slashes.len(),
{
    if slashes.len() == 0 {
        assert(core + slashes =~= core);
    } else {
        let rest = slashes.drop_last();
        assert((core + slashes).drop_last() =~= core + rest);
        assert((core + slashes).last() == slashes[slashes.len() - 1]);
        assert forall|i: int| 0 <= i < rest.len() implies #[trigger] rest[i] == '/' by {
            assert(rest[i] == slashes[i]);
        }
        lemma_trim_end(core, rest);
    }
}

proof fn lemma_trim_start(slashes: Seq<char>, core: Seq<char>)
    requires
        forall|i: int| 0 <= i < slashes.len() ==> #[trigger] slashes[i] == '/',
        core.len() > 0 ==> core[0] != '/',
    ensures
        trim_start(slashes + core) == core,
    decreases slashes.len(),
{
    if slashes.len() == 0 {
        assert(slashes + core =~= core);
    } else {
        let rest = slashes.drop_first();
        assert((slashes + core).drop_first() =~= rest + core);
        assert((slashes + core)[0] == slashes[0]);
        assert forall|i: int| 0 <= i < rest.len() implies #[trigger] rest[i] == '/' by {
            assert(rest[i] == slashes[i + 1]);
        }
        lemma_trim_start(rest, core);
    }
}

/// Trimming takes all slashes from both ends and nothing else: what remains
/// neither begins nor ends with one.
pub proof fn law_trimming_takes_outer_slashes(
    s: &str,
    trimmed: String,
    before: Seq<char>,
    core: Seq<char>,
    after: Seq<char>,
)
    requires
        call_ensures(trim_slashes, (s,), trimmed),
        s@ == before + core + after,
        forall|i: int| 0 <= i < before.len() ==> #[trigger] before[i] == '/',
        forall|i: int| 0 <= i < after.len() ==> #[trigger] after[i] == '/',
        core.len() > 0,
        core[0] != '/',
        core.last() != '/',
    ensures
        trimmed@ == core,
{
    assert(s@ =~= before + (core + after));
    lemma_trim_start(before, core + after);
    lemma_trim_end(core, after);
}

/// Parts are joined one after the other: nothing joins to nothing, one part to
/// itself, and a further part comes behind the separator.
pub proof fn law_parts_are_joined_in_order(
    parts: &Vec<String>,
    separator: &str,
    text: String,
    fewer: &Vec<String>,
    shorter: String,
)
    requires
        call_ensures(join, (parts, separator), text),
        call_ensures(join, (fewer, separator), shorter),
        parts@.len() > 0 ==> fewer@ == parts@.drop_last(),
    ensures
        parts@.len() == 0 ==> text@.len() == 0,
        parts@.len() == 1 ==> text@ == parts@[0]@,
        parts@.len() > 1 ==> text@ == shorter@ + separator@ + parts@.last()@,
{
    if parts@.len() > 0 {
        assert(texts(parts@).drop_last() =~= texts(fewer@));
        assert(texts(parts@).last() == parts@.last()@);
    }
}

/// The digits are `0` to `9`, then `a` to `f`.
pub proof fn law_digits_are_hexadecimal(d: u8, c: char)
    requires
        d < 16,
        call_ensures(digit, (d,), c),
    ensures
        d < 10 ==> c as u32 == '0' as u32 + d,
        d >= 10 ==> c as u32 == 'a' as u32 + d - 10,
{
}

} // verus!
