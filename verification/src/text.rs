//! Text building blocks: decimal numbers, HTML escaping, number parsing, and
//! the few string operations that the rest of the crate is written with.
use vstd::prelude::*;
use vstd::utf8;

verus! {

broadcast use vstd::string::group_string_axioms;

/// `String::push`: the string grows by the one character, at its end.
pub assume_specification[ String::push ](s: &mut String, c: char)
    ensures
        final(s)@ == old(s)@.push(c),
;

/// The text that `String::from_utf8_lossy` reads out of bytes.
pub uninterp spec fn lossy(bytes: Seq<u8>) -> Seq<char>;

/// `String::from_utf8_lossy`: a function of the bytes alone. Bytes that are
/// valid UTF-8 are decoded as they stand; what stands for invalid bytes is
/// left to the name.
#[verifier::external_body]
pub(crate) fn lossy_text(bytes: &[u8]) -> (r: String)
    ensures
        r@ == lossy(bytes@),
        utf8::valid_utf8(bytes@) ==> r@ == utf8::decode_utf8(bytes@),
{
    String::from_utf8_lossy(bytes).into_owned()
}

/// Whether `s` begins with `prefix`.
pub fn has_prefix(s: &str, prefix: &str) -> (r: bool)
    ensures
        r == prefix@.is_prefix_of(s@),
{
    let mut rest = s.chars();
    for c in it: prefix.chars()
        invariant
            it.seq() == prefix@,
            it.index() <= s@.len(),
            prefix@.take(it.index() as int) == s@.take(it.index() as int),
            vstd::std_specs::iter::IteratorSpec::remaining(&rest) == s@.skip(it.index() as int),
    {
        match rest.next() {
            Some(d) => {
                if c != d {
                    return false;
                }
            },
            None => {
                return false;
            },
        }
    }
    true
}

/// Whether two texts hold the same characters.
pub fn same_text(a: &str, b: &str) -> (r: bool)
    ensures
        r == (a@ == b@),
{
    let same = has_prefix(a, b) && has_prefix(b, a);
    assert(same ==> a@ =~= b@);
    same
}

/// The number of bytes that a text takes in UTF-8.
pub fn byte_len(s: &str) -> (n: usize)
    ensures
        n == utf8::encode_utf8(s@).len(),
{
    s.as_bytes().len()
}

// ---------------------------------------------------------------------------
// Decimal numbers

/// The decimal digit for a number below ten.
pub open spec fn digit(d: nat) -> char {
    (48 + d) as char
}

/// A natural number in decimal, without leading zeros.
pub open spec fn decimal(n: nat) -> Seq<char>
    decreases n,
{
    if n < 10 {
        seq![digit(n)]
    } else {
        decimal(n / 10).push(digit(n % 10))
    }
}

/// An integer in decimal.
pub open spec fn signed_decimal(i: int) -> Seq<char> {
    if i < 0 {
        seq!['-'] + decimal((-i) as nat)
    } else {
        decimal(i as nat)
    }
}

/// `width` zeros.
pub open spec fn zeros(width: nat) -> Seq<char> {
    Seq::new(width, |i: int| '0')
}

/// A natural number in decimal, filled up to `width` digits with zeros in front.
pub open spec fn padded(n: nat, width: nat) -> Seq<char> {
    let digits = decimal(n);
    if digits.len() >= width {
        digits
    } else {
        zeros((width - digits.len()) as nat) + digits
    }
}

fn digit_char(d: u8) -> (c: char)
    requires
        d < 10,
    ensures
        c == digit(d as nat),
{
    (48u8 + d) as char
}

/// Appends `n` in decimal.
pub fn push_u64(out: &mut String, n: u64)
    ensures
        final(out)@ == old(out)@ + decimal(n as nat),
    decreases n,
{
    if n >= 10 {
        push_u64(out, n / 10);
    }
    out.push(digit_char((n % 10) as u8));
}

/// Appends `i` in decimal.
pub fn push_i64(out: &mut String, i: i64)
    ensures
        final(out)@ == old(out)@ + signed_decimal(i as int),
{
    if i < 0 {
        let magnitude: u64 = (-(i + 1)) as u64 + 1;
        out.push('-');
        push_u64(out, magnitude);
        assert(out@ == old(out)@ + (seq!['-'] + decimal(magnitude as nat)));
    } else {
        push_u64(out, i as u64);
    }
}

/// `i` in decimal.
pub fn i64_text(i: i64) -> (r: String)
    ensures
        r@ == signed_decimal(i as int),
{
    let mut out = String::new();
    push_i64(&mut out, i);
    out
}

/// A number in decimal is made of digits.
pub proof fn decimal_is_digits(n: nat)
    ensures
        decimal(n).len() > 0,
        forall|i: int| 0 <= i < decimal(n).len() ==> '0' <= #[trigger] decimal(n)[i] <= '9',
    decreases n,
{
    if n >= 10 {
        decimal_is_digits(n / 10);
        let before = decimal(n / 10);
        assert forall|i: int| 0 <= i < decimal(n).len() implies '0' <= #[trigger] decimal(n)[i]
            <= '9' by {
            if i < before.len() {
                assert(decimal(n)[i] == before[i]);
            }
        }
    }
}

/// A number below a hundred, padded to two digits, is its two digits.
pub proof fn two_digits(n: nat)
    requires
        n < 100,
    ensures
        padded(n, 2) == seq![digit(n / 10), digit(n % 10)],
{
    reveal_with_fuel(decimal, 2);
    assert(padded(n, 2) == seq![digit(n / 10), digit(n % 10)]);
}

/// A number below ten thousand, padded to four digits, is its four digits.
pub proof fn four_digits(n: nat)
    requires
        n < 10_000,
    ensures
        padded(n, 4) == seq![
            digit(n / 1000),
            digit(n / 100 % 10),
            digit(n / 10 % 10),
            digit(n % 10),
        ],
{
    reveal_with_fuel(decimal, 4);
    assert(n / 100 == n / 10 / 10);
    assert(n / 1000 == n / 10 / 10 / 10);
    assert(padded(n, 4) == seq![
        digit(n / 1000),
        digit(n / 100 % 10),
        digit(n / 10 % 10),
        digit(n % 10),
    ]);
}

/// Appends a number below a hundred with two digits.
pub fn push_two_digits(out: &mut String, n: u64)
    requires
        n < 100,
    ensures
        final(out)@ == old(out)@ + padded(n as nat, 2),
{
    out.push(digit_char((n / 10) as u8));
    out.push(digit_char((n % 10) as u8));
    proof {
        two_digits(n as nat);
    }
    assert(out@ == old(out)@ + padded(n as nat, 2));
}

/// Appends a number below ten thousand with four digits.
pub fn push_four_digits(out: &mut String, n: u64)
    requires
        n < 10_000,
    ensures
        final(out)@ == old(out)@ + padded(n as nat, 4),
{
    out.push(digit_char((n / 1000) as u8));
    out.push(digit_char((n / 100 % 10) as u8));
    out.push(digit_char((n / 10 % 10) as u8));
    out.push(digit_char((n % 10) as u8));
    proof {
        four_digits(n as nat);
    }
    assert(out@ == old(out)@ + padded(n as nat, 4));
}

// ---------------------------------------------------------------------------
// Reading numbers

pub open spec fn is_digit(c: char) -> bool {
    '0' <= c <= '9'
}

pub open spec fn digit_value(c: char) -> int {
    c as int - '0' as int
}

pub open spec fn all_digits(s: Seq<char>) -> bool {
    forall|i: int| 0 <= i < s.len() ==> is_digit(#[trigger] s[i])
}

/// The number that a row of digits stands for.
pub open spec fn digits_value(s: Seq<char>) -> int
    decreases s.len(),
{
    if s.len() == 0 {
        0
    } else {
        digits_value(s.drop_last()) * 10 + digit_value(s.last())
    }
}

/// A text without one `+` in front.
pub open spec fn without_plus(s: Seq<char>) -> Seq<char> {
    if s.len() > 0 && s[0] == '+' {
        s.skip(1)
    } else {
        s
    }
}

/// The number that a text stands for: at least one digit and nothing but
/// digits, with one `+` allowed in front.
pub open spec fn unsigned_value(s: Seq<char>) -> Option<int> {
    let digits = without_plus(s);
    if digits.len() > 0 && all_digits(digits) {
        Some(digits_value(digits))
    } else {
        None
    }
}

proof fn digits_value_grows(s: Seq<char>, n: int)
    requires
        all_digits(s),
        0 <= n <= s.len(),
    ensures
        0 <= digits_value(s.take(n)) <= digits_value(s),
    decreases s.len(),
{
    if n == s.len() {
        assert(s.take(n) == s);
        if s.len() > 0 {
            digits_value_grows(s.drop_last(), s.len() - 1);
            assert(s.drop_last().take(s.len() - 1) == s.drop_last());
            assert(is_digit(s.last()));
        }
    } else {
        digits_value_grows(s.drop_last(), n);
        assert(s.drop_last().take(n) == s.take(n));
        assert(is_digit(s.last()));
    }
}

/// Reads a number that is at most `max`; `None` for any other text.
pub fn parse_unsigned(s: &str, max: u64) -> (r: Option<u64>)
    ensures
        r is Some <==> (unsigned_value(s@) matches Some(v) && v <= max),
        r matches Some(v) ==> v <= max && v == unsigned_value(s@)->0,
{
    let ghost digits = without_plus(s@);
    let ghost skipped: int = s@.len() - digits.len();
    let mut first: bool = true;
    let mut count: bool = false;
    let mut value: u64 = 0;
    for c in it: s.chars()
        invariant
            it.seq() == s@,
            skipped == s@.len() - digits.len(),
            digits == without_plus(s@),
            skipped == (if s@.len() > 0 && s@[0] == '+' { 1int } else { 0int }),
            first == (it.index() == 0),
            count == (it.index() > skipped),
            count ==> all_digits(digits.take(it.index() - skipped)),
            !count ==> value == 0,
            count ==> value == digits_value(digits.take(it.index() - skipped)),
            value <= max,
    {
        let ghost k = it.index() - skipped;
        let sign: bool = first && c == '+';
        first = false;
        if !sign {
            proof {
                assert(0 <= k < digits.len());
                assert(digits[k] == c);
                assert(digits.take(k + 1).drop_last() == digits.take(k));
                assert(k == 0 ==> digits.take(k) == Seq::<char>::empty());
            }
            if c < '0' || c > '9' {
                assert(!all_digits(digits)) by {
                    assert(!is_digit(digits[k]));
                }
                return None;
            }
            let d: u64 = c as u64 - 48;
            assert(digits.take(k + 1).last() == c);
            assert(digits_value(digits.take(k)) == value);
            assert(digits_value(digits.take(k + 1)) == value * 10 + d);
            if value > max / 10 || (value == max / 10 && d > max % 10) {
                assert(value * 10 + d > max);
                proof {
                    if all_digits(digits) {
                        digits_value_grows(digits, k + 1);
                    }
                }
                return None;
            }
            value = value * 10 + d;
            count = true;
            assert(all_digits(digits.take(k + 1))) by {
                assert forall|i: int| 0 <= i < k + 1 implies is_digit(
                    #[trigger] digits.take(k + 1)[i],
                ) by {
                    if i < k {
                        assert(digits.take(k)[i] == digits.take(k + 1)[i]);
                    }
                }
            }
        }
    }
    if count {
        assert(digits.take(digits.len() as int) == digits);
        Some(value)
    } else {
        None
    }
}

/// Two digits stand for the number that they are written from, and a number
/// below a hundred reads back from its two digits.
pub proof fn two_digits_read_back(a: char, b: char)
    requires
        is_digit(a),
        is_digit(b),
    ensures
        unsigned_value(seq![a, b]) == Some(10 * digit_value(a) + digit_value(b)),
        padded((10 * digit_value(a) + digit_value(b)) as nat, 2) == seq![a, b],
{
    let s = seq![a, b];
    reveal_with_fuel(digits_value, 3);
    assert(s.drop_last() == seq![a]);
    assert(seq![a].drop_last() == Seq::<char>::empty());
    assert(without_plus(s) == s);
    two_digits((10 * digit_value(a) + digit_value(b)) as nat);
}

/// Four digits stand for the number that they are written from.
pub proof fn four_digits_read_back(a: char, b: char, c: char, d: char)
    requires
        is_digit(a),
        is_digit(b),
        is_digit(c),
        is_digit(d),
    ensures
        ({
            let n = 1000 * digit_value(a) + 100 * digit_value(b) + 10 * digit_value(c)
                + digit_value(d);
            unsigned_value(seq![a, b, c, d]) == Some(n) && padded(n as nat, 4) == seq![a, b, c, d]
        }),
{
    let s = seq![a, b, c, d];
    let n = 1000 * digit_value(a) + 100 * digit_value(b) + 10 * digit_value(c) + digit_value(d);
    reveal_with_fuel(digits_value, 5);
    assert(s.drop_last() == seq![a, b, c]);
    assert(seq![a, b, c].drop_last() == seq![a, b]);
    assert(seq![a, b].drop_last() == seq![a]);
    assert(seq![a].drop_last() == Seq::<char>::empty());
    assert(without_plus(s) == s);
    four_digits(n as nat);
}

/// A number below a hundred reads back from its two digits.
pub proof fn two_digit_number_reads_back(n: nat)
    requires
        n < 100,
    ensures
        padded(n, 2).len() == 2,
        all_digits(padded(n, 2)),
        digits_value(padded(n, 2)) == n,
{
    two_digits(n);
    two_digits_read_back(digit(n / 10), digit(n % 10));
}

/// A number below ten thousand reads back from its four digits.
#[verifier::spinoff_prover]
#[verifier::rlimit(40)]
pub proof fn four_digit_number_reads_back(n: nat)
    requires
        n < 10_000,
    ensures
        padded(n, 4).len() == 4,
        all_digits(padded(n, 4)),
        digits_value(padded(n, 4)) == n,
{
    let (a, b, c, d) = (n / 1000, n / 100 % 10, n / 10 % 10, n % 10);
    four_digits(n);
    four_digits_read_back(digit(a), digit(b), digit(c), digit(d));
    assert(digit_value(digit(a)) == a && digit_value(digit(b)) == b);
    assert(digit_value(digit(c)) == c && digit_value(digit(d)) == d);
    assert(1000 * a + 100 * b + 10 * c + d == n) by (nonlinear_arith)
        requires
            a == n / 1000,
            b == n / 100 % 10,
            c == n / 10 % 10,
            d == n % 10,
    ;
}

// ---------------------------------------------------------------------------
// HTML escaping

/// What stands for one character in HTML text and attribute values.
pub open spec fn escaped_char(c: char) -> Seq<char> {
    if c == '&' {
        "&amp;"@
    } else if c == '<' {
        "&lt;"@
    } else if c == '>' {
        "&gt;"@
    } else if c == '"' {
        "&quot;"@
    } else if c == '\'' {
        "&#39;"@
    } else {
        seq![c]
    }
}

/// A text with every character replaced by what stands for it in HTML.
pub open spec fn escaped(s: Seq<char>) -> Seq<char>
    decreases s.len(),
{
    if s.len() == 0 {
        Seq::empty()
    } else {
        escaped(s.drop_last()) + escaped_char(s.last())
    }
}

/// `s` made safe to stand in HTML text and attribute values.
pub fn html_escape(s: &str) -> (r: String)
    ensures
        r@ == escaped(s@),
{
    let mut out = String::new();
    assert(s@.take(0) == Seq::<char>::empty());
    for c in it: s.chars()
        invariant
            it.seq() == s@,
            out@ == escaped(s@.take(it.index() as int)),
    {
        assert(s@.take(it.index() + 1).drop_last() == s@.take(it.index() as int));
        match c {
            '&' => out.append("&amp;"),
            '<' => out.append("&lt;"),
            '>' => out.append("&gt;"),
            '"' => out.append("&quot;"),
            '\'' => out.append("&#39;"),
            _ => out.push(c),
        }
        assert(out@ == escaped(s@.take(it.index() + 1)));
    }
    assert(s@.take(s@.len() as int) == s@);
    out
}

/// Escaped text holds none of the characters that open or close a tag or an
/// attribute value.
pub proof fn escaped_text_holds_no_markup(s: Seq<char>, i: int)
    requires
        0 <= i < escaped(s).len(),
    ensures
        escaped(s)[i] != '<',
        escaped(s)[i] != '>',
        escaped(s)[i] != '"',
        escaped(s)[i] != '\'',
    decreases s.len(),
{
    let before = escaped(s.drop_last());
    if i < before.len() {
        escaped_text_holds_no_markup(s.drop_last(), i);
    } else {
        reveal_strlit("&amp;");
        reveal_strlit("&lt;");
        reveal_strlit("&gt;");
        reveal_strlit("&quot;");
        reveal_strlit("&#39;");
    }
}

proof fn escaped_from_the_front(s: Seq<char>)
    requires
        s.len() > 0,
    ensures
        escaped(s) == escaped_char(s[0]) + escaped(s.drop_first()),
    decreases s.len(),
{
    if s.len() == 1 {
        assert(s.drop_last() == Seq::<char>::empty());
        assert(s.drop_first() == Seq::<char>::empty());
        assert(escaped(s) == escaped_char(s[0]) + escaped(s.drop_first()));
    } else {
        escaped_from_the_front(s.drop_last());
        assert(s.drop_last().drop_first() == s.drop_first().drop_last());
        assert(escaped(s) == escaped_char(s[0]) + escaped(s.drop_first()));
    }
}

/// Escaping loses nothing: two texts that escape alike are the same text.
pub proof fn escaping_is_injective(a: Seq<char>, b: Seq<char>)
    requires
        escaped(a) == escaped(b),
    ensures
        a == b,
    decreases a.len(),
{
    reveal_strlit("&amp;");
    reveal_strlit("&lt;");
    reveal_strlit("&gt;");
    reveal_strlit("&quot;");
    reveal_strlit("&#39;");
    if a.len() > 0 {
        escaped_from_the_front(a);
    }
    if b.len() > 0 {
        escaped_from_the_front(b);
    }
    if a.len() == 0 {
        assert(b.len() == 0) by {
            if b.len() > 0 {
                assert(escaped(b).len() == 0);
            }
        }
        assert(a == b);
    } else if b.len() == 0 {
        assert(escaped(a).len() == 0);
        assert(false);
    } else {
        let ea = escaped_char(a[0]);
        let eb = escaped_char(b[0]);
        let e = escaped(a);
        assert(ea.len() > 0 && eb.len() > 0);
        assert(e[0] == ea[0] && e[0] == eb[0]);
        if e[0] == '&' {
            assert(e[1] == ea[1] && e[1] == eb[1]);
        }
        assert(a[0] == b[0]);
        assert(escaped(a.drop_first()) == e.skip(ea.len() as int));
        assert(escaped(b.drop_first()) == e.skip(ea.len() as int));
        escaping_is_injective(a.drop_first(), b.drop_first());
        assert(a == seq![a[0]] + a.drop_first());
        assert(b == seq![b[0]] + b.drop_first());
    }
}

// ---------------------------------------------------------------------------
// Cutting text

/// The part of a text before the slashes at its end.
pub open spec fn without_end_slashes(s: Seq<char>) -> Seq<char>
    decreases s.len(),
{
    if s.len() > 0 && s.last() == '/' {
        without_end_slashes(s.drop_last())
    } else {
        s
    }
}

/// `s` without the slashes at its end.
pub fn trim_end_slashes(s: &str) -> (r: String)
    ensures
        r@ == without_end_slashes(s@),
{
    let mut n: usize = s.unicode_len();
    assert(s@.take(n as int) == s@);
    while n > 0
        invariant_except_break
            n <= s@.len(),
            without_end_slashes(s@) == without_end_slashes(s@.take(n as int)),
        ensures
            n <= s@.len(),
            s@.take(n as int) == without_end_slashes(s@),
        decreases n,
    {
        if s.get_char(n - 1) != '/' {
            break;
        }
        assert(s@.take(n as int).drop_last() == s@.take(n - 1));
        n = n - 1;
    }
    s.substring_char(0, n).to_owned()
}

/// A text without the slashes at its end does not end with a slash, and is
/// the beginning of the text.
pub proof fn no_slash_at_the_end(s: Seq<char>)
    ensures
        without_end_slashes(s).is_prefix_of(s),
        without_end_slashes(s).len() > 0 ==> without_end_slashes(s).last() != '/',
    decreases s.len(),
{
    if s.len() > 0 && s.last() == '/' {
        no_slash_at_the_end(s.drop_last());
    }
}

/// The first `n` characters of a text, or all of a shorter one.
pub open spec fn first_chars(s: Seq<char>, n: nat) -> Seq<char> {
    if s.len() <= n {
        s
    } else {
        s.take(n as int)
    }
}

/// The first `n` characters of `s`, or all of it where it is shorter.
pub fn take_chars(s: &str, n: usize) -> (r: String)
    ensures
        r@ == first_chars(s@, n as nat),
{
    if s.unicode_len() <= n {
        s.to_owned()
    } else {
        s.substring_char(0, n).to_owned()
    }
}

// ---------------------------------------------------------------------------
// What the building blocks promise

/// Whether a text holds another one somewhere.
pub open spec fn holds(s: Seq<char>, part: Seq<char>) -> bool {
    exists|i: int| is_at(s, part, i)
}

/// Whether a text holds another one at a place.
pub open spec fn is_at(s: Seq<char>, part: Seq<char>, i: int) -> bool {
    0 <= i && i + part.len() <= s.len() && s.subrange(i, i + part.len()) == part
}

/// A text holds itself.
pub proof fn texts_hold_themselves(s: Seq<char>)
    ensures
        holds(s, s),
{
    assert(s.subrange(0, s.len() as int) =~= s);
    assert(is_at(s, s, 0));
}

/// What a text holds it still holds with another text put behind it or in front
/// of it.
pub broadcast proof fn longer_texts_hold_more(a: Seq<char>, b: Seq<char>, part: Seq<char>)
    ensures
        #![trigger holds(a + b, part)]
        holds(a, part) || holds(b, part) ==> holds(a + b, part),
{
    if holds(a, part) {
        let i = choose|i: int| is_at(a, part, i);
        assert((a + b).subrange(i, i + part.len()) =~= a.subrange(i, i + part.len()));
        assert(is_at(a + b, part, i));
    } else if holds(b, part) {
        let i = choose|i: int| is_at(b, part, i);
        assert((a + b).subrange(a.len() + i, a.len() + i + part.len()) =~= b.subrange(
            i,
            i + part.len(),
        ));
        assert(is_at(a + b, part, a.len() + i));
    }
}

/// A number, written in decimal, reads back as itself, and has no zero in front.
pub proof fn decimals_read_back(n: nat)
    ensures
        all_digits(decimal(n)),
        digits_value(decimal(n)) == n,
        decimal(n).len() > 0,
        decimal(n)[0] == '0' ==> n == 0,
        unsigned_value(decimal(n)) == Some(n as int),
    decreases n,
{
    if n >= 10 {
        decimals_read_back(n / 10);
        assert(decimal(n).drop_last() =~= decimal(n / 10));
        assert(decimal(n)[0] == decimal(n / 10)[0]);
        assert(digit_value(digit(n % 10)) == n % 10);
        assert forall|i: int| 0 <= i < decimal(n).len() implies is_digit(
            #[trigger] decimal(n)[i],
        ) by {
            if i < decimal(n / 10).len() {
                assert(decimal(n)[i] == decimal(n / 10)[i]);
            }
        }
    } else {
        let one = seq![digit(n)];
        assert(one.drop_last() =~= Seq::<char>::empty());
        assert(digits_value(one.drop_last()) == 0);
        assert(digit_value(digit(n)) == n);
    }
    assert(is_digit(decimal(n)[0]));
    assert(without_plus(decimal(n)) == decimal(n));
}

/// A negative number is its amount behind a minus sign.
pub proof fn signs_stand_in_front(i: int)
    ensures
        i >= 0 ==> signed_decimal(i) == decimal(i as nat),
        i < 0 ==> signed_decimal(i)[0] == '-' && signed_decimal(i).skip(1) == decimal((-i) as nat),
{
    if i < 0 {
        assert(signed_decimal(i).skip(1) =~= decimal((-i) as nat));
    }
}

/// A number is filled up with zeros to its width and never cut.
pub proof fn numbers_are_filled_up(n: nat, width: nat)
    ensures
        padded(n, width).len() == (if decimal(n).len() >= width {
            decimal(n).len()
        } else {
            width
        }),
        padded(n, width).skip(padded(n, width).len() - decimal(n).len()) == decimal(n),
        forall|i: int|
            0 <= i < padded(n, width).len() - decimal(n).len() ==> #[trigger] padded(n, width)[i]
                == '0',
{
    assert(padded(n, width).skip(padded(n, width).len() - decimal(n).len()) =~= decimal(n));
}

/// A number is read from its digits, one `+` in front of them or none, and from
/// nothing else.
pub proof fn numbers_are_read_from_digits(s: Seq<char>)
    ensures
        s.len() > 0 && all_digits(s) ==> unsigned_value(s) == Some(digits_value(s)),
        s.len() > 1 && s[0] == '+' && all_digits(s.skip(1)) ==> unsigned_value(s) == Some(
            digits_value(s.skip(1)),
        ),
        unsigned_value(s) is Some ==> (s.len() > 0 && all_digits(s)) || (s.len() > 1 && s[0] == '+'
            && all_digits(s.skip(1))),
{
    if s.len() > 0 && all_digits(s) {
        assert(is_digit(s[0]));
    }
}

/// A digit more makes a number ten times as large, and that much more.
pub proof fn digits_count_tens(s: Seq<char>, c: char)
    requires
        '0' <= c <= '9',
    ensures
        digits_value(s.push(c)) == 10 * digits_value(s) + (c as int - '0' as int),
        digits_value(Seq::empty()) == 0,
        is_digit(c),
{
    assert(s.push(c).drop_last() =~= s);
}

/// Texts are escaped character by character: the five characters that HTML gives
/// a meaning are replaced, every other one stays as it is.
pub proof fn texts_are_escaped_one_by_one(a: Seq<char>, b: Seq<char>, c: char)
    ensures
        escaped(a + b) == escaped(a) + escaped(b),
        escaped(Seq::empty()).len() == 0,
        c == '&' ==> escaped(seq![c]) == "&amp;"@,
        c == '<' ==> escaped(seq![c]) == "&lt;"@,
        c == '>' ==> escaped(seq![c]) == "&gt;"@,
        c == '"' ==> escaped(seq![c]) == "&quot;"@,
        c == '\'' ==> escaped(seq![c]) == "&#39;"@,
        c != '&' && c != '<' && c != '>' && c != '"' && c != '\'' ==> escaped(seq![c]) == seq![c],
    decreases b.len(),
{
    assert(seq![c].drop_last() =~= Seq::<char>::empty());
    assert(escaped(seq![c].drop_last()) =~= Seq::<char>::empty());
    assert(escaped(seq![c]) =~= escaped_char(c));
    if b.len() == 0 {
        assert(a + b =~= a);
        assert(escaped(a) + escaped(b) =~= escaped(a));
    } else {
        texts_are_escaped_one_by_one(a, b.drop_last(), c);
        assert((a + b).drop_last() =~= a + b.drop_last());
        assert(escaped(a + b) =~= escaped(a) + escaped(b));
    }
}

/// Only slashes are taken off the end of a text, and all of them.
pub proof fn only_slashes_are_taken_off(s: Seq<char>)
    ensures
        ({
            let t = without_end_slashes(s);
            &&& t.is_prefix_of(s)
            &&& t.len() > 0 ==> t.last() != '/'
            &&& forall|i: int| t.len() <= i < s.len() ==> #[trigger] s[i] == '/'
        }),
    decreases s.len(),
{
    if s.len() > 0 && s.last() == '/' {
        only_slashes_are_taken_off(s.drop_last());
        assert forall|i: int| without_end_slashes(s).len() <= i < s.len() implies #[trigger] s[i]
            == '/' by {
            if i < s.len() - 1 {
                assert(s.drop_last()[i] == s[i]);
            }
        }
    }
}

/// The first characters of a text: all of them where there are no more than
/// allowed.
pub proof fn first_characters_are_kept(s: Seq<char>, n: nat)
    ensures
        first_chars(s, n).is_prefix_of(s),
        first_chars(s, n).len() == (if s.len() <= n {
            s.len()
        } else {
            n
        }),
{
}

} // verus!
