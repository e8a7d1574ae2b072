//! Building text: numbers in decimal and hexadecimal, padding, path leaves.

use vstd::prelude::*;
use vstd::string::*;

verus! {

/// Appends one character. The body is `String::push`, documented to append
/// the given `char` to the end of the string.
#[verifier::external_body]
pub(crate) fn push_char(out: &mut String, c: char)
    ensures
        final(out)@ == old(out)@.push(c),
{
    out.push(c);
}

/// Quotes and escapes text the way `{:?}` does for `str`. What `Debug for str`
/// escapes is decided by std's Unicode tables, so the result carries a name
/// and nothing further is claimed of it.
#[verifier::external_body]
pub(crate) fn debug_quote(s: &str) -> (r: String)
    ensures
        r@ == debug_quoted(s@),
{
    format!("{:?}", s)
}

/// What `format!("{:?}", s)` gives for a string slice `s`.
pub uninterp spec fn debug_quoted(s: Seq<char>) -> Seq<char>;

/// The character that stands for `d` in base ten or sixteen.
pub open spec fn digit_char(d: nat, upper: bool) -> char {
    if d < 10 {
        (('0' as u32) + d) as char
    } else if upper {
        (('A' as u32) + (d - 10)) as char
    } else {
        (('a' as u32) + (d - 10)) as char
    }
}

/// The value of a digit character, either case.
pub open spec fn digit_value(c: char) -> nat {
    if '0' <= c && c <= '9' {
        (c as u32 - '0' as u32) as nat
    } else if 'A' <= c && c <= 'F' {
        (c as u32 - 'A' as u32 + 10) as nat
    } else {
        (c as u32 - 'a' as u32 + 10) as nat
    }
}

/// The digits of `n` in `base`, most significant first, without leading zeros.
pub open spec fn digits(n: nat, base: nat, upper: bool) -> Seq<char>
    decreases n,
{
    if base < 2 {
        seq![]
    } else if n < base {
        seq![digit_char(n, upper)]
    } else {
        proof {
            assert(n / base < n) by (nonlinear_arith)
                requires
                    n >= base,
                    base >= 2,
            ;
        }
        digits(n / base, base, upper).push(digit_char(n % base, upper))
    }
}

/// The number that a digit string stands for in `base`.
pub open spec fn digits_value(s: Seq<char>, base: nat) -> nat
    decreases s.len(),
{
    if s.len() == 0 {
        0
    } else {
        digits_value(s.drop_last(), base) * base + digit_value(s.last())
    }
}

/// `n` in decimal.
pub open spec fn dec(n: nat) -> Seq<char> {
    digits(n, 10, true)
}

/// `n` in upper-case hexadecimal.
pub open spec fn hex(n: nat) -> Seq<char> {
    digits(n, 16, true)
}

/// `n` zeros.
pub open spec fn zeros(n: nat) -> Seq<char> {
    Seq::new(n, |i: int| '0')
}

/// `s` with zeros in front until it is `width` characters long.
pub open spec fn zero_padded(s: Seq<char>, width: nat) -> Seq<char> {
    if s.len() >= width {
        s
    } else {
        zeros((width - s.len()) as nat) + s
    }
}

proof fn lemma_digit_char(d: nat, upper: bool)
    requires
        d < 16,
    ensures
        digit_value(digit_char(d, upper)) == d,
{
}

/// A number written in base ten or sixteen reads back as itself.
pub proof fn law_digits_read_back(n: nat, base: nat, upper: bool)
    requires
        2 <= base <= 16,
    ensures
        digits_value(digits(n, base, upper), base) == n,
    decreases n,
{
    if n < base {
        lemma_digit_char(n, upper);
        let s = digits(n, base, upper);
        assert(s.drop_last() =~= Seq::<char>::empty());
        assert(digits_value(s.drop_last(), base) == 0);
        assert(digits_value(s, base) == 0 * base + n);
        assert(0 * base == 0) by (nonlinear_arith);
    } else {
        assert(n / base < n) by (nonlinear_arith)
            requires
                n >= base,
                base >= 2,
        ;
        law_digits_read_back(n / base, base, upper);
        assert(n % base < base) by (nonlinear_arith)
            requires
                base >= 2,
        ;
        lemma_digit_char(n % base, upper);
        let s = digits(n, base, upper);
        assert(s.drop_last() =~= digits(n / base, base, upper));
        assert((n / base) * base + n % base == n) by (nonlinear_arith)
            requires
                base >= 2,
        ;
    }
}

/// Two numbers written alike are the same number.
pub proof fn law_digits_injective(a: nat, b: nat, base: nat, upper: bool)
    requires
        2 <= base <= 16,
        digits(a, base, upper) == digits(b, base, upper),
    ensures
        a == b,
{
    law_digits_read_back(a, base, upper);
    law_digits_read_back(b, base, upper);
}

/// The character for a digit below sixteen.
pub fn digit(d: u64, upper: bool) -> (c: char)
    requires
        d < 16,
    ensures
        c == digit_char(d as nat, upper),
{
    let base: u8 = if d < 10 {
        48u8
    } else if upper {
        55u8
    } else {
        87u8
    };
    let small: u8 = d as u8;
    (base + small) as char
}

fn push_digits(out: &mut String, n: u64, base: u64, upper: bool)
    requires
        2 <= base <= 16,
    ensures
        final(out)@ == old(out)@ + digits(n as nat, base as nat, upper),
    decreases n,
{
    if n < base {
        push_char(out, digit(n, upper));
        assert(out@ =~= old(out)@ + digits(n as nat, base as nat, upper));
    } else {
        assert(n / base < n) by (nonlinear_arith)
            requires
                n >= base,
                base >= 2,
        ;
        push_digits(out, n / base, base, upper);
        let ghost mid = out@;
        assert(n % base < base) by (nonlinear_arith)
            requires
                base >= 2,
        ;
        push_char(out, digit(n % base, upper));
        assert(out@ =~= old(out)@ + digits(n as nat, base as nat, upper));
    }
}

/// Appends `n` in decimal.
pub fn push_dec(out: &mut String, n: u64)
    ensures
        final(out)@ == old(out)@ + dec(n as nat),
{
    push_digits(out, n, 10, true);
}

/// Appends `n` in upper-case hexadecimal.
pub fn push_hex(out: &mut String, n: u64)
    ensures
        final(out)@ == old(out)@ + hex(n as nat),
{
    push_digits(out, n, 16, true);
}

/// Appends `n` in hexadecimal with leading zeros up to `width` characters.
pub fn push_hex_padded(out: &mut String, n: u64, width: usize, upper: bool)
    ensures
        final(out)@ == old(out)@ + zero_padded(digits(n as nat, 16, upper), width as nat),
{
    let mut body = String::new();
    push_digits(&mut body, n, 16, upper);
    assert(body@ =~= digits(n as nat, 16, upper));
    let len: usize = body.as_str().unicode_len();
    let mut i: usize = len;
    while i < width
        invariant
            len <= i,
            i <= width || i == len,
            len == digits(n as nat, 16, upper).len(),
            out@ == old(out)@ + zeros((i - len) as nat),
        decreases width - i,
    {
        push_char(out, '0');
        i = i + 1;
        assert(out@ =~= old(out)@ + zeros((i - len) as nat));
    }
    out.append(body.as_str());
    assert(out@ =~= old(out)@ + zero_padded(digits(n as nat, 16, upper), width as nat));
}

/// Joins two pieces of text.
pub fn join2(a: &str, b: &str) -> (r: String)
    ensures
        r@ == a@ + b@,
{
    let mut out = String::new();
    out.append(a);
    out.append(b);
    assert(out@ =~= a@ + b@);
    out
}

/// `n` in decimal, as a string of its own.
pub fn dec_string(n: u64) -> (r: String)
    ensures
        r@ == dec(n as nat),
{
    let mut out = String::new();
    push_dec(&mut out, n);
    assert(out@ =~= dec(n as nat));
    out
}

/// `prefix` followed by `n` in decimal.
pub fn numbered(prefix: &str, n: u64) -> (r: String)
    ensures
        r@ == prefix@ + dec(n as nat),
{
    let mut out = String::new();
    out.append(prefix);
    push_dec(&mut out, n);
    assert(out@ =~= prefix@ + dec(n as nat));
    out
}

/// A letter A to Z as its lower-case form, any other character as it is.
pub open spec fn ascii_lower(c: char) -> char {
    if 'A' <= c && c <= 'Z' {
        ((c as u32) + 32) as char
    } else {
        c
    }
}

/// Text with the letters A to Z in lower case.
pub open spec fn lowered(s: Seq<char>) -> Seq<char> {
    s.map_values(|c: char| ascii_lower(c))
}

/// The lower-case form of a letter A to Z.
pub fn lower_char(c: char) -> (r: char)
    ensures
        r == ascii_lower(c),
{
    if 'A' <= c && c <= 'Z' {
        ((c as u8) + 32) as char
    } else {
        c
    }
}

/// Whether two texts are the same but for the case of the letters A to Z.
pub fn eq_ignore_ascii_case(a: &str, b: &str) -> (r: bool)
    ensures
        r == (lowered(a@) == lowered(b@)),
{
    let n: usize = a.unicode_len();
    if n != b.unicode_len() {
        assert(lowered(a@).len() != lowered(b@).len());
        return false;
    }
    let mut i: usize = 0;
    while i < n
        invariant
            i <= n,
            n == a@.len(),
            n == b@.len(),
            forall|j: int| 0 <= j < i ==> ascii_lower(a@[j]) == ascii_lower(b@[j]),
        decreases n - i,
    {
        if lower_char(a.get_char(i)) != lower_char(b.get_char(i)) {
            assert(lowered(a@)[i as int] != lowered(b@)[i as int]);
            return false;
        }
        i = i + 1;
    }
    assert(lowered(a@) =~= lowered(b@));
    true
}

/// Whether two texts are the same.
pub fn text_eq(a: &str, b: &str) -> (r: bool)
    ensures
        r == (a@ == b@),
{
    a.to_owned() == b.to_owned()
}

/// A text with its ASCII letters in lower case.
pub fn lower_text(text: &str) -> (r: String)
    ensures
        r@ == lowered(text@),
{
    let len: usize = text.unicode_len();
    let mut out = String::new();
    let mut i: usize = 0;
    while i < len
        invariant
            len == text@.len(),
            i <= len,
            out@ =~= lowered(text@).take(i as int),
        decreases len - i,
    {
        push_char(&mut out, lower_char(text.get_char(i)));
        i = i + 1;
        assert(out@ =~= lowered(text@).take(i as int));
    }
    assert(lowered(text@).take(len as int) =~= lowered(text@));
    out
}

/// Whether a character is a blank: whether it has Unicode's property
/// `White_Space`.
pub open spec fn blank(c: char) -> bool {
    ||| '\u{9}' <= c <= '\u{d}'
    ||| c == ' '
    ||| c == '\u{85}'
    ||| c == '\u{a0}'
    ||| c == '\u{1680}'
    ||| '\u{2000}' <= c <= '\u{200a}'
    ||| '\u{2028}' <= c <= '\u{2029}'
    ||| c == '\u{202f}'
    ||| c == '\u{205f}'
    ||| c == '\u{3000}'
}

/// Tells whether a character is a blank.
pub fn is_blank(c: char) -> (r: bool)
    ensures
        r == blank(c),
{
    ('\u{9}' <= c && c <= '\u{d}') || c == ' ' || c == '\u{85}' || c == '\u{a0}' || c
        == '\u{1680}' || ('\u{2000}' <= c && c <= '\u{200a}') || ('\u{2028}' <= c && c
        <= '\u{2029}') || c == '\u{202f}' || c == '\u{205f}' || c == '\u{3000}'
}

/// Text without the blanks in front of it.
pub open spec fn front_trimmed(s: Seq<char>) -> Seq<char>
    decreases s.len(),
{
    if s.len() > 0 && blank(s[0]) {
        front_trimmed(s.drop_first())
    } else {
        s
    }
}

/// Text without the blanks behind it.
pub open spec fn back_trimmed(s: Seq<char>) -> Seq<char>
    decreases s.len(),
{
    if s.len() > 0 && blank(s.last()) {
        back_trimmed(s.drop_last())
    } else {
        s
    }
}

/// Text without the blanks around it.
pub open spec fn trimmed(s: Seq<char>) -> Seq<char> {
    back_trimmed(front_trimmed(s))
}

/// Nothing is left to trim of what was trimmed.
pub proof fn law_trimmed_has_no_blank_ends(s: Seq<char>)
    ensures
        trimmed(s).len() > 0 ==> !blank(trimmed(s)[0]) && !blank(trimmed(s).last()),
        trimmed(trimmed(s)) == trimmed(s),
{
    lemma_front_trimmed(s);
    lemma_back_trimmed(front_trimmed(s));
}

proof fn lemma_front_trimmed(s: Seq<char>)
    ensures
        front_trimmed(s).len() > 0 ==> !blank(front_trimmed(s)[0]),
    decreases s.len(),
{
    if s.len() > 0 && blank(s[0]) {
        lemma_front_trimmed(s.drop_first());
    }
}

proof fn lemma_back_trimmed(s: Seq<char>)
    ensures
        back_trimmed(s).len() > 0 ==> !blank(back_trimmed(s).last()) && back_trimmed(s)[0] == s[0],
        back_trimmed(s).len() <= s.len(),
    decreases s.len(),
{
    if s.len() > 0 && blank(s.last()) {
        lemma_back_trimmed(s.drop_last());
    }
}

/// Takes the blanks in front of text away.
pub fn trim_start(text: &str) -> (r: String)
    ensures
        r@ == front_trimmed(text@),
{
    let len: usize = text.unicode_len();
    let mut start: usize = 0;
    assert(text@.skip(0) =~= text@);
    while start < len && is_blank(text.get_char(start))
        invariant
            len == text@.len(),
            start <= len,
            front_trimmed(text@.skip(start as int)) == front_trimmed(text@),
        decreases len - start,
    {
        assert(text@.skip(start as int).drop_first() =~= text@.skip(start + 1));
        start = start + 1;
    }
    assert(text@.subrange(start as int, len as int) =~= text@.skip(start as int));
    text.substring_char(start, len).to_owned()
}

/// Takes the blanks around text away.
pub fn trim(text: &str) -> (r: String)
    ensures
        r@ == trimmed(text@),
{
    let front = trim_start(text);
    let rest: &str = front.as_str();
    let len: usize = rest.unicode_len();
    let mut end: usize = len;
    assert(rest@.take(len as int) =~= rest@);
    while end > 0 && is_blank(rest.get_char(end - 1))
        invariant
            len == rest@.len(),
            end <= len,
            back_trimmed(rest@.take(end as int)) == back_trimmed(rest@),
        decreases end,
    {
        assert(rest@.take(end as int).drop_last() =~= rest@.take(end - 1));
        end = end - 1;
    }
    assert(rest@.subrange(0, end as int) =~= rest@.take(end as int));
    rest.substring_char(0, end).to_owned()
}

/// Whether a character is a decimal digit.
pub open spec fn dec_digit(c: char) -> bool {
    '0' <= c && c <= '9'
}

/// What may follow a plus sign.
pub open spec fn unsigned_part(s: Seq<char>) -> Seq<char> {
    if s.len() > 0 && s[0] == '+' {
        s.drop_first()
    } else {
        s
    }
}

/// The number that text stands for: decimal digits and nothing else, but for a
/// plus sign in front.
pub open spec fn parsed_dec(s: Seq<char>) -> Option<u64> {
    let d = unsigned_part(s);
    if d.len() > 0 && (forall|i: int| 0 <= i < d.len() ==> dec_digit(#[trigger] d[i]))
        && digits_value(d, 10) <= u64::MAX {
        Some(digits_value(d, 10) as u64)
    } else {
        None
    }
}

/// Reading more digits gives no smaller number.
proof fn lemma_digits_value_grows(s: Seq<char>, n: int)
    requires
        0 <= n <= s.len(),
    ensures
        digits_value(s.take(n), 10) <= digits_value(s, 10),
    decreases s.len() - n,
{
    if n < s.len() {
        assert(s.take(n + 1).drop_last() =~= s.take(n));
        lemma_digits_value_grows(s, n + 1);
    } else {
        assert(s.take(n) =~= s);
    }
}

/// Reads a decimal number.
pub fn parse_dec(text: &str) -> (r: Option<u64>)
    ensures
        r == parsed_dec(text@),
{
    let len: usize = text.unicode_len();
    let first: usize = if len > 0 && text.get_char(0) == '+' {
        1
    } else {
        0
    };
    let ghost d = unsigned_part(text@);
    assert(d =~= text@.skip(first as int));
    if first == len {
        return None;
    }
    let mut n: u64 = 0;
    let mut i: usize = first;
    assert(d.take(0) =~= seq![]);
    while i < len
        invariant
            len == text@.len(),
            first <= i <= len,
            d == text@.skip(first as int),
            d == unsigned_part(text@),
            n == digits_value(d.take(i - first), 10),
            forall|j: int| 0 <= j < i - first ==> dec_digit(#[trigger] d[j]),
        decreases len - i,
    {
        let c = text.get_char(i);
        assert(c == d[i - first]);
        if !('0' <= c && c <= '9') {
            return None;
        }
        let v: u64 = (c as u64) - ('0' as u64);
        assert(d.take(i - first + 1).drop_last() =~= d.take(i - first));
        proof {
            lemma_digits_value_grows(d, i - first + 1);
        }
        if n > (u64::MAX - v) / 10 {
            return None;
        }
        n = n * 10 + v;
        i = i + 1;
    }
    assert(d.take(i - first) =~= d);
    Some(n)
}

/// A number that was written is read back.
pub proof fn law_dec_read_back(n: u64)
    ensures
        parsed_dec(dec(n as nat)) == Some(n),
{
    lemma_dec_digits(n as nat);
    law_digits_read_back(n as nat, 10, true);
}

proof fn lemma_dec_digits(n: nat)
    ensures
        dec(n).len() > 0,
        forall|i: int| 0 <= i < dec(n).len() ==> dec_digit(#[trigger] dec(n)[i]),
    decreases n,
{
    if n >= 10 {
        lemma_dec_digits(n / 10);
    }
}

/// A number below ten is one decimal digit; any other is written as its tenth part
/// followed by its last digit.
pub proof fn law_decimal_digits(n: nat)
    ensures
        n < 10 ==> dec(n) == seq![(48 + n) as char],
        n >= 10 ==> dec(n) == dec(n / 10).push((48 + n % 10) as char),
{
}

/// A number below sixteen is one hexadecimal digit, a letter from ten on; any other
/// is written as its sixteenth part followed by its last digit.
pub proof fn law_hexadecimal_digits(n: nat)
    ensures
        n < 10 ==> hex(n) == seq![(48 + n) as char],
        10 <= n < 16 ==> hex(n) == seq![(55 + n) as char],
        n >= 16 ==> hex(n) == hex(n / 16) + hex(n % 16),
{
    if n >= 16 {
        assert(n % 16 < 16);
        assert(hex(n) =~= hex(n / 16) + hex(n % 16));
    }
}

/// Padding puts zeros in front, no more than are needed, and keeps the text behind
/// them.
pub proof fn law_padding_keeps_digits(s: Seq<char>, width: nat)
    ensures
        zero_padded(s, width).len() == if s.len() < width {
            width
        } else {
            s.len()
        },
        zero_padded(s, width).skip(zero_padded(s, width).len() - s.len()) == s,
        forall|i: int|
            0 <= i < zero_padded(s, width).len() - s.len() ==> #[trigger] zero_padded(s, width)[i]
                == '0',
{
}

/// Trimming takes nothing but blanks away, and only from the two ends.
pub proof fn law_trim_keeps_the_middle(s: Seq<char>)
    ensures
        exists|i: int, j: int|
            0 <= i <= j <= s.len() && trimmed(s) == #[trigger] s.subrange(i, j) && (forall|k: int|
                (0 <= k < i || j <= k < s.len()) ==> blank(#[trigger] s[k])),
{
    let i = lemma_front_cut(s);
    let front = front_trimmed(s);
    let n = lemma_back_cut(front);
    let j = i + n;
    assert(trimmed(s) =~= s.subrange(i, j));
    assert forall|k: int| (0 <= k < i || j <= k < s.len()) implies blank(#[trigger] s[k]) by {
        if k >= j {
            assert(s[k] == front[k - i]);
        }
    }
}

proof fn lemma_front_cut(s: Seq<char>) -> (i: int)
    ensures
        0 <= i <= s.len(),
        front_trimmed(s) == s.skip(i),
        forall|k: int| 0 <= k < i ==> blank(#[trigger] s[k]),
    decreases s.len(),
{
    if s.len() > 0 && blank(s[0]) {
        let rest = s.drop_first();
        let i = lemma_front_cut(rest);
        assert(rest.skip(i) =~= s.skip(i + 1));
        assert forall|k: int| 0 <= k < i + 1 implies blank(#[trigger] s[k]) by {
            if k > 0 {
                assert(s[k] == rest[k - 1]);
            }
        }
        i + 1
    } else {
        assert(s.skip(0) =~= s);
        0
    }
}

proof fn lemma_back_cut(s: Seq<char>) -> (n: int)
    ensures
        0 <= n <= s.len(),
        back_trimmed(s) == s.take(n),
        forall|k: int| n <= k < s.len() ==> blank(#[trigger] s[k]),
    decreases s.len(),
{
    if s.len() > 0 && blank(s.last()) {
        let rest = s.drop_last();
        let n = lemma_back_cut(rest);
        assert(rest.take(n) =~= s.take(n));
        assert forall|k: int| n <= k < s.len() implies blank(#[trigger] s[k]) by {
            if k < rest.len() {
                assert(s[k] == rest[k]);
            }
        }
        n
    } else {
        assert(s.take(s.len() as int) =~= s);
        s.len() as int
    }
}

/// Spaces, tabs and line ends are blanks; no other visible or ASCII character is.
pub proof fn law_blanks(c: char)
    requires
        (c as u32) < 0x80,
    ensures
        blank(c) <==> c == ' ' || c == '\t' || c == '\n' || c == '\r' || c as u32 == 11 || c as u32
            == 12,
{
}

/// Lower case keeps every character but the letters A to Z, and those become the
/// letter thirty-two places on.
pub proof fn law_lower_case_letters(s: Seq<char>, i: int)
    requires
        0 <= i < s.len(),
    ensures
        lowered(s).len() == s.len(),
        65 <= s[i] as u32 <= 90 ==> lowered(s)[i] as u32 == s[i] as u32 + 32,
        !(65 <= s[i] as u32 <= 90) ==> lowered(s)[i] == s[i],
{
}

/// Decimal text is read digit by digit: one digit more makes the number ten times as
/// large and adds the digit, and what is no digit or does not fit makes it no number.
/// A plus sign in front does not matter.
pub proof fn law_decimal_text_is_read(s: Seq<char>, c: char)
    ensures
        parsed_dec(seq![]) is None,
        48 <= c as u32 <= 57 ==> parsed_dec(seq![c]) == Some((c as u32 - 48) as u64),
        !(48 <= c as u32 <= 57) ==> parsed_dec(s.push(c)) is None,
        48 <= c as u32 <= 57 ==> (parsed_dec(s) matches Some(v) ==> parsed_dec(s.push(c)) == (if 10
            * v + (c as u32 - 48) <= u64::MAX {
            Some((10 * v + (c as u32 - 48)) as u64)
        } else {
            None
        })),
        (s.len() > 0 && s[0] != '+') ==> parsed_dec(seq!['+'] + s) == parsed_dec(s),
{
    let one = seq![c];
    assert(one.drop_last() =~= Seq::<char>::empty());
    assert(digits_value(one.drop_last(), 10) == 0);
    let more = s.push(c);
    if s.len() > 0 {
        assert(unsigned_part(more) =~= unsigned_part(s).push(c));
    } else {
        assert(more =~= one);
    }
    let d = unsigned_part(s);
    assert(d.push(c).drop_last() =~= d);
    assert(d.push(c)[d.len() as int] == c);
    if parsed_dec(s) is Some && 48 <= c as u32 <= 57 {
        assert forall|i: int| 0 <= i < d.push(c).len() implies dec_digit(
            #[trigger] d.push(c)[i],
        ) by {
            if i < d.len() {
                assert(d.push(c)[i] == d[i]);
            }
        }
    }
    if !(48 <= c as u32 <= 57) {
        if s.len() == 0 {
            if c == '+' {
                assert(unsigned_part(more) =~= Seq::<char>::empty());
            } else {
                assert(!dec_digit(one[0]));
            }
        } else {
            assert(!dec_digit(d.push(c)[d.len() as int]));
        }
    }
    let signed = seq!['+'] + s;
    assert(signed.drop_first() =~= s);
}

} // verus!
