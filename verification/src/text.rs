//! Text rendering: decimal and hexadecimal numbers, joined fragments.

use vstd::prelude::*;
use vstd::string::{StrSliceExecFns, StringExecFns};

verus! {

/// The character of a decimal digit.
pub open spec fn digit_char(d: int) -> char {
    (48 + d) as char
}

/// The character of an upper-case hexadecimal digit.
pub open spec fn hex_char(d: int) -> char {
    if d < 10 {
        (48 + d) as char
    } else {
        (55 + d) as char
    }
}

/// The decimal digits of a number, without leading zeros.
pub open spec fn decimal(n: nat) -> Seq<char>
    decreases n,
{
    if n < 10 {
        seq![digit_char(n as int)]
    } else {
        decimal(n / 10).push(digit_char((n % 10) as int))
    }
}

/// `n` zero digits.
pub open spec fn zero_digits(n: nat) -> Seq<char> {
    Seq::new(n, |i: int| '0')
}

/// The decimal digits of a number, zero-padded on the left to at least `width`.
pub open spec fn padded_decimal(n: nat, width: nat) -> Seq<char> {
    if decimal(n).len() < width {
        zero_digits((width - decimal(n).len()) as nat) + decimal(n)
    } else {
        decimal(n)
    }
}

/// Two upper-case hexadecimal digits.
pub open spec fn hex_byte(b: u8) -> Seq<char> {
    seq![hex_char(b as int / 16), hex_char(b as int % 16)]
}

/// Two-digit bytes separated by single spaces.
pub open spec fn hex_text(bytes: Seq<u8>) -> Seq<char>
    decreases bytes.len(),
{
    if bytes.len() == 0 {
        Seq::empty()
    } else if bytes.len() == 1 {
        hex_byte(bytes[0])
    } else {
        hex_text(bytes.drop_last()) + seq![' '] + hex_byte(bytes.last())
    }
}

/// The number that a digit sequence denotes.
pub open spec fn digits_value(s: Seq<char>) -> int
    decreases s.len(),
{
    if s.len() == 0 {
        0
    } else {
        digits_value(s.drop_last()) * 10 + (s.last() as int - 48)
    }
}

/// Decimal text denotes the number it was made from, padded or not.
pub proof fn law_decimal_denotes_number(n: nat, width: nat)
    ensures
        digits_value(decimal(n)) == n,
        digits_value(padded_decimal(n, width)) == n,
        padded_decimal(n, width).len() >= width,
    decreases n,
{
    lemma_decimal_value(n);
    if decimal(n).len() < width {
        lemma_leading_zeros((width - decimal(n).len()) as nat, decimal(n));
    }
}

proof fn lemma_decimal_value(n: nat)
    ensures
        digits_value(decimal(n)) == n,
        decimal(n).len() >= 1,
    decreases n,
{
    if n < 10 {
        assert(decimal(n).drop_last() =~= Seq::empty());
        assert(digits_value(Seq::<char>::empty()) == 0);
        assert(decimal(n).last() as int == 48 + n);
    } else {
        lemma_decimal_value(n / 10);
        assert(decimal(n).drop_last() =~= decimal(n / 10));
    }
}

proof fn lemma_leading_zeros(k: nat, s: Seq<char>)
    ensures
        digits_value(zero_digits(k) + s) == digits_value(s),
    decreases s.len(), k,
{
    if s.len() > 0 {
        assert((zero_digits(k) + s).drop_last() =~= zero_digits(k) + s.drop_last());
        lemma_leading_zeros(k, s.drop_last());
    } else if k > 0 {
        assert(zero_digits(k) + s =~= zero_digits(k));
        assert(zero_digits(k).drop_last() =~= zero_digits((k - 1) as nat) + s);
        lemma_leading_zeros((k - 1) as nat, s);
        assert(zero_digits(k).last() as int == 48);
    } else {
        assert(zero_digits(k) + s =~= s);
    }
}

/// The text of one hexadecimal digit.
fn hex_digit(d: u8) -> (s: &'static str)
    requires
        d < 16,
    ensures
        s@ == seq![hex_char(d as int)],
{
    proof {
        reveal_strlit("0");
        reveal_strlit("1");
        reveal_strlit("2");
        reveal_strlit("3");
        reveal_strlit("4");
        reveal_strlit("5");
        reveal_strlit("6");
        reveal_strlit("7");
        reveal_strlit("8");
        reveal_strlit("9");
        reveal_strlit("A");
        reveal_strlit("B");
        reveal_strlit("C");
        reveal_strlit("D");
        reveal_strlit("E");
        reveal_strlit("F");
    }
    let s: &'static str = match d {
        0 => "0",
        1 => "1",
        2 => "2",
        3 => "3",
        4 => "4",
        5 => "5",
        6 => "6",
        7 => "7",
        8 => "8",
        9 => "9",
        10 => "A",
        11 => "B",
        12 => "C",
        13 => "D",
        14 => "E",
        _ => "F",
    };
    assert(s@ =~= seq![hex_char(d as int)]);
    s
}

/// Decimal text of a number.
pub fn decimal_text(n: u64) -> (s: String)
    ensures
        s@ == decimal(n as nat),
    decreases n,
{
    let d: &'static str = hex_digit((n % 10) as u8);
    if n < 10 {
        d.to_owned()
    } else {
        let mut s = decimal_text(n / 10);
        s.append(d);
        assert(s@ =~= decimal(n as nat));
        s
    }
}

/// Decimal text of a number, zero-padded on the left to at least `width`.
pub fn padded_decimal_text(n: u64, width: usize) -> (s: String)
    ensures
        s@ == padded_decimal(n as nat, width as nat),
{
    let digits = decimal_text(n);
    let len: usize = digits.as_str().unicode_len();
    let mut s = String::new();
    let mut i: usize = len;
    proof {
        reveal_strlit("0");
    }
    while i < width
        invariant
            digits@ == decimal(n as nat),
            len == digits@.len(),
            "0"@ =~= seq!['0'],
            len <= i,
            i <= width || i == len,
            s@ == zero_digits((i - len) as nat),
        decreases width - i,
    {
        s.append("0");
        i += 1;
        assert(s@ =~= zero_digits((i - len) as nat));
    }
    s.append(digits.as_str());
    assert(s@ =~= padded_decimal(n as nat, width as nat));
    s
}

/// Space-separated upper-case hexadecimal text of a byte slice.
pub fn hex_dump(bytes: &[u8]) -> (s: String)
    ensures
        s@ == hex_text(bytes@),
{
    let mut s = String::new();
    let mut i: usize = 0;
    proof {
        reveal_strlit(" ");
    }
    while i < bytes.len()
        invariant
            " "@ =~= seq![' '],
            i <= bytes@.len(),
            s@ == hex_text(bytes@.take(i as int)),
        decreases bytes@.len() - i,
    {
        let ghost head = bytes@.take(i as int);
        if i > 0 {
            s.append(" ");
        }
        s.append(hex_digit(bytes[i] / 16));
        s.append(hex_digit(bytes[i] % 16));
        proof {
            let next = bytes@.take(i + 1);
            assert(next.drop_last() =~= head);
            if i == 0 {
                assert(s@ =~= hex_byte(next[0]));
            } else {
                assert(s@ =~= hex_text(head) + seq![' '] + hex_byte(next.last()));
            }
        }
        i += 1;
    }
    assert(bytes@.take(i as int) =~= bytes@);
    s
}

/// Two fragments in one text.
pub fn join2(a: &str, b: &str) -> (s: String)
    ensures
        s@ == a@ + b@,
{
    let mut s = a.to_owned();
    s.append(b);
    s
}

/// Three fragments in one text.
pub fn join3(a: &str, b: &str, c: &str) -> (s: String)
    ensures
        s@ == a@ + b@ + c@,
{
    let mut s = join2(a, b);
    s.append(c);
    s
}

/// Every character is a decimal digit.
pub open spec fn is_digits(s: Seq<char>) -> bool {
    forall|i: int| 0 <= i < s.len() ==> '0' <= #[trigger] s[i] <= '9'
}

/// The character codes, one byte each.
pub open spec fn ascii(s: Seq<char>) -> Seq<u8> {
    Seq::new(s.len(), |i: int| s[i] as u8)
}

/// Decimal text consists of digits, and is as long as its width if the number
/// has no more than four digits and no more than the width.
pub proof fn lemma_padded_decimal(n: nat, width: nat)
    ensures
        is_digits(decimal(n)),
        is_digits(padded_decimal(n, width)),
        n < 100 && width == 2 ==> padded_decimal(n, width).len() == 2,
        n < 10000 && width == 4 ==> padded_decimal(n, width).len() == 4,
{
    lemma_decimal_is_digits(n);
    reveal_with_fuel(decimal, 4);
}

proof fn lemma_decimal_is_digits(n: nat)
    ensures
        is_digits(decimal(n)),
    decreases n,
{
    if n >= 10 {
        lemma_decimal_is_digits(n / 10);
    }
}

/// The bytes of a text of digits.
pub fn digit_bytes(s: &str) -> (bytes: Vec<u8>)
    requires
        is_digits(s@),
    ensures
        bytes@ == ascii(s@),
{
    proof {
        assert(s.is_ascii());
        vstd::string::is_ascii_spec_bytes(s);
    }
    s.as_bytes_vec()
}

/// Whether `s` starts with `prefix`.
pub fn starts_with(s: &str, prefix: &str) -> (b: bool)
    ensures
        b == prefix@.is_prefix_of(s@),
{
    let n: usize = prefix.unicode_len();
    if s.unicode_len() < n {
        return false;
    }
    let mut i: usize = 0;
    while i < n
        invariant
            i <= n,
            n == prefix@.len(),
            n <= s@.len(),
            forall|k: int| 0 <= k < i ==> prefix@[k] == s@[k],
        decreases n - i,
    {
        if s.get_char(i) != prefix.get_char(i) {
            return false;
        }
        i += 1;
    }
    assert(prefix@ =~= s@.subrange(0, n as int));
    true
}

/// `s` without `prefix`, if it starts with it.
pub fn strip_prefix<'a>(s: &'a str, prefix: &str) -> (rest: Option<&'a str>)
    ensures
        match rest {
            Some(r) => s@ == prefix@ + r@,
            None => !prefix@.is_prefix_of(s@),
        },
{
    if starts_with(s, prefix) {
        let r = s.substring_char(prefix.unicode_len(), s.unicode_len());
        assert(s@ =~= prefix@ + r@);
        Some(r)
    } else {
        None
    }
}

/// Whether two texts are the same.
pub fn same_text(a: &str, b: &str) -> (same: bool)
    ensures
        same == (a@ == b@),
{
    if a.unicode_len() != b.unicode_len() {
        return false;
    }
    let same: bool = starts_with(a, b);
    assert(same ==> a@ =~= b@);
    same
}

/// Decimal text, digit by digit: the last character stands for the remainder by ten, and
/// what is before it is the text of the quotient. There is no leading zero.
pub proof fn law_decimal_digit_by_digit(n: nat, width: nat)
    ensures
        decimal(n).len() >= 1,
        decimal(n).last() as int == 48 + n % 10,
        n >= 10 ==> decimal(n).drop_last() == decimal(n / 10),
        n < 10 ==> decimal(n).len() == 1,
        n > 0 ==> decimal(n)[0] != '0',
        padded_decimal(n, width).len() == if decimal(n).len() < width {
            width
        } else {
            decimal(n).len()
        },
        is_digits(padded_decimal(n, width)),
        digits_value(padded_decimal(n, width)) == n,
    decreases n,
{
    lemma_padded_decimal(n, width);
    law_decimal_denotes_number(n, width);
    if n >= 10 {
        law_decimal_digit_by_digit(n / 10, width);
        assert(decimal(n).drop_last() =~= decimal(n / 10));
        assert(decimal(n)[0] == decimal(n / 10)[0]);
    }
}

/// What a hexadecimal digit stands for; -1 for any other character.
pub open spec fn hex_digit_value(c: char) -> int {
    if '0' <= c <= '9' {
        c as int - 48
    } else if 'A' <= c <= 'F' {
        c as int - 55
    } else {
        -1
    }
}

/// A hexadecimal dump reads back: three characters to a byte, of which the first two
/// are its upper-case digits, high one first, and the third, but behind the last byte,
/// is a space.
pub proof fn law_hex_dump_reads_back(bytes: Seq<u8>, i: int)
    ensures
        hex_text(bytes).len() == if bytes.len() == 0 {
            0
        } else {
            3 * bytes.len() - 1
        },
        0 <= i < bytes.len() ==> {
            let hi = hex_digit_value(hex_text(bytes)[3 * i]);
            let lo = hex_digit_value(hex_text(bytes)[3 * i + 1]);
            0 <= hi < 16 && 0 <= lo < 16 && bytes[i] == 16 * hi + lo
        },
        0 <= i < bytes.len() - 1 ==> hex_text(bytes)[3 * i + 2] == ' ',
    decreases bytes.len(),
{
    if bytes.len() > 1 {
        law_hex_dump_reads_back(bytes.drop_last(), i);
    }
}

/// Behind a run of digits, the first other character ends the run: two texts that each
/// consist of digits and a rest that does not start with one are the same only if both
/// parts are.
pub proof fn lemma_digits_end(a: Seq<char>, x: Seq<char>, b: Seq<char>, y: Seq<char>)
    requires
        is_digits(a),
        is_digits(b),
        x.len() > 0 && !('0' <= x[0] <= '9'),
        y.len() > 0 && !('0' <= y[0] <= '9'),
        a + x == b + y,
    ensures
        a == b,
        x == y,
{
    let s = a + x;
    assert(s == b + y);
    if a.len() < b.len() {
        assert(s[a.len() as int] == x[0]);
        assert(s[a.len() as int] == b[a.len() as int]);
    } else if b.len() < a.len() {
        assert(s[b.len() as int] == y[0]);
        assert(s[b.len() as int] == a[b.len() as int]);
    }
    assert(a =~= s.take(a.len() as int));
    assert(b =~= s.take(a.len() as int));
    assert(x =~= s.skip(a.len() as int));
    assert(y =~= s.skip(a.len() as int));
}

/// Decimal text tells the number: two numbers with the same text are the same, and so
/// are two with the same text before a rest that starts with no digit.
pub proof fn law_decimal_tells_the_number(n: nat, x: Seq<char>, m: nat, y: Seq<char>)
    requires
        x.len() == 0 && y.len() == 0 || x.len() > 0 && !('0' <= x[0] <= '9') && y.len() > 0 && !(
        '0' <= y[0] <= '9'),
        decimal(n) + x == decimal(m) + y,
    ensures
        n == m,
        x == y,
{
    lemma_decimal_is_digits(n);
    lemma_decimal_is_digits(m);
    if x.len() > 0 {
        lemma_digits_end(decimal(n), x, decimal(m), y);
    } else {
        assert(decimal(n) + x =~= decimal(n));
        assert(decimal(m) + y =~= decimal(m));
    }
    lemma_decimal_value(n);
    lemma_decimal_value(m);
}

/// Behind the same label, two texts are the same only if what follows is.
pub proof fn lemma_same_label(label: Seq<char>, a: Seq<char>, b: Seq<char>)
    ensures
        label + a == label + b <==> a == b,
{
    let n = label.len() as int;
    assert((label + a).skip(n) =~= a);
    assert((label + b).skip(n) =~= b);
}

} // verus!
