//! Text building blocks: comparison, trimming and numerals.

use vstd::prelude::*;

verus! {

/// Whether a character has the Unicode property White_Space.
pub open spec fn white_space(c: char) -> bool {
    ||| '\u{9}' <= c <= '\u{d}'
    ||| c == ' '
    ||| c == '\u{85}'
    ||| c == '\u{a0}'
    ||| c == '\u{1680}'
    ||| '\u{2000}' <= c <= '\u{200a}'
    ||| c == '\u{2028}'
    ||| c == '\u{2029}'
    ||| c == '\u{202f}'
    ||| c == '\u{205f}'
    ||| c == '\u{3000}'
}

/// Tells whether a character is white space.
pub fn is_white_space(c: char) -> (blank: bool)
    ensures
        blank == white_space(c),
{
    ('\u{9}' <= c && c <= '\u{d}') || c == ' ' || c == '\u{85}' || c == '\u{a0}' || c == '\u{1680}' || (
    '\u{2000}' <= c && c <= '\u{200a}') || c == '\u{2028}' || c == '\u{2029}' || c == '\u{202f}' || c
        == '\u{205f}' || c == '\u{3000}'
}

/// Compares two strings for equality.
pub fn same_text(a: &str, b: &str) -> (same: bool)
    ensures
        same == (a@ == b@),
{
    let x = a.as_bytes();
    let y = b.as_bytes();
    proof {
        vstd::utf8::encode_utf8_decode_utf8(a@);
        vstd::utf8::encode_utf8_decode_utf8(b@);
    }
    if x.len() != y.len() {
        return false;
    }
    let mut i: usize = 0;
    while i < x.len()
        invariant
            i <= x@.len(),
            x@.len() == y@.len(),
            x@ == vstd::utf8::encode_utf8(a@),
            y@ == vstd::utf8::encode_utf8(b@),
            forall|j: int| 0 <= j < i ==> x@[j] == y@[j],
        decreases x@.len() - i,
    {
        if x[i] != y[i] {
            return false;
        }
        i += 1;
    }
    assert(x@ =~= y@);
    true
}

/// The characters of a string.
pub fn char_vec(s: &str) -> (chars: Vec<char>)
    ensures
        chars@ == s@,
{
    let mut chars: Vec<char> = Vec::new();
    for c in it: s.chars()
        invariant
            it.seq() == s@,
            chars@ == s@.take(it.index() as int),
    {
        chars.push(c);
        assert(s@.take(it.index() + 1) =~= s@.take(it.index() as int).push(c));
    }
    assert(s@.take(s@.len() as int) =~= s@);
    chars
}

/// Whether `inner` is `outer` without the white space at its two ends.
pub open spec fn is_trimmed(outer: Seq<char>, inner: Seq<char>) -> bool {
    exists|lo: int, hi: int| #[trigger]
        is_trim_range(outer, lo, hi) && inner == outer.subrange(lo, hi)
}

/// Whether `[lo, hi)` is what is left of `s` when the white space at its two ends is cut off.
pub open spec fn is_trim_range(s: Seq<char>, lo: int, hi: int) -> bool {
    &&& 0 <= lo <= hi <= s.len()
    &&& forall|i: int| 0 <= i < lo ==> white_space(#[trigger] s[i])
    &&& forall|i: int| hi <= i < s.len() ==> white_space(#[trigger] s[i])
    &&& lo < hi ==> !white_space(s[lo]) && !white_space(s[hi - 1])
}

/// There is only one way to cut the white space off the two ends of a string.
pub proof fn lemma_trimmed_unique(outer: Seq<char>, a: Seq<char>, b: Seq<char>)
    requires
        is_trimmed(outer, a),
        is_trimmed(outer, b),
    ensures
        a == b,
{
    let (l1, h1) = choose|lo: int, hi: int| #[trigger]
        is_trim_range(outer, lo, hi) && a == outer.subrange(lo, hi);
    let (l2, h2) = choose|lo: int, hi: int| #[trigger]
        is_trim_range(outer, lo, hi) && b == outer.subrange(lo, hi);
    if l1 < h1 && l2 < h2 {
        assert(!white_space(outer[l1]) && !white_space(outer[l2]));
        assert(!white_space(outer[h1 - 1]) && !white_space(outer[h2 - 1]));
    } else if l1 < h1 {
        assert(white_space(outer[l1]));
    } else if l2 < h2 {
        assert(white_space(outer[l2]));
    }
    assert(a =~= b);
}

/// Cuts the white space off the two ends of a string.
pub fn trim(s: &str) -> (inner: &str)
    ensures
        is_trimmed(s@, inner@),
{
    let chars = char_vec(s);
    let n = chars.len();
    let mut lo: usize = 0;
    while lo < n && is_white_space(chars[lo])
        invariant
            lo <= n,
            n == chars@.len(),
            forall|i: int| 0 <= i < lo ==> white_space(#[trigger] chars@[i]),
        ensures
            lo <= n,
            forall|i: int| 0 <= i < lo ==> white_space(#[trigger] chars@[i]),
            lo < n ==> !white_space(chars@[lo as int]),
        decreases n - lo,
    {
        lo += 1;
    }
    let mut hi: usize = n;
    while lo < hi && is_white_space(chars[hi - 1])
        invariant
            lo <= hi <= n,
            n == chars@.len(),
            lo < n ==> !white_space(chars@[lo as int]),
            forall|i: int| hi <= i < n ==> white_space(#[trigger] chars@[i]),
        ensures
            lo <= hi <= n,
            forall|i: int| hi <= i < n ==> white_space(#[trigger] chars@[i]),
            lo < hi ==> !white_space(chars@[hi - 1]),
        decreases hi,
    {
        hi -= 1;
    }
    let inner = s.substring_char(lo, hi);
    assert(is_trim_range(s@, lo as int, hi as int));
    inner
}

/// The position of the first `c` in `s`, counted in characters; the length of `s` when there is none.
pub open spec fn first_of(s: Seq<char>, c: char) -> int
    decreases s.len(),
{
    if s.len() == 0 || s[0] == c {
        0
    } else {
        1 + first_of(s.skip(1), c)
    }
}

/// The first position of a character is where it stands, and it does not stand earlier.
pub proof fn lemma_first_of(s: Seq<char>, c: char)
    ensures
        0 <= first_of(s, c) <= s.len(),
        first_of(s, c) < s.len() ==> s[first_of(s, c)] == c,
        forall|i: int| 0 <= i < first_of(s, c) ==> s[i] != c,
    decreases s.len(),
{
    if s.len() > 0 && s[0] != c {
        lemma_first_of(s.skip(1), c);
        assert forall|i: int| 0 <= i < first_of(s, c) implies s[i] != c by {
            if i > 0 {
                assert(s[i] == s.skip(1)[i - 1]);
            }
        }
    }
}

/// Finds the first `c` in `s`, counted in characters.
pub fn find_char(s: &str, c: char) -> (found: Option<usize>)
    ensures
        match found {
            Some(i) => i == first_of(s@, c) && i < s@.len(),
            None => first_of(s@, c) == s@.len(),
        },
{
    let chars = char_vec(s);
    proof {
        lemma_first_of(s@, c);
    }
    let mut i: usize = 0;
    while i < chars.len()
        invariant
            i <= chars@.len(),
            chars@ == s@,
            forall|j: int| 0 <= j < i ==> s@[j] != c,
            0 <= first_of(s@, c) <= s@.len(),
            first_of(s@, c) < s@.len() ==> s@[first_of(s@, c)] == c,
            forall|j: int| 0 <= j < first_of(s@, c) ==> s@[j] != c,
        decreases chars@.len() - i,
    {
        if chars[i] == c {
            return Some(i);
        }
        i += 1;
    }
    None
}

/// A hexadecimal digit in lower case.
pub open spec fn digit(d: int) -> char {
    if d == 0 {
        '0'
    } else if d == 1 {
        '1'
    } else if d == 2 {
        '2'
    } else if d == 3 {
        '3'
    } else if d == 4 {
        '4'
    } else if d == 5 {
        '5'
    } else if d == 6 {
        '6'
    } else if d == 7 {
        '7'
    } else if d == 8 {
        '8'
    } else if d == 9 {
        '9'
    } else if d == 10 {
        'a'
    } else if d == 11 {
        'b'
    } else if d == 12 {
        'c'
    } else if d == 13 {
        'd'
    } else if d == 14 {
        'e'
    } else {
        'f'
    }
}

/// The decimal numeral of a number, without leading zeros.
pub open spec fn decimal(n: nat) -> Seq<char>
    decreases n,
{
    if n < 10 {
        seq![digit(n as int)]
    } else {
        decimal(n / 10).push(digit((n % 10) as int))
    }
}

/// The hexadecimal numeral of a number in lower case, without leading zeros.
pub open spec fn hex(n: nat) -> Seq<char>
    decreases n,
{
    if n < 16 {
        seq![digit(n as int)]
    } else {
        hex(n / 16).push(digit((n % 16) as int))
    }
}

/// The last `width` digits of the hexadecimal numeral of a number, filled up with zeros on the left.
pub open spec fn hex_fixed(n: nat, width: nat) -> Seq<char>
    decreases width,
{
    if width == 0 {
        Seq::empty()
    } else {
        hex_fixed(n / 16, (width - 1) as nat).push(digit((n % 16) as int))
    }
}

fn digit_text(d: u64) -> (text: &'static str)
    requires
        d < 16,
    ensures
        text@ == seq![digit(d as int)],
{
    proof {
        reveal_strlit("0");
        reveal_strlit("1");
        reveal_strlit("2");
        reveal_strlit("3");
        reveal_strlit("4");
        reveal_strlit("5");
        reveal_strlit("6");
        reveal_strlit("7");
        reveal_strlit("8");
        reveal_strlit("9");
        reveal_strlit("a");
        reveal_strlit("b");
        reveal_strlit("c");
        reveal_strlit("d");
        reveal_strlit("e");
        reveal_strlit("f");
    }
    match d {
        0 => "0",
        1 => "1",
        2 => "2",
        3 => "3",
        4 => "4",
        5 => "5",
        6 => "6",
        7 => "7",
        8 => "8",
        9 => "9",
        10 => "a",
        11 => "b",
        12 => "c",
        13 => "d",
        14 => "e",
        _ => "f",
    }
}

/// Appends the decimal numeral of a number.
pub fn push_decimal(out: &mut String, n: u64)
    ensures
        final(out)@ == old(out)@ + decimal(n as nat),
    decreases n,
{
    if n >= 10 {
        push_decimal(out, n / 10);
    }
    out.append(digit_text(n % 10));
    assert(out@ =~= old(out)@ + decimal(n as nat));
}

/// Appends the hexadecimal numeral of a number, without leading zeros.
pub fn push_hex(out: &mut String, n: u64)
    ensures
        final(out)@ == old(out)@ + hex(n as nat),
    decreases n,
{
    if n >= 16 {
        push_hex(out, n / 16);
    }
    out.append(digit_text(n % 16));
    assert(out@ =~= old(out)@ + hex(n as nat));
}

/// Appends the last `width` digits of the hexadecimal numeral of a number.
pub fn push_hex_fixed(out: &mut String, n: u64, width: u64)
    ensures
        final(out)@ == old(out)@ + hex_fixed(n as nat, width as nat),
    decreases width,
{
    if width > 0 {
        push_hex_fixed(out, n / 16, width - 1);
        out.append(digit_text(n % 16));
    }
    assert(out@ =~= old(out)@ + hex_fixed(n as nat, width as nat));
}

/// Two different numbers have different hexadecimal numerals.
pub proof fn lemma_hex_injective(a: nat, b: nat)
    requires
        hex(a) == hex(b),
    ensures
        a == b,
    decreases a + b,
{
    let x = hex(a);
    let y = hex(b);
    assert(x.last() == digit((a % 16) as int));
    assert(y.last() == digit((b % 16) as int));
    assert(a % 16 == b % 16);
    if a >= 16 && b >= 16 {
        assert(x.drop_last() =~= hex(a / 16));
        assert(y.drop_last() =~= hex(b / 16));
        lemma_hex_injective(a / 16, b / 16);
        assert(a == 16 * (a / 16) + a % 16);
        assert(b == 16 * (b / 16) + b % 16);
    } else if a >= 16 {
        lemma_hex_nonempty(a / 16);
    } else if b >= 16 {
        lemma_hex_nonempty(b / 16);
    }
}

/// A hexadecimal numeral has a digit.
pub proof fn lemma_hex_nonempty(n: nat)
    ensures
        hex(n).len() > 0,
    decreases n,
{
    if n >= 16 {
        lemma_hex_nonempty(n / 16);
    }
}

/// A hexadecimal numeral holds no hyphen.
pub proof fn lemma_hex_no_hyphen(n: nat)
    ensures
        !hex(n).contains('-'),
    decreases n,
{
    if n >= 16 {
        lemma_hex_no_hyphen(n / 16);
        assert forall|i: int| 0 <= i < hex(n).len() implies hex(n)[i] != '-' by {
            if i < hex(n / 16).len() {
                assert(hex(n / 16).contains(hex(n / 16)[i]));
                assert(hex(n)[i] == hex(n / 16)[i]);
            }
        }
    }
}

/// What `String::from_utf8_lossy` makes of bytes.
pub uninterp spec fn utf8_lossy(bytes: Seq<u8>) -> Seq<char>;

/// `String::from_utf8_lossy` decodes bytes as UTF-8 and puts a replacement character where they are not
/// valid. Claimed of it: the text depends on the bytes alone, and valid bytes are decoded as they are.
#[verifier::external_body]
pub(crate) fn decode_lossy(bytes: &[u8]) -> (text: String)
    ensures
        text@ == utf8_lossy(bytes@),
        vstd::utf8::valid_utf8(bytes@) ==> text@ == vstd::utf8::decode_utf8(bytes@),
{
    String::from_utf8_lossy(bytes).into_owned()
}

/// `String::from_utf8` takes bytes for text. Claimed of it: it succeeds on valid UTF-8 alone, and decodes
/// it.
#[verifier::external_body]
pub(crate) fn decode_strict(bytes: Vec<u8>) -> (text: Option<String>)
    ensures
        match text {
            Some(s) => vstd::utf8::valid_utf8(bytes@) && s@ == vstd::utf8::decode_utf8(bytes@),
            None => !vstd::utf8::valid_utf8(bytes@),
        },
{
    String::from_utf8(bytes).ok()
}

/// What the `Debug` impl of a value writes. Nothing is claimed of it.
#[verifier::external_body]
pub(crate) fn debug_text<T: std::fmt::Debug>(value: &T) -> (text: String) {
    format!("{:?}", value)
}

/// Puts two pieces of text together.
pub fn concat(a: &str, b: &str) -> (whole: String)
    ensures
        whole@ == a@ + b@,
{
    let mut whole = a.to_owned();
    whole.append(b);
    whole
}

/// The number that a digit stands for.
pub open spec fn digit_value(c: char) -> nat {
    if '0' <= c <= '9' {
        (c as nat - '0' as nat) as nat
    } else {
        (c as nat - 'a' as nat + 10) as nat
    }
}

/// The number that a numeral stands for.
pub open spec fn numeral_value(digits: Seq<char>, base: nat) -> nat
    decreases digits.len(),
{
    if digits.len() == 0 {
        0
    } else {
        numeral_value(digits.drop_last(), base) * base + digit_value(digits.last())
    }
}

/// The decimal numeral of a number stands for that number, is made of the digits 0 to 9, and starts with a
/// zero only where the number is zero.
pub proof fn lemma_decimal_denotes(n: nat)
    ensures
        numeral_value(decimal(n), 10) == n,
        decimal(n).len() > 0,
        forall|i: int| 0 <= i < decimal(n).len() ==> '0' <= #[trigger] decimal(n)[i] <= '9',
        decimal(n)[0] == '0' ==> n == 0,
    decreases n,
{
    reveal_with_fuel(numeral_value, 2);
    let d = digit((n % 10) as int);
    assert('0' <= d <= '9' && digit_value(d) == n % 10);
    if n >= 10 {
        lemma_decimal_denotes(n / 10);
        assert(decimal(n).drop_last() =~= decimal(n / 10));
        assert(decimal(n)[0] == decimal(n / 10)[0]);
    } else {
        assert(decimal(n).drop_last() =~= Seq::empty());
    }
}

/// The hexadecimal numeral of a number stands for that number, is made of the digits 0 to 9 and a to f, and
/// starts with a zero only where the number is zero.
pub proof fn lemma_hex_denotes(n: nat)
    ensures
        numeral_value(hex(n), 16) == n,
        hex(n).len() > 0,
        forall|i: int|
            0 <= i < hex(n).len() ==> '0' <= #[trigger] hex(n)[i] <= '9' || 'a' <= hex(n)[i] <= 'f',
        hex(n)[0] == '0' ==> n == 0,
    decreases n,
{
    reveal_with_fuel(numeral_value, 2);
    let d = digit((n % 16) as int);
    assert(digit_value(d) == n % 16);
    assert('0' <= d <= '9' || 'a' <= d <= 'f');
    if n >= 16 {
        lemma_hex_denotes(n / 16);
        assert(hex(n).drop_last() =~= hex(n / 16));
        assert(hex(n)[0] == hex(n / 16)[0]);
    } else {
        assert(hex(n).drop_last() =~= Seq::empty());
    }
}

/// A hexadecimal numeral of a given width has that width, and where the number fits in it is the numeral of
/// the number with zeros in front.
pub proof fn lemma_hex_fixed_is_padded(n: nat, width: nat)
    ensures
        hex_fixed(n, width).len() == width,
        hex(n).len() <= width ==> hex_fixed(n, width) == Seq::new(
            (width - hex(n).len()) as nat,
            |i: int| '0',
        ) + hex(n),
        numeral_value(hex_fixed(n, width), 16) == n || hex(n).len() > width,
    decreases width,
{
    lemma_hex_nonempty(n);
    if width > 0 {
        let rest = (width - 1) as nat;
        lemma_hex_fixed_is_padded(n / 16, rest);
        assert(hex_fixed(n, width).drop_last() =~= hex_fixed(n / 16, rest));
        let d = digit((n % 16) as int);
        assert(digit_value(d) == n % 16);
        if hex(n).len() <= width {
            if n >= 16 {
                assert(hex_fixed(n, width) =~= Seq::new((width - hex(n).len()) as nat, |i: int| '0') + hex(n));
            } else {
                lemma_hex_fixed_of_zero(rest);
                assert(hex_fixed(n, width) =~= Seq::new((width - hex(n).len()) as nat, |i: int| '0') + hex(n));
            }
        }
    }
}

/// A numeral of zero of a given width is made of zeros.
proof fn lemma_hex_fixed_of_zero(width: nat)
    ensures
        hex_fixed(0, width) == Seq::new(width, |i: int| '0'),
        numeral_value(hex_fixed(0, width), 16) == 0,
    decreases width,
{
    if width > 0 {
        lemma_hex_fixed_of_zero((width - 1) as nat);
        assert(hex_fixed(0, width).drop_last() =~= hex_fixed(0, (width - 1) as nat));
    }
    assert(hex_fixed(0, width) =~= Seq::new(width, |i: int| '0'));
}

/// A number below a power of sixteen has no more hexadecimal digits than the exponent says.
proof fn lemma_hex_len(n: nat, width: nat)
    requires
        n < vstd::arithmetic::power::pow(16, width),
        width > 0,
    ensures
        hex(n).len() <= width,
    decreases width,
{
    reveal(vstd::arithmetic::power::pow);
    if n >= 16 {
        let rest = (width - 1) as nat;
        let bound = vstd::arithmetic::power::pow(16, rest);
        assert(vstd::arithmetic::power::pow(16, width) == 16 * bound);
        assert(n / 16 < bound);
        if rest == 0 {
            assert(bound == 1);
        } else {
            lemma_hex_len(n / 16, rest);
        }
    }
}

/// Sixteen hexadecimal digits are enough for every 64-bit number.
pub proof fn lemma_hex_of_u64(n: u64)
    ensures
        hex(n as nat).len() <= 16,
        hex_fixed(n as nat, 16).len() == 16,
        numeral_value(hex_fixed(n as nat, 16), 16) == n,
{
    assert(vstd::arithmetic::power::pow(16, 16) == 0x1_0000_0000_0000_0000) by {
        reveal_with_fuel(vstd::arithmetic::power::pow, 17);
    }
    lemma_hex_len(n as nat, 16);
    lemma_hex_fixed_is_padded(n as nat, 16);
}

/// Cutting the white space off the two ends of a string leaves a part of it, before and behind which there
/// is nothing but white space, and which itself neither begins nor ends with any. Of a string of nothing but
/// white space, nothing is left.
pub proof fn lemma_trim_leaves_the_middle(s: &str, inner: &str)
    requires
        call_ensures(trim, (s,), inner),
    ensures
        exists|before: Seq<char>, after: Seq<char>|
            {
                &&& s@ == #[trigger] (before + inner@ + after)
                &&& forall|i: int| 0 <= i < before.len() ==> white_space(#[trigger] before[i])
                &&& forall|i: int| 0 <= i < after.len() ==> white_space(#[trigger] after[i])
            },
        inner@.len() > 0 ==> !white_space(inner@[0]) && !white_space(inner@.last()),
        (forall|i: int| 0 <= i < s@.len() ==> white_space(#[trigger] s@[i])) ==> inner@.len() == 0,
{
    let (lo, hi) = choose|lo: int, hi: int| #[trigger]
        is_trim_range(s@, lo, hi) && inner@ == s@.subrange(lo, hi);
    let before = s@.take(lo);
    let after = s@.skip(hi);
    assert(s@ =~= before + inner@ + after);
    if inner@.len() > 0 {
        assert(inner@[0] == s@[lo]);
        assert(inner@.last() == s@[hi - 1]);
    }
}

/// Whether two texts are made of the same words, followed in one by `a` and in the other by `b`.
pub open spec fn led_alike(with_a: Seq<char>, a: Seq<char>, with_b: Seq<char>, b: Seq<char>) -> bool {
    exists|lead: Seq<char>| with_a == #[trigger] (lead + a) && with_b == lead + b
}

} // verus!
