//! Text building blocks: decimal rendering of integers, padding to a width,
//! and truncation of a string to a number of UTF-8 bytes.

use vstd::prelude::*;
use vstd::utf8::{encode_scalar, encode_utf8};

verus! {

/// The character of a decimal digit.
pub open spec fn digit_char(d: nat) -> char {
    (d + 48) as char
}

/// The decimal rendering of `n`, most significant digit first, no leading zeros.
pub open spec fn decimal(n: nat) -> Seq<char>
    decreases n,
{
    if n < 10 {
        seq![digit_char(n)]
    } else {
        decimal(n / 10).push(digit_char(n % 10))
    }
}

/// `s` preceded by as many `fill` characters as it takes to reach `width` characters.
pub open spec fn pad_left(s: Seq<char>, width: nat, fill: char) -> Seq<char> {
    if s.len() < width {
        Seq::new((width - s.len()) as nat, |_i: int| fill) + s
    } else {
        s
    }
}

/// `s` followed by as many spaces as it takes to reach `width` characters.
pub open spec fn pad_right(s: Seq<char>, width: nat) -> Seq<char> {
    if s.len() < width {
        s + Seq::new((width - s.len()) as nat, |_i: int| ' ')
    } else {
        s
    }
}

/// The decimal rendering of `n`, zero-padded to at least two digits.
pub open spec fn two_digits(n: nat) -> Seq<char> {
    pad_left(decimal(n), 2, '0')
}

/// Decimal digits are distinct characters.
pub proof fn lemma_digit_char_injective(d: nat, e: nat)
    requires
        d < 10,
        e < 10,
        digit_char(d) == digit_char(e),
    ensures
        d == e,
{
    assert(digit_char(d) as u32 == d + 48);
    assert(digit_char(e) as u32 == e + 48);
}

/// A decimal rendering has one digit below 10, two below 100, and three or
/// more from 100 on.
pub proof fn lemma_decimal_len(n: nat)
    ensures
        decimal(n).len() >= 1,
        decimal(n).len() == 1 <==> n < 10,
        decimal(n).len() <= 2 <==> n < 100,
        n >= 10 ==> decimal(n).len() == decimal(n / 10).len() + 1,
    decreases n,
{
    if n >= 10 {
        lemma_decimal_len(n / 10);
    }
}

/// A decimal rendering of a non-zero number starts with a non-zero digit.
pub proof fn lemma_decimal_leading_digit(n: nat)
    requires
        n >= 1,
    ensures
        decimal(n)[0] != '0',
    decreases n,
{
    lemma_decimal_len(n);
    if n >= 10 {
        lemma_decimal_leading_digit(n / 10);
        lemma_decimal_len(n / 10);
        assert(decimal(n)[0] == decimal(n / 10)[0]);
    } else {
        if digit_char(n) == '0' {
            assert(digit_char(0) == '0');
            lemma_digit_char_injective(n, 0);
        }
    }
}

/// Different numbers have different decimal renderings.
pub proof fn lemma_decimal_injective(a: nat, b: nat)
    requires
        decimal(a) == decimal(b),
    ensures
        a == b,
    decreases a,
{
    lemma_decimal_len(a);
    lemma_decimal_len(b);
    if a >= 10 {
        let da = decimal(a);
        assert(da.last() == digit_char(a % 10));
        assert(decimal(b).last() == digit_char(b % 10));
        lemma_digit_char_injective(a % 10, b % 10);
        assert(da.drop_last() =~= decimal(a / 10));
        assert(decimal(b).drop_last() =~= decimal(b / 10));
        lemma_decimal_injective(a / 10, b / 10);
    } else {
        assert(decimal(a)[0] == digit_char(a));
        assert(decimal(b)[0] == digit_char(b));
        lemma_digit_char_injective(a, b);
    }
}

/// A number padded to two digits takes exactly two characters below 100,
/// more from 100 on.
pub proof fn lemma_two_digits_len(n: nat)
    ensures
        two_digits(n).len() >= 2,
        two_digits(n).len() == 2 <==> n < 100,
{
    lemma_decimal_len(n);
}

/// Different numbers padded to two digits give different texts.
pub proof fn lemma_two_digits_injective(a: nat, b: nat)
    requires
        two_digits(a) == two_digits(b),
    ensures
        a == b,
{
    lemma_decimal_len(a);
    lemma_decimal_len(b);
    let ta = two_digits(a);
    if a < 10 && b < 10 {
        assert(ta.drop_first() =~= decimal(a));
        assert(two_digits(b).drop_first() =~= decimal(b));
        lemma_decimal_injective(a, b);
    } else if a >= 10 && b >= 10 {
        lemma_decimal_injective(a, b);
    } else if a < 10 {
        assert(ta[0] == '0');
        lemma_decimal_leading_digit(b);
    } else {
        assert(two_digits(b)[0] == '0');
        lemma_decimal_leading_digit(a);
    }
}

/// Appends one character. Trusted: the contract claims of std's
/// `String::push` that the string's characters afterwards are the old ones
/// followed by `c`.
#[verifier::external_body]
pub(crate) fn push_char(s: &mut String, c: char)
    ensures
        final(s)@ == old(s)@.push(c),
{
    s.push(c);
}

fn digit(d: u64) -> (c: char)
    requires
        d < 10,
    ensures
        c == digit_char(d as nat),
{
    match d {
        0 => '0',
        1 => '1',
        2 => '2',
        3 => '3',
        4 => '4',
        5 => '5',
        6 => '6',
        7 => '7',
        8 => '8',
        _ => '9',
    }
}

/// Appends the decimal rendering of `n`.
pub fn push_decimal(s: &mut String, n: u64)
    ensures
        final(s)@ == old(s)@ + decimal(n as nat),
    decreases n,
{
    if n >= 10 {
        push_decimal(s, n / 10);
    }
    push_char(s, digit(n % 10));
}

/// The decimal rendering of `n` as a new string.
pub fn decimal_string(n: u64) -> (r: String)
    ensures
        r@ == decimal(n as nat),
{
    let mut r = String::new();
    push_decimal(&mut r, n);
    assert(r@ =~= decimal(n as nat));
    r
}

/// Appends `count` copies of `fill`.
pub fn push_repeated(s: &mut String, fill: char, count: usize)
    ensures
        final(s)@ == old(s)@ + Seq::new(count as nat, |_i: int| fill),
{
    let ghost start = s@;
    let mut i: usize = 0;
    while i < count
        invariant
            i <= count,
            s@ == start + Seq::new(i as nat, |_j: int| fill),
        decreases count - i,
    {
        push_char(s, fill);
        i = i + 1;
        assert(s@ =~= start + Seq::new(i as nat, |_j: int| fill));
    }
}

/// Appends `piece`, preceded by `fill` up to `width` characters.
pub fn push_padded_left(s: &mut String, piece: &str, width: usize, fill: char)
    ensures
        final(s)@ == old(s)@ + pad_left(piece@, width as nat, fill),
{
    let ghost start = s@;
    let len = piece.unicode_len();
    if len < width {
        push_repeated(s, fill, width - len);
    }
    s.append(piece);
    assert(s@ =~= start + pad_left(piece@, width as nat, fill));
}

/// Appends `piece`, followed by spaces up to `width` characters.
pub fn push_padded_right(s: &mut String, piece: &str, width: usize)
    ensures
        final(s)@ == old(s)@ + pad_right(piece@, width as nat),
{
    let ghost start = s@;
    let len = piece.unicode_len();
    s.append(piece);
    if len < width {
        push_repeated(s, ' ', width - len);
    }
    assert(s@ =~= start + pad_right(piece@, width as nat));
}

/// Appends the decimal rendering of `n`, preceded by `fill` up to `width` characters.
pub fn push_decimal_padded(s: &mut String, n: u64, width: usize, fill: char)
    ensures
        final(s)@ == old(s)@ + pad_left(decimal(n as nat), width as nat, fill),
{
    let d = decimal_string(n);
    push_padded_left(s, d.as_str(), width, fill);
}

/// The number of bytes that the UTF-8 encoding of `c` takes.
pub open spec fn char_utf8_len(c: char) -> nat {
    encode_scalar(c as u32).len()
}

/// The number of bytes that the UTF-8 encoding of `s` takes (what `str::len` returns).
pub open spec fn utf8_len(s: Seq<char>) -> nat {
    encode_utf8(s).len()
}

/// The longest run of leading characters of `s` whose UTF-8 encoding takes at
/// most `max_bytes` bytes.
pub open spec fn utf8_prefix(s: Seq<char>, max_bytes: nat) -> Seq<char>
    decreases s.len(),
{
    if s.len() == 0 || char_utf8_len(s[0]) > max_bytes {
        Seq::empty()
    } else {
        seq![s[0]] + utf8_prefix(s.drop_first(), (max_bytes - char_utf8_len(s[0])) as nat)
    }
}

/// Slicing the first `min(max_bytes, len)` bytes of `s` lands on a character
/// boundary: the prefix of at most `max_bytes` bytes takes exactly that many.
pub open spec fn cut_on_boundary(s: Seq<char>, max_bytes: nat) -> bool {
    utf8_len(utf8_prefix(s, max_bytes)) == if utf8_len(s) < max_bytes {
        utf8_len(s)
    } else {
        max_bytes
    }
}

proof fn lemma_utf8_len_cons(c: char, t: Seq<char>)
    ensures
        utf8_len(seq![c] + t) == char_utf8_len(c) + utf8_len(t),
{
    let s = seq![c] + t;
    assert(s[0] == c);
    assert(s.drop_first() =~= t);
}

/// The characters kept when cutting to `max_bytes` bytes are the leading
/// characters of the string, and their encoding takes at most `max_bytes` bytes.
pub proof fn lemma_utf8_prefix_bounded(s: Seq<char>, max_bytes: nat)
    ensures
        utf8_prefix(s, max_bytes).len() <= s.len(),
        utf8_prefix(s, max_bytes) =~= s.take(utf8_prefix(s, max_bytes).len() as int),
        utf8_len(utf8_prefix(s, max_bytes)) <= max_bytes,
    decreases s.len(),
{
    if s.len() > 0 && char_utf8_len(s[0]) <= max_bytes {
        let rest = (max_bytes - char_utf8_len(s[0])) as nat;
        lemma_utf8_prefix_bounded(s.drop_first(), rest);
        lemma_utf8_len_cons(s[0], utf8_prefix(s.drop_first(), rest));
        let p = utf8_prefix(s, max_bytes);
        assert forall|i: int| 0 <= i < p.len() implies p[i] == s.take(p.len() as int)[i] by {
            if i > 0 {
                assert(p[i] == utf8_prefix(s.drop_first(), rest)[i - 1]);
                assert(s.drop_first().take(utf8_prefix(s.drop_first(), rest).len() as int)[i - 1]
                    == s[i]);
            }
        }
    } else {
        assert(utf8_len(Seq::<char>::empty()) == 0);
    }
}

/// A string whose encoding fits in `max_bytes` bytes is kept whole.
pub proof fn lemma_utf8_prefix_whole(s: Seq<char>, max_bytes: nat)
    requires
        utf8_len(s) <= max_bytes,
    ensures
        utf8_prefix(s, max_bytes) == s,
    decreases s.len(),
{
    if s.len() > 0 {
        assert(s =~= seq![s[0]] + s.drop_first());
        lemma_utf8_len_cons(s[0], s.drop_first());
        lemma_utf8_prefix_whole(s.drop_first(), (max_bytes - char_utf8_len(s[0])) as nat);
    } else {
        assert(s =~= Seq::<char>::empty());
    }
}

fn char_len_utf8(c: char) -> (n: usize)
    ensures
        n == char_utf8_len(c),
        1 <= n <= 4,
{
    proof {
        vstd::utf8::char_is_scalar(c);
    }
    let v = c as u32;
    if v < 0x80 {
        1
    } else if v < 0x800 {
        2
    } else if v < 0x10000 {
        3
    } else {
        4
    }
}

/// The leading characters of `s` that fit in `max_bytes` bytes of UTF-8.
pub fn utf8_truncate(s: &str, max_bytes: usize) -> (r: String)
    ensures
        r@ == utf8_prefix(s@, max_bytes as nat),
{
    let n = s.unicode_len();
    let mut r = String::new();
    let mut budget = max_bytes;
    let mut i: usize = 0;
    assert(s@.skip(0) =~= s@);
    assert(r@ + utf8_prefix(s@, max_bytes as nat) =~= utf8_prefix(s@, max_bytes as nat));
    while i < n
        invariant
            n == s@.len(),
            i <= n,
            r@ + utf8_prefix(s@.skip(i as int), budget as nat) == utf8_prefix(s@, max_bytes as nat),
        decreases n - i,
    {
        let c = s.get_char(i);
        let w = char_len_utf8(c);
        assert(s@.skip(i as int)[0] == c);
        assert(s@.skip(i as int).drop_first() =~= s@.skip(i + 1));
        if w > budget {
            assert(utf8_prefix(s@.skip(i as int), budget as nat) =~= Seq::<char>::empty());
            assert(r@ =~= r@ + Seq::<char>::empty());
            return r;
        }
        let ghost before = r@;
        push_char(&mut r, c);
        budget = budget - w;
        i = i + 1;
        assert(r@ + utf8_prefix(s@.skip(i as int), budget as nat) =~= before + (seq![c]
            + utf8_prefix(s@.skip(i as int), budget as nat)));
    }
    assert(s@.skip(n as int) =~= Seq::<char>::empty());
    assert(utf8_prefix(s@.skip(n as int), budget as nat) =~= Seq::<char>::empty());
    assert(r@ =~= r@ + Seq::<char>::empty());
    r
}

} // verus!
