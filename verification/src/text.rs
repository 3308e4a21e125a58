//! Text as the tool prints it: numbers in decimal and in hexadecimal, padding, and
//! the comparisons of names that the rest of the crate makes.
use vstd::prelude::*;
use vstd::string::*;
use vstd::utf8::*;

verus! {

/// `String::push` appends the character to the end of the string.
pub assume_specification[ String::push ](s: &mut String, c: char)
    ensures
        final(s)@ == old(s)@.push(c),
;

/// Which letters stand for the hexadecimal digits above nine.
#[derive(Clone, Copy, PartialEq, Eq, Debug, Structural)]
pub enum Letters {
    /// `a` to `f`.
    Lower,
    /// `A` to `F`.
    Upper,
}

/// The character of the digit `d`, which is below sixteen.
pub open spec fn digit_char(d: int, letters: Letters) -> char {
    if d < 10 {
        ('0' as int + d) as char
    } else if letters == Letters::Lower {
        ('a' as int + (d - 10)) as char
    } else {
        ('A' as int + (d - 10)) as char
    }
}

/// `n` in base ten, without leading zeros.
pub open spec fn decimal(n: nat) -> Seq<char>
    decreases n,
{
    if n < 10 {
        seq![digit_char(n as int, Letters::Lower)]
    } else {
        decimal(n / 10).push(digit_char((n % 10) as int, Letters::Lower))
    }
}

/// The last `width` digits of `n` in base sixteen, zeros included.
pub open spec fn hex(n: nat, width: nat, letters: Letters) -> Seq<char>
    decreases width,
{
    if width == 0 {
        seq![]
    } else {
        hex(n / 16, (width - 1) as nat, letters).push(digit_char((n % 16) as int, letters))
    }
}

/// `count` blanks.
pub open spec fn blanks(count: nat) -> Seq<char> {
    Seq::new(count, |i: int| ' ')
}

/// `text` with as many blanks before it as make it at least `width` characters long.
pub open spec fn right_aligned(text: Seq<char>, width: nat) -> Seq<char> {
    if text.len() < width {
        blanks((width - text.len()) as nat) + text
    } else {
        text
    }
}

/// The digit as a character.
fn digit(d: u8, letters: Letters) -> (c: char)
    requires
        d < 16,
    ensures
        c == digit_char(d as int, letters),
{
    if d < 10 {
        (0x30u8 + d) as char
    } else if letters == Letters::Lower {
        (0x61u8 + (d - 10)) as char
    } else {
        (0x41u8 + (d - 10)) as char
    }
}

/// Appends `n` in base ten.
pub fn push_decimal(out: &mut String, n: u32)
    ensures
        final(out)@ == old(out)@ + decimal(n as nat),
    decreases n,
{
    if n >= 10 {
        push_decimal(out, n / 10);
    }
    out.push(digit((n % 10) as u8, Letters::Lower));
    assert(out@ =~= old(out)@ + decimal(n as nat));
}

/// Appends the last `width` digits of `n` in base sixteen.
pub fn push_hex(out: &mut String, n: u32, width: u32, letters: Letters)
    ensures
        final(out)@ == old(out)@ + hex(n as nat, width as nat, letters),
    decreases width,
{
    if width > 0 {
        push_hex(out, n / 16, width - 1, letters);
        out.push(digit((n % 16) as u8, letters));
    }
    assert(out@ =~= old(out)@ + hex(n as nat, width as nat, letters));
}

/// Appends `text` after as many blanks as make it at least `width` characters long.
pub fn push_right_aligned(out: &mut String, text: &str, width: usize)
    ensures
        final(out)@ == old(out)@ + right_aligned(text@, width as nat),
{
    let len: usize = text.unicode_len();
    let mut i: usize = len;
    while i < width
        invariant
            len == text@.len(),
            i >= len,
            i <= width || i == len,
            out@ == old(out)@ + blanks((i - len) as nat),
        decreases width - i,
    {
        out.push(' ');
        i += 1;
        assert(out@ =~= old(out)@ + blanks((i - len) as nat));
    }
    out.append(text);
    assert(out@ =~= old(out)@ + right_aligned(text@, width as nat));
}

/// Two texts are equal exactly if their UTF-8 encodings are.
pub proof fn lemma_encoding_is_injective(a: Seq<char>, b: Seq<char>)
    requires
        encode_utf8(a) == encode_utf8(b),
    ensures
        a == b,
{
    encode_utf8_decode_utf8(a);
    encode_utf8_decode_utf8(b);
}

/// Whether the two texts are equal.
pub fn same_text(a: &str, b: &str) -> (same: bool)
    ensures
        same == (a@ == b@),
{
    let x: &[u8] = a.as_bytes();
    let y: &[u8] = b.as_bytes();
    if x.len() != y.len() {
        return false;
    }
    let mut i: usize = 0;
    while i < x.len()
        invariant
            i <= x.len(),
            x.len() == y.len(),
            x@ == encode_utf8(a@),
            y@ == encode_utf8(b@),
            forall|j: int| 0 <= j < i ==> x@[j] == y@[j],
        decreases x.len() - i,
    {
        if x[i] != y[i] {
            return false;
        }
        i += 1;
    }
    proof {
        assert(x@ =~= y@);
        lemma_encoding_is_injective(a@, b@);
    }
    true
}

// -------------------------------------------------------------------------------------------
// Laws.

/// What the digit stands for.
pub open spec fn digit_value(c: char) -> int {
    if '0' as int <= c as int <= '9' as int {
        c as int - '0' as int
    } else if 'a' as int <= c as int <= 'f' as int {
        c as int - 'a' as int + 10
    } else {
        c as int - 'A' as int + 10
    }
}

/// The number that the digits stand for.
pub open spec fn number(digits: Seq<char>, base: int) -> int
    decreases digits.len(),
{
    if digits.len() == 0 {
        0
    } else {
        number(digits.drop_last(), base) * base + digit_value(digits.last())
    }
}

/// The first number that has more than `width` digits in base sixteen.
pub open spec fn hex_bound(width: nat) -> int
    decreases width,
{
    if width == 0 {
        1
    } else {
        16 * hex_bound((width - 1) as nat)
    }
}

/// The digits of a number in base ten stand for it.
pub proof fn law_decimal_stands_for_the_number(n: nat)
    ensures
        number(decimal(n), 10) == n,
    decreases n,
{
    if n < 10 {
        assert(decimal(n).drop_last() =~= seq![]);
        assert(number(decimal(n).drop_last(), 10) == 0);
    } else {
        law_decimal_stands_for_the_number(n / 10);
        assert(decimal(n).drop_last() =~= decimal(n / 10));
    }
}

/// The digits of a number in base sixteen stand for it, in either kind of letters, if it has no more
/// than that many.
pub proof fn law_hex_stands_for_the_number(n: nat, width: nat, letters: Letters)
    requires
        n < hex_bound(width),
    ensures
        number(hex(n, width, letters), 16) == n,
        hex(n, width, letters).len() == width,
    decreases width,
{
    if width > 0 {
        law_hex_stands_for_the_number(n / 16, (width - 1) as nat, letters);
        assert(hex(n, width, letters).drop_last() =~= hex(n / 16, (width - 1) as nat, letters));
    }
}

/// A number in base ten is made of the digits from zero to nine, and does not begin with a zero unless
/// it is zero.
pub proof fn law_decimal_has_no_leading_zero(n: nat)
    ensures
        decimal(n).len() > 0,
        forall|i: int|
            0 <= i < decimal(n).len() ==> '0' as int <= #[trigger] decimal(n)[i] as int <= '9' as int,
        decimal(n)[0] == '0' <==> n == 0,
        n == 0 ==> decimal(n).len() == 1,
    decreases n,
{
    if n >= 10 {
        law_decimal_has_no_leading_zero(n / 10);
        assert(decimal(n).drop_last() =~= decimal(n / 10));
    }
}

/// The digits above nine are the letters that were asked for.
pub proof fn law_hex_uses_the_letters(n: nat, width: nat, letters: Letters, i: int)
    requires
        0 <= i < hex(n, width, letters).len(),
    ensures
        ({
            let c = hex(n, width, letters)[i] as int;
            ||| 0x30 <= c <= 0x39
            ||| letters == Letters::Lower && 0x61 <= c <= 0x66
            ||| letters == Letters::Upper && 0x41 <= c <= 0x46
        }),
    decreases width,
{
    if width > 0 {
        let before = hex(n / 16, (width - 1) as nat, letters);
        if i < before.len() {
            law_hex_uses_the_letters(n / 16, (width - 1) as nat, letters, i);
        }
    }
}

/// A text that is aligned to the right ends with itself, has blanks before that, and is as long as
/// asked for or as itself, whichever is longer.
pub proof fn law_right_aligned_ends_with_the_text(text: Seq<char>, width: nat)
    ensures
        ({
            let aligned = right_aligned(text, width);
            let before = aligned.len() - text.len();
            &&& aligned.len() == if text.len() < width {
                width
            } else {
                text.len()
            }
            &&& aligned.subrange(before, aligned.len() as int) == text
            &&& forall|i: int| 0 <= i < before ==> #[trigger] aligned[i] == ' '
        }),
{
    let aligned = right_aligned(text, width);
    assert(aligned.subrange(aligned.len() - text.len(), aligned.len() as int) =~= text);
}

} // verus!
