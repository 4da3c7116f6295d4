//! Small text and byte helpers shared by the stores and codecs:
//! equality of strings and byte slices, and the fixed number formats
//! (decimal, zero-padded lower-case hex, booleans) that identifiers and
//! signed token strings are built from.
use vstd::prelude::*;

verus! {

/// Appends one character to a string (`String::push`).
#[verifier::external_body]
pub(crate) fn push_char(s: &mut String, c: char)
    ensures
        final(s)@ == old(s)@.push(c),
{
    s.push(c);
}

/// Character equality of two string slices.
pub fn str_eq(a: &str, b: &str) -> (r: bool)
    ensures
        r == (a@ == b@),
{
    let x = a.to_owned();
    let y = b.to_owned();
    x == y
}

/// Byte equality of two slices.
pub fn bytes_eq(a: &[u8], b: &[u8]) -> (r: bool)
    ensures
        r == (a@ == b@),
{
    if a.len() != b.len() {
        return false;
    }
    let mut i: usize = 0;
    while i < a.len()
        invariant
            a@.len() == b@.len(),
            i <= a@.len(),
            forall|j: int| 0 <= j < i ==> a@[j] == b@[j],
        decreases a@.len() - i,
    {
        if a[i] != b[i] {
            return false;
        }
        i = i + 1;
    }
    assert(a@ =~= b@);
    true
}

/// The character of a decimal digit.
pub open spec fn digit_char(d: nat) -> char {
    (48 + d) as char
}

/// The lower-case character of a hexadecimal digit.
pub open spec fn hex_char(d: nat) -> char {
    if d < 10 {
        (48 + d) as char
    } else {
        (87 + d) as char
    }
}

/// Decimal notation of a natural number, without leading zeros.
pub open spec fn decimal_chars(n: nat) -> Seq<char>
    decreases n,
{
    if n < 10 {
        seq![digit_char(n)]
    } else {
        decimal_chars(n / 10).push(digit_char(n % 10))
    }
}

/// The `width` lowest hexadecimal digits of `n`, most significant first,
/// padded with zeros.
pub open spec fn hex_chars(n: nat, width: nat) -> Seq<char>
    decreases width,
{
    if width == 0 {
        Seq::empty()
    } else {
        hex_chars(n / 16, (width - 1) as nat).push(hex_char(n % 16))
    }
}

/// Lower-case hexadecimal notation of a natural number, without leading
/// zeros (`{:x}`).
pub open spec fn hex_min_chars(n: nat) -> Seq<char>
    decreases n,
{
    if n < 16 {
        seq![hex_char(n)]
    } else {
        hex_min_chars(n / 16).push(hex_char(n % 16))
    }
}

/// Text form of a boolean, as Rust prints it.
pub open spec fn bool_chars(b: bool) -> Seq<char> {
    if b {
        seq!['t', 'r', 'u', 'e']
    } else {
        seq!['f', 'a', 'l', 's', 'e']
    }
}

fn digit_to_char(d: u64) -> (c: char)
    requires
        d < 10,
    ensures
        c == digit_char(d as nat),
{
    let b: u8 = (48 + d) as u8;
    b as char
}

fn hex_digit_to_char(d: u64) -> (c: char)
    requires
        d < 16,
    ensures
        c == hex_char(d as nat),
{
    if d < 10 {
        let b: u8 = (48 + d) as u8;
        b as char
    } else {
        let b: u8 = (87 + d) as u8;
        b as char
    }
}

/// Decimal notation of `n`.
pub fn u64_to_decimal(n: u64) -> (s: String)
    ensures
        s@ == decimal_chars(n as nat),
    decreases n,
{
    if n < 10 {
        let mut s = String::new();
        push_char(&mut s, digit_to_char(n));
        assert(s@ =~= seq![digit_char(n as nat)]);
        s
    } else {
        let mut s = u64_to_decimal(n / 10);
        push_char(&mut s, digit_to_char(n % 10));
        s
    }
}

/// The `width` lowest hexadecimal digits of `n`, zero-padded (`{:0width$x}`
/// when `n` fits in `width` digits).
pub fn u64_to_hex(n: u64, width: usize) -> (s: String)
    ensures
        s@ == hex_chars(n as nat, width as nat),
    decreases width,
{
    if width == 0 {
        let s = String::new();
        assert(s@ =~= Seq::<char>::empty());
        s
    } else {
        let mut s = u64_to_hex(n / 16, width - 1);
        push_char(&mut s, hex_digit_to_char(n % 16));
        s
    }
}

/// Lower-case hexadecimal notation of `n` without leading zeros (`{:x}`).
pub fn u64_to_hex_min(n: u64) -> (s: String)
    ensures
        s@ == hex_min_chars(n as nat),
    decreases n,
{
    if n < 16 {
        let mut s = String::new();
        push_char(&mut s, hex_digit_to_char(n));
        assert(s@ =~= seq![hex_char(n as nat)]);
        s
    } else {
        let mut s = u64_to_hex_min(n / 16);
        push_char(&mut s, hex_digit_to_char(n % 16));
        s
    }
}

/// Text form of a boolean (`true` / `false`).
pub fn bool_to_text(b: bool) -> (s: String)
    ensures
        s@ == bool_chars(b),
{
    let mut s = String::new();
    if b {
        push_char(&mut s, 't');
        push_char(&mut s, 'r');
        push_char(&mut s, 'u');
        push_char(&mut s, 'e');
    } else {
        push_char(&mut s, 'f');
        push_char(&mut s, 'a');
        push_char(&mut s, 'l');
        push_char(&mut s, 's');
        push_char(&mut s, 'e');
    }
    assert(s@ =~= bool_chars(b));
    s
}

} // verus!

verus! {

pub proof fn lemma_hex_chars_len(n: nat, width: nat)
    ensures
        hex_chars(n, width).len() == width,
    decreases width,
{
    if width > 0 {
        lemma_hex_chars_len(n / 16, (width - 1) as nat);
    }
}

} // verus!

verus! {

/// Sixteen to the power `k`.
pub open spec fn pow16(k: nat) -> nat
    decreases k,
{
    if k == 0 {
        1
    } else {
        16 * pow16((k - 1) as nat)
    }
}

proof fn lemma_hex_min_len_pow(n: nat, k: nat)
    requires
        n >= pow16(k),
    ensures
        hex_min_chars(n).len() >= k + 1,
    decreases k,
{
    if k > 0 {
        assert(pow16(k) == 16 * pow16((k - 1) as nat));
        assert(n / 16 >= pow16((k - 1) as nat)) by (nonlinear_arith)
            requires
                n >= 16 * pow16((k - 1) as nat),
        ;
        assert(pow16((k - 1) as nat) >= 1) by {
            lemma_pow16_positive((k - 1) as nat);
        }
        lemma_hex_min_len_pow(n / 16, (k - 1) as nat);
    }
}

proof fn lemma_pow16_positive(k: nat)
    ensures
        pow16(k) >= 1,
    decreases k,
{
    if k > 0 {
        lemma_pow16_positive((k - 1) as nat);
    }
}

/// A number of at least sixteen to the fifteenth has at least sixteen
/// hexadecimal digits.
pub proof fn lemma_hex_min_len(n: nat)
    ensures
        n >= 0x1000_0000_0000_0000 ==> hex_min_chars(n).len() >= 16,
{
    if n >= 0x1000_0000_0000_0000 {
        assert(pow16(15) == 0x1000_0000_0000_0000) by {
            reveal_with_fuel(pow16, 16);
        }
        lemma_hex_min_len_pow(n, 15);
    }
}

} // verus!
