//! Text and byte helpers: decimal and hexadecimal digits, UTF-8 conversion,
//! and comparison of identifiers.
use vstd::prelude::*;
use vstd::utf8::*;

verus! {

broadcast use vstd::seq_lib::group_seq_properties;

/// `String::push` from std: appends one character.
#[verifier::external_body]
pub(crate) fn push_char(s: &mut String, c: char)
    ensures
        final(s)@ == old(s)@.push(c),
{
    s.push(c)
}

/// `String::from_utf8` from std: the text that the bytes encode, when they
/// are valid UTF-8.
#[verifier::external_body]
pub(crate) fn string_from_utf8(bytes: Vec<u8>) -> (r: Option<String>)
    ensures
        r is Some <==> valid_utf8(bytes@),
        r matches Some(s) ==> s@ == decode_utf8(bytes@),
{
    String::from_utf8(bytes).ok()
}

/// The UTF-8 bytes of a text.
pub fn utf8_bytes(s: &str) -> (r: Vec<u8>)
    ensures
        r@ == encode_utf8(s@),
{
    let b = s.as_bytes();
    let mut v: Vec<u8> = Vec::new();
    v.extend_from_slice(b);
    v
}

/// Decoding the UTF-8 encoding of a text gives the text back.
pub proof fn lemma_utf8_roundtrip(s: Seq<char>)
    ensures
        valid_utf8(encode_utf8(s)),
        decode_utf8(encode_utf8(s)) == s,
{
    encode_utf8_valid_utf8(s);
    encode_utf8_decode_utf8(s);
}

/// The decimal digits of `n`, most significant first, without leading zeros.
pub open spec fn decimal(n: nat) -> Seq<char>
    decreases n,
{
    if n < 10 {
        seq![digit_char(n)]
    } else {
        decimal(n / 10).push(digit_char(n % 10))
    }
}

/// The decimal digit for a value below ten.
pub open spec fn digit_char(d: nat) -> char {
    ((d + 48) as u8) as char
}

/// The lowercase hexadecimal digit for a value below sixteen.
pub open spec fn hex_char(d: nat) -> char {
    if d < 10 {
        ((d + 48) as u8) as char
    } else {
        ((d + 87) as u8) as char
    }
}

/// `n` in decimal, padded with leading zeros to at least `width` digits.
pub open spec fn decimal_padded(n: nat, width: nat) -> Seq<char> {
    let d = decimal(n);
    if d.len() >= width {
        d
    } else {
        Seq::new((width - d.len()) as nat, |i: int| '0') + d
    }
}

/// Two lowercase hexadecimal digits for a byte.
pub open spec fn hex_byte(b: u8) -> Seq<char> {
    seq![hex_char((b / 16) as nat), hex_char((b % 16) as nat)]
}

/// The lowercase hexadecimal rendering of a byte sequence.
pub open spec fn hex_bytes(bytes: Seq<u8>) -> Seq<char>
    decreases bytes.len(),
{
    if bytes.len() == 0 {
        seq![]
    } else {
        hex_bytes(bytes.drop_last()) + hex_byte(bytes.last())
    }
}

/// The hyphenated lowercase text of a 16-byte identifier: its bytes in
/// hexadecimal, in groups of 8, 4, 4, 4 and 12 digits joined by '-'.
pub open spec fn uuid_hyphenated(id: Seq<u8>) -> Seq<char> {
    hex_bytes(id.subrange(0, 4)) + seq!['-'] + hex_bytes(id.subrange(4, 6)) + seq!['-']
        + hex_bytes(id.subrange(6, 8)) + seq!['-'] + hex_bytes(id.subrange(8, 10)) + seq!['-']
        + hex_bytes(id.subrange(10, 16))
}

/// The text of an identifier is 36 characters long, and distinct identifiers
/// have distinct texts.
pub proof fn lemma_uuid_hyphenated_injective(a: Seq<u8>, b: Seq<u8>)
    requires
        a.len() == 16,
        b.len() == 16,
    ensures
        uuid_hyphenated(a).len() == 36,
        uuid_hyphenated(a) == uuid_hyphenated(b) ==> a == b,
{
    lemma_hex_bytes_injective(a.subrange(0, 4), b.subrange(0, 4));
    lemma_hex_bytes_injective(a.subrange(4, 6), b.subrange(4, 6));
    lemma_hex_bytes_injective(a.subrange(6, 8), b.subrange(6, 8));
    lemma_hex_bytes_injective(a.subrange(8, 10), b.subrange(8, 10));
    lemma_hex_bytes_injective(a.subrange(10, 16), b.subrange(10, 16));
    lemma_hex_bytes_injective(b.subrange(0, 4), a.subrange(0, 4));
    lemma_hex_bytes_injective(b.subrange(4, 6), a.subrange(4, 6));
    lemma_hex_bytes_injective(b.subrange(6, 8), a.subrange(6, 8));
    lemma_hex_bytes_injective(b.subrange(8, 10), a.subrange(8, 10));
    lemma_hex_bytes_injective(b.subrange(10, 16), a.subrange(10, 16));
    let ta = uuid_hyphenated(a);
    let tb = uuid_hyphenated(b);
    if ta == tb {
        assert(hex_bytes(a.subrange(0, 4)) =~= ta.subrange(0, 8));
        assert(hex_bytes(b.subrange(0, 4)) =~= tb.subrange(0, 8));
        assert(hex_bytes(a.subrange(4, 6)) =~= ta.subrange(9, 13));
        assert(hex_bytes(b.subrange(4, 6)) =~= tb.subrange(9, 13));
        assert(hex_bytes(a.subrange(6, 8)) =~= ta.subrange(14, 18));
        assert(hex_bytes(b.subrange(6, 8)) =~= tb.subrange(14, 18));
        assert(hex_bytes(a.subrange(8, 10)) =~= ta.subrange(19, 23));
        assert(hex_bytes(b.subrange(8, 10)) =~= tb.subrange(19, 23));
        assert(hex_bytes(a.subrange(10, 16)) =~= ta.subrange(24, 36));
        assert(hex_bytes(b.subrange(10, 16)) =~= tb.subrange(24, 36));
        assert(a =~= a.subrange(0, 4) + a.subrange(4, 6) + a.subrange(6, 8) + a.subrange(8, 10)
            + a.subrange(10, 16));
        assert(b =~= b.subrange(0, 4) + b.subrange(4, 6) + b.subrange(6, 8) + b.subrange(8, 10)
            + b.subrange(10, 16));
    }
}

/// Whether byte string `a` comes no later than `b` in lexicographic order.
pub open spec fn bytes_precede(a: Seq<u8>, b: Seq<u8>) -> bool
    decreases a.len(),
{
    if a.len() == 0 {
        true
    } else if b.len() == 0 {
        false
    } else if a[0] != b[0] {
        a[0] < b[0]
    } else {
        bytes_precede(a.drop_first(), b.drop_first())
    }
}

/// Lexicographic order is total, and two strings that each precede the other are equal.
pub proof fn lemma_bytes_precede_total(a: Seq<u8>, b: Seq<u8>)
    ensures
        bytes_precede(a, b) || bytes_precede(b, a),
        bytes_precede(a, b) && bytes_precede(b, a) ==> a == b,
    decreases a.len(),
{
    if a.len() > 0 && b.len() > 0 && a[0] == b[0] {
        lemma_bytes_precede_total(a.drop_first(), b.drop_first());
        if bytes_precede(a, b) && bytes_precede(b, a) {
            assert(a =~= seq![a[0]] + a.drop_first());
            assert(b =~= seq![b[0]] + b.drop_first());
        }
    }
}

/// Lexicographic order is transitive.
pub proof fn lemma_bytes_precede_transitive(a: Seq<u8>, b: Seq<u8>, c: Seq<u8>)
    requires
        bytes_precede(a, b),
        bytes_precede(b, c),
    ensures
        bytes_precede(a, c),
    decreases a.len(),
{
    if a.len() > 0 && b.len() > 0 && c.len() > 0 && a[0] == b[0] && b[0] == c[0] {
        lemma_bytes_precede_transitive(a.drop_first(), b.drop_first(), c.drop_first());
    }
}

/// Whether `a` comes no later than `b` in lexicographic order.
pub fn bytes_come_first(a: &[u8], b: &[u8]) -> (r: bool)
    ensures
        r == bytes_precede(a@, b@),
{
    let mut i: usize = 0;
    while i < a.len() && i < b.len() && a[i] == b[i]
        invariant
            i <= a@.len(),
            i <= b@.len(),
            bytes_precede(a@, b@) == bytes_precede(a@.skip(i as int), b@.skip(i as int)),
        decreases a@.len() - i,
    {
        let ghost x = a@.skip(i as int);
        let ghost y = b@.skip(i as int);
        assert(x.drop_first() =~= a@.skip(i + 1));
        assert(y.drop_first() =~= b@.skip(i + 1));
        i = i + 1;
    }
    if i == a.len() {
        assert(a@.skip(i as int).len() == 0);
        true
    } else if i == b.len() {
        false
    } else {
        assert(a@.skip(i as int)[0] == a@[i as int]);
        assert(b@.skip(i as int)[0] == b@[i as int]);
        a[i] < b[i]
    }
}

/// Distinct hexadecimal digit values give distinct digits.
proof fn lemma_hex_char_injective(a: nat, b: nat)
    requires
        a < 16,
        b < 16,
        hex_char(a) == hex_char(b),
    ensures
        a == b,
{
    let ca = hex_char(a);
    let cb = hex_char(b);
    assert(ca as u32 == (if a < 10 { a + 48 } else { a + 87 }));
    assert(cb as u32 == (if b < 10 { b + 48 } else { b + 87 }));
}

/// The hex rendering has two digits per byte, and equal renderings of byte
/// strings of equal length come from equal bytes.
pub proof fn lemma_hex_bytes_injective(a: Seq<u8>, b: Seq<u8>)
    ensures
        hex_bytes(a).len() == 2 * a.len(),
        a.len() == b.len() && hex_bytes(a) == hex_bytes(b) ==> a == b,
    decreases a.len() + b.len(),
{
    if a.len() > 0 {
        if b.len() > 0 {
            lemma_hex_bytes_injective(a.drop_last(), b.drop_last());
            lemma_hex_bytes_injective(b.drop_last(), a.drop_last());
        } else {
            lemma_hex_bytes_injective(a.drop_last(), b);
        }
        if a.len() == b.len() && hex_bytes(a) == hex_bytes(b) {
            let ha = hex_bytes(a.drop_last());
            let hb = hex_bytes(b.drop_last());
            let n = ha.len();
            assert(hex_bytes(a)[n as int] == hex_char((a.last() / 16) as nat));
            assert(hex_bytes(b)[n as int] == hex_char((b.last() / 16) as nat));
            assert(hex_bytes(a)[n as int + 1] == hex_char((a.last() % 16) as nat));
            assert(hex_bytes(b)[n as int + 1] == hex_char((b.last() % 16) as nat));
            lemma_hex_char_injective((a.last() / 16) as nat, (b.last() / 16) as nat);
            lemma_hex_char_injective((a.last() % 16) as nat, (b.last() % 16) as nat);
            assert(ha =~= hex_bytes(a).take(n as int));
            assert(hb =~= hex_bytes(b).take(n as int));
            assert(a.last() == b.last());
            assert(a =~= a.drop_last().push(a.last()));
            assert(b =~= b.drop_last().push(b.last()));
        }
    }
}

proof fn lemma_decimal_len(n: nat)
    ensures
        decimal(n).len() >= 1,
        n < 10 ==> decimal(n).len() == 1,
        n >= 10 ==> decimal(n).len() == decimal(n / 10).len() + 1,
    decreases n,
{
    if n >= 10 {
        lemma_decimal_len(n / 10);
    }
}

/// The digits of `n`, collected from the least significant.
fn digits_reversed(n: u64) -> (r: Vec<char>)
    ensures
        r@.reverse() == decimal(n as nat),
    decreases n,
{
    if n < 10 {
        let mut v: Vec<char> = Vec::new();
        v.push(((n as u8) + 48) as char);
        assert(v@.reverse() =~= decimal(n as nat));
        v
    } else {
        let mut v: Vec<char> = Vec::new();
        v.push((((n % 10) as u8) + 48) as char);
        let rest = digits_reversed(n / 10);
        let ghost head = v@;
        let mut i: usize = 0;
        while i < rest.len()
            invariant
                i <= rest@.len(),
                v@ == head + rest@.subrange(0, i as int),
            decreases rest@.len() - i,
        {
            v.push(rest[i]);
            i = i + 1;
            assert(v@ =~= head + rest@.subrange(0, i as int));
        }
        assert(rest@.subrange(0, rest@.len() as int) =~= rest@);
        assert((head + rest@).reverse() =~= rest@.reverse() + head.reverse());
        assert(v@.reverse() =~= decimal(n as nat));
        v
    }
}

/// Appends `n` in decimal.
pub fn push_decimal(s: &mut String, n: u64)
    ensures
        final(s)@ == old(s)@ + decimal(n as nat),
{
    let digits = digits_reversed(n);
    let ghost start = s@;
    let len = digits.len();
    let mut i: usize = len;
    while i > 0
        invariant
            i <= len,
            len == digits@.len(),
            s@ == start + digits@.subrange(i as int, len as int).reverse(),
        decreases i,
    {
        i = i - 1;
        push_char(s, digits[i]);
        assert(digits@.subrange(i as int, len as int).reverse() =~= digits@.subrange(
            (i + 1) as int,
            len as int,
        ).reverse().push(digits@[i as int]));
    }
    assert(digits@.subrange(0, len as int) =~= digits@);
}

/// Appends `n` in decimal, padded with leading zeros to at least `width` digits.
pub fn push_decimal_padded(s: &mut String, n: u64, width: usize)
    ensures
        final(s)@ == old(s)@ + decimal_padded(n as nat, width as nat),
{
    let digits = digits_reversed(n);
    let ghost start = s@;
    let len = digits.len();
    proof {
        lemma_decimal_len(n as nat);
        assert(digits@.len() == decimal(n as nat).len());
    }
    let mut pad: usize = 0;
    if len < width {
        while pad < width - len
            invariant
                len < width,
                pad <= width - len,
                s@ == start + Seq::new(pad as nat, |i: int| '0'),
            decreases width - len - pad,
        {
            push_char(s, '0');
            pad = pad + 1;
            assert(s@ =~= start + Seq::new(pad as nat, |i: int| '0'));
        }
    }
    let ghost mid = s@;
    let mut i: usize = len;
    while i > 0
        invariant
            i <= len,
            len == digits@.len(),
            s@ == mid + digits@.subrange(i as int, len as int).reverse(),
        decreases i,
    {
        i = i - 1;
        push_char(s, digits[i]);
        assert(digits@.subrange(i as int, len as int).reverse() =~= digits@.subrange(
            (i + 1) as int,
            len as int,
        ).reverse().push(digits@[i as int]));
    }
    assert(digits@.subrange(0, len as int) =~= digits@);
    assert(s@ =~= old(s)@ + decimal_padded(n as nat, width as nat));
}

/// The lowercase hexadecimal digit for a value below sixteen.
pub fn hex_digit(d: u8) -> (c: char)
    requires
        d < 16,
    ensures
        c == hex_char(d as nat),
{
    if d < 10 {
        (d + 48) as char
    } else {
        (d + 87) as char
    }
}

/// Appends two lowercase hexadecimal digits for a byte.
pub fn push_hex_byte(s: &mut String, b: u8)
    ensures
        final(s)@ == old(s)@ + hex_byte(b),
{
    push_char(s, hex_digit(b / 16));
    push_char(s, hex_digit(b % 16));
    assert(s@ =~= old(s)@ + hex_byte(b));
}

/// Whether two identifiers hold the same bytes.
pub fn same_id(a: &[u8; 16], b: &[u8; 16]) -> (r: bool)
    ensures
        r == (a@ == b@),
{
    let mut i: usize = 0;
    while i < 16
        invariant
            i <= 16,
            a@.len() == 16,
            b@.len() == 16,
            forall|j: int| 0 <= j < i ==> a@[j] == b@[j],
        decreases 16 - i,
    {
        if a[i] != b[i] {
            return false;
        }
        i = i + 1;
    }
    assert(a@ =~= b@);
    true
}

/// Whether two byte strings are equal.
pub fn same_bytes(a: &[u8], b: &[u8]) -> (r: bool)
    ensures
        r == (a@ == b@),
{
    if a.len() != b.len() {
        return false;
    }
    let mut i: usize = 0;
    while i < a.len()
        invariant
            i <= a@.len(),
            a@.len() == b@.len(),
            forall|j: int| 0 <= j < i ==> a@[j] == b@[j],
        decreases a@.len() - i,
    {
        if a[i] != b[i] {
            return false;
        }
        i = i + 1;
    }
    assert(a@ =~= b@);
    true
}

} // verus!
