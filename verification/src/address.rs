//! Textual hardware addresses of the form `XX:XX:XX:XX:XX:XX`.

use vstd::prelude::*;
use vstd::string::*;
use vstd::utf8::is_ascii_chars;

verus! {

/// Number of characters in a colon-separated hardware address.
pub const MAC_TEXT_LEN: usize = 17;

/// One more than the largest 48-bit identifier.
pub const MAC_LIMIT: u64 = 0x1_0000_0000_0000;

/// What the parser reports for a text that is no hardware address.
pub const INVALID_MAC_MESSAGE: &'static str = "Argument is not a valid MAC address";

/// `c` is an ASCII hexadecimal digit, in either case.
pub open spec fn is_hex_digit(c: char) -> bool {
    ||| '0' <= c <= '9'
    ||| 'a' <= c <= 'f'
    ||| 'A' <= c <= 'F'
}

/// The number that the hexadecimal digit `c` stands for, and 0 for any
/// other character.
pub open spec fn hex_value(c: char) -> nat {
    if '0' <= c <= '9' {
        (c as int - '0' as int) as nat
    } else if 'a' <= c <= 'f' {
        (c as int - 'a' as int + 10) as nat
    } else if 'A' <= c <= 'F' {
        (c as int - 'A' as int + 10) as nat
    } else {
        0
    }
}

/// Position `i` of an address text holds a colon rather than a digit.
pub open spec fn is_separator_position(i: int) -> bool {
    (i + 1) % 3 == 0
}

/// `text` has the shape `XX:XX:XX:XX:XX:XX`: seventeen characters, a colon
/// at every third position and a hexadecimal digit everywhere else.
pub open spec fn is_mac_text(text: Seq<char>) -> bool {
    &&& text.len() == MAC_TEXT_LEN
    &&& forall|i: int|
        0 <= i < text.len() ==> if is_separator_position(i) {
            #[trigger] text[i] == ':'
        } else {
            is_hex_digit(text[i])
        }
}

/// `text` without its colons.
pub open spec fn strip_colons(text: Seq<char>) -> Seq<char> {
    text.filter(|c: char| c != ':')
}

/// The number written by `digits` in base sixteen, most significant digit
/// first.
pub open spec fn base16_value(digits: Seq<char>) -> nat
    decreases digits.len(),
{
    if digits.len() == 0 {
        0
    } else {
        16 * base16_value(digits.drop_last()) + hex_value(digits.last())
    }
}

/// The identifier that an address text denotes: its twelve digits read as
/// one base-sixteen number.
pub open spec fn mac_value(text: Seq<char>) -> nat {
    base16_value(strip_colons(text))
}

/// `c` with an ASCII capital letter replaced by its small letter.
pub open spec fn ascii_lower(c: char) -> char {
    if 'A' <= c <= 'Z' {
        ((c as int) + 32) as char
    } else {
        c
    }
}

/// `a` and `b` are the same text up to the case of their ASCII letters.
pub open spec fn same_ignoring_case(a: Seq<char>, b: Seq<char>) -> bool {
    &&& a.len() == b.len()
    &&& forall|i: int| 0 <= i < a.len() ==> ascii_lower(#[trigger] a[i]) == ascii_lower(b[i])
}

/// The digits of `text` at the two places of octet `k`, read as one byte.
pub open spec fn text_octet(text: Seq<char>, k: int) -> nat {
    16 * hex_value(text[3 * k]) + hex_value(text[3 * k + 1])
}

/// Appending one character to a text appends it to the stripped text unless
/// it is a colon, and a digit appended to a digit string shifts its value
/// by one hexadecimal place.
proof fn lemma_strip_push(text: Seq<char>, c: char)
    ensures
        c == ':' ==> strip_colons(text.push(c)) == strip_colons(text),
        c != ':' ==> strip_colons(text.push(c)) == strip_colons(text).push(c),
        c != ':' ==> mac_value(text.push(c)) == 16 * mac_value(text) + hex_value(c),
{
    text.lemma_filter_push(c, |c: char| c != ':');
    if c != ':' {
        assert(strip_colons(text).push(c).drop_last() =~= strip_colons(text));
    }
}

/// Two texts that differ only in case denote the same number up to any
/// position.
proof fn lemma_case_prefix(a: Seq<char>, b: Seq<char>, n: nat)
    requires
        is_mac_text(a),
        same_ignoring_case(a, b),
        n <= a.len(),
    ensures
        mac_value(a.take(n as int)) == mac_value(b.take(n as int)),
    decreases n,
{
    if n == 0 {
        assert(a.take(0) =~= b.take(0));
    } else {
        let m = (n - 1) as int;
        lemma_case_prefix(a, b, m as nat);
        assert(a.take(n as int) =~= a.take(m).push(a[m]));
        assert(b.take(n as int) =~= b.take(m).push(b[m]));
        lemma_strip_push(a.take(m), a[m]);
        lemma_strip_push(b.take(m), b[m]);
        assert(ascii_lower(a[m]) == ascii_lower(b[m]));
    }
}

/// Case does not matter: a text that differs from a hardware address only
/// in the case of its letters is a hardware address too, and denotes the
/// same identifier.
pub proof fn lemma_case_insensitive(a: Seq<char>, b: Seq<char>)
    requires
        is_mac_text(a),
        same_ignoring_case(a, b),
    ensures
        is_mac_text(b),
        mac_value(a) == mac_value(b),
{
    assert forall|i: int| 0 <= i < b.len() implies if is_separator_position(i) {
        #[trigger] b[i] == ':'
    } else {
        is_hex_digit(b[i])
    } by {
        assert(ascii_lower(a[i]) == ascii_lower(b[i]));
    }
    lemma_case_prefix(a, b, a.len());
    assert(a.take(a.len() as int) =~= a);
    assert(b.take(b.len() as int) =~= b);
}

/// What one more character of an address text adds to the number read so
/// far.
proof fn lemma_take_step(text: Seq<char>, i: int)
    requires
        is_mac_text(text),
        0 <= i < text.len(),
    ensures
        is_separator_position(i) ==> mac_value(text.take(i + 1)) == mac_value(text.take(i)),
        !is_separator_position(i) ==> mac_value(text.take(i + 1)) == 16 * mac_value(text.take(i))
            + hex_value(text[i]),
{
    assert(text.take(i + 1) =~= text.take(i).push(text[i]));
    lemma_strip_push(text.take(i), text[i]);
}

/// The identifier of a hardware address is its six octets in big-endian
/// order: the first octet written is the most significant byte.
pub proof fn lemma_mac_value_octets(text: Seq<char>)
    requires
        is_mac_text(text),
    ensures
        mac_value(text) == ((((text_octet(text, 0) * 256 + text_octet(text, 1)) * 256 + text_octet(
            text,
            2,
        )) * 256 + text_octet(text, 3)) * 256 + text_octet(text, 4)) * 256 + text_octet(text, 5),
        forall|k: int| 0 <= k < 6 ==> #[trigger] text_octet(text, k) < 256,
{
    assert(text.take(0) =~= Seq::<char>::empty());
    assert(mac_value(text.take(0)) == 0) by {
        reveal(Seq::filter);
    }
    lemma_take_step(text, 0);
    lemma_take_step(text, 1);
    lemma_take_step(text, 2);
    lemma_take_step(text, 3);
    lemma_take_step(text, 4);
    lemma_take_step(text, 5);
    lemma_take_step(text, 6);
    lemma_take_step(text, 7);
    lemma_take_step(text, 8);
    lemma_take_step(text, 9);
    lemma_take_step(text, 10);
    lemma_take_step(text, 11);
    lemma_take_step(text, 12);
    lemma_take_step(text, 13);
    lemma_take_step(text, 14);
    lemma_take_step(text, 15);
    lemma_take_step(text, 16);
    assert(text.take(17) =~= text);
    assert forall|k: int| 0 <= k < 6 implies #[trigger] text_octet(text, k) < 256 by {
        assert(is_hex_digit(text[3 * k]));
        assert(is_hex_digit(text[3 * k + 1]));
    }
}

/// Reads one hexadecimal digit given as an ASCII byte.
fn hex_digit_value(b: u8) -> (r: Option<u8>)
    ensures
        r is Some <==> is_hex_digit(b as char),
        r matches Some(v) ==> v == hex_value(b as char) && v < 16,
{
    if 0x30 <= b && b <= 0x39 {
        // '0'..='9'
        Some(b - 0x30)
    } else if 0x61 <= b && b <= 0x66 {
        // 'a'..='f'
        Some(b - 0x61 + 10)
    } else if 0x41 <= b && b <= 0x46 {
        // 'A'..='F'
        Some(b - 0x41 + 10)
    } else {
        None
    }
}

/// Sixteen to the power `n`.
spec fn pow16(n: nat) -> nat
    decreases n,
{
    if n == 0 {
        1
    } else {
        16 * pow16((n - 1) as nat)
    }
}

/// Converts a string into a hardware address.
///
/// Returns the 48-bit identifier written by `s` if `s` has the shape
/// `XX:XX:XX:XX:XX:XX` with hexadecimal digits of either case, and
/// [`INVALID_MAC_MESSAGE`] for every other string.
pub fn mac_from_str(s: &str) -> (r: Result<u64, String>)
    ensures
        is_mac_text(s@) ==> r is Ok && r->Ok_0 == mac_value(s@) && r->Ok_0 < MAC_LIMIT,
        !is_mac_text(s@) ==> r is Err && r->Err_0@ == INVALID_MAC_MESSAGE@,
        s@.len() != MAC_TEXT_LEN ==> r is Err,
        forall|i: int|
            0 <= i < s@.len() && #[trigger] s@[i] == ':' && i != 2 && i != 5 && i != 8 && i != 11
                && i != 14 ==> r is Err,
{
    let bytes = s.as_bytes();
    if bytes.len() != MAC_TEXT_LEN || !s.is_ascii() {
        proof {
            if is_mac_text(s@) {
                assert(is_ascii_chars(s@));
                is_ascii_spec_bytes(s);
            }
        }
        return Err(String::from_str(INVALID_MAC_MESSAGE));
    }
    proof {
        is_ascii_spec_bytes(s);
        assert(s@.take(0) =~= Seq::<char>::empty());
        reveal(Seq::filter);
    }
    let mut value: u64 = 0;
    let mut i: usize = 0;
    while i < MAC_TEXT_LEN
        invariant
            i <= MAC_TEXT_LEN,
            s@.len() == MAC_TEXT_LEN,
            bytes@.len() == MAC_TEXT_LEN,
            is_ascii_chars(s@),
            forall|j: int| 0 <= j < s@.len() ==> bytes@[j] == s@[j] as u8,
            forall|j: int|
                0 <= j < i ==> if is_separator_position(j) {
                    #[trigger] s@[j] == ':'
                } else {
                    is_hex_digit(s@[j])
                },
            value == mac_value(s@.take(i as int)),
            value < pow16((i - i / 3) as nat),
        decreases MAC_TEXT_LEN - i,
    {
        let b: u8 = bytes[i];
        proof {
            assert(s@.take(i + 1) =~= s@.take(i as int).push(s@[i as int]));
            lemma_strip_push(s@.take(i as int), s@[i as int]);
            assert(b as char == s@[i as int]);
            reveal_with_fuel(pow16, 13);
        }
        if (i + 1) % 3 == 0 {
            if b != 0x3a {
                return Err(String::from_str(INVALID_MAC_MESSAGE));
            }
        } else {
            match hex_digit_value(b) {
                Some(digit) => {
                    value = value * 16 + digit as u64;
                },
                None => {
                    return Err(String::from_str(INVALID_MAC_MESSAGE));
                },
            }
        }
        i += 1;
    }
    proof {
        assert(s@.take(MAC_TEXT_LEN as int) =~= s@);
        reveal_with_fuel(pow16, 13);
    }
    Ok(value)
}

} // verus!
