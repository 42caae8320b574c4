use vstd::prelude::*;

use crate::text::hex_digit;
use crate::text::push_hex_digit;
use vstd::string::StrSliceExecFns;

verus! {

/// The two lower-case hex characters of one byte.
pub open spec fn byte_text(b: int) -> Seq<char> {
    seq![hex_digit(b / 16), hex_digit(b % 16)]
}

/// The colon-hex rendering of a 6-byte hardware address: 17 characters,
/// a colon after every pair of hex digits.
pub open spec fn mac_text(a: Seq<u8>) -> Seq<char> {
    Seq::new(
        17,
        |i: int|
            if i % 3 == 2 {
                ':'
            } else if i % 3 == 0 {
                hex_digit(a[i / 3] as int / 16)
            } else {
                hex_digit(a[i / 3] as int % 16)
            },
    )
}

/// The value of one hex character given as a code point, or -1 where it is
/// none: the decimal digits, then the lower-case letters `a` to `f`.
pub open spec fn hex_val_i(b: int) -> int {
    if 48 <= b <= 57 {
        b - 48
    } else if 97 <= b <= 102 {
        b - 87
    } else {
        -1
    }
}

/// The value of one hex character, or -1 where it is none.
pub open spec fn hex_val(c: char) -> int {
    hex_val_i(c as int)
}

/// Whether a character sequence has the exact shape of a colon-hex
/// hardware address: six pairs of lower-case hex digits joined by colons.
pub open spec fn mac_text_valid(s: Seq<char>) -> bool {
    &&& s.len() == 17
    &&& forall|k: int| 0 <= k < 5 ==> #[trigger] s[3 * k + 2] == ':'
    &&& forall|k: int|
        0 <= k < 6 ==> hex_val(#[trigger] s[3 * k]) >= 0 && hex_val(s[3 * k + 1]) >= 0
}

/// The address recovered by splitting on colons and hex-decoding, or `None`
/// where the text is not a colon-hex address.
pub open spec fn mac_parse_spec(s: Seq<char>) -> Option<Seq<u8>> {
    if mac_text_valid(s) {
        Some(Seq::new(6, |k: int| (hex_val(s[3 * k]) * 16 + hex_val(s[3 * k + 1])) as u8))
    } else {
        None
    }
}

fn push_byte_hex(s: &mut String, b: u8)
    ensures
        final(s)@ == old(s)@ + byte_text(b as int),
{
    push_hex_digit(s, b / 16);
    push_hex_digit(s, b % 16);
    assert(s@ =~= old(s)@ + byte_text(b as int));
}

fn push_colon(s: &mut String)
    ensures
        final(s)@ == old(s)@.push(':'),
{
    proof {
        reveal_strlit(":");
    }
    s.append(":");
    assert(s@ =~= old(s)@.push(':'));
}

/// Renders the first six bytes of `i` as a colon-separated, lower-case
/// hex hardware address, two digits per byte.
pub fn mac_format(i: &[u8]) -> (r: String)
    requires
        i@.len() >= 6,
    ensures
        r@ == mac_text(i@),
{
    let mut s = String::new();
    push_byte_hex(&mut s, i[0]);
    push_colon(&mut s);
    push_byte_hex(&mut s, i[1]);
    push_colon(&mut s);
    push_byte_hex(&mut s, i[2]);
    push_colon(&mut s);
    push_byte_hex(&mut s, i[3]);
    push_colon(&mut s);
    push_byte_hex(&mut s, i[4]);
    push_colon(&mut s);
    push_byte_hex(&mut s, i[5]);
    assert(s@ =~= mac_text(i@));
    s
}

/// Every colon-hex address is made of characters below 128.
proof fn lemma_valid_is_ascii(s: Seq<char>)
    requires
        mac_text_valid(s),
    ensures
        vstd::utf8::is_ascii_chars(s),
{
    assert forall|i: int| 0 <= i < s.len() implies '\0' <= #[trigger] s[i] <= '\u{7f}' by {
        let k = i / 3;
        if i % 3 == 2 {
            assert(s[3 * k + 2] == ':');
        } else if i % 3 == 0 {
            assert(hex_val(s[3 * k]) >= 0);
        } else {
            assert(hex_val(s[3 * k + 1]) >= 0);
        }
        assert(48 <= s[i] as int <= 102 || s[i] == ':');
    }
}

fn hex_val_exec(b: u8) -> (r: Option<u8>)
    ensures
        match r {
            Some(v) => v < 16 && hex_val_i(b as int) == v as int,
            None => hex_val_i(b as int) == -1,
        },
{
    if 48 <= b && b <= 57 {
        Some(b - 48)
    } else if 97 <= b && b <= 102 {
        Some(b - 87)
    } else {
        None
    }
}

/// Splits a string on colons and hex-decodes the pieces: the inverse of
/// `mac_format` on well-formed colon-hex text, `None` on everything else.
pub fn mac_parse(s: &str) -> (r: Option<[u8; 6]>)
    ensures
        match r {
            Some(a) => mac_parse_spec(s@) == Some(a@),
            None => mac_parse_spec(s@) is None,
        },
{
    broadcast use vstd::string::is_ascii_spec_bytes;

    if !s.is_ascii() {
        proof {
            if mac_text_valid(s@) {
                lemma_valid_is_ascii(s@);
            }
        }
        return None;
    }
    if s.unicode_len() != 17 {
        return None;
    }
    let mut bytes: [u8; 6] = [0;6];
    let mut k: usize = 0;
    while k < 6
        invariant
            s.is_ascii(),
            s@.len() == 17,
            k <= 6,
            forall|j: int| 0 <= j < k && j < 5 ==> #[trigger] s@[3 * j + 2] == ':',
            forall|j: int|
                0 <= j < k ==> hex_val(#[trigger] s@[3 * j]) >= 0 && hex_val(s@[3 * j + 1]) >= 0
                    && bytes@[j] as int == hex_val(s@[3 * j]) * 16 + hex_val(s@[3 * j + 1]),
        decreases 6 - k,
    {
        let hi = s.get_ascii(3 * k);
        let lo = s.get_ascii(3 * k + 1);
        proof {
            assert(s@[3 * k as int] as int == hi as int);
            assert(s@[3 * k as int + 1] as int == lo as int);
        }
        let hv = match hex_val_exec(hi) {
            Some(v) => v,
            None => {
                return None;
            },
        };
        let lv = match hex_val_exec(lo) {
            Some(v) => v,
            None => {
                return None;
            },
        };
        if k < 5 {
            let sep = s.get_ascii(3 * k + 2);
            if sep != 58 {
                return None;
            }
        }
        bytes[k] = hv * 16 + lv;
        k = k + 1;
    }
    proof {
        assert(mac_text_valid(s@));
        let parsed = Seq::new(6, |j: int| (hex_val(s@[3 * j]) * 16 + hex_val(s@[3 * j + 1])) as u8);
        assert(bytes@ =~= parsed);
    }
    Some(bytes)
}

/// Round trip: the colon-hex rendering of any 6-byte hardware address,
/// re-parsed by splitting on colons and hex-decoding, recovers the
/// original bytes exactly.
pub proof fn lemma_mac_round_trip(a: Seq<u8>)
    requires
        a.len() >= 6,
    ensures
        mac_parse_spec(mac_text(a)) == Some(a.take(6)),
{
    let s = mac_text(a);
    assert forall|k: int| 0 <= k < 6 implies hex_val(s[3 * k]) == a[k] as int / 16 && hex_val(
        s[3 * k + 1],
    ) == a[k] as int % 16 by {
        assert((3 * k) % 3 == 0 && (3 * k) / 3 == k);
        assert((3 * k + 1) % 3 == 1 && (3 * k + 1) / 3 == k);
    }
    assert forall|k: int| 0 <= k < 5 implies #[trigger] s[3 * k + 2] == ':' by {
        assert((3 * k + 2) % 3 == 2);
    }
    assert(mac_text_valid(s));
    let parsed = Seq::new(6, |k: int| (hex_val(s[3 * k]) * 16 + hex_val(s[3 * k + 1])) as u8);
    assert forall|k: int| 0 <= k < 6 implies parsed[k] == a[k] by {
        assert(hex_val(s[3 * k]) * 16 + hex_val(s[3 * k + 1]) == (a[k] as int / 16) * 16 + a[k] as int % 16);
    }
    assert(parsed =~= a.take(6));
}

} // verus!
