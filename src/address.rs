//! Hexadecimal addresses as an operator types them: surrounding white space
//! and an optional `0x` prefix are allowed.
use vstd::prelude::*;
use crate::packet::ValidationError;

verus! {

/// ASCII white space.
pub open spec fn is_space(b: u8) -> bool {
    b == 0x20 || (0x09 <= b && b <= 0x0D)
}

/// Value of a hexadecimal digit, or -1 for any other byte.
pub open spec fn hex_digit(b: u8) -> int {
    if 0x30 <= b && b <= 0x39 {
        b - 0x30
    } else if 0x61 <= b && b <= 0x66 {
        b - 0x61 + 10
    } else if 0x41 <= b && b <= 0x46 {
        b - 0x41 + 10
    } else {
        -1
    }
}

pub open spec fn all_hex(s: Seq<u8>) -> bool {
    forall|i: int| 0 <= i < s.len() ==> hex_digit(#[trigger] s[i]) >= 0
}

/// Value of a sequence of hexadecimal digits, most significant first.
pub open spec fn hex_value(s: Seq<u8>) -> int
    decreases s.len(),
{
    if s.len() == 0 {
        0
    } else {
        hex_value(s.drop_last()) * 16 + hex_digit(s.last())
    }
}

pub open spec fn trim_start(s: Seq<u8>) -> Seq<u8>
    decreases s.len(),
{
    if s.len() > 0 && is_space(s[0]) {
        trim_start(s.subrange(1, s.len() as int))
    } else {
        s
    }
}

pub open spec fn trim_end(s: Seq<u8>) -> Seq<u8>
    decreases s.len(),
{
    if s.len() > 0 && is_space(s.last()) {
        trim_end(s.drop_last())
    } else {
        s
    }
}

/// `s` without a leading `0x` or `0X`.
pub open spec fn strip_hex_prefix(s: Seq<u8>) -> Seq<u8> {
    if s.len() >= 2 && s[0] == 0x30 && (s[1] == 0x78 || s[1] == 0x58) {
        s.subrange(2, s.len() as int)
    } else {
        s
    }
}

/// The digits of an address as typed.
pub open spec fn address_digits(s: Seq<u8>) -> Seq<u8> {
    strip_hex_prefix(trim_end(trim_start(s)))
}

/// Whether `s` spells a 32-bit address.
pub open spec fn is_address(s: Seq<u8>) -> bool {
    let d = address_digits(s);
    d.len() > 0 && all_hex(d) && hex_value(d) <= u32::MAX
}

proof fn lemma_hex_value_nonneg(s: Seq<u8>)
    requires
        all_hex(s),
    ensures
        hex_value(s) >= 0,
    decreases s.len(),
{
    if s.len() > 0 {
        lemma_hex_value_nonneg(s.drop_last());
    }
}

proof fn lemma_hex_prefix_le(s: Seq<u8>, k: int)
    requires
        all_hex(s),
        0 <= k <= s.len(),
    ensures
        hex_value(s.subrange(0, k)) <= hex_value(s),
    decreases s.len(),
{
    if k < s.len() {
        lemma_hex_prefix_le(s.drop_last(), k);
        assert(s.drop_last().subrange(0, k) =~= s.subrange(0, k));
        lemma_hex_value_nonneg(s.drop_last());
    } else {
        assert(s.subrange(0, k) =~= s);
    }
}

fn hex_digit_of(b: u8) -> (r: Option<u8>)
    ensures
        r matches Some(v) ==> v as int == hex_digit(b) && v < 16,
        r is None <==> hex_digit(b) < 0,
{
    if 0x30 <= b && b <= 0x39 {
        Some(b - 0x30)
    } else if 0x61 <= b && b <= 0x66 {
        Some(b - 0x61 + 10)
    } else if 0x41 <= b && b <= 0x46 {
        Some(b - 0x41 + 10)
    } else {
        None
    }
}

fn is_space_byte(b: u8) -> (r: bool)
    ensures
        r == is_space(b),
{
    b == 0x20 || (0x09 <= b && b <= 0x0D)
}

/// Reads a hexadecimal address, such as `0x08004000` or `8004000`.
pub fn parse_hex_address(text: &[u8]) -> (r: Result<u32, ValidationError>)
    ensures
        r is Ok <==> is_address(text@),
        r matches Ok(a) ==> a == hex_value(address_digits(text@)),
        r matches Err(e) ==> e == ValidationError::InvalidHexAddress,
{
    let len = text.len();
    let mut start: usize = 0;
    assert(text@.subrange(0, len as int) =~= text@);
    while start < len && is_space_byte(text[start])
        invariant
            start <= len == text@.len(),
            trim_start(text@) == trim_start(text@.subrange(start as int, len as int)),
        decreases len - start,
    {
        assert(text@.subrange(start as int, len as int).subrange(1, len - start) =~= text@.subrange(
            start as int + 1,
            len as int,
        ));
        start = start + 1;
    }
    let ghost front = text@.subrange(start as int, len as int);
    assert(trim_start(text@) == front);
    let mut end: usize = len;
    while end > start && is_space_byte(text[end - 1])
        invariant
            start <= end <= len == text@.len(),
            front == text@.subrange(start as int, len as int),
            trim_end(front) == trim_end(text@.subrange(start as int, end as int)),
        decreases end - start,
    {
        assert(text@.subrange(start as int, end as int).last() == text@[end - 1]);
        assert(text@.subrange(start as int, end as int).drop_last() =~= text@.subrange(
            start as int,
            end as int - 1,
        ));
        end = end - 1;
    }
    let ghost t = text@.subrange(start as int, end as int);
    assert(trim_end(trim_start(text@)) == t);
    let mut first: usize = start;
    if end - start >= 2 && text[start] == 0x30 && (text[start + 1] == 0x78 || text[start + 1]
        == 0x58) {
        first = start + 2;
    }
    let ghost d = text@.subrange(first as int, end as int);
    assert(address_digits(text@) =~= d);
    if first == end {
        return Err(ValidationError::InvalidHexAddress);
    }
    let mut value: u64 = 0;
    let mut i: usize = first;
    while i < end
        invariant
            first <= i <= end <= len == text@.len(),
            d == text@.subrange(first as int, end as int),
            address_digits(text@) == d,
            all_hex(text@.subrange(first as int, i as int)),
            value as int == hex_value(text@.subrange(first as int, i as int)),
            value <= u32::MAX,
        decreases end - i,
    {
        let ghost prefix = text@.subrange(first as int, i as int + 1);
        assert(prefix.drop_last() =~= text@.subrange(first as int, i as int));
        match hex_digit_of(text[i]) {
            None => {
                assert(d[i - first] == text@[i as int]);
                assert(hex_digit(d[i - first]) < 0);
                return Err(ValidationError::InvalidHexAddress);
            },
            Some(v) => {
                value = value * 16 + v as u64;
                assert(all_hex(prefix)) by {
                    assert forall|j: int| 0 <= j < prefix.len() implies hex_digit(
                        #[trigger] prefix[j],
                    ) >= 0 by {
                        if j < prefix.len() - 1 {
                            assert(prefix[j] == prefix.drop_last()[j]);
                        }
                    }
                }
                if value > 0xFFFF_FFFF {
                    proof {
                        if all_hex(d) {
                            lemma_hex_prefix_le(d, i - first + 1);
                            assert(d.subrange(0, i - first + 1) =~= prefix);
                        }
                    }
                    return Err(ValidationError::InvalidHexAddress);
                }
            },
        }
        i = i + 1;
    }
    Ok(value as u32)
}

} // verus!
