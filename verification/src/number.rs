//! The decimal number fields of an archive header.

use vstd::prelude::*;

verus! {

/// The widest number field of a header, in bytes.
pub const MAX_FIELD: usize = 15;

/// Whether `byte` is an ASCII decimal digit.
pub open spec fn is_digit(byte: u8) -> bool {
    0x30 <= byte <= 0x39
}

/// The number that the decimal digits `digits` write.
pub open spec fn decimal(digits: Seq<u8>) -> int
    decreases digits.len(),
{
    if digits.len() == 0 {
        0
    } else {
        10 * decimal(digits.drop_last()) + (digits.last() - 0x30)
    }
}

/// Whether `field` is `count` digits followed by spaces to its end, with at
/// least one digit.
pub open spec fn is_plain(field: Seq<u8>, count: int) -> bool {
    &&& 1 <= count <= field.len()
    &&& forall|i: int| 0 <= i < count ==> is_digit(#[trigger] field[i])
    &&& forall|i: int| count <= i < field.len() ==> #[trigger] field[i] == 0x20
}

/// The number that `field` holds, if it is plain: decimal digits, then
/// spaces, and nothing else.
pub open spec fn plain_number(field: Seq<u8>) -> Option<int> {
    if exists|count: int| is_plain(field, count) {
        let count = choose|count: int| is_plain(field, count);
        Some(decimal(field.take(count)))
    } else {
        None
    }
}

/// Ten to the power `exponent`.
pub open spec fn power_of_ten(exponent: nat) -> int
    decreases exponent,
{
    if exponent == 0 {
        1
    } else {
        10 * power_of_ten((exponent - 1) as nat)
    }
}

/// A plain field has one digit count only.
pub proof fn lemma_plain_count_unique(field: Seq<u8>, first: int, second: int)
    requires
        is_plain(field, first),
        is_plain(field, second),
    ensures
        first == second,
{
    if first < second {
        assert(is_digit(field[first]));
        assert(field[first] == 0x20);
    } else if second < first {
        assert(is_digit(field[second]));
        assert(field[second] == 0x20);
    }
}

/// Powers of ten grow with the exponent.
pub proof fn lemma_power_of_ten_grows(small: nat, large: nat)
    requires
        small <= large,
    ensures
        0 < power_of_ten(small) <= power_of_ten(large),
    decreases large,
{
    if small < large {
        lemma_power_of_ten_grows(small, (large - 1) as nat);
    } else if large > 0 {
        lemma_power_of_ten_grows((small - 1) as nat, (large - 1) as nat);
    }
}

/// Reads the number field that `bytes` holds from `from` up to `to`.
///
/// The result is the number if the field is plain, and `None` for every other
/// field: an empty one, one with a sign, with a space before or between the
/// digits, or with any other byte.
pub fn read_number(bytes: &[u8], from: usize, to: usize) -> (number: Option<u64>)
    requires
        from <= to <= bytes@.len(),
        to - from <= MAX_FIELD,
    ensures
        number is Some == plain_number(bytes@.subrange(from as int, to as int)) is Some,
        number matches Some(value) ==> plain_number(bytes@.subrange(from as int, to as int))
            == Some(value as int),
{
    let ghost field = bytes@.subrange(from as int, to as int);
    let mut value: u64 = 0;
    let mut i: usize = from;
    while i < to && 0x30 <= bytes[i] && bytes[i] <= 0x39
        invariant
            from <= i <= to <= bytes@.len(),
            to - from <= MAX_FIELD,
            field == bytes@.subrange(from as int, to as int),
            forall|k: int| 0 <= k < i - from ==> is_digit(#[trigger] field[k]),
            value == decimal(field.take(i - from)),
            0 <= value < power_of_ten((i - from) as nat),
        decreases to - i,
    {
        proof {
            lemma_power_of_ten_grows((i - from) as nat, 14);
            assert(power_of_ten(14) == 100_000_000_000_000) by {
                reveal_with_fuel(power_of_ten, 15);
            }
            let longer = field.take(i - from + 1);
            assert(longer.drop_last() =~= field.take(i - from));
            assert(longer.last() == bytes@[i as int]);
        }
        value = value * 10 + (bytes[i] - 0x30) as u64;
        i += 1;
    }
    let count: usize = i - from;
    if count == 0 {
        proof {
            assert forall|c: int| !is_plain(field, c) by {
                if is_plain(field, c) {
                    assert(is_digit(field[0]));
                }
            }
        }
        return None;
    }
    let mut j: usize = i;
    while j < to
        invariant
            from < i <= j <= to <= bytes@.len(),
            count == i - from,
            field == bytes@.subrange(from as int, to as int),
            forall|k: int| 0 <= k < count ==> is_digit(#[trigger] field[k]),
            i < to ==> !is_digit(field[count as int]),
            forall|k: int| count <= k < j - from ==> #[trigger] field[k] == 0x20,
        decreases to - j,
    {
        if bytes[j] != 0x20 {
            proof {
                let at = j - from;
                assert(field[at] != 0x20);
                assert forall|c: int| !is_plain(field, c) by {
                    if is_plain(field, c) {
                        if c <= at {
                            assert(field[at] == 0x20);
                        } else {
                            assert(is_digit(field[count as int]));
                        }
                    }
                }
            }
            return None;
        }
        j += 1;
    }
    proof {
        assert(is_plain(field, count as int));
        let chosen = choose|c: int| is_plain(field, c);
        lemma_plain_count_unique(field, chosen, count as int);
    }
    Some(value)
}

} // verus!
