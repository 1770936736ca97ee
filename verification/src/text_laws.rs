//! What holds of the text of an address: it reads back as the address, and
//! it shows the octets that the address was made of.

use vstd::prelude::*;
use crate::address::IpAddr;
use crate::scan::{
    digit_of, digits_end, dotted_at, dotted_from, group_at, groups_from, ip_of, ipv4_of, ipv6_of,
    octet_at, run_value, Groups,
};
use crate::util::{be_value, lemma_be_value_bound, lemma_pow256_monotonic, pow256};
use crate::text::{
    address_text, decimal_text, digit_char, group_v6, groups_text, hex_text, ipv4_text, ipv6_text,
    longest_zero_run, octet_v4, zero_run,
};

verus! {

/// The character that writes a digit reads back as that digit.
pub proof fn lemma_digit_reads_back(digit: nat)
    requires
        digit < 16,
    ensures
        digit_of(digit_char(digit), 16) == Some(digit),
        digit < 10 ==> digit_of(digit_char(digit), 10) == Some(digit),
        digit >= 10 ==> digit_of(digit_char(digit), 10) is None,
        digit_char(digit) != '.',
        digit_char(digit) != ':',
        digit_char(digit) == '0' <==> digit == 0,
{
}

/// Where every character from `pos` up to `end` is a digit, and no digit
/// stands at `end`, the run of digits at `pos` ends at `end`.
proof fn lemma_digits_end(s: Seq<char>, pos: int, end: int, radix: nat)
    requires
        0 <= pos <= end <= s.len(),
        forall|i: int| pos <= i < end ==> digit_of(#[trigger] s[i], radix) is Some,
        end == s.len() || digit_of(s[end], radix) is None,
    ensures
        digits_end(s, pos, radix) == end,
    decreases end - pos,
{
    if pos < end {
        lemma_digits_end(s, pos + 1, end, radix);
    }
}

/// The decimal text of a number, wherever it stands in a text, is a run of
/// digits that spells the number; it has a digit for every power of ten up
/// to the number, and starts with zero only where the number is zero.
proof fn lemma_decimal_run(s: Seq<char>, pos: int, n: nat)
    requires
        0 <= pos,
        pos + decimal_text(n).len() <= s.len(),
        s.subrange(pos, pos + decimal_text(n).len()) == decimal_text(n),
    ensures
        decimal_text(n).len() >= 1,
        n < 10 ==> decimal_text(n).len() == 1,
        n < 100 ==> decimal_text(n).len() <= 2,
        n < 1000 ==> decimal_text(n).len() <= 3,
        n >= 10 ==> s[pos] != '0',
        forall|i: int|
            pos <= i < pos + decimal_text(n).len() ==> digit_of(#[trigger] s[i], 10) is Some,
        run_value(s, pos, pos + decimal_text(n).len(), 10) == n,
    decreases n,
{
    let text = decimal_text(n);
    let end = pos + text.len();
    if n < 10 {
        lemma_digit_reads_back(n);
        assert(s[pos] == s.subrange(pos, end)[0]);
        assert(run_value(s, pos, pos, 10) == 0);
    } else {
        let front = decimal_text(n / 10);
        lemma_digit_reads_back(n % 10);
        assert(s.subrange(pos, pos + front.len()) =~= front) by {
            assert forall|i: int| 0 <= i < front.len() implies s.subrange(pos, pos + front.len())[i]
                == front[i] by {
                assert(s.subrange(pos, end)[i] == text[i]);
            }
        }
        lemma_decimal_run(s, pos, n / 10);
        assert(s[end - 1] == s.subrange(pos, end)[text.len() - 1]);
        assert(s[end - 1] == digit_char(n % 10));
        if n / 10 < 10 {
            assert(s[pos] == s.subrange(pos, pos + front.len())[0]);
            lemma_digit_reads_back(n / 10);
        }
        assert forall|i: int| pos <= i < end implies digit_of(#[trigger] s[i], 10) is Some by {
            if i < end - 1 {
            }
        }
    }
}

proof fn lemma_octet_reads_back(s: Seq<char>, pos: int, n: nat)
    requires
        n <= 255,
        0 <= pos,
        pos + decimal_text(n).len() <= s.len(),
        s.subrange(pos, pos + decimal_text(n).len()) == decimal_text(n),
        pos + decimal_text(n).len() == s.len() || digit_of(s[pos + decimal_text(n).len()], 10)
            is None,
    ensures
        octet_at(s, pos) == Some((n, pos + decimal_text(n).len())),
{
    lemma_decimal_run(s, pos, n);
    lemma_digits_end(s, pos, pos + decimal_text(n).len(), 10);
}

spec fn with_octet(acc: u32, octet: u32) -> u32 {
    (acc << 8) | octet
}

proof fn lemma_octets_make_bits(bits: u32)
    by (bit_vector)
    ensures
        with_octet(
            with_octet(
                with_octet(with_octet(0, (bits >> 24) & 0xff), (bits >> 16) & 0xff),
                (bits >> 8) & 0xff,
            ),
            (bits >> 0) & 0xff,
        ) == bits,
        (bits >> 24) & 0xff <= 255,
        (bits >> 16) & 0xff <= 255,
        (bits >> 8) & 0xff <= 255,
        (bits >> 0) & 0xff <= 255,
{
}

/// The dotted text of an IPv4 address, wherever it stands in a text with no
/// digit after it, reads back as that address.
pub proof fn lemma_dotted_reads_back(s: Seq<char>, pos: int, bits: u32)
    requires
        0 <= pos,
        pos + ipv4_text(bits).len() <= s.len(),
        s.subrange(pos, pos + ipv4_text(bits).len()) == ipv4_text(bits),
        pos + ipv4_text(bits).len() == s.len() || digit_of(s[pos + ipv4_text(bits).len()], 10)
            is None,
    ensures
        dotted_at(s, pos) == Some((bits, pos + ipv4_text(bits).len())),
{
    let text = ipv4_text(bits);
    let octet0 = decimal_text(octet_v4(bits, 0));
    let octet1 = decimal_text(octet_v4(bits, 1));
    let octet2 = decimal_text(octet_v4(bits, 2));
    let octet3 = decimal_text(octet_v4(bits, 3));
    let begin0 = pos;
    let end0 = begin0 + octet0.len();
    let begin1 = end0 + 1;
    let end1 = begin1 + octet1.len();
    let begin2 = end1 + 1;
    let end2 = begin2 + octet2.len();
    let begin3 = end2 + 1;
    let end3 = begin3 + octet3.len();
    lemma_octets_make_bits(bits);
    assert(text.len() == end3 - pos);
    assert forall|i: int| 0 <= i < text.len() implies s[pos + i] == #[trigger] text[i] by {
        assert(s.subrange(pos, pos + text.len())[i] == s[pos + i]);
    }
    assert(s.subrange(begin0, end0) =~= octet0) by {
        assert forall|i: int| 0 <= i < octet0.len() implies s.subrange(begin0, end0)[i]
            == octet0[i] by {
            assert(text[i] == octet0[i]);
        }
    }
    assert(s[end0] == '.') by {
        assert(text[end0 - pos] == '.');
    }
    assert(s.subrange(begin1, end1) =~= octet1) by {
        assert forall|i: int| 0 <= i < octet1.len() implies s.subrange(begin1, end1)[i]
            == octet1[i] by {
            assert(text[begin1 - pos + i] == octet1[i]);
        }
    }
    assert(s[end1] == '.') by {
        assert(text[end1 - pos] == '.');
    }
    assert(s.subrange(begin2, end2) =~= octet2) by {
        assert forall|i: int| 0 <= i < octet2.len() implies s.subrange(begin2, end2)[i]
            == octet2[i] by {
            assert(text[begin2 - pos + i] == octet2[i]);
        }
    }
    assert(s[end2] == '.') by {
        assert(text[end2 - pos] == '.');
    }
    assert(s.subrange(begin3, end3) =~= octet3) by {
        assert forall|i: int| 0 <= i < octet3.len() implies s.subrange(begin3, end3)[i]
            == octet3[i] by {
            assert(text[begin3 - pos + i] == octet3[i]);
        }
    }
    lemma_octet_reads_back(s, begin0, octet_v4(bits, 0));
    lemma_octet_reads_back(s, begin1, octet_v4(bits, 1));
    lemma_octet_reads_back(s, begin2, octet_v4(bits, 2));
    lemma_octet_reads_back(s, begin3, octet_v4(bits, 3));
    reveal_with_fuel(dotted_from, 5);
}

/// The text of an IPv4 address reads back as that address.
pub proof fn lemma_ipv4_text_reads_back(bits: u32)
    ensures
        ipv4_of(ipv4_text(bits)) == Some(bits),
{
    let text = ipv4_text(bits);
    assert(text.subrange(0, text.len() as int) =~= text);
    lemma_dotted_reads_back(text, 0, bits);
}

/// The hexadecimal text of a number, wherever it stands in a text, is a run
/// of digits that spells the number, with a digit for every power of sixteen
/// up to the number.
proof fn lemma_hex_run(s: Seq<char>, pos: int, n: nat)
    requires
        0 <= pos,
        pos + hex_text(n).len() <= s.len(),
        s.subrange(pos, pos + hex_text(n).len()) == hex_text(n),
    ensures
        hex_text(n).len() >= 1,
        n < 0x10 ==> hex_text(n).len() == 1,
        n < 0x100 ==> hex_text(n).len() <= 2,
        n < 0x1000 ==> hex_text(n).len() <= 3,
        n < 0x10000 ==> hex_text(n).len() <= 4,
        forall|i: int|
            pos <= i < pos + hex_text(n).len() ==> digit_of(#[trigger] s[i], 16) is Some,
        run_value(s, pos, pos + hex_text(n).len(), 16) == n,
    decreases n,
{
    let text = hex_text(n);
    let end = pos + text.len();
    if n < 16 {
        lemma_digit_reads_back(n);
        assert(s[pos] == s.subrange(pos, end)[0]);
        assert(run_value(s, pos, pos, 16) == 0);
    } else {
        let front = hex_text(n / 16);
        lemma_digit_reads_back(n % 16);
        assert(s.subrange(pos, pos + front.len()) =~= front) by {
            assert forall|i: int| 0 <= i < front.len() implies s.subrange(pos, pos + front.len())[i]
                == front[i] by {
                assert(s.subrange(pos, end)[i] == text[i]);
            }
        }
        lemma_hex_run(s, pos, n / 16);
        assert(s[end - 1] == s.subrange(pos, end)[text.len() - 1]);
        assert(s[end - 1] == digit_char(n % 16));
        assert forall|i: int| pos <= i < end implies digit_of(#[trigger] s[i], 16) is Some by {
            if i < end - 1 {
            }
        }
    }
}

proof fn lemma_group_reads_back(s: Seq<char>, pos: int, n: nat)
    requires
        n <= 0xffff,
        0 <= pos,
        pos + hex_text(n).len() <= s.len(),
        s.subrange(pos, pos + hex_text(n).len()) == hex_text(n),
        pos + hex_text(n).len() == s.len() || digit_of(s[pos + hex_text(n).len()], 16) is None,
    ensures
        group_at(s, pos) == Some((n, pos + hex_text(n).len())),
{
    lemma_hex_run(s, pos, n);
    lemma_digits_end(s, pos, pos + hex_text(n).len(), 16);
}

/// The run of digits at a position lies within the text, holds digits only,
/// and no digit follows it.
proof fn lemma_digits_end_is_the_end(s: Seq<char>, pos: int, radix: nat)
    requires
        0 <= pos <= s.len(),
    ensures
        pos <= digits_end(s, pos, radix) <= s.len(),
        forall|i: int|
            pos <= i < digits_end(s, pos, radix) ==> digit_of(#[trigger] s[i], radix) is Some,
        digits_end(s, pos, radix) == s.len() || digit_of(s[digits_end(s, pos, radix)], radix)
            is None,
    decreases s.len() - pos,
{
    if pos < s.len() && digit_of(s[pos], radix) is Some {
        lemma_digits_end_is_the_end(s, pos + 1, radix);
    }
}

/// No dotted IPv4 address stands where a run of hexadecimal digits is
/// followed by the end of the text or by a character other than a dot.
proof fn lemma_no_dotted_at_group(s: Seq<char>, pos: int, end: int)
    requires
        0 <= pos <= end <= s.len(),
        forall|i: int| pos <= i < end ==> digit_of(#[trigger] s[i], 16) is Some,
        end == s.len() || (digit_of(s[end], 16) is None && s[end] != '.'),
    ensures
        dotted_at(s, pos) is None,
{
    lemma_digits_end_is_the_end(s, pos, 10);
    let e = digits_end(s, pos, 10);
    if e > end {
        assert(digit_of(s[end], 10) is Some);
    }
    if e < end {
        assert(digit_of(s[e], 16) is Some);
        assert(digit_of(s[e], 10) is None);
    }
    reveal_with_fuel(dotted_from, 3);
}

/// The groups `from..to` of an IPv6 address, each after a colon.
spec fn tail_text(bits: u128, from: nat, to: nat) -> Seq<char>
    decreases to - from,
{
    if from >= to {
        Seq::empty()
    } else {
        seq![':'] + hex_text(group_v6(bits, from)) + tail_text(bits, from + 1, to)
    }
}

/// The number that groups `from..to` of an IPv6 address make of `acc`, each
/// taking the place of the lowest 16 bits in turn.
spec fn with_groups(acc: u128, bits: u128, from: nat, to: nat) -> u128
    decreases to - from,
{
    if from >= to {
        acc
    } else {
        with_groups((acc << 16) | (group_v6(bits, from) as u128), bits, from + 1, to)
    }
}

proof fn lemma_tail_text_push(bits: u128, from: nat, to: nat)
    requires
        from <= to,
    ensures
        tail_text(bits, from, to + 1) == tail_text(bits, from, to) + seq![':'] + hex_text(
            group_v6(bits, to),
        ),
    decreases to - from,
{
    if from < to {
        lemma_tail_text_push(bits, from + 1, to);
        assert(tail_text(bits, from, to + 1) =~= tail_text(bits, from, to) + seq![':'] + hex_text(
            group_v6(bits, to),
        ));
    } else {
        assert(tail_text(bits, from + 1, to + 1) =~= Seq::<char>::empty());
        assert(tail_text(bits, from, to + 1) =~= tail_text(bits, from, to) + seq![':'] + hex_text(
            group_v6(bits, to),
        ));
    }
}

proof fn lemma_groups_text_split(bits: u128, from: nat, to: nat)
    requires
        from < to,
    ensures
        groups_text(bits, from, to) == hex_text(group_v6(bits, from)) + tail_text(
            bits,
            from + 1,
            to,
        ),
    decreases to,
{
    if from + 1 == to {
        assert(groups_text(bits, from, to) =~= hex_text(group_v6(bits, from)) + tail_text(
            bits,
            from + 1,
            to,
        ));
    } else {
        lemma_groups_text_split(bits, from, (to - 1) as nat);
        lemma_tail_text_push(bits, from + 1, (to - 1) as nat);
        assert(groups_text(bits, from, to) =~= hex_text(group_v6(bits, from)) + tail_text(
            bits,
            from + 1,
            to,
        ));
    }
}

proof fn lemma_group_is_small(bits: u128, index: nat)
    requires
        index < 8,
    ensures
        group_v6(bits, index) <= 0xffff,
{
    let shift = (112 - 16 * index) as u128;
    assert((bits >> shift) & 0xffff <= 0xffff) by (bit_vector);
}

/// A stretch of groups, each after a colon, reads back as those groups,
/// provided that it is followed by the end of the text or, where more groups
/// could be read, by a double colon.
proof fn lemma_stretch_reads_back(
    s: Seq<char>,
    pos: int,
    limit: nat,
    index: nat,
    acc: u128,
    bits: u128,
    from: nat,
    to: nat,
)
    requires
        1 <= index,
        from <= to <= 8,
        index + (to - from) <= limit <= 8,
        0 <= pos,
        pos + tail_text(bits, from, to).len() <= s.len(),
        s.subrange(pos, pos + tail_text(bits, from, to).len()) == tail_text(bits, from, to),
        ({
            let end = pos + tail_text(bits, from, to).len();
            if index + (to - from) < limit {
                end == s.len() || (end + 1 < s.len() && s[end] == ':' && s[end + 1] == ':')
            } else {
                end == s.len() || s[end] == ':'
            }
        }),
    ensures
        groups_from(s, pos, limit, index, acc) == (Groups {
            value: with_groups(acc, bits, from, to),
            count: (index + (to - from)) as nat,
            end: pos + tail_text(bits, from, to).len(),
            dotted: false,
        }),
    decreases to - from,
{
    let text = tail_text(bits, from, to);
    let end = pos + text.len();
    if from >= to {
        if index < limit && end < s.len() {
            lemma_digits_end(s, end + 1, end + 1, 10);
            lemma_digits_end(s, end + 1, end + 1, 16);
            reveal_with_fuel(dotted_from, 2);
        }
    } else {
        let group = group_v6(bits, from);
        let hex = hex_text(group);
        let rest = tail_text(bits, from + 1, to);
        let start = pos + 1;
        let next = start + hex.len();
        lemma_group_is_small(bits, from);
        assert forall|i: int| 0 <= i < text.len() implies s[pos + i] == #[trigger] text[i] by {
            assert(s.subrange(pos, end)[i] == s[pos + i]);
        }
        assert(s[pos] == ':') by {
            assert(text[0] == ':');
        }
        assert(s.subrange(start, next) =~= hex) by {
            assert forall|i: int| 0 <= i < hex.len() implies s.subrange(start, next)[i]
                == hex[i] by {
                assert(text[1 + i] == hex[i]);
            }
        }
        assert(s.subrange(next, next + rest.len()) =~= rest) by {
            assert forall|i: int| 0 <= i < rest.len() implies s.subrange(
                next,
                next + rest.len(),
            )[i] == rest[i] by {
                assert(text[1 + hex.len() + i] == rest[i]);
            }
        }
        assert(next == s.len() || s[next] == ':') by {
            if from + 1 < to {
                assert(rest[0] == ':');
                assert(text[1 + hex.len() as int] == rest[0]);
            }
        }
        lemma_hex_run(s, start, group);
        lemma_group_reads_back(s, start, group);
        lemma_no_dotted_at_group(s, start, next);
        lemma_stretch_reads_back(
            s,
            next,
            limit,
            index + 1,
            (acc << 16) | (group as u128),
            bits,
            from + 1,
            to,
        );
    }
}

/// The uppermost `count` groups of an IPv6 address, as a number.
spec fn top_groups(bits: u128, count: nat) -> u128 {
    if count == 0 {
        0
    } else {
        bits >> ((16 * (8 - count)) as u128)
    }
}

proof fn lemma_shift_in_group(bits: u128, count: u128)
    by (bit_vector)
    requires
        1 <= count <= 7,
    ensures
        ((bits >> ((16 * (8 - count)) as u128)) << 16) | ((bits >> ((112 - 16 * count) as u128))
            & 0xffff) == bits >> ((16 * (8 - (count + 1))) as u128),
{
}

proof fn lemma_top_groups_step(bits: u128, count: nat)
    requires
        count < 8,
    ensures
        top_groups(bits, count + 1) == (top_groups(bits, count) << 16) | (group_v6(
            bits,
            count,
        ) as u128),
{
    lemma_group_is_small(bits, count);
    if count == 0 {
        assert((0u128 << 16) | ((bits >> 112) & 0xffff) == bits >> 112) by (bit_vector);
    } else {
        lemma_shift_in_group(bits, count as u128);
    }
}

proof fn lemma_with_groups_from_top(bits: u128, from: nat, to: nat)
    requires
        from <= to <= 8,
    ensures
        with_groups(top_groups(bits, from), bits, from, to) == top_groups(bits, to),
    decreases to - from,
{
    if from < to {
        lemma_top_groups_step(bits, from);
        lemma_with_groups_from_top(bits, from + 1, to);
    }
}

proof fn lemma_shift_twice(x: u128, first: u128, second: u128)
    by (bit_vector)
    requires
        first + second <= 127,
    ensures
        (x << first) << second == x << ((first + second) as u128),
{
}

proof fn lemma_shift_joined(x: u128, acc: u128, group: u128, by_bits: u128)
    by (bit_vector)
    requires
        by_bits <= 96,
    ensures
        (((x << by_bits) | acc) << 16) | group == (x << ((by_bits + 16) as u128)) | ((acc << 16)
            | group),
{
}

/// Where the uppermost `at` groups are the uppermost `from` groups, shifted,
/// and `acc`, the whole address is the uppermost `from` groups, shifted, and
/// what the remaining groups make of `acc`.
proof fn lemma_with_groups_below_top(bits: u128, from: nat, at: nat, acc: u128)
    requires
        1 <= from <= at <= 8,
        top_groups(bits, at) == (top_groups(bits, from) << ((16 * (at - from)) as u128)) | acc,
    ensures
        bits == (top_groups(bits, from) << ((16 * (8 - from)) as u128)) | with_groups(
            acc,
            bits,
            at,
            8,
        ),
    decreases 8 - at,
{
    if at < 8 {
        lemma_top_groups_step(bits, at);
        lemma_group_is_small(bits, at);
        lemma_shift_joined(
            top_groups(bits, from),
            acc,
            group_v6(bits, at) as u128,
            (16 * (at - from)) as u128,
        );
        lemma_with_groups_below_top(
            bits,
            from,
            at + 1,
            (acc << 16) | (group_v6(bits, at) as u128),
        );
    } else {
        assert(bits >> 0 == bits) by (bit_vector);
    }
}

/// Where the groups `from..to` are zero, the uppermost `to` groups are the
/// uppermost `from` groups, shifted.
proof fn lemma_top_groups_over_zeros(bits: u128, from: nat, to: nat)
    requires
        from <= to <= 8,
        forall|i: nat| from <= i < to ==> group_v6(bits, i) == 0,
    ensures
        from == 0 ==> top_groups(bits, to) == 0,
        from >= 1 ==> top_groups(bits, to) == top_groups(bits, from) << ((16 * (to
            - from)) as u128),
    decreases to - from,
{
    if from < to {
        lemma_top_groups_over_zeros(bits, from, (to - 1) as nat);
        lemma_top_groups_step(bits, (to - 1) as nat);
        assert(group_v6(bits, (to - 1) as nat) == 0);
        let before = top_groups(bits, (to - 1) as nat);
        assert((before << 16) | 0 == before << 16) by (bit_vector);
        if from == 0 {
            assert(0u128 << 16 == 0) by (bit_vector);
        } else {
            lemma_shift_twice(top_groups(bits, from), (16 * (to - 1 - from)) as u128, 16);
        }
    } else {
        let x = top_groups(bits, from);
        assert(x << 0 == x) by (bit_vector);
    }
}

/// The groups of a run of zero groups are zero, and the run ends within the
/// address.
proof fn lemma_zero_run_holds_zeros(bits: u128, index: nat)
    requires
        index <= 8,
    ensures
        index + zero_run(bits, index) <= 8,
        forall|i: nat| index <= i < index + zero_run(bits, index) ==> group_v6(bits, i) == 0,
    decreases 8 - index,
{
    if index < 8 && group_v6(bits, index) == 0 {
        lemma_zero_run_holds_zeros(bits, index + 1);
    }
}

/// The longest run of zero groups starts within the address and is the run
/// of zero groups at its start.
proof fn lemma_longest_zero_run_is_a_run(bits: u128, index: nat)
    requires
        index <= 8,
    ensures
        longest_zero_run(bits, index).1 > 0 ==> index <= longest_zero_run(bits, index).0 < 8
            && zero_run(bits, longest_zero_run(bits, index).0) == longest_zero_run(
            bits,
            index,
        ).1,
    decreases 8 - index,
{
    if index < 8 {
        lemma_longest_zero_run_is_a_run(bits, index + 1);
    }
}

/// Groups joined by colons, where they open a stretch, read back as those
/// groups, provided that they are followed by the end of the text or, where
/// more groups could be read, by a double colon.
proof fn lemma_groups_read_back(s: Seq<char>, pos: int, limit: nat, bits: u128, from: nat, to: nat)
    requires
        from < to <= 8,
        to - from <= limit <= 8,
        0 <= pos,
        pos + groups_text(bits, from, to).len() <= s.len(),
        s.subrange(pos, pos + groups_text(bits, from, to).len()) == groups_text(bits, from, to),
        ({
            let end = pos + groups_text(bits, from, to).len();
            if to - from < limit {
                end == s.len() || (end + 1 < s.len() && s[end] == ':' && s[end + 1] == ':')
            } else {
                end == s.len() || s[end] == ':'
            }
        }),
    ensures
        groups_from(s, pos, limit, 0, 0) == (Groups {
            value: with_groups(0, bits, from, to),
            count: (to - from) as nat,
            end: pos + groups_text(bits, from, to).len(),
            dotted: false,
        }),
{
    let text = groups_text(bits, from, to);
    let end = pos + text.len();
    let group = group_v6(bits, from);
    let hex = hex_text(group);
    let rest = tail_text(bits, from + 1, to);
    let next = pos + hex.len();
    lemma_groups_text_split(bits, from, to);
    lemma_group_is_small(bits, from);
    assert forall|i: int| 0 <= i < text.len() implies s[pos + i] == #[trigger] text[i] by {
        assert(s.subrange(pos, end)[i] == s[pos + i]);
    }
    assert(s.subrange(pos, next) =~= hex) by {
        assert forall|i: int| 0 <= i < hex.len() implies s.subrange(pos, next)[i] == hex[i] by {
            assert(text[i] == hex[i]);
        }
    }
    assert(s.subrange(next, next + rest.len()) =~= rest) by {
        assert forall|i: int| 0 <= i < rest.len() implies s.subrange(next, next + rest.len())[i]
            == rest[i] by {
            assert(text[hex.len() + i] == rest[i]);
        }
    }
    assert(next == s.len() || s[next] == ':') by {
        if from + 1 < to {
            assert(rest[0] == ':');
            assert(text[hex.len() as int] == rest[0]);
        }
    }
    lemma_hex_run(s, pos, group);
    lemma_group_reads_back(s, pos, group);
    lemma_no_dotted_at_group(s, pos, next);
    lemma_stretch_reads_back(
        s,
        next,
        limit,
        1,
        (0u128 << 16) | (group as u128),
        bits,
        from + 1,
        to,
    );
}

/// No group and no dotted address stands at a colon or at the end of a text.
proof fn lemma_nothing_at_colon(s: Seq<char>, pos: int, limit: nat)
    requires
        0 <= pos <= s.len(),
        pos == s.len() || s[pos] == ':',
    ensures
        groups_from(s, pos, limit, 0, 0) == (Groups {
            value: 0,
            count: 0,
            end: pos,
            dotted: false,
        }),
{
    lemma_digits_end(s, pos, pos, 10);
    lemma_digits_end(s, pos, pos, 16);
    reveal_with_fuel(dotted_from, 2);
}

proof fn lemma_mapped_bits(bits: u128)
    by (bit_vector)
    requires
        bits >> 32 == 0xffff,
    ensures
        (((0u128 << 16) | 0xffff) << 32) | ((bits & 0xffff_ffff) as u32 as u128) == bits,
        bits & 0xffff_ffff <= 0xffff_ffff,
{
}

proof fn lemma_mapped_text_reads_back(bits: u128)
    requires
        bits >> 32 == 0xffff,
    ensures
        ipv6_of(ipv6_text(bits)) == Some(bits),
{
    let low = crate::util::low_32(bits);
    let dotted = ipv4_text(low);
    let s = ipv6_text(bits);
    assert(s =~= seq![':', ':', 'f', 'f', 'f', 'f', ':'] + dotted);
    lemma_nothing_at_colon(s, 0, 8);
    assert(s.subrange(7, 7 + dotted.len() as int) =~= dotted);
    lemma_dotted_reads_back(s, 7, low);
    // the group `ffff` at position 2
    assert(digit_of('f', 16) == Some(15nat));
    assert(digit_of('f', 10) is None);
    assert(digit_of(':', 16) is None);
    lemma_digits_end(s, 2, 2, 10);
    lemma_digits_end(s, 2, 6, 16);
    assert(run_value(s, 2, 6, 16) == 0xffff) by {
        reveal_with_fuel(run_value, 5);
    }
    assert(group_at(s, 2) == Some((0xffffnat, 6int)));
    assert(dotted_at(s, 2) is None) by {
        reveal_with_fuel(dotted_from, 2);
    }
    reveal_with_fuel(groups_from, 3);
    lemma_mapped_bits(bits);
}

proof fn lemma_plain_text_reads_back(bits: u128)
    requires
        bits >> 32 != 0xffff,
        longest_zero_run(bits, 0).1 < 2,
    ensures
        ipv6_of(ipv6_text(bits)) == Some(bits),
{
    let s = ipv6_text(bits);
    assert(s.subrange(0, s.len() as int) =~= s);
    lemma_groups_read_back(s, 0, 8, bits, 0, 8);
    lemma_with_groups_from_top(bits, 0, 8);
    assert(bits >> 0 == bits) by (bit_vector);
}

proof fn lemma_compressed_text_reads_back(bits: u128)
    requires
        bits >> 32 != 0xffff,
        longest_zero_run(bits, 0).1 >= 2,
    ensures
        ipv6_of(ipv6_text(bits)) == Some(bits),
{
    let (start, len) = longest_zero_run(bits, 0);
    let after = start + len;
    lemma_longest_zero_run_is_a_run(bits, 0);
    lemma_zero_run_holds_zeros(bits, start);
    let head = groups_text(bits, 0, start);
    let tail = groups_text(bits, after, 8);
    let s = ipv6_text(bits);
    let h = head.len() as int;
    assert(s =~= head + seq![':', ':'] + tail);
    assert(s[h] == ':' && s[h + 1] == ':');
    assert(s.subrange(0, h) =~= head);
    assert(s.subrange(h + 2, h + 2 + tail.len()) =~= tail);
    // the stretch before the double colon
    if start == 0 {
        lemma_nothing_at_colon(s, 0, 8);
    } else {
        lemma_groups_read_back(s, 0, 8, bits, 0, start);
    }
    lemma_with_groups_from_top(bits, 0, start);
    // the stretch after it
    let limit = (7 - start) as nat;
    if after == 8 {
        lemma_nothing_at_colon(s, h + 2, limit);
    } else {
        lemma_groups_read_back(s, h + 2, limit, bits, after, 8);
    }
    // the value
    lemma_top_groups_over_zeros(bits, start, after);
    if start == 0 {
        lemma_with_groups_from_top(bits, after, 8);
        assert(bits >> 0 == bits) by (bit_vector);
    } else {
        let shifted = top_groups(bits, start) << ((16 * (after - start)) as u128);
        assert(shifted | 0 == shifted) by (bit_vector);
        lemma_with_groups_below_top(bits, start, after, 0);
    }
}

/// The text of an IPv6 address reads back as that address.
pub proof fn lemma_ipv6_text_reads_back(bits: u128)
    ensures
        ipv6_of(ipv6_text(bits)) == Some(bits),
{
    if bits >> 32 == 0xffff {
        lemma_mapped_text_reads_back(bits);
    } else if longest_zero_run(bits, 0).1 >= 2 {
        lemma_compressed_text_reads_back(bits);
    } else {
        lemma_plain_text_reads_back(bits);
    }
}

/// The text of an IPv6 address is not the text of an IPv4 address.
proof fn lemma_ipv6_text_is_no_ipv4(bits: u128)
    ensures
        ipv4_of(ipv6_text(bits)) is None,
{
    let s = ipv6_text(bits);
    if bits >> 32 == 0xffff {
        assert(s[0] == ':');
        lemma_digits_end(s, 0, 0, 10);
        reveal_with_fuel(dotted_from, 2);
    } else if longest_zero_run(bits, 0).1 >= 2 && longest_zero_run(bits, 0).0 == 0 {
        assert(s[0] == ':');
        lemma_digits_end(s, 0, 0, 10);
        reveal_with_fuel(dotted_from, 2);
    } else {
        // the text opens with a group that a colon follows
        let to: nat = if longest_zero_run(bits, 0).1 >= 2 {
            longest_zero_run(bits, 0).0
        } else {
            8
        };
        lemma_longest_zero_run_is_a_run(bits, 0);
        let group = group_v6(bits, 0);
        let hex = hex_text(group);
        lemma_groups_text_split(bits, 0, to);
        let opening = groups_text(bits, 0, to);
        assert(s.subrange(0, opening.len() as int) =~= opening);
        assert forall|i: int| 0 <= i < opening.len() implies s[i] == #[trigger] opening[i] by {
            assert(s.subrange(0, opening.len() as int)[i] == s[i]);
        }
        assert(s.subrange(0, hex.len() as int) =~= hex);
        lemma_hex_run(s, 0, group);
        assert(hex.len() < s.len() && s[hex.len() as int] == ':') by {
            if to > 1 {
                assert(tail_text(bits, 1, to)[0] == ':');
                assert(opening[hex.len() as int] == ':');
            } else {
                assert(tail_text(bits, 1, to) =~= Seq::<char>::empty());
            }
        }
        lemma_no_dotted_at_group(s, 0, hex.len() as int);
    }
}

/// The text of an address reads back as that address.
pub proof fn lemma_address_text_reads_back(address: IpAddr)
    ensures
        ip_of(address_text(address)) == Some(address),
{
    match address {
        IpAddr::V4(bits) => {
            lemma_ipv4_text_reads_back(bits);
        },
        IpAddr::V6(bits) => {
            lemma_ipv6_text_is_no_ipv4(bits);
            lemma_ipv6_text_reads_back(bits);
        },
    }
}

proof fn lemma_octets_of_bits(a: u8, b: u8, c: u8, d: u8)
    by (bit_vector)
    ensures
        ((a as u32 * 0x100_0000 + b as u32 * 0x1_0000 + c as u32 * 0x100 + d as u32) as u32 >> 24)
            & 0xff == a as u32,
        ((a as u32 * 0x100_0000 + b as u32 * 0x1_0000 + c as u32 * 0x100 + d as u32) as u32 >> 16)
            & 0xff == b as u32,
        ((a as u32 * 0x100_0000 + b as u32 * 0x1_0000 + c as u32 * 0x100 + d as u32) as u32 >> 8)
            & 0xff == c as u32,
        ((a as u32 * 0x100_0000 + b as u32 * 0x1_0000 + c as u32 * 0x100 + d as u32) as u32 >> 0)
            & 0xff == d as u32,
        a as u32 * 0x100_0000 + b as u32 * 0x1_0000 + c as u32 * 0x100 + d as u32 <= 0xffff_ffff,
{
}

/// The octets of the IPv4 address that four octets spell are those octets; so
/// its text is the four octets in decimal, joined by dots.
pub proof fn lemma_octets_read_back(octets: Seq<u8>)
    requires
        octets.len() == 4,
    ensures
        be_value(octets) <= 0xffff_ffff,
        forall|i: nat| i < 4 ==> octet_v4(be_value(octets) as u32, i) == octets[i as int],
{
    let a = octets[0];
    let b = octets[1];
    let c = octets[2];
    let d = octets[3];
    assert(be_value(octets) == a * 0x100_0000 + b * 0x1_0000 + c * 0x100 + d) by {
        reveal_with_fuel(be_value, 5);
        assert(octets.drop_last().drop_last().drop_last().drop_last().len() == 0);
        assert(octets.drop_last().last() == c);
        assert(octets.drop_last().drop_last().last() == b);
        assert(octets.drop_last().drop_last().drop_last().last() == a);
    }
    lemma_octets_of_bits(a, b, c, d);
}

proof fn lemma_split_low_group(value: u128, high: u128, low: u128)
    by (bit_vector)
    requires
        low <= 0xffff,
        high <= 0xffff_ffff_ffff_ffff_ffff_ffff_ffff,
        value == high * 0x1_0000 + low,
    ensures
        value & 0xffff == low,
        value >> 16 == high,
{
}

proof fn lemma_shift_right_twice(value: u128, by_bits: u128)
    by (bit_vector)
    requires
        by_bits <= 96,
    ensures
        (value >> 16) >> by_bits == value >> ((by_bits + 16) as u128),
{
}

proof fn lemma_pow256_of_fourteen()
    ensures
        pow256(14) == 0x1_0000_0000_0000_0000_0000_0000_0000,
{
    reveal_with_fuel(pow256, 15);
}

/// The pair of octets at position `pair` of an even run of octets, as a
/// number.
pub open spec fn octet_pair(octets: Seq<u8>, pair: int) -> nat {
    (octets[2 * pair] * 256 + octets[2 * pair + 1]) as nat
}

proof fn lemma_pairs_of_be_value(octets: Seq<u8>, pairs: nat, pair: nat)
    requires
        octets.len() == 2 * pairs,
        pair < pairs <= 8,
    ensures
        be_value(octets) < pow256(2 * pairs),
        ((be_value(octets) as u128) >> ((16 * (pairs - 1 - pair)) as u128)) & 0xffff == octet_pair(
            octets,
            pair as int,
        ),
    decreases pairs,
{
    let front = octets.drop_last().drop_last();
    let low = octet_pair(octets, pairs - 1);
    lemma_be_value_bound(octets);
    lemma_be_value_bound(front);
    lemma_pow256_monotonic(2 * (pairs - 1) as nat, 14);
    lemma_pow256_of_fourteen();
    assert(be_value(octets) == be_value(front) * 0x1_0000 + low) by {
        reveal_with_fuel(be_value, 3);
        assert(octets.drop_last().last() == octets[2 * (pairs - 1)]);
    }
    let value = be_value(octets) as u128;
    let high = be_value(front) as u128;
    lemma_split_low_group(value, high, low as u128);
    if pair + 1 == pairs {
        assert(value >> 0 == value) by (bit_vector);
    } else {
        lemma_pairs_of_be_value(front, (pairs - 1) as nat, pair);
        assert(octet_pair(front, pair as int) == octet_pair(octets, pair as int));
        lemma_shift_right_twice(value, (16 * (pairs - 2 - pair)) as u128);
    }
}

/// The groups of the IPv6 address that sixteen octets spell are the pairs of
/// those octets.
pub proof fn lemma_octet_pairs_read_back(octets: Seq<u8>)
    requires
        octets.len() == 16,
    ensures
        be_value(octets) <= 0xffff_ffff_ffff_ffff_ffff_ffff_ffff_ffff,
        forall|i: nat|
            i < 8 ==> group_v6(be_value(octets) as u128, i) == octet_pair(octets, i as int),
{
    lemma_be_value_bound(octets);
    assert(pow256(16) == 0x1_0000_0000_0000_0000_0000_0000_0000_0000) by {
        reveal_with_fuel(pow256, 17);
    }
    assert forall|i: nat| i < 8 implies group_v6(be_value(octets) as u128, i) == octet_pair(
        octets,
        i as int,
    ) by {
        lemma_pairs_of_be_value(octets, 8, i);
    }
}

} // verus!
