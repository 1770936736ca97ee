//! Reading numbers and addresses from text.

use vstd::prelude::*;
use crate::address::IpAddr;

verus! {

/// The characters of a text.
pub fn to_chars(text: &str) -> (chars: Vec<char>)
    ensures
        chars@ == text@,
{
    let len = text.unicode_len();
    let mut chars: Vec<char> = Vec::new();
    let mut i: usize = 0;
    while i < len
        invariant
            i <= len,
            len == text@.len(),
            chars@ == text@.take(i as int),
        decreases len - i,
    {
        chars.push(text.get_char(i));
        i += 1;
        assert(chars@ =~= text@.take(i as int));
    }
    assert(text@.take(len as int) =~= text@);
    chars
}

/// The text that characters make.
pub fn chars_to_text(chars: &Vec<char>) -> (text: String)
    ensures
        text@ == chars@,
{
    let mut text = String::new();
    let mut i: usize = 0;
    while i < chars.len()
        invariant
            i <= chars.len(),
            text@ == chars@.take(i as int),
        decreases chars.len() - i,
    {
        text.push(chars[i]);
        i += 1;
        assert(text@ =~= chars@.take(i as int));
    }
    assert(chars@.take(chars.len() as int) =~= chars@);
    text
}

/// The characters at `from..to`.
pub fn sub_chars(chars: &Vec<char>, from: usize, to: usize) -> (part: Vec<char>)
    requires
        from <= to <= chars.len(),
    ensures
        part@ == chars@.subrange(from as int, to as int),
{
    let mut part: Vec<char> = Vec::new();
    let mut i: usize = from;
    while i < to
        invariant
            from <= i <= to <= chars.len(),
            part@ == chars@.subrange(from as int, i as int),
        decreases to - i,
    {
        part.push(chars[i]);
        i += 1;
        assert(part@ =~= chars@.subrange(from as int, i as int));
    }
    part
}

/// The value of a character as a digit of the given radix, ten or sixteen;
/// hexadecimal digits count in either case.
pub open spec fn digit_of(c: char, radix: nat) -> Option<nat> {
    if '0' <= c <= '9' {
        Some((c as nat - '0' as nat) as nat)
    } else if radix == 16 && 'a' <= c <= 'f' {
        Some((c as nat - 'a' as nat + 10) as nat)
    } else if radix == 16 && 'A' <= c <= 'F' {
        Some((c as nat - 'A' as nat + 10) as nat)
    } else {
        None
    }
}

fn digit_value(c: char, radix: u32) -> (r: Option<u32>)
    requires
        radix == 10 || radix == 16,
    ensures
        match r {
            Some(d) => digit_of(c, radix as nat) == Some(d as nat) && d < radix,
            None => digit_of(c, radix as nat) is None,
        },
{
    if '0' <= c && c <= '9' {
        Some(c as u32 - '0' as u32)
    } else if radix == 16 && 'a' <= c && c <= 'f' {
        Some(c as u32 - 'a' as u32 + 10)
    } else if radix == 16 && 'A' <= c && c <= 'F' {
        Some(c as u32 - 'A' as u32 + 10)
    } else {
        None
    }
}

/// Where the run of digits that starts at `pos` ends: the position of the
/// first character from `pos` on that is no digit, or the end of the text.
pub open spec fn digits_end(s: Seq<char>, pos: int, radix: nat) -> int
    decreases s.len() - pos,
{
    if pos < 0 || pos >= s.len() || digit_of(s[pos], radix) is None {
        pos
    } else {
        digits_end(s, pos + 1, radix)
    }
}

/// The number that the digits at `from..to` spell in radix ten or sixteen.
pub open spec fn run_value(s: Seq<char>, from: int, to: int, radix: nat) -> nat
    decreases to - from,
{
    if to <= from || to > s.len() {
        0
    } else {
        let digit = match digit_of(s[to - 1], radix) {
            Some(d) => d,
            None => 0,
        };
        if radix == 16 {
            run_value(s, from, to - 1, radix) * 16 + digit
        } else {
            run_value(s, from, to - 1, radix) * 10 + digit
        }
    }
}

/// Reads the run of digits that starts at a position: where it ends, and its
/// value if that is at most `cap`.
fn scan_digits(s: &Vec<char>, pos: usize, radix: u32, cap: u64) -> (r: (usize, Option<u64>))
    requires
        pos <= s.len(),
        radix == 10 || radix == 16,
        cap <= 0xffff_ffff,
    ensures
        r.0 == digits_end(s@, pos as int, radix as nat),
        pos <= r.0 <= s.len(),
        r.1 == if run_value(s@, pos as int, r.0 as int, radix as nat) <= cap {
            Some(run_value(s@, pos as int, r.0 as int, radix as nat) as u64)
        } else {
            None
        },
{
    let mut end: usize = pos;
    let mut value: Option<u64> = Some(0);
    while end < s.len()
        invariant
            pos <= end <= s.len(),
            radix == 10 || radix == 16,
            cap <= 0xffff_ffff,
            digits_end(s@, pos as int, radix as nat) == digits_end(s@, end as int, radix as nat),
            value == if run_value(s@, pos as int, end as int, radix as nat) <= cap {
                Some(run_value(s@, pos as int, end as int, radix as nat) as u64)
            } else {
                None
            },
        decreases s.len() - end,
    {
        let digit = match digit_value(s[end], radix) {
            Some(digit) => digit,
            None => {
                return (end, value);
            },
        };
        value =
        match value {
            Some(v) => {
                let next: u64 = v * (radix as u64) + digit as u64;
                if next <= cap {
                    Some(next)
                } else {
                    None
                }
            },
            None => None,
        };
        end += 1;
    }
    (end, value)
}

/// The number that a text spells: an optional plus sign, then one decimal
/// digit or more, leading zeros allowed, of value at most `max`.
pub open spec fn unsigned_of(s: Seq<char>, max: nat) -> Option<nat> {
    let start: int = if s.len() > 0 && s[0] == '+' {
        1
    } else {
        0
    };
    if start < s.len() && digits_end(s, start, 10) == s.len() && run_value(
        s,
        start,
        s.len() as int,
        10,
    ) <= max {
        Some(run_value(s, start, s.len() as int, 10))
    } else {
        None
    }
}

/// Reads a number of value at most `max` from a text.
pub fn parse_unsigned(s: &Vec<char>, max: u32) -> (r: Option<u32>)
    ensures
        match r {
            Some(n) => unsigned_of(s@, max as nat) == Some(n as nat),
            None => unsigned_of(s@, max as nat) is None,
        },
{
    let start: usize = if s.len() > 0 && s[0] == '+' {
        1
    } else {
        0
    };
    if start >= s.len() {
        return None;
    }
    let (end, value) = scan_digits(s, start, 10, max as u64);
    if end != s.len() {
        return None;
    }
    match value {
        Some(n) => Some(n as u32),
        None => None,
    }
}

/// A number read at a position, and where it ends: the whole run of digits
/// there, of one digit at least and `max_digits` at most, of value at most
/// `cap`; where `plain` holds, a run of two digits or more does not start
/// with zero.
pub open spec fn number_at(
    s: Seq<char>,
    pos: int,
    radix: nat,
    max_digits: nat,
    cap: nat,
    plain: bool,
) -> Option<(nat, int)> {
    let end = digits_end(s, pos, radix);
    if pos < 0 || end <= pos || end - pos > max_digits {
        None
    } else if plain && end - pos > 1 && s[pos] == '0' {
        None
    } else if run_value(s, pos, end, radix) > cap {
        None
    } else {
        Some((run_value(s, pos, end, radix), end))
    }
}

fn read_number(
    s: &Vec<char>,
    pos: usize,
    radix: u32,
    max_digits: usize,
    cap: u32,
    plain: bool,
) -> (r: Option<(u32, usize)>)
    requires
        pos <= s.len(),
        radix == 10 || radix == 16,
    ensures
        match r {
            Some((value, end)) => number_at(
                s@,
                pos as int,
                radix as nat,
                max_digits as nat,
                cap as nat,
                plain,
            ) == Some((value as nat, end as int)) && pos < end <= s.len(),
            None => number_at(
                s@,
                pos as int,
                radix as nat,
                max_digits as nat,
                cap as nat,
                plain,
            ) is None,
        },
{
    let (end, value) = scan_digits(s, pos, radix, cap as u64);
    if end <= pos || end - pos > max_digits {
        None
    } else if plain && end - pos > 1 && s[pos] == '0' {
        None
    } else {
        match value {
            Some(value) => Some((value as u32, end)),
            None => None,
        }
    }
}

/// An octet of a dotted IPv4 address read at a position: one to three decimal
/// digits without a leading zero, of value at most 255.
pub open spec fn octet_at(s: Seq<char>, pos: int) -> Option<(nat, int)> {
    number_at(s, pos, 10, 3, 255, true)
}

/// A group of an IPv6 address read at a position: one to four hexadecimal
/// digits.
pub open spec fn group_at(s: Seq<char>, pos: int) -> Option<(nat, int)> {
    number_at(s, pos, 16, 4, 0xffff, false)
}

/// The rest of a dotted IPv4 address read at a position, after `have` octets
/// that spell `acc`: a dot before every octet but the first; the value of the
/// four octets, and where the address ends.
pub open spec fn dotted_from(s: Seq<char>, pos: int, have: nat, acc: u32) -> Option<(u32, int)>
    decreases 4 - have,
{
    if have >= 4 {
        Some((acc, pos))
    } else {
        let start: Option<int> = if have == 0 {
            Some(pos)
        } else if 0 <= pos < s.len() && s[pos] == '.' {
            Some(pos + 1)
        } else {
            None
        };
        match start {
            None => None,
            Some(start) => match octet_at(s, start) {
                None => None,
                Some((octet, end)) => dotted_from(s, end, have + 1, (acc << 8) | (octet as u32)),
            },
        }
    }
}

/// A dotted IPv4 address read at a position, and where it ends.
pub open spec fn dotted_at(s: Seq<char>, pos: int) -> Option<(u32, int)> {
    dotted_from(s, pos, 0, 0)
}

/// The IPv4 address that a text spells: four octets joined by dots, and
/// nothing else.
pub open spec fn ipv4_of(s: Seq<char>) -> Option<u32> {
    match dotted_at(s, 0) {
        Some((bits, end)) => if end == s.len() {
            Some(bits)
        } else {
            None
        },
        None => None,
    }
}

fn read_dotted(s: &Vec<char>, pos: usize) -> (r: Option<(u32, usize)>)
    requires
        pos <= s.len(),
    ensures
        match r {
            Some((bits, end)) => dotted_at(s@, pos as int) == Some((bits, end as int)) && pos
                < end <= s.len(),
            None => dotted_at(s@, pos as int) is None,
        },
{
    let mut at: usize = pos;
    let mut have: usize = 0;
    let mut acc: u32 = 0;
    while have < 4
        invariant
            have <= 4,
            pos <= at <= s.len(),
            have > 0 ==> pos < at,
            dotted_at(s@, pos as int) == dotted_from(s@, at as int, have as nat, acc),
        decreases 4 - have,
    {
        let start: usize = if have == 0 {
            at
        } else if at < s.len() && s[at] == '.' {
            at + 1
        } else {
            return None;
        };
        match read_number(s, start, 10, 3, 255, true) {
            Some((octet, end)) => {
                acc = (acc << 8) | octet;
                at = end;
                have += 1;
            },
            None => {
                return None;
            },
        }
    }
    Some((acc, at))
}

/// Reads an IPv4 address from its dotted text.
pub fn parse_ipv4(s: &Vec<char>) -> (r: Option<u32>)
    ensures
        r == ipv4_of(s@),
{
    match read_dotted(s, 0) {
        Some((bits, end)) => if end == s.len() {
            Some(bits)
        } else {
            None
        },
        None => None,
    }
}

/// The groups of an IPv6 address read in one stretch.
pub struct Groups {
    /// The 16-bit groups, the first one uppermost.
    pub value: u128,
    /// How many groups were read.
    pub count: nat,
    /// Where the stretch ends.
    pub end: int,
    /// Whether the stretch ends in a dotted IPv4 address, which counts as
    /// two groups.
    pub dotted: bool,
}

/// The rest of a stretch of groups read at a position, after `index` groups
/// that spell `acc`, of `limit` groups at most: a colon before every group but
/// the first; a dotted IPv4 address where one stands and two groups are still
/// to come, which ends the stretch; else a hexadecimal group. The stretch
/// ends before the first colon that no group follows.
pub open spec fn groups_from(s: Seq<char>, pos: int, limit: nat, index: nat, acc: u128) -> Groups
    decreases limit - index,
{
    let stop = Groups { value: acc, count: index, end: pos, dotted: false };
    if index >= limit {
        stop
    } else {
        let start: Option<int> = if index == 0 {
            Some(pos)
        } else if 0 <= pos < s.len() && s[pos] == ':' {
            Some(pos + 1)
        } else {
            None
        };
        match start {
            None => stop,
            Some(start) => {
                let dotted = if index + 1 < limit {
                    dotted_at(s, start)
                } else {
                    None
                };
                match dotted {
                    Some((bits, end)) => Groups {
                        value: (acc << 32) | (bits as u128),
                        count: index + 2,
                        end,
                        dotted: true,
                    },
                    None => match group_at(s, start) {
                        Some((group, end)) => groups_from(
                            s,
                            end,
                            limit,
                            index + 1,
                            (acc << 16) | (group as u128),
                        ),
                        None => stop,
                    },
                }
            },
        }
    }
}

/// The IPv6 address that a text spells: eight groups joined by colons, or a
/// stretch of groups, a double colon that stands for one zero group or more,
/// and a second stretch, of seven groups at most together; the last two
/// groups of the address may be written as a dotted IPv4 address; and nothing
/// else.
pub open spec fn ipv6_of(s: Seq<char>) -> Option<u128> {
    let head = groups_from(s, 0, 8, 0, 0);
    if head.count >= 8 {
        if head.end == s.len() {
            Some(head.value)
        } else {
            None
        }
    } else if head.dotted {
        None
    } else if !(0 <= head.end && head.end + 1 < s.len() && s[head.end] == ':' && s[head.end + 1]
        == ':') {
        None
    } else {
        let tail = groups_from(s, head.end + 2, (7 - head.count) as nat, 0, 0);
        if tail.end != s.len() {
            None
        } else if head.count == 0 {
            Some(tail.value)
        } else {
            Some((head.value << ((16 * (8 - head.count)) as u128)) | tail.value)
        }
    }
}

fn read_groups(s: &Vec<char>, pos: usize, limit: usize) -> (r: (u128, usize, usize, bool))
    requires
        pos <= s.len(),
        limit <= 8,
    ensures
        groups_from(s@, pos as int, limit as nat, 0, 0) == (Groups {
            value: r.0,
            count: r.1 as nat,
            end: r.2 as int,
            dotted: r.3,
        }),
        r.1 <= limit,
        pos <= r.2 <= s.len(),
{
    let mut at: usize = pos;
    let mut index: usize = 0;
    let mut acc: u128 = 0;
    while index < limit
        invariant
            index <= limit <= 8,
            pos <= at <= s.len(),
            groups_from(s@, pos as int, limit as nat, 0, 0) == groups_from(
                s@,
                at as int,
                limit as nat,
                index as nat,
                acc,
            ),
        decreases limit - index,
    {
        let start: usize = if index == 0 {
            at
        } else if at < s.len() && s[at] == ':' {
            at + 1
        } else {
            return (acc, index, at, false);
        };
        if index + 1 < limit {
            match read_dotted(s, start) {
                Some((bits, end)) => {
                    return ((acc << 32) | (bits as u128), index + 2, end, true);
                },
                None => {},
            }
        }
        match read_number(s, start, 16, 4, 0xffff, false) {
            Some((group, end)) => {
                acc = (acc << 16) | (group as u128);
                at = end;
                index += 1;
            },
            None => {
                return (acc, index, at, false);
            },
        }
    }
    (acc, index, at, false)
}

/// Reads an IPv6 address from its text.
pub fn parse_ipv6(s: &Vec<char>) -> (r: Option<u128>)
    ensures
        r == ipv6_of(s@),
{
    let (head, head_count, head_end, dotted) = read_groups(s, 0, 8);
    if head_count >= 8 {
        if head_end == s.len() {
            Some(head)
        } else {
            None
        }
    } else if dotted {
        None
    } else if !(head_end < s.len() && head_end + 1 < s.len() && s[head_end] == ':'
        && s[head_end + 1] == ':') {
        None
    } else {
        let (tail, tail_count, tail_end, _) = read_groups(s, head_end + 2, 7 - head_count);
        if tail_end != s.len() {
            None
        } else if head_count == 0 {
            Some(tail)
        } else {
            let shift: u128 = (16 * (8 - head_count)) as u128;
            Some((head << shift) | tail)
        }
    }
}

/// The address that a text spells: an IPv4 address, else an IPv6 address.
pub open spec fn ip_of(s: Seq<char>) -> Option<IpAddr> {
    match ipv4_of(s) {
        Some(bits) => Some(IpAddr::V4(bits)),
        None => match ipv6_of(s) {
            Some(bits) => Some(IpAddr::V6(bits)),
            None => None,
        },
    }
}

/// Reads an address from its text.
pub fn parse_ip(text: &str) -> (r: Option<IpAddr>)
    ensures
        r == ip_of(text@),
{
    let chars = to_chars(text);
    match parse_ipv4(&chars) {
        Some(bits) => Some(IpAddr::V4(bits)),
        None => match parse_ipv6(&chars) {
            Some(bits) => Some(IpAddr::V6(bits)),
            None => None,
        },
    }
}

} // verus!
