//! Formatting of addresses: decimal and hexadecimal numbers, dotted
//! IPv4 quads, RFC 5952 compressed IPv6, and colon-separated MAC bytes,
//! matching the text the standard library's address types display.

use vstd::prelude::*;

verus! {

/// The decimal digit characters.
pub open spec fn digit_char(d: int) -> char {
    if d == 0 {
        '0'
    } else if d == 1 {
        '1'
    } else if d == 2 {
        '2'
    } else if d == 3 {
        '3'
    } else if d == 4 {
        '4'
    } else if d == 5 {
        '5'
    } else if d == 6 {
        '6'
    } else if d == 7 {
        '7'
    } else if d == 8 {
        '8'
    } else {
        '9'
    }
}

/// A number in decimal, no leading zeros.
pub open spec fn dec_string(n: nat) -> Seq<char>
    decreases n,
{
    if n < 10 {
        seq![digit_char(n as int)]
    } else {
        dec_string(n / 10).push(digit_char((n % 10) as int))
    }
}

/// The lower-case hexadecimal digit characters.
pub open spec fn hex_char(d: int) -> char {
    if d < 10 {
        digit_char(d)
    } else if d == 10 {
        'a'
    } else if d == 11 {
        'b'
    } else if d == 12 {
        'c'
    } else if d == 13 {
        'd'
    } else if d == 14 {
        'e'
    } else {
        'f'
    }
}

/// A number in lower-case hexadecimal, no leading zeros.
pub open spec fn hex_string(n: nat) -> Seq<char>
    decreases n,
{
    if n < 16 {
        seq![hex_char(n as int)]
    } else {
        hex_string(n / 16).push(hex_char((n % 16) as int))
    }
}

fn digit_str(d: u8) -> (r: &'static str)
    requires
        d < 10,
    ensures
        r@ == seq![digit_char(d as int)],
{
    if d == 0 {
        proof {
            reveal_strlit("0");
            assert("0"@ =~= seq![digit_char(0)]);
        }
        "0"
    } else if d == 1 {
        proof {
            reveal_strlit("1");
            assert("1"@ =~= seq![digit_char(1)]);
        }
        "1"
    } else if d == 2 {
        proof {
            reveal_strlit("2");
            assert("2"@ =~= seq![digit_char(2)]);
        }
        "2"
    } else if d == 3 {
        proof {
            reveal_strlit("3");
            assert("3"@ =~= seq![digit_char(3)]);
        }
        "3"
    } else if d == 4 {
        proof {
            reveal_strlit("4");
            assert("4"@ =~= seq![digit_char(4)]);
        }
        "4"
    } else if d == 5 {
        proof {
            reveal_strlit("5");
            assert("5"@ =~= seq![digit_char(5)]);
        }
        "5"
    } else if d == 6 {
        proof {
            reveal_strlit("6");
            assert("6"@ =~= seq![digit_char(6)]);
        }
        "6"
    } else if d == 7 {
        proof {
            reveal_strlit("7");
            assert("7"@ =~= seq![digit_char(7)]);
        }
        "7"
    } else if d == 8 {
        proof {
            reveal_strlit("8");
            assert("8"@ =~= seq![digit_char(8)]);
        }
        "8"
    } else {
        proof {
            reveal_strlit("9");
            assert("9"@ =~= seq![digit_char(9)]);
        }
        "9"
    }
}

fn hex_digit_str(d: u8) -> (r: &'static str)
    requires
        d < 16,
    ensures
        r@ == seq![hex_char(d as int)],
{
    if d == 0 {
        proof {
            reveal_strlit("0");
            assert("0"@ =~= seq![hex_char(0)]);
        }
        "0"
    } else if d == 1 {
        proof {
            reveal_strlit("1");
            assert("1"@ =~= seq![hex_char(1)]);
        }
        "1"
    } else if d == 2 {
        proof {
            reveal_strlit("2");
            assert("2"@ =~= seq![hex_char(2)]);
        }
        "2"
    } else if d == 3 {
        proof {
            reveal_strlit("3");
            assert("3"@ =~= seq![hex_char(3)]);
        }
        "3"
    } else if d == 4 {
        proof {
            reveal_strlit("4");
            assert("4"@ =~= seq![hex_char(4)]);
        }
        "4"
    } else if d == 5 {
        proof {
            reveal_strlit("5");
            assert("5"@ =~= seq![hex_char(5)]);
        }
        "5"
    } else if d == 6 {
        proof {
            reveal_strlit("6");
            assert("6"@ =~= seq![hex_char(6)]);
        }
        "6"
    } else if d == 7 {
        proof {
            reveal_strlit("7");
            assert("7"@ =~= seq![hex_char(7)]);
        }
        "7"
    } else if d == 8 {
        proof {
            reveal_strlit("8");
            assert("8"@ =~= seq![hex_char(8)]);
        }
        "8"
    } else if d == 9 {
        proof {
            reveal_strlit("9");
            assert("9"@ =~= seq![hex_char(9)]);
        }
        "9"
    } else if d == 10 {
        proof {
            reveal_strlit("a");
            assert("a"@ =~= seq![hex_char(10)]);
        }
        "a"
    } else if d == 11 {
        proof {
            reveal_strlit("b");
            assert("b"@ =~= seq![hex_char(11)]);
        }
        "b"
    } else if d == 12 {
        proof {
            reveal_strlit("c");
            assert("c"@ =~= seq![hex_char(12)]);
        }
        "c"
    } else if d == 13 {
        proof {
            reveal_strlit("d");
            assert("d"@ =~= seq![hex_char(13)]);
        }
        "d"
    } else if d == 14 {
        proof {
            reveal_strlit("e");
            assert("e"@ =~= seq![hex_char(14)]);
        }
        "e"
    } else {
        proof {
            reveal_strlit("f");
            assert("f"@ =~= seq![hex_char(15)]);
        }
        "f"
    }
}

/// A number printed in decimal.
pub fn u16_dec_string(x: u16) -> (r: String)
    ensures
        r@ == dec_string(x as nat),
    decreases x,
{
    if x < 10 {
        digit_str(x as u8).to_owned()
    } else {
        let mut s = u16_dec_string(x / 10);
        s.append(digit_str((x % 10) as u8));
        proof {
            assert(dec_string((x / 10) as nat).push(digit_char((x % 10) as int)) =~= dec_string(
                (x / 10) as nat,
            ) + seq![digit_char((x % 10) as int)]);
        }
        s
    }
}

/// A number printed in lower-case hexadecimal.
pub fn u16_hex_string(x: u16) -> (r: String)
    ensures
        r@ == hex_string(x as nat),
    decreases x,
{
    if x < 16 {
        hex_digit_str(x as u8).to_owned()
    } else {
        let mut s = u16_hex_string(x / 16);
        s.append(hex_digit_str((x % 16) as u8));
        proof {
            assert(hex_string((x / 16) as nat).push(hex_char((x % 16) as int)) =~= hex_string(
                (x / 16) as nat,
            ) + seq![hex_char((x % 16) as int)]);
        }
        s
    }
}

/// An IPv4 address as its dotted decimal quad.
pub open spec fn ipv4_string(a: u8, b: u8, c: u8, d: u8) -> Seq<char> {
    dec_string(a as nat) + "."@ + dec_string(b as nat) + "."@ + dec_string(c as nat) + "."@
        + dec_string(d as nat)
}

/// Print an IPv4 address as its dotted decimal quad.
pub fn ipv4_to_string(a: u8, b: u8, c: u8, d: u8) -> (r: String)
    ensures
        r@ == ipv4_string(a, b, c, d),
{
    let mut s = u16_dec_string(a as u16);
    s.append(".");
    s.append(u16_dec_string(b as u16).as_str());
    s.append(".");
    s.append(u16_dec_string(c as u16).as_str());
    s.append(".");
    s.append(u16_dec_string(d as u16).as_str());
    s
}

/// One byte as two hexadecimal digits.
pub open spec fn byte_hex2(b: u8) -> Seq<char> {
    seq![hex_char(b as int / 16), hex_char(b as int % 16)]
}

/// A MAC address: six bytes as two hex digits each, colon-separated.
pub open spec fn mac_string(b: Seq<u8>) -> Seq<char> {
    byte_hex2(b[0]) + ":"@ + byte_hex2(b[1]) + ":"@ + byte_hex2(b[2]) + ":"@ + byte_hex2(b[3])
        + ":"@ + byte_hex2(b[4]) + ":"@ + byte_hex2(b[5])
}

fn append_byte_hex2(s: &mut String, b: u8)
    ensures
        final(s)@ == old(s)@ + byte_hex2(b),
{
    s.append(hex_digit_str(b / 16));
    s.append(hex_digit_str(b % 16));
    proof {
        assert(final(s)@ =~= old(s)@ + byte_hex2(b));
    }
}

/// Print a MAC address, lower-case hex bytes joined by colons.
pub fn mac_to_string(m: &[u8]) -> (r: String)
    requires
        m@.len() == 6,
    ensures
        r@ == mac_string(m@),
{
    let mut s = String::new();
    append_byte_hex2(&mut s, m[0]);
    s.append(":");
    append_byte_hex2(&mut s, m[1]);
    s.append(":");
    append_byte_hex2(&mut s, m[2]);
    s.append(":");
    append_byte_hex2(&mut s, m[3]);
    s.append(":");
    append_byte_hex2(&mut s, m[4]);
    s.append(":");
    append_byte_hex2(&mut s, m[5]);
    proof {
        assert(s@ =~= mac_string(m@));
    }
    s
}

/// The length of the run of zero groups starting at `i`.
pub open spec fn zero_run_at(s: Seq<u16>, i: int) -> int
    decreases s.len() - i,
{
    if 0 <= i < s.len() && s[i] == 0 {
        1 + zero_run_at(s, i + 1)
    } else {
        0
    }
}

/// The leftmost longest zero run at index `i` or later: (start, length).
pub open spec fn best_run_from(s: Seq<u16>, i: int) -> (int, int)
    decreases s.len() - i,
{
    if i >= s.len() || i < 0 {
        (i, 0)
    } else {
        let cur = zero_run_at(s, i);
        let rest = best_run_from(s, i + 1);
        if cur >= rest.1 {
            (i, cur)
        } else {
            rest
        }
    }
}

/// Hexadecimal groups joined by colons.
pub open spec fn hex_groups(s: Seq<u16>) -> Seq<char>
    decreases s.len(),
{
    if s.len() == 0 {
        Seq::empty()
    } else if s.len() == 1 {
        hex_string(s[0] as nat)
    } else {
        hex_string(s[0] as nat) + ":"@ + hex_groups(s.skip(1))
    }
}

/// The eight groups denote an IPv4-mapped address.
pub open spec fn v4_mapped(s: Seq<u16>) -> bool {
    s.len() == 8 && s[0] == 0 && s[1] == 0 && s[2] == 0 && s[3] == 0 && s[4] == 0 && s[5] == 0xffff
}

/// An IPv6 address as the standard library displays it: an IPv4-mapped
/// address in the `::ffff:` dotted form, otherwise the leftmost longest
/// run of two or more zero groups compressed to `::`.
pub open spec fn ipv6_string(s: Seq<u16>) -> Seq<char> {
    if v4_mapped(s) {
        "::ffff:"@ + ipv4_string(
            (s[6] / 256) as u8,
            (s[6] % 256) as u8,
            (s[7] / 256) as u8,
            (s[7] % 256) as u8,
        )
    } else {
        let br = best_run_from(s, 0);
        if br.1 > 1 {
            hex_groups(s.take(br.0)) + "::"@ + hex_groups(s.skip(br.0 + br.1))
        } else {
            hex_groups(s)
        }
    }
}

fn zero_run_len(s: &Vec<u16>, i: usize) -> (r: usize)
    requires
        i <= s@.len(),
    ensures
        r == zero_run_at(s@, i as int),
        i + r <= s@.len(),
    decreases s@.len() - i,
{
    if i < s.len() && s[i] == 0 {
        1 + zero_run_len(s, i + 1)
    } else {
        0
    }
}

fn best_run(s: &Vec<u16>, i: usize) -> (r: (usize, usize))
    requires
        i <= s@.len(),
    ensures
        r.0 == best_run_from(s@, i as int).0,
        r.1 == best_run_from(s@, i as int).1,
        i <= r.0,
        r.0 + r.1 <= s@.len(),
    decreases s@.len() - i,
{
    if i >= s.len() {
        (i, 0)
    } else {
        let cur = zero_run_len(s, i);
        let rest = best_run(s, i + 1);
        if cur >= rest.1 {
            (i, cur)
        } else {
            rest
        }
    }
}

/// The groups from `from` (inclusive) to `to` (exclusive), in hex,
/// joined by colons.
fn hex_groups_str(s: &Vec<u16>, from: usize, to: usize) -> (r: String)
    requires
        from <= to <= s@.len(),
    ensures
        r@ == hex_groups(s@.subrange(from as int, to as int)),
    decreases to - from,
{
    let ghost part = s@.subrange(from as int, to as int);
    if from == to {
        proof {
            assert(part =~= Seq::<u16>::empty());
        }
        String::new()
    } else if from + 1 == to {
        proof {
            assert(part.len() == 1);
            assert(part[0] == s@[from as int]);
        }
        u16_hex_string(s[from])
    } else {
        let mut r = u16_hex_string(s[from]);
        r.append(":");
        r.append(hex_groups_str(s, from + 1, to).as_str());
        proof {
            assert(part.skip(1) =~= s@.subrange(from + 1, to as int));
            assert(part[0] == s@[from as int]);
            assert(r@ =~= hex_groups(part));
        }
        r
    }
}

/// Print an IPv6 address from its eight groups, as the standard library
/// displays it.
pub fn ipv6_to_string(segs: &Vec<u16>) -> (r: String)
    requires
        segs@.len() == 8,
    ensures
        r@ == ipv6_string(segs@),
{
    if segs[0] == 0 && segs[1] == 0 && segs[2] == 0 && segs[3] == 0 && segs[4] == 0 && segs[5]
        == 0xffff {
        let mut s = "::ffff:".to_owned();
        s.append(
            ipv4_to_string(
                (segs[6] / 256) as u8,
                (segs[6] % 256) as u8,
                (segs[7] / 256) as u8,
                (segs[7] % 256) as u8,
            ).as_str(),
        );
        s
    } else {
        let br = best_run(segs, 0);
        if br.1 > 1 {
            let mut s = hex_groups_str(segs, 0, br.0);
            s.append("::");
            s.append(hex_groups_str(segs, br.0 + br.1, 8).as_str());
            proof {
                assert(segs@.take(best_run_from(segs@, 0).0) =~= segs@.subrange(
                    0,
                    br.0 as int,
                ));
                assert(segs@.skip(best_run_from(segs@, 0).0 + best_run_from(segs@, 0).1)
                    =~= segs@.subrange(br.0 + br.1, 8));
            }
            s
        } else {
            let s = hex_groups_str(segs, 0, 8);
            proof {
                assert(segs@.subrange(0, 8) =~= segs@);
            }
            s
        }
    }
}

} // verus!
