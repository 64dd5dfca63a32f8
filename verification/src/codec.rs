//! Text codec for cache blobs.
//!
//! Cached stories are stored as text under a format of this crate's own:
//! integers as fixed-width hexadecimal with an explicit sign tag, strings
//! length-prefixed (so they need no escaping), optional fields behind a
//! one-character presence tag.  The decoder is proved to accept every
//! encoder output and return the encoded content, which is what makes a
//! cache round trip lossless.

use vstd::prelude::*;
use crate::story::{Story, StoryModel};

verus! {

/// The hexadecimal digit character for a value in `0..16`.
pub open spec fn hex_digit(d: int) -> char {
    if d == 0 { '0' } else if d == 1 { '1' } else if d == 2 { '2' }
    else if d == 3 { '3' } else if d == 4 { '4' } else if d == 5 { '5' }
    else if d == 6 { '6' } else if d == 7 { '7' } else if d == 8 { '8' }
    else if d == 9 { '9' } else if d == 10 { 'a' } else if d == 11 { 'b' }
    else if d == 12 { 'c' } else if d == 13 { 'd' } else if d == 14 { 'e' }
    else { 'f' }
}

pub open spec fn is_hex_digit(c: char) -> bool {
    exists|d: int| 0 <= d < 16 && c == hex_digit(d)
}

pub open spec fn hex_digit_val(c: char) -> int {
    choose|d: int| 0 <= d < 16 && c == hex_digit(d)
}

/// `n` hexadecimal digits of `x`, most significant first.
pub open spec fn hex_seq(x: int, n: nat) -> Seq<char>
    decreases n,
{
    if n == 0 {
        Seq::empty()
    } else {
        hex_seq(x / 16, (n - 1) as nat).push(hex_digit(x % 16))
    }
}

/// The value of a sequence of hexadecimal digits, most significant first.
pub open spec fn hex_val(s: Seq<char>) -> int
    decreases s.len(),
{
    if s.len() == 0 {
        0
    } else {
        hex_val(s.drop_last()) * 16 + hex_digit_val(s.last())
    }
}

pub open spec fn pow16(n: nat) -> int
    decreases n,
{
    if n == 0 { 1 } else { 16 * pow16((n - 1) as nat) }
}

proof fn lemma_hex_digit_val(d: int)
    requires
        0 <= d < 16,
    ensures
        is_hex_digit(hex_digit(d)),
        hex_digit_val(hex_digit(d)) == d,
{
    assert(is_hex_digit(hex_digit(d)));
    let d2 = hex_digit_val(hex_digit(d));
    assert(0 <= d2 < 16 && hex_digit(d) == hex_digit(d2));
    assert(d == d2);
}

/// Encoding then evaluating gives the value back: `hex_seq` is a section of
/// `hex_val` on the values that fit in `n` digits.
proof fn lemma_hex_round_trip(x: int, n: nat)
    requires
        0 <= x < pow16(n),
    ensures
        hex_seq(x, n).len() == n,
        forall|i: int| 0 <= i < n ==> is_hex_digit(#[trigger] hex_seq(x, n)[i]),
        hex_val(hex_seq(x, n)) == x,
    decreases n,
{
    if n > 0 {
        let m = (n - 1) as nat;
        assert(pow16(n) == 16 * pow16(m));
        lemma_hex_round_trip(x / 16, m);
        lemma_hex_digit_val(x % 16);
        let s = hex_seq(x, n);
        assert(s.drop_last() =~= hex_seq(x / 16, m));
        assert(s.last() == hex_digit(x % 16));
        assert(hex_val(s) == (x / 16) * 16 + x % 16);
        assert(forall|i: int| 0 <= i < m ==> is_hex_digit(#[trigger] hex_seq(x / 16, m)[i]));
        assert(forall|i: int| 0 <= i < n ==> is_hex_digit(#[trigger] s[i])) by {
            assert(forall|i: int| 0 <= i < m ==> s[i] == hex_seq(x / 16, m)[i]);
        }
    }
}

/// The executable hexadecimal digit for a nibble.
fn hex_char(d: u8) -> (c: char)
    requires
        d < 16,
    ensures
        c == hex_digit(d as int),
{
    match d {
        0 => '0', 1 => '1', 2 => '2', 3 => '3', 4 => '4', 5 => '5', 6 => '6',
        7 => '7', 8 => '8', 9 => '9', 10 => 'a', 11 => 'b', 12 => 'c',
        13 => 'd', 14 => 'e', _ => 'f',
    }
}

/// The nibble for a hexadecimal digit character, or absence for any other
/// character.
fn hex_char_val(c: char) -> (r: Option<u8>)
    ensures
        match r {
            Some(d) => d < 16 && is_hex_digit(c) && hex_digit_val(c) == d as int,
            None => !is_hex_digit(c),
        },
{
    let r: Option<u8> = match c {
        '0' => Some(0), '1' => Some(1), '2' => Some(2), '3' => Some(3),
        '4' => Some(4), '5' => Some(5), '6' => Some(6), '7' => Some(7),
        '8' => Some(8), '9' => Some(9), 'a' => Some(10), 'b' => Some(11),
        'c' => Some(12), 'd' => Some(13), 'e' => Some(14), 'f' => Some(15),
        _ => None,
    };
    proof {
        match r {
            Some(d) => {
                lemma_hex_digit_val(d as int);
            },
            None => {
                assert forall|d: int| 0 <= d < 16 implies c != hex_digit(d) by {}
            },
        }
    }
    r
}

/// Appends `n` hexadecimal digits of `x`, most significant first.
fn push_hex(out: &mut Vec<char>, x: u64, n: u8)
    ensures
        final(out)@ == old(out)@ + hex_seq(x as int, n as nat),
    decreases n,
{
    if n == 0 {
        proof {
            assert(out@ =~= old(out)@ + hex_seq(x as int, 0));
        }
    } else {
        push_hex(out, x / 16, n - 1);
        let d = hex_char((x % 16) as u8);
        out.push(d);
        proof {
            assert(out@ =~= old(out)@ + hex_seq(x as int, n as nat));
        }
    }
}

/// Reads 16 hexadecimal digits at `pos`; absence when the input is too short
/// or any character is not a digit.
fn parse_hex16(t: &Vec<char>, pos: usize) -> (r: Option<(u64, usize)>)
    ensures
        match r {
            Some(p) => {
                &&& pos + 16 <= t@.len()
                &&& p.1 == pos + 16
                &&& (forall|i: int| pos <= i < pos + 16 ==> is_hex_digit(#[trigger] t@[i]))
                &&& p.0 as int == hex_val(t@.subrange(pos as int, pos as int + 16))
            },
            None => !(pos + 16 <= t@.len()
                && (forall|i: int| pos <= i < pos + 16 ==> is_hex_digit(#[trigger] t@[i]))),
        },
{
    let n = t.len();
    if n < 16 || pos > n - 16 {
        return None;
    }
    let mut val: u64 = 0;
    let mut i: usize = 0;
    while i < 16
        invariant
            i <= 16,
            n == t@.len(),
            pos + 16 <= n,
            forall|k: int| pos <= k < pos + i ==> is_hex_digit(#[trigger] t@[k]),
            val as int == hex_val(t@.subrange(pos as int, pos as int + i as int)),
            (val as int) < pow16(i as nat),
        decreases 16 - i,
    {
        let c = t[pos + i];
        match hex_char_val(c) {
            Some(d) => {
                proof {
                    let s_new = t@.subrange(pos as int, pos as int + i as int + 1);
                    assert(s_new.drop_last() =~= t@.subrange(pos as int, pos as int + i as int));
                    assert(s_new.last() == t@[pos + i]);
                    assert(pow16((i + 1) as nat) == 16 * pow16(i as nat));
                    reveal_with_fuel(pow16, 17);
                    assert(pow16(16) == 0x1_0000_0000_0000_0000);
                    assert(pow16(i as nat) <= pow16(15)) by {
                        lemma_pow16_monotone(i as nat, 15);
                    }
                    assert(pow16(15) == 0x1000_0000_0000_0000);
                }
                val = val * 16 + (d as u64);
                i += 1;
            },
            None => {
                return None;
            },
        }
    }
    Some((val, pos + 16))
}

proof fn lemma_pow16_monotone(a: nat, b: nat)
    requires
        a <= b,
    ensures
        pow16(a) <= pow16(b),
        pow16(a) >= 1,
    decreases b,
{
    lemma_pow16_pos(a);
    if a < b {
        lemma_pow16_monotone(a, (b - 1) as nat);
    }
}

proof fn lemma_pow16_pos(n: nat)
    ensures
        pow16(n) >= 1,
    decreases n,
{
    if n > 0 {
        lemma_pow16_pos((n - 1) as nat);
    }
}

proof fn lemma_hex_seq_len(x: int, n: nat)
    ensures
        hex_seq(x, n).len() == n,
    decreases n,
{
    if n > 0 {
        lemma_hex_seq_len(x / 16, (n - 1) as nat);
    }
}

/// A signed 64-bit value: a sign tag, then sixteen hexadecimal digits of the
/// magnitude.
pub open spec fn enc_i64(x: int) -> Seq<char> {
    if x >= 0 {
        seq!['p'] + hex_seq(x, 16)
    } else {
        seq!['n'] + hex_seq(-x, 16)
    }
}

/// A string: sixteen hexadecimal digits of the character count, then the
/// characters themselves, unescaped.
pub open spec fn enc_str(s: Seq<char>) -> Seq<char> {
    hex_seq(s.len() as int, 16) + s
}

/// An optional string: `N` for absent, `S` followed by the string.
pub open spec fn enc_opt_str(o: Option<Seq<char>>) -> Seq<char> {
    match o {
        None => seq!['N'],
        Some(s) => seq!['S'] + enc_str(s),
    }
}

/// An optional integer: `N` for absent, `S` followed by the integer.
pub open spec fn enc_opt_int(o: Option<int>) -> Seq<char> {
    match o {
        None => seq!['N'],
        Some(x) => seq!['S'] + enc_i64(x),
    }
}

/// Relies on `str::chars` (collected): the characters of `s`, in order.
#[verifier::external_body]
pub fn chars_of_str(s: &str) -> (r: Vec<char>)
    ensures
        r@ == s@,
{
    s.chars().collect()
}

/// Relies on `String`'s `FromIterator` over `char` (collected): the string
/// holding exactly the given characters, in order.
#[verifier::external_body]
pub fn string_from_chars(v: Vec<char>) -> (r: String)
    ensures
        r@ == v@,
{
    v.into_iter().collect()
}

/// Appends the signed encoding of `x`.
fn push_i64(out: &mut Vec<char>, x: i64)
    ensures
        final(out)@ == old(out)@ + enc_i64(x as int),
{
    if x >= 0 {
        out.push('p');
        push_hex(out, x as u64, 16);
        proof {
            assert(out@ =~= old(out)@ + enc_i64(x as int));
        }
    } else {
        out.push('n');
        let mag: u64 = if x == i64::MIN {
            9223372036854775808u64
        } else {
            (-x) as u64
        };
        proof {
            assert(mag as int == -(x as int));
        }
        push_hex(out, mag, 16);
        proof {
            assert(out@ =~= old(out)@ + enc_i64(x as int));
        }
    }
}

/// Appends the length-prefixed encoding of `s`.
fn push_string(out: &mut Vec<char>, s: &String)
    ensures
        final(out)@ == old(out)@ + enc_str(s@),
        s@.len() < 0x1_0000_0000_0000_0000,
{
    let mut cs = chars_of_str(s.as_str());
    let len: u64 = cs.len() as u64;
    push_hex(out, len, 16);
    out.append(&mut cs);
    proof {
        assert(out@ =~= old(out)@ + enc_str(s@));
    }
}

/// Appends the encoding of an optional string.
fn push_opt_str(out: &mut Vec<char>, o: &Option<String>)
    ensures
        final(out)@ == old(out)@ + enc_opt_str(crate::story::opt_str_view(*o)),
        crate::story::opt_str_view(*o) matches Some(s) ==> s.len() < 0x1_0000_0000_0000_0000,
{
    match o {
        None => {
            out.push('N');
            proof {
                assert(out@ =~= old(out)@ + enc_opt_str(None));
            }
        },
        Some(s) => {
            out.push('S');
            push_string(out, s);
            proof {
                assert(out@ =~= old(out)@ + enc_opt_str(Some(s@)));
            }
        },
    }
}

/// Appends the encoding of an optional 32-bit integer.
fn push_opt_i32(out: &mut Vec<char>, o: &Option<i32>)
    ensures
        final(out)@ == old(out)@ + enc_opt_int(crate::story::opt_int_view(*o)),
{
    match o {
        None => {
            out.push('N');
            proof {
                assert(out@ =~= old(out)@ + enc_opt_int(None));
            }
        },
        Some(x) => {
            out.push('S');
            push_i64(out, *x as i64);
            proof {
                assert(out@ =~= old(out)@ + enc_opt_int(Some(*x as int)));
            }
        },
    }
}

/// All characters of `s` in `lo..hi` are hexadecimal digits.
pub open spec fn hex_digits_at(s: Seq<char>, lo: int, hi: int) -> bool {
    forall|i: int| lo <= i < hi ==> is_hex_digit(#[trigger] s[i])
}

/// A well-formed signed-integer segment starts at `pos`.
pub open spec fn int_at(s: Seq<char>, pos: int) -> bool {
    &&& 0 <= pos
    &&& pos + 17 <= s.len()
    &&& (s[pos] == 'p' || s[pos] == 'n')
    &&& hex_digits_at(s, pos + 1, pos + 17)
    &&& (s[pos] == 'p' ==> hex_val(s.subrange(pos + 1, pos + 17)) <= i64::MAX as int)
    &&& (s[pos] == 'n' ==> hex_val(s.subrange(pos + 1, pos + 17)) <= 0x8000_0000_0000_0000)
}

/// The value of the signed-integer segment at `pos`.
pub open spec fn int_val(s: Seq<char>, pos: int) -> int {
    if s[pos] == 'p' {
        hex_val(s.subrange(pos + 1, pos + 17))
    } else {
        -hex_val(s.subrange(pos + 1, pos + 17))
    }
}

/// The declared character count of the string segment whose tag sits at `pos`.
pub open spec fn str_len_at(s: Seq<char>, pos: int) -> int {
    hex_val(s.subrange(pos + 1, pos + 17))
}

/// A well-formed optional-string segment starts at `pos`.
pub open spec fn opt_str_at(s: Seq<char>, pos: int) -> bool {
    &&& 0 <= pos < s.len()
    &&& (s[pos] == 'N' || s[pos] == 'S')
    &&& (s[pos] == 'S' ==> pos + 17 <= s.len() && hex_digits_at(s, pos + 1, pos + 17)
        && pos + 17 + str_len_at(s, pos) <= s.len())
}

pub open spec fn opt_str_end(s: Seq<char>, pos: int) -> int {
    if s[pos] == 'N' {
        pos + 1
    } else {
        pos + 17 + str_len_at(s, pos)
    }
}

pub open spec fn opt_str_val(s: Seq<char>, pos: int) -> Option<Seq<char>> {
    if s[pos] == 'N' {
        None
    } else {
        Some(s.subrange(pos + 17, pos + 17 + str_len_at(s, pos)))
    }
}

/// A well-formed optional-integer segment (32-bit range) starts at `pos`.
pub open spec fn opt_int_at(s: Seq<char>, pos: int) -> bool {
    &&& 0 <= pos < s.len()
    &&& (s[pos] == 'N' || s[pos] == 'S')
    &&& (s[pos] == 'S' ==> int_at(s, pos + 1) && i32::MIN <= int_val(s, pos + 1) <= i32::MAX)
}

pub open spec fn opt_int_end(s: Seq<char>, pos: int) -> int {
    if s[pos] == 'N' {
        pos + 1
    } else {
        pos + 18
    }
}

pub open spec fn opt_int_val(s: Seq<char>, pos: int) -> Option<int> {
    if s[pos] == 'N' {
        None
    } else {
        Some(int_val(s, pos + 1))
    }
}

/// Reads a signed-integer segment; absence exactly when none starts at `pos`.
fn parse_i64(t: &Vec<char>, pos: usize) -> (r: Option<(i64, usize)>)
    ensures
        r is Some <==> int_at(t@, pos as int),
        r matches Some(p) ==> p.0 as int == int_val(t@, pos as int) && p.1 == pos + 17,
{
    let n = t.len();
    if pos >= n {
        return None;
    }
    let c = t[pos];
    if c != 'p' && c != 'n' {
        return None;
    }
    match parse_hex16(t, pos + 1) {
        None => None,
        Some((val, _np)) => {
            if c == 'p' {
                if val <= 0x7fff_ffff_ffff_ffffu64 {
                    Some((val as i64, pos + 17))
                } else {
                    None
                }
            } else {
                if val < 0x8000_0000_0000_0000u64 {
                    Some((-(val as i64), pos + 17))
                } else if val == 0x8000_0000_0000_0000u64 {
                    Some((i64::MIN, pos + 17))
                } else {
                    None
                }
            }
        },
    }
}

/// Copies `t[lo..hi]` out as a fresh vector.
pub(crate) fn copy_range(t: &Vec<char>, lo: usize, hi: usize) -> (r: Vec<char>)
    requires
        lo <= hi <= t@.len(),
    ensures
        r@ == t@.subrange(lo as int, hi as int),
{
    let mut r: Vec<char> = Vec::new();
    let mut i: usize = lo;
    while i < hi
        invariant
            lo <= i <= hi <= t@.len(),
            r@ == t@.subrange(lo as int, i as int),
        decreases hi - i,
    {
        r.push(t[i]);
        i += 1;
        proof {
            assert(r@ =~= t@.subrange(lo as int, i as int));
        }
    }
    proof {
        assert(r@ =~= t@.subrange(lo as int, hi as int));
    }
    r
}

/// Reads an optional-string segment; absence exactly when none starts at
/// `pos`.
fn parse_opt_str(t: &Vec<char>, pos: usize) -> (r: Option<(Option<String>, usize)>)
    ensures
        r is Some <==> opt_str_at(t@, pos as int),
        r matches Some(p) ==> ({
            &&& crate::story::opt_str_view(p.0) == opt_str_val(t@, pos as int)
            &&& p.1 as int == opt_str_end(t@, pos as int)
        }),
{
    let n = t.len();
    if pos >= n {
        return None;
    }
    let c = t[pos];
    if c == 'N' {
        return Some((None, pos + 1));
    }
    if c != 'S' {
        return None;
    }
    match parse_hex16(t, pos + 1) {
        None => None,
        Some((val, np)) => {
            let rem: u64 = (n - np) as u64;
            if val > rem {
                return None;
            }
            let l = val as usize;
            let sub = copy_range(t, np, np + l);
            let owned = string_from_chars(sub);
            Some((Some(owned), np + l))
        },
    }
}

/// Reads an optional 32-bit-integer segment; absence exactly when none
/// starts at `pos`.
fn parse_opt_i32(t: &Vec<char>, pos: usize) -> (r: Option<(Option<i32>, usize)>)
    ensures
        r is Some <==> opt_int_at(t@, pos as int),
        r matches Some(p) ==> ({
            &&& crate::story::opt_int_view(p.0) == opt_int_val(t@, pos as int)
            &&& p.1 as int == opt_int_end(t@, pos as int)
        }),
{
    let n = t.len();
    if pos >= n {
        return None;
    }
    let c = t[pos];
    if c == 'N' {
        return Some((None, pos + 1));
    }
    if c != 'S' {
        return None;
    }
    match parse_i64(t, pos + 1) {
        None => None,
        Some((v, np)) => {
            if v < -2147483648i64 || v > 2147483647i64 {
                None
            } else {
                Some((Some(v as i32), np))
            }
        },
    }
}

/// The encoding of segment `p` occupies `s` from `pos` on, with `tail`
/// after it.
pub open spec fn has_segment(s: Seq<char>, pos: int, p: Seq<char>, tail: Seq<char>) -> bool {
    0 <= pos <= s.len() && s.skip(pos) == p + tail
}

proof fn lemma_skip_parts(s: Seq<char>, pos: int, p: Seq<char>, tail: Seq<char>)
    requires
        has_segment(s, pos, p, tail),
    ensures
        pos + p.len() + tail.len() == s.len(),
        s.subrange(pos, pos + p.len()) == p,
        s.skip(pos + p.len()) == tail,
        forall|i: int| 0 <= i < p.len() ==> s[pos + i] == #[trigger] p[i],
{
    assert(s.skip(pos).len() == s.len() - pos);
    assert forall|i: int| 0 <= i < p.len() implies s[pos + i] == #[trigger] p[i] by {
        assert(s.skip(pos)[i] == s[pos + i]);
        assert((p + tail)[i] == p[i]);
    }
    assert(s.subrange(pos, pos + p.len()) =~= p);
    assert forall|i: int| 0 <= i < tail.len()
        implies s[pos + p.len() + i] == #[trigger] tail[i] by {
        assert(s.skip(pos)[p.len() + i] == s[pos + p.len() + i]);
        assert((p + tail)[p.len() + i] == tail[i]);
    }
    assert(s.skip(pos + p.len()) =~= tail);
}

/// Where `s` carries `enc_i64(x)` at `pos`, a signed-integer segment of
/// value `x` is read there.
proof fn lemma_int_segment(s: Seq<char>, pos: int, x: int, tail: Seq<char>)
    requires
        has_segment(s, pos, enc_i64(x), tail),
        -0x8000_0000_0000_0000 <= x <= 0x7fff_ffff_ffff_ffff,
    ensures
        int_at(s, pos),
        int_val(s, pos) == x,
        s.skip(pos + 17) == tail,
{
    reveal_with_fuel(pow16, 17);
    let mag = if x >= 0 { x } else { -x };
    lemma_hex_seq_len(mag, 16);
    let p = enc_i64(x);
    let h = hex_seq(mag, 16);
    assert(p.len() == 17);
    lemma_skip_parts(s, pos, p, tail);
    if x >= 0 {
        assert(p[0] == 'p');
    } else {
        assert(p[0] == 'n');
    }
    assert(s[pos] == p[0]);
    lemma_hex_round_trip(mag, 16);
    assert forall|i: int| 0 <= i < 16
        implies #[trigger] s.subrange(pos + 1, pos + 17)[i] == h[i] by {
        assert(s[pos + (1 + i)] == p[1 + i]);
        assert(p[1 + i] == h[i]);
    }
    assert(s.subrange(pos + 1, pos + 17) =~= h);
    assert forall|i: int| pos + 1 <= i < pos + 17 implies is_hex_digit(#[trigger] s[i]) by {
        assert(s.subrange(pos + 1, pos + 17)[i - (pos + 1)] == s[i]);
        assert(is_hex_digit(h[i - (pos + 1)]));
    }
    assert(hex_val(s.subrange(pos + 1, pos + 17)) == mag);
    assert(int_at(s, pos));
    assert(int_val(s, pos) == x);
}

/// Where `s` carries `enc_opt_str(o)` at `pos`, an optional-string segment
/// of value `o` is read there.
proof fn lemma_opt_str_segment(s: Seq<char>, pos: int, o: Option<Seq<char>>, tail: Seq<char>)
    requires
        has_segment(s, pos, enc_opt_str(o), tail),
        o matches Some(st) ==> st.len() < 0x1_0000_0000_0000_0000,
    ensures
        opt_str_at(s, pos),
        opt_str_val(s, pos) == o,
        opt_str_end(s, pos) == pos + enc_opt_str(o).len(),
        s.skip(pos + enc_opt_str(o).len()) == tail,
{
    reveal_with_fuel(pow16, 17);
    let p = enc_opt_str(o);
    match o {
        None => {
            lemma_skip_parts(s, pos, p, tail);
            assert(p[0] == 'N');
            assert(s[pos] == p[0]);
        },
        Some(st) => {
            lemma_hex_seq_len(st.len() as int, 16);
            let h = hex_seq(st.len() as int, 16);
            assert(p =~= seq!['S'] + (h + st));
            assert(p.len() == 17 + st.len());
            lemma_skip_parts(s, pos, p, tail);
            assert(p[0] == 'S');
            assert(s[pos] == p[0]);
            lemma_hex_round_trip(st.len() as int, 16);
            assert forall|i: int| 0 <= i < 16
                implies #[trigger] s.subrange(pos + 1, pos + 17)[i] == h[i] by {
                assert(s[pos + (1 + i)] == p[1 + i]);
                assert(p[1 + i] == h[i]);
            }
            assert(s.subrange(pos + 1, pos + 17) =~= h);
            assert forall|i: int| pos + 1 <= i < pos + 17
                implies is_hex_digit(#[trigger] s[i]) by {
                assert(s.subrange(pos + 1, pos + 17)[i - (pos + 1)] == s[i]);
                assert(is_hex_digit(h[i - (pos + 1)]));
            }
            assert(str_len_at(s, pos) == st.len());
            assert forall|i: int| 0 <= i < st.len()
                implies #[trigger] s.subrange(pos + 17, pos + 17 + st.len())[i] == st[i] by {
                assert(s[pos + (17 + i)] == p[17 + i]);
                assert(p[17 + i] == st[i]);
            }
            assert(s.subrange(pos + 17, pos + 17 + st.len()) =~= st);
            assert(opt_str_at(s, pos));
            assert(opt_str_val(s, pos) == o);
        },
    }
}

/// Where `s` carries `enc_opt_int(o)` at `pos` with `o` in 32-bit range, an
/// optional-integer segment of value `o` is read there.
proof fn lemma_opt_int_segment(s: Seq<char>, pos: int, o: Option<int>, tail: Seq<char>)
    requires
        has_segment(s, pos, enc_opt_int(o), tail),
        o matches Some(x) ==> i32::MIN <= x <= i32::MAX,
    ensures
        opt_int_at(s, pos),
        opt_int_val(s, pos) == o,
        opt_int_end(s, pos) == pos + enc_opt_int(o).len(),
        s.skip(pos + enc_opt_int(o).len()) == tail,
{
    let p = enc_opt_int(o);
    match o {
        None => {
            lemma_skip_parts(s, pos, p, tail);
            assert(s[pos] == p[0]);
        },
        Some(x) => {
            lemma_hex_seq_len(if x >= 0 { x } else { -x }, 16);
            assert(p.len() == 18);
            lemma_skip_parts(s, pos, p, tail);
            assert(s[pos] == p[0]);
            assert(s.skip(pos) == p + tail);
            assert(has_segment(s, pos + 1, enc_i64(x), tail)) by {
                assert(s.skip(pos + 1) =~= enc_i64(x) + tail) by {
                    assert(forall|i: int|
                        0 <= i < s.len() - pos - 1
                            ==> #[trigger] s.skip(pos + 1)[i] == s.skip(pos)[i + 1]);
                    assert(forall|i: int|
                        0 <= i < 17 ==> #[trigger] enc_i64(x)[i] == p[i + 1]);
                }
            }
            lemma_int_segment(s, pos + 1, x, tail);
        },
    }
}

/// The whole cached-story blob: every field in order, each behind its
/// presence tag.
pub open spec fn story_text(m: StoryModel) -> Seq<char> {
    enc_opt_str(m.by) + enc_i64(m.id) + enc_opt_int(m.score) + enc_i64(m.time)
        + enc_opt_str(m.title) + enc_opt_str(m.story_type) + enc_opt_str(m.url)
}

/// The models that an executable `Story` can take: fields within their
/// machine ranges.
pub open spec fn story_wf(m: StoryModel) -> bool {
    &&& i32::MIN <= m.id <= i32::MAX
    &&& i64::MIN <= m.time <= i64::MAX
    &&& (m.score matches Some(x) ==> i32::MIN <= x <= i32::MAX)
    &&& (m.by matches Some(st) ==> st.len() < 0x1_0000_0000_0000_0000)
    &&& (m.title matches Some(st) ==> st.len() < 0x1_0000_0000_0000_0000)
    &&& (m.story_type matches Some(st) ==> st.len() < 0x1_0000_0000_0000_0000)
    &&& (m.url matches Some(st) ==> st.len() < 0x1_0000_0000_0000_0000)
}

/// Serializes a story for the cache.  The output is exactly `story_text` of
/// the story's model, which `decode_story` is proved to take back to the
/// same model.
pub fn encode_story(s: &Story) -> (r: String)
    ensures
        r@ == story_text(s@),
        story_wf(s@),
{
    let mut out: Vec<char> = Vec::new();
    push_opt_str(&mut out, &s.by);
    push_i64(&mut out, s.id as i64);
    push_opt_i32(&mut out, &s.score);
    push_i64(&mut out, s.time);
    push_opt_str(&mut out, &s.title);
    push_opt_str(&mut out, &s.story_type);
    push_opt_str(&mut out, &s.url);
    proof {
        assert(out@ =~= story_text(s@));
    }
    string_from_chars(out)
}

/// The positions of the seven segments of a well-formed story blob, and the
/// values read there.
#[verifier::rlimit(100)]
#[verifier::spinoff_prover]
proof fn lemma_story_layout(s: Seq<char>, m: StoryModel)
    requires
        story_wf(m),
        s == story_text(m),
    ensures
        opt_str_at(s, 0),
        opt_str_val(s, 0) == m.by,
        int_at(s, opt_str_end(s, 0)),
        int_val(s, opt_str_end(s, 0)) == m.id,
        opt_int_at(s, opt_str_end(s, 0) + 17),
        opt_int_val(s, opt_str_end(s, 0) + 17) == m.score,
        int_at(s, opt_int_end(s, opt_str_end(s, 0) + 17)),
        int_val(s, opt_int_end(s, opt_str_end(s, 0) + 17)) == m.time,
        opt_str_at(s, opt_int_end(s, opt_str_end(s, 0) + 17) + 17),
        opt_str_val(s, opt_int_end(s, opt_str_end(s, 0) + 17) + 17) == m.title,
        opt_str_at(s, opt_str_end(s, opt_int_end(s, opt_str_end(s, 0) + 17) + 17)),
        opt_str_val(s, opt_str_end(s, opt_int_end(s, opt_str_end(s, 0) + 17) + 17))
            == m.story_type,
        opt_str_at(s, opt_str_end(s, opt_str_end(s, opt_int_end(s, opt_str_end(s, 0) + 17)
            + 17))),
        opt_str_val(s, opt_str_end(s, opt_str_end(s, opt_int_end(s, opt_str_end(s, 0) + 17)
            + 17))) == m.url,
        opt_str_end(s, opt_str_end(s, opt_str_end(s, opt_int_end(s, opt_str_end(s, 0) + 17)
            + 17))) == s.len(),
{
    let e1 = enc_opt_str(m.by);
    let e2 = enc_i64(m.id);
    let e3 = enc_opt_int(m.score);
    let e4 = enc_i64(m.time);
    let e5 = enc_opt_str(m.title);
    let e6 = enc_opt_str(m.story_type);
    let e7 = enc_opt_str(m.url);
    let t7 = Seq::<char>::empty();
    let t6 = e7 + t7;
    let t5 = e6 + t6;
    let t4 = e5 + t5;
    let t3 = e4 + t4;
    let t2 = e3 + t3;
    let t1 = e2 + t2;
    assert(s.skip(0) =~= s);
    assert(s =~= e1 + t1);
    lemma_opt_str_segment(s, 0, m.by, t1);
    let q1 = opt_str_end(s, 0);
    assert(s.skip(q1) == t1);
    assert(t1 =~= e2 + t2);
    lemma_int_segment(s, q1, m.id, t2);
    let q2 = q1 + 17;
    assert(s.skip(q2) == t2);
    assert(t2 =~= e3 + t3);
    lemma_opt_int_segment(s, q2, m.score, t3);
    let q3 = opt_int_end(s, q2);
    assert(s.skip(q3) == t3);
    assert(t3 =~= e4 + t4);
    lemma_int_segment(s, q3, m.time, t4);
    let q4 = q3 + 17;
    assert(s.skip(q4) == t4);
    assert(t4 =~= e5 + t5);
    lemma_opt_str_segment(s, q4, m.title, t5);
    let q5 = opt_str_end(s, q4);
    assert(s.skip(q5) == t5);
    assert(t5 =~= e6 + t6);
    lemma_opt_str_segment(s, q5, m.story_type, t6);
    let q6 = opt_str_end(s, q5);
    assert(s.skip(q6) == t6);
    assert(t6 =~= e7 + t7);
    lemma_opt_str_segment(s, q6, m.url, t7);
    let q7 = opt_str_end(s, q6);
    assert(s.skip(q7) == t7);
    assert(q7 == s.len());
}

/// Positions of the seven segments within a story blob.
pub open spec fn sb_q1(s: Seq<char>) -> int { opt_str_end(s, 0) }

pub open spec fn sb_q2(s: Seq<char>) -> int { sb_q1(s) + 17 }

pub open spec fn sb_q3(s: Seq<char>) -> int { opt_int_end(s, sb_q2(s)) }

pub open spec fn sb_q4(s: Seq<char>) -> int { sb_q3(s) + 17 }

pub open spec fn sb_q5(s: Seq<char>) -> int { opt_str_end(s, sb_q4(s)) }

pub open spec fn sb_q6(s: Seq<char>) -> int { opt_str_end(s, sb_q5(s)) }

pub open spec fn sb_q7(s: Seq<char>) -> int { opt_str_end(s, sb_q6(s)) }

/// `s` is a story blob the decoder accepts: seven well-formed segments,
/// the identifier in 32-bit range, and nothing after the last segment.
pub open spec fn story_blob_ok(s: Seq<char>) -> bool {
    &&& opt_str_at(s, 0)
    &&& int_at(s, sb_q1(s))
    &&& i32::MIN <= int_val(s, sb_q1(s)) <= i32::MAX
    &&& opt_int_at(s, sb_q2(s))
    &&& int_at(s, sb_q3(s))
    &&& opt_str_at(s, sb_q4(s))
    &&& opt_str_at(s, sb_q5(s))
    &&& opt_str_at(s, sb_q6(s))
    &&& sb_q7(s) == s.len()
}

/// The story a well-formed blob decodes to.
pub open spec fn story_blob_model(s: Seq<char>) -> StoryModel {
    StoryModel {
        by: opt_str_val(s, 0),
        id: int_val(s, sb_q1(s)),
        score: opt_int_val(s, sb_q2(s)),
        time: int_val(s, sb_q3(s)),
        title: opt_str_val(s, sb_q4(s)),
        story_type: opt_str_val(s, sb_q5(s)),
        url: opt_str_val(s, sb_q6(s)),
    }
}

/// The codec round trip at the level of models: encoding a representable
/// story gives a blob the decoder accepts and takes back to the same model.
pub proof fn lemma_story_round_trip(m: StoryModel)
    requires
        story_wf(m),
    ensures
        story_blob_ok(story_text(m)),
        story_blob_model(story_text(m)) == m,
{
    lemma_story_layout(story_text(m), m);
}

/// Deserializes a cached-story blob: the decoded story for a well-formed
/// blob, absence for anything else, which callers treat as a cache miss.
pub fn decode_story(text: &str) -> (r: Option<Story>)
    ensures
        r is Some <==> story_blob_ok(text@),
        r matches Some(st) ==> st@ == story_blob_model(text@),
{
    let t = chars_of_str(text);
    let n = t.len();
    let (by, p1) = match parse_opt_str(&t, 0) {
        Some(x) => x,
        None => {
            return None;
        },
    };
    let (idv, p2) = match parse_i64(&t, p1) {
        Some(x) => x,
        None => {
            return None;
        },
    };
    if idv < -2147483648i64 || idv > 2147483647i64 {
        return None;
    }
    let (score, p3) = match parse_opt_i32(&t, p2) {
        Some(x) => x,
        None => {
            return None;
        },
    };
    let (time, p4) = match parse_i64(&t, p3) {
        Some(x) => x,
        None => {
            return None;
        },
    };
    let (title, p5) = match parse_opt_str(&t, p4) {
        Some(x) => x,
        None => {
            return None;
        },
    };
    let (story_type, p6) = match parse_opt_str(&t, p5) {
        Some(x) => x,
        None => {
            return None;
        },
    };
    let (url, p7) = match parse_opt_str(&t, p6) {
        Some(x) => x,
        None => {
            return None;
        },
    };
    if p7 != n {
        return None;
    }
    Some(Story { by, id: idv as i32, score, time, title, story_type, url })
}

/// Decimal digits of a non-negative integer, no sign, no leading zeros.
pub open spec fn dec_digits(x: int) -> Seq<char>
    decreases x,
{
    if x < 10 {
        seq![hex_digit(if x < 0 { 0 } else { x })]
    } else {
        dec_digits(x / 10).push(hex_digit(x % 10))
    }
}

/// The decimal rendering of a signed integer.
pub open spec fn dec_int(x: int) -> Seq<char> {
    if x >= 0 {
        dec_digits(x)
    } else {
        seq!['-'] + dec_digits(-x)
    }
}

/// The body of a JSON integer array: the decimal values, comma-separated.
pub open spec fn ids_json_body(ids: Seq<i32>) -> Seq<char>
    decreases ids.len(),
{
    if ids.len() == 0 {
        Seq::empty()
    } else if ids.len() == 1 {
        dec_int(ids[0] as int)
    } else {
        dec_int(ids[0] as int) + seq![','] + ids_json_body(ids.drop_first())
    }
}

/// The compact JSON rendering of an integer list: `[1,2,3]`, no whitespace.
pub open spec fn ids_json(ids: Seq<i32>) -> Seq<char> {
    seq!['['] + ids_json_body(ids) + seq![']']
}

/// What `serde_json::from_str::<Vec<i32>>` makes of a text: the parsed
/// list, or absence where the text is not a JSON array of 32-bit integers.
/// The full JSON grammar it accepts is not restated here; the one fact
/// callers need is that it takes every `ids_json` rendering back to the
/// rendered list.
pub uninterp spec fn parsed_ids(s: Seq<char>) -> Option<Seq<i32>>;

/// Relies on `serde_json::to_string` for `Vec<i32>`: the compact JSON array
/// of the integers in decimal, which cannot fail for this type and which
/// `serde_json::from_str` parses back to the same integers.
#[verifier::external_body]
pub fn ids_to_json(ids: &Vec<i32>) -> (r: String)
    ensures
        r@ == ids_json(ids@),
        parsed_ids(r@) == Some(ids@),
{
    serde_json::to_string(ids).unwrap_or_default()
}

/// Relies on `serde_json::from_str` for `Vec<i32>`: parses a JSON integer
/// array; what it makes of each text is named `parsed_ids`.
#[verifier::external_body]
pub fn ids_from_json(s: &str) -> (r: Option<Vec<i32>>)
    ensures
        match r {
            Some(v) => parsed_ids(s@) == Some(v@),
            None => parsed_ids(s@) is None,
        },
{
    serde_json::from_str::<Vec<i32>>(s).ok()
}

} // verus!
