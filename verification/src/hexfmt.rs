use vstd::arithmetic::div_mod::{lemma_div_pos_is_pos, lemma_fundamental_div_mod};
use vstd::arithmetic::power::{lemma_pow0, lemma_pow1, lemma_pow_adds, lemma_pow_multiplies, pow};
use vstd::arithmetic::power2::{lemma2_to64, lemma_pow2, lemma_pow2_adds, pow2};
use vstd::prelude::*;

verus! {

/// Sixteen to the thirty-second is one more than the largest `u128`.
pub proof fn lemma_pow16_32()
    ensures
        pow(16, 32) == 0x100000000000000000000000000000000,
{
    assert(pow(2, 4) == 16) by {
        reveal_with_fuel(pow, 5);
    }
    lemma_pow_multiplies(2, 4, 32);
    lemma_pow2(128);
    lemma_pow2_adds(64, 64);
    lemma2_to64();
}

/// Sixteen to the sixteenth is one more than the largest `u64`.
pub proof fn lemma_pow16_16()
    ensures
        pow(16, 16) == 0x10000000000000000,
{
    assert(pow(2, 4) == 16) by {
        reveal_with_fuel(pow, 5);
    }
    lemma_pow_multiplies(2, 4, 16);
    lemma_pow2(64);
    lemma2_to64();
}

/// A sequence of hex digits stands for a value below sixteen to its length.
pub proof fn lemma_hex_val_bound(s: Seq<char>)
    ensures
        match spec_hex_val(s) {
            Some(v) => 0 <= v < pow(16, s.len()),
            None => true,
        },
    decreases s.len(),
{
    if s.len() > 0 {
        lemma_hex_val_bound(s.drop_last());
        if spec_hex_val(s) is Some {
            let hi = spec_hex_val(s.drop_last()).unwrap();
            let d = hex_char_val(s.last()).unwrap();
            lemma_pow16_step((s.len() - 1) as nat);
            assert(hi * 16 + d < 16 * pow(16, (s.len() - 1) as nat)) by (nonlinear_arith)
                requires
                    0 <= hi < pow(16, (s.len() - 1) as nat),
                    0 <= d < 16,
            ;
        }
    } else {
        lemma_pow0(16);
    }
}

/// One more digit multiplies the range by sixteen.
proof fn lemma_pow16_step(e: nat)
    ensures
        pow(16, e + 1) == 16 * pow(16, e),
{
    lemma_pow_adds(16, 1, e);
    lemma_pow1(16);
}

/// The lower-case hex digit standing for a value below sixteen.
pub open spec fn hex_digit_char(d: u8) -> char {
    if d < 10 {
        ((d + 48) as u8) as char
    } else {
        ((d + 87) as u8) as char
    }
}

/// The value of a lower-case hex digit, `None` for any other character.
pub open spec fn hex_char_val(c: char) -> Option<u8> {
    let u = c as u32;
    if 48 <= u <= 57 {
        Some((u - 48) as u8)
    } else if 97 <= u <= 102 {
        Some((u - 87) as u8)
    } else {
        None
    }
}

/// `v` written as exactly `n` lower-case hex digits, most significant first;
/// digits beyond the `n` lowest nibbles of `v` are dropped.
pub open spec fn spec_hex(v: int, n: nat) -> Seq<char>
    decreases n,
{
    if n == 0 {
        Seq::empty()
    } else {
        spec_hex(v / 16, (n - 1) as nat).push(hex_digit_char((((v % 16) + 16) % 16) as u8))
    }
}

/// The value of a sequence of hex digits, `None` when a character is not one.
pub open spec fn spec_hex_val(s: Seq<char>) -> Option<int>
    decreases s.len(),
{
    if s.len() == 0 {
        Some(0)
    } else {
        match (spec_hex_val(s.drop_last()), hex_char_val(s.last())) {
            (Some(hi), Some(d)) => Some(hi * 16 + d),
            _ => None,
        }
    }
}

pub proof fn lemma_spec_hex_len(v: int, n: nat)
    ensures
        spec_hex(v, n).len() == n,
    decreases n,
{
    if n > 0 {
        lemma_spec_hex_len(v / 16, (n - 1) as nat);
    }
}

proof fn lemma_hex_digit_char_val(d: u8)
    requires
        d < 16,
    ensures
        hex_char_val(hex_digit_char(d)) == Some(d),
{
}

/// Reading back the digits of a value below `16^n` recovers the value.
pub proof fn lemma_hex_roundtrip(v: int, n: nat)
    requires
        0 <= v < pow(16, n),
    ensures
        spec_hex_val(spec_hex(v, n)) == Some(v),
    decreases n,
{
    if n == 0 {
        lemma_pow0(16);
        assert(spec_hex(v, n) =~= Seq::<char>::empty());
    } else {
        lemma_fundamental_div_mod(v, 16);
        lemma_div_pos_is_pos(v, 16);
        lemma_pow16_step((n - 1) as nat);
        assert(pow(16, n) == 16 * pow(16, (n - 1) as nat));
        assert(v / 16 < pow(16, (n - 1) as nat)) by {
            if v / 16 >= pow(16, (n - 1) as nat) {
                assert(v == 16 * (v / 16) + v % 16);
                assert(16 * (v / 16) >= 16 * pow(16, (n - 1) as nat)) by (nonlinear_arith)
                    requires
                        v / 16 >= pow(16, (n - 1) as nat),
                ;
            }
        }
        lemma_hex_roundtrip(v / 16, (n - 1) as nat);
        let d = (((v % 16) + 16) % 16) as u8;
        assert(v % 16 < 16);
        assert(d == v % 16);
        lemma_hex_digit_char_val(d);
        let s = spec_hex(v, n);
        assert(s.drop_last() =~= spec_hex(v / 16, (n - 1) as nat));
        assert(s.last() == hex_digit_char(d));
    }
}

/// No hex digit is a separator dot.
pub proof fn lemma_hex_no_dot(v: int, n: nat)
    ensures
        forall|i: int| 0 <= i < spec_hex(v, n).len() ==> spec_hex(v, n)[i] != '.',
    decreases n,
{
    if n > 0 {
        lemma_hex_no_dot(v / 16, (n - 1) as nat);
        lemma_spec_hex_len(v / 16, (n - 1) as nat);
        let s = spec_hex(v, n);
        assert forall|i: int| 0 <= i < s.len() implies s[i] != '.' by {
            if i < s.len() - 1 {
                assert(s[i] == spec_hex(v / 16, (n - 1) as nat)[i]);
            }
        }
    }
}

fn hex_digit_exec(d: u8) -> (c: char)
    requires
        d < 16,
    ensures
        c == hex_digit_char(d),
{
    if d < 10 {
        (d + 48) as char
    } else {
        (d + 87) as char
    }
}

/// Appends the `n`-digit hex form of `v` to `out`.
pub(crate) fn push_hex(out: &mut Vec<char>, v: u128, n: usize)
    ensures
        final(out)@ == old(out)@ + spec_hex(v as int, n as nat),
    decreases n,
{
    if n == 0 {
        assert(final(out)@ =~= old(out)@ + spec_hex(v as int, 0));
    } else {
        push_hex(out, v / 16, n - 1);
        out.push(hex_digit_exec((v % 16) as u8));
        assert(final(out)@ =~= old(out)@ + spec_hex(v as int, n as nat));
    }
}

fn hex_val_exec(c: char) -> (r: Option<u8>)
    ensures
        r == hex_char_val(c),
{
    let u = c as u32;
    if 48 <= u && u <= 57 {
        Some((u - 48) as u8)
    } else if 97 <= u && u <= 102 {
        Some((u - 87) as u8)
    } else {
        None
    }
}

/// Reads `n` hex digits of `s` starting at `from`; `None` when any
/// character there is not a lower-case hex digit.
pub(crate) fn parse_hex(s: &Vec<char>, from: usize, n: usize) -> (r: Option<u128>)
    requires
        from + n <= s@.len(),
        n <= 32,
    ensures
        match r {
            Some(v) => spec_hex_val(s@.subrange(from as int, from + n)) == Some(v as int),
            None => spec_hex_val(s@.subrange(from as int, from + n)) is None,
        },
{
    let mut acc: u128 = 0;
    let mut i: usize = 0;
    let slen = s.len();
    proof {
        assert(s@.subrange(from as int, from as int) =~= Seq::<char>::empty());
        lemma_pow0(16);
    }
    while i < n
        invariant
            i <= n <= 32,
            from + n <= slen == s@.len(),
            spec_hex_val(s@.subrange(from as int, from + i)) == Some(acc as int),
            acc < pow(16, i as nat),
        decreases n - i,
    {
        let c = s[from + i];
        match hex_val_exec(c) {
            None => {
                proof {
                    let t = s@.subrange(from as int, from + i + 1);
                    assert(t.drop_last() =~= s@.subrange(from as int, from + i));
                    assert(t.last() == c);
                    lemma_hex_prefix_none(s@, from as int, from + i + 1, from + n);
                }
                return None;
            },
            Some(d) => {
                proof {
                    lemma_pow16_step(i as nat);
                    assert(pow(16, (i + 1) as nat) == 16 * pow(16, i as nat));
                    assert(acc * 16 + d < 16 * pow(16, i as nat)) by (nonlinear_arith)
                        requires
                            acc < pow(16, i as nat),
                            d < 16,
                    ;
                    lemma_pow16_32();
                    vstd::arithmetic::power::lemma_pow_increases(16, (i + 1) as nat, 32);
                    let t = s@.subrange(from as int, from + i + 1);
                    assert(t.drop_last() =~= s@.subrange(from as int, from + i));
                    assert(t.last() == c);
                }
                acc = acc * 16 + (d as u128);
            },
        }
        i += 1;
    }
    Some(acc)
}

/// Once a prefix fails to read as hex, every extension fails too.
proof fn lemma_hex_prefix_none(s: Seq<char>, from: int, mid: int, to: int)
    requires
        0 <= from <= mid <= to <= s.len(),
        spec_hex_val(s.subrange(from, mid)) is None,
    ensures
        spec_hex_val(s.subrange(from, to)) is None,
    decreases to - mid,
{
    if mid < to {
        let t = s.subrange(from, mid + 1);
        assert(t.drop_last() =~= s.subrange(from, mid));
        lemma_hex_prefix_none(s, from, mid + 1, to);
    }
}

} // verus!
