//! Byte-level encoding helpers: little-endian 32-bit words, decimal text,
//! 4-byte padding, and JSON string escaping.

use vstd::prelude::*;
use vstd::string::StringSliceAdditionalSpecFns;

verus! {

/// The four little-endian bytes of a 32-bit word.
pub open spec fn le32(w: u32) -> Seq<u8> {
    seq![
        (w & 0xff) as u8,
        ((w >> 8) & 0xff) as u8,
        ((w >> 16) & 0xff) as u8,
        ((w >> 24) & 0xff) as u8,
    ]
}

/// The natural encoding of a word sequence: each 32-bit word as four
/// little-endian bytes, in order.
pub open spec fn words_bytes(ws: Seq<u32>) -> Seq<u8>
    decreases ws.len(),
{
    if ws.len() == 0 {
        Seq::empty()
    } else {
        words_bytes(ws.drop_last()) + le32(ws.last())
    }
}

pub proof fn lemma_words_bytes_len(ws: Seq<u32>)
    ensures
        words_bytes(ws).len() == 4 * ws.len(),
    decreases ws.len(),
{
    if ws.len() > 0 {
        lemma_words_bytes_len(ws.drop_last());
    }
}

/// Appends the little-endian bytes of `w` to `out`.
pub fn emit_le32(out: &mut Vec<u8>, w: u32)
    ensures
        final(out)@ == old(out)@ + le32(w),
{
    out.push((w & 0xff) as u8);
    out.push(((w >> 8) & 0xff) as u8);
    out.push(((w >> 16) & 0xff) as u8);
    out.push(((w >> 24) & 0xff) as u8);
    assert(out@ =~= old(out)@ + le32(w));
}

/// Appends the little-endian encoding of every word of `ws` to `out`.
pub fn emit_words(out: &mut Vec<u8>, ws: &Vec<u32>)
    ensures
        final(out)@ == old(out)@ + words_bytes(ws@),
{
    let ghost pre = out@;
    let mut i: usize = 0;
    while i < ws.len()
        invariant
            i <= ws@.len(),
            out@ == pre + words_bytes(ws@.take(i as int)),
        decreases ws@.len() - i,
    {
        emit_le32(out, ws[i]);
        proof {
            assert(ws@.take(i + 1 as int).drop_last() =~= ws@.take(i as int));
            assert(ws@.take(i + 1 as int).last() == ws@[i as int]);
        }
        i = i + 1;
    }
    proof {
        assert(ws@.take(ws@.len() as int) =~= ws@);
    }
}

/// The decimal digits of `n`, most significant first, as ASCII bytes.
pub open spec fn dec_bytes(n: nat) -> Seq<u8>
    decreases n,
{
    if n < 10 {
        seq![(48 + n) as u8]
    } else {
        dec_bytes(n / 10) + seq![(48 + n % 10) as u8]
    }
}

/// Appends the decimal text of `n` to `out`.
pub fn emit_dec(out: &mut Vec<u8>, n: u64)
    ensures
        final(out)@ == old(out)@ + dec_bytes(n as nat),
    decreases n,
{
    if n < 10 {
        out.push((48 + n) as u8);
        assert(out@ =~= old(out)@ + dec_bytes(n as nat));
    } else {
        emit_dec(out, n / 10);
        out.push((48 + n % 10) as u8);
        assert(out@ =~= old(out)@ + dec_bytes(n as nat));
    }
}

/// How many filler bytes bring a payload of `len` bytes to the next
/// 4-byte boundary.
pub open spec fn pad_len(len: nat) -> nat {
    (((4 - len % 4) % 4) as nat)
}

/// `s` padded with `fill` to a multiple of four bytes.
pub open spec fn pad4(s: Seq<u8>, fill: u8) -> Seq<u8> {
    s + Seq::new(pad_len(s.len()), |i: int| fill)
}

pub proof fn lemma_pad4_len(s: Seq<u8>, fill: u8)
    ensures
        pad4(s, fill).len() == s.len() + pad_len(s.len()),
        (s.len() + pad_len(s.len())) % 4 == 0,
{
}

/// Appends `fill` bytes until `out` holds a multiple of four bytes more
/// than nothing; the result equals the padded form of the old contents.
pub fn emit_pad4(out: &mut Vec<u8>, fill: u8)
    ensures
        final(out)@ == pad4(old(out)@, fill),
{
    let ghost pre = out@;
    let r: usize = out.len() % 4;
    let p: usize = if r == 0 { 0 } else { 4 - r };
    assert(p == pad_len(pre.len()));
    let mut i: usize = 0;
    while i < p
        invariant
            i <= p,
            p == pad_len(pre.len()),
            out@ == pre + Seq::new(i as nat, |j: int| fill),
        decreases p - i,
    {
        out.push(fill);
        proof {
            assert(pre + Seq::new((i + 1) as nat, |j: int| fill) =~= (pre + Seq::new(
                i as nat,
                |j: int| fill,
            )).push(fill));
        }
        i = i + 1;
    }
}

/// ASCII hex digit (lower case) of a value below 16.
pub open spec fn hex_digit(d: nat) -> u8
    recommends
        d < 16,
{
    if d < 10 {
        (48 + d) as u8
    } else {
        (87 + d) as u8
    }
}

/// The JSON escape of one byte of UTF-8 text. Quotes and backslashes get
/// a backslash escape, control bytes a `\u00XX` escape; every other byte
/// (including UTF-8 continuation bytes, which are all above 0x7f) stands
/// for itself.
pub open spec fn escape_byte(b: u8) -> Seq<u8> {
    if b == 0x22 {
        seq![0x5c, 0x22]
    } else if b == 0x5c {
        seq![0x5c, 0x5c]
    } else if b < 0x20 {
        seq![0x5c, 0x75, 0x30, 0x30, hex_digit((b / 16) as nat), hex_digit((b % 16) as nat)]
    } else {
        seq![b]
    }
}

/// The JSON escape of a byte string.
pub open spec fn escape_bytes(s: Seq<u8>) -> Seq<u8>
    decreases s.len(),
{
    if s.len() == 0 {
        Seq::empty()
    } else {
        escape_bytes(s.drop_last()) + escape_byte(s.last())
    }
}

/// Appends the JSON escape of `s` to `out`.
pub fn emit_escaped(out: &mut Vec<u8>, s: &[u8])
    ensures
        final(out)@ == old(out)@ + escape_bytes(s@),
{
    let ghost pre = out@;
    let mut i: usize = 0;
    while i < s.len()
        invariant
            i <= s@.len(),
            out@ == pre + escape_bytes(s@.take(i as int)),
        decreases s@.len() - i,
    {
        let b = s[i];
        if b == 0x22 {
            out.push(0x5c);
            out.push(0x22);
        } else if b == 0x5c {
            out.push(0x5c);
            out.push(0x5c);
        } else if b < 0x20 {
            out.push(0x5c);
            out.push(0x75);
            out.push(0x30);
            out.push(0x30);
            out.push(if b / 16 < 10 { 48 + b / 16 } else { 87 + b / 16 });
            out.push(if b % 16 < 10 { 48 + b % 16 } else { 87 + b % 16 });
        } else {
            out.push(b);
        }
        proof {
            assert(s@.take(i + 1 as int).drop_last() =~= s@.take(i as int));
            assert(s@.take(i + 1 as int).last() == s@[i as int]);
            assert(out@ =~= pre + escape_bytes(s@.take(i + 1 as int)));
        }
        i = i + 1;
    }
    proof {
        assert(s@.take(s@.len() as int) =~= s@);
    }
}

/// One step of the JSON number grammar, as a state machine over ASCII
/// bytes. States: 0 start, 1 after a minus sign, 2 integer part `0`,
/// 3 integer digits, 4 after the decimal point, 5 fraction digits,
/// 6 after the exponent letter, 7 after the exponent sign, 8 exponent
/// digits, 9 reject.
pub open spec fn num_step(st: int, b: u8) -> int {
    let digit = 48 <= b <= 57;
    if st == 0 {
        if b == 45 {
            1
        } else if b == 48 {
            2
        } else if 49 <= b <= 57 {
            3
        } else {
            9
        }
    } else if st == 1 {
        if b == 48 {
            2
        } else if 49 <= b <= 57 {
            3
        } else {
            9
        }
    } else if st == 2 || st == 3 {
        if digit && st == 3 {
            3
        } else if b == 46 {
            4
        } else if b == 101 || b == 69 {
            6
        } else {
            9
        }
    } else if st == 4 || st == 5 {
        if digit {
            5
        } else if st == 5 && (b == 101 || b == 69) {
            6
        } else {
            9
        }
    } else if st == 6 {
        if b == 43 || b == 45 {
            7
        } else if digit {
            8
        } else {
            9
        }
    } else if st == 7 || st == 8 {
        if digit {
            8
        } else {
            9
        }
    } else {
        9
    }
}

/// Runs the number state machine over a byte string from the left.
pub open spec fn num_run(s: Seq<u8>, st: int) -> int
    decreases s.len(),
{
    if s.len() == 0 {
        st
    } else {
        num_run(s.drop_first(), num_step(st, s.first()))
    }
}

/// Whether a byte string spells a JSON number.
pub open spec fn json_num_ok(s: Seq<u8>) -> bool {
    let f = num_run(s, 0);
    f == 2 || f == 3 || f == 5 || f == 8
}

/// Decides whether `s` spells a JSON number.
pub fn is_json_number(s: &str) -> (r: bool)
    ensures
        r == json_num_ok(s.spec_bytes()),
{
    let bs = s.as_bytes();
    let mut st: u8 = 0;
    let mut i: usize = 0;
    proof {
        assert(bs@.skip(0) =~= bs@);
    }
    while i < bs.len()
        invariant
            i <= bs@.len(),
            st <= 9,
            num_run(bs@, 0) == num_run(bs@.skip(i as int), st as int),
        decreases bs@.len() - i,
    {
        let b = bs[i];
        let digit = 48 <= b && b <= 57;
        let next: u8 = if st == 0 {
            if b == 45 {
                1
            } else if b == 48 {
                2
            } else if 49 <= b && b <= 57 {
                3
            } else {
                9
            }
        } else if st == 1 {
            if b == 48 {
                2
            } else if 49 <= b && b <= 57 {
                3
            } else {
                9
            }
        } else if st == 2 || st == 3 {
            if digit && st == 3 {
                3
            } else if b == 46 {
                4
            } else if b == 101 || b == 69 {
                6
            } else {
                9
            }
        } else if st == 4 || st == 5 {
            if digit {
                5
            } else if st == 5 && (b == 101 || b == 69) {
                6
            } else {
                9
            }
        } else if st == 6 {
            if b == 43 || b == 45 {
                7
            } else if digit {
                8
            } else {
                9
            }
        } else if st == 7 || st == 8 {
            if digit {
                8
            } else {
                9
            }
        } else {
            9
        };
        proof {
            assert(bs@.skip(i as int).first() == bs@[i as int]);
            assert(bs@.skip(i as int).drop_first() =~= bs@.skip(i + 1 as int));
            assert(next as int == num_step(st as int, b));
        }
        st = next;
        i = i + 1;
    }
    proof {
        assert(bs@.skip(bs@.len() as int) =~= Seq::<u8>::empty());
    }
    st == 2 || st == 3 || st == 5 || st == 8
}

} // verus!
