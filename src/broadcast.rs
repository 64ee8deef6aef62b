use vstd::prelude::*;
use vstd::arithmetic::div_mod::{lemma_add_mod_noop_right, lemma_fundamental_div_mod};
use crate::class::{class_code_spec, class_from_code_spec, ObjectClass};

verus! {

/// Length of a self-identification frame.
pub const FRAME_LEN: usize = 32;

/// Index of the checksum byte.
pub const CHECKSUM_INDEX: usize = 7;

/// Index of the first payload byte; the payload is three little-endian words.
pub const PAYLOAD_START: usize = 8;

/// A decoded self-identification frame. The three words are the raw bit
/// patterns of the sender's x and y position and heading.
#[derive(Debug, Clone, Copy, PartialEq, Eq, Structural)]
pub struct BroadcastFrame {
    pub class: ObjectClass,
    pub x_bits: u64,
    pub y_bits: u64,
    pub heading_bits: u64,
}

pub open spec fn pow256(n: nat) -> nat
    decreases n,
{
    if n == 0 {
        1
    } else {
        256 * pow256((n - 1) as nat)
    }
}

/// The `n` low bytes of `x`, least significant first.
pub open spec fn le_bytes(x: nat, n: nat) -> Seq<u8>
    decreases n,
{
    if n == 0 {
        Seq::empty()
    } else {
        seq![(x % 256) as u8] + le_bytes(x / 256, (n - 1) as nat)
    }
}

/// The number whose little-endian bytes are `s`.
pub open spec fn le_value(s: Seq<u8>) -> nat
    decreases s.len(),
{
    if s.len() == 0 {
        0
    } else {
        (s[0] + 256 * le_value(s.drop_first())) as nat
    }
}

pub open spec fn byte_sum(s: Seq<u8>) -> nat
    decreases s.len(),
{
    if s.len() == 0 {
        0
    } else {
        (byte_sum(s.drop_last()) + s.last()) as nat
    }
}

/// The checksum a frame must carry: the class byte plus every payload byte,
/// modulo 256.
pub open spec fn checksum_spec(msg: Seq<u8>) -> u8 {
    ((msg[0] + byte_sum(msg.subrange(PAYLOAD_START as int, FRAME_LEN as int))) % 256) as u8
}

pub open spec fn payload_spec(x: u64, y: u64, h: u64) -> Seq<u8> {
    le_bytes(x as nat, 8) + le_bytes(y as nat, 8) + le_bytes(h as nat, 8)
}

/// The frame announcing class `code`, position `(x, y)` and heading `h`.
pub open spec fn frame_spec(code: u8, x: u64, y: u64, h: u64) -> Seq<u8> {
    let unsigned = seq![code, 0u8, 0u8, 0u8, 0u8, 0u8, 0u8, 0u8] + payload_spec(x, y, h);
    unsigned.update(CHECKSUM_INDEX as int, checksum_spec(unsigned))
}

/// What a received message decodes to: nothing when it is short or its
/// checksum does not match.
pub open spec fn decode_spec(msg: Seq<u8>) -> Option<BroadcastFrame> {
    if msg.len() >= FRAME_LEN && msg[CHECKSUM_INDEX as int] == checksum_spec(msg) {
        Some(
            BroadcastFrame {
                class: class_from_code_spec(msg[0]),
                x_bits: le_value(msg.subrange(8, 16)) as u64,
                y_bits: le_value(msg.subrange(16, 24)) as u64,
                heading_bits: le_value(msg.subrange(24, 32)) as u64,
            },
        )
    } else {
        None
    }
}

proof fn lemma_pow256_facts(n: nat)
    requires
        n <= 8,
    ensures
        pow256(n) <= pow256(8),
        pow256(8) == 0x1_0000_0000_0000_0000,
    decreases 8 - n,
{
    reveal_with_fuel(pow256, 9);
    if n < 8 {
        lemma_pow256_facts(n + 1);
    }
}

proof fn lemma_le_bytes_len(x: nat, n: nat)
    ensures
        le_bytes(x, n).len() == n,
    decreases n,
{
    if n > 0 {
        lemma_le_bytes_len(x / 256, (n - 1) as nat);
    }
}

proof fn lemma_le_value_bound(s: Seq<u8>)
    ensures
        le_value(s) < pow256(s.len()),
    decreases s.len(),
{
    if s.len() > 0 {
        lemma_le_value_bound(s.drop_first());
    }
}

/// Reading back the low `n` bytes of a number below `256^n` gives it back.
proof fn lemma_le_round_trip(x: nat, n: nat)
    requires
        x < pow256(n),
    ensures
        le_value(le_bytes(x, n)) == x,
    decreases n,
{
    lemma_le_bytes_len(x, n);
    if n > 0 {
        let rest = (n - 1) as nat;
        assert(x / 256 < pow256(rest)) by (nonlinear_arith)
            requires
                x < 256 * pow256(rest),
        ;
        lemma_le_round_trip(x / 256, rest);
        assert(le_bytes(x, n).drop_first() =~= le_bytes(x / 256, rest));
    }
}

/// Little-endian word at `msg[start..start + 8]`.
fn read_u64_le(msg: &[u8], start: usize) -> (r: u64)
    requires
        start + 8 <= msg@.len(),
    ensures
        r as nat == le_value(msg@.subrange(start as int, start + 8)),
{
    let len = msg.len();
    let mut acc: u64 = 0;
    let mut i: usize = 8;
    proof {
        assert(msg@.subrange(start + 8, start + 8) =~= Seq::<u8>::empty());
    }
    while i > 0
        invariant
            i <= 8,
            start + 8 <= msg@.len(),
            len == msg@.len(),
            acc as nat == le_value(msg@.subrange(start + i, start + 8)),
        decreases i,
    {
        i = i - 1;
        proof {
            let s = msg@.subrange(start + i, start + 8);
            assert(s.drop_first() =~= msg@.subrange(start + i + 1, start + 8));
            lemma_le_value_bound(s.drop_first());
            lemma_pow256_facts((7 - i) as nat);
            lemma_pow256_facts((8 - i) as nat);
            assert(pow256((8 - i) as nat) == 256 * pow256((7 - i) as nat));
            assert(acc * 256 + 255 < pow256((8 - i) as nat)) by (nonlinear_arith)
                requires
                    acc < pow256((7 - i) as nat),
                    pow256((8 - i) as nat) == 256 * pow256((7 - i) as nat),
            ;
        }
        acc = acc * 256 + msg[start + i] as u64;
    }
    acc
}

/// Appends the eight little-endian bytes of `x`.
fn push_u64_le(out: &mut Vec<u8>, x: u64)
    ensures
        final(out)@ == old(out)@ + le_bytes(x as nat, 8),
{
    let mut v: u64 = x;
    let mut i: usize = 0;
    proof {
        assert(old(out)@ + le_bytes(x as nat, 8) =~= out@ + le_bytes(v as nat, 8));
    }
    while i < 8
        invariant
            i <= 8,
            out@ + le_bytes(v as nat, (8 - i) as nat) == old(out)@ + le_bytes(x as nat, 8),
        decreases 8 - i,
    {
        let b = (v % 256) as u8;
        proof {
            let k = (8 - i) as nat;
            assert(le_bytes(v as nat, k) == seq![b] + le_bytes((v / 256) as nat, (k - 1) as nat));
            assert(out@.push(b) + le_bytes((v / 256) as nat, (k - 1) as nat) =~= out@ + le_bytes(
                v as nat,
                k,
            ));
        }
        out.push(b);
        v = v / 256;
        i = i + 1;
    }
    proof {
        assert(out@ + le_bytes(v as nat, 0) =~= out@);
    }
}

/// The checksum of a frame's class byte and payload.
fn frame_checksum(msg: &[u8]) -> (r: u8)
    requires
        msg@.len() >= FRAME_LEN,
    ensures
        r == checksum_spec(msg@),
{
    let mut acc: u8 = msg[0];
    let mut i: usize = PAYLOAD_START;
    proof {
        assert(msg@.subrange(8, 8) =~= Seq::<u8>::empty());
    }
    while i < FRAME_LEN
        invariant
            PAYLOAD_START <= i <= FRAME_LEN,
            msg@.len() >= FRAME_LEN,
            acc == (msg@[0] + byte_sum(msg@.subrange(8, i as int))) % 256,
        decreases FRAME_LEN - i,
    {
        proof {
            let s = msg@.subrange(8, i + 1);
            assert(s.drop_last() =~= msg@.subrange(8, i as int));
            lemma_add_mod_noop_right(
                msg@[i as int] as int,
                msg@[0] + byte_sum(msg@.subrange(8, i as int)),
                256,
            );
        }
        acc = ((acc as u16 + msg[i] as u16) % 256) as u8;
        i = i + 1;
    }
    acc
}

/// Builds the frame by which a ship announces its class, position and
/// heading (the three words are the bit patterns of the values).
pub fn encode_class_and_position(class: ObjectClass, x_bits: u64, y_bits: u64, heading_bits: u64) -> (r: Vec<u8>)
    ensures
        r@ == frame_spec(class_code_spec(class), x_bits, y_bits, heading_bits),
        r@.len() == FRAME_LEN,
{
    let code = class.code();
    let mut msg: Vec<u8> = vec![code, 0, 0, 0, 0, 0, 0, 0];
    push_u64_le(&mut msg, x_bits);
    push_u64_le(&mut msg, y_bits);
    push_u64_le(&mut msg, heading_bits);
    proof {
        lemma_le_bytes_len(x_bits as nat, 8);
        lemma_le_bytes_len(y_bits as nat, 8);
        lemma_le_bytes_len(heading_bits as nat, 8);
        assert(msg@ =~= seq![code, 0u8, 0u8, 0u8, 0u8, 0u8, 0u8, 0u8] + payload_spec(
            x_bits,
            y_bits,
            heading_bits,
        ));
    }
    let checksum = frame_checksum(msg.as_slice());
    msg.set(CHECKSUM_INDEX, checksum);
    msg
}

/// Decodes a self-identification frame; `None` when the message is shorter
/// than a frame or its checksum does not match.
pub fn decode_class_and_position(msg: &[u8]) -> (r: Option<BroadcastFrame>)
    ensures
        r == decode_spec(msg@),
{
    if msg.len() < FRAME_LEN {
        return None;
    }
    let checksum = frame_checksum(msg);
    if checksum != msg[CHECKSUM_INDEX] {
        return None;
    }
    let x_bits = read_u64_le(msg, 8);
    let y_bits = read_u64_le(msg, 16);
    let heading_bits = read_u64_le(msg, 24);
    Some(
        BroadcastFrame {
            class: ObjectClass::from_code(msg[0]),
            x_bits,
            y_bits,
            heading_bits,
        },
    )
}

/// A frame built by the encoder decodes to the class it names and to the
/// very words that were put in.
pub proof fn lemma_frame_round_trip(class: ObjectClass, x_bits: u64, y_bits: u64, heading_bits: u64)
    ensures
        decode_spec(frame_spec(class_code_spec(class), x_bits, y_bits, heading_bits)) == Some(
            BroadcastFrame {
                class: class_from_code_spec(class_code_spec(class)),
                x_bits,
                y_bits,
                heading_bits,
            },
        ),
{
    let code = class_code_spec(class);
    let unsigned = seq![code, 0u8, 0u8, 0u8, 0u8, 0u8, 0u8, 0u8] + payload_spec(
        x_bits,
        y_bits,
        heading_bits,
    );
    let f = frame_spec(code, x_bits, y_bits, heading_bits);
    lemma_le_bytes_len(x_bits as nat, 8);
    lemma_le_bytes_len(y_bits as nat, 8);
    lemma_le_bytes_len(heading_bits as nat, 8);
    lemma_pow256_facts(8);
    lemma_le_round_trip(x_bits as nat, 8);
    lemma_le_round_trip(y_bits as nat, 8);
    lemma_le_round_trip(heading_bits as nat, 8);
    assert(f.subrange(8, 32) =~= unsigned.subrange(8, 32));
    assert(f.subrange(8, 16) =~= le_bytes(x_bits as nat, 8));
    assert(f.subrange(16, 24) =~= le_bytes(y_bits as nat, 8));
    assert(f.subrange(24, 32) =~= le_bytes(heading_bits as nat, 8));
}

proof fn lemma_byte_sum_update(s: Seq<u8>, j: int, b: u8)
    requires
        0 <= j < s.len(),
    ensures
        byte_sum(s.update(j, b)) + s[j] == byte_sum(s) + b,
    decreases s.len(),
{
    let t = s.update(j, b);
    if j < s.len() - 1 {
        assert(t.drop_last() =~= s.drop_last().update(j, b));
        lemma_byte_sum_update(s.drop_last(), j, b);
    } else {
        assert(t.drop_last() =~= s.drop_last());
    }
}

proof fn lemma_mod256_cancel(a: int, c: int, t: int)
    requires
        0 <= a < 256,
        0 <= c < 256,
        (a + t) % 256 == (c + t) % 256,
    ensures
        a == c,
{
    lemma_fundamental_div_mod(a + t, 256);
    lemma_fundamental_div_mod(c + t, 256);
}

/// Any change to the class byte, the checksum byte or a payload byte of a
/// frame that decodes makes the frame decode to nothing.
pub proof fn lemma_corruption_detected(f: Seq<u8>, i: int, b: u8)
    requires
        decode_spec(f) is Some,
        i == 0 || i == CHECKSUM_INDEX || (PAYLOAD_START <= i < FRAME_LEN),
        b != f[i],
    ensures
        decode_spec(f.update(i, b)) is None,
{
    let g = f.update(i, b);
    let p = f.subrange(8, 32);
    if i == 0 || i == 7 {
        assert(g.subrange(8, 32) =~= p);
        if i == 0 {
            if g[7] == checksum_spec(g) {
                lemma_mod256_cancel(b as int, f[0] as int, byte_sum(p) as int);
            }
        }
    } else {
        assert(g.subrange(8, 32) =~= p.update(i - 8, b));
        lemma_byte_sum_update(p, i - 8, b);
        if g[7] == checksum_spec(g) {
            lemma_mod256_cancel(
                b as int,
                f[i] as int,
                f[0] + byte_sum(p) - f[i],
            );
        }
    }
}

} // verus!
