use vstd::prelude::*;
use vstd::utf8::{decode_utf8, encode_utf8, valid_utf8};
use crate::ast::{Datum, DatumV, dec_in_range, lemma_view_datum_seq, lemma_view_entry_seq,
    view_datum_seq, view_entry_seq};
use crate::frame::{u32_be_bytes, u32_from_be, lemma_u32_be_round_trip};
use rust_decimal::prelude::ToPrimitive;

verus! {

// ---------------------------------------------------------------------------
// Scalars on the wire
// ---------------------------------------------------------------------------

/// The eight big-endian bytes of a 64-bit value: the high half, then the low.
pub open spec fn u64_be_bytes(n: nat) -> Seq<u8>
    recommends
        n <= u64::MAX,
{
    u32_be_bytes(n / 0x100000000) + u32_be_bytes(n % 0x100000000)
}

/// The value read back from eight big-endian bytes.
pub open spec fn u64_from_be(b: Seq<u8>) -> nat
    recommends
        b.len() >= 8,
{
    u32_from_be(b) * 0x100000000 + u32_from_be(b.subrange(4, 8))
}

/// Reading back the eight big-endian bytes of a value gives the value.
pub proof fn lemma_u64_be_round_trip(n: nat)
    requires
        n <= u64::MAX,
    ensures
        u64_from_be(u64_be_bytes(n)) == n,
{
    assert(n / 0x100000000 <= u32::MAX) by (nonlinear_arith)
        requires
            n <= u64::MAX,
    ;
    lemma_u32_be_round_trip(n / 0x100000000);
    lemma_u32_be_round_trip(n % 0x100000000);
    let whole = u64_be_bytes(n);
    assert(u32_from_be(whole) == n / 0x100000000) by {
        assert(whole[0] == u32_be_bytes(n / 0x100000000)[0]);
        assert(whole[1] == u32_be_bytes(n / 0x100000000)[1]);
        assert(whole[2] == u32_be_bytes(n / 0x100000000)[2]);
        assert(whole[3] == u32_be_bytes(n / 0x100000000)[3]);
    }
    assert(whole.subrange(4, 8) =~= u32_be_bytes(n % 0x100000000));
    assert((n / 0x100000000) * 0x100000000 + n % 0x100000000 == n) by (nonlinear_arith);
}

/// The unsigned 64-bit pattern that carries a signed 64-bit value.
pub open spec fn u64_of_i64(i: int) -> nat
    recommends
        i64::MIN <= i <= i64::MAX,
{
    if i < 0 {
        (i + 0x10000000000000000) as nat
    } else {
        i as nat
    }
}

/// The signed value carried by an unsigned 64-bit pattern.
pub open spec fn i64_of_u64(n: nat) -> int
    recommends
        n <= u64::MAX,
{
    if n >= 0x8000000000000000 {
        n - 0x10000000000000000
    } else {
        n as int
    }
}

// ---------------------------------------------------------------------------
// Values on the wire
// ---------------------------------------------------------------------------

/// Relies on rust_decimal's Decimal::try_from_i128_with_scale and to_f64:
/// a pair outside the library's range maps to zero bits. For a pair in
/// range the bits are those of a nearby floating-point number; that
/// conversion runs under unspecified precision, so nothing more is claimed
/// of them, and the encoding relation below admits any bits.
#[verifier::external_body]
fn decimal_wire_bits(mantissa: i128, scale: u32) -> (r: u64)
    ensures
        !dec_in_range(mantissa as int, scale as nat) ==> r == 0,
{
    match rust_decimal::Decimal::try_from_i128_with_scale(mantissa, scale) {
        Ok(d) => match d.to_f64() {
            Some(f) => f.to_bits(),
            None => 0,
        },
        Err(_) => 0,
    }
}

/// Values with no decimal anywhere inside. Only for these is the byte
/// encoding a function of the value: a decimal's float bits come from a
/// conversion of unspecified precision, so two encodings of one decimal
/// may differ in its eight payload bytes.
pub open spec fn decimal_free(d: DatumV) -> bool
    decreases d, 0nat, 0nat,
{
    match d {
        DatumV::Null => true,
        DatumV::Bool(_) => true,
        DatumV::Int(_) => true,
        DatumV::Decimal { .. } => false,
        DatumV::Str(_) => true,
        DatumV::Param(_) => true,
        DatumV::Arr(items) => decimal_free_items(items, 0),
        DatumV::Obj(entries) => decimal_free_entries(entries, 0),
    }
}

pub open spec fn decimal_free_items(items: Seq<DatumV>, i: int) -> bool
    decreases items, 1nat, items.len() - i,
{
    if i < 0 || i >= items.len() {
        true
    } else {
        decimal_free(items[i]) && decimal_free_items(items, i + 1)
    }
}

pub open spec fn decimal_free_entries(entries: Seq<(Seq<char>, DatumV)>, i: int) -> bool
    decreases entries, 1nat, entries.len() - i,
{
    if i < 0 || i >= entries.len() {
        true
    } else {
        decimal_free(entries[i].1) && decimal_free_entries(entries, i + 1)
    }
}

/// The canonical encoding of a value, one tag byte then the body: nil,
/// booleans, 64-bit integers, strings and parameters as length-prefixed
/// UTF-8 text, arrays and maps as count-prefixed element sequences, and a
/// decimal as a float tag with an all-zero payload standing in for its
/// eight payload bytes. An encoder emits exactly this byte string for a
/// decimal-free value; where a decimal sits, only the payload's place and
/// width are canonical, not its bytes (see `decimal_free`). `None` exactly
/// when a string or a collection is too long for its 32-bit length field,
/// or an integer is outside 64 bits.
pub open spec fn wire_encode(d: DatumV) -> Option<Seq<u8>>
    decreases d, 0nat, 0nat,
{
    match d {
        DatumV::Null => Some(seq![0xc0u8]),
        DatumV::Bool(b) => Some(
            seq![
                if b {
                    0xc3u8
                } else {
                    0xc2u8
                },
            ],
        ),
        DatumV::Int(i) => if i64::MIN <= i <= i64::MAX {
            Some(seq![0xd3u8] + u64_be_bytes(u64_of_i64(i)))
        } else {
            None
        },
        DatumV::Decimal { .. } => Some(seq![0xcbu8] + u64_be_bytes(0)),
        DatumV::Str(s) => wire_encode_text(s),
        DatumV::Param(s) => wire_encode_text(s),
        DatumV::Arr(items) => if items.len() > u32::MAX {
            None
        } else {
            match wire_encode_items(items, 0) {
                Some(body) => Some(seq![0xddu8] + u32_be_bytes(items.len()) + body),
                None => None,
            }
        },
        DatumV::Obj(entries) => if entries.len() > u32::MAX {
            None
        } else {
            match wire_encode_entries(entries, 0) {
                Some(body) => Some(seq![0xdfu8] + u32_be_bytes(entries.len()) + body),
                None => None,
            }
        },
    }
}

/// Length-prefixed UTF-8 encoding of a piece of text.
pub open spec fn wire_encode_text(s: Seq<char>) -> Option<Seq<u8>> {
    let bytes = encode_utf8(s);
    if bytes.len() > u32::MAX {
        None
    } else {
        Some(seq![0xdbu8] + u32_be_bytes(bytes.len()) + bytes)
    }
}

/// The canonical encodings of the items of a list from position `i` on,
/// concatenated in order.
pub open spec fn wire_encode_items(items: Seq<DatumV>, i: int) -> Option<Seq<u8>>
    decreases items, 1nat, items.len() - i,
{
    if i < 0 || i >= items.len() {
        Some(Seq::empty())
    } else {
        match wire_encode(items[i]) {
            Some(head) => match wire_encode_items(items, i + 1) {
                Some(tail) => Some(head + tail),
                None => None,
            },
            None => None,
        }
    }
}

/// The canonical encodings of keyed entries from position `i` on: each key
/// as text, then its value.
pub open spec fn wire_encode_entries(entries: Seq<(Seq<char>, DatumV)>, i: int) -> Option<Seq<u8>>
    decreases entries, 1nat, entries.len() - i,
{
    if i < 0 || i >= entries.len() {
        Some(Seq::empty())
    } else {
        match wire_encode_text(entries[i].0) {
            Some(key) => match wire_encode(entries[i].1) {
                Some(value) => match wire_encode_entries(entries, i + 1) {
                    Some(tail) => Some(key + value + tail),
                    None => None,
                },
                None => None,
            },
            None => None,
        }
    }
}

// ---------------------------------------------------------------------------
// Reading values back
// ---------------------------------------------------------------------------

/// Decodes one value starting at `pos`: the value and the position just past
/// it, or `None` on a malformed, truncated or unsupported encoding. Floats
/// are not read back: this side of the protocol never receives them.
pub open spec fn wire_decode(b: Seq<u8>, pos: int) -> Option<(DatumV, int)>
    decreases b.len() - pos, 0nat,
{
    if pos < 0 || pos >= b.len() {
        None
    } else if b[pos] == 0xc0u8 {
        Some((DatumV::Null, pos + 1))
    } else if b[pos] == 0xc2u8 {
        Some((DatumV::Bool(false), pos + 1))
    } else if b[pos] == 0xc3u8 {
        Some((DatumV::Bool(true), pos + 1))
    } else if b[pos] == 0xd3u8 {
        if pos + 9 <= b.len() {
            Some((DatumV::Int(i64_of_u64(u64_from_be(b.subrange(pos + 1, pos + 9)))), pos + 9))
        } else {
            None
        }
    } else if b[pos] == 0xdbu8 {
        if pos + 5 <= b.len() {
            let n = u32_from_be(b.subrange(pos + 1, pos + 5)) as int;
            if pos + 5 + n <= b.len() {
                let bytes = b.subrange(pos + 5, pos + 5 + n);
                if valid_utf8(bytes) {
                    Some((DatumV::Str(decode_utf8(bytes)), pos + 5 + n))
                } else {
                    None
                }
            } else {
                None
            }
        } else {
            None
        }
    } else if b[pos] == 0xddu8 {
        if pos + 5 <= b.len() {
            let n = u32_from_be(b.subrange(pos + 1, pos + 5));
            match wire_decode_items(b, pos + 5, n) {
                Some(pair) => Some((DatumV::Arr(pair.0), pair.1)),
                None => None,
            }
        } else {
            None
        }
    } else if b[pos] == 0xdfu8 {
        if pos + 5 <= b.len() {
            let n = u32_from_be(b.subrange(pos + 1, pos + 5));
            match wire_decode_entries(b, pos + 5, n) {
                Some(pair) => Some((DatumV::Obj(pair.0), pair.1)),
                None => None,
            }
        } else {
            None
        }
    } else {
        None
    }
}

/// Decodes `count` consecutive values starting at `pos`.
pub open spec fn wire_decode_items(b: Seq<u8>, pos: int, count: nat) -> Option<
    (Seq<DatumV>, int),
>
    decreases b.len() - pos, count,
{
    if count == 0 {
        if 0 <= pos <= b.len() {
            Some((Seq::empty(), pos))
        } else {
            None
        }
    } else {
        match wire_decode(b, pos) {
            Some(head) => if pos < head.1 <= b.len() {
                match wire_decode_items(b, head.1, (count - 1) as nat) {
                    Some(tail) => Some((seq![head.0] + tail.0, tail.1)),
                    None => None,
                }
            } else {
                None
            },
            None => None,
        }
    }
}

/// Decodes `count` consecutive key-value entries starting at `pos`: each a
/// text key, then a value.
pub open spec fn wire_decode_entries(b: Seq<u8>, pos: int, count: nat) -> Option<
    (Seq<(Seq<char>, DatumV)>, int),
>
    decreases b.len() - pos, count,
{
    if count == 0 {
        if 0 <= pos <= b.len() {
            Some((Seq::empty(), pos))
        } else {
            None
        }
    } else {
        match wire_decode(b, pos) {
            Some(key) => if pos < key.1 <= b.len() {
                match key.0 {
                    DatumV::Str(k) => match wire_decode(b, key.1) {
                        Some(value) => if key.1 < value.1 <= b.len() {
                            match wire_decode_entries(b, value.1, (count - 1) as nat) {
                                Some(tail) => Some((seq![(k, value.0)] + tail.0, tail.1)),
                                None => None,
                            }
                        } else {
                            None
                        },
                        None => None,
                    },
                    _ => None,
                }
            } else {
                None
            },
            None => None,
        }
    }
}

// ---------------------------------------------------------------------------
// The executable encoder
// ---------------------------------------------------------------------------

fn push_u32_be(v: &mut Vec<u8>, n: u32)
    ensures
        final(v)@ == old(v)@ + u32_be_bytes(n as nat),
{
    v.push((n / 0x1000000 % 256) as u8);
    v.push((n / 0x10000 % 256) as u8);
    v.push((n / 0x100 % 256) as u8);
    v.push((n % 256) as u8);
    proof {
        assert(v@ =~= old(v)@ + u32_be_bytes(n as nat));
    }
}

fn push_u64_be(v: &mut Vec<u8>, n: u64)
    ensures
        final(v)@ == old(v)@ + u64_be_bytes(n as nat),
{
    let hi = (n / 0x100000000) as u32;
    let lo = (n % 0x100000000) as u32;
    push_u32_be(v, hi);
    push_u32_be(v, lo);
    proof {
        assert(v@ =~= old(v)@ + u64_be_bytes(n as nat));
    }
}

/// Encodes a piece of text: tag, four-byte length, UTF-8 bytes.
fn encode_text(s: &String) -> (r: Option<Vec<u8>>)
    ensures
        (match r {
            Some(v) => wire_encode_text(s@) == Some(v@),
            None => wire_encode_text(s@) is None,
        }),
{
    let bytes = s.as_str().as_bytes_vec();
    if bytes.len() as u64 > u32::MAX as u64 {
        return Option::None;
    }
    let mut v: Vec<u8> = Vec::new();
    v.push(0xdbu8);
    push_u32_be(&mut v, bytes.len() as u32);
    let mut i: usize = 0;
    while i < bytes.len()
        invariant
            i <= bytes@.len(),
            v@ == seq![0xdbu8] + u32_be_bytes(bytes@.len()) + bytes@.subrange(0, i as int),
        decreases bytes@.len() - i,
    {
        let b = bytes[i];
        v.push(b);
        i = i + 1;
        proof {
            assert(seq![0xdbu8] + u32_be_bytes(bytes@.len()) + bytes@.subrange(0, i - 1 as int)
                + seq![bytes@[i - 1]] =~= seq![0xdbu8] + u32_be_bytes(bytes@.len())
                + bytes@.subrange(0, i as int));
        }
    }
    proof {
        assert(v@ =~= seq![0xdbu8] + u32_be_bytes(bytes@.len()) + bytes@);
    }
    Option::Some(v)
}

/// Encodes a value for the wire. The output always has the canonical
/// encoding's length, and for a decimal-free value it is the canonical
/// encoding itself; a decimal's eight payload bytes come from the float
/// conversion and are not pinned. Encoding succeeds exactly when the
/// canonical encoding exists.
pub fn encode_datum(d: &Datum) -> (r: Option<Vec<u8>>)
    ensures
        (match r {
            Some(v) => wire_encode(d@) matches Some(c) && v@.len() == c.len() && (decimal_free(d@)
                ==> v@ == c),
            None => wire_encode(d@) is None,
        }),
    decreases *d, 0nat, 0nat,
{
    match d {
        Datum::Null => {
            let mut v: Vec<u8> = Vec::new();
            v.push(0xc0u8);
            proof {
                assert(v@ =~= seq![0xc0u8]);
            }
            Option::Some(v)
        },
        Datum::Bool(b) => {
            let mut v: Vec<u8> = Vec::new();
            if *b {
                v.push(0xc3u8);
            } else {
                v.push(0xc2u8);
            }
            proof {
                if *b {
                    assert(v@ =~= seq![0xc3u8]);
                } else {
                    assert(v@ =~= seq![0xc2u8]);
                }
            }
            Option::Some(v)
        },
        Datum::Integer(i) => {
            let u: u64 = if *i >= 0 {
                *i as u64
            } else {
                u64::MAX - ((-(*i + 1)) as u64)
            };
            proof {
                assert(u as nat == u64_of_i64(*i as int));
            }
            let mut v: Vec<u8> = Vec::new();
            v.push(0xd3u8);
            push_u64_be(&mut v, u);
            proof {
                assert(v@ =~= seq![0xd3u8] + u64_be_bytes(u64_of_i64(*i as int)));
            }
            Option::Some(v)
        },
        Datum::Decimal(x) => {
            let bits = decimal_wire_bits(x.mantissa, x.scale);
            let mut v: Vec<u8> = Vec::new();
            v.push(0xcbu8);
            push_u64_be(&mut v, bits);
            proof {
                assert(v@ == seq![0xcbu8] + u64_be_bytes(bits as nat));
                assert(v@.len() == (seq![0xcbu8] + u64_be_bytes(0)).len());
            }
            Option::Some(v)
        },
        Datum::String(s) => encode_text(s),
        Datum::Parameter(s) => encode_text(s),
        Datum::Array(a) => {
            proof {
                lemma_view_datum_seq(a@);
            }
            if a.len() as u64 > u32::MAX as u64 {
                return Option::None;
            }
            match encode_items(a, 0) {
                Option::Some(mut body) => {
                    let ghost bv = body@;
                    let mut v: Vec<u8> = Vec::new();
                    v.push(0xddu8);
                    push_u32_be(&mut v, a.len() as u32);
                    v.append(&mut body);
                    proof {
                        assert(v@ =~= seq![0xddu8] + u32_be_bytes(view_datum_seq(a@).len()) + bv);
                        if decimal_free(d@) {
                            assert(v@ =~= wire_encode(d@)->Some_0);
                        }
                    }
                    Option::Some(v)
                },
                Option::None => Option::None,
            }
        },
        Datum::Object(o) => {
            proof {
                lemma_view_entry_seq(o@);
            }
            if o.len() as u64 > u32::MAX as u64 {
                return Option::None;
            }
            match encode_entries(o, 0) {
                Option::Some(mut body) => {
                    let ghost bv = body@;
                    let mut v: Vec<u8> = Vec::new();
                    v.push(0xdfu8);
                    push_u32_be(&mut v, o.len() as u32);
                    v.append(&mut body);
                    proof {
                        assert(v@ =~= seq![0xdfu8] + u32_be_bytes(view_entry_seq(o@).len()) + bv);
                        if decimal_free(d@) {
                            assert(v@ =~= wire_encode(d@)->Some_0);
                        }
                    }
                    Option::Some(v)
                },
                Option::None => Option::None,
            }
        },
    }
}

/// Encodes the items of a list from position `i` on.
fn encode_items(a: &Vec<Datum>, i: usize) -> (r: Option<Vec<u8>>)
    ensures
        (match r {
            Some(v) => wire_encode_items(view_datum_seq(a@), i as int) matches Some(c)
                && v@.len() == c.len() && (decimal_free_items(view_datum_seq(a@), i as int)
                ==> v@ == c),
            None => wire_encode_items(view_datum_seq(a@), i as int) is None,
        }),
    decreases *a, 1nat, a@.len() - i,
{
    proof {
        lemma_view_datum_seq(a@);
        assert(decreases_to!(*a => a@));
    }
    if i >= a.len() {
        Option::Some(Vec::new())
    } else {
        proof {
            assert(decreases_to!(a@ => a@[i as int]));
        }
        match encode_datum(&a[i]) {
            Option::Some(mut head) => match encode_items(a, i + 1) {
                Option::Some(tail) => {
                    let ghost hv = head@;
                    let ghost tv = tail@;
                    let mut rest = tail;
                    head.append(&mut rest);
                    proof {
                        assert(head@ == hv + tv);
                    }
                    Option::Some(head)
                },
                Option::None => Option::None,
            },
            Option::None => Option::None,
        }
    }
}

/// Encodes keyed entries from position `i` on: each key as text, then its
/// value.
fn encode_entries(o: &Vec<(String, Datum)>, i: usize) -> (r: Option<Vec<u8>>)
    ensures
        (match r {
            Some(v) => wire_encode_entries(view_entry_seq(o@), i as int) matches Some(c)
                && v@.len() == c.len() && (decimal_free_entries(view_entry_seq(o@), i as int)
                ==> v@ == c),
            None => wire_encode_entries(view_entry_seq(o@), i as int) is None,
        }),
    decreases *o, 1nat, o@.len() - i,
{
    proof {
        lemma_view_entry_seq(o@);
        assert(decreases_to!(*o => o@));
    }
    if i >= o.len() {
        Option::Some(Vec::new())
    } else {
        proof {
            assert(decreases_to!(o@ => o@[i as int]));
            assert(decreases_to!(o@[i as int] => o@[i as int].1));
        }
        match encode_text(&o[i].0) {
            Option::Some(mut key) => match encode_datum(&o[i].1) {
                Option::Some(value) => match encode_entries(o, i + 1) {
                    Option::Some(tail) => {
                        let ghost kv = key@;
                        let ghost vv = value@;
                        let ghost tv = tail@;
                        let mut value_bytes = value;
                        let mut rest = tail;
                        key.append(&mut value_bytes);
                        key.append(&mut rest);
                        proof {
                            assert(key@ == kv + vv + tv);
                        }
                        Option::Some(key)
                    },
                    Option::None => Option::None,
                },
                Option::None => Option::None,
            },
            Option::None => Option::None,
        }
    }
}

// ---------------------------------------------------------------------------
// The executable decoder
// ---------------------------------------------------------------------------

/// Relies on String::from_utf8: it succeeds exactly on valid UTF-8, giving
/// the characters those bytes encode.
#[verifier::external_body]
fn string_from_utf8(bytes: Vec<u8>) -> (r: Option<String>)
    ensures
        (match r {
            Some(s) => valid_utf8(bytes@) && s@ == decode_utf8(bytes@),
            None => !valid_utf8(bytes@),
        }),
{
    match String::from_utf8(bytes) {
        Ok(s) => Option::Some(s),
        Err(_) => Option::None,
    }
}

fn read_u32_be(b: &[u8], pos: usize) -> (r: u32)
    requires
        pos + 4 <= b@.len(),
    ensures
        r as nat == u32_from_be(b@.subrange(pos as int, pos as int + 4)),
{
    let b0 = b[pos] as u32;
    let b1 = b[pos + 1] as u32;
    let b2 = b[pos + 2] as u32;
    let b3 = b[pos + 3] as u32;
    let r = b0 * 0x1000000 + b1 * 0x10000 + b2 * 0x100 + b3;
    proof {
        let s = b@.subrange(pos as int, pos as int + 4);
        assert(s[0] == b@[pos as int] && s[1] == b@[pos as int + 1] && s[2] == b@[pos as int + 2]
            && s[3] == b@[pos as int + 3]);
    }
    r
}

fn read_u64_be(b: &[u8], pos: usize) -> (r: u64)
    requires
        pos + 8 <= b@.len() <= usize::MAX,
    ensures
        r as nat == u64_from_be(b@.subrange(pos as int, pos as int + 8)),
{
    let hi = read_u32_be(b, pos);
    let lo = read_u32_be(b, pos + 4);
    let r = (hi as u64) * 0x100000000 + (lo as u64);
    proof {
        let s = b@.subrange(pos as int, pos as int + 8);
        assert(s[0] == b@[pos as int] && s[1] == b@[pos as int + 1] && s[2] == b@[pos as int + 2]
            && s[3] == b@[pos as int + 3]);
        assert(u32_from_be(s) == hi as nat);
        assert(s.subrange(4, 8) =~= b@.subrange(pos as int + 4, pos as int + 8));
    }
    r
}

fn copy_bytes(b: &[u8], from: usize, n: usize) -> (r: Vec<u8>)
    requires
        from + n <= b@.len() <= usize::MAX,
    ensures
        r@ == b@.subrange(from as int, from as int + n),
{
    let mut out: Vec<u8> = Vec::new();
    let mut i: usize = 0;
    while i < n
        invariant
            i <= n,
            from + n <= b@.len() <= usize::MAX,
            out@ == b@.subrange(from as int, from as int + i),
        decreases n - i,
    {
        let x = b[from + i];
        out.push(x);
        i = i + 1;
        proof {
            assert(b@.subrange(from as int, from as int + i - 1) + seq![b@[from + i - 1]]
                =~= b@.subrange(from as int, from as int + i));
        }
    }
    out
}

/// Decodes one value starting at `pos`, as `wire_decode` describes.
pub fn decode_datum_at(b: &[u8], pos: usize) -> (r: Option<(Datum, usize)>)
    ensures
        (match r {
            Some(pair) => wire_decode(b@, pos as int) == Some((pair.0@, pair.1 as int)),
            None => wire_decode(b@, pos as int) is None,
        }),
    decreases b@.len() - pos, 0nat,
{
    if pos >= b.len() {
        return Option::None;
    }
    let tag = b[pos];
    if tag == 0xc0u8 {
        Option::Some((Datum::Null, pos + 1))
    } else if tag == 0xc2u8 {
        Option::Some((Datum::Bool(false), pos + 1))
    } else if tag == 0xc3u8 {
        Option::Some((Datum::Bool(true), pos + 1))
    } else if tag == 0xd3u8 {
        if b.len() - pos >= 9 {
            let u = read_u64_be(b, pos + 1);
            let i: i64 = if u >= 0x8000000000000000u64 {
                -((u64::MAX - u) as i64) - 1
            } else {
                u as i64
            };
            proof {
                assert(i as int == i64_of_u64(u as nat));
            }
            Option::Some((Datum::Integer(i), pos + 9))
        } else {
            Option::None
        }
    } else if tag == 0xdbu8 {
        if b.len() - pos >= 5 {
            let n32 = read_u32_be(b, pos + 1);
            if ((b.len() - (pos + 5)) as u64) < n32 as u64 {
                return Option::None;
            }
            let n = n32 as usize;
            let bytes = copy_bytes(b, pos + 5, n);
            match string_from_utf8(bytes) {
                Option::Some(s) => Option::Some((Datum::String(s), pos + 5 + n)),
                Option::None => Option::None,
            }
        } else {
            Option::None
        }
    } else if tag == 0xddu8 {
        if b.len() - pos >= 5 {
            let n32 = read_u32_be(b, pos + 1);
            match decode_items(b, pos + 5, n32) {
                Option::Some(pair) => {
                    proof {
                        lemma_view_datum_seq(pair.0@);
                        assert(view_datum_seq(pair.0@) =~= wire_decode_items(
                            b@,
                            pos as int + 5,
                            n32 as nat,
                        )->Some_0.0);
                    }
                    Option::Some((Datum::Array(pair.0), pair.1))
                },
                Option::None => Option::None,
            }
        } else {
            Option::None
        }
    } else if tag == 0xdfu8 {
        if b.len() - pos >= 5 {
            let n32 = read_u32_be(b, pos + 1);
            match decode_entries(b, pos + 5, n32) {
                Option::Some(pair) => {
                    proof {
                        lemma_view_entry_seq(pair.0@);
                        assert(view_entry_seq(pair.0@) =~= wire_decode_entries(
                            b@,
                            pos as int + 5,
                            n32 as nat,
                        )->Some_0.0);
                    }
                    Option::Some((Datum::Object(pair.0), pair.1))
                },
                Option::None => Option::None,
            }
        } else {
            Option::None
        }
    } else {
        Option::None
    }
}

/// Decodes `count` consecutive values starting at `pos`.
fn decode_items(b: &[u8], pos: usize, count: u32) -> (r: Option<(Vec<Datum>, usize)>)
    ensures
        (match r {
            Some(pair) => wire_decode_items(b@, pos as int, count as nat) == Some(
                (view_datum_seq(pair.0@), pair.1 as int),
            ),
            None => wire_decode_items(b@, pos as int, count as nat) is None,
        }),
    decreases b@.len() - pos, count,
{
    if count == 0 {
        if pos <= b.len() {
            Option::Some((Vec::new(), pos))
        } else {
            Option::None
        }
    } else {
        match decode_datum_at(b, pos) {
            Option::Some(head) => {
                let (d, pos2) = head;
                if pos < pos2 && pos2 <= b.len() {
                    match decode_items(b, pos2, count - 1) {
                        Option::Some(tail) => {
                            let (mut items, end) = tail;
                            let ghost tail_view = items@;
                            items.insert(0, d);
                            proof {
                                lemma_view_datum_seq(items@);
                                lemma_view_datum_seq(tail_view);
                                assert(items@ =~= seq![d] + tail_view);
                                assert(view_datum_seq(items@) =~= seq![d@] + view_datum_seq(
                                    tail_view,
                                ));
                            }
                            Option::Some((items, end))
                        },
                        Option::None => Option::None,
                    }
                } else {
                    Option::None
                }
            },
            Option::None => Option::None,
        }
    }
}

/// Decodes `count` consecutive key-value entries starting at `pos`.
fn decode_entries(b: &[u8], pos: usize, count: u32) -> (r: Option<(Vec<(String, Datum)>, usize)>)
    ensures
        (match r {
            Some(pair) => wire_decode_entries(b@, pos as int, count as nat) == Some(
                (view_entry_seq(pair.0@), pair.1 as int),
            ),
            None => wire_decode_entries(b@, pos as int, count as nat) is None,
        }),
    decreases b@.len() - pos, count,
{
    if count == 0 {
        if pos <= b.len() {
            Option::Some((Vec::new(), pos))
        } else {
            Option::None
        }
    } else {
        match decode_datum_at(b, pos) {
            Option::Some(key_pair) => {
                let (key_datum, kend) = key_pair;
                if pos < kend && kend <= b.len() {
                    match key_datum {
                        Datum::String(k) => match decode_datum_at(b, kend) {
                            Option::Some(value_pair) => {
                                let (value, vend) = value_pair;
                                if kend < vend && vend <= b.len() {
                                    match decode_entries(b, vend, count - 1) {
                                        Option::Some(tail) => {
                                            let (mut entries, end) = tail;
                                            let ghost tail_view = entries@;
                                            let ghost kv = (k, value);
                                            entries.insert(0, (k, value));
                                            proof {
                                                lemma_view_entry_seq(entries@);
                                                lemma_view_entry_seq(tail_view);
                                                assert(entries@ =~= seq![kv] + tail_view);
                                                assert(view_entry_seq(entries@) =~= seq![
                                                    (kv.0@, kv.1@),
                                                ] + view_entry_seq(tail_view));
                                            }
                                            Option::Some((entries, end))
                                        },
                                        Option::None => Option::None,
                                    }
                                } else {
                                    Option::None
                                }
                            },
                            Option::None => Option::None,
                        },
                        _ => Option::None,
                    }
                } else {
                    Option::None
                }
            },
            Option::None => Option::None,
        }
    }
}

/// Whether a whole buffer is exactly one encoded value, and which.
pub open spec fn wire_decode_value(b: Seq<u8>) -> Option<DatumV> {
    match wire_decode(b, 0) {
        Some(pair) => if pair.1 == b.len() {
            Some(pair.0)
        } else {
            None
        },
        None => None,
    }
}

/// Decodes a whole buffer as one value; `None` if it is malformed or has
/// bytes left over.
pub fn decode_datum(b: &[u8]) -> (r: Option<Datum>)
    ensures
        (match r {
            Some(d) => wire_decode_value(b@) == Some(d@),
            None => wire_decode_value(b@) is None,
        }),
{
    match decode_datum_at(b, 0) {
        Option::Some(pair) => {
            if pair.1 == b.len() {
                Option::Some(pair.0)
            } else {
                Option::None
            }
        },
        Option::None => Option::None,
    }
}

// ---------------------------------------------------------------------------
// The round trip
// ---------------------------------------------------------------------------

/// The values that survive the wire unchanged: everything except decimals,
/// which travel lossily as floats, and parameters, which the wire cannot
/// tell from plain strings. Integers must fit their 64-bit field.
pub open spec fn wire_faithful(d: DatumV) -> bool
    decreases d, 0nat, 0nat,
{
    match d {
        DatumV::Null => true,
        DatumV::Bool(_) => true,
        DatumV::Int(i) => i64::MIN <= i <= i64::MAX,
        DatumV::Decimal { .. } => false,
        DatumV::Param(_) => false,
        DatumV::Str(_) => true,
        DatumV::Arr(items) => wire_faithful_items(items, 0),
        DatumV::Obj(entries) => wire_faithful_entries(entries, 0),
    }
}

pub open spec fn wire_faithful_items(items: Seq<DatumV>, i: int) -> bool
    decreases items, 1nat, items.len() - i,
{
    if i < 0 || i >= items.len() {
        true
    } else {
        wire_faithful(items[i]) && wire_faithful_items(items, i + 1)
    }
}

pub open spec fn wire_faithful_entries(entries: Seq<(Seq<char>, DatumV)>, i: int) -> bool
    decreases entries, 1nat, entries.len() - i,
{
    if i < 0 || i >= entries.len() {
        true
    } else {
        wire_faithful(entries[i].1) && wire_faithful_entries(entries, i + 1)
    }
}

/// A faithful value is decimal-free, so the encoder's output for it is
/// exactly the canonical encoding that the round-trip law speaks of.
pub proof fn lemma_faithful_is_decimal_free(d: DatumV)
    requires
        wire_faithful(d),
    ensures
        decimal_free(d),
    decreases d, 0nat, 0nat,
{
    match d {
        DatumV::Arr(items) => {
            lemma_faithful_items_decimal_free(items, 0);
        },
        DatumV::Obj(entries) => {
            lemma_faithful_entries_decimal_free(entries, 0);
        },
        _ => {},
    }
}

proof fn lemma_faithful_items_decimal_free(items: Seq<DatumV>, i: int)
    requires
        wire_faithful_items(items, i),
    ensures
        decimal_free_items(items, i),
    decreases items, 1nat, items.len() - i,
{
    if 0 <= i < items.len() {
        lemma_faithful_is_decimal_free(items[i]);
        lemma_faithful_items_decimal_free(items, i + 1);
    }
}

proof fn lemma_faithful_entries_decimal_free(entries: Seq<(Seq<char>, DatumV)>, i: int)
    requires
        wire_faithful_entries(entries, i),
    ensures
        decimal_free_entries(entries, i),
    decreases entries, 1nat, entries.len() - i,
{
    if 0 <= i < entries.len() {
        lemma_faithful_is_decimal_free(entries[i].1);
        lemma_faithful_entries_decimal_free(entries, i + 1);
    }
}

/// A canonical encoding is never empty: it starts with its tag byte.
proof fn lemma_wire_encode_nonempty(d: DatumV)
    requires
        wire_encode(d) is Some,
    ensures
        wire_encode(d)->Some_0.len() >= 1,
{
}

/// A window of a buffer that holds a known byte string is the matching
/// window of that byte string.
proof fn lemma_subrange_of_eq(b: Seq<u8>, pos: int, enc: Seq<u8>, lo: int, hi: int)
    requires
        0 <= pos,
        pos + enc.len() <= b.len(),
        b.subrange(pos, pos + enc.len() as int) == enc,
        pos <= lo <= hi <= pos + enc.len(),
    ensures
        b.subrange(lo, hi) == enc.subrange(lo - pos, hi - pos),
{
    assert forall|k: int| 0 <= k < hi - lo implies b.subrange(lo, hi)[k] == enc.subrange(
        lo - pos,
        hi - pos,
    )[k] by {
        assert(b.subrange(pos, pos + enc.len() as int)[lo - pos + k] == enc[lo - pos + k]);
        assert(b.subrange(lo, hi)[k] == b[lo + k]);
        assert(b[pos + (lo - pos + k)] == b[lo + k]);
    }
    assert(b.subrange(lo, hi) =~= enc.subrange(lo - pos, hi - pos));
}

/// Decoding a well-placed text encoding gives the text back.
proof fn lemma_wire_text_round_trip_at(s: Seq<char>, b: Seq<u8>, pos: int)
    requires
        wire_encode_text(s) is Some,
        0 <= pos,
        pos + wire_encode_text(s)->Some_0.len() <= b.len(),
        b.subrange(pos, pos + wire_encode_text(s)->Some_0.len() as int) == wire_encode_text(
            s,
        )->Some_0,
    ensures
        wire_decode(b, pos) == Some((DatumV::Str(s), pos + wire_encode_text(s)->Some_0.len())),
{
    let bytes = encode_utf8(s);
    let enc = wire_encode_text(s)->Some_0;
    assert(enc.len() == 5 + bytes.len());
    assert forall|j: int| 0 <= j < enc.len() implies b[pos + j] == enc[j] by {
        assert(b.subrange(pos, pos + enc.len() as int)[j] == enc[j]);
    }
    assert(b[pos] == enc[0]);
    assert(b[pos] == 0xdbu8);
    lemma_subrange_of_eq(b, pos, enc, pos + 1, pos + 5);
    assert(enc.subrange(1, 5) =~= u32_be_bytes(bytes.len()));
    assert(b.subrange(pos + 1, pos + 5) == u32_be_bytes(bytes.len()));
    lemma_u32_be_round_trip(bytes.len());
    let n = u32_from_be(b.subrange(pos + 1, pos + 5)) as int;
    assert(n == bytes.len());
    lemma_subrange_of_eq(b, pos, enc, pos + 5, pos + 5 + bytes.len() as int);
    assert(enc.subrange(5, 5 + bytes.len() as int) =~= bytes);
    assert(b.subrange(pos + 5, pos + 5 + n) == bytes);
    vstd::utf8::encode_utf8_valid_utf8(s);
    vstd::utf8::encode_utf8_decode_utf8(s);
}

/// Decoding a well-placed canonical encoding of a faithful value gives the
/// value back and stops just past it.
#[verifier::rlimit(60)]
pub proof fn lemma_wire_round_trip_at(d: DatumV, b: Seq<u8>, pos: int)
    requires
        wire_faithful(d),
        wire_encode(d) is Some,
        0 <= pos,
        pos + wire_encode(d)->Some_0.len() <= b.len(),
        b.subrange(pos, pos + wire_encode(d)->Some_0.len() as int) == wire_encode(d)->Some_0,
    ensures
        wire_decode(b, pos) == Some((d, pos + wire_encode(d)->Some_0.len())),
    decreases d, 0nat, 0nat,
{
    let enc = wire_encode(d)->Some_0;
    assert(enc.len() >= 1) by {
        lemma_wire_encode_nonempty(d);
    }
    assert forall|j: int| 0 <= j < enc.len() implies b[pos + j] == enc[j] by {
        assert(b.subrange(pos, pos + enc.len() as int)[j] == enc[j]);
    }
    assert(b[pos] == enc[0]);
    match d {
        DatumV::Null => {},
        DatumV::Bool(_) => {},
        DatumV::Int(i) => {
            let u = u64_of_i64(i);
            lemma_subrange_of_eq(b, pos, enc, pos + 1, pos + 9);
            assert(enc.subrange(1, 9) =~= u64_be_bytes(u));
            assert(b.subrange(pos + 1, pos + 9) == u64_be_bytes(u));
            lemma_u64_be_round_trip(u);
        },
        DatumV::Decimal { .. } => {},
        DatumV::Param(_) => {},
        DatumV::Str(s) => {
            lemma_wire_text_round_trip_at(s, b, pos);
        },
        DatumV::Arr(items) => {
            let body = wire_encode_items(items, 0)->Some_0;
            assert(enc == seq![0xddu8] + u32_be_bytes(items.len()) + body);
            lemma_subrange_of_eq(b, pos, enc, pos + 1, pos + 5);
            assert(enc.subrange(1, 5) =~= u32_be_bytes(items.len()));
            assert(b.subrange(pos + 1, pos + 5) == u32_be_bytes(items.len()));
            lemma_u32_be_round_trip(items.len());
            lemma_subrange_of_eq(b, pos, enc, pos + 5, pos + 5 + body.len() as int);
            assert(enc.subrange(5, 5 + body.len() as int) =~= body);
            assert(b.subrange(pos + 5, pos + 5 + body.len() as int) == body);
            lemma_wire_round_trip_items(items, 0, b, pos + 5);
            assert(items.subrange(0, items.len() as int) =~= items);
        },
        DatumV::Obj(entries) => {
            let body = wire_encode_entries(entries, 0)->Some_0;
            assert(enc == seq![0xdfu8] + u32_be_bytes(entries.len()) + body);
            lemma_subrange_of_eq(b, pos, enc, pos + 1, pos + 5);
            assert(enc.subrange(1, 5) =~= u32_be_bytes(entries.len()));
            assert(b.subrange(pos + 1, pos + 5) == u32_be_bytes(entries.len()));
            lemma_u32_be_round_trip(entries.len());
            lemma_subrange_of_eq(b, pos, enc, pos + 5, pos + 5 + body.len() as int);
            assert(enc.subrange(5, 5 + body.len() as int) =~= body);
            assert(b.subrange(pos + 5, pos + 5 + body.len() as int) == body);
            lemma_wire_round_trip_entries(entries, 0, b, pos + 5);
            assert(entries.subrange(0, entries.len() as int) =~= entries);
        },
    }
}

/// Decoding well-placed canonical encodings of the items from position `i`
/// on gives those items back, in order.
#[verifier::rlimit(60)]
proof fn lemma_wire_round_trip_items(items: Seq<DatumV>, i: int, b: Seq<u8>, pos: int)
    requires
        0 <= i <= items.len(),
        wire_faithful_items(items, i),
        wire_encode_items(items, i) is Some,
        0 <= pos,
        pos + wire_encode_items(items, i)->Some_0.len() <= b.len(),
        b.subrange(pos, pos + wire_encode_items(items, i)->Some_0.len() as int)
            == wire_encode_items(items, i)->Some_0,
    ensures
        wire_decode_items(b, pos, (items.len() - i) as nat) == Some(
            (
                items.subrange(i, items.len() as int),
                pos + wire_encode_items(items, i)->Some_0.len(),
            ),
        ),
    decreases items, 1nat, items.len() - i,
{
    let body = wire_encode_items(items, i)->Some_0;
    if i == items.len() {
        assert(body =~= Seq::<u8>::empty());
        assert(items.subrange(i, items.len() as int) =~= Seq::<DatumV>::empty());
        assert(wire_decode_items(b, pos, 0) == Some((Seq::<DatumV>::empty(), pos)));
    } else {
        let head = wire_encode(items[i])->Some_0;
        let tail = wire_encode_items(items, i + 1)->Some_0;
        assert(body == head + tail);
        lemma_subrange_of_eq(b, pos, body, pos, pos + head.len() as int);
        assert(body.subrange(0, head.len() as int) =~= head);
        assert(b.subrange(pos, pos + head.len() as int) == head);
        lemma_wire_round_trip_at(items[i], b, pos);
        lemma_wire_encode_nonempty(items[i]);
        let pos2 = pos + head.len() as int;
        lemma_subrange_of_eq(b, pos, body, pos2, pos2 + tail.len() as int);
        assert(body.subrange(head.len() as int, body.len() as int) =~= tail);
        assert(b.subrange(pos2, pos2 + tail.len() as int) == tail);
        lemma_wire_round_trip_items(items, i + 1, b, pos2);
        assert(seq![items[i]] + items.subrange(i + 1, items.len() as int) =~= items.subrange(
            i,
            items.len() as int,
        ));
    }
}

/// Decoding well-placed canonical encodings of the entries from position
/// `i` on gives those entries back, keys and values, in order.
#[verifier::rlimit(60)]
proof fn lemma_wire_round_trip_entries(
    entries: Seq<(Seq<char>, DatumV)>,
    i: int,
    b: Seq<u8>,
    pos: int,
)
    requires
        0 <= i <= entries.len(),
        wire_faithful_entries(entries, i),
        wire_encode_entries(entries, i) is Some,
        0 <= pos,
        pos + wire_encode_entries(entries, i)->Some_0.len() <= b.len(),
        b.subrange(pos, pos + wire_encode_entries(entries, i)->Some_0.len() as int)
            == wire_encode_entries(entries, i)->Some_0,
    ensures
        wire_decode_entries(b, pos, (entries.len() - i) as nat) == Some(
            (
                entries.subrange(i, entries.len() as int),
                pos + wire_encode_entries(entries, i)->Some_0.len(),
            ),
        ),
    decreases entries, 1nat, entries.len() - i,
{
    let body = wire_encode_entries(entries, i)->Some_0;
    if i == entries.len() {
        assert(body =~= Seq::<u8>::empty());
        assert(entries.subrange(i, entries.len() as int) =~= Seq::<(Seq<char>, DatumV)>::empty());
    } else {
        let key = wire_encode_text(entries[i].0)->Some_0;
        let value = wire_encode(entries[i].1)->Some_0;
        let tail = wire_encode_entries(entries, i + 1)->Some_0;
        assert(body == key + value + tail);
        lemma_subrange_of_eq(b, pos, body, pos, pos + key.len() as int);
        assert(body.subrange(0, key.len() as int) =~= key);
        assert(b.subrange(pos, pos + key.len() as int) == key);
        lemma_wire_text_round_trip_at(entries[i].0, b, pos);
        let kend = pos + key.len() as int;
        lemma_subrange_of_eq(b, pos, body, kend, kend + value.len() as int);
        assert(body.subrange(key.len() as int, key.len() + value.len() as int) =~= value);
        assert(b.subrange(kend, kend + value.len() as int) == value);
        lemma_wire_round_trip_at(entries[i].1, b, kend);
        lemma_wire_encode_nonempty(entries[i].1);
        let vend = kend + value.len() as int;
        lemma_subrange_of_eq(b, pos, body, vend, vend + tail.len() as int);
        assert(body.subrange(key.len() + value.len() as int, body.len() as int) =~= tail);
        assert(b.subrange(vend, vend + tail.len() as int) == tail);
        lemma_wire_round_trip_entries(entries, i + 1, b, vend);
        assert(seq![(entries[i].0, entries[i].1)] + entries.subrange(i + 1, entries.len() as int)
            =~= entries.subrange(i, entries.len() as int));
    }
}

/// The one-entry error mapping sent back for a failed message.
pub fn error_payload(message: String) -> (d: Datum)
    ensures
        d@ == DatumV::Obj(seq![("error"@, DatumV::Str(message@))]),
{
    let mut entries: Vec<(String, Datum)> = Vec::new();
    entries.push((String::from_str("error"), Datum::String(message)));
    proof {
        lemma_view_entry_seq(entries@);
        assert(view_entry_seq(entries@) =~= seq![("error"@, DatumV::Str(message@))]);
    }
    Datum::Object(entries)
}

/// Wire-encoding a faithful value and decoding the bytes yields a value
/// equal to the original: the round trip holds for every variant except
/// decimals and parameters. A faithful value is decimal-free, so the
/// encoder's output is exactly this canonical encoding.
pub proof fn lemma_wire_round_trip(d: DatumV)
    requires
        wire_faithful(d),
        wire_encode(d) is Some,
    ensures
        wire_decode_value(wire_encode(d)->Some_0) == Some(d),
{
    let enc = wire_encode(d)->Some_0;
    assert(enc.subrange(0, enc.len() as int) =~= enc);
    lemma_wire_round_trip_at(d, enc, 0);
}

} // verus!
