//! The compact self-describing value encoding used by the metadata record.
//!
//! A marker byte selects the variant: 0 is a 64-bit big-endian float, 1 a
//! one-byte boolean, 2 a 16-bit length-prefixed string, 3 an ordered record
//! of key/value pairs ended by a zero-length key and an end marker, 5 and 6
//! are null, 8 is a record with a redundant leading count, and 0x0A an array
//! with a 32-bit count. Numbers are carried as the raw bits of their 64-bit
//! float so that the codec itself stays exact; strings are carried as their
//! UTF-8 bytes.
use vstd::prelude::*;

use crate::endian::{
    lemma_u16_round_trip, lemma_u32_round_trip, lemma_u64_round_trip, read_u16_be, read_u32_be,
    read_u64_be, push_u16_be, push_u32_be, push_u64_be, spec_u16_be, spec_u16_bytes, spec_u32_be,
    spec_u32_bytes, spec_u64_be, spec_u64_bytes,
};
use crate::FlvError;

verus! {

/// One structured value, as held by executable code.
#[derive(Debug, PartialEq)]
pub enum Amf0Value {
    /// The raw bits of a 64-bit big-endian float.
    Number(u64),
    Boolean(bool),
    /// UTF-8 bytes of a string of at most 65535 bytes.
    Str(Vec<u8>),
    /// Ordered key/value record; keys are nonempty strings.
    Object(Vec<(Vec<u8>, Amf0Value)>),
    Null,
    /// Ordered array.
    Array(Vec<Amf0Value>),
}

/// The mathematical image of a structured value.
pub enum Amf0Val {
    Number(u64),
    Boolean(bool),
    Str(Seq<u8>),
    Object(Seq<(Seq<u8>, Amf0Val)>),
    Null,
    Array(Seq<Amf0Val>),
}

/// The image of an executable value.
pub open spec fn spec_view_value(v: Amf0Value) -> Amf0Val
    decreases v,
{
    match v {
        Amf0Value::Number(b) => Amf0Val::Number(b),
        Amf0Value::Boolean(b) => Amf0Val::Boolean(b),
        Amf0Value::Str(s) => Amf0Val::Str(s@),
        Amf0Value::Object(entries) => Amf0Val::Object(spec_view_entries(entries@)),
        Amf0Value::Null => Amf0Val::Null,
        Amf0Value::Array(items) => Amf0Val::Array(spec_view_items(items@)),
    }
}

/// The image of a sequence of key/value pairs.
pub open spec fn spec_view_entries(es: Seq<(Vec<u8>, Amf0Value)>) -> Seq<(Seq<u8>, Amf0Val)>
    decreases es,
{
    if es.len() == 0 {
        Seq::empty()
    } else {
        seq![(es[0].0@, spec_view_value(es[0].1))] + spec_view_entries(es.drop_first())
    }
}

/// The image of a sequence of values.
pub open spec fn spec_view_items(items: Seq<Amf0Value>) -> Seq<Amf0Val>
    decreases items,
{
    if items.len() == 0 {
        Seq::empty()
    } else {
        seq![spec_view_value(items[0])] + spec_view_items(items.drop_first())
    }
}

impl View for Amf0Value {
    type V = Amf0Val;

    open spec fn view(&self) -> Amf0Val {
        spec_view_value(*self)
    }
}

/// Whether a value can be encoded: string and key lengths fit their 16-bit
/// length fields, keys are nonempty (a zero-length key would end the
/// record early), and array counts fit their 32-bit field.
pub open spec fn spec_valid_value(m: Amf0Val) -> bool
    decreases m,
{
    match m {
        Amf0Val::Number(_) => true,
        Amf0Val::Boolean(_) => true,
        Amf0Val::Str(s) => s.len() <= 0xFFFF,
        Amf0Val::Object(es) => spec_valid_entries(es),
        Amf0Val::Null => true,
        Amf0Val::Array(items) => items.len() <= 0xFFFFFFFF && spec_valid_items(items),
    }
}

/// Validity of every key and value of a record.
pub open spec fn spec_valid_entries(es: Seq<(Seq<u8>, Amf0Val)>) -> bool
    decreases es,
{
    if es.len() == 0 {
        true
    } else {
        1 <= es[0].0.len() <= 0xFFFF && spec_valid_value(es[0].1) && spec_valid_entries(
            es.drop_first(),
        )
    }
}

/// Validity of every element of an array.
pub open spec fn spec_valid_items(items: Seq<Amf0Val>) -> bool
    decreases items,
{
    if items.len() == 0 {
        true
    } else {
        spec_valid_value(items[0]) && spec_valid_items(items.drop_first())
    }
}

/// The bytes that encode a value.
pub open spec fn spec_ser_value(m: Amf0Val) -> Seq<u8>
    decreases m,
{
    match m {
        Amf0Val::Number(bits) => seq![0u8] + spec_u64_bytes(bits as int),
        Amf0Val::Boolean(b) => seq![
            1u8,
            if b {
                1u8
            } else {
                0u8
            },
        ],
        Amf0Val::Str(s) => seq![2u8] + spec_u16_bytes(s.len() as int) + s,
        Amf0Val::Object(es) => seq![3u8] + spec_ser_entries(es) + seq![0u8, 0u8, 9u8],
        Amf0Val::Null => seq![5u8],
        Amf0Val::Array(items) => seq![10u8] + spec_u32_bytes(items.len() as int) + spec_ser_items(
            items,
        ),
    }
}

/// The bytes that encode a record's entries, without the terminator.
pub open spec fn spec_ser_entries(es: Seq<(Seq<u8>, Amf0Val)>) -> Seq<u8>
    decreases es,
{
    if es.len() == 0 {
        Seq::empty()
    } else {
        spec_u16_bytes(es[0].0.len() as int) + es[0].0 + spec_ser_value(es[0].1)
            + spec_ser_entries(es.drop_first())
    }
}

/// The bytes that encode an array's elements.
pub open spec fn spec_ser_items(items: Seq<Amf0Val>) -> Seq<u8>
    decreases items,
{
    if items.len() == 0 {
        Seq::empty()
    } else {
        spec_ser_value(items[0]) + spec_ser_items(items.drop_first())
    }
}

/// Decode one value from the front of `s`: the decoded value and the number
/// of bytes consumed, or the error that the malformed front earns.
pub open spec fn spec_dec_value(s: Seq<u8>) -> Result<(Amf0Val, int), FlvError>
    decreases s.len(), 0int,
{
    if s.len() < 1 {
        Err(FlvError::Truncated)
    } else if s[0] == 0 {
        if s.len() < 9 {
            Err(FlvError::Truncated)
        } else {
            Ok((Amf0Val::Number(spec_u64_be(s.subrange(1, 9)) as u64), 9))
        }
    } else if s[0] == 1 {
        if s.len() < 2 {
            Err(FlvError::Truncated)
        } else {
            Ok((Amf0Val::Boolean(s[1] != 0), 2))
        }
    } else if s[0] == 2 {
        if s.len() < 3 {
            Err(FlvError::Truncated)
        } else {
            let l = spec_u16_be(s.subrange(1, 3));
            if 3 + l > s.len() {
                Err(FlvError::Truncated)
            } else {
                Ok((Amf0Val::Str(s.subrange(3, 3 + l)), 3 + l))
            }
        }
    } else if s[0] == 3 {
        match spec_dec_entries(s.skip(1)) {
            Ok((es, n)) => Ok((Amf0Val::Object(es), 1 + n)),
            Err(e) => Err(e),
        }
    } else if s[0] == 5 || s[0] == 6 {
        Ok((Amf0Val::Null, 1))
    } else if s[0] == 8 {
        if s.len() < 5 {
            Err(FlvError::Truncated)
        } else {
            match spec_dec_entries(s.skip(5)) {
                Ok((es, n)) => Ok((Amf0Val::Object(es), 5 + n)),
                Err(e) => Err(e),
            }
        }
    } else if s[0] == 10 {
        if s.len() < 5 {
            Err(FlvError::Truncated)
        } else {
            let c = spec_u32_be(s.subrange(1, 5));
            match spec_dec_items(s.skip(5), c as nat) {
                Ok((items, n)) => Ok((Amf0Val::Array(items), 5 + n)),
                Err(e) => Err(e),
            }
        }
    } else {
        Err(FlvError::UnknownMarker)
    }
}

/// Decode a record's entries from the front of `s`, up to and including the
/// zero-length key and end marker.
pub open spec fn spec_dec_entries(s: Seq<u8>) -> Result<(Seq<(Seq<u8>, Amf0Val)>, int), FlvError>
    decreases s.len(), 0int,
{
    if s.len() < 2 {
        Err(FlvError::Truncated)
    } else {
        let kl = spec_u16_be(s.subrange(0, 2));
        if kl == 0 {
            if s.len() < 3 {
                Err(FlvError::Truncated)
            } else if s[2] == 9 {
                Ok((Seq::empty(), 3))
            } else {
                Err(FlvError::UnknownMarker)
            }
        } else if 2 + kl > s.len() {
            Err(FlvError::Truncated)
        } else {
            let key = s.subrange(2, 2 + kl);
            match spec_dec_value(s.skip(2 + kl)) {
                Ok((v, n)) => if n < 1 || 2 + kl + n > s.len() {
                    Err(FlvError::Truncated)
                } else {
                    match spec_dec_entries(s.skip(2 + kl + n)) {
                        Ok((rest, m)) => Ok((seq![(key, v)] + rest, 2 + kl + n + m)),
                        Err(e) => Err(e),
                    }
                },
                Err(e) => Err(e),
            }
        }
    }
}

/// Decode `c` array elements from the front of `s`.
pub open spec fn spec_dec_items(s: Seq<u8>, c: nat) -> Result<(Seq<Amf0Val>, int), FlvError>
    decreases s.len(), c + 1,
{
    if c == 0 {
        Ok((Seq::empty(), 0))
    } else {
        match spec_dec_value(s) {
            Ok((v, n)) => if n < 1 || n > s.len() {
                Err(FlvError::Truncated)
            } else {
                match spec_dec_items(s.skip(n), (c - 1) as nat) {
                    Ok((rest, m)) => Ok((seq![v] + rest, n + m)),
                    Err(e) => Err(e),
                }
            },
            Err(e) => Err(e),
        }
    }
}

/// Every encoding starts with its marker byte, so it is never empty.
pub proof fn lemma_ser_value_len(m: Amf0Val)
    ensures
        spec_ser_value(m).len() >= 1,
{
}

/// Round trip of one value: decoding an encoded valid value, whatever
/// follows it, yields exactly that value and consumes exactly its encoding.
pub proof fn lemma_amf0_round_trip(m: Amf0Val, rest: Seq<u8>)
    requires
        spec_valid_value(m),
    ensures
        spec_dec_value(spec_ser_value(m) + rest) == Ok::<(Amf0Val, int), FlvError>(
            (m, spec_ser_value(m).len() as int),
        ),
    decreases m, 0int,
{
    let s = spec_ser_value(m) + rest;
    match m {
        Amf0Val::Number(bits) => {
            lemma_u64_round_trip(bits as int);
            assert(s.subrange(1, 9) =~= spec_u64_bytes(bits as int));
            assert(s[0] == 0);
        },
        Amf0Val::Boolean(b) => {
            assert(s[0] == 1);
            assert(s[1] == (if b {
                1u8
            } else {
                0u8
            }));
        },
        Amf0Val::Str(str0) => {
            lemma_u16_round_trip(str0.len() as int);
            assert(s[0] == 2);
            assert(s.subrange(1, 3) =~= spec_u16_bytes(str0.len() as int));
            assert(s.subrange(3, 3 + str0.len() as int) =~= str0);
        },
        Amf0Val::Object(es) => {
            assert(s[0] == 3);
            assert(s.skip(1) =~= spec_ser_entries(es) + seq![0u8, 0u8, 9u8] + rest);
            lemma_amf0_entries_round_trip(es, rest);
        },
        Amf0Val::Null => {
            assert(s[0] == 5);
        },
        Amf0Val::Array(items) => {
            assert(s[0] == 10);
            lemma_u32_round_trip(items.len() as int);
            assert(s.subrange(1, 5) =~= spec_u32_bytes(items.len() as int));
            assert(s.skip(5) =~= spec_ser_items(items) + rest);
            lemma_amf0_items_round_trip(items, rest);
        },
    }
}

/// Round trip of a record's entries, terminator included.
#[verifier::rlimit(100)]
pub proof fn lemma_amf0_entries_round_trip(es: Seq<(Seq<u8>, Amf0Val)>, rest: Seq<u8>)
    requires
        spec_valid_entries(es),
    ensures
        spec_dec_entries(spec_ser_entries(es) + seq![0u8, 0u8, 9u8] + rest) == Ok::<
            (Seq<(Seq<u8>, Amf0Val)>, int),
            FlvError,
        >((es, spec_ser_entries(es).len() + 3int)),
    decreases es, 1int,
{
    let s = spec_ser_entries(es) + seq![0u8, 0u8, 9u8] + rest;
    if es.len() == 0 {
        assert(spec_ser_entries(es) =~= Seq::<u8>::empty());
        assert(es =~= Seq::<(Seq<u8>, Amf0Val)>::empty());
        assert(s.subrange(0, 2) =~= seq![0u8, 0u8]);
        assert(spec_u16_be(s.subrange(0, 2)) == 0);
        assert(s[2] == 9);
    } else {
        let key = es[0].0;
        let v = es[0].1;
        let kl = key.len() as int;
        lemma_u16_round_trip(kl);
        assert(s.subrange(0, 2) =~= spec_u16_bytes(kl));
        assert(spec_u16_be(s.subrange(0, 2)) == kl);
        assert(s.subrange(2, 2 + kl) =~= key);
        let vser = spec_ser_value(v);
        let tail = spec_ser_entries(es.drop_first()) + seq![0u8, 0u8, 9u8] + rest;
        assert(s.skip(2 + kl) =~= vser + tail);
        lemma_amf0_round_trip(v, tail);
        lemma_ser_value_len(v);
        assert(s.skip(2 + kl + vser.len()) =~= tail);
        lemma_amf0_entries_round_trip(es.drop_first(), rest);
        assert(seq![(key, v)] + es.drop_first() =~= es);
    }
}

/// Round trip of an array's elements.
#[verifier::rlimit(100)]
pub proof fn lemma_amf0_items_round_trip(items: Seq<Amf0Val>, rest: Seq<u8>)
    requires
        spec_valid_items(items),
    ensures
        spec_dec_items(spec_ser_items(items) + rest, items.len() as nat) == Ok::<
            (Seq<Amf0Val>, int),
            FlvError,
        >((items, spec_ser_items(items).len() as int)),
    decreases items, 1int,
{
    let s = spec_ser_items(items) + rest;
    if items.len() == 0 {
        assert(spec_ser_items(items) =~= Seq::<u8>::empty());
        assert(items =~= Seq::<Amf0Val>::empty());
    } else {
        let v = items[0];
        let vser = spec_ser_value(v);
        let tail = spec_ser_items(items.drop_first()) + rest;
        assert(s =~= vser + tail);
        lemma_amf0_round_trip(v, tail);
        lemma_ser_value_len(v);
        assert(s.skip(vser.len() as int) =~= tail);
        lemma_amf0_items_round_trip(items.drop_first(), rest);
        assert(seq![v] + items.drop_first() =~= items);
    }
}

/// Consumed-byte bounds of the value decoder: a decoded value takes at least
/// its marker byte and never more than the input.
pub proof fn lemma_dec_value_bounds(s: Seq<u8>)
    ensures
        spec_dec_value(s) matches Ok((m, n)) ==> 1 <= n <= s.len(),
    decreases s.len(), 0int,
{
    if s.len() >= 1 {
        if s[0] == 3 {
            lemma_dec_entries_bounds(s.skip(1));
        } else if s[0] == 8 {
            if s.len() >= 5 {
                lemma_dec_entries_bounds(s.skip(5));
            }
        } else if s[0] == 10 {
            if s.len() >= 5 {
                let c = spec_u32_be(s.subrange(1, 5));
                lemma_dec_items_bounds(s.skip(5), c as nat);
            }
        }
    }
}

/// Consumed-byte bounds of the record decoder: at least the terminator.
pub proof fn lemma_dec_entries_bounds(s: Seq<u8>)
    ensures
        spec_dec_entries(s) matches Ok((es, n)) ==> 3 <= n <= s.len(),
    decreases s.len(), 1int,
{
    if s.len() >= 2 {
        let kl = spec_u16_be(s.subrange(0, 2));
        if kl != 0 && 2 + kl <= s.len() {
            lemma_dec_value_bounds(s.skip(2 + kl));
            match spec_dec_value(s.skip(2 + kl)) {
                Ok((v, n)) => {
                    if 1 <= n && 2 + kl + n <= s.len() {
                        lemma_dec_entries_bounds(s.skip(2 + kl + n));
                    }
                },
                Err(_) => {},
            }
        }
    }
}

/// Consumed-byte bounds of the element decoder.
pub proof fn lemma_dec_items_bounds(s: Seq<u8>, c: nat)
    ensures
        spec_dec_items(s, c) matches Ok((items, n)) ==> 0 <= n <= s.len(),
    decreases s.len(), c + 1,
{
    if c > 0 {
        lemma_dec_value_bounds(s);
        match spec_dec_value(s) {
            Ok((v, n)) => {
                if 1 <= n && n <= s.len() {
                    lemma_dec_items_bounds(s.skip(n), (c - 1) as nat);
                }
            },
            Err(_) => {},
        }
    }
}

/// The image of a value sequence, element by element.
pub proof fn lemma_view_items_index(items: Seq<Amf0Value>)
    ensures
        spec_view_items(items).len() == items.len(),
        forall|i: int|
            0 <= i < items.len() ==> #[trigger] spec_view_items(items)[i] == items[i]@,
    decreases items,
{
    if items.len() > 0 {
        lemma_view_items_index(items.drop_first());
    }
}

/// The image of an entry sequence, element by element.
pub proof fn lemma_view_entries_index(es: Seq<(Vec<u8>, Amf0Value)>)
    ensures
        spec_view_entries(es).len() == es.len(),
        forall|i: int|
            0 <= i < es.len() ==> #[trigger] spec_view_entries(es)[i] == (es[i].0@, es[i].1@),
    decreases es,
{
    if es.len() > 0 {
        lemma_view_entries_index(es.drop_first());
    }
}

/// Appending one value appends its image.
pub proof fn lemma_view_items_push(items: Seq<Amf0Value>, v: Amf0Value)
    ensures
        spec_view_items(items.push(v)) == spec_view_items(items).push(v@),
    decreases items,
{
    reveal_with_fuel(spec_view_items, 2);
    if items.len() == 0 {
        assert(items.push(v).drop_first() =~= Seq::<Amf0Value>::empty());
        assert(spec_view_items(items.push(v)) =~= spec_view_items(items).push(v@));
    } else {
        assert(items.push(v)[0] == items[0]);
        assert(items.push(v).drop_first() =~= items.drop_first().push(v));
        lemma_view_items_push(items.drop_first(), v);
        assert(spec_view_items(items.push(v)) =~= spec_view_items(items).push(v@));
    }
}

/// Appending one entry appends its image.
pub proof fn lemma_view_entries_push(es: Seq<(Vec<u8>, Amf0Value)>, k: Vec<u8>, v: Amf0Value)
    ensures
        spec_view_entries(es.push((k, v))) == spec_view_entries(es).push((k@, v@)),
    decreases es,
{
    reveal_with_fuel(spec_view_entries, 2);
    if es.len() == 0 {
        assert(es.push((k, v)).drop_first() =~= Seq::<(Vec<u8>, Amf0Value)>::empty());
        assert(spec_view_entries(es.push((k, v))) =~= spec_view_entries(es).push((k@, v@)));
    } else {
        assert(es.push((k, v))[0] == es[0]);
        assert(es.push((k, v)).drop_first() =~= es.drop_first().push((k, v)));
        lemma_view_entries_push(es.drop_first(), k, v);
        assert(spec_view_entries(es.push((k, v))) =~= spec_view_entries(es).push((k@, v@)));
    }
}

/// Read `len` raw bytes at `pos`: the body of a string or key.
pub fn read_amf0_raw_string(data: &Vec<u8>, pos: usize, len: usize) -> (r: Result<
    (Vec<u8>, usize),
    FlvError,
>)
    requires
        pos <= data@.len(),
    ensures
        pos + len <= data@.len() ==> (r matches Ok((b, np)) && b@ == data@.subrange(
            pos as int,
            pos + len,
        ) && np == pos + len),
        pos + len > data@.len() ==> r == Err::<(Vec<u8>, usize), FlvError>(FlvError::Truncated),
{
    let n = data.len();
    if n - pos < len {
        return Err(FlvError::Truncated);
    }
    let mut buf: Vec<u8> = Vec::new();
    let mut i: usize = 0;
    while i < len
        invariant
            i <= len,
            pos + len <= n,
            n == data@.len(),
            buf@ =~= data@.subrange(pos as int, pos + i),
        decreases len - i,
    {
        buf.push(data[pos + i]);
        proof {
            assert(buf@ =~= data@.subrange(pos as int, pos + i + 1));
        }
        i = i + 1;
    }
    Ok((buf, pos + len))
}

/// Read a number body (the eight bytes after its marker).
pub fn read_amf0_number(data: &Vec<u8>, pos: usize) -> (r: Result<(Amf0Value, usize), FlvError>)
    requires
        pos <= data@.len(),
    ensures
        pos + 8 <= data@.len() ==> (r matches Ok((v, np)) && v@ == Amf0Val::Number(
            spec_u64_be(data@.subrange(pos as int, pos + 8)) as u64,
        ) && np == pos + 8),
        pos + 8 > data@.len() ==> r == Err::<(Amf0Value, usize), FlvError>(FlvError::Truncated),
{
    let n = data.len();
    if n - pos < 8 {
        return Err(FlvError::Truncated);
    }
    let bits = read_u64_be(data, pos);
    Ok((Amf0Value::Number(bits), pos + 8))
}

/// Read a boolean body (the byte after its marker).
pub fn read_amf0_boolean(data: &Vec<u8>, pos: usize) -> (r: Result<(Amf0Value, usize), FlvError>)
    requires
        pos <= data@.len(),
    ensures
        pos + 1 <= data@.len() ==> (r matches Ok((v, np)) && v@ == Amf0Val::Boolean(
            data@[pos as int] != 0,
        ) && np == pos + 1),
        pos + 1 > data@.len() ==> r == Err::<(Amf0Value, usize), FlvError>(FlvError::Truncated),
{
    let n = data.len();
    if n - pos < 1 {
        return Err(FlvError::Truncated);
    }
    Ok((Amf0Value::Boolean(data[pos] != 0), pos + 1))
}

/// Read a string body (length field and bytes after the marker).
pub fn read_amf0_string(data: &Vec<u8>, pos: usize) -> (r: Result<(Amf0Value, usize), FlvError>)
    requires
        pos <= data@.len(),
    ensures
        ({
            let s = data@.skip(pos as int);
            if s.len() < 2 {
                r == Err::<(Amf0Value, usize), FlvError>(FlvError::Truncated)
            } else {
                let l = spec_u16_be(s.subrange(0, 2));
                if 2 + l > s.len() {
                    r == Err::<(Amf0Value, usize), FlvError>(FlvError::Truncated)
                } else {
                    r matches Ok((v, np)) && v@ == Amf0Val::Str(s.subrange(2, 2 + l)) && np == pos
                        + 2 + l
                }
            }
        }),
{
    let n = data.len();
    if n - pos < 2 {
        return Err(FlvError::Truncated);
    }
    let l = read_u16_be(data, pos) as usize;
    proof {
        assert(data@.skip(pos as int).subrange(0, 2) =~= data@.subrange(pos as int, pos + 2));
    }
    match read_amf0_raw_string(data, pos + 2, l) {
        Ok((b, np)) => {
            proof {
                assert(data@.skip(pos as int).subrange(2, 2 + l as int) =~= data@.subrange(
                    pos + 2,
                    pos + 2 + l,
                ));
            }
            Ok((Amf0Value::Str(b), np))
        },
        Err(e) => Err(e),
    }
}


/// Decode a record's entries at `pos`, up to and including the terminator,
/// into an ordered key/value record.
pub fn read_amf0_object(data: &Vec<u8>, pos: usize) -> (r: Result<(Amf0Value, usize), FlvError>)
    requires
        pos <= data@.len(),
    ensures
        match spec_dec_entries(data@.skip(pos as int)) {
            Ok((es, n)) => r matches Ok(p) && p.0@ == Amf0Val::Object(es) && p.1 == pos + n,
            Err(e) => r == Err::<(Amf0Value, usize), FlvError>(e),
        },
    decreases data@.len() - pos, 1int,
{
    let n = data.len();
    let mut entries: Vec<(Vec<u8>, Amf0Value)> = Vec::new();
    let mut cur: usize = pos;
    proof {
        assert(spec_view_entries(entries@) =~= Seq::<(Seq<u8>, Amf0Val)>::empty());
    }
    loop
        invariant
            pos <= cur <= n,
            n == data@.len(),
            spec_dec_entries(data@.skip(pos as int)) == (match spec_dec_entries(
                data@.skip(cur as int),
            ) {
                Ok((rest, m)) => Ok::<(Seq<(Seq<u8>, Amf0Val)>, int), FlvError>(
                    (spec_view_entries(entries@) + rest, (cur - pos) + m),
                ),
                Err(e) => Err(e),
            }),
        decreases n - cur,
    {
        if n - cur < 2 {
            return Err(FlvError::Truncated);
        }
        let kl = read_u16_be(data, cur) as usize;
        proof {
            assert(data@.skip(cur as int).subrange(0, 2) =~= data@.subrange(cur as int, cur + 2));
        }
        if kl == 0 {
            if n - cur < 3 {
                return Err(FlvError::Truncated);
            }
            proof {
                assert(data@.skip(cur as int)[2] == data@[cur + 2]);
            }
            if data[cur + 2] == 9 {
                proof {
                    assert(spec_view_entries(entries@) + Seq::<(Seq<u8>, Amf0Val)>::empty()
                        =~= spec_view_entries(entries@));
                }
                return Ok((Amf0Value::Object(entries), cur + 3));
            } else {
                return Err(FlvError::UnknownMarker);
            }
        }
        if n - cur - 2 < kl {
            return Err(FlvError::Truncated);
        }
        let key = match read_amf0_raw_string(data, cur + 2, kl) {
            Ok(p) => p.0,
            Err(e) => {
                return Err(e);
            },
        };
        proof {
            assert(data@.skip(cur as int).subrange(2, 2 + kl as int) =~= data@.subrange(
                cur + 2,
                cur + 2 + kl,
            ));
            assert(data@.skip(cur as int).skip(2 + kl as int) =~= data@.skip(cur + 2 + kl));
            lemma_dec_value_bounds(data@.skip(cur + 2 + kl));
        }
        match read_amf0_value(data, cur + 2 + kl) {
            Ok((v, np)) => {
                let ghost olde = entries@;
                let ghost keyv = key@;
                let ghost vv = v@;
                let ghost oldcur = cur as int;
                entries.push((key, v));
                proof {
                    assert(entries@ =~= olde.push((entries@[olde.len() as int])));
                    lemma_view_entries_push(
                        olde,
                        entries@[olde.len() as int].0,
                        entries@[olde.len() as int].1,
                    );
                    assert(entries@[olde.len() as int].0@ == keyv);
                    assert(entries@[olde.len() as int].1@ == vv);
                    assert(spec_view_entries(entries@) =~= spec_view_entries(olde).push(
                        (keyv, vv),
                    ));
                }
                cur = np;
                proof {
                    assert(data@.skip(oldcur).skip(cur - oldcur) =~= data@.skip(cur as int));
                    assert(data@.skip(oldcur).skip(2 + kl as int) =~= data@.skip(
                        oldcur + 2 + kl,
                    ));
                    match spec_dec_entries(data@.skip(cur as int)) {
                        Ok((rest, m)) => {
                            assert(spec_view_entries(olde).push((keyv, vv)) + rest
                                =~= spec_view_entries(olde) + (seq![(keyv, vv)] + rest));
                        },
                        Err(_) => {},
                    }
                }
            },
            Err(e) => {
                return Err(e);
            },
        }
    }
}

/// Decode a record that carries a redundant leading element count: the count
/// is read and discarded, the body is an ordinary record.
pub fn read_amf0_ecma_array(data: &Vec<u8>, pos: usize) -> (r: Result<
    (Amf0Value, usize),
    FlvError,
>)
    requires
        pos <= data@.len(),
    ensures
        pos + 4 > data@.len() ==> r == Err::<(Amf0Value, usize), FlvError>(FlvError::Truncated),
        pos + 4 <= data@.len() ==> match spec_dec_entries(data@.skip(pos + 4)) {
            Ok((es, n)) => r matches Ok(p) && p.0@ == Amf0Val::Object(es) && p.1 == pos + 4 + n,
            Err(e) => r == Err::<(Amf0Value, usize), FlvError>(e),
        },
    decreases data@.len() - pos, 2int,
{
    let n = data.len();
    if n - pos < 4 {
        return Err(FlvError::Truncated);
    }
    let _count = read_u32_be(data, pos);
    read_amf0_object(data, pos + 4)
}

/// Decode an array body: a 32-bit element count, then that many values.
pub fn read_amf0_strict_array(data: &Vec<u8>, pos: usize) -> (r: Result<
    (Amf0Value, usize),
    FlvError,
>)
    requires
        pos <= data@.len(),
    ensures
        pos + 4 > data@.len() ==> r == Err::<(Amf0Value, usize), FlvError>(FlvError::Truncated),
        pos + 4 <= data@.len() ==> ({
            let c = spec_u32_be(data@.subrange(pos as int, pos + 4));
            match spec_dec_items(data@.skip(pos + 4), c as nat) {
                Ok((items, n)) => r matches Ok(p) && p.0@ == Amf0Val::Array(items) && p.1 == pos
                    + 4 + n,
                Err(e) => r == Err::<(Amf0Value, usize), FlvError>(e),
            }
        }),
    decreases data@.len() - pos, 2int,
{
    let n = data.len();
    if n - pos < 4 {
        return Err(FlvError::Truncated);
    }
    let c = read_u32_be(data, pos);
    let mut items: Vec<Amf0Value> = Vec::new();
    let mut cur: usize = pos + 4;
    let mut j: u32 = 0;
    proof {
        assert(spec_view_items(items@) =~= Seq::<Amf0Val>::empty());
    }
    while j < c
        invariant
            pos + 4 <= cur <= n,
            n == data@.len(),
            j <= c,
            j == items@.len(),
            c == spec_u32_be(data@.subrange(pos as int, pos + 4)),
            spec_dec_items(data@.skip(pos + 4), c as nat) == (match spec_dec_items(
                data@.skip(cur as int),
                (c - j) as nat,
            ) {
                Ok((rest, m)) => Ok::<(Seq<Amf0Val>, int), FlvError>(
                    (spec_view_items(items@) + rest, (cur - pos - 4) + m),
                ),
                Err(e) => Err(e),
            }),
        decreases c - j,
    {
        proof {
            lemma_dec_value_bounds(data@.skip(cur as int));
        }
        match read_amf0_value(data, cur) {
            Ok((v, np)) => {
                let ghost oldi = items@;
                let ghost vv = v@;
                let ghost oldcur = cur as int;
                items.push(v);
                proof {
                    assert(items@ =~= oldi.push(items@[oldi.len() as int]));
                    lemma_view_items_push(oldi, items@[oldi.len() as int]);
                    assert(items@[oldi.len() as int]@ == vv);
                    assert(spec_view_items(items@) =~= spec_view_items(oldi).push(vv));
                }
                cur = np;
                j = j + 1;
                proof {
                    assert(data@.skip(oldcur).skip(cur - oldcur) =~= data@.skip(cur as int));
                    match spec_dec_items(data@.skip(cur as int), (c - j) as nat) {
                        Ok((rest, m)) => {
                            assert(spec_view_items(oldi).push(vv) + rest =~= spec_view_items(oldi)
                                + (seq![vv] + rest));
                        },
                        Err(_) => {},
                    }
                }
            },
            Err(e) => {
                return Err(e);
            },
        }
    }
    Ok((Amf0Value::Array(items), cur))
}

/// Decode one value at `pos`, dispatching on the marker byte.
pub fn read_amf0_value(data: &Vec<u8>, pos: usize) -> (r: Result<(Amf0Value, usize), FlvError>)
    requires
        pos <= data@.len(),
    ensures
        match spec_dec_value(data@.skip(pos as int)) {
            Ok((m, n)) => r matches Ok(p) && p.0@ == m && p.1 == pos + n,
            Err(e) => r == Err::<(Amf0Value, usize), FlvError>(e),
        },
    decreases data@.len() - pos, 0int,
{
    let n = data.len();
    if n == pos {
        return Err(FlvError::Truncated);
    }
    let ghost s = data@.skip(pos as int);
    proof {
        assert(s[0] == data@[pos as int]);
    }
    let marker = data[pos];
    if marker == 0 {
        proof {
            if pos + 9 <= n {
                assert(s.subrange(1, 9) =~= data@.subrange(pos + 1, pos + 9));
            }
        }
        read_amf0_number(data, pos + 1)
    } else if marker == 1 {
        proof {
            if pos + 2 <= n {
                assert(s[1] == data@[pos + 1]);
            }
        }
        read_amf0_boolean(data, pos + 1)
    } else if marker == 2 {
        proof {
            assert(data@.skip(pos + 1) =~= s.skip(1));
            if s.len() >= 3 {
                assert(data@.skip(pos + 1).subrange(0, 2) =~= s.subrange(1, 3));
                let l = spec_u16_be(s.subrange(1, 3));
                if 3 + l <= s.len() {
                    assert(data@.skip(pos + 1).subrange(2, 2 + l) =~= s.subrange(3, 3 + l));
                }
            }
        }
        read_amf0_string(data, pos + 1)
    } else if marker == 3 {
        proof {
            assert(data@.skip(pos + 1) =~= s.skip(1));
        }
        read_amf0_object(data, pos + 1)
    } else if marker == 5 || marker == 6 {
        Ok((Amf0Value::Null, pos + 1))
    } else if marker == 8 {
        if n - pos < 5 {
            return Err(FlvError::Truncated);
        }
        proof {
            assert(data@.skip(pos + 1 + 4) =~= s.skip(5));
        }
        read_amf0_ecma_array(data, pos + 1)
    } else if marker == 10 {
        if n - pos < 5 {
            return Err(FlvError::Truncated);
        }
        proof {
            assert(data@.subrange(pos + 1, pos + 1 + 4) =~= s.subrange(1, 5));
            assert(data@.skip(pos + 1 + 4) =~= s.skip(5));
        }
        read_amf0_strict_array(data, pos + 1)
    } else {
        Err(FlvError::UnknownMarker)
    }
}


/// Element access into entry validity.
pub proof fn lemma_valid_entries_index(es: Seq<(Seq<u8>, Amf0Val)>, i: int)
    requires
        spec_valid_entries(es),
        0 <= i < es.len(),
    ensures
        1 <= es[i].0.len() <= 0xFFFF,
        spec_valid_value(es[i].1),
    decreases es.len(),
{
    if i > 0 {
        lemma_valid_entries_index(es.drop_first(), i - 1);
        assert(es.drop_first()[i - 1] == es[i]);
    }
}

/// Element access into array validity.
pub proof fn lemma_valid_items_index(items: Seq<Amf0Val>, i: int)
    requires
        spec_valid_items(items),
        0 <= i < items.len(),
    ensures
        spec_valid_value(items[i]),
    decreases items.len(),
{
    if i > 0 {
        lemma_valid_items_index(items.drop_first(), i - 1);
        assert(items.drop_first()[i - 1] == items[i]);
    }
}

/// One step of the entry encoding, read off at index `i`.
pub proof fn lemma_ser_entries_skip(es: Seq<(Seq<u8>, Amf0Val)>, i: int)
    requires
        0 <= i < es.len(),
    ensures
        spec_ser_entries(es.skip(i)) == spec_u16_bytes(es[i].0.len() as int) + es[i].0
            + spec_ser_value(es[i].1) + spec_ser_entries(es.skip(i + 1)),
{
    assert(es.skip(i)[0] == es[i]);
    assert(es.skip(i).drop_first() =~= es.skip(i + 1));
}

/// One step of the element encoding, read off at index `i`.
pub proof fn lemma_ser_items_skip(items: Seq<Amf0Val>, i: int)
    requires
        0 <= i < items.len(),
    ensures
        spec_ser_items(items.skip(i)) == spec_ser_value(items[i]) + spec_ser_items(
            items.skip(i + 1),
        ),
{
    assert(items.skip(i)[0] == items[i]);
    assert(items.skip(i).drop_first() =~= items.skip(i + 1));
}

/// Append a number: marker and the eight bytes of the float's bits.
pub fn write_amf0_number(out: &mut Vec<u8>, bits: u64)
    ensures
        final(out)@ == old(out)@ + spec_ser_value(Amf0Val::Number(bits)),
{
    out.push(0);
    push_u64_be(out, bits);
    proof {
        assert(final(out)@ =~= old(out)@ + spec_ser_value(Amf0Val::Number(bits)));
    }
}

/// Append a boolean: marker and one byte.
pub fn write_amf0_boolean(out: &mut Vec<u8>, b: bool)
    ensures
        final(out)@ == old(out)@ + spec_ser_value(Amf0Val::Boolean(b)),
{
    out.push(1);
    out.push(
        if b {
            1
        } else {
            0
        },
    );
    proof {
        assert(final(out)@ =~= old(out)@ + spec_ser_value(Amf0Val::Boolean(b)));
    }
}

/// Append the null marker.
pub fn write_amf0_null(out: &mut Vec<u8>)
    ensures
        final(out)@ == old(out)@ + spec_ser_value(Amf0Val::Null),
{
    out.push(5);
    proof {
        assert(final(out)@ =~= old(out)@ + spec_ser_value(Amf0Val::Null));
    }
}

/// Append a length-prefixed string body, without a marker.
pub fn write_amf0_raw_string(out: &mut Vec<u8>, s: &Vec<u8>)
    requires
        s@.len() <= 0xFFFF,
    ensures
        final(out)@ == old(out)@ + spec_u16_bytes(s@.len() as int) + s@,
{
    push_u16_be(out, s.len() as u16);
    let ghost mid = out@;
    let n = s.len();
    let mut i: usize = 0;
    while i < n
        invariant
            i <= n,
            n == s@.len(),
            out@ =~= mid + s@.subrange(0, i as int),
        decreases n - i,
    {
        out.push(s[i]);
        proof {
            assert(out@ =~= mid + s@.subrange(0, i + 1));
        }
        i = i + 1;
    }
    proof {
        assert(s@.subrange(0, n as int) =~= s@);
        assert(final(out)@ =~= old(out)@ + spec_u16_bytes(s@.len() as int) + s@);
    }
}

/// Append a string: marker, length field, bytes.
pub fn write_amf0_string(out: &mut Vec<u8>, s: &Vec<u8>)
    requires
        s@.len() <= 0xFFFF,
    ensures
        final(out)@ == old(out)@ + spec_ser_value(Amf0Val::Str(s@)),
{
    out.push(2);
    write_amf0_raw_string(out, s);
    proof {
        assert(final(out)@ =~= old(out)@ + spec_ser_value(Amf0Val::Str(s@)));
    }
}

/// Append a record: marker, each key and value in order, and the
/// terminating zero-length key and end marker.
pub fn write_amf0_object(out: &mut Vec<u8>, es: &Vec<(Vec<u8>, Amf0Value)>)
    requires
        spec_valid_entries(spec_view_entries(es@)),
    ensures
        final(out)@ == old(out)@ + spec_ser_value(Amf0Val::Object(spec_view_entries(es@))),
    decreases es@,
{
    let ghost viewes = spec_view_entries(es@);
    proof {
        lemma_view_entries_index(es@);
    }
    out.push(3);
    let n = es.len();
    let mut i: usize = 0;
    proof {
        assert(viewes.skip(0) =~= viewes);
    }
    while i < n
        invariant
            i <= n,
            n == es@.len(),
            viewes == spec_view_entries(es@),
            viewes.len() == n,
            spec_valid_entries(viewes),
            forall|k: int| 0 <= k < n ==> #[trigger] viewes[k] == (es@[k].0@, es@[k].1@),
            out@ + spec_ser_entries(viewes.skip(i as int)) == old(out)@ + seq![3u8]
                + spec_ser_entries(viewes),
        decreases n - i,
    {
        proof {
            lemma_valid_entries_index(viewes, i as int);
            lemma_ser_entries_skip(viewes, i as int);
        }
        let ghost before = out@;
        write_amf0_raw_string(out, &es[i].0);
        write_amf0_value(out, &es[i].1);
        proof {
            assert(out@ + spec_ser_entries(viewes.skip(i + 1)) =~= before + spec_ser_entries(
                viewes.skip(i as int),
            ));
        }
        i = i + 1;
    }
    out.push(0);
    out.push(0);
    out.push(9);
    proof {
        assert(spec_ser_entries(viewes.skip(n as int)) =~= Seq::<u8>::empty());
        assert(final(out)@ =~= old(out)@ + spec_ser_value(Amf0Val::Object(viewes)));
    }
}

/// Append an array: marker, 32-bit element count, then each element.
pub fn write_amf0_strict_array(out: &mut Vec<u8>, items: &Vec<Amf0Value>)
    requires
        spec_valid_items(spec_view_items(items@)),
        items@.len() <= 0xFFFFFFFF,
    ensures
        final(out)@ == old(out)@ + spec_ser_value(Amf0Val::Array(spec_view_items(items@))),
    decreases items@,
{
    let ghost viewi = spec_view_items(items@);
    proof {
        lemma_view_items_index(items@);
    }
    out.push(10);
    push_u32_be(out, items.len() as u32);
    let n = items.len();
    let mut i: usize = 0;
    proof {
        assert(viewi.skip(0) =~= viewi);
    }
    while i < n
        invariant
            i <= n,
            n == items@.len(),
            viewi == spec_view_items(items@),
            viewi.len() == n,
            spec_valid_items(viewi),
            forall|k: int| 0 <= k < n ==> #[trigger] viewi[k] == items@[k]@,
            out@ + spec_ser_items(viewi.skip(i as int)) == old(out)@ + seq![10u8]
                + spec_u32_bytes(n as int) + spec_ser_items(viewi),
        decreases n - i,
    {
        proof {
            lemma_valid_items_index(viewi, i as int);
            lemma_ser_items_skip(viewi, i as int);
        }
        let ghost before = out@;
        write_amf0_value(out, &items[i]);
        proof {
            assert(out@ + spec_ser_items(viewi.skip(i + 1)) =~= before + spec_ser_items(
                viewi.skip(i as int),
            ));
        }
        i = i + 1;
    }
    proof {
        assert(spec_ser_items(viewi.skip(n as int)) =~= Seq::<u8>::empty());
        assert(final(out)@ =~= old(out)@ + spec_ser_value(Amf0Val::Array(viewi)));
    }
}

/// Append one value, whichever variant it is.
pub fn write_amf0_value(out: &mut Vec<u8>, v: &Amf0Value)
    requires
        spec_valid_value(v@),
    ensures
        final(out)@ == old(out)@ + spec_ser_value(v@),
    decreases *v,
{
    match v {
        Amf0Value::Number(bits) => {
            write_amf0_number(out, *bits);
        },
        Amf0Value::Boolean(b) => {
            write_amf0_boolean(out, *b);
        },
        Amf0Value::Str(s) => {
            write_amf0_string(out, s);
        },
        Amf0Value::Object(es) => {
            write_amf0_object(out, es);
        },
        Amf0Value::Null => {
            write_amf0_null(out);
        },
        Amf0Value::Array(items) => {
            proof {
                lemma_view_items_index(items@);
            }
            write_amf0_strict_array(out, items);
        },
    }
}


impl crate::tag::FLVTag {
    /// Decode the two structured values of a metadata record: the event name
    /// and the information record.
    pub fn get_objects(&self) -> (r: Result<Vec<Amf0Value>, FlvError>)
        requires
            self.wf(),
            self@[0] == 18,
        ensures
            match spec_dec_value(self@.skip(11)) {
                Ok((m0, n0)) => match spec_dec_value(self@.skip(11 + n0)) {
                    Ok((m1, n1)) => r matches Ok(v) && v@.len() == 2 && v@[0]@ == m0 && v@[1]@
                        == m1,
                    Err(e) => r == Err::<Vec<Amf0Value>, FlvError>(e),
                },
                Err(e) => r == Err::<Vec<Amf0Value>, FlvError>(e),
            },
    {
        proof {
            lemma_dec_value_bounds(self@.skip(11));
        }
        let (v0, p1) = match read_amf0_value(self.raw(), 11) {
            Ok(p) => p,
            Err(e) => {
                return Err(e);
            },
        };
        proof {
            assert(self@.skip(11).skip(p1 - 11) =~= self@.skip(p1 as int));
        }
        let (v1, _p2) = match read_amf0_value(self.raw(), p1) {
            Ok(p) => p,
            Err(e) => {
                return Err(e);
            },
        };
        let mut v: Vec<Amf0Value> = Vec::new();
        v.push(v0);
        v.push(v1);
        Ok(v)
    }

    /// Re-encode a metadata record's body from two structured values,
    /// rewriting the payload and its size field in place; a body too large
    /// for the 24-bit size field is refused and the record left unchanged.
    pub fn set_objects(&mut self, vec: &Vec<Amf0Value>) -> (r: Result<(), FlvError>)
        requires
            old(self).wf(),
            old(self)@[0] == 18,
            vec@.len() >= 2,
            spec_valid_value(vec@[0]@),
            spec_valid_value(vec@[1]@),
        ensures
            spec_ser_value(vec@[0]@).len() + spec_ser_value(vec@[1]@).len() > 0xFFFFFF ==> (r
                == Err::<(), FlvError>(FlvError::BadPlan) && final(self)@ == old(self)@),
            spec_ser_value(vec@[0]@).len() + spec_ser_value(vec@[1]@).len() <= 0xFFFFFF ==> (r
                == Ok::<(), FlvError>(()) && final(self)@ == old(self)@.subrange(0, 1)
                + crate::endian::spec_u24_bytes(
                spec_ser_value(vec@[0]@).len() + spec_ser_value(vec@[1]@).len() as int,
            ) + old(self)@.subrange(4, 11) + spec_ser_value(vec@[0]@) + spec_ser_value(vec@[1]@)
                && final(self).wf() && crate::tag::spec_data_size(final(self)@) == spec_ser_value(
                vec@[0]@,
            ).len() + spec_ser_value(vec@[1]@).len() && crate::tag::spec_timestamp(final(self)@)
                == crate::tag::spec_timestamp(old(self)@)),
    {
        let mut buf: Vec<u8> = Vec::new();
        let mut i: usize = 0;
        while i < 11
            invariant
                i <= 11,
                old(self).wf(),
                *self == *old(self),
                buf@ =~= self@.subrange(0, i as int),
            decreases 11 - i,
        {
            buf.push(self.raw()[i]);
            proof {
                assert(buf@ =~= self@.subrange(0, i + 1));
            }
            i = i + 1;
        }
        write_amf0_value(&mut buf, &vec[0]);
        write_amf0_value(&mut buf, &vec[1]);
        if buf.len() - 11 > 0xFFFFFF {
            return Err(FlvError::BadPlan);
        }
        let ds = (buf.len() - 11) as u32;
        self.set_raw(buf);
        self.set_data_size(ds);
        proof {
            let ser0 = spec_ser_value(vec@[0]@);
            let ser1 = spec_ser_value(vec@[1]@);
            assert(final(self)@ =~= old(self)@.subrange(0, 1) + crate::endian::spec_u24_bytes(
                ser0.len() + ser1.len() as int,
            ) + old(self)@.subrange(4, 11) + ser0 + ser1);
            assert(final(self)@.subrange(1, 4) =~= crate::endian::spec_u24_bytes(
                ser0.len() + ser1.len() as int,
            ));
        }
        Ok(())
    }
}


/// Byte-sequence equality of two keys.
pub fn bytes_eq(a: &Vec<u8>, b: &Vec<u8>) -> (r: bool)
    ensures
        r == (a@ == b@),
{
    if a.len() != b.len() {
        proof {
            assert(a@.len() != b@.len());
        }
        return false;
    }
    let n = a.len();
    let mut i: usize = 0;
    while i < n
        invariant
            i <= n,
            n == a@.len(),
            n == b@.len(),
            forall|k: int| 0 <= k < i ==> a@[k] == b@[k],
        decreases n - i,
    {
        if a[i] != b[i] {
            return false;
        }
        i = i + 1;
    }
    proof {
        assert(a@ =~= b@);
    }
    true
}

/// Replace the value of `key` in an entry list, or append the pair when the
/// key is absent; the first occurrence wins, order is kept.
pub open spec fn spec_obj_insert(
    es: Seq<(Seq<u8>, Amf0Val)>,
    key: Seq<u8>,
    value: Amf0Val,
) -> Seq<(Seq<u8>, Amf0Val)>
    decreases es.len(),
{
    if es.len() == 0 {
        seq![(key, value)]
    } else if es[0].0 == key {
        seq![(key, value)] + es.drop_first()
    } else {
        seq![es[0]] + spec_obj_insert(es.drop_first(), key, value)
    }
}

/// The value of `key` in an entry list, first occurrence.
pub open spec fn spec_obj_lookup(es: Seq<(Seq<u8>, Amf0Val)>, key: Seq<u8>) -> Option<Amf0Val>
    decreases es.len(),
{
    if es.len() == 0 {
        None
    } else if es[0].0 == key {
        Some(es[0].1)
    } else {
        spec_obj_lookup(es.drop_first(), key)
    }
}

/// Replace or append one key/value pair of a record, in place.
pub fn obj_insert(es: &mut Vec<(Vec<u8>, Amf0Value)>, key: Vec<u8>, value: Amf0Value)
    ensures
        spec_view_entries(final(es)@) == spec_obj_insert(
            spec_view_entries(old(es)@),
            key@,
            value@,
        ),
{
    let n = es.len();
    let mut i: usize = 0;
    proof {
        lemma_view_entries_index(es@);
    }
    while i < n
        invariant
            i <= n,
            n == es@.len(),
            es@ == old(es)@,
            forall|k: int| 0 <= k < i ==> old(es)@[k].0@ != key@,
            spec_view_entries(old(es)@).len() == n,
            forall|k: int|
                0 <= k < n ==> #[trigger] spec_view_entries(old(es)@)[k] == (
                old(es)@[k].0@,
                old(es)@[k].1@,
            ),
        decreases n - i,
    {
        if bytes_eq(&es[i].0, &key) {
            let ghost old_es = es@;
            es.set(i, (key, value));
            proof {
                lemma_obj_insert_at(spec_view_entries(old_es), key@, value@, i as int);
                lemma_view_entries_update(old_es, i as int, (key, value));
            }
            return ;
        }
        i = i + 1;
    }
    let ghost old_es = es@;
    es.push((key, value));
    proof {
        lemma_view_entries_push(old_es, es@[old_es.len() as int].0, es@[old_es.len() as int].1);
        assert(es@ =~= old_es.push(es@[old_es.len() as int]));
        lemma_obj_insert_absent(spec_view_entries(old_es), key@, value@);
    }
}

pub proof fn lemma_obj_insert_at(es: Seq<(Seq<u8>, Amf0Val)>, key: Seq<u8>, value: Amf0Val, i: int)
    requires
        0 <= i < es.len(),
        es[i].0 == key,
        forall|k: int| 0 <= k < i ==> es[k].0 != key,
    ensures
        spec_obj_insert(es, key, value) == es.update(i, (key, value)),
    decreases i,
{
    if i == 0 {
        assert(seq![(key, value)] + es.drop_first() =~= es.update(0, (key, value)));
    } else {
        lemma_obj_insert_at(es.drop_first(), key, value, i - 1);
        assert(es.drop_first().update(i - 1, (key, value)) =~= es.update(
            i,
            (key, value),
        ).drop_first());
        assert(seq![es[0]] + es.update(i, (key, value)).drop_first() =~= es.update(
            i,
            (key, value),
        ));
    }
}

proof fn lemma_obj_insert_absent(es: Seq<(Seq<u8>, Amf0Val)>, key: Seq<u8>, value: Amf0Val)
    requires
        forall|k: int| 0 <= k < es.len() ==> es[k].0 != key,
    ensures
        spec_obj_insert(es, key, value) == es.push((key, value)),
    decreases es.len(),
{
    if es.len() == 0 {
        assert(seq![(key, value)] =~= es.push((key, value)));
    } else {
        lemma_obj_insert_absent(es.drop_first(), key, value);
        assert(seq![es[0]] + es.drop_first().push((key, value)) =~= es.push((key, value)));
    }
}

pub proof fn lemma_view_entries_update(es: Seq<(Vec<u8>, Amf0Value)>, i: int, p: (Vec<u8>, Amf0Value))
    requires
        0 <= i < es.len(),
    ensures
        spec_view_entries(es.update(i, p)) == spec_view_entries(es).update(i, (p.0@, p.1@)),
{
    lemma_view_entries_index(es);
    lemma_view_entries_index(es.update(i, p));
    assert(spec_view_entries(es.update(i, p)) =~= spec_view_entries(es).update(i, (p.0@, p.1@)));
}

/// Find the value of `key` in a record held as a vector of pairs: its index,
/// when present.
pub fn obj_find(es: &Vec<(Vec<u8>, Amf0Value)>, key: &Vec<u8>) -> (r: Option<usize>)
    ensures
        match r {
            Some(i) => i < es@.len() && es@[i as int].0@ == key@ && spec_obj_lookup(
                spec_view_entries(es@),
                key@,
            ) == Some(es@[i as int].1@) && (forall|k: int| 0 <= k < i ==> es@[k].0@ != key@),
            None => spec_obj_lookup(spec_view_entries(es@), key@) == None::<Amf0Val>,
        },
{
    let n = es.len();
    let mut i: usize = 0;
    proof {
        lemma_view_entries_index(es@);
    }
    while i < n
        invariant
            i <= n,
            n == es@.len(),
            spec_view_entries(es@).len() == n,
            forall|k: int|
                0 <= k < n ==> #[trigger] spec_view_entries(es@)[k] == (es@[k].0@, es@[k].1@),
            forall|k: int| 0 <= k < i ==> es@[k].0@ != key@,
        decreases n - i,
    {
        if bytes_eq(&es[i].0, key) {
            proof {
                lemma_obj_lookup_at(spec_view_entries(es@), key@, i as int);
            }
            return Some(i);
        }
        i = i + 1;
    }
    proof {
        lemma_obj_lookup_absent(spec_view_entries(es@), key@);
    }
    None
}

proof fn lemma_obj_lookup_at(es: Seq<(Seq<u8>, Amf0Val)>, key: Seq<u8>, i: int)
    requires
        0 <= i < es.len(),
        es[i].0 == key,
        forall|k: int| 0 <= k < i ==> es[k].0 != key,
    ensures
        spec_obj_lookup(es, key) == Some(es[i].1),
    decreases i,
{
    if i > 0 {
        lemma_obj_lookup_at(es.drop_first(), key, i - 1);
    }
}

proof fn lemma_obj_lookup_absent(es: Seq<(Seq<u8>, Amf0Val)>, key: Seq<u8>)
    requires
        forall|k: int| 0 <= k < es.len() ==> es[k].0 != key,
    ensures
        spec_obj_lookup(es, key) == None::<Amf0Val>,
    decreases es.len(),
{
    if es.len() > 0 {
        lemma_obj_lookup_absent(es.drop_first(), key);
    }
}


/// Entry validity, element by element.
pub proof fn lemma_valid_entries_equiv(es: Seq<(Seq<u8>, Amf0Val)>)
    ensures
        spec_valid_entries(es) <==> (forall|k: int|
            0 <= k < es.len() ==> (1 <= (#[trigger] es[k]).0.len() <= 0xFFFF && spec_valid_value(
                es[k].1,
            ))),
    decreases es.len(),
{
    if es.len() > 0 {
        let d = es.drop_first();
        lemma_valid_entries_equiv(d);
        assert(forall|k: int| 0 <= k < d.len() ==> #[trigger] d[k] == es[k + 1]);
        if spec_valid_entries(es) {
            assert(forall|k: int|
                0 <= k < es.len() ==> (1 <= (#[trigger] es[k]).0.len() <= 0xFFFF
                    && spec_valid_value(es[k].1))) by {
                assert(forall|k: int|
                    1 <= k < es.len() ==> (1 <= (#[trigger] es[k]).0.len() <= 0xFFFF
                        && spec_valid_value(es[k].1))) by {
                    assert(forall|k: int|
                        0 <= k < d.len() ==> (1 <= (#[trigger] d[k]).0.len() <= 0xFFFF
                            && spec_valid_value(d[k].1)));
                    assert(forall|k: int| 1 <= k < es.len() ==> es[k] == d[k - 1]);
                }
            }
        }
        if forall|k: int|
            0 <= k < es.len() ==> (1 <= (#[trigger] es[k]).0.len() <= 0xFFFF && spec_valid_value(
                es[k].1,
            )) {
            assert(forall|k: int|
                0 <= k < d.len() ==> (1 <= (#[trigger] d[k]).0.len() <= 0xFFFF
                    && spec_valid_value(d[k].1)));
        }
    }
}

/// Element validity, element by element.
pub proof fn lemma_valid_items_equiv(items: Seq<Amf0Val>)
    ensures
        spec_valid_items(items) <==> (forall|k: int|
            0 <= k < items.len() ==> spec_valid_value(#[trigger] items[k])),
    decreases items.len(),
{
    if items.len() > 0 {
        let d = items.drop_first();
        lemma_valid_items_equiv(d);
        assert(forall|k: int| 0 <= k < d.len() ==> #[trigger] d[k] == items[k + 1]);
        if spec_valid_items(items) {
            assert(forall|k: int|
                0 <= k < items.len() ==> spec_valid_value(#[trigger] items[k])) by {
                assert(forall|k: int| 0 <= k < d.len() ==> spec_valid_value(#[trigger] d[k]));
                assert(forall|k: int| 1 <= k < items.len() ==> items[k] == d[k - 1]);
            }
        }
        if forall|k: int| 0 <= k < items.len() ==> spec_valid_value(#[trigger] items[k]) {
            assert(forall|k: int| 0 <= k < d.len() ==> spec_valid_value(#[trigger] d[k]));
        }
    }
}

/// Replacing or appending a valid pair keeps a record valid.
pub proof fn lemma_obj_insert_valid(es: Seq<(Seq<u8>, Amf0Val)>, key: Seq<u8>, value: Amf0Val)
    requires
        spec_valid_entries(es),
        1 <= key.len() <= 0xFFFF,
        spec_valid_value(value),
    ensures
        spec_valid_entries(spec_obj_insert(es, key, value)),
    decreases es.len(),
{
    if es.len() == 0 {
        assert(seq![(key, value)].drop_first() =~= Seq::<(Seq<u8>, Amf0Val)>::empty());
        reveal_with_fuel(spec_valid_entries, 2);
    } else if es[0].0 == key {
        assert((seq![(key, value)] + es.drop_first()).drop_first() =~= es.drop_first());
        assert((seq![(key, value)] + es.drop_first())[0] == (key, value));
    } else {
        lemma_obj_insert_valid(es.drop_first(), key, value);
        assert((seq![es[0]] + spec_obj_insert(es.drop_first(), key, value)).drop_first()
            =~= spec_obj_insert(es.drop_first(), key, value));
        assert((seq![es[0]] + spec_obj_insert(es.drop_first(), key, value))[0] == es[0]);
    }
}

/// Whether a value can be encoded.
pub fn is_valid_value(v: &Amf0Value) -> (r: bool)
    ensures
        r == spec_valid_value(v@),
    decreases *v,
{
    match v {
        Amf0Value::Number(_) => true,
        Amf0Value::Boolean(_) => true,
        Amf0Value::Str(s) => s.len() <= 0xFFFF,
        Amf0Value::Object(es) => is_valid_entries(es),
        Amf0Value::Null => true,
        Amf0Value::Array(items) => {
            proof {
                lemma_view_items_index(items@);
            }
            is_valid_items(items) && items.len() <= 0xFFFFFFFFusize
        },
    }
}

fn is_valid_entries(es: &Vec<(Vec<u8>, Amf0Value)>) -> (r: bool)
    ensures
        r == spec_valid_entries(spec_view_entries(es@)),
    decreases es@,
{
    proof {
        lemma_view_entries_index(es@);
        lemma_valid_entries_equiv(spec_view_entries(es@));
    }
    let n = es.len();
    let mut i: usize = 0;
    let mut ok = true;
    while i < n
        invariant
            i <= n,
            n == es@.len(),
            spec_view_entries(es@).len() == n,
            forall|k: int|
                0 <= k < n ==> #[trigger] spec_view_entries(es@)[k] == (es@[k].0@, es@[k].1@),
            ok == (forall|k: int|
                0 <= k < i ==> (1 <= (#[trigger] spec_view_entries(es@)[k]).0.len() <= 0xFFFF
                    && spec_valid_value(spec_view_entries(es@)[k].1))),
        decreases n - i,
    {
        let klen_ok = es[i].0.len() >= 1 && es[i].0.len() <= 0xFFFF;
        let v_ok = is_valid_value(&es[i].1);
        proof {
            assert(spec_view_entries(es@)[i as int] == (es@[i as int].0@, es@[i as int].1@));
        }
        ok = ok && klen_ok && v_ok;
        i = i + 1;
    }
    proof {
        lemma_valid_entries_equiv(spec_view_entries(es@));
    }
    ok
}

fn is_valid_items(items: &Vec<Amf0Value>) -> (r: bool)
    ensures
        r == spec_valid_items(spec_view_items(items@)),
    decreases items@,
{
    proof {
        lemma_view_items_index(items@);
        lemma_valid_items_equiv(spec_view_items(items@));
    }
    let n = items.len();
    let mut i: usize = 0;
    let mut ok = true;
    while i < n
        invariant
            i <= n,
            n == items@.len(),
            spec_view_items(items@).len() == n,
            forall|k: int| 0 <= k < n ==> #[trigger] spec_view_items(items@)[k] == items@[k]@,
            ok == (forall|k: int|
                0 <= k < i ==> spec_valid_value(#[trigger] spec_view_items(items@)[k])),
        decreases n - i,
    {
        let v_ok = is_valid_value(&items[i]);
        proof {
            assert(spec_view_items(items@)[i as int] == items@[i as int]@);
        }
        ok = ok && v_ok;
        i = i + 1;
    }
    proof {
        lemma_valid_items_equiv(spec_view_items(items@));
    }
    ok
}

} // verus!
