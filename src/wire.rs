use vstd::prelude::*;
use vstd::utf8::{valid_utf8, decode_utf8, encode_utf8, encode_utf8_valid_utf8, encode_utf8_decode_utf8};
use crate::schema::{Code, Number, SampledValue, SampledValueView};

verus! {

/// The eight little-endian bytes of `v`.
pub open spec fn le_bytes_u64(v: u64) -> Seq<u8> {
    seq![v as u8, (v >> 8) as u8, (v >> 16) as u8, (v >> 24) as u8,
         (v >> 32) as u8, (v >> 40) as u8, (v >> 48) as u8, (v >> 56) as u8]
}

/// The value of eight little-endian bytes starting at `b[i]`.
pub open spec fn le_u64_at(b: Seq<u8>, i: int) -> u64 {
    (b[i] as u64) | ((b[i + 1] as u64) << 8) | ((b[i + 2] as u64) << 16) | ((b[i + 3] as u64) << 24)
        | ((b[i + 4] as u64) << 32) | ((b[i + 5] as u64) << 40) | ((b[i + 6] as u64) << 48)
        | ((b[i + 7] as u64) << 56)
}

pub proof fn lemma_le_u64(v: u64)
    ensures
        le_u64_at(le_bytes_u64(v), 0) == v,
{
    let b = le_bytes_u64(v);
    let (b0, b1, b2, b3, b4, b5, b6, b7) = (b[0], b[1], b[2], b[3], b[4], b[5], b[6], b[7]);
    assert(b0 == v as u8 && b1 == (v >> 8) as u8 && b2 == (v >> 16) as u8 && b3 == (v >> 24) as u8);
    assert(b4 == (v >> 32) as u8 && b5 == (v >> 40) as u8 && b6 == (v >> 48) as u8 && b7 == (v >> 56) as u8);
    assert(((v as u8) as u64) | ((((v >> 8) as u8) as u64) << 8) | ((((v >> 16) as u8) as u64) << 16)
        | ((((v >> 24) as u8) as u64) << 24) | ((((v >> 32) as u8) as u64) << 32)
        | ((((v >> 40) as u8) as u64) << 40) | ((((v >> 48) as u8) as u64) << 48)
        | ((((v >> 56) as u8) as u64) << 56) == v) by (bit_vector);
}

fn push_u64(out: &mut Vec<u8>, v: u64)
    ensures
        final(out)@ == old(out)@ + le_bytes_u64(v),
{
    out.push(v as u8);
    out.push((v >> 8) as u8);
    out.push((v >> 16) as u8);
    out.push((v >> 24) as u8);
    out.push((v >> 32) as u8);
    out.push((v >> 40) as u8);
    out.push((v >> 48) as u8);
    out.push((v >> 56) as u8);
    assert(final(out)@ =~= old(out)@ + le_bytes_u64(v));
}

fn read_u64(b: &Vec<u8>, i: usize) -> (r: u64)
    requires
        i + 8 <= b@.len(),
    ensures
        r == le_u64_at(b@, i as int),
{
    let n = b.len();
    assert(i + 8 <= n);
    (b[i] as u64) | ((b[i + 1] as u64) << 8) | ((b[i + 2] as u64) << 16) | ((b[i + 3] as u64) << 24)
        | ((b[i + 4] as u64) << 32) | ((b[i + 5] as u64) << 40) | ((b[i + 6] as u64) << 48)
        | ((b[i + 7] as u64) << 56)
}


/// The four little-endian bytes of `v`.
pub open spec fn le_bytes_u32(v: u32) -> Seq<u8> {
    seq![v as u8, (v >> 8) as u8, (v >> 16) as u8, (v >> 24) as u8]
}

/// The value of four little-endian bytes starting at `b[i]`.
pub open spec fn le_u32_at(b: Seq<u8>, i: int) -> u32 {
    (b[i] as u32) | ((b[i + 1] as u32) << 8) | ((b[i + 2] as u32) << 16) | ((b[i + 3] as u32) << 24)
}

proof fn lemma_le_u32(v: u32)
    ensures
        le_u32_at(le_bytes_u32(v), 0) == v,
{
    let b = le_bytes_u32(v);
    assert(b[0] == v as u8 && b[1] == (v >> 8) as u8 && b[2] == (v >> 16) as u8 && b[3] == (v >> 24) as u8);
    assert(((v as u8) as u32) | ((((v >> 8) as u8) as u32) << 8) | ((((v >> 16) as u8) as u32) << 16)
        | ((((v >> 24) as u8) as u32) << 24) == v) by (bit_vector);
}

fn push_u32(out: &mut Vec<u8>, v: u32)
    ensures
        final(out)@ == old(out)@ + le_bytes_u32(v),
{
    out.push(v as u8);
    out.push((v >> 8) as u8);
    out.push((v >> 16) as u8);
    out.push((v >> 24) as u8);
    assert(final(out)@ =~= old(out)@ + le_bytes_u32(v));
}

fn read_u32(b: &Vec<u8>, i: usize) -> (r: u32)
    requires
        i + 4 <= b@.len(),
    ensures
        r == le_u32_at(b@, i as int),
{
    let n = b.len();
    assert(i + 4 <= n);
    (b[i] as u32) | ((b[i + 1] as u32) << 8) | ((b[i + 2] as u32) << 16) | ((b[i + 3] as u32) << 24)
}

/// The encoding of one field: its key, the length of its payload as four
/// little-endian bytes, then the payload.
pub open spec fn field_bytes(key: u8, payload: Seq<u8>) -> Seq<u8> {
    seq![key] + le_bytes_u32(payload.len() as u32) + payload
}

/// The fields of `b` from offset `i` on, or `None` when the bytes there do
/// not split into whole fields.
pub open spec fn fields_from(b: Seq<u8>, i: int) -> Option<Seq<(u8, Seq<u8>)>>
    decreases b.len() - i,
{
    if i < 0 || i >= b.len() {
        Some(Seq::empty())
    } else if i + 5 > b.len() {
        None
    } else {
        let n = le_u32_at(b, i + 1) as int;
        if i + 5 + n > b.len() {
            None
        } else {
            match fields_from(b, i + 5 + n) {
                Some(rest) => Some(seq![(b[i], b.subrange(i + 5, i + 5 + n))] + rest),
                None => None,
            }
        }
    }
}

/// The fields of a whole message.
pub open spec fn fields_of(b: Seq<u8>) -> Option<Seq<(u8, Seq<u8>)>> {
    fields_from(b, 0)
}

/// The one field of a message that holds exactly one.
pub open spec fn single_field_of(b: Seq<u8>) -> Option<(u8, Seq<u8>)> {
    match fields_of(b) {
        Some(fs) => if fs.len() == 1 { Some(fs[0]) } else { None },
        None => None,
    }
}

proof fn lemma_single_field(key: u8, payload: Seq<u8>)
    requires
        payload.len() <= u32::MAX,
    ensures
        single_field_of(field_bytes(key, payload)) == Some((key, payload)),
{
    let b = field_bytes(key, payload);
    let n = payload.len() as u32;
    lemma_le_u32(n);
    assert(b.subrange(1, 5) =~= le_bytes_u32(n));
    assert(le_u32_at(b, 1) == le_u32_at(le_bytes_u32(n), 0));
    assert(b.subrange(5, 5 + payload.len() as int) =~= payload);
    assert(fields_from(b, 5 + payload.len() as int) == Some(Seq::<(u8, Seq<u8>)>::empty()));
    assert(fields_of(b) == Some(seq![(key, payload)] + Seq::<(u8, Seq<u8>)>::empty()));
    assert(seq![(key, payload)] + Seq::<(u8, Seq<u8>)>::empty() =~= seq![(key, payload)]);
}

/// A copy of `b[start..end]`.
fn copy_range(b: &Vec<u8>, start: usize, end: usize) -> (r: Vec<u8>)
    requires
        start <= end <= b@.len(),
    ensures
        r@ == b@.subrange(start as int, end as int),
{
    let mut r: Vec<u8> = Vec::new();
    let mut i: usize = start;
    while i < end
        invariant
            start <= i <= end <= b@.len(),
            r@ == b@.subrange(start as int, i as int),
        decreases end - i,
    {
        r.push(b[i]);
        i = i + 1;
        assert(r@ =~= b@.subrange(start as int, i as int));
    }
    r
}

/// The key and payload of the single field of `b`; `None` when `b` is not a
/// sequence of whole fields or holds no field or more than one.
pub fn single_field(b: &Vec<u8>) -> (r: Option<(u8, Vec<u8>)>)
    ensures
        match r {
            Some((k, p)) => single_field_of(b@) == Some((k, p@)),
            None => single_field_of(b@) is None,
        },
{
    let len = b.len();
    let mut i: usize = 0;
    let mut count: usize = 0;
    let mut first: Option<(u8, Vec<u8>)> = None;
    let ghost mut acc: Seq<(u8, Seq<u8>)> = Seq::empty();
    while i < len
        invariant
            len == b@.len(),
            0 <= i <= len,
            count == acc.len(),
            count <= i,
            fields_of(b@) == match fields_from(b@, i as int) {
                Some(rest) => Some(acc + rest),
                None => None::<Seq<(u8, Seq<u8>)>>,
            },
            count >= 1 ==> (first matches Some((k, p)) && acc[0] == (k, p@)),
        decreases len - i,
    {
        if len - i < 5 {
            return None;
        }
        let key = b[i];
        let n = read_u32(b, i + 1) as usize;
        if len - i - 5 < n {
            return None;
        }
        let end = i + 5 + n;
        proof {
            let ghost f = (key, b@.subrange(i + 5, end as int));
            let ghost rest = fields_from(b@, end as int);
            assert(fields_from(b@, i as int) == match rest {
                Some(t) => Some(seq![f] + t),
                None => None::<Seq<(u8, Seq<u8>)>>,
            });
            if let Some(t) = rest {
                assert(acc + (seq![f] + t) =~= acc.push(f) + t);
            }
            acc = acc.push(f);
        }
        if count == 0 {
            first = Some((key, copy_range(b, i + 5, end)));
        }
        count = count + 1;
        i = end;
    }
    proof {
        assert(acc + Seq::<(u8, Seq<u8>)>::empty() =~= acc);
    }
    if count == 1 {
        first
    } else {
        None
    }
}

/// The view of each parsed field.
pub open spec fn field_views(v: Seq<(u8, Vec<u8>)>) -> Seq<(u8, Seq<u8>)> {
    v.map_values(|f: (u8, Vec<u8>)| (f.0, f.1@))
}

/// Splits `b` into its fields; `None` when it is not a sequence of whole
/// fields.
pub fn parse_fields(b: &Vec<u8>) -> (r: Option<Vec<(u8, Vec<u8>)>>)
    ensures
        match r {
            Some(v) => fields_of(b@) == Some(field_views(v@)),
            None => fields_of(b@) is None,
        },
{
    let len = b.len();
    let mut i: usize = 0;
    let mut out: Vec<(u8, Vec<u8>)> = Vec::new();
    while i < len
        invariant
            len == b@.len(),
            0 <= i <= len,
            fields_of(b@) == match fields_from(b@, i as int) {
                Some(rest) => Some(field_views(out@) + rest),
                None => None::<Seq<(u8, Seq<u8>)>>,
            },
        decreases len - i,
    {
        if len - i < 5 {
            return None;
        }
        let key = b[i];
        let n = read_u32(b, i + 1) as usize;
        if len - i - 5 < n {
            return None;
        }
        let end = i + 5 + n;
        let payload = copy_range(b, i + 5, end);
        let ghost f = (key, b@.subrange(i + 5, end as int));
        let ghost before = field_views(out@);
        proof {
            let ghost rest = fields_from(b@, end as int);
            assert(fields_from(b@, i as int) == match rest {
                Some(t) => Some(seq![f] + t),
                None => None::<Seq<(u8, Seq<u8>)>>,
            });
            if let Some(t) = rest {
                assert(before + (seq![f] + t) =~= before.push(f) + t);
            }
        }
        out.push((key, payload));
        assert(field_views(out@) =~= before.push(f));
        i = end;
    }
    proof {
        assert(field_views(out@) + Seq::<(u8, Seq<u8>)>::empty() =~= field_views(out@));
    }
    Some(out)
}

/// The encoding of a list of fields, one after the other.
pub open spec fn fields_encoding(fs: Seq<(u8, Seq<u8>)>) -> Seq<u8>
    decreases fs.len(),
{
    if fs.len() == 0 {
        Seq::empty()
    } else {
        fields_encoding(fs.drop_last()) + field_bytes(fs.last().0, fs.last().1)
    }
}

/// Every payload of `fs` fits the length prefix.
pub open spec fn fields_fit(fs: Seq<(u8, Seq<u8>)>) -> bool {
    forall|k: int| 0 <= k < fs.len() ==> (#[trigger] fs[k]).1.len() <= u32::MAX
}

/// Encodes a list of fields; `None` when a payload is too long for its
/// length prefix.
pub fn encode_fields(fs: &Vec<(u8, Vec<u8>)>) -> (r: Option<Vec<u8>>)
    ensures
        match r {
            Some(v) => fields_fit(field_views(fs@)) && v@ == fields_encoding(field_views(fs@)),
            None => !fields_fit(field_views(fs@)),
        },
{
    let mut out: Vec<u8> = Vec::new();
    let mut i: usize = 0;
    while i < fs.len()
        invariant
            i <= fs@.len(),
            fields_fit(field_views(fs@.subrange(0, i as int))),
            out@ == fields_encoding(field_views(fs@.subrange(0, i as int))),
        decreases fs@.len() - i,
    {
        let (key, payload) = &fs[i];
        if payload.len() > 4294967295 {
            assert(field_views(fs@)[i as int].1.len() > u32::MAX);
            return None;
        }
        push_field(&mut out, *key, payload);
        proof {
            let w = field_views(fs@.subrange(0, i + 1));
            assert(w.drop_last() =~= field_views(fs@.subrange(0, i as int)));
            assert(w.last() == (*key, payload@));
        }
        i = i + 1;
        assert forall|k: int| 0 <= k < i implies (#[trigger] field_views(fs@.subrange(0, i as int))[k]).1.len() <= u32::MAX by {
            if k < i - 1 {
                assert(field_views(fs@.subrange(0, i as int))[k] == field_views(fs@.subrange(0, i - 1))[k]);
            }
        }
    }
    assert(fs@.subrange(0, i as int) =~= fs@);
    Some(out)
}

proof fn lemma_fields_shift(x: Seq<u8>, y: Seq<u8>, j: int)
    requires
        0 <= j,
    ensures
        fields_from(x + y, x.len() + j) == fields_from(y, j),
    decreases y.len() - j,
{
    let b = x + y;
    let i = x.len() + j;
    if j < y.len() && j + 5 <= y.len() {
        assert(b[i] == y[j]);
        assert(b.subrange(i + 1, i + 5) =~= y.subrange(j + 1, j + 5));
        assert(le_u32_at(b, i + 1) == le_u32_at(y, j + 1)) by {
            assert(b[i + 1] == y[j + 1] && b[i + 2] == y[j + 2] && b[i + 3] == y[j + 3] && b[i + 4] == y[j + 4]);
        }
        let n = le_u32_at(y, j + 1) as int;
        if j + 5 + n <= y.len() {
            assert(b.subrange(i + 5, i + 5 + n) =~= y.subrange(j + 5, j + 5 + n));
            lemma_fields_shift(x, y, j + 5 + n);
        }
    }
}

proof fn lemma_fields_append(x: Seq<u8>, y: Seq<u8>, i: int)
    requires
        0 <= i <= x.len(),
        fields_from(x, i) is Some,
        fields_from(y, 0) is Some,
    ensures
        fields_from(x + y, i) == Some(fields_from(x, i)->Some_0 + fields_from(y, 0)->Some_0),
    decreases x.len() - i,
{
    let b = x + y;
    if i == x.len() {
        lemma_fields_shift(x, y, 0);
        assert(fields_from(x, i)->Some_0 + fields_from(y, 0)->Some_0 =~= fields_from(y, 0)->Some_0);
    } else {
        assert(b[i] == x[i] && b[i + 1] == x[i + 1] && b[i + 2] == x[i + 2] && b[i + 3] == x[i + 3] && b[i + 4] == x[i + 4]);
        let n = le_u32_at(x, i + 1) as int;
        assert(le_u32_at(b, i + 1) == le_u32_at(x, i + 1));
        assert(b.subrange(i + 5, i + 5 + n) =~= x.subrange(i + 5, i + 5 + n));
        lemma_fields_append(x, y, i + 5 + n);
        let f = (x[i], x.subrange(i + 5, i + 5 + n));
        let rx = fields_from(x, i + 5 + n)->Some_0;
        let ry = fields_from(y, 0)->Some_0;
        assert(seq![f] + (rx + ry) =~= (seq![f] + rx) + ry);
    }
}

/// Splitting the encoding of a list of fields gives that list back.
pub proof fn lemma_fields_round_trip(fs: Seq<(u8, Seq<u8>)>)
    requires
        fields_fit(fs),
    ensures
        fields_of(fields_encoding(fs)) == Some(fs),
    decreases fs.len(),
{
    if fs.len() > 0 {
        let init = fs.drop_last();
        assert(fields_fit(init)) by {
            assert forall|k: int| 0 <= k < init.len() implies (#[trigger] init[k]).1.len() <= u32::MAX by {
                assert(init[k] == fs[k]);
            }
        }
        lemma_fields_round_trip(init);
        let last = fs.last();
        assert(last == fs[fs.len() - 1]);
        lemma_single_field(last.0, last.1);
        lemma_fields_append(fields_encoding(init), field_bytes(last.0, last.1), 0);
        assert(init + seq![last] =~= fs);
    } else {
        assert(fields_encoding(fs) =~= Seq::<u8>::empty());
    }
}

/// Appends the encoding of one field.
fn push_field(out: &mut Vec<u8>, key: u8, payload: &Vec<u8>)
    requires
        payload@.len() <= u32::MAX,
    ensures
        final(out)@ == old(out)@ + field_bytes(key, payload@),
{
    out.push(key);
    push_u32(out, payload.len() as u32);
    let mut i: usize = 0;
    let ghost mid = out@;
    while i < payload.len()
        invariant
            0 <= i <= payload@.len(),
            out@ == mid + payload@.subrange(0, i as int),
        decreases payload@.len() - i,
    {
        out.push(payload[i]);
        i = i + 1;
        assert(out@ =~= mid + payload@.subrange(0, i as int));
    }
    assert(payload@.subrange(0, i as int) =~= payload@);
    assert(final(out)@ =~= old(out)@ + field_bytes(key, payload@));
}


/// Field keys of a `Number` message.
pub const KEY_SIGNED: u8 = 1;
pub const KEY_UNSIGNED: u8 = 2;
pub const KEY_FLOAT: u8 = 3;
pub const KEY_DOUBLE: u8 = 4;

/// Field keys of a `SampledValue` message.
pub const KEY_BOOL: u8 = 1;
pub const KEY_TEXT: u8 = 2;
pub const KEY_NUMBER: u8 = 3;
pub const KEY_DATA: u8 = 4;

/// The key and payload that carry `n`.
pub open spec fn number_field(n: Number) -> (u8, Seq<u8>) {
    match n {
        Number::SignedInteger(v) => (KEY_SIGNED, le_bytes_u64(v as u64)),
        Number::UnsignedInteger(v) => (KEY_UNSIGNED, le_bytes_u64(v)),
        Number::FloatBits(v) => (KEY_FLOAT, le_bytes_u32(v)),
        Number::DoubleBits(v) => (KEY_DOUBLE, le_bytes_u64(v)),
    }
}

/// The encoding of a `Number`: one field, whose key is the tag.
pub open spec fn number_encoding(n: Number) -> Seq<u8> {
    field_bytes(number_field(n).0, number_field(n).1)
}

/// The number that one field carries, if its key is a number tag and its
/// payload has that tag's width.
pub open spec fn number_of_field(key: u8, p: Seq<u8>) -> Option<Number> {
    if key == KEY_SIGNED && p.len() == 8 {
        Some(Number::SignedInteger(le_u64_at(p, 0) as i64))
    } else if key == KEY_UNSIGNED && p.len() == 8 {
        Some(Number::UnsignedInteger(le_u64_at(p, 0)))
    } else if key == KEY_FLOAT && p.len() == 4 {
        Some(Number::FloatBits(le_u32_at(p, 0)))
    } else if key == KEY_DOUBLE && p.len() == 8 {
        Some(Number::DoubleBits(le_u64_at(p, 0)))
    } else {
        None
    }
}

/// What decoding `b` as a `Number` gives: the number of its single field,
/// and `InvalidArgument` when it holds no tag, several tags, or a malformed
/// one.
pub open spec fn number_decoding(b: Seq<u8>) -> Result<Number, Code> {
    match single_field_of(b) {
        Some((k, p)) => match number_of_field(k, p) {
            Some(n) => Ok(n),
            None => Err(Code::InvalidArgument),
        },
        None => Err(Code::InvalidArgument),
    }
}

/// Encodes a `Number`.
pub fn encode_number(n: Number) -> (r: Vec<u8>)
    ensures
        r@ == number_encoding(n),
{
    let mut payload: Vec<u8> = Vec::new();
    let key = match n {
        Number::SignedInteger(v) => {
            push_u64(&mut payload, v as u64);
            KEY_SIGNED
        },
        Number::UnsignedInteger(v) => {
            push_u64(&mut payload, v);
            KEY_UNSIGNED
        },
        Number::FloatBits(v) => {
            push_u32(&mut payload, v);
            KEY_FLOAT
        },
        Number::DoubleBits(v) => {
            push_u64(&mut payload, v);
            KEY_DOUBLE
        },
    };
    assert(payload@ =~= number_field(n).1);
    let mut out: Vec<u8> = Vec::new();
    push_field(&mut out, key, &payload);
    assert(out@ =~= number_encoding(n));
    out
}

fn number_from_field(key: u8, p: &Vec<u8>) -> (r: Option<Number>)
    ensures
        r == number_of_field(key, p@),
{
    let n = p.len();
    if key == KEY_SIGNED && n == 8 {
        Some(Number::SignedInteger(read_u64(p, 0) as i64))
    } else if key == KEY_UNSIGNED && n == 8 {
        Some(Number::UnsignedInteger(read_u64(p, 0)))
    } else if key == KEY_FLOAT && n == 4 {
        Some(Number::FloatBits(read_u32(p, 0)))
    } else if key == KEY_DOUBLE && n == 8 {
        Some(Number::DoubleBits(read_u64(p, 0)))
    } else {
        None
    }
}

/// Decodes a `Number`.
pub fn decode_number(b: &Vec<u8>) -> (r: Result<Number, Code>)
    ensures
        r == number_decoding(b@),
{
    match single_field(b) {
        Some((k, p)) => match number_from_field(k, &p) {
            Some(n) => Ok(n),
            None => Err(Code::InvalidArgument),
        },
        None => Err(Code::InvalidArgument),
    }
}

proof fn lemma_number_field_round_trip(n: Number)
    ensures
        number_of_field(number_field(n).0, number_field(n).1) == Some(n),
{
    match n {
        Number::SignedInteger(v) => {
            lemma_le_u64(v as u64);
            assert(((v as u64) as i64) == v) by (bit_vector);
        },
        Number::UnsignedInteger(v) => lemma_le_u64(v),
        Number::FloatBits(v) => lemma_le_u32(v),
        Number::DoubleBits(v) => lemma_le_u64(v),
    }
}

/// Decoding the encoding of any `Number` gives it back, with its tag.
pub proof fn lemma_number_round_trip(n: Number)
    ensures
        number_decoding(number_encoding(n)) == Ok::<Number, Code>(n),
{
    lemma_single_field(number_field(n).0, number_field(n).1);
    lemma_number_field_round_trip(n);
}

/// A `Number` message that does not hold exactly one field fails to decode
/// with `InvalidArgument`.
pub proof fn lemma_number_needs_one_tag(b: Seq<u8>)
    requires
        fields_of(b) matches Some(fs) && fs.len() != 1,
    ensures
        number_decoding(b) == Err::<Number, Code>(Code::InvalidArgument),
{
}

/// The payload length of each sampled value's field fits the length prefix.
pub open spec fn sampled_value_fits(v: SampledValueView) -> bool {
    match v {
        SampledValueView::Text(s) => encode_utf8(s).len() <= u32::MAX,
        SampledValueView::Data(d) => d.len() <= u32::MAX,
        _ => true,
    }
}

/// The key and payload that carry `v`.
pub open spec fn sampled_value_field(v: SampledValueView) -> (u8, Seq<u8>) {
    match v {
        SampledValueView::Bool(b) => (KEY_BOOL, seq![if b { 1u8 } else { 0u8 }]),
        SampledValueView::Text(s) => (KEY_TEXT, encode_utf8(s)),
        SampledValueView::Num(n) => (KEY_NUMBER, number_encoding(n)),
        SampledValueView::Data(d) => (KEY_DATA, d),
    }
}

/// The encoding of a sampled value: one field, whose key is the tag; a
/// number is nested as a whole `Number` message.
pub open spec fn sampled_value_encoding(v: SampledValueView) -> Seq<u8> {
    field_bytes(sampled_value_field(v).0, sampled_value_field(v).1)
}

/// The sampled value that one field carries, if it is well formed.
pub open spec fn sampled_value_of_field(key: u8, p: Seq<u8>) -> Option<SampledValueView> {
    if key == KEY_BOOL && p.len() == 1 && p[0] <= 1 {
        Some(SampledValueView::Bool(p[0] == 1))
    } else if key == KEY_TEXT && valid_utf8(p) {
        Some(SampledValueView::Text(decode_utf8(p)))
    } else if key == KEY_NUMBER && number_decoding(p) is Ok {
        Some(SampledValueView::Num(number_decoding(p)->Ok_0))
    } else if key == KEY_DATA {
        Some(SampledValueView::Data(p))
    } else {
        None
    }
}

/// What decoding `b` as a sampled value gives.
pub open spec fn sampled_value_decoding(b: Seq<u8>) -> Result<SampledValueView, Code> {
    match single_field_of(b) {
        Some((k, p)) => match sampled_value_of_field(k, p) {
            Some(v) => Ok(v),
            None => Err(Code::InvalidArgument),
        },
        None => Err(Code::InvalidArgument),
    }
}

/// Relies on std::str::from_utf8, which accepts exactly the well-formed
/// UTF-8 byte sequences, and on str::to_string, which copies the text.
#[verifier::external_body]
pub(crate) fn utf8_string(b: &Vec<u8>) -> (r: Option<String>)
    ensures
        match r {
            Some(s) => valid_utf8(b@) && s@ == decode_utf8(b@),
            None => !valid_utf8(b@),
        },
{
    std::str::from_utf8(b.as_slice()).ok().map(|s| s.to_string())
}

/// Encodes a sampled value.
pub fn encode_sampled_value(v: &SampledValue) -> (r: Vec<u8>)
    requires
        sampled_value_fits(v@),
    ensures
        r@ == sampled_value_encoding(v@),
{
    let mut out: Vec<u8> = Vec::new();
    match v {
        SampledValue::Bool(b) => {
            let mut p: Vec<u8> = Vec::new();
            p.push(if *b { 1u8 } else { 0u8 });
            assert(p@ =~= sampled_value_field(v@).1);
            push_field(&mut out, KEY_BOOL, &p);
        },
        SampledValue::Text(s) => {
            let p = s.as_str().as_bytes_vec();
            push_field(&mut out, KEY_TEXT, &p);
        },
        SampledValue::Num(n) => {
            let p = encode_number(*n);
            assert(p@.len() <= 13);
            push_field(&mut out, KEY_NUMBER, &p);
        },
        SampledValue::Data(d) => {
            push_field(&mut out, KEY_DATA, d);
        },
    }
    out
}

/// Decodes a sampled value.
pub fn decode_sampled_value(b: &Vec<u8>) -> (r: Result<SampledValue, Code>)
    ensures
        match r {
            Ok(v) => sampled_value_decoding(b@) == Ok::<SampledValueView, Code>(v@),
            Err(c) => sampled_value_decoding(b@) == Err::<SampledValueView, Code>(c),
        },
{
    match single_field(b) {
        Some((k, p)) => {
            if k == KEY_BOOL && p.len() == 1 && p[0] <= 1 {
                Ok(SampledValue::Bool(p[0] == 1))
            } else if k == KEY_TEXT {
                match utf8_string(&p) {
                    Some(s) => Ok(SampledValue::Text(s)),
                    None => Err(Code::InvalidArgument),
                }
            } else if k == KEY_NUMBER {
                match decode_number(&p) {
                    Ok(n) => Ok(SampledValue::Num(n)),
                    Err(_) => Err(Code::InvalidArgument),
                }
            } else if k == KEY_DATA {
                Ok(SampledValue::Data(p))
            } else {
                Err(Code::InvalidArgument)
            }
        },
        None => Err(Code::InvalidArgument),
    }
}

/// Decoding the encoding of any sampled value gives it back, with its tag
/// and, for a number, the number's tag.
pub proof fn lemma_sampled_value_round_trip(v: SampledValueView)
    requires
        sampled_value_fits(v),
    ensures
        sampled_value_decoding(sampled_value_encoding(v)) == Ok::<SampledValueView, Code>(v),
{
    broadcast use encode_utf8_valid_utf8, encode_utf8_decode_utf8;

    let f = sampled_value_field(v);
    if let SampledValueView::Num(n) = v {
        lemma_number_round_trip(n);
        assert(number_encoding(n).len() <= 13);
    }
    lemma_single_field(f.0, f.1);
}

/// A sampled value message that does not hold exactly one field fails to
/// decode with `InvalidArgument`.
pub proof fn lemma_sampled_value_needs_one_tag(b: Seq<u8>)
    requires
        fields_of(b) matches Some(fs) && fs.len() != 1,
    ensures
        sampled_value_decoding(b) == Err::<SampledValueView, Code>(Code::InvalidArgument),
{
}

} // verus!
