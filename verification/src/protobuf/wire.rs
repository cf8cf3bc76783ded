//! The protocol buffer wire format: varints, field keys, and the sequence of
//! fields a buffer holds.

use vstd::prelude::*;
use vstd::utf8::*;

verus! {

/// Why a buffer could not be decoded.
#[derive(Clone, Copy, Debug, PartialEq, Eq, Structural)]
pub struct DecodeError;

/// One more than the largest value that a varint with at most `k` bytes left
/// (of the ten a `u64` may take) can carry: `2^(7k - 6)`.
pub open spec fn varint_bound(k: nat) -> nat
    decreases k,
{
    if k <= 1 {
        2
    } else {
        128 * varint_bound((k - 1) as nat)
    }
}

/// The varint that starts at `pos`, read with at most `k` bytes: its value and
/// the position after it.  The last byte a `u64` can take may only carry one
/// bit.
pub open spec fn varint_at(data: Seq<u8>, pos: int, k: nat) -> Option<(nat, int)>
    decreases k,
{
    if k == 0 || pos < 0 || pos >= data.len() {
        None
    } else if data[pos] < 128 {
        if k == 1 && data[pos] >= 2 {
            None
        } else {
            Some((data[pos] as nat, pos + 1))
        }
    } else {
        match varint_at(data, pos + 1, (k - 1) as nat) {
            Some((v, end)) => Some(((data[pos] - 128) as nat + 128 * v, end)),
            None => None,
        }
    }
}

/// The varint at `pos`, as `u64` fields are read.
pub open spec fn varint(data: Seq<u8>, pos: int) -> Option<(nat, int)> {
    varint_at(data, pos, 10)
}

pub proof fn lemma_varint_bound_monotonic(j: nat, k: nat)
    requires
        1 <= j <= k,
    ensures
        2 <= varint_bound(j) <= varint_bound(k),
    decreases k,
{
    if k > 1 {
        if j < k {
            lemma_varint_bound_monotonic(j, (k - 1) as nat);
        } else {
            lemma_varint_bound_monotonic(1, (k - 1) as nat);
        }
    }
}

pub proof fn lemma_varint_bound_u64()
    ensures
        varint_bound(10) == 0x1_0000_0000_0000_0000,
{
    reveal_with_fuel(varint_bound, 10);
}

pub proof fn lemma_varint_at_bounds(data: Seq<u8>, pos: int, k: nat)
    ensures
        varint_at(data, pos, k) matches Some((v, end)) ==> {
            &&& v < varint_bound(k)
            &&& pos < end <= data.len()
            &&& end <= pos + k
        },
    decreases k,
{
    if k >= 1 && 0 <= pos < data.len() {
        lemma_varint_bound_monotonic(1, k);
        if data[pos] >= 128 {
            lemma_varint_at_bounds(data, pos + 1, (k - 1) as nat);
            if let Some((v, end)) = varint_at(data, pos + 1, (k - 1) as nat) {
                assert(k >= 2);
                assert(varint_bound(k) == 128 * varint_bound((k - 1) as nat));
            }
        } else if k >= 2 {
            lemma_varint_bound_monotonic(2, k);
            assert(varint_bound(2) == 256) by {
                reveal_with_fuel(varint_bound, 2);
            }
        }
    }
}

fn read_varint_at(data: &[u8], pos: usize, k: usize) -> (r: Option<(u64, usize)>)
    requires
        k <= 10,
    ensures
        r is None <==> varint_at(data@, pos as int, k as nat) is None,
        r matches Some((v, end)) ==> varint_at(data@, pos as int, k as nat) == Some(
            (v as nat, end as int),
        ),
    decreases k,
{
    if k == 0 || pos >= data.len() {
        return None;
    }
    let b = data[pos];
    if b < 128 {
        if k == 1 && b >= 2 {
            None
        } else {
            Some((b as u64, pos + 1))
        }
    } else {
        match read_varint_at(data, pos + 1, k - 1) {
            Some((v, end)) => {
                proof {
                    lemma_varint_at_bounds(data@, pos + 1, (k - 1) as nat);
                    lemma_varint_bound_monotonic(k as nat, 10);
                    lemma_varint_bound_u64();
                    assert(varint_bound(k as nat) == 128 * varint_bound((k - 1) as nat));
                }
                Some(((b - 128) as u64 + 128 * v, end))
            },
            None => None,
        }
    }
}

/// Reads the varint at `pos`.
pub fn read_varint(data: &[u8], pos: usize) -> (r: Option<(u64, usize)>)
    ensures
        r is None <==> varint(data@, pos as int) is None,
        r matches Some((v, end)) ==> varint(data@, pos as int) == Some((v as nat, end as int)),
{
    read_varint_at(data, pos, 10)
}

/// The key at `pos`: field number, wire type and the position after it.  A key
/// must fit in 32 bits, name one of the six wire types and a field number of
/// at least 1.
pub open spec fn key_at(data: Seq<u8>, pos: int) -> Option<(u32, u8, int)> {
    match varint(data, pos) {
        Some((key, end)) => if key > u32::MAX || key % 8 > 5 || key / 8 == 0 {
            None
        } else {
            Some(((key / 8) as u32, (key % 8) as u8, end))
        },
        None => None,
    }
}

/// What a field carries, as far as the schema-independent reading goes.
pub enum ValueView {
    Varint(u64),
    Bytes(Seq<u8>),
    /// A fixed 32- or 64-bit value, or a group: no field of the schema here
    /// takes one.
    Other,
}

/// A field as read from the wire.
pub struct FieldView {
    pub tag: u32,
    pub value: ValueView,
}

/// The value of wire type `wire` that starts at `pos`, and the position after
/// it.  Groups are read by `fields_at`.
pub open spec fn value_at(data: Seq<u8>, pos: int, wire: u8) -> Option<(ValueView, int)> {
    if wire == 0 {
        match varint(data, pos) {
            Some((v, end)) => Some((ValueView::Varint(v as u64), end)),
            None => None,
        }
    } else if wire == 1 {
        if pos + 8 <= data.len() {
            Some((ValueView::Other, pos + 8))
        } else {
            None
        }
    } else if wire == 5 {
        if pos + 4 <= data.len() {
            Some((ValueView::Other, pos + 4))
        } else {
            None
        }
    } else if wire == 2 {
        match varint(data, pos) {
            Some((len, start)) => if start + len <= data.len() {
                Some((ValueView::Bytes(data.subrange(start, start + len)), start + len))
            } else {
                None
            },
            None => None,
        }
    } else {
        None
    }
}

/// Prepends `fs` to the fields of a successful reading.
pub open spec fn prepend(fs: Seq<FieldView>, r: Option<(Seq<FieldView>, int)>) -> Option<(Seq<FieldView>, int)> {
    match r {
        Some((rest, end)) => Some((fs + rest, end)),
        None => None,
    }
}

/// The fields from `pos` to the end of `data`, or, inside the group `group`,
/// up to and including its end-group key; with the position after them.
/// `depth` is how many more levels of nesting may be entered; at zero, a field
/// other than an end-group key cannot be read.  A group is read through and
/// stands as one field whose value is `Other`.
pub open spec fn fields_at(data: Seq<u8>, pos: int, group: Option<u32>, depth: nat) -> Option<(Seq<FieldView>, int)>
    decreases data.len() - pos,
{
    if pos < 0 || pos >= data.len() {
        if group is None && pos == data.len() {
            Some((seq![], pos))
        } else {
            None
        }
    } else {
        match key_at(data, pos) {
            None => None,
            Some((tag, wire, after_key)) => if !(pos < after_key <= data.len()) {
                None
            } else if wire == 4 {
                if group == Some(tag) {
                    Some((seq![], after_key))
                } else {
                    None
                }
            } else if depth == 0 {
                None
            } else if wire == 3 {
                match fields_at(data, after_key, Some(tag), (depth - 1) as nat) {
                    Some((_, after_group)) => if after_key <= after_group <= data.len() {
                        prepend(
                            seq![FieldView { tag, value: ValueView::Other }],
                            fields_at(data, after_group, group, depth),
                        )
                    } else {
                        None
                    },
                    None => None,
                }
            } else {
                match value_at(data, after_key, wire) {
                    Some((value, after_value)) => if after_key <= after_value <= data.len() {
                        prepend(
                            seq![FieldView { tag, value }],
                            fields_at(data, after_value, group, depth),
                        )
                    } else {
                        None
                    },
                    None => None,
                }
            }
        }
    }
}

/// The fields of a whole message buffer, read at nesting depth `depth`.
pub open spec fn message_fields(data: Seq<u8>, depth: nat) -> Option<Seq<FieldView>> {
    match fields_at(data, 0, None, depth) {
        Some((fs, _)) => Some(fs),
        None => None,
    }
}

pub proof fn lemma_key_at_bounds(data: Seq<u8>, pos: int)
    ensures
        key_at(data, pos) matches Some((_, _, end)) ==> pos < end <= data.len(),
{
    lemma_varint_at_bounds(data, pos, 10);
}

pub proof fn lemma_value_at_bounds(data: Seq<u8>, pos: int, wire: u8)
    ensures
        value_at(data, pos, wire) matches Some((_, end)) ==> pos < end <= data.len(),
{
    lemma_varint_at_bounds(data, pos, 10);
}

pub proof fn lemma_fields_at_bounds(data: Seq<u8>, pos: int, group: Option<u32>, depth: nat)
    ensures
        fields_at(data, pos, group, depth) matches Some((_, end)) ==> {
            &&& pos <= end <= data.len()
            &&& group is None ==> end == data.len()
            &&& group is Some ==> pos < end
        },
    decreases data.len() - pos,
{
    if 0 <= pos < data.len() {
        lemma_key_at_bounds(data, pos);
        if let Some((tag, wire, after_key)) = key_at(data, pos) {
            if wire != 4 && depth > 0 {
                if wire == 3 {
                    lemma_fields_at_bounds(data, after_key, Some(tag), (depth - 1) as nat);
                    if let Some((_, after_group)) = fields_at(data, after_key, Some(tag), (depth - 1) as nat) {
                        lemma_fields_at_bounds(data, after_group, group, depth);
                    }
                } else {
                    lemma_value_at_bounds(data, after_key, wire);
                    if let Some((_, after_value)) = value_at(data, after_key, wire) {
                        lemma_fields_at_bounds(data, after_value, group, depth);
                    }
                }
            }
        }
    }
}

/// What a field carries.
pub enum WireValue {
    Varint(u64),
    Bytes(Vec<u8>),
    Other,
}

/// A field read from a buffer.
pub struct WireField {
    pub tag: u32,
    pub value: WireValue,
}

impl View for WireField {
    type V = FieldView;

    open spec fn view(&self) -> FieldView {
        FieldView {
            tag: self.tag,
            value: match self.value {
                WireValue::Varint(v) => ValueView::Varint(v),
                WireValue::Bytes(b) => ValueView::Bytes(b@),
                WireValue::Other => ValueView::Other,
            },
        }
    }
}

/// The views of a sequence of fields.
pub open spec fn field_views(fs: Seq<WireField>) -> Seq<FieldView> {
    fs.map_values(|f: WireField| f@)
}

fn read_key(data: &[u8], pos: usize) -> (r: Option<(u32, u8, usize)>)
    ensures
        r is None <==> key_at(data@, pos as int) is None,
        r matches Some((tag, wire, end)) ==> key_at(data@, pos as int) == Some(
            (tag, wire, end as int),
        ),
{
    match read_varint(data, pos) {
        Some((key, end)) => {
            if key > 0xffff_ffff || key % 8 > 5 || key / 8 == 0 {
                None
            } else {
                Some(((key / 8) as u32, (key % 8) as u8, end))
            }
        },
        None => None,
    }
}

fn read_value(data: &[u8], pos: usize, wire: u8) -> (r: Option<(WireValue, usize)>)
    ensures
        r is None <==> value_at(data@, pos as int, wire) is None,
        r matches Some((value, end)) ==> value_at(data@, pos as int, wire) == Some(
            (WireField { tag: 0, value }@.value, end as int),
        ),
{
    if wire == 0 {
        match read_varint(data, pos) {
            Some((v, end)) => Some((WireValue::Varint(v), end)),
            None => None,
        }
    } else if wire == 1 {
        if pos <= data.len() && data.len() - pos >= 8 {
            Some((WireValue::Other, pos + 8))
        } else {
            None
        }
    } else if wire == 5 {
        if pos <= data.len() && data.len() - pos >= 4 {
            Some((WireValue::Other, pos + 4))
        } else {
            None
        }
    } else if wire == 2 {
        match read_varint(data, pos) {
            Some((len, start)) => {
                proof {
                    lemma_varint_at_bounds(data@, pos as int, 10);
                }
                if len <= (data.len() - start) as u64 {
                    let end = start + len as usize;
                    let bytes = crate::util::bytes::slice_to_vec(data, start, end);
                    Some((WireValue::Bytes(bytes), end))
                } else {
                    None
                }
            },
            None => None,
        }
    } else {
        None
    }
}

/// Reads the fields from `pos` on: to the end of the buffer, or, inside the
/// group `group`, through its end-group key.
pub fn read_fields(data: &[u8], pos: usize, group: Option<u32>, depth: u32) -> (r: Option<(Vec<WireField>, usize)>)
    requires
        pos <= data@.len(),
    ensures
        r is None <==> fields_at(data@, pos as int, group, depth as nat) is None,
        r matches Some((fs, end)) ==> fields_at(data@, pos as int, group, depth as nat) == Some(
            (field_views(fs@), end as int),
        ),
    decreases data@.len() - pos,
{
    let mut acc: Vec<WireField> = Vec::new();
    let mut p = pos;
    assert(field_views(acc@) =~= seq![]);
    loop
        invariant
            pos <= p <= data@.len(),
            fields_at(data@, pos as int, group, depth as nat) == prepend(
                field_views(acc@),
                fields_at(data@, p as int, group, depth as nat),
            ),
        decreases data@.len() - p,
    {
        if p >= data.len() {
            return match group {
                None => Some((acc, p)),
                Some(_) => None,
            };
        }
        let (tag, wire, after_key) = match read_key(data, p) {
            Some(k) => k,
            None => return None,
        };
        proof {
            lemma_key_at_bounds(data@, p as int);
        }
        if wire == 4 {
            return match group {
                Some(g) => if g == tag {
                    Some((acc, after_key))
                } else {
                    None
                },
                None => None,
            };
        }
        if depth == 0 {
            return None;
        }
        let ghost before = acc@;
        if wire == 3 {
            match read_fields(data, after_key, Some(tag), depth - 1) {
                Some((_, after_group)) => {
                    proof {
                        lemma_fields_at_bounds(data@, after_key as int, Some(tag), (depth - 1) as nat);
                    }
                    acc.push(WireField { tag, value: WireValue::Other });
                    p = after_group;
                },
                None => return None,
            }
        } else {
            match read_value(data, after_key, wire) {
                Some((value, after_value)) => {
                    proof {
                        lemma_value_at_bounds(data@, after_key as int, wire);
                    }
                    acc.push(WireField { tag, value });
                    p = after_value;
                },
                None => return None,
            }
        }
        assert(field_views(acc@) =~= field_views(before) + seq![acc@.last()@]);
    }
}

/// The varint encoding of `v`: seven bits a byte, least significant first,
/// the high bit set on every byte but the last.
pub open spec fn varint_bytes(v: nat) -> Seq<u8>
    decreases v,
{
    if v < 128 {
        seq![v as u8]
    } else {
        seq![(v % 128 + 128) as u8] + varint_bytes(v / 128)
    }
}

/// The encoding of a field that can be written: a key with the field number
/// and wire type, then the value (a length first for bytes).
pub open spec fn field_bytes(f: FieldView) -> Seq<u8> {
    match f.value {
        ValueView::Varint(v) => varint_bytes((f.tag * 8) as nat) + varint_bytes(v as nat),
        ValueView::Bytes(b) => varint_bytes((f.tag * 8 + 2) as nat) + varint_bytes(b.len()) + b,
        ValueView::Other => seq![],
    }
}

/// The encoding of fields, one after the other.
pub open spec fn fields_bytes(fs: Seq<FieldView>) -> Seq<u8>
    decreases fs.len(),
{
    if fs.len() == 0 {
        seq![]
    } else {
        field_bytes(fs[0]) + fields_bytes(fs.drop_first())
    }
}

/// A field that can be written: a field number of 1 to 2^29 - 1 and a varint
/// or bytes value.
pub open spec fn encodable(f: FieldView) -> bool {
    &&& 1 <= f.tag < 0x2000_0000
    &&& !(f.value is Other)
}

/// A field that can be written and read back: one that can be written, with
/// fewer than 2^64 bytes.
pub open spec fn writable(f: FieldView) -> bool {
    &&& encodable(f)
    &&& f.value matches ValueView::Bytes(b) ==> b.len() < 0x1_0000_0000_0000_0000
}

pub proof fn lemma_varint_bytes_len(v: nat)
    ensures
        1 <= varint_bytes(v).len(),
        v < 0x1_0000_0000_0000_0000 ==> varint_bytes(v).len() <= 10,
    decreases v,
{
    if v >= 128 {
        lemma_varint_bytes_len(v / 128);
        if v < 0x1_0000_0000_0000_0000 {
            assert(pow128(9) == 0x8000_0000_0000_0000) by {
                reveal_with_fuel(pow128, 10);
            }
            lemma_varint_bytes_short(v / 128, 9);
        }
    }
}

proof fn lemma_varint_bytes_short(v: nat, n: nat)
    requires
        v < pow128(n),
    ensures
        varint_bytes(v).len() <= n || n == 0,
    decreases v,
{
    if n > 0 && v >= 128 {
        assert(pow128(n) == 128 * pow128((n - 1) as nat));
        assert(v / 128 < pow128((n - 1) as nat));
        lemma_varint_bytes_short(v / 128, (n - 1) as nat);
        assert(varint_bytes(v).len() == 1 + varint_bytes(v / 128).len());
    }
}

/// `128^n`.
pub open spec fn pow128(n: nat) -> nat
    decreases n,
{
    if n == 0 {
        1
    } else {
        128 * pow128((n - 1) as nat)
    }
}

pub proof fn lemma_varint_roundtrip(data: Seq<u8>, pos: int, v: nat, k: nat)
    requires
        0 <= pos,
        pos + varint_bytes(v).len() <= data.len(),
        data.subrange(pos, pos + varint_bytes(v).len()) == varint_bytes(v),
        1 <= k,
        v < varint_bound(k),
    ensures
        varint_at(data, pos, k) == Some((v, pos + varint_bytes(v).len())),
    decreases v,
{
    let n = varint_bytes(v).len();
    assert(data[pos] == data.subrange(pos, pos + n)[0]);
    if v >= 128 {
        assert(k >= 2) by {
            if k == 1 {
                assert(varint_bound(1) == 2);
            }
        }
        let rest = varint_bytes(v / 128);
        assert(varint_bytes(v).drop_first() =~= rest);
        assert(data.subrange(pos + 1, pos + 1 + rest.len()) =~= data.subrange(pos, pos + n).drop_first());
        lemma_varint_roundtrip(data, pos + 1, v / 128, (k - 1) as nat);
    }
}
proof fn lemma_field_roundtrip(data: Seq<u8>, pos: int, f: FieldView, group: Option<u32>, depth: nat)
    requires
        writable(f),
        depth > 0,
        0 <= pos,
        pos + field_bytes(f).len() <= data.len(),
        data.subrange(pos, pos + field_bytes(f).len()) == field_bytes(f),
    ensures
        fields_at(data, pos, group, depth) == prepend(
            seq![f],
            fields_at(data, pos + field_bytes(f).len(), group, depth),
        ),
{
    let wire: nat = if f.value is Varint { 0 } else { 2 };
    let key = (f.tag * 8 + wire) as nat;
    let kb = varint_bytes(key);
    let fb = field_bytes(f);
    let tail = match f.value {
        ValueView::Varint(v) => varint_bytes(v as nat),
        ValueView::Bytes(b) => varint_bytes(b.len()) + b,
        ValueView::Other => seq![],
    };
    assert(fb =~= kb + tail);
    let whole = data.subrange(pos, pos + fb.len());
    lemma_varint_bytes_len(key);
    lemma_varint_bound_u64();
    assert(data.subrange(pos, pos + kb.len()) =~= whole.subrange(0, kb.len() as int));
    assert(whole.subrange(0, kb.len() as int) =~= kb);
    lemma_varint_roundtrip(data, pos, key, 10);
    assert(key_at(data, pos) == Some((f.tag, wire as u8, pos + kb.len())));
    let after_key = pos + kb.len();
    assert(data.subrange(after_key, pos + fb.len()) =~= whole.subrange(kb.len() as int, fb.len() as int));
    assert(whole.subrange(kb.len() as int, fb.len() as int) =~= tail);
    match f.value {
        ValueView::Varint(v) => {
            lemma_varint_roundtrip(data, after_key, v as nat, 10);
            lemma_varint_bytes_len(v as nat);
        },
        ValueView::Bytes(b) => {
            let lb = varint_bytes(b.len());
            assert(data.subrange(after_key, after_key + lb.len()) =~= tail.subrange(0, lb.len() as int));
            assert(tail.subrange(0, lb.len() as int) =~= lb);
            assert(b.len() <= data.len());
            lemma_varint_roundtrip(data, after_key, b.len(), 10);
            lemma_varint_bytes_len(b.len());
            let start = after_key + lb.len();
            assert(data.subrange(start, start + b.len()) =~= tail.subrange(lb.len() as int, tail.len() as int));
            assert(tail.subrange(lb.len() as int, tail.len() as int) =~= b);
        },
        ValueView::Other => {},
    }
}

/// Reading back written fields gives the same fields.
pub proof fn lemma_fields_roundtrip(data: Seq<u8>, pos: int, fs: Seq<FieldView>, depth: nat)
    requires
        forall|i: int| 0 <= i < fs.len() ==> writable(#[trigger] fs[i]),
        depth > 0,
        0 <= pos <= data.len(),
        data.subrange(pos, data.len() as int) == fields_bytes(fs),
    ensures
        fields_at(data, pos, None, depth) == Some((fs, data.len() as int)),
    decreases fs.len(),
{
    if fs.len() == 0 {
        assert(data.subrange(pos, data.len() as int).len() == 0);
    } else {
        let fb = field_bytes(fs[0]);
        let rest = fields_bytes(fs.drop_first());
        let tail = data.subrange(pos, data.len() as int);
        assert(tail =~= fb + rest);
        assert(data.subrange(pos, pos + fb.len()) =~= tail.subrange(0, fb.len() as int));
        assert(tail.subrange(0, fb.len() as int) =~= fb);
        lemma_field_roundtrip(data, pos, fs[0], None, depth);
        assert(data.subrange(pos + fb.len(), data.len() as int) =~= tail.subrange(fb.len() as int, tail.len() as int));
        assert(tail.subrange(fb.len() as int, tail.len() as int) =~= rest);
        assert forall|i: int| 0 <= i < fs.drop_first().len() implies writable(#[trigger] fs.drop_first()[i]) by {
            assert(fs.drop_first()[i] == fs[i + 1]);
        }
        lemma_fields_roundtrip(data, pos + fb.len(), fs.drop_first(), depth);
        assert(seq![fs[0]] + fs.drop_first() =~= fs);
    }
}

/// Written fields read back as themselves, at any depth that allows reading
/// at all.
pub proof fn law_message_fields_roundtrip(fs: Seq<FieldView>, depth: nat)
    requires
        forall|i: int| 0 <= i < fs.len() ==> writable(#[trigger] fs[i]),
        depth > 0,
    ensures
        message_fields(fields_bytes(fs), depth) == Some(fs),
{
    let data = fields_bytes(fs);
    assert(data.subrange(0, data.len() as int) =~= data);
    lemma_fields_roundtrip(data, 0, fs, depth);
}
/// Appends the varint encoding of `v`.
pub fn write_varint(out: &mut Vec<u8>, v: u64)
    ensures
        final(out)@ == old(out)@ + varint_bytes(v as nat),
{
    let ghost start = out@;
    let mut x = v;
    while x >= 128
        invariant
            start + varint_bytes(v as nat) == out@ + varint_bytes(x as nat),
        decreases x,
    {
        let ghost before = out@;
        out.push((x % 128 + 128) as u8);
        assert(varint_bytes(x as nat) == seq![(x % 128 + 128) as u8] + varint_bytes((x / 128) as nat));
        assert(before + varint_bytes(x as nat) =~= out@ + varint_bytes((x / 128) as nat));
        x = x / 128;
    }
    let ghost before = out@;
    out.push(x as u8);
    assert(out@ =~= before + varint_bytes(x as nat));
}

/// Appends bytes.
fn write_bytes(out: &mut Vec<u8>, b: &[u8])
    ensures
        final(out)@ == old(out)@ + b@,
{
    let ghost start = out@;
    let mut i: usize = 0;
    while i < b.len()
        invariant
            i <= b@.len(),
            out@ == start + b@.subrange(0, i as int),
        decreases b@.len() - i,
    {
        out.push(b[i]);
        i = i + 1;
        assert(out@ =~= start + b@.subrange(0, i as int));
    }
    assert(b@.subrange(0, b@.len() as int) =~= b@);
}

/// Appends the encoding of a field.
pub fn write_field(out: &mut Vec<u8>, f: &WireField)
    requires
        encodable(f@),
    ensures
        final(out)@ == old(out)@ + field_bytes(f@),
{
    let ghost start = out@;
    match &f.value {
        WireValue::Varint(v) => {
            write_varint(out, (f.tag as u64) * 8);
            write_varint(out, *v);
            assert(out@ =~= start + field_bytes(f@));
        },
        WireValue::Bytes(b) => {
            write_varint(out, (f.tag as u64) * 8 + 2);
            write_varint(out, b.len() as u64);
            write_bytes(out, b.as_slice());
            assert(out@ =~= start + field_bytes(f@));
        },
        WireValue::Other => {},
    }
}

proof fn lemma_fields_bytes_push(fs: Seq<FieldView>, f: FieldView)
    ensures
        fields_bytes(fs.push(f)) == fields_bytes(fs) + field_bytes(f),
    decreases fs.len(),
{
    if fs.len() == 0 {
        assert(fs.push(f).drop_first() =~= Seq::<FieldView>::empty());
        assert(fields_bytes(Seq::<FieldView>::empty()) == Seq::<u8>::empty());
        assert(fs.push(f)[0] == f);
        assert(fields_bytes(fs.push(f)) =~= field_bytes(f));
    } else {
        assert(fs.push(f).drop_first() =~= fs.drop_first().push(f));
        lemma_fields_bytes_push(fs.drop_first(), f);
        assert(fields_bytes(fs.push(f)) =~= fields_bytes(fs) + field_bytes(f));
    }
}

/// The encoding of fields, one after the other.
pub fn write_fields(fs: &Vec<WireField>) -> (r: Vec<u8>)
    requires
        forall|i: int| 0 <= i < fs@.len() ==> encodable(#[trigger] fs@[i]@),
    ensures
        r@ == fields_bytes(field_views(fs@)),
{
    let mut out: Vec<u8> = Vec::new();
    let mut i: usize = 0;
    assert(field_views(fs@.subrange(0, 0)) =~= seq![]);
    while i < fs.len()
        invariant
            i <= fs@.len(),
            forall|j: int| 0 <= j < fs@.len() ==> encodable(#[trigger] fs@[j]@),
            out@ == fields_bytes(field_views(fs@.subrange(0, i as int))),
        decreases fs@.len() - i,
    {
        write_field(&mut out, &fs[i]);
        proof {
            assert(field_views(fs@.subrange(0, i + 1)) =~= field_views(fs@.subrange(0, i as int)).push(fs@[i as int]@));
            lemma_fields_bytes_push(field_views(fs@.subrange(0, i as int)), fs@[i as int]@);
        }
        i = i + 1;
    }
    assert(fs@.subrange(0, fs@.len() as int) =~= fs@);
    out
}
/// Applies `step` to each field in turn, starting from `m`; `None` as soon as
/// a step refuses a field.
pub open spec fn fold_fields<M>(fs: Seq<FieldView>, m: M, step: spec_fn(M, FieldView) -> Option<M>) -> Option<M>
    decreases fs.len(),
{
    if fs.len() == 0 {
        Some(m)
    } else {
        match step(m, fs[0]) {
            Some(next) => fold_fields(fs.drop_first(), next, step),
            None => None,
        }
    }
}

/// Reads a message buffer at nesting depth `depth` into `m`: each field, in
/// order, applied by `step`.
pub open spec fn merge_message<M>(m: M, data: Seq<u8>, depth: nat, step: spec_fn(M, FieldView) -> Option<M>) -> Option<M> {
    match message_fields(data, depth) {
        Some(fs) => fold_fields(fs, m, step),
        None => None,
    }
}

pub proof fn lemma_fold_fields_at<M>(fs: Seq<FieldView>, i: int, m: M, step: spec_fn(M, FieldView) -> Option<M>)
    requires
        0 <= i < fs.len(),
    ensures
        fold_fields(fs.subrange(i, fs.len() as int), m, step) == match step(m, fs[i]) {
            Some(next) => fold_fields(fs.subrange(i + 1, fs.len() as int), next, step),
            None => None,
        },
{
    assert(fs.subrange(i, fs.len() as int).drop_first() =~= fs.subrange(i + 1, fs.len() as int));
}

pub proof fn lemma_fold_fields_single<M>(f: FieldView, m: M, step: spec_fn(M, FieldView) -> Option<M>)
    ensures
        fold_fields(seq![f], m, step) == step(m, f),
        fold_fields(Seq::<FieldView>::empty(), m, step) == Some(m),
{
    assert(seq![f].drop_first() =~= Seq::<FieldView>::empty());
    if let Some(next) = step(m, f) {
        assert(fold_fields(Seq::<FieldView>::empty(), next, step) == Some(next));
    }
}

pub proof fn lemma_fold_fields_concat<M>(a: Seq<FieldView>, b: Seq<FieldView>, m: M, step: spec_fn(M, FieldView) -> Option<M>)
    ensures
        fold_fields(a + b, m, step) == match fold_fields(a, m, step) {
            Some(next) => fold_fields(b, next, step),
            None => None,
        },
    decreases a.len(),
{
    if a.len() == 0 {
        assert(a + b =~= b);
    } else {
        assert((a + b).drop_first() =~= a.drop_first() + b);
        assert((a + b)[0] == a[0]);
        if let Some(next) = step(m, a[0]) {
            lemma_fold_fields_concat(a.drop_first(), b, next, step);
        }
    }
}

/// The bytes of a bytes field.
pub open spec fn bytes_value(v: ValueView) -> Option<Seq<u8>> {
    match v {
        ValueView::Bytes(b) => Some(b),
        _ => None,
    }
}

/// The text of a string field: its bytes must be UTF-8.
pub open spec fn string_value(v: ValueView) -> Option<Seq<char>> {
    match v {
        ValueView::Bytes(b) => if valid_utf8(b) {
            Some(decode_utf8(b))
        } else {
            None
        },
        _ => None,
    }
}

/// The number of a varint field.
pub open spec fn varint_value(v: ValueView) -> Option<u64> {
    match v {
        ValueView::Varint(n) => Some(n),
        _ => None,
    }
}

pub proof fn lemma_string_value_roundtrip(s: Seq<char>)
    ensures
        string_value(ValueView::Bytes(encode_utf8(s))) == Some(s),
{
    encode_utf8_valid_utf8(s);
    encode_utf8_decode_utf8(s);
}

pub proof fn lemma_field_bytes_within(fs: Seq<FieldView>, i: int)
    requires
        0 <= i < fs.len(),
    ensures
        field_bytes(fs[i]).len() <= fields_bytes(fs).len(),
    decreases fs.len(),
{
    if i > 0 {
        lemma_field_bytes_within(fs.drop_first(), i - 1);
    }
}

/// Fields with field numbers of 1 to 2^29 - 1 and varint or bytes values,
/// whose encoding is shorter than 2^64 bytes, can be written and read back.
pub proof fn lemma_short_fields_writable(fs: Seq<FieldView>)
    requires
        forall|i: int| 0 <= i < fs.len() ==> encodable(#[trigger] fs[i]),
        fields_bytes(fs).len() < 0x1_0000_0000_0000_0000,
    ensures
        forall|i: int| 0 <= i < fs.len() ==> writable(#[trigger] fs[i]),
{
    assert forall|i: int| 0 <= i < fs.len() implies writable(#[trigger] fs[i]) by {
        lemma_field_bytes_within(fs, i);
    }
}
} // verus!
