//! Files with metadata: reading them gives the tensors that were written, whatever the
//! metadata says of other things than the alignment.

use vstd::prelude::*;
use vstd::utf8::encode_utf8;

use crate::gguf::reader::{
    advance, aligned, byte_len, decode, element_count, metadata, number, string_end, value_end,
    values_end, GgmlDtype, GgufError, GgufFile, TensorEntry, TensorError,
};
use crate::gguf::file_laws::law_alignment;
use crate::gguf::written::{
    le_bytes, lemma_entries_at, lemma_limits, lemma_number_at, limit, written_entries,
    written_string,
};

verus! {

/// A value in the metadata of a file. Signed numbers and floats are given as their bit
/// patterns.
pub enum MetaValue {
    U8(u8),
    I8(u8),
    U16(u16),
    I16(u16),
    U32(u32),
    I32(u32),
    Single(u32),
    Bool(u8),
    Text(Seq<u8>),
    Array { kind: u32, items: Seq<MetaValue> },
    U64(u64),
    I64(u64),
    Double(u64),
}

/// The number that a file has for the type of a value.
pub open spec fn meta_code(v: MetaValue) -> nat {
    match v {
        MetaValue::U8(_) => 0,
        MetaValue::I8(_) => 1,
        MetaValue::U16(_) => 2,
        MetaValue::I16(_) => 3,
        MetaValue::U32(_) => 4,
        MetaValue::I32(_) => 5,
        MetaValue::Single(_) => 6,
        MetaValue::Bool(_) => 7,
        MetaValue::Text(_) => 8,
        MetaValue::Array { .. } => 9,
        MetaValue::U64(_) => 10,
        MetaValue::I64(_) => 11,
        MetaValue::Double(_) => 12,
    }
}

/// The bytes of a value.
pub open spec fn written_value(v: MetaValue) -> Seq<u8>
    decreases v,
{
    match v {
        MetaValue::U8(x) => seq![x],
        MetaValue::I8(x) => seq![x],
        MetaValue::U16(x) => le_bytes(x as nat, 2),
        MetaValue::I16(x) => le_bytes(x as nat, 2),
        MetaValue::U32(x) => le_bytes(x as nat, 4),
        MetaValue::I32(x) => le_bytes(x as nat, 4),
        MetaValue::Single(x) => le_bytes(x as nat, 4),
        MetaValue::Bool(x) => seq![x],
        MetaValue::Text(t) => written_string(t),
        MetaValue::Array { kind, items } => le_bytes(kind as nat, 4) + le_bytes(items.len(), 8)
            + written_items(items),
        MetaValue::U64(x) => le_bytes(x as nat, 8),
        MetaValue::I64(x) => le_bytes(x as nat, 8),
        MetaValue::Double(x) => le_bytes(x as nat, 8),
    }
}

/// The bytes of values one after the other.
pub open spec fn written_items(items: Seq<MetaValue>) -> Seq<u8>
    decreases items,
{
    if items.len() == 0 {
        Seq::empty()
    } else {
        written_value(items[0]) + written_items(items.subrange(1, items.len() as int))
    }
}

/// Whether the items of arrays have the type that their array says.
pub open spec fn uniform(v: MetaValue) -> bool
    decreases v,
{
    match v {
        MetaValue::Array { kind, items } => uniform_items(items, kind as nat),
        _ => true,
    }
}

/// Whether values have one type, and so have the items of arrays among them.
pub open spec fn uniform_items(items: Seq<MetaValue>, kind: nat) -> bool
    decreases items,
{
    items.len() == 0 || (meta_code(items[0]) == kind && uniform(items[0]) && uniform_items(
        items.subrange(1, items.len() as int),
        kind,
    ))
}

/// A number of one or two bytes has as many bytes.
proof fn lemma_small_limits()
    ensures
        limit(1) == 0x100,
        limit(2) == 0x1_0000,
{
    reveal_with_fuel(limit, 3);
}

/// The end of a value that lies in `s` between `front` and `back` is found.
proof fn lemma_value_at(s: Seq<u8>, front: Seq<u8>, v: MetaValue, back: Seq<u8>)
    requires
        s == front + written_value(v) + back,
        s.len() <= usize::MAX,
        uniform(v),
    ensures
        value_end(s, front.len(), meta_code(v)) == Ok::<_, GgufError>(
            front.len() + written_value(v).len(),
        ),
        written_value(v).len() > 0,
    decreases v,
{
    lemma_limits();
    lemma_small_limits();
    let pos = front.len();
    match v {
        MetaValue::U8(_) | MetaValue::I8(_) | MetaValue::Bool(_) => {},
        MetaValue::U16(x) | MetaValue::I16(x) => {
            lemma_number_at(s, front, x as nat, 2, back);
        },
        MetaValue::U32(x) | MetaValue::I32(x) | MetaValue::Single(x) => {
            lemma_number_at(s, front, x as nat, 4, back);
        },
        MetaValue::U64(x) | MetaValue::I64(x) | MetaValue::Double(x) => {
            lemma_number_at(s, front, x as nat, 8, back);
        },
        MetaValue::Text(t) => {
            lemma_string_at(s, front, t, back);
        },
        MetaValue::Array { kind, items } => {
            let n1 = le_bytes(kind as nat, 4);
            let n2 = le_bytes(items.len(), 8);
            let list = written_items(items);
            assert(items.len() <= list.len()) by {
                lemma_items_long(items, kind as nat);
            }
            assert(s =~= front + n1 + (n2 + list + back));
            lemma_number_at(s, front, kind as nat, 4, n2 + list + back);
            assert(s =~= (front + n1) + n2 + (list + back));
            lemma_number_at(s, front + n1, items.len(), 8, list + back);
            assert(s =~= (front + n1 + n2) + list + back);
            lemma_items_at(s, front + n1 + n2, items, kind as nat, back);
            assert(advance(s, pos, 12) == Ok::<_, GgufError>(pos + 12));
        },
    }
}

/// Values take at least a byte each.
proof fn lemma_items_long(items: Seq<MetaValue>, kind: nat)
    ensures
        items.len() <= written_items(items).len(),
    decreases items,
{
    if items.len() > 0 {
        lemma_items_long(items.subrange(1, items.len() as int), kind);
        lemma_value_long(items[0]);
    }
}

/// A little-endian number has as many bytes as it is given.
proof fn lemma_le_len(n: nat, len: nat)
    ensures
        le_bytes(n, len).len() == len,
    decreases len,
{
    if len > 0 {
        lemma_le_len(n / 256, (len - 1) as nat);
    }
}

/// A value takes at least a byte.
proof fn lemma_value_long(v: MetaValue)
    ensures
        written_value(v).len() > 0,
{
    match v {
        MetaValue::U16(x) | MetaValue::I16(x) => {
            lemma_le_len(x as nat, 2);
        },
        MetaValue::U32(x) | MetaValue::I32(x) | MetaValue::Single(x) => {
            lemma_le_len(x as nat, 4);
        },
        MetaValue::U64(x) | MetaValue::I64(x) | MetaValue::Double(x) => {
            lemma_le_len(x as nat, 8);
        },
        MetaValue::Text(t) => {
            lemma_le_len(t.len(), 8);
        },
        MetaValue::Array { kind, items } => {
            lemma_le_len(kind as nat, 4);
        },
        _ => {},
    }
}

/// The end of a string that lies in `s` between `front` and `back` is found.
proof fn lemma_string_at(s: Seq<u8>, front: Seq<u8>, text: Seq<u8>, back: Seq<u8>)
    requires
        s == front + written_string(text) + back,
        s.len() <= usize::MAX,
    ensures
        string_end(s, front.len()) == Ok::<_, GgufError>(front.len() + 8 + text.len()),
        written_string(text).len() == 8 + text.len(),
        s.subrange(front.len() as int + 8, front.len() as int + 8 + text.len()) == text,
{
    lemma_limits();
    let n = le_bytes(text.len(), 8);
    assert(s =~= front + n + (text + back));
    lemma_number_at(s, front, text.len(), 8, text + back);
    assert(s.subrange(front.len() as int + 8, front.len() as int + 8 + text.len()) =~= text);
}

/// The end of values that lie in `s` between `front` and `back` is found.
proof fn lemma_items_at(
    s: Seq<u8>,
    front: Seq<u8>,
    items: Seq<MetaValue>,
    kind: nat,
    back: Seq<u8>,
)
    requires
        s == front + written_items(items) + back,
        s.len() <= usize::MAX,
        uniform_items(items, kind),
    ensures
        values_end(s, front.len(), kind, items.len()) == Ok::<_, GgufError>(
            front.len() + written_items(items).len(),
        ),
    decreases items,
{
    if items.len() > 0 {
        let first = written_value(items[0]);
        let rest = items.subrange(1, items.len() as int);
        assert(s =~= front + first + (written_items(rest) + back));
        lemma_value_at(s, front, items[0], written_items(rest) + back);
        assert(s =~= (front + first) + written_items(rest) + back);
        lemma_items_at(s, front + first, rest, kind, back);
    }
}

/// An entry of the metadata.
pub struct MetaEntry {
    pub key: Seq<u8>,
    pub value: MetaValue,
}

/// The bytes of entries of the metadata.
pub open spec fn written_metadata(entries: Seq<MetaEntry>) -> Seq<u8>
    decreases entries.len(),
{
    if entries.len() == 0 {
        Seq::empty()
    } else {
        written_string(entries[0].key) + le_bytes(meta_code(entries[0].value), 4) + written_value(
            entries[0].value,
        ) + written_metadata(entries.drop_first())
    }
}

/// Whether an entry gives the alignment.
pub open spec fn gives_alignment(e: MetaEntry) -> bool {
    e.key == encode_utf8("general.alignment"@) && e.value is U32
}

/// Whether tensor data is aligned to `alignment`: the last entry that gives an alignment
/// says so, or none does and it is `otherwise`.
pub open spec fn in_force(entries: Seq<MetaEntry>, alignment: nat, otherwise: nat) -> bool {
    ||| alignment == otherwise && forall|i: int|
        0 <= i < entries.len() ==> !gives_alignment(#[trigger] entries[i])
    ||| exists|i: int|
        0 <= i < entries.len() && gives_alignment(#[trigger] entries[i]) && entries[i].value
            == MetaValue::U32(alignment as u32) && alignment <= u32::MAX && forall|j: int|
            i < j < entries.len() ==> !gives_alignment(#[trigger] entries[j])
}

/// The first entry of the metadata.
proof fn lemma_first_meta(s: Seq<u8>, front: Seq<u8>, e: MetaEntry, back: Seq<u8>)
    requires
        s == front + written_string(e.key) + le_bytes(meta_code(e.value), 4) + written_value(
            e.value,
        ) + back,
        s.len() <= usize::MAX,
        uniform(e.value),
    ensures
        ({
            let k = front.len() + 8 + e.key.len();
            let q = k + 4 + written_value(e.value).len();
            &&& string_end(s, front.len()) == Ok::<_, GgufError>(k)
            &&& s.subrange(front.len() as int + 8, k as int) == e.key
            &&& advance(s, k, 4) == Ok::<_, GgufError>(k + 4)
            &&& number(s, k, k + 4) == meta_code(e.value)
            &&& value_end(s, k + 4, meta_code(e.value)) == Ok::<_, GgufError>(q)
            &&& e.value matches MetaValue::U32(x) ==> number(s, k + 4, q) == x
            &&& (front + written_string(e.key) + le_bytes(meta_code(e.value), 4) + written_value(
                e.value,
            )).len() == q
        }),
{
    lemma_limits();
    let text = written_string(e.key);
    let code = le_bytes(meta_code(e.value), 4);
    let value = written_value(e.value);
    assert(s =~= front + text + (code + value + back));
    lemma_string_at(s, front, e.key, code + value + back);
    assert(s =~= (front + text) + code + (value + back));
    lemma_number_at(s, front + text, meta_code(e.value), 4, value + back);
    assert(s =~= (front + text + code) + value + back);
    lemma_value_at(s, front + text + code, e.value, back);
    if let MetaValue::U32(x) = e.value {
        lemma_number_at(s, front + text + code, x as nat, 4, back);
    }
}

/// The alignment that is in force after the first entry.
spec fn alignment_after(e: MetaEntry, otherwise: nat) -> nat {
    if gives_alignment(e) {
        e.value->U32_0 as nat
    } else {
        otherwise
    }
}

/// What is in force after all entries is in force after the first and the others.
proof fn lemma_in_force_rest(entries: Seq<MetaEntry>, alignment: nat, otherwise: nat)
    requires
        entries.len() > 0,
        in_force(entries, alignment, otherwise),
    ensures
        in_force(entries.drop_first(), alignment, alignment_after(entries[0], otherwise)),
{
    let rest = entries.drop_first();
    assert forall|j: int| 0 <= j < rest.len() implies rest[j] == entries[j + 1] by {}
    if exists|i: int|
        0 <= i < entries.len() && gives_alignment(#[trigger] entries[i]) && entries[i].value
            == MetaValue::U32(alignment as u32) && alignment <= u32::MAX && forall|j: int|
            i < j < entries.len() ==> !gives_alignment(#[trigger] entries[j]) {
        let i = choose|i: int|
            0 <= i < entries.len() && gives_alignment(#[trigger] entries[i]) && entries[i].value
                == MetaValue::U32(alignment as u32) && alignment <= u32::MAX && forall|j: int|
                i < j < entries.len() ==> !gives_alignment(#[trigger] entries[j]);
        if i > 0 {
            assert(gives_alignment(rest[i - 1]));
            assert forall|j: int| i - 1 < j < rest.len() implies !gives_alignment(
                #[trigger] rest[j],
            ) by {
                assert(!gives_alignment(entries[j + 1]));
            }
        } else {
            assert forall|j: int| 0 <= j < rest.len() implies !gives_alignment(
                #[trigger] rest[j],
            ) by {
                assert(!gives_alignment(entries[j + 1]));
            }
        }
    } else {
        assert forall|j: int| 0 <= j < rest.len() implies !gives_alignment(#[trigger] rest[j]) by {
            assert(!gives_alignment(entries[j + 1]));
        }
    }
}

/// Metadata that lies in `s` between `front` and `back` is read past.
proof fn lemma_metadata_at(
    s: Seq<u8>,
    front: Seq<u8>,
    entries: Seq<MetaEntry>,
    back: Seq<u8>,
    alignment: nat,
    otherwise: nat,
)
    requires
        s == front + written_metadata(entries) + back,
        s.len() <= usize::MAX,
        forall|i: int| 0 <= i < entries.len() ==> uniform((#[trigger] entries[i]).value),
        in_force(entries, alignment, otherwise),
    ensures
        metadata(s, front.len(), entries.len(), otherwise) == Ok::<_, GgufError>(
            (front.len() + written_metadata(entries).len(), alignment),
        ),
        entries.len() <= written_metadata(entries).len(),
    decreases entries.len(),
{
    if entries.len() > 0 {
        let e = entries[0];
        let first = written_string(e.key) + le_bytes(meta_code(e.value), 4) + written_value(
            e.value,
        );
        let rest = entries.drop_first();
        let after = written_metadata(rest) + back;
        assert(s =~= front + written_string(e.key) + le_bytes(meta_code(e.value), 4)
            + written_value(e.value) + after);
        lemma_first_meta(s, front, e, after);
        assert(front + first =~= front + written_string(e.key) + le_bytes(meta_code(e.value), 4)
            + written_value(e.value));
        assert(s =~= (front + first) + written_metadata(rest) + back);
        assert forall|i: int| 0 <= i < rest.len() implies uniform((#[trigger] rest[i]).value) by {
            assert(rest[i] == entries[i + 1]);
        }
        lemma_in_force_rest(entries, alignment, otherwise);
        lemma_metadata_at(
            s,
            front + first,
            rest,
            back,
            alignment,
            alignment_after(e, otherwise),
        );
        assert(written_metadata(entries) =~= first + written_metadata(rest));
    }
}

/// The bytes in front of the tensor data.
pub open spec fn written_start(
    version: u32,
    meta: Seq<MetaEntry>,
    entries: Seq<TensorEntry>,
) -> Seq<u8> {
    seq![0x47u8, 0x47u8, 0x55u8, 0x46u8] + le_bytes(version as nat, 4) + le_bytes(entries.len(), 8)
        + le_bytes(meta.len(), 8) + written_metadata(meta) + written_entries(entries)
}

/// A file with metadata, whose tensor data is `data`, with `pad` zeros in front of it.
pub open spec fn written_with(
    version: u32,
    meta: Seq<MetaEntry>,
    entries: Seq<TensorEntry>,
    pad: nat,
    data: Seq<u8>,
) -> Seq<u8> {
    written_start(version, meta, entries) + Seq::new(pad, |i: int| 0u8) + data
}

/// The header of a file.
proof fn lemma_header_at(s: Seq<u8>, version: u32, n: nat, m: nat, back: Seq<u8>)
    requires
        s == seq![0x47u8, 0x47u8, 0x55u8, 0x46u8] + le_bytes(version as nat, 4) + le_bytes(n, 8)
            + le_bytes(m, 8) + back,
        n <= u64::MAX,
        m <= u64::MAX,
    ensures
        s.len() == 24 + back.len(),
        s.subrange(0, 4) == seq![0x47u8, 0x47u8, 0x55u8, 0x46u8],
        number(s, 4, 8) == version,
        number(s, 8, 16) == n,
        number(s, 16, 24) == m,
        (seq![0x47u8, 0x47u8, 0x55u8, 0x46u8] + le_bytes(version as nat, 4) + le_bytes(n, 8)
            + le_bytes(m, 8)).len() == 24,
{
    lemma_limits();
    let magic = seq![0x47u8, 0x47u8, 0x55u8, 0x46u8];
    let v = le_bytes(version as nat, 4);
    let a = le_bytes(n, 8);
    let b = le_bytes(m, 8);
    assert(s =~= magic + v + (a + b + back));
    lemma_number_at(s, magic, version as nat, 4, a + b + back);
    assert(s =~= (magic + v) + a + (b + back));
    lemma_number_at(s, magic + v, n, 8, b + back);
    lemma_number_at(s, magic + v + a, m, 8, back);
    assert(s.subrange(0, 4) =~= magic);
}

/// A file that was written with metadata is read as the tensors that were written. Its
/// tensor data starts at the next multiple of the alignment that the metadata gives, or of
/// 32 if it gives none.
pub proof fn law_metadata_reads_back(
    version: u32,
    meta: Seq<MetaEntry>,
    entries: Seq<TensorEntry>,
    alignment: nat,
    pad: nat,
    data: Seq<u8>,
)
    requires
        version == 2 || version == 3,
        written_with(version, meta, entries, pad, data).len() <= usize::MAX,
        forall|i: int| 0 <= i < meta.len() ==> uniform((#[trigger] meta[i]).value),
        forall|i: int| 0 <= i < entries.len() ==> (#[trigger] entries[i]).dims.len() <= u32::MAX,
        in_force(meta, alignment, 32),
        alignment > 0,
        pad < alignment,
        (written_start(version, meta, entries).len() + pad) % alignment == 0,
    ensures
        decode(written_with(version, meta, entries, pad, data)) == Ok::<_, GgufError>(
            GgufFile {
                version,
                tensors: entries,
                data_start: (written_start(version, meta, entries).len() + pad) as u64,
                bytes: written_with(version, meta, entries, pad, data),
            },
        ),
{
    let s = written_with(version, meta, entries, pad, data);
    let list = written_entries(entries);
    let info = written_metadata(meta);
    let back = Seq::new(pad, |i: int| 0u8) + data;
    let magic = seq![0x47u8, 0x47u8, 0x55u8, 0x46u8];
    let header = magic + le_bytes(version as nat, 4) + le_bytes(entries.len(), 8) + le_bytes(
        meta.len(),
        8,
    );
    lemma_le_len(version as nat, 4);
    lemma_le_len(entries.len(), 8);
    lemma_le_len(meta.len(), 8);
    assert(s =~= header + info + (list + back));
    lemma_metadata_at(s, header, meta, list + back, alignment, 32);
    assert(s =~= (header + info) + list + back);
    lemma_entries_at(s, header + info, entries, back, Seq::empty());
    assert(Seq::<TensorEntry>::empty() + entries =~= entries);
    assert(s =~= magic + le_bytes(version as nat, 4) + le_bytes(entries.len(), 8) + le_bytes(
        meta.len(),
        8,
    ) + (info + list + back));
    lemma_header_at(s, version, entries.len(), meta.len(), info + list + back);
    assert(advance(s, 0, 8) == Ok::<_, GgufError>(8nat));
    assert(advance(s, 8, 16) == Ok::<_, GgufError>(24nat));
    let q = (header + info + list).len();
    assert(written_start(version, meta, entries) =~= header + info + list);
    law_alignment(q, alignment);
    lemma_same_multiple(q, alignment, q + pad, aligned(q, alignment));
}

/// There is only one multiple of `a` from `q` up to before `q + a`.
proof fn lemma_same_multiple(q: nat, a: nat, x: nat, y: nat)
    requires
        a > 0,
        q <= x < q + a,
        q <= y < q + a,
        x % a == 0,
        y % a == 0,
    ensures
        x == y,
{
    vstd::arithmetic::div_mod::lemma_fundamental_div_mod(x as int, a as int);
    vstd::arithmetic::div_mod::lemma_fundamental_div_mod(y as int, a as int);
    let i = x as int / a as int;
    let j = y as int / a as int;
    assert(x == y) by (nonlinear_arith)
        requires
            a > 0,
            x == a * i,
            y == a * j,
            -a < x - y < a,
    ;
}

/// The data of a tensor in a file that was written with metadata is that at its offset in
/// the tensor data.
pub proof fn law_metadata_data_reads_back(
    version: u32,
    meta: Seq<MetaEntry>,
    entries: Seq<TensorEntry>,
    pad: nat,
    data: Seq<u8>,
    e: TensorEntry,
    len: nat,
)
    requires
        written_with(version, meta, entries, pad, data).len() <= usize::MAX,
        len == match e.dtype {
            GgmlDtype::F32 => 4 * element_count(e.dims),
            GgmlDtype::F16 => 2 * element_count(e.dims),
            GgmlDtype::Q4_0 => 18 * (element_count(e.dims) / 32),
            GgmlDtype::Q8_0 => 34 * (element_count(e.dims) / 32),
        },
        e.offset + len <= data.len(),
        element_count(e.dims) <= usize::MAX,
        e.dtype == GgmlDtype::Q4_0 || e.dtype == GgmlDtype::Q8_0 ==> element_count(e.dims) % 32
            == 0,
    ensures
        (GgufFile {
            version,
            tensors: entries,
            data_start: (written_start(version, meta, entries).len() + pad) as u64,
            bytes: written_with(version, meta, entries, pad, data),
        }).entry_data(e) == Ok::<_, TensorError>(
            data.subrange(e.offset as int, e.offset + len as int),
        ),
{
    let s = written_with(version, meta, entries, pad, data);
    let from = (written_start(version, meta, entries).len() + pad) as int;
    assert(byte_len(e.dtype, element_count(e.dims)) == len);
    assert(s.subrange(from + e.offset, from + e.offset + len) =~= data.subrange(
        e.offset as int,
        e.offset + len as int,
    ));
}

} // verus!
