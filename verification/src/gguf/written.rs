//! What a GGUF file looks like that holds given tensors, and that reading it gives
//! these tensors back.

use vstd::prelude::*;

use crate::gguf::bytes::le_value;
use crate::gguf::file_laws::law_alignment;
use crate::gguf::metadata_laws::{
    in_force, law_metadata_reads_back, written_start, written_with, MetaEntry,
};
use crate::gguf::reader::{
    advance, aligned, byte_len, decode, dims_at, dims_fit, dtype_of_code, element_count, entries_at,
    entry_at, number, string_end, GgmlDtype, GgufError, GgufFile, TensorEntry, TensorError,
};
use crate::gguf::tensor::{block_size, is_quantized};

verus! {

/// `n` as a little-endian number of `len` bytes.
pub open spec fn le_bytes(n: nat, len: nat) -> Seq<u8>
    decreases len,
{
    if len == 0 {
        Seq::empty()
    } else {
        seq![(n % 256) as u8] + le_bytes(n / 256, (len - 1) as nat)
    }
}

/// How many numbers `len` bytes can tell apart.
pub open spec fn limit(len: nat) -> nat
    decreases len,
{
    if len == 0 {
        1
    } else {
        256 * limit((len - 1) as nat)
    }
}

/// A number can be read back from its bytes.
proof fn lemma_le_bytes(n: nat, len: nat)
    requires
        n < limit(len),
    ensures
        le_bytes(n, len).len() == len,
        le_value(le_bytes(n, len)) == n,
    decreases len,
{
    if len > 0 {
        lemma_le_bytes(n / 256, (len - 1) as nat);
        assert(le_bytes(n, len).drop_first() =~= le_bytes(n / 256, (len - 1) as nat));
    }
}

/// The numbers of four and of eight bytes.
pub proof fn lemma_limits()
    ensures
        limit(4) == 0x1_0000_0000,
        limit(8) == 0x1_0000_0000_0000_0000,
{
    reveal_with_fuel(limit, 9);
}

/// A string: its length and its bytes.
pub open spec fn written_string(text: Seq<u8>) -> Seq<u8> {
    le_bytes(text.len(), 8) + text
}

/// The dimensions of a tensor.
pub open spec fn written_dims(dims: Seq<usize>) -> Seq<u8>
    decreases dims.len(),
{
    if dims.len() == 0 {
        Seq::empty()
    } else {
        written_dims(dims.drop_last()) + le_bytes(dims.last() as nat, 8)
    }
}

/// The number that denotes a kind of elements.
pub open spec fn dtype_code(dtype: GgmlDtype) -> nat {
    match dtype {
        GgmlDtype::F32 => 0,
        GgmlDtype::F16 => 1,
        GgmlDtype::Q4_0 => 2,
        GgmlDtype::Q8_0 => 8,
    }
}

/// The description of a tensor.
pub open spec fn written_entry(e: TensorEntry) -> Seq<u8> {
    written_string(e.name) + le_bytes(e.dims.len(), 4) + written_dims(e.dims) + le_bytes(
        dtype_code(e.dtype),
        4,
    ) + le_bytes(e.offset as nat, 8)
}

/// The descriptions of tensors.
pub open spec fn written_entries(entries: Seq<TensorEntry>) -> Seq<u8>
    decreases entries.len(),
{
    if entries.len() == 0 {
        Seq::empty()
    } else {
        written_entry(entries[0]) + written_entries(entries.drop_first())
    }
}

/// The start of a file without metadata.
pub open spec fn written_header(version: u32, entries: Seq<TensorEntry>) -> Seq<u8> {
    seq![0x47u8, 0x47u8, 0x55u8, 0x46u8] + le_bytes(version as nat, 4) + le_bytes(entries.len(), 8)
        + le_bytes(0, 8)
}

/// Where the tensor data of a file without metadata starts.
pub open spec fn written_data_start(version: u32, entries: Seq<TensorEntry>) -> nat {
    aligned(written_header(version, entries).len() + written_entries(entries).len(), 32)
}

/// A file without metadata.
pub open spec fn written_file(version: u32, entries: Seq<TensorEntry>, data: Seq<u8>) -> Seq<u8> {
    let start = written_header(version, entries) + written_entries(entries);
    start + Seq::new(
        (written_data_start(version, entries) - start.len()) as nat,
        |i: int| 0u8,
    ) + data
}

/// A number that lies in `s` between `front` and `back` can be read back.
pub proof fn lemma_number_at(s: Seq<u8>, front: Seq<u8>, n: nat, len: nat, back: Seq<u8>)
    requires
        n < limit(len),
        s == front + le_bytes(n, len) + back,
    ensures
        le_bytes(n, len).len() == len,
        number(s, front.len(), front.len() + len) == n,
{
    lemma_le_bytes(n, len);
    assert(s.subrange(front.len() as int, (front.len() + len) as int) =~= le_bytes(n, len));
}

/// The dimensions that lie in `s` between `front` and `back` can be read back.
proof fn lemma_dims_at(s: Seq<u8>, front: Seq<u8>, dims: Seq<usize>, back: Seq<u8>)
    requires
        s == front + written_dims(dims) + back,
    ensures
        written_dims(dims).len() == 8 * dims.len(),
        dims_fit(s, front.len(), dims.len()),
        dims_at(s, front.len(), dims.len()) == dims,
    decreases dims.len(),
{
    lemma_limits();
    if dims.len() > 0 {
        let init = dims.drop_last();
        let last = le_bytes(dims.last() as nat, 8);
        assert(s =~= front + written_dims(init) + (last + back));
        lemma_dims_at(s, front, init, last + back);
        let before = front + written_dims(init);
        assert(s =~= before + last + back);
        lemma_number_at(s, before, dims.last() as nat, 8, back);
        assert forall|i: nat| i < dims.len() implies #[trigger] number(
            s,
            front.len() + 8 * i,
            front.len() + 8 * i + 8,
        ) == dims[i as int] by {
            if i < init.len() {
                assert(dims_at(s, front.len(), init.len())[i as int] == init[i as int]);
            }
        }
    }
    assert(dims_at(s, front.len(), dims.len()) =~= dims) by {
        assert forall|i: int| 0 <= i < dims.len() implies dims_at(s, front.len(), dims.len())[i]
            == dims[i] by {
            assert(number(
                s,
                front.len() + 8 * (i as nat),
                front.len() + 8 * (i as nat) + 8,
            ) == dims[i]);
        }
    }
}

/// Where the parts of a description lie that begins at `pos`.
spec fn entry_ends(e: TensorEntry, pos: nat) -> (nat, nat, nat, nat, nat) {
    let name = pos + 8 + e.name.len();
    let rank = name + 4;
    let dims = rank + 8 * e.dims.len();
    let code = dims + 4;
    (name, rank, dims, code, code + 8)
}

/// The name and the number of dimensions of a description.
proof fn lemma_entry_start(s: Seq<u8>, front: Seq<u8>, e: TensorEntry, back: Seq<u8>)
    requires
        s == front + written_string(e.name) + le_bytes(e.dims.len(), 4) + back,
        e.name.len() <= u64::MAX,
        e.dims.len() <= u32::MAX,
    ensures
        ({
            let (name, rank, _, _, _) = entry_ends(e, front.len());
            &&& number(s, front.len(), front.len() + 8) == e.name.len()
            &&& s.subrange(front.len() as int + 8, name as int) == e.name
            &&& number(s, name, rank) == e.dims.len()
            &&& rank <= s.len()
            &&& (front + written_string(e.name)).len() == name
            &&& (front + written_string(e.name) + le_bytes(e.dims.len(), 4)).len() == rank
        }),
{
    lemma_limits();
    let n1 = le_bytes(e.name.len(), 8);
    let n2 = le_bytes(e.dims.len(), 4);
    assert(s =~= front + n1 + (e.name + n2 + back));
    lemma_number_at(s, front, e.name.len(), 8, e.name + n2 + back);
    lemma_number_at(s, front + written_string(e.name), e.dims.len(), 4, back);
    assert(s.subrange(front.len() as int + 8, front.len() as int + 8 + e.name.len()) =~= e.name);
}

/// The kind of elements and the place of a description.
proof fn lemma_entry_end(s: Seq<u8>, front: Seq<u8>, e: TensorEntry, back: Seq<u8>)
    requires
        s == front + le_bytes(dtype_code(e.dtype), 4) + le_bytes(e.offset as nat, 8) + back,
    ensures
        number(s, front.len(), front.len() + 4) == dtype_code(e.dtype),
        number(s, front.len() + 4, front.len() + 12) == e.offset,
        front.len() + 12 <= s.len(),
        le_bytes(dtype_code(e.dtype), 4).len() == 4,
        le_bytes(e.offset as nat, 8).len() == 8,
{
    lemma_limits();
    let n3 = le_bytes(dtype_code(e.dtype), 4);
    let n4 = le_bytes(e.offset as nat, 8);
    assert(s =~= front + n3 + (n4 + back));
    lemma_number_at(s, front, dtype_code(e.dtype), 4, n4 + back);
    lemma_number_at(s, front + n3, e.offset as nat, 8, back);
}

/// A description that lies in `s` between `front` and `back` can be read back.
proof fn lemma_entry_at(s: Seq<u8>, front: Seq<u8>, e: TensorEntry, back: Seq<u8>)
    requires
        s == front + written_entry(e) + back,
        s.len() <= usize::MAX,
        e.dims.len() <= u32::MAX,
    ensures
        entry_at(s, front.len()) == Ok::<_, GgufError>(
            (e, front.len() + written_entry(e).len()),
        ),
        written_entry(e).len() > 0,
{
    let head = written_string(e.name) + le_bytes(e.dims.len(), 4);
    let d = written_dims(e.dims);
    let tail = le_bytes(dtype_code(e.dtype), 4) + le_bytes(e.offset as nat, 8);
    let pos = front.len();
    assert(written_entry(e) =~= head + d + tail);
    assert(s =~= front + written_string(e.name) + le_bytes(e.dims.len(), 4) + (d + tail + back));
    lemma_entry_start(s, front, e, d + tail + back);
    assert(s =~= (front + head) + d + (tail + back));
    assert(front + head =~= front + written_string(e.name) + le_bytes(e.dims.len(), 4));
    lemma_dims_at(s, front + head, e.dims, tail + back);
    assert(s =~= (front + head + d) + le_bytes(dtype_code(e.dtype), 4) + le_bytes(
        e.offset as nat,
        8,
    ) + back);
    lemma_entry_end(s, front + head + d, e, back);
    let (name, rank, dims, code, end) = entry_ends(e, pos);
    assert(string_end(s, pos) == Ok::<_, GgufError>(name));
    assert(advance(s, name, 4) == Ok::<_, GgufError>(rank));
    assert(advance(s, rank, 8 * e.dims.len()) == Ok::<_, GgufError>(dims));
    assert(advance(s, dims, 4) == Ok::<_, GgufError>(code));
    assert(dtype_of_code(dtype_code(e.dtype)) == Some(e.dtype));
    assert(advance(s, code, 8) == Ok::<_, GgufError>(end));
    assert(end == pos + written_entry(e).len());
}

/// Descriptions that lie in `s` between `front` and `back` can be read back.
pub proof fn lemma_entries_at(
    s: Seq<u8>,
    front: Seq<u8>,
    entries: Seq<TensorEntry>,
    back: Seq<u8>,
    before: Seq<TensorEntry>,
)
    requires
        s == front + written_entries(entries) + back,
        s.len() <= usize::MAX,
        forall|i: int| 0 <= i < entries.len() ==> (#[trigger] entries[i]).dims.len() <= u32::MAX,
    ensures
        entries_at(s, front.len(), entries.len(), before) == Ok::<_, GgufError>(
            (before + entries, front.len() + written_entries(entries).len()),
        ),
        entries.len() <= written_entries(entries).len(),
    decreases entries.len(),
{
    if entries.len() == 0 {
        assert(before + entries =~= before);
    } else {
        let first = written_entry(entries[0]);
        let rest = entries.drop_first();
        assert(s =~= front + first + (written_entries(rest) + back));
        lemma_entry_at(s, front, entries[0], written_entries(rest) + back);
        assert(s =~= (front + first) + written_entries(rest) + back);
        lemma_entries_at(s, front + first, rest, back, before.push(entries[0]));
        assert(before.push(entries[0]) + rest =~= before + entries);
    }
}

/// A file that was written is read as what was written.
pub proof fn law_written_file_reads_back(version: u32, entries: Seq<TensorEntry>, data: Seq<u8>)
    requires
        version == 2 || version == 3,
        written_file(version, entries, data).len() <= usize::MAX,
        forall|i: int| 0 <= i < entries.len() ==> (#[trigger] entries[i]).dims.len() <= u32::MAX,
    ensures
        decode(written_file(version, entries, data)) == Ok::<_, GgufError>(
            GgufFile {
                version,
                tensors: entries,
                data_start: written_data_start(version, entries) as u64,
                bytes: written_file(version, entries, data),
            },
        ),
{
    let meta = Seq::<MetaEntry>::empty();
    let start = written_header(version, entries) + written_entries(entries);
    law_alignment(start.len(), 32);
    let pad = (written_data_start(version, entries) - start.len()) as nat;
    assert(written_start(version, meta, entries) =~= start);
    assert(written_with(version, meta, entries, pad, data) =~= written_file(
        version,
        entries,
        data,
    ));
    assert(in_force(meta, 32, 32));
    law_metadata_reads_back(version, meta, entries, 32, pad, data);
}

/// The bytes of a tensor in a file that was written are those of its place in the
/// tensor data, if the data holds them all.
pub proof fn law_written_data_reads_back(
    version: u32,
    entries: Seq<TensorEntry>,
    data: Seq<u8>,
    e: TensorEntry,
)
    requires
        written_file(version, entries, data).len() <= usize::MAX,
        e.offset + byte_len(e.dtype, element_count(e.dims)) <= data.len(),
        element_count(e.dims) <= usize::MAX,
        is_quantized(e.dtype) ==> element_count(e.dims) % block_size() == 0,
    ensures
        (GgufFile {
            version,
            tensors: entries,
            data_start: written_data_start(version, entries) as u64,
            bytes: written_file(version, entries, data),
        }).entry_data(e) == Ok::<_, TensorError>(
            data.subrange(
                e.offset as int,
                e.offset + byte_len(e.dtype, element_count(e.dims)) as int,
            ),
        ),
{
    let s = written_file(version, entries, data);
    let from = written_data_start(version, entries) as int;
    let len = byte_len(e.dtype, element_count(e.dims)) as int;
    assert(from >= written_header(version, entries).len() + written_entries(entries).len());
    assert(s.subrange(from + e.offset, from + e.offset + len) =~= data.subrange(
        e.offset as int,
        e.offset + len,
    ));
}

} // verus!
