//! What a file gives, in terms of its bytes.

use vstd::prelude::*;
use vstd::utf8::encode_utf8;

use crate::gguf::bytes::law_little_endian;
use crate::gguf::floats::{halves, singles, FloatsView};
use crate::gguf::loader::{LoadError, Purpose, Slot};
use crate::gguf::reader::{
    advance, aligned, byte_len, decode, dtype_of_code, element_count, last_named, GgmlDtype,
    GgufError, GgufFile, TensorEntry, TensorError,
};

verus! {

/// A tensor is described by the last entry of the file that has its name.
pub proof fn law_last_entry_counts(file: GgufFile, name: Seq<char>)
    ensures
        match file.entry(name) {
            Some(e) => exists|i: int|
                0 <= i < file.tensors.len() && #[trigger] file.tensors[i] == e && e.name
                    == encode_utf8(name) && forall|j: int|
                    i < j < file.tensors.len() ==> (#[trigger] file.tensors[j]).name != encode_utf8(
                        name,
                    ),
            None => forall|j: int|
                0 <= j < file.tensors.len() ==> (#[trigger] file.tensors[j]).name != encode_utf8(
                    name,
                ),
        },
{
    lemma_last_named(file.tensors, encode_utf8(name));
}

/// The last entry of a list that has a name.
proof fn lemma_last_named(tensors: Seq<TensorEntry>, name: Seq<u8>)
    ensures
        match last_named(tensors, name) {
            Some(e) => exists|i: int|
                0 <= i < tensors.len() && #[trigger] tensors[i] == e && e.name == name && forall|
                    j: int,
                |
                    i < j < tensors.len() ==> (#[trigger] tensors[j]).name != name,
            None => forall|j: int| 0 <= j < tensors.len() ==> (#[trigger] tensors[j]).name != name,
        },
    decreases tensors.len(),
{
    if tensors.len() > 0 {
        let n = tensors.len() - 1;
        if tensors.last().name == name {
            assert(tensors[n] == tensors.last());
        } else {
            let init = tensors.drop_last();
            lemma_last_named(init, name);
            match last_named(tensors, name) {
                Some(e) => {
                    let i = choose|i: int|
                        0 <= i < init.len() && #[trigger] init[i] == e && e.name == name && forall|
                            j: int,
                        |
                            i < j < init.len() ==> (#[trigger] init[j]).name != name;
                    assert(tensors[i] == e);
                    assert forall|j: int| i < j < tensors.len() implies (
                    #[trigger] tensors[j]).name != name by {
                        if j < n {
                            assert(init[j] == tensors[j]);
                        }
                    }
                },
                None => {
                    assert forall|j: int| 0 <= j < tensors.len() implies (
                    #[trigger] tensors[j]).name != name by {
                        if j < n {
                            assert(init[j] == tensors[j]);
                        }
                    }
                },
            }
        }
    }
}

/// A tensor has as many elements as the product of its dimensions.
pub proof fn law_element_count(dims: Seq<usize>, d: usize)
    ensures
        element_count(Seq::empty()) == 1,
        element_count(dims.push(d)) == element_count(dims) * d,
        dims.len() == 1 ==> element_count(dims) == dims[0],
        dims.len() == 2 ==> element_count(dims) == dims[0] * dims[1],
        dims.len() == 3 ==> element_count(dims) == dims[0] * dims[1] * dims[2],
{
    reveal_with_fuel(element_count, 4);
    assert(dims.push(d).drop_last() =~= dims);
    if dims.len() >= 1 {
        assert(1 * dims[0] == dims[0]) by (nonlinear_arith);
    }
}

/// The data of a tensor lies at its offset behind the start of the tensor data, and takes
/// four bytes for each 32-bit float, two for each 16-bit float, and 18 or 34 for each block
/// of 32 elements. It can be had exactly if the sizes are machine numbers, blocks are whole,
/// and the file is long enough.
pub proof fn law_data_in_place(file: GgufFile, e: TensorEntry, count: nat, len: nat)
    requires
        count == element_count(e.dims),
        len == match e.dtype {
            GgmlDtype::F32 => 4 * count,
            GgmlDtype::F16 => 2 * count,
            GgmlDtype::Q4_0 => 18 * (count / 32),
            GgmlDtype::Q8_0 => 34 * (count / 32),
        },
    ensures
        byte_len(e.dtype, count) == len,
        ({
            let start = file.data_start + e.offset;
            let blocks = e.dtype == GgmlDtype::Q4_0 || e.dtype == GgmlDtype::Q8_0;
            match file.entry_data(e) {
                Ok(bytes) => {
                    &&& count <= usize::MAX
                    &&& blocks ==> count % 32 == 0
                    &&& len <= usize::MAX
                    &&& start <= u64::MAX
                    &&& start + len <= file.bytes.len()
                    &&& bytes.len() == len
                    &&& forall|i: int| 0 <= i < len ==> #[trigger] bytes[i] == file.bytes[start + i]
                },
                Err(error) => {
                    &&& error == TensorError::PartialBlock <==> count <= usize::MAX && blocks
                        && count % 32 != 0
                    &&& error == TensorError::Truncated <==> count <= usize::MAX && (blocks
                        ==> count % 32 == 0) && len <= usize::MAX && start <= u64::MAX && start
                        + len > file.bytes.len()
                    &&& error == TensorError::TooLarge <==> count > usize::MAX || ((blocks
                        ==> count % 32 == 0) && (len > usize::MAX || start > u64::MAX))
                },
            }
        }),
{
}

/// The data under a name is the data of the entry that the name has; a name without an
/// entry has none.
pub proof fn law_data_by_name(file: GgufFile, name: Seq<char>)
    ensures
        file.entry(name) matches Some(e) ==> file.data(name) == file.entry_data(e),
        file.entry(name) is None ==> file.data(name) == Err::<Seq<u8>, _>(TensorError::Missing),
{
}

/// Data is aligned to the least multiple of the alignment that is not before it.
pub proof fn law_alignment(pos: nat, alignment: nat)
    requires
        alignment > 0,
    ensures
        aligned(pos, alignment) % alignment == 0,
        pos <= aligned(pos, alignment) < pos + alignment,
{
    let q = (pos + alignment - 1) / alignment as int;
    vstd::arithmetic::div_mod::lemma_fundamental_div_mod(pos + alignment - 1, alignment as int);
    vstd::arithmetic::div_mod::lemma_mod_bound(pos + alignment - 1, alignment as int);
    assert(alignment * q == q * alignment) by (nonlinear_arith);
    vstd::arithmetic::div_mod::lemma_mod_multiples_basic(q, alignment as int);
}

/// Bytes can be read exactly if the file holds them all. A read past the end is cut short
/// unless its size or its end is no machine number.
pub proof fn law_reads_within_file(s: Seq<u8>, pos: nat, n: nat)
    ensures
        match advance(s, pos, n) {
            Ok(q) => q == pos + n && q <= s.len() && n <= usize::MAX && q <= u64::MAX,
            Err(GgufError::Truncated) => pos + n > s.len() && n <= usize::MAX && pos + n
                <= u64::MAX,
            Err(e) => e == GgufError::TooLarge && (n > usize::MAX || pos + n > u64::MAX),
        },
{
}

/// The kinds of elements have these numbers in a file, and no others are known.
pub proof fn law_dtype_codes(code: nat)
    ensures
        dtype_of_code(0) == Some(GgmlDtype::F32),
        dtype_of_code(1) == Some(GgmlDtype::F16),
        dtype_of_code(2) == Some(GgmlDtype::Q4_0),
        dtype_of_code(8) == Some(GgmlDtype::Q8_0),
        dtype_of_code(code) is Some <==> code == 0 || code == 1 || code == 2 || code == 8,
{
}

/// A file without its first eight bytes ends too early, one that does not start with `GGUF`
/// has another format, and one of another version than 2 or 3 is not supported.
pub proof fn law_bad_headers(s: Seq<u8>, version: u32)
    requires
        s.len() >= 8 ==> version == s[4] + 0x100 * s[5] + 0x1_0000 * s[6] + 0x100_0000 * s[7],
    ensures
        s.len() < 8 ==> decode(s) == Err::<GgufFile, _>(GgufError::Truncated),
        s.len() >= 8 && !(s[0] == 0x47 && s[1] == 0x47 && s[2] == 0x55 && s[3] == 0x46) ==> decode(
            s,
        ) == Err::<GgufFile, _>(GgufError::BadMagic),
        s.len() >= 8 && s[0] == 0x47 && s[1] == 0x47 && s[2] == 0x55 && s[3] == 0x46 && version != 2
            && version != 3 ==> decode(s) == Err::<GgufFile, _>(
            GgufError::UnsupportedVersion { version },
        ),
        8 <= s.len() < 24 && s[0] == 0x47 && s[1] == 0x47 && s[2] == 0x55 && s[3] == 0x46 && (
        version == 2 || version == 3) ==> decode(s) == Err::<GgufFile, _>(GgufError::Truncated),
        decode(s) matches Ok(f) ==> f.version == version && f.bytes == s,
{
    if s.len() >= 8 {
        law_little_endian(s.subrange(4, 8));
        let magic = s.subrange(0, 4);
        assert(magic[0] == s[0] && magic[1] == s[1] && magic[2] == s[2] && magic[3] == s[3]);
        if s[0] == 0x47 && s[1] == 0x47 && s[2] == 0x55 && s[3] == 0x46 {
            assert(magic =~= seq![0x47u8, 0x47u8, 0x55u8, 0x46u8]);
        }
    }
}

/// Floats can be had exactly if the file holds a tensor of that name with floats in the
/// wanted number of dimensions, whose data it has.
pub proof fn law_when_floats_load(file: GgufFile, name: Seq<char>, rank: usize)
    ensures
        file.float_failure(name, rank) is None <==> {
            &&& file.entry(name) matches Some(e)
            &&& e.dtype == GgmlDtype::F32 || e.dtype == GgmlDtype::F16
            &&& e.dims.len() == rank
            &&& file.data(name) is Ok
        },
        file.entry(name) is None ==> file.float_failure(name, rank) == Some(TensorError::Missing),
        file.entry(name) is Some && file.data(name) is Err ==> file.float_failure(name, rank)
            == Some(file.data(name)->Err_0),
        file.entry(name) matches Some(e) && file.data(name) is Ok && (e.dtype == GgmlDtype::Q4_0
            || e.dtype == GgmlDtype::Q8_0) ==> file.float_failure(name, rank) == Some(
            TensorError::NotFloat { dtype: file.entry(name)->0.dtype },
        ),
        file.entry(name) matches Some(e) && file.data(name) is Ok && (e.dtype == GgmlDtype::F32
            || e.dtype == GgmlDtype::F16) && e.dims.len() != rank ==> file.float_failure(name, rank)
            == Some(
            TensorError::Rank {
                expected: rank,
                found: file.entry(name)->0.dims.len() as usize,
            },
        ),
{
}

/// A quantized matrix can be had exactly if the file holds a tensor of that name with
/// blocks in two or more dimensions, whose data it has, and the blocks of the data are
/// those of the two dimensions that vary slowest.
pub proof fn law_when_matrices_load(file: GgufFile, name: Seq<char>)
    ensures
        file.quantized_failure(name) is None ==> {
            &&& file.entry(name) matches Some(e)
            &&& file.data(name) matches Ok(bytes)
            &&& e.dims.len() >= 2
            &&& e.dtype == GgmlDtype::Q4_0 || e.dtype == GgmlDtype::Q8_0
            &&& (e.dims[e.dims.len() - 1] * e.dims[e.dims.len() - 2]) % 32 == 0
            &&& e.dtype == GgmlDtype::Q4_0 ==> bytes.len() == 18 * ((e.dims[e.dims.len() - 1]
                * e.dims[e.dims.len() - 2]) / 32)
            &&& e.dtype == GgmlDtype::Q8_0 ==> bytes.len() == 34 * ((e.dims[e.dims.len() - 1]
                * e.dims[e.dims.len() - 2]) / 32)
        },
        ({
            &&& file.entry(name) matches Some(e)
            &&& e.dims.len() == 2
            &&& e.dtype == GgmlDtype::Q4_0 || e.dtype == GgmlDtype::Q8_0
            &&& file.data(name) is Ok
        }) ==> file.quantized_failure(name) is None,
        ({
            &&& file.entry(name) matches Some(e)
            &&& e.dims.len() >= 2
            &&& e.dtype == GgmlDtype::Q4_0
            &&& file.data(name) matches Ok(bytes)
            &&& e.dims[e.dims.len() - 1] * e.dims[e.dims.len() - 2] <= usize::MAX
            &&& (e.dims[e.dims.len() - 1] * e.dims[e.dims.len() - 2]) % 32 == 0
            &&& bytes.len() == 18 * ((e.dims[e.dims.len() - 1] * e.dims[e.dims.len() - 2]) / 32)
        }) ==> file.quantized_failure(name) is None,
        ({
            &&& file.entry(name) matches Some(e)
            &&& e.dims.len() >= 2
            &&& e.dtype == GgmlDtype::Q8_0
            &&& file.data(name) matches Ok(bytes)
            &&& e.dims[e.dims.len() - 1] * e.dims[e.dims.len() - 2] <= usize::MAX
            &&& (e.dims[e.dims.len() - 1] * e.dims[e.dims.len() - 2]) % 32 == 0
            &&& bytes.len() == 34 * ((e.dims[e.dims.len() - 1] * e.dims[e.dims.len() - 2]) / 32)
        }) ==> file.quantized_failure(name) is None,
        file.entry(name) is None ==> file.quantized_failure(name) == Some(TensorError::Missing),
        file.entry(name) is Some && file.data(name) is Err ==> file.quantized_failure(name) == Some(
            file.data(name)->Err_0,
        ),
        file.entry(name) matches Some(e) && file.data(name) is Ok && e.dims.len() < 2
            ==> file.quantized_failure(name) == Some(
            TensorError::TooFewDims { found: file.entry(name)->0.dims.len() as usize },
        ),
{
    if file.entry(name) is Some {
        let e = file.entry(name)->0;
        if e.dims.len() == 2 {
            law_element_count(e.dims, 0);
            assert(e.dims[0] * e.dims[1] == e.dims[1] * e.dims[0]) by (nonlinear_arith);
        }
        if e.dims.len() >= 2 {
            assert(e.dims.reverse()[0] == e.dims[e.dims.len() - 1]);
            assert(e.dims.reverse()[1] == e.dims[e.dims.len() - 2]);
        }
    }
}

/// A matrix that loads has the blocks that are stored under its name, as many rows as the
/// dimension that varies slowest, and as many columns as the dimension after it. A tensor of
/// floats that loads has its dimensions in the order from the one that varies slowest, and
/// words of four bytes or of two as it is stored.
pub proof fn law_values_by_name(file: GgufFile, name: Seq<char>, rank: usize)
    ensures
        file.quantized_failure(name) is None ==> {
            let e = file.entry(name)->0;
            let w = file.quantized_value(name);
            &&& w.raw == file.data(name)->Ok_0
            &&& w.dtype == e.dtype
            &&& w.rows == e.dims[e.dims.len() - 1]
            &&& w.cols == e.dims[e.dims.len() - 2]
            &&& w.valid()
        },
        file.float_failure(name, rank) is None ==> {
            let e = file.entry(name)->0;
            let t = file.float_value(name);
            let bytes = file.data(name)->Ok_0;
            &&& t.shape.len() == rank
            &&& forall|i: int|
                0 <= i < rank ==> #[trigger] t.shape[i] == e.dims[e.dims.len() - 1 - i]
            &&& e.dtype == GgmlDtype::F32 ==> t.values == FloatsView::Single(singles(bytes))
            &&& e.dtype == GgmlDtype::F16 ==> t.values == FloatsView::Half(halves(bytes))
            &&& bytes.len() == if e.dtype == GgmlDtype::F32 {
                4 * element_count(e.dims)
            } else {
                2 * element_count(e.dims)
            }
        },
{
}

/// Token embeddings of two dimensions can be had exactly if the file has their data, and
/// those of any other number of dimensions as floats cannot.
pub proof fn law_when_tables_load(file: GgufFile, name: Seq<char>)
    ensures
        file.entry(name) is None ==> file.table_failure(name) == Some(TensorError::Missing),
        file.entry(name) is Some && file.data(name) is Err ==> file.table_failure(name) == Some(
            file.data(name)->Err_0,
        ),
        file.entry(name) matches Some(e) && e.dims.len() == 2 && file.data(name) is Ok
            ==> file.table_failure(name) is None,
        file.entry(name) matches Some(e) && file.data(name) is Ok && e.dims.len() < 2 && (e.dtype
            == GgmlDtype::Q4_0 || e.dtype == GgmlDtype::Q8_0) ==> file.table_failure(name) == Some(
            TensorError::TooFewDims { found: file.entry(name)->0.dims.len() as usize },
        ),
        file.entry(name) matches Some(e) && file.data(name) is Ok && e.dims.len() != 2 && (e.dtype
            == GgmlDtype::F32 || e.dtype == GgmlDtype::F16) ==> file.table_failure(name) == Some(
            TensorError::Rank { expected: 2, found: file.entry(name)->0.dims.len() as usize },
        ),
{
    if file.entry(name) is Some {
        let e = file.entry(name)->0;
        if e.dims.len() == 2 {
            law_element_count(e.dims, 0);
            assert(e.dims[0] * e.dims[1] == e.dims[1] * e.dims[0]) by (nonlinear_arith);
        }
    }
}

/// A codebook can be had exactly if its sums have two dimensions and as many words as these
/// say, and there is one word of uses for each entry.
pub proof fn law_when_codebooks_load(file: GgufFile, sums: Seq<char>, uses: Seq<char>)
    requires
        file.data(sums) is Ok,
        file.data(uses) is Ok,
    ensures
        file.codebook_failure(sums) is None <==> {
            &&& file.entry(sums) matches Some(e)
            &&& e.dims.len() == 2
            &&& file.data(sums)->Ok_0.len() / 4 == e.dims[0] * e.dims[1]
        },
        file.entry(sums) matches Some(e) && e.dims.len() != 2 ==> file.codebook_failure(sums)
            == Some(
            TensorError::Rank { expected: 2, found: file.entry(sums)->0.dims.len() as usize },
        ),
        file.codebook_failure(sums) is None ==> (file.usage_failure(uses, sums) is None
            <==> file.data(uses)->Ok_0.len() / 4 == file.entry(sums)->0.dims[1]),
{
    let e = file.entry(sums)->0;
    law_element_count(e.dims, 0);
    if e.dims.len() == 2 {
        assert(e.dims.reverse()[0] == e.dims[1]);
    }
}

/// What is wanted of a tensor decides which failure is reported for it.
pub proof fn law_failures_by_purpose(file: GgufFile, name: Seq<char>, slot: Slot, rank: usize)
    requires
        slot.name == name,
    ensures
        slot.purpose == (Purpose::Floats { rank }) ==> file.failure(slot) == file.float_failure(
            name,
            rank,
        ),
        slot.purpose == Purpose::Quantized ==> file.failure(slot) == file.quantized_failure(name),
        slot.purpose == Purpose::TokenTable ==> file.failure(slot) == file.table_failure(name),
        slot.purpose == Purpose::Bytes ==> (file.failure(slot) is None <==> file.data(name) is Ok),
        slot.purpose == Purpose::Present ==> (file.failure(slot) is None <==> file.entry(
            name,
        ) is Some),
        slot.purpose == Purpose::Matrix ==> (file.failure(slot) is None <==> (file.entry(
            name,
        ) matches Some(e) && e.dims.len() >= 2)),
{
}

/// A list of tensors loads exactly if each of them does, and otherwise the first one that
/// does not is reported.
pub proof fn law_all_or_first(file: GgufFile, slots: Seq<Slot>, k: int, e: LoadError)
    ensures
        file.all_load(slots) && 0 <= k < slots.len() ==> file.failure(slots[k]) is None,
        (forall|i: int| 0 <= i < slots.len() ==> file.failure(#[trigger] slots[i]) is None)
            ==> file.all_load(slots),
        file.fails_first(slots, e) ==> exists|i: int|
            0 <= i < slots.len() && (#[trigger] slots[i]).name == e.name@ && slots[i].context
                == e.context@ && file.failure(slots[i]) == Some(e.error) && forall|j: int|
                0 <= j < i ==> file.failure(#[trigger] slots[j]) is None,
{
    if file.fails_first(slots, e) {
        let i = choose|i: int|
            #[trigger] file.fails_at(slots, i, e) && file.all_load(slots.take(i));
        assert(slots[i].name == e.name@);
        assert forall|j: int| 0 <= j < i implies file.failure(#[trigger] slots[j]) is None by {
            assert(slots.take(i)[j] == slots[j]);
        }
    }
}

} // verus!
