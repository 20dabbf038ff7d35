//! The GGUF file format.
//!
//! A file starts with a header (magic, version, number of tensors, number of
//! metadata entries), goes on with the metadata and with a description of each
//! tensor, and ends with the tensor data, which is aligned.

use vstd::prelude::*;
use vstd::utf8::encode_utf8;

use crate::gguf::bytes::{le_value, read_u32, read_u64, ByteSource, SliceCursor};
use crate::gguf::tensor::{block_size, is_quantized, quantized_len, QuantError};

verus! {

/// How the elements of a tensor are stored.
#[derive(Clone, Copy, Debug, PartialEq, Eq, Structural)]
pub enum GgmlDtype {
    /// 32-bit floats.
    F32,
    /// 16-bit floats.
    F16,
    /// Blocks of 32 elements of 4 bits, each block with a 16-bit float scale.
    Q4_0,
    /// Blocks of 32 elements of 8 bits, each block with a 16-bit float scale.
    Q8_0,
}

/// The kind of elements that a file denotes by `code`.
pub open spec fn dtype_of_code(code: nat) -> Option<GgmlDtype> {
    if code == 0 {
        Some(GgmlDtype::F32)
    } else if code == 1 {
        Some(GgmlDtype::F16)
    } else if code == 2 {
        Some(GgmlDtype::Q4_0)
    } else if code == 8 {
        Some(GgmlDtype::Q8_0)
    } else {
        None
    }
}

impl GgmlDtype {
    /// The kind of elements that a file denotes by `code`.
    pub fn from_code(code: u32) -> (r: Option<GgmlDtype>)
        ensures
            r == dtype_of_code(code as nat),
    {
        match code {
            0 => Some(GgmlDtype::F32),
            1 => Some(GgmlDtype::F16),
            2 => Some(GgmlDtype::Q4_0),
            8 => Some(GgmlDtype::Q8_0),
            _ => None,
        }
    }
}

/// Why a file is not accepted.
#[derive(Clone, Copy, Debug, PartialEq, Eq, Structural)]
pub enum GgufError {
    /// The file does not start with the letters `GGUF`.
    BadMagic,
    /// The file has another version than 2 or 3.
    UnsupportedVersion { version: u32 },
    /// The file ends too early.
    Truncated,
    /// A position or a size is no machine number.
    TooLarge,
    /// A metadata entry has a type that the format does not know.
    BadValueType { code: u32 },
    /// A tensor has elements of an unknown kind.
    UnsupportedDtype { code: u32 },
    /// The tensor data is to be aligned to multiples of zero.
    BadAlignment,
}

/// Why a tensor of a file cannot be had as wanted.
#[derive(Clone, Copy, Debug, PartialEq, Eq, Structural)]
pub enum TensorError {
    /// The file holds no tensor of that name.
    Missing,
    /// The number of elements or of bytes is no machine number.
    TooLarge,
    /// The elements are quantized, but do not fill whole blocks.
    PartialBlock,
    /// The tensor data ends too early.
    Truncated,
    /// The elements are quantized where floats are wanted.
    NotFloat { dtype: GgmlDtype },
    /// The tensor has another number of dimensions.
    Rank { expected: usize, found: usize },
    /// The tensor has fewer than two dimensions.
    TooFewDims { found: usize },
    /// The tensor holds another number of values than its dimensions say.
    Count { expected: usize, found: usize },
    /// The tensor is no quantized matrix of its shape.
    Quant { error: QuantError },
}

/// Where `n` bytes from `pos` on end.
pub open spec fn advance(s: Seq<u8>, pos: nat, n: nat) -> Result<nat, GgufError> {
    if n > usize::MAX || pos + n > u64::MAX {
        Err(GgufError::TooLarge)
    } else if pos + n > s.len() {
        Err(GgufError::Truncated)
    } else {
        Ok(pos + n)
    }
}

/// The number in the bytes of `s` from `from` up to `to`.
pub open spec fn number(s: Seq<u8>, from: nat, to: nat) -> nat {
    le_value(s.subrange(from as int, to as int))
}

/// Where the string at `pos` ends: eight bytes for its length, then its bytes.
pub open spec fn string_end(s: Seq<u8>, pos: nat) -> Result<nat, GgufError> {
    match advance(s, pos, 8) {
        Ok(p) => advance(s, p, number(s, pos, p)),
        Err(e) => Err(e),
    }
}

/// The size of a metadata value of type `code`, where all values of that type
/// have one size.
pub open spec fn fixed_size(code: nat) -> Option<nat> {
    if code == 0 || code == 1 || code == 7 {
        Some(1)
    } else if code == 2 || code == 3 {
        Some(2)
    } else if code == 4 || code == 5 || code == 6 {
        Some(4)
    } else if code == 10 || code == 11 || code == 12 {
        Some(8)
    } else {
        None
    }
}

/// Where the metadata value of type `code` at `pos` ends.
///
/// An array is the type of its elements, their number and the elements.
pub open spec fn value_end(s: Seq<u8>, pos: nat, code: nat) -> Result<nat, GgufError>
    decreases s.len() - pos, 0nat,
{
    if fixed_size(code) is Some {
        advance(s, pos, fixed_size(code)->0)
    } else if code == 8 {
        string_end(s, pos)
    } else if code == 9 {
        match advance(s, pos, 12) {
            Ok(p) => values_end(s, p, number(s, pos, pos + 4), number(s, pos + 4, p)),
            Err(e) => Err(e),
        }
    } else {
        Err(GgufError::BadValueType { code: code as u32 })
    }
}

/// Where `n` metadata values of type `code` from `pos` on end.
pub open spec fn values_end(s: Seq<u8>, pos: nat, code: nat, n: nat) -> Result<nat, GgufError>
    decreases s.len() - pos, 1nat,
{
    if n == 0 {
        Ok(pos)
    } else {
        match value_end(s, pos, code) {
            Ok(p) => if pos < p <= s.len() {
                values_end(s, p, code, (n - 1) as nat)
            } else {
                Err(GgufError::Truncated)
            },
            Err(e) => Err(e),
        }
    }
}

/// The metadata key under which a file gives the alignment of its tensor data.
pub open spec fn alignment_key() -> Seq<u8> {
    encode_utf8("general.alignment"@)
}

/// Where `n` metadata entries from `pos` on end, and the alignment after them if
/// it was `alignment` before.
///
/// An entry is a string as its key, a type and a value.
pub open spec fn metadata(s: Seq<u8>, pos: nat, n: nat, alignment: nat) -> Result<
    (nat, nat),
    GgufError,
>
    decreases n,
{
    if n == 0 {
        Ok((pos, alignment))
    } else {
        match string_end(s, pos) {
            Ok(k) => match advance(s, k, 4) {
                Ok(v) => match value_end(s, v, number(s, k, v)) {
                    Ok(q) => metadata(
                        s,
                        q,
                        (n - 1) as nat,
                        if s.subrange(pos as int + 8, k as int) == alignment_key() && number(
                            s,
                            k,
                            v,
                        ) == 4 {
                            number(s, v, q)
                        } else {
                            alignment
                        },
                    ),
                    Err(e) => Err(e),
                },
                Err(e) => Err(e),
            },
            Err(e) => Err(e),
        }
    }
}

/// The description of a tensor in a file.
#[verifier::ext_equal]
pub struct TensorEntry {
    pub name: Seq<u8>,
    pub dims: Seq<usize>,
    pub dtype: GgmlDtype,
    pub offset: u64,
}

/// Whether the `n` dimensions at `pos` are machine numbers.
pub open spec fn dims_fit(s: Seq<u8>, pos: nat, n: nat) -> bool {
    forall|i: nat| i < n ==> #[trigger] number(s, pos + 8 * i, pos + 8 * i + 8) <= usize::MAX
}

/// The `n` dimensions at `pos`.
pub open spec fn dims_at(s: Seq<u8>, pos: nat, n: nat) -> Seq<usize> {
    Seq::new(n, |i: int| number(s, (pos + 8 * i) as nat, (pos + 8 * i + 8) as nat) as usize)
}

/// The description of a tensor at `pos`, and where it ends: a string as its name,
/// the number of its dimensions and the dimensions, the kind of its elements, and
/// its place in the tensor data.
pub open spec fn entry_at(s: Seq<u8>, pos: nat) -> Result<(TensorEntry, nat), GgufError> {
    match string_end(s, pos) {
        Ok(k) => match advance(s, k, 4) {
            Ok(d) => match advance(s, d, 8 * number(s, k, d)) {
                Ok(t) => if !dims_fit(s, d, number(s, k, d)) {
                    Err(GgufError::TooLarge)
                } else {
                    match advance(s, t, 4) {
                        Ok(o) => match dtype_of_code(number(s, t, o)) {
                            Some(dtype) => match advance(s, o, 8) {
                                Ok(q) => Ok(
                                    (
                                        TensorEntry {
                                            name: s.subrange(pos as int + 8, k as int),
                                            dims: dims_at(s, d, number(s, k, d)),
                                            dtype,
                                            offset: number(s, o, q) as u64,
                                        },
                                        q,
                                    ),
                                ),
                                Err(e) => Err(e),
                            },
                            None => Err(
                                GgufError::UnsupportedDtype { code: number(s, t, o) as u32 },
                            ),
                        },
                        Err(e) => Err(e),
                    }
                },
                Err(e) => Err(e),
            },
            Err(e) => Err(e),
        },
        Err(e) => Err(e),
    }
}

/// `before` and the `n` descriptions of tensors from `pos` on, and where these end.
pub open spec fn entries_at(s: Seq<u8>, pos: nat, n: nat, before: Seq<TensorEntry>) -> Result<
    (Seq<TensorEntry>, nat),
    GgufError,
>
    decreases n,
{
    if n == 0 {
        Ok((before, pos))
    } else {
        match entry_at(s, pos) {
            Ok((entry, q)) => entries_at(s, q, (n - 1) as nat, before.push(entry)),
            Err(e) => Err(e),
        }
    }
}

/// The least multiple of `alignment` from `pos` on.
pub open spec fn aligned(pos: nat, alignment: nat) -> nat {
    (pos + alignment - 1) as nat / alignment * alignment
}

/// What a file holds.
#[verifier::ext_equal]
pub struct GgufFile {
    pub version: u32,
    pub tensors: Seq<TensorEntry>,
    pub data_start: u64,
    pub bytes: Seq<u8>,
}

/// What follows the version number of a file.
pub open spec fn decode_body(s: Seq<u8>, version: u32) -> Result<GgufFile, GgufError> {
    match advance(s, 8, 16) {
        Ok(h) => match metadata(s, h, number(s, 16, 24), 32) {
            Ok((m, alignment)) => match entries_at(s, m, number(s, 8, 16), Seq::empty()) {
                Ok((tensors, q)) => if alignment == 0 {
                    Err(GgufError::BadAlignment)
                } else if aligned(q, alignment) > u64::MAX {
                    Err(GgufError::TooLarge)
                } else {
                    Ok(
                        GgufFile {
                            version,
                            tensors,
                            data_start: aligned(q, alignment) as u64,
                            bytes: s,
                        },
                    )
                },
                Err(e) => Err(e),
            },
            Err(e) => Err(e),
        },
        Err(e) => Err(e),
    }
}

/// What the file with the contents `s` holds, or why it is not accepted.
pub open spec fn decode(s: Seq<u8>) -> Result<GgufFile, GgufError> {
    match advance(s, 0, 8) {
        Ok(v) => if s.subrange(0, 4) != seq![0x47u8, 0x47u8, 0x55u8, 0x46u8] {
            Err(GgufError::BadMagic)
        } else if number(s, 4, 8) != 2 && number(s, 4, 8) != 3 {
            Err(GgufError::UnsupportedVersion { version: number(s, 4, 8) as u32 })
        } else {
            decode_body(s, number(s, 4, 8) as u32)
        },
        Err(e) => Err(e),
    }
}

/// The number of elements of a tensor.
pub open spec fn element_count(dims: Seq<usize>) -> nat
    decreases dims.len(),
{
    if dims.len() == 0 {
        1
    } else {
        element_count(dims.drop_last()) * dims.last() as nat
    }
}

/// The number of elements of a matrix.
pub proof fn lemma_matrix_count(dims: Seq<usize>)
    requires
        dims.len() == 2,
    ensures
        element_count(dims) == dims.reverse()[0] * dims.reverse()[1],
{
    reveal_with_fuel(element_count, 3);
    assert(dims[0] * dims[1] == dims[1] * dims[0]) by (nonlinear_arith);
}

/// The bytes that `count` elements take.
pub open spec fn byte_len(dtype: GgmlDtype, count: nat) -> nat {
    if dtype == GgmlDtype::F32 {
        4 * count
    } else if dtype == GgmlDtype::F16 {
        2 * count
    } else {
        quantized_len(dtype, count)
    }
}

/// The last of `tensors` that has the name `name`.
pub open spec fn last_named(tensors: Seq<TensorEntry>, name: Seq<u8>) -> Option<TensorEntry>
    decreases tensors.len(),
{
    if tensors.len() == 0 {
        None
    } else if tensors.last().name == name {
        Some(tensors.last())
    } else {
        last_named(tensors.drop_last(), name)
    }
}

impl GgufFile {
    /// The description of the tensor `name`.
    pub open spec fn entry(self, name: Seq<char>) -> Option<TensorEntry> {
        last_named(self.tensors, encode_utf8(name))
    }

    /// The bytes of the tensor that `entry` describes.
    pub open spec fn entry_data(self, entry: TensorEntry) -> Result<Seq<u8>, TensorError> {
        let count = element_count(entry.dims);
        let start = self.data_start + entry.offset;
        let len = byte_len(entry.dtype, count);
        if count > usize::MAX {
            Err(TensorError::TooLarge)
        } else if is_quantized(entry.dtype) && count % block_size() != 0 {
            Err(TensorError::PartialBlock)
        } else if len > usize::MAX || start > u64::MAX {
            Err(TensorError::TooLarge)
        } else if start + len > self.bytes.len() {
            Err(TensorError::Truncated)
        } else {
            Ok(self.bytes.subrange(start, start + len))
        }
    }

    /// The bytes of the tensor `name`.
    pub open spec fn data(self, name: Seq<char>) -> Result<Seq<u8>, TensorError> {
        match self.entry(name) {
            Some(entry) => self.entry_data(entry),
            None => Err(TensorError::Missing),
        }
    }
}

/// Reads `n` bytes from `pos` on.
fn take<R: ByteSource>(source: &R, pos: u64, n: u64) -> (r: Result<(Vec<u8>, u64), GgufError>)
    ensures
        match r {
            Ok((v, q)) => advance(source.contents(), pos as nat, n as nat) == Ok::<_, GgufError>(
                q as nat,
            ) && q <= source.contents().len() && v@ == source.contents().subrange(
                pos as int,
                q as int,
            ),
            Err(e) => advance(source.contents(), pos as nat, n as nat) == Err::<nat, _>(e),
        },
{
    if n > usize::MAX as u64 || n > u64::MAX - pos {
        return Err(GgufError::TooLarge);
    }
    match source.read_at(pos, n as usize) {
        Some(v) => Ok((v, pos + n)),
        None => Err(GgufError::Truncated),
    }
}

/// Reads the number of four bytes at `pos`.
fn take_u32<R: ByteSource>(source: &R, pos: u64) -> (r: Result<(u32, u64), GgufError>)
    ensures
        match r {
            Ok((x, q)) => advance(source.contents(), pos as nat, 4) == Ok::<_, GgufError>(q as nat)
                && q <= source.contents().len() && x as nat == number(
                source.contents(),
                pos as nat,
                q as nat,
            ),
            Err(e) => advance(source.contents(), pos as nat, 4) == Err::<nat, _>(e),
        },
{
    let (v, q): (Vec<u8>, u64) = take(source, pos, 4)?;
    assert(v@.subrange(0, 4) =~= v@);
    Ok((read_u32(v.as_slice(), 0), q))
}

/// Reads the number of eight bytes at `pos`.
fn take_u64<R: ByteSource>(source: &R, pos: u64) -> (r: Result<(u64, u64), GgufError>)
    ensures
        match r {
            Ok((x, q)) => advance(source.contents(), pos as nat, 8) == Ok::<_, GgufError>(q as nat)
                && q <= source.contents().len() && x as nat == number(
                source.contents(),
                pos as nat,
                q as nat,
            ),
            Err(e) => advance(source.contents(), pos as nat, 8) == Err::<nat, _>(e),
        },
{
    let (v, q): (Vec<u8>, u64) = take(source, pos, 8)?;
    Ok((read_u64(v.as_slice()), q))
}

/// Reads the string at `pos`.
fn take_string<R: ByteSource>(source: &R, pos: u64) -> (r: Result<(Vec<u8>, u64), GgufError>)
    ensures
        match r {
            Ok((v, q)) => string_end(source.contents(), pos as nat) == Ok::<_, GgufError>(q as nat)
                && pos < q <= source.contents().len() && v@ == source.contents().subrange(
                pos + 8,
                q as int,
            ),
            Err(e) => string_end(source.contents(), pos as nat) == Err::<nat, _>(e),
        },
{
    let (n, p): (u64, u64) = take_u64(source, pos)?;
    take(source, p, n)
}

/// The size of a metadata value, where it depends on the type alone.
fn fixed_size_of(code: u32) -> (r: Option<u64>)
    ensures
        match r {
            Some(n) => fixed_size(code as nat) == Some(n as nat) && n > 0,
            None => fixed_size(code as nat) is None,
        },
{
    match code {
        0 | 1 | 7 => Some(1),
        2 | 3 => Some(2),
        4 | 5 | 6 => Some(4),
        10 | 11 | 12 => Some(8),
        _ => None,
    }
}

/// Finds the end of a metadata value.
fn skip_value<R: ByteSource>(source: &R, pos: u64, code: u32) -> (r: Result<u64, GgufError>)
    ensures
        match r {
            Ok(q) => value_end(source.contents(), pos as nat, code as nat) == Ok::<_, GgufError>(
                q as nat,
            ) && pos < q <= source.contents().len(),
            Err(e) => value_end(source.contents(), pos as nat, code as nat) == Err::<nat, _>(e),
        },
    decreases source.contents().len() - pos,
{
    let ghost s = source.contents();
    match fixed_size_of(code) {
        Some(n) => {
            return match take(source, pos, n) {
                Ok((_, q)) => Ok(q),
                Err(e) => Err(e),
            };
        },
        None => {},
    }
    if code == 8 {
        return match take_string(source, pos) {
            Ok((_, q)) => Ok(q),
            Err(e) => Err(e),
        };
    }
    if code != 9 {
        return Err(GgufError::BadValueType { code });
    }
    let (head, p): (Vec<u8>, u64) = take(source, pos, 12)?;
    let inner: u32 = read_u32(head.as_slice(), 0);
    let n: u64 = read_u64(vstd::slice::slice_subrange(head.as_slice(), 4, 12));
    proof {
        assert(head@.subrange(0, 4) =~= s.subrange(pos as int, pos + 4));
        assert(head@.subrange(4, 12) =~= s.subrange(pos + 4, p as int));
    }
    let mut q: u64 = p;
    let mut i: u64 = 0;
    while i < n
        invariant
            i <= n,
            s == source.contents(),
            pos < p <= q <= s.len(),
            value_end(s, pos as nat, code as nat) == values_end(
                s,
                p as nat,
                inner as nat,
                n as nat,
            ),
            values_end(s, p as nat, inner as nat, n as nat) == values_end(
                s,
                q as nat,
                inner as nat,
                (n - i) as nat,
            ),
        decreases n - i,
    {
        match skip_value(source, q, inner) {
            Ok(next) => {
                q = next;
            },
            Err(e) => {
                return Err(e);
            },
        }
        i = i + 1;
    }
    Ok(q)
}

/// Whether two byte strings are the same.
fn same_bytes(a: &[u8], b: &[u8]) -> (r: bool)
    ensures
        r == (a@ == b@),
{
    if a.len() != b.len() {
        return false;
    }
    let mut i: usize = 0;
    while i < a.len()
        invariant
            i <= a@.len(),
            a@.len() == b@.len(),
            forall|j: int| 0 <= j < i ==> a@[j] == b@[j],
        decreases a@.len() - i,
    {
        if a[i] != b[i] {
            return false;
        }
        i = i + 1;
    }
    assert(a@ =~= b@);
    true
}

/// Reads past the metadata; gives the end of it and the alignment.
fn skip_metadata<R: ByteSource>(source: &R, pos: u64, n: u64) -> (r: Result<(u64, u32), GgufError>)
    ensures
        match r {
            Ok((q, a)) => metadata(source.contents(), pos as nat, n as nat, 32) == Ok::<
                _,
                GgufError,
            >((q as nat, a as nat)),
            Err(e) => metadata(source.contents(), pos as nat, n as nat, 32) == Err::<
                (nat, nat),
                _,
            >(e),
        },
{
    let ghost s = source.contents();
    let mut q: u64 = pos;
    let mut alignment: u32 = 32;
    let mut i: u64 = 0;
    while i < n
        invariant
            i <= n,
            s == source.contents(),
            metadata(s, pos as nat, n as nat, 32) == metadata(
                s,
                q as nat,
                (n - i) as nat,
                alignment as nat,
            ),
        decreases n - i,
    {
        let (key, k): (Vec<u8>, u64) = take_string(source, q)?;
        let (code, v): (u32, u64) = take_u32(source, k)?;
        let end: u64 = skip_value(source, v, code)?;
        if code == 4 && same_bytes(key.as_slice(), "general.alignment".as_bytes()) {
            match take_u32(source, v) {
                Ok((a, _)) => {
                    alignment = a;
                },
                Err(e) => {
                    return Err(e);
                },
            }
        }
        q = end;
        i = i + 1;
    }
    Ok((q, alignment))
}

/// What a file says of one of its tensors.
pub struct TensorInfo {
    name: Vec<u8>,
    dims: Vec<usize>,
    dtype: GgmlDtype,
    offset: u64,
}

impl View for TensorInfo {
    type V = TensorEntry;

    closed spec fn view(&self) -> TensorEntry {
        TensorEntry {
            name: self.name@,
            dims: self.dims@,
            dtype: self.dtype,
            offset: self.offset,
        }
    }
}

impl TensorInfo {
    /// The dimensions, the one that varies fastest first.
    pub fn shape(&self) -> (r: &[usize])
        ensures
            r@ == self@.dims,
    {
        self.dims.as_slice()
    }

    /// The kind of the elements.
    pub fn dtype(&self) -> (r: GgmlDtype)
        ensures
            r == self@.dtype,
    {
        self.dtype
    }
}

/// Decodes `n` dimensions, if they are machine numbers.
fn decode_dims(raw: &[u8], n: u32, Ghost(s): Ghost<Seq<u8>>, Ghost(pos): Ghost<nat>) -> (r: Option<
    Vec<usize>,
>)
    requires
        raw@.len() == 8 * n,
        pos + 8 * n <= s.len(),
        raw@ == s.subrange(pos as int, pos + 8 * n),
    ensures
        match r {
            Some(dims) => dims_fit(s, pos, n as nat) && dims@ == dims_at(s, pos, n as nat),
            None => !dims_fit(s, pos, n as nat),
        },
{
    let mut dims: Vec<usize> = Vec::new();
    let mut i: u32 = 0;
    while i < n
        invariant
            i <= n,
            raw.len() == 8 * n,
            pos + 8 * n <= s.len(),
            raw@ == s.subrange(pos as int, pos + 8 * n),
            dims_fit(s, pos, i as nat),
            dims@ == dims_at(s, pos, i as nat),
        decreases n - i,
    {
        let at: usize = 8 * i as usize;
        let d: u64 = read_u64(vstd::slice::slice_subrange(raw, at, at + 8));
        proof {
            assert(raw@.subrange(at as int, at + 8) =~= s.subrange(pos + 8 * i, pos + 8 * i + 8));
            assert(d as nat == number(s, pos + 8 * i as nat, pos + 8 * i as nat + 8));
        }
        if d > usize::MAX as u64 {
            return None;
        }
        dims.push(d as usize);
        i = i + 1;
        assert(dims@ =~= dims_at(s, pos, i as nat));
    }
    Some(dims)
}

/// Reads the description of a tensor.
fn take_entry<R: ByteSource>(source: &R, pos: u64) -> (r: Result<(TensorInfo, u64), GgufError>)
    ensures
        match r {
            Ok((t, q)) => entry_at(source.contents(), pos as nat) == Ok::<_, GgufError>(
                (t@, q as nat),
            ),
            Err(e) => entry_at(source.contents(), pos as nat) == Err::<(TensorEntry, nat), _>(e),
        },
{
    let ghost s = source.contents();
    let (name, k): (Vec<u8>, u64) = take_string(source, pos)?;
    let (n, d): (u32, u64) = take_u32(source, k)?;
    let (raw, t): (Vec<u8>, u64) = take(source, d, 8 * n as u64)?;
    let dims: Vec<usize> = match decode_dims(raw.as_slice(), n, Ghost(s), Ghost(d as nat)) {
        Some(dims) => dims,
        None => {
            return Err(GgufError::TooLarge);
        },
    };
    let (code, o): (u32, u64) = take_u32(source, t)?;
    let dtype: GgmlDtype = match GgmlDtype::from_code(code) {
        Some(dtype) => dtype,
        None => {
            return Err(GgufError::UnsupportedDtype { code });
        },
    };
    match take_u64(source, o) {
        Ok((offset, q)) => Ok((TensorInfo { name, dims, dtype, offset }, q)),
        Err(e) => Err(e),
    }
}

/// The descriptions that `tensors` hold.
pub open spec fn entries_of(tensors: Seq<TensorInfo>) -> Seq<TensorEntry> {
    tensors.map_values(|t: TensorInfo| t@)
}

/// Reads the descriptions of `n` tensors.
fn take_entries<R: ByteSource>(source: &R, pos: u64, n: u64) -> (r: Result<
    (Vec<TensorInfo>, u64),
    GgufError,
>)
    ensures
        match r {
            Ok((v, q)) => entries_at(source.contents(), pos as nat, n as nat, Seq::empty()) == Ok::<
                _,
                GgufError,
            >((entries_of(v@), q as nat)),
            Err(e) => entries_at(source.contents(), pos as nat, n as nat, Seq::empty()) == Err::<
                (Seq<TensorEntry>, nat),
                _,
            >(e),
        },
{
    let ghost s = source.contents();
    let mut tensors: Vec<TensorInfo> = Vec::new();
    let mut q: u64 = pos;
    let mut i: u64 = 0;
    assert(entries_of(tensors@) =~= Seq::empty());
    while i < n
        invariant
            i <= n,
            s == source.contents(),
            entries_at(s, pos as nat, n as nat, Seq::empty()) == entries_at(
                s,
                q as nat,
                (n - i) as nat,
                entries_of(tensors@),
            ),
        decreases n - i,
    {
        let ghost before = tensors@;
        match take_entry(source, q) {
            Ok((t, next)) => {
                tensors.push(t);
                q = next;
                assert(entries_of(tensors@) =~= entries_of(before).push(t@));
            },
            Err(e) => {
                return Err(e);
            },
        }
        i = i + 1;
    }
    Ok((tensors, q))
}

/// A GGUF file whose header, metadata and tensor descriptions have been read.
pub struct GgufReader<R: ByteSource> {
    source: R,
    version: u32,
    tensors: Vec<TensorInfo>,
    data_start: u64,
}

impl<R: ByteSource> View for GgufReader<R> {
    type V = GgufFile;

    closed spec fn view(&self) -> GgufFile {
        GgufFile {
            version: self.version,
            tensors: entries_of(self.tensors@),
            data_start: self.data_start,
            bytes: self.source.contents(),
        }
    }
}

impl<'a> GgufReader<SliceCursor<'a>> {
    /// Reads a file that is held in one piece.
    pub fn from_bytes(bytes: &'a [u8]) -> (r: Result<Self, GgufError>)
        ensures
            match r {
                Ok(reader) => decode(bytes@) == Ok::<_, GgufError>(reader@),
                Err(e) => decode(bytes@) == Err::<GgufFile, _>(e),
            },
    {
        Self::open(SliceCursor::new(bytes))
    }
}

impl<R: ByteSource> GgufReader<R> {
    /// Reads a file.
    pub fn open(source: R) -> (r: Result<Self, GgufError>)
        ensures
            match r {
                Ok(reader) => decode(source.contents()) == Ok::<_, GgufError>(reader@),
                Err(e) => decode(source.contents()) == Err::<GgufFile, _>(e),
            },
    {
        let ghost s = source.contents();
        let (head, _): (Vec<u8>, u64) = take(&source, 0, 8)?;
        proof {
            assert(s.subrange(0, 4) =~= head@.subrange(0, 4));
            assert(head@.subrange(4, 8) =~= s.subrange(4, 8));
        }
        if head[0] != 0x47 || head[1] != 0x47 || head[2] != 0x55 || head[3] != 0x46 {
            assert(head@.subrange(0, 4)[0] == head@[0] && head@.subrange(0, 4)[1] == head@[1]
                && head@.subrange(0, 4)[2] == head@[2] && head@.subrange(0, 4)[3] == head@[3]);
            return Err(GgufError::BadMagic);
        }
        assert(s.subrange(0, 4) =~= seq![0x47u8, 0x47u8, 0x55u8, 0x46u8]);
        let version: u32 = read_u32(head.as_slice(), 4);
        if version != 2 && version != 3 {
            return Err(GgufError::UnsupportedVersion { version });
        }
        let (counts, h): (Vec<u8>, u64) = take(&source, 8, 16)?;
        let n_tensors: u64 = read_u64(vstd::slice::slice_subrange(counts.as_slice(), 0, 8));
        let n_entries: u64 = read_u64(vstd::slice::slice_subrange(counts.as_slice(), 8, 16));
        proof {
            assert(counts@.subrange(0, 8) =~= s.subrange(8, 16));
            assert(counts@.subrange(8, 16) =~= s.subrange(16, 24));
        }
        let (m, alignment): (u64, u32) = skip_metadata(&source, h, n_entries)?;
        let (tensors, q): (Vec<TensorInfo>, u64) = take_entries(&source, m, n_tensors)?;
        if alignment == 0 {
            return Err(GgufError::BadAlignment);
        }
        let wide: u128 = (q as u128 + alignment as u128 - 1) / alignment as u128;
        proof {
            assert(wide * alignment <= q + alignment - 1) by (nonlinear_arith)
                requires
                    wide as int == (q + alignment - 1) / alignment as int,
                    alignment > 0,
            ;
        }
        let start: u128 = wide * alignment as u128;
        if start > u64::MAX as u128 {
            return Err(GgufError::TooLarge);
        }
        Ok(GgufReader { source, version, tensors, data_start: start as u64 })
    }

    /// The version of the format that the file has.
    pub fn version(&self) -> (r: u32)
        ensures
            r == self@.version,
    {
        self.version
    }

    /// The number of tensors in the file.
    pub fn tensor_count(&self) -> (r: usize)
        ensures
            r == self@.tensors.len(),
    {
        self.tensors.len()
    }

    /// What the file says of the tensor `name`.
    pub fn tensor_info(&self, name: &str) -> (r: Option<&TensorInfo>)
        ensures
            match r {
                Some(t) => self@.entry(name@) == Some(t@),
                None => self@.entry(name@) is None,
            },
    {
        let bytes: &[u8] = name.as_bytes();
        let mut i: usize = self.tensors.len();
        assert(entries_of(self.tensors@).take(i as int) =~= entries_of(self.tensors@));
        while i > 0
            invariant
                i <= self.tensors@.len(),
                bytes@ == encode_utf8(name@),
                self@.entry(name@) == last_named(
                    entries_of(self.tensors@).take(i as int),
                    bytes@,
                ),
            decreases i,
        {
            let t: &TensorInfo = &self.tensors[i - 1];
            proof {
                let seen = entries_of(self.tensors@).take(i as int);
                assert(seen.last() == t@);
                assert(seen.drop_last() =~= entries_of(self.tensors@).take(i - 1));
            }
            if same_bytes(t.name.as_slice(), bytes) {
                return Some(t);
            }
            i = i - 1;
        }
        None
    }

    /// The bytes of the tensor `name`.
    pub fn tensor_data(&self, name: &str) -> (r: Result<Vec<u8>, TensorError>)
        ensures
            match r {
                Ok(v) => self@.data(name@) == Ok::<_, TensorError>(v@),
                Err(e) => self@.data(name@) == Err::<Seq<u8>, _>(e),
            },
    {
        let info: &TensorInfo = match self.tensor_info(name) {
            Some(t) => t,
            None => {
                return Err(TensorError::Missing);
            },
        };
        let count: usize = match checked_count(info.dims.as_slice()) {
            Some(n) => n,
            None => {
                return Err(TensorError::TooLarge);
            },
        };
        let len: u128 = match info.dtype {
            GgmlDtype::F32 => 4 * count as u128,
            GgmlDtype::F16 => 2 * count as u128,
            GgmlDtype::Q4_0 => {
                if count % 32 != 0 {
                    return Err(TensorError::PartialBlock);
                }
                (count / 32) as u128 * 18
            },
            GgmlDtype::Q8_0 => {
                if count % 32 != 0 {
                    return Err(TensorError::PartialBlock);
                }
                (count / 32) as u128 * 34
            },
        };
        if len > usize::MAX as u128 || info.offset > u64::MAX - self.data_start {
            return Err(TensorError::TooLarge);
        }
        match self.source.read_at(self.data_start + info.offset, len as usize) {
            Some(v) => Ok(v),
            None => Err(TensorError::Truncated),
        }
    }
}

/// A product of which no factor is zero is no less than a part of it.
proof fn lemma_count_grows(dims: Seq<usize>, k: int)
    requires
        0 <= k <= dims.len(),
        forall|i: int| 0 <= i < dims.len() ==> dims[i] != 0,
    ensures
        element_count(dims.take(k)) <= element_count(dims),
    decreases dims.len() - k,
{
    if k < dims.len() {
        lemma_count_grows(dims, k + 1);
        assert(dims.take(k + 1).drop_last() =~= dims.take(k));
        let a = element_count(dims.take(k));
        let d = dims[k] as nat;
        assert(a <= a * d) by (nonlinear_arith)
            requires
                d >= 1,
                a >= 0,
        ;
    } else {
        assert(dims.take(k) =~= dims);
    }
}

/// A product of which a factor is zero is zero.
proof fn lemma_count_zero(dims: Seq<usize>, k: int)
    requires
        0 <= k < dims.len(),
        dims[k] == 0,
    ensures
        element_count(dims) == 0,
    decreases dims.len(),
{
    if k < dims.len() - 1 {
        lemma_count_zero(dims.drop_last(), k);
    }
    let a = element_count(dims.drop_last());
    let d = dims.last() as nat;
    assert(a * d == 0) by (nonlinear_arith)
        requires
            a == 0 || d == 0,
    ;
}

/// The number of elements of a tensor, if it is a machine number.
fn checked_count(dims: &[usize]) -> (r: Option<usize>)
    ensures
        match r {
            Some(n) => element_count(dims@) == n,
            None => element_count(dims@) > usize::MAX,
        },
{
    let mut i: usize = 0;
    while i < dims.len()
        invariant
            i <= dims@.len(),
            forall|j: int| 0 <= j < i ==> dims@[j] != 0,
        decreases dims@.len() - i,
    {
        if dims[i] == 0 {
            proof {
                lemma_count_zero(dims@, i as int);
            }
            return Some(0);
        }
        i = i + 1;
    }
    let mut count: usize = 1;
    let mut k: usize = 0;
    assert(dims@.take(0) =~= Seq::<usize>::empty());
    while k < dims.len()
        invariant
            k <= dims@.len(),
            forall|j: int| 0 <= j < dims@.len() ==> dims@[j] != 0,
            count == element_count(dims@.take(k as int)),
        decreases dims@.len() - k,
    {
        proof {
            assert(dims@.take(k + 1).drop_last() =~= dims@.take(k as int));
            lemma_count_grows(dims@, k + 1);
        }
        match count.checked_mul(dims[k]) {
            Some(n) => {
                count = n;
            },
            None => {
                return None;
            },
        }
        k = k + 1;
    }
    assert(dims@.take(k as int) =~= dims@);
    Some(count)
}

} // verus!
