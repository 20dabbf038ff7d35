//! Loading of single tensors, and what a list of tensors needs to load.

use vstd::prelude::*;

use crate::gguf::bytes::{law_word_of_four, law_word_of_two, ByteSource};
use crate::gguf::context::Context;
use crate::gguf::floats::{
    decode_halves, decode_singles, halves, singles, FloatBits, FloatTensor, FloatTensorView,
    FloatsView,
};
use crate::gguf::linear::Q4Linear;
use crate::gguf::model::RmsNorm;
use crate::gguf::reader::{
    element_count, GgmlDtype, GgufFile, GgufReader, TensorEntry, TensorError, TensorInfo,
};
use crate::gguf::tensor::{
    block_size, elements, is_quantized, matrix_fits, quant_failure, quant_fits, quantized_len,
    Q4Tensor, QuantView,
};

verus! {

/// A tensor that could not be loaded, and why.
#[derive(Debug)]
pub struct LoadError {
    /// What was being loaded, the widest part of the model first.
    pub context: Vec<Context>,
    pub name: String,
    pub error: TensorError,
}

/// What a tensor is wanted for.
pub enum Purpose {
    /// Floating-point numbers in `rank` dimensions.
    Floats { rank: usize },
    /// A quantized matrix.
    Quantized,
    /// A description in the file, whatever it says.
    Present,
    /// The stored bytes, whatever they mean.
    Bytes,
    /// The dimensions of a matrix.
    Matrix,
    /// The token embeddings as floating-point numbers.
    TokenTable,
    /// The entries of a codebook, stored as 32-bit floats.
    CodebookEntries,
    /// One 32-bit float for each entry of the codebook `entries`.
    CodebookUsage { entries: Seq<char> },
}

/// A tensor that is wanted from a file.
#[verifier::ext_equal]
pub struct Slot {
    pub name: Seq<char>,
    pub purpose: Purpose,
    /// What is being loaded with it, the widest part of the model first.
    pub context: Seq<Context>,
}

impl Slot {
    /// The same tensor, wanted as a part of `c`.
    pub open spec fn part_of(self, c: Context) -> Slot {
        Slot { context: seq![c] + self.context, ..self }
    }
}

/// The same tensors, wanted as parts of `c`.
pub open spec fn within(c: Context, slots: Seq<Slot>) -> Seq<Slot> {
    slots.map_values(|s: Slot| s.part_of(c))
}

impl LoadError {
    /// Whether this is the error `inner`, which came up while `c` was being loaded.
    pub open spec fn wraps(self, c: Context, inner: LoadError) -> bool {
        &&& self.context@ == seq![c] + inner.context@
        &&& self.name@ == inner.name@
        &&& self.error == inner.error
    }

    /// The error, which came up while `c` was being loaded.
    pub fn within(self, c: Context) -> (r: LoadError)
        ensures
            r.wraps(c, self),
    {
        let mut context: Vec<Context> = self.context;
        context.insert(0, c);
        assert(context@ =~= seq![c] + self.context@);
        LoadError { context, name: self.name, error: self.error }
    }
}

/// The dimensions of a tensor, the one that varies slowest first.
pub open spec fn shape_of(entry: TensorEntry) -> Seq<usize> {
    entry.dims.reverse()
}

/// What keeps a tensor from being a quantized matrix, once its bytes are there.
pub open spec fn matrix_failure(entry: TensorEntry, len: nat) -> Option<TensorError> {
    let shape = shape_of(entry);
    if shape.len() < 2 {
        Some(TensorError::TooFewDims { found: shape.len() as usize })
    } else if !quant_fits(shape[0] as nat, shape[1] as nat, entry.dtype) {
        Some(TensorError::TooLarge)
    } else {
        match quant_failure(len, shape[0] as nat, shape[1] as nat, entry.dtype) {
            Some(error) => Some(TensorError::Quant { error }),
            None => None,
        }
    }
}

/// What keeps a quantized tensor from being dequantized as a matrix, once its
/// bytes are there.
pub open spec fn table_failure(entry: TensorEntry, len: nat) -> Option<TensorError> {
    let shape = shape_of(entry);
    if shape.len() < 2 {
        Some(TensorError::TooFewDims { found: shape.len() as usize })
    } else {
        let count = shape[0] as nat * shape[1] as nat;
        if count > usize::MAX {
            Some(TensorError::TooLarge)
        } else if count % block_size() != 0 {
            Some(TensorError::PartialBlock)
        } else if quantized_len(entry.dtype, count) > len {
            Some(TensorError::Truncated)
        } else {
            None
        }
    }
}

/// Whether and as what tensors can be had from a file.
impl GgufFile {
    /// What keeps the tensor `name` from being had as floats in `rank` dimensions.
    pub open spec fn float_failure(self, name: Seq<char>, rank: usize) -> Option<TensorError> {
        match (self.entry(name), self.data(name)) {
            (Some(entry), Ok(_)) => if is_quantized(entry.dtype) {
                Some(TensorError::NotFloat { dtype: entry.dtype })
            } else if entry.dims.len() != rank {
                Some(TensorError::Rank { expected: rank, found: entry.dims.len() as usize })
            } else {
                None
            },
            (Some(_), Err(e)) => Some(e),
            (None, _) => Some(TensorError::Missing),
        }
    }

    /// The tensor `name` as floats.
    pub open spec fn float_value(self, name: Seq<char>) -> FloatTensorView {
        let entry = self.entry(name)->0;
        let data = self.data(name)->Ok_0;
        FloatTensorView {
            shape: shape_of(entry),
            values: if entry.dtype == GgmlDtype::F32 {
                FloatsView::Single(singles(data))
            } else {
                FloatsView::Half(halves(data))
            },
        }
    }

    /// What keeps the tensor `name` from being had as a quantized matrix.
    pub open spec fn quantized_failure(self, name: Seq<char>) -> Option<TensorError> {
        match (self.entry(name), self.data(name)) {
            (Some(entry), Ok(data)) => matrix_failure(entry, data.len()),
            (Some(_), Err(e)) => Some(e),
            (None, _) => Some(TensorError::Missing),
        }
    }

    /// The tensor `name` as a quantized matrix.
    pub open spec fn quantized_value(self, name: Seq<char>) -> QuantView {
        let entry = self.entry(name)->0;
        QuantView {
            raw: self.data(name)->Ok_0,
            rows: shape_of(entry)[0] as nat,
            cols: shape_of(entry)[1] as nat,
            dtype: entry.dtype,
        }
    }

    /// Whether `w` is the matrix that is stored under `name`: its blocks, its rows as
    /// the dimension that varies slowest, and its columns as the one after it.
    pub open spec fn stores_matrix(self, name: Seq<char>, w: QuantView) -> bool {
        &&& self.entry(name) matches Some(entry)
        &&& self.data(name) == Ok::<_, TensorError>(w.raw)
        &&& w.dtype == entry.dtype
        &&& entry.dims.len() >= 2
        &&& w.rows == entry.dims[entry.dims.len() - 1]
        &&& w.cols == entry.dims[entry.dims.len() - 2]
    }

    /// Whether `t` is the tensor of floats that is stored under `name`: its dimensions,
    /// the one that varies slowest first, and its words, the lowest byte of each first.
    pub open spec fn stores_floats(self, name: Seq<char>, t: FloatTensorView) -> bool {
        &&& self.entry(name) matches Some(entry)
        &&& self.data(name) matches Ok(bytes)
        &&& t.shape.len() == entry.dims.len()
        &&& forall|i: int|
            0 <= i < t.shape.len() ==> #[trigger] t.shape[i] == entry.dims[entry.dims.len() - 1 - i]
        &&& match t.values {
            FloatsView::Single(v) => {
                &&& entry.dtype == GgmlDtype::F32
                &&& 4 * v.len() == bytes.len()
                &&& forall|i: int|
                    0 <= i < v.len() ==> #[trigger] v[i] == bytes[4 * i] + 0x100 * bytes[4 * i + 1]
                        + 0x1_0000 * bytes[4 * i + 2] + 0x100_0000 * bytes[4 * i + 3]
            },
            FloatsView::Half(v) => {
                &&& entry.dtype == GgmlDtype::F16
                &&& 2 * v.len() == bytes.len()
                &&& forall|i: int|
                    0 <= i < v.len() ==> #[trigger] v[i] == bytes[2 * i] + 0x100 * bytes[2 * i + 1]
            },
            FloatsView::Scaled(_) => false,
        }
    }

    /// What keeps the tensor `name` from being described in the file.
    pub open spec fn entry_failure(self, name: Seq<char>) -> Option<TensorError> {
        match self.entry(name) {
            Some(_) => None,
            None => Some(TensorError::Missing),
        }
    }

    /// What keeps the bytes of the tensor `name` from being had.
    pub open spec fn bytes_failure(self, name: Seq<char>) -> Option<TensorError> {
        match self.data(name) {
            Ok(_) => None,
            Err(e) => Some(e),
        }
    }

    /// What keeps the tensor `name` from having the dimensions of a matrix.
    pub open spec fn dims_failure(self, name: Seq<char>) -> Option<TensorError> {
        match self.entry(name) {
            Some(entry) => if entry.dims.len() < 2 {
                Some(TensorError::TooFewDims { found: entry.dims.len() as usize })
            } else {
                None
            },
            None => Some(TensorError::Missing),
        }
    }

    /// What keeps the tensor `name` from being had as a table of floats, which may
    /// be stored in quantized blocks.
    pub open spec fn table_failure(self, name: Seq<char>) -> Option<TensorError> {
        match (self.entry(name), self.data(name)) {
            (Some(entry), Ok(data)) => if is_quantized(entry.dtype) {
                table_failure(entry, data.len())
            } else {
                self.float_failure(name, 2)
            },
            (Some(_), Err(e)) => Some(e),
            (None, _) => Some(TensorError::Missing),
        }
    }

    /// The tensor `name` as a table of floats.
    pub open spec fn table_value(self, name: Seq<char>) -> FloatTensorView {
        let entry = self.entry(name)->0;
        if is_quantized(entry.dtype) {
            let shape = shape_of(entry);
            FloatTensorView {
                shape: seq![shape[0], shape[1]],
                values: FloatsView::Scaled(
                    elements(
                        self.data(name)->Ok_0,
                        entry.dtype,
                        shape[0] as nat * shape[1] as nat,
                    ),
                ),
            }
        } else {
            self.float_value(name)
        }
    }

    /// What keeps the tensor `name` from being the entries of a codebook.
    pub open spec fn codebook_failure(self, name: Seq<char>) -> Option<TensorError> {
        match (self.entry(name), self.data(name)) {
            (Some(entry), Ok(data)) => if entry.dims.len() != 2 {
                Some(TensorError::Rank { expected: 2, found: entry.dims.len() as usize })
            } else if singles(data).len() != element_count(entry.dims) {
                Some(
                    TensorError::Count {
                        expected: element_count(entry.dims) as usize,
                        found: singles(data).len() as usize,
                    },
                )
            } else {
                None
            },
            (Some(_), Err(e)) => Some(e),
            (None, _) => Some(TensorError::Missing),
        }
    }

    /// What keeps the tensor `name` from holding a number for each entry of the
    /// codebook `entries`.
    pub open spec fn usage_failure(self, name: Seq<char>, entries: Seq<char>) -> Option<
        TensorError,
    > {
        match self.data(name) {
            Ok(data) => {
                let expected = shape_of(self.entry(entries)->0)[0];
                if singles(data).len() != expected {
                    Some(TensorError::Count { expected, found: singles(data).len() as usize })
                } else {
                    None
                }
            },
            Err(e) => Some(e),
        }
    }

    /// What keeps a wanted tensor from being had.
    pub open spec fn failure(self, slot: Slot) -> Option<TensorError> {
        match slot.purpose {
            Purpose::Floats { rank } => self.float_failure(slot.name, rank),
            Purpose::Quantized => self.quantized_failure(slot.name),
            Purpose::Present => self.entry_failure(slot.name),
            Purpose::Bytes => self.bytes_failure(slot.name),
            Purpose::Matrix => self.dims_failure(slot.name),
            Purpose::TokenTable => self.table_failure(slot.name),
            Purpose::CodebookEntries => self.codebook_failure(slot.name),
            Purpose::CodebookUsage { entries } => self.usage_failure(slot.name, entries),
        }
    }

    /// Whether every wanted tensor can be had.
    pub open spec fn all_load(self, slots: Seq<Slot>) -> bool {
        forall|i: int| 0 <= i < slots.len() ==> self.failure(#[trigger] slots[i]) is None
    }

    /// Whether `e` names the wanted tensor number `i`, which cannot be had.
    pub open spec fn fails_at(self, slots: Seq<Slot>, i: int, e: LoadError) -> bool {
        &&& 0 <= i < slots.len()
        &&& slots[i].name == e.name@
        &&& slots[i].context == e.context@
        &&& self.failure(slots[i]) == Some(e.error)
    }

    /// Whether `e` names the first wanted tensor that cannot be had.
    pub open spec fn fails_first(self, slots: Seq<Slot>, e: LoadError) -> bool {
        exists|i: int| #[trigger] self.fails_at(slots, i, e) && self.all_load(slots.take(i))
    }
}

/// Before the first tensor nothing has failed.
pub proof fn lemma_loads_none(file: GgufFile, slots: Seq<Slot>)
    ensures
        file.all_load(slots.take(0)),
{
}

/// One more tensor loads.
pub proof fn lemma_loads_next(file: GgufFile, slots: Seq<Slot>, k: int)
    requires
        0 <= k < slots.len(),
        file.all_load(slots.take(k)),
        file.failure(slots[k]) is None,
    ensures
        file.all_load(slots.take(k + 1)),
{
    let more = slots.take(k + 1);
    assert forall|j: int| 0 <= j < more.len() implies file.failure(#[trigger] more[j]) is None by {
        if j < k {
            assert(more[j] == slots.take(k)[j]);
        }
    }
}

/// All tensors load.
pub proof fn lemma_loads_all(file: GgufFile, slots: Seq<Slot>)
    requires
        file.all_load(slots.take(slots.len() as int)),
    ensures
        file.all_load(slots),
{
    assert(slots.take(slots.len() as int) =~= slots);
}

/// The next tensor is the first that does not load.
pub proof fn lemma_fails_next(file: GgufFile, slots: Seq<Slot>, k: int, e: LoadError)
    requires
        file.all_load(slots.take(k)),
        file.fails_at(slots, k, e),
    ensures
        file.fails_first(slots, e),
{
}

/// Appending more tensors does not undo a failure.
pub proof fn lemma_fails_in_front(file: GgufFile, front: Seq<Slot>, back: Seq<Slot>, e: LoadError)
    requires
        file.fails_first(front, e),
    ensures
        file.fails_first(front + back, e),
{
    let i = choose|i: int| #[trigger] file.fails_at(front, i, e) && file.all_load(front.take(i));
    assert((front + back).take(i) =~= front.take(i));
    assert(file.fails_at(front + back, i, e));
}

/// A failure behind tensors that load is the first one.
pub proof fn lemma_fails_behind(file: GgufFile, front: Seq<Slot>, back: Seq<Slot>, e: LoadError)
    requires
        file.all_load(front),
        file.fails_first(back, e),
    ensures
        file.fails_first(front + back, e),
{
    let i = choose|i: int| #[trigger] file.fails_at(back, i, e) && file.all_load(back.take(i));
    let k = front.len() + i;
    let slots = (front + back).take(k);
    assert forall|j: int| 0 <= j < slots.len() implies file.failure(
        #[trigger] slots[j],
    ) is None by {
        if j < front.len() {
            assert(slots[j] == front[j]);
        } else {
            assert(slots[j] == back.take(i)[j - front.len()]);
        }
    }
    assert(file.fails_at(front + back, k, e));
}

/// Tensors that load can be put together.
pub proof fn lemma_all_load_both(file: GgufFile, front: Seq<Slot>, back: Seq<Slot>)
    ensures
        file.all_load(front + back) <==> file.all_load(front) && file.all_load(back),
{
    let both = front + back;
    if file.all_load(both) {
        assert forall|j: int| 0 <= j < front.len() implies file.failure(
            #[trigger] front[j],
        ) is None by {
            assert(both[j] == front[j]);
        }
        assert forall|j: int| 0 <= j < back.len() implies file.failure(
            #[trigger] back[j],
        ) is None by {
            assert(both[front.len() + j] == back[j]);
        }
    }
}

/// Tensors load whatever they are a part of.
pub proof fn lemma_loads_within(file: GgufFile, c: Context, slots: Seq<Slot>)
    ensures
        file.all_load(within(c, slots)) <==> file.all_load(slots),
{
    let parts = within(c, slots);
    if file.all_load(parts) {
        assert forall|j: int| 0 <= j < slots.len() implies file.failure(
            #[trigger] slots[j],
        ) is None by {
            assert(parts[j] == slots[j].part_of(c));
        }
    }
}

/// The first failure among the parts of `c` is the first failure among the tensors.
pub proof fn lemma_fails_within(
    file: GgufFile,
    c: Context,
    slots: Seq<Slot>,
    inner: LoadError,
    e: LoadError,
)
    requires
        file.fails_first(slots, inner),
        e.wraps(c, inner),
    ensures
        file.fails_first(within(c, slots), e),
{
    let i = choose|i: int|
        #[trigger] file.fails_at(slots, i, inner) && file.all_load(slots.take(i));
    assert(within(c, slots).take(i) =~= within(c, slots.take(i)));
    lemma_loads_within(file, c, slots.take(i));
    assert(file.fails_at(within(c, slots), i, e));
}

/// Either every tensor loads, or exactly one error is the first one.
pub proof fn law_one_outcome(file: GgufFile, slots: Seq<Slot>, e1: LoadError, e2: LoadError)
    requires
        file.fails_first(slots, e1),
    ensures
        !file.all_load(slots),
        file.fails_first(slots, e2) ==> e1.context@ == e2.context@ && e1.name@ == e2.name@
            && e1.error == e2.error,
{
    let i = choose|i: int| #[trigger] file.fails_at(slots, i, e1) && file.all_load(slots.take(i));
    assert(file.failure(slots[i]) is Some);
    if file.fails_first(slots, e2) {
        let j = choose|j: int|
            #[trigger] file.fails_at(slots, j, e2) && file.all_load(slots.take(j));
        if i < j {
            assert(slots.take(j)[i] == slots[i]);
        } else if j < i {
            assert(slots.take(i)[j] == slots[j]);
        }
    }
}

/// A quantized matrix that loads is the one that is stored under its name.
pub proof fn law_matrix_is_stored(file: GgufFile, name: Seq<char>)
    requires
        file.quantized_failure(name) is None,
    ensures
        file.stores_matrix(name, file.quantized_value(name)),
{
}

/// A tensor of floats that loads is the one that is stored under its name.
pub proof fn law_floats_are_stored(file: GgufFile, name: Seq<char>, rank: usize)
    requires
        file.float_failure(name, rank) is None,
    ensures
        file.stores_floats(name, file.float_value(name)),
{
    let bytes = file.data(name)->Ok_0;
    let t = file.float_value(name);
    match t.values {
        FloatsView::Single(v) => {
            assert forall|i: int| 0 <= i < v.len() implies #[trigger] v[i] == bytes[4 * i] + 0x100
                * bytes[4 * i + 1] + 0x1_0000 * bytes[4 * i + 2] + 0x100_0000 * bytes[4 * i
                + 3] by {
                law_word_of_four(bytes, 4 * i);
            }
        },
        FloatsView::Half(v) => {
            assert forall|i: int| 0 <= i < v.len() implies #[trigger] v[i] == bytes[2 * i] + 0x100
                * bytes[2 * i + 1] by {
                law_word_of_two(bytes, 2 * i);
            }
        },
        FloatsView::Scaled(_) => {},
    }
}

/// The dimensions of a tensor, the one that varies slowest first.
pub fn reverse_gguf_dims(dims: &[usize]) -> (r: Vec<usize>)
    ensures
        r@ == dims@.reverse(),
        r@.len() == dims@.len(),
        forall|i: int| 0 <= i < r@.len() ==> #[trigger] r@[i] == dims@[dims@.len() - 1 - i],
{
    let mut out: Vec<usize> = Vec::new();
    let mut i: usize = dims.len();
    while i > 0
        invariant
            i <= dims@.len(),
            out@ == dims@.reverse().take(dims@.len() - i),
        decreases i,
    {
        i = i - 1;
        out.push(dims[i]);
        assert(out@ =~= dims@.reverse().take(dims@.len() - i));
    }
    assert(out@ =~= dims@.reverse());
    out
}

/// An error about the tensor `name`.
pub fn load_error(name: &str, error: TensorError) -> (r: LoadError)
    ensures
        r.context@ == Seq::<Context>::empty(),
        r.name@ == name@,
        r.error == error,
{
    LoadError { context: Vec::new(), name: name.to_owned(), error }
}

/// Loads a tensor of floats.
pub fn gguf_load_f32_tensor<R: ByteSource>(reader: &GgufReader<R>, name: &str, rank: usize) -> (r:
    Result<FloatTensor, LoadError>)
    ensures
        match r {
            Ok(t) => reader@.float_failure(name@, rank) is None && t@ == reader@.float_value(name@)
                && reader@.stores_floats(name@, t@),
            Err(e) => e.context@ == Seq::<Context>::empty() && e.name@ == name@
                && reader@.float_failure(name@, rank) == Some(e.error),
        },
{
    let info: &TensorInfo = match reader.tensor_info(name) {
        Some(t) => t,
        None => {
            return Err(load_error(name, TensorError::Missing));
        },
    };
    let data: Vec<u8> = match reader.tensor_data(name) {
        Ok(v) => v,
        Err(e) => {
            return Err(load_error(name, e));
        },
    };
    let values: FloatBits = match info.dtype() {
        GgmlDtype::F32 => FloatBits::Single(decode_singles(data.as_slice())),
        GgmlDtype::F16 => FloatBits::Half(decode_halves(data.as_slice())),
        dtype => {
            return Err(load_error(name, TensorError::NotFloat { dtype }));
        },
    };
    let found: usize = info.shape().len();
    if found != rank {
        return Err(load_error(name, TensorError::Rank { expected: rank, found }));
    }
    let shape: Vec<usize> = reverse_gguf_dims(info.shape());
    proof {
        law_floats_are_stored(reader@, name@, rank);
    }
    Ok(FloatTensor { shape, values })
}

/// Loads the weights of a normalization layer.
pub fn gguf_load_rms_norm<R: ByteSource>(reader: &GgufReader<R>, name: &str, eps: u64) -> (r:
    Result<RmsNorm, LoadError>)
    ensures
        match r {
            Ok(n) => reader@.float_failure(name@, 1) is None && n.weight@ == reader@.float_value(
                name@,
            ) && reader@.stores_floats(name@, n.weight@) && n.eps == eps,
            Err(e) => e.context@ == Seq::<Context>::empty() && e.name@ == name@
                && reader@.float_failure(name@, 1) == Some(e.error),
        },
{
    match gguf_load_f32_tensor(reader, name, 1) {
        Ok(weight) => Ok(RmsNorm { weight, eps }),
        Err(e) => Err(e),
    }
}

/// Loads a quantized linear layer.
pub fn gguf_load_q4_linear<R: ByteSource>(reader: &GgufReader<R>, name: &str) -> (r: Result<
    Q4Linear,
    LoadError,
>)
    ensures
        match r {
            Ok(l) => reader@.quantized_failure(name@) is None && l@.weights
                == reader@.quantized_value(name@) && reader@.stores_matrix(name@, l@.weights)
                && l@.bias is None,
            Err(e) => e.context@ == Seq::<Context>::empty() && e.name@ == name@
                && reader@.quantized_failure(name@) == Some(e.error),
        },
{
    let info: &TensorInfo = match reader.tensor_info(name) {
        Some(t) => t,
        None => {
            return Err(load_error(name, TensorError::Missing));
        },
    };
    let data: Vec<u8> = match reader.tensor_data(name) {
        Ok(v) => v,
        Err(e) => {
            return Err(load_error(name, e));
        },
    };
    let shape: Vec<usize> = reverse_gguf_dims(info.shape());
    if shape.len() < 2 {
        return Err(load_error(name, TensorError::TooFewDims { found: shape.len() }));
    }
    if !matrix_fits(shape[0], shape[1], info.dtype()) {
        return Err(load_error(name, TensorError::TooLarge));
    }
    match Q4Tensor::from_quantized_bytes(data.as_slice(), [shape[0], shape[1]], info.dtype()) {
        Ok(t) => Ok(Q4Linear::new(t, None)),
        Err(error) => Err(load_error(name, TensorError::Quant { error })),
    }
}

} // verus!
