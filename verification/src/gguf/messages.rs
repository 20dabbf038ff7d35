//! What errors say to a reader.

use vstd::prelude::*;

use crate::gguf::context::Context;
use crate::gguf::loader::LoadError;
use crate::gguf::names::{decimal, joined, numbered};
use crate::gguf::reader::{GgmlDtype, GgufError, TensorError};
use crate::gguf::tensor::QuantError;

verus! {

/// The name of a kind of elements.
pub open spec fn dtype_text(dtype: GgmlDtype) -> Seq<char> {
    match dtype {
        GgmlDtype::F32 => "F32"@,
        GgmlDtype::F16 => "F16"@,
        GgmlDtype::Q4_0 => "Q4_0"@,
        GgmlDtype::Q8_0 => "Q8_0"@,
    }
}

impl GgmlDtype {
    /// The name of this kind of elements.
    pub fn name(&self) -> (r: &'static str)
        ensures
            r@ == dtype_text(*self),
    {
        match self {
            GgmlDtype::F32 => "F32",
            GgmlDtype::F16 => "F16",
            GgmlDtype::Q4_0 => "Q4_0",
            GgmlDtype::Q8_0 => "Q8_0",
        }
    }
}

impl QuantError {
    /// The wording.
    pub open spec fn text(self) -> Seq<char> {
        match self {
            QuantError::UnsupportedDtype { dtype } =>
                "from_quantized_bytes only supports Q4_0 and Q8_0, got "@ + dtype_text(dtype),
            QuantError::PartialBlock { dtype, num_elements } => dtype_text(dtype)
                + " requires element count divisible by 32, got "@ + decimal(num_elements as nat),
            QuantError::ByteCount { dtype, expected, num_blocks, got } => dtype_text(dtype)
                + " byte count mismatch: expected "@ + decimal(expected as nat) + " for "@
                + decimal(num_blocks as nat) + " blocks, got "@ + decimal(got as nat),
        }
    }

    /// What is wrong with the bytes.
    pub fn message(&self) -> (r: String)
        ensures
            r@ == self.text(),
    {
        match *self {
            QuantError::UnsupportedDtype { dtype } => joined(
                "from_quantized_bytes only supports Q4_0 and Q8_0, got ",
                dtype.name(),
            ),
            QuantError::PartialBlock { dtype, num_elements } => {
                let s: String = joined(
                    dtype.name(),
                    " requires element count divisible by 32, got ",
                );
                numbered(s.as_str(), num_elements)
            },
            QuantError::ByteCount { dtype, expected, num_blocks, got } => {
                let s: String = joined(dtype.name(), " byte count mismatch: expected ");
                let s: String = numbered(s.as_str(), expected);
                let s: String = joined(s.as_str(), " for ");
                let s: String = numbered(s.as_str(), num_blocks);
                let s: String = joined(s.as_str(), " blocks, got ");
                numbered(s.as_str(), got)
            },
        }
    }
}

impl TensorError {
    /// The wording.
    pub open spec fn text(self) -> Seq<char> {
        match self {
            TensorError::Missing => "not found"@,
            TensorError::TooLarge => "too large"@,
            TensorError::PartialBlock => "element count not divisible by 32"@,
            TensorError::Truncated => "data ends too early"@,
            TensorError::NotFloat { dtype } => "expected F32 or F16, got "@ + dtype_text(dtype),
            TensorError::Rank { expected, found } => "expected "@ + decimal(expected as nat)
                + " dimensions, got "@ + decimal(found as nat),
            TensorError::TooFewDims { found } => "expected a matrix, got "@ + decimal(
                found as nat,
            ) + " dimensions"@,
            TensorError::Count { expected, found } => "expected "@ + decimal(expected as nat)
                + " values, got "@ + decimal(found as nat),
            TensorError::Quant { error } => error.text(),
        }
    }

    /// What is wrong with the tensor.
    pub fn message(&self) -> (r: String)
        ensures
            r@ == self.text(),
    {
        match *self {
            TensorError::Missing => "not found".to_owned(),
            TensorError::TooLarge => "too large".to_owned(),
            TensorError::PartialBlock => "element count not divisible by 32".to_owned(),
            TensorError::Truncated => "data ends too early".to_owned(),
            TensorError::NotFloat { dtype } => joined("expected F32 or F16, got ", dtype.name()),
            TensorError::Rank { expected, found } => {
                let s: String = numbered("expected ", expected);
                let s: String = joined(s.as_str(), " dimensions, got ");
                numbered(s.as_str(), found)
            },
            TensorError::TooFewDims { found } => {
                let s: String = numbered("expected a matrix, got ", found);
                joined(s.as_str(), " dimensions")
            },
            TensorError::Count { expected, found } => {
                let s: String = numbered("expected ", expected);
                let s: String = joined(s.as_str(), " values, got ");
                numbered(s.as_str(), found)
            },
            TensorError::Quant { error } => error.message(),
        }
    }
}

impl LoadError {
    /// The wording for the tensor itself.
    pub open spec fn tensor_text(self) -> Seq<char> {
        let rest = match self.error {
            TensorError::Missing => "' "@,
            _ => "': "@,
        };
        "Tensor '"@ + self.name@ + rest + self.error.text()
    }

    /// The wording on each level: what was being loaded, the widest part of the model
    /// first, and at last the tensor. Each text has the next one as its cause.
    pub open spec fn texts(self) -> Seq<Seq<char>> {
        self.context@.map_values(|c: Context| c.text()).push(self.tensor_text())
    }

    /// The wording of the error as a whole.
    pub open spec fn text(self) -> Seq<char> {
        self.texts()[0]
    }

    /// Which tensor could not be loaded, and why.
    pub fn tensor_message(&self) -> (r: String)
        ensures
            r@ == self.tensor_text(),
    {
        let s: String = joined("Tensor '", self.name.as_str());
        let s: String = match self.error {
            TensorError::Missing => joined(s.as_str(), "' "),
            _ => joined(s.as_str(), "': "),
        };
        joined(s.as_str(), self.error.message().as_str())
    }

    /// What could not be loaded: the widest part of the model, or the tensor if it is
    /// wanted as a part of nothing.
    pub fn message(&self) -> (r: String)
        ensures
            r@ == self.text(),
    {
        if self.context.len() > 0 {
            self.context[0].message()
        } else {
            self.tensor_message()
        }
    }

    /// The text `depth` levels below the message, if the error goes down so far.
    pub fn cause(&self, depth: usize) -> (r: Option<String>)
        ensures
            match r {
                Some(s) => depth < self.texts().len() && s@ == self.texts()[depth as int],
                None => depth >= self.texts().len(),
            },
    {
        if depth < self.context.len() {
            Some(self.context[depth].message())
        } else if depth == self.context.len() {
            Some(self.tensor_message())
        } else {
            None
        }
    }
}

/// An error has one text for each part of the model that was being loaded, the widest
/// first, and then one for the tensor; it reads as the first of them. A tensor that is not
/// there is said not to be found.
pub proof fn law_error_texts(e: LoadError)
    ensures
        e.texts().len() == e.context@.len() + 1,
        forall|i: int|
            0 <= i < e.context@.len() ==> #[trigger] e.texts()[i] == e.context@[i].text(),
        e.texts()[e.context@.len() as int] == e.tensor_text(),
        e.text() == e.texts()[0],
        e.error == TensorError::Missing ==> e.tensor_text() == "Tensor '"@ + e.name@ + "' "@
            + "not found"@,
        e.error matches TensorError::Quant { error } ==> e.tensor_text() == "Tensor '"@ + e.name@
            + "': "@ + error.text(),
{
}

/// An error that came up while `c` was being loaded reads as `c`, with the error as
/// its cause.
pub proof fn law_context_reads_first(e: LoadError, c: Context, inner: LoadError)
    requires
        e.wraps(c, inner),
    ensures
        e.text() == c.text(),
        e.texts() == seq![c.text()] + inner.texts(),
{
    assert(e.texts() =~= seq![c.text()] + inner.texts());
}

impl GgufError {
    /// The wording.
    pub open spec fn text(self) -> Seq<char> {
        match self {
            GgufError::BadMagic => "not a GGUF file"@,
            GgufError::UnsupportedVersion { version } => "unsupported GGUF version "@ + decimal(
                version as nat,
            ),
            GgufError::Truncated => "GGUF file ends too early"@,
            GgufError::TooLarge => "GGUF file holds a size that is too large"@,
            GgufError::BadValueType { code } => "unknown GGUF metadata type "@ + decimal(
                code as nat,
            ),
            GgufError::UnsupportedDtype { code } => "unsupported GGML dtype "@ + decimal(
                code as nat,
            ),
            GgufError::BadAlignment => "GGUF alignment is zero"@,
        }
    }

    /// Why the file is not accepted.
    pub fn message(&self) -> (r: String)
        ensures
            r@ == self.text(),
    {
        match *self {
            GgufError::BadMagic => "not a GGUF file".to_owned(),
            GgufError::UnsupportedVersion { version } => numbered(
                "unsupported GGUF version ",
                version as usize,
            ),
            GgufError::Truncated => "GGUF file ends too early".to_owned(),
            GgufError::TooLarge => "GGUF file holds a size that is too large".to_owned(),
            GgufError::BadValueType { code } => numbered(
                "unknown GGUF metadata type ",
                code as usize,
            ),
            GgufError::UnsupportedDtype { code } => numbered(
                "unsupported GGML dtype ",
                code as usize,
            ),
            GgufError::BadAlignment => "GGUF alignment is zero".to_owned(),
        }
    }
}

} // verus!
