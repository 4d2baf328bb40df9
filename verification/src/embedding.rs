//! The embedding engine: a loaded dual-encoder model plus its tokenizer,
//! shared read-only by every caller.
//!
//! Loading the artifacts (memory-mapped weights, a tokenizer file) and
//! preparing pixel tensors are done by the caller, outside this crate: the
//! first needs the filesystem, the second floating-point rescaling.  What
//! lives here is everything decided around the model calls: batch token
//! padding, error classification, and the composition of tokenize, forward
//! pass and normalization.  The forward passes and the L2 normalization are
//! trusted calls into the model library; the normalization invariant (unit
//! output length) is exercised by tests, since this crate never looks
//! inside a tensor.

use vstd::prelude::*;

use crate::errors::GalleryError;

verus! {

#[verifier::external_type_specification]
#[verifier::external_body]
pub struct ExTensor(candle_core::Tensor);

#[verifier::external_type_specification]
#[verifier::external_body]
pub struct ExDevice(candle_core::Device);

#[verifier::external_type_specification]
#[verifier::external_body]
pub struct ExCandleError(candle_core::Error);

#[verifier::external_type_specification]
#[verifier::external_body]
pub struct ExClipModel(candle_transformers::models::clip::ClipModel);

#[verifier::external_type_specification]
#[verifier::external_body]
pub struct ExTokenizer(tokenizers::Tokenizer);

/// Relies on `tokenizers::Tokenizer::encode` and `Encoding::get_ids`: the
/// token ids of `sequence`, special tokens included; a failure is carried
/// over as its message.
#[verifier::external_body]
fn tok_encode(tokenizer: &tokenizers::Tokenizer, sequence: &str) -> (r: Result<Vec<u32>, String>) {
    match tokenizer.encode(sequence, true) {
        Ok(encoding) => Ok(encoding.get_ids().to_vec()),
        Err(e) => Err(e.to_string()),
    }
}

/// Relies on `tokenizers::Tokenizer::get_vocab`: the id of `token` in the
/// full vocabulary, where the vocabulary has it.
#[verifier::external_body]
fn tok_token_id(tokenizer: &tokenizers::Tokenizer, token: &str) -> (r: Option<u32>) {
    tokenizer.get_vocab(true).get(token).copied()
}

/// Relies on `candle_core::Tensor::new`: a rank-1 tensor holding `ids`.
#[verifier::external_body]
fn tensor_of_ids(ids: Vec<u32>, device: &candle_core::Device) -> (r: Result<
    candle_core::Tensor,
    String,
>) {
    candle_core::Tensor::new(ids, device).map_err(|e| e.to_string())
}

/// Relies on `candle_core::Tensor::new`: a rank-2 tensor holding `rows`;
/// the rows must have one common length.
#[verifier::external_body]
fn tensor_of_id_rows(rows: Vec<Vec<u32>>, device: &candle_core::Device) -> (r: Result<
    candle_core::Tensor,
    String,
>) {
    candle_core::Tensor::new(rows, device).map_err(|e| e.to_string())
}

/// Relies on `candle_core::Tensor::unsqueeze`: `t` with one new leading
/// (batch) dimension.
#[verifier::external_body]
fn tensor_unsqueeze0(t: &candle_core::Tensor) -> (r: Result<candle_core::Tensor, String>) {
    t.unsqueeze(0).map_err(|e| e.to_string())
}

/// Relies on `ClipModel::get_text_features`: the text pathway's forward
/// pass over a batch of token-id rows.
#[verifier::external_body]
fn model_text_features(
    model: &candle_transformers::models::clip::ClipModel,
    input_ids: &candle_core::Tensor,
) -> (r: Result<candle_core::Tensor, String>) {
    model.get_text_features(input_ids).map_err(|e| e.to_string())
}

/// Relies on `ClipModel::get_image_features`: the vision pathway's forward
/// pass over a batch of pixel tensors.
#[verifier::external_body]
fn model_image_features(
    model: &candle_transformers::models::clip::ClipModel,
    pixel_values: &candle_core::Tensor,
) -> (r: Result<candle_core::Tensor, String>) {
    model.get_image_features(pixel_values).map_err(|e| e.to_string())
}

/// Relies on `candle_transformers::models::clip::div_l2_norm`: `t` scaled
/// row-wise to unit L2 length.
#[verifier::external_body]
fn l2_normalize(t: &candle_core::Tensor) -> (r: Result<candle_core::Tensor, String>) {
    candle_transformers::models::clip::div_l2_norm(t).map_err(|e| e.to_string())
}

/// The longest row length among `rows`.
pub open spec fn max_row_len(rows: Seq<Vec<u32>>) -> nat
    decreases rows.len(),
{
    if rows.len() == 0 {
        0
    } else {
        let rest = max_row_len(rows.drop_last());
        if rows.last()@.len() > rest {
            rows.last()@.len()
        } else {
            rest
        }
    }
}

proof fn lemma_max_row_len_push(rows: Seq<Vec<u32>>, v: Vec<u32>)
    ensures
        max_row_len(rows.push(v)) == (if v@.len() > max_row_len(rows) {
            v@.len()
        } else {
            max_row_len(rows)
        }),
{
    assert(rows.push(v).drop_last() =~= rows);
    assert(rows.push(v).last() == v);
}

proof fn lemma_max_row_len_bound(rows: Seq<Vec<u32>>, i: int)
    requires
        0 <= i < rows.len(),
    ensures
        rows[i]@.len() <= max_row_len(rows),
    decreases rows.len(),
{
    if i < rows.len() - 1 {
        lemma_max_row_len_bound(rows.drop_last(), i);
    }
}

/// The exact width the padded batch will have.
fn max_row_width(rows: &Vec<Vec<u32>>) -> (w: usize)
    ensures
        w == max_row_len(rows@),
{
    let mut w: usize = 0;
    let mut i: usize = 0;
    proof {
        assert(rows@.subrange(0, 0) =~= Seq::<Vec<u32>>::empty());
    }
    while i < rows.len()
        invariant
            i <= rows@.len(),
            w == max_row_len(rows@.subrange(0, i as int)),
        decreases rows@.len() - i,
    {
        proof {
            assert(rows@.subrange(0, i + 1 as int) =~= rows@.subrange(0, i as int).push(
                rows@[i as int],
            ));
            lemma_max_row_len_push(rows@.subrange(0, i as int), rows@[i as int]);
        }
        if rows[i].len() > w {
            w = rows[i].len();
        }
        i = i + 1;
    }
    proof {
        assert(rows@.subrange(0, rows@.len() as int) =~= rows@);
    }
    w
}

/// Pad every token row to the batch maximum with the pad token, keeping
/// each row's own tokens in place and in order.
pub fn pad_token_rows(rows: Vec<Vec<u32>>, pad: u32) -> (r: Vec<Vec<u32>>)
    ensures
        r@.len() == rows@.len(),
        forall|i: int|
            0 <= i < r@.len() ==> (#[trigger] r@[i])@.len() == max_row_len(rows@),
        forall|i: int|
            0 <= i < r@.len() ==> (#[trigger] r@[i])@.subrange(0, rows@[i]@.len() as int)
                == rows@[i]@,
        forall|i: int, j: int|
            0 <= i < r@.len() && rows@[i]@.len() <= j < r@[i]@.len() ==> (#[trigger] r@[i]@[j])
                == pad,
{
    let width = max_row_width(&rows);
    let ghost orig = rows@;
    let mut rows = rows;
    let total = rows.len();
    let mut out: Vec<Vec<u32>> = Vec::new();
    let mut k: usize = 0;
    proof {
        assert(rows@ =~= orig.subrange(0, orig.len() as int));
    }
    while k < total
        invariant
            k <= total == orig.len(),
            width == max_row_len(orig),
            rows@ == orig.subrange(k as int, orig.len() as int),
            out@.len() == k,
            forall|i: int| 0 <= i < k ==> (#[trigger] out@[i])@.len() == width,
            forall|i: int|
                0 <= i < k ==> (#[trigger] out@[i])@.subrange(0, orig[i]@.len() as int)
                    == orig[i]@,
            forall|i: int, j: int|
                0 <= i < k && orig[i]@.len() <= j < out@[i]@.len() ==> (#[trigger] out@[i]@[j])
                    == pad,
        decreases total - k,
    {
        proof {
            assert(rows@[0] == orig[k as int]);
            lemma_max_row_len_bound(orig, k as int);
        }
        let mut row = rows.remove(0);
        proof {
            assert(rows@ =~= orig.subrange(k + 1 as int, orig.len() as int));
            assert(row@.subrange(0, row@.len() as int) =~= row@);
        }
        let ghost base = row@;
        while row.len() < width
            invariant
                base.len() <= row@.len() <= width,
                row@.subrange(0, base.len() as int) == base,
                forall|j: int| base.len() <= j < row@.len() ==> row@[j] == pad,
            decreases width - row@.len(),
        {
            row.push(pad);
            proof {
                assert(row@.subrange(0, base.len() as int) =~= base);
            }
        }
        out.push(row);
        k = k + 1;
    }
    out
}

/// The loaded dual-encoder model with its tokenizer and compute device,
/// bound once at startup and shared read-only afterwards.
pub struct ClipEmbedder {
    pub model: candle_transformers::models::clip::ClipModel,
    pub tokenizer: tokenizers::Tokenizer,
    pub device: candle_core::Device,
    /// The model's fixed square input edge, in pixels.
    pub image_size: usize,
}

impl ClipEmbedder {
    /// Bind an already-loaded model, tokenizer and device into one engine.
    /// Loading the artifacts from disk is the caller's: it needs the
    /// filesystem and memory mapping, which this crate does not touch.
    pub fn new(
        model: candle_transformers::models::clip::ClipModel,
        tokenizer: tokenizers::Tokenizer,
        device: candle_core::Device,
        image_size: usize,
    ) -> (e: ClipEmbedder)
        ensures
            e.model == model,
            e.tokenizer == tokenizer,
            e.device == device,
            e.image_size == image_size,
    {
        ClipEmbedder { model, tokenizer, device, image_size }
    }

    /// Tokenize one sequence into a batch-of-one tensor of token ids.
    /// Any failure is an `InferenceError` for this input alone.
    pub fn tokenize_sequence(&self, sequence: &str) -> (r: Result<candle_core::Tensor, GalleryError>)
        ensures
            r matches Err(e) ==> e is InferenceError,
    {
        let ids = match tok_encode(&self.tokenizer, sequence) {
            Ok(ids) => ids,
            Err(m) => {
                return Err(GalleryError::InferenceError(m));
            },
        };
        let t = match tensor_of_ids(ids, &self.device) {
            Ok(t) => t,
            Err(m) => {
                return Err(GalleryError::InferenceError(m));
            },
        };
        match tensor_unsqueeze0(&t) {
            Ok(t) => Ok(t),
            Err(m) => Err(GalleryError::InferenceError(m)),
        }
    }

    /// Encode a text into the shared embedding space: tokenize, run the
    /// text pathway, and L2-normalize, so the result is a unit vector
    /// comparable by dot product.  The empty string is a valid input.  Any
    /// failure is an `InferenceError` for this input alone; the engine
    /// keeps no per-call state, so later calls are unaffected.
    pub fn encode_text(&self, text: &str) -> (r: Result<candle_core::Tensor, GalleryError>)
        ensures
            r matches Err(e) ==> e is InferenceError,
    {
        let input_ids = self.tokenize_sequence(text)?;
        let features = match model_text_features(&self.model, &input_ids) {
            Ok(t) => t,
            Err(m) => {
                return Err(GalleryError::InferenceError(m));
            },
        };
        match l2_normalize(&features) {
            Ok(t) => Ok(t),
            Err(m) => Err(GalleryError::InferenceError(m)),
        }
    }

    /// Encode one prepared pixel tensor (the model's square input size,
    /// three channels, intensities already rescaled by the caller) into the
    /// shared embedding space: batch it, run the vision pathway, and
    /// L2-normalize.  Any failure is an `InferenceError` for this input
    /// alone.
    pub fn encode_image(&self, pixel_values: &candle_core::Tensor) -> (r: Result<
        candle_core::Tensor,
        GalleryError,
    >)
        ensures
            r matches Err(e) ==> e is InferenceError,
    {
        let batched = match tensor_unsqueeze0(pixel_values) {
            Ok(t) => t,
            Err(m) => {
                return Err(GalleryError::InferenceError(m));
            },
        };
        let features = match model_image_features(&self.model, &batched) {
            Ok(t) => t,
            Err(m) => {
                return Err(GalleryError::InferenceError(m));
            },
        };
        match l2_normalize(&features) {
            Ok(t) => Ok(t),
            Err(m) => Err(GalleryError::InferenceError(m)),
        }
    }

    /// Tokenize a batch of sequences into one rectangular tensor, padding
    /// every row to the batch maximum with the tokenizer's designated pad
    /// token; output order matches input order, and the sequences are
    /// echoed back beside the tensor.  A vocabulary without the pad token
    /// is an `ArtifactError`; any per-input failure is an `InferenceError`.
    pub fn tokenize_sequences(&self, sequences: &Vec<String>) -> (r: Result<
        (candle_core::Tensor, Vec<String>),
        GalleryError,
    >)
        ensures
            r matches Err(e) ==> (e is ArtifactError || e is InferenceError),
            r matches Ok(p) ==> p.1@.len() == sequences@.len() && (forall|i: int|
                0 <= i < sequences@.len() ==> (#[trigger] p.1@[i])@ == sequences@[i]@),
    {
        let pad_id = match tok_token_id(&self.tokenizer, "<|endoftext|>") {
            Some(id) => id,
            None => {
                return Err(GalleryError::ArtifactError("No pad token".to_owned()));
            },
        };
        let mut tokens: Vec<Vec<u32>> = Vec::new();
        let mut i: usize = 0;
        while i < sequences.len()
            invariant
                i <= sequences@.len(),
            decreases sequences@.len() - i,
        {
            match tok_encode(&self.tokenizer, sequences[i].as_str()) {
                Ok(ids) => {
                    tokens.push(ids);
                },
                Err(m) => {
                    return Err(GalleryError::InferenceError(m));
                },
            }
            i = i + 1;
        }
        let padded = pad_token_rows(tokens, pad_id);
        let input_ids = match tensor_of_id_rows(padded, &self.device) {
            Ok(t) => t,
            Err(m) => {
                return Err(GalleryError::InferenceError(m));
            },
        };
        let mut echo: Vec<String> = Vec::new();
        let mut j: usize = 0;
        while j < sequences.len()
            invariant
                j <= sequences@.len(),
                echo@.len() == j,
                forall|t: int| 0 <= t < j ==> (#[trigger] echo@[t])@ == sequences@[t]@,
            decreases sequences@.len() - j,
        {
            echo.push(sequences[j].clone());
            j = j + 1;
        }
        Ok((input_ids, echo))
    }
}

} // verus!
