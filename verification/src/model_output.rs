//! Interpreting the tensors that the ONNX models return: shape checks,
//! layout of the spatial map inside the raw output, and index mapping
//! between model space and image space.

use vstd::prelude::*;

verus! {

/// Why a model output could not be interpreted.
#[derive(Debug, Clone, PartialEq, Eq)]
pub enum OutputError {
    /// The output tensor has a rank the model adapter does not handle.
    UnexpectedShape(Vec<i64>),
    /// The output holds fewer values than its spatial map needs.
    OutputTooSmall { expected: usize, got: usize },
    /// A detection output has fewer channels per detection than required.
    TooFewChannels { expected: usize, got: usize },
}

/// The `(height, width)` of the spatial map of a single-channel output:
/// the last two dimensions of a rank-2, rank-3 or rank-4 shape.
pub open spec fn spec_map_dims(shape: Seq<i64>) -> Option<(usize, usize)> {
    if shape.len() == 4 {
        Some((shape[2] as usize, shape[3] as usize))
    } else if shape.len() == 3 {
        Some((shape[1] as usize, shape[2] as usize))
    } else if shape.len() == 2 {
        Some((shape[0] as usize, shape[1] as usize))
    } else {
        None
    }
}

/// Reads `(height, width)` of the spatial map of a single-channel output
/// (`[1, 1, H, W]`, `[1, H, W]` or `[H, W]`); other ranks are refused.
pub fn map_dims(shape: &[i64]) -> (r: Result<(usize, usize), OutputError>)
    ensures
        match spec_map_dims(shape@) {
            Some(d) => r == Ok::<(usize, usize), OutputError>(d),
            None => r matches Err(OutputError::UnexpectedShape(s)) && s@ == shape@,
        },
{
    let n = shape.len();
    if n == 4 {
        Ok((shape[2] as usize, shape[3] as usize))
    } else if n == 3 {
        Ok((shape[1] as usize, shape[2] as usize))
    } else if n == 2 {
        Ok((shape[0] as usize, shape[1] as usize))
    } else {
        Err(OutputError::UnexpectedShape(vstd::slice::slice_to_vec(shape)))
    }
}

/// Where the `map_h × map_w` spatial map starts inside a raw output of
/// `raw_len` values: leading batch and channel dimensions (all of size one)
/// are skipped by taking the last `map_h * map_w` values.
pub fn trailing_map_start(raw_len: usize, map_h: usize, map_w: usize) -> (r: Result<usize, OutputError>)
    requires
        map_h * map_w <= usize::MAX,
    ensures
        raw_len >= map_h * map_w ==> r == Ok::<usize, OutputError>((raw_len - map_h * map_w) as usize),
        raw_len < map_h * map_w ==> r == Err::<usize, OutputError>(
            OutputError::OutputTooSmall { expected: (map_h * map_w) as usize, got: raw_len },
        ),
{
    let map_size = map_h * map_w;
    if raw_len < map_size {
        Err(OutputError::OutputTooSmall { expected: map_size, got: raw_len })
    } else {
        Ok(raw_len - map_size)
    }
}

/// `(classes, height, width)` of a class-logit output: `[1, C, H, W]` or
/// `[C, H, W]`.
pub open spec fn spec_class_map_dims(shape: Seq<i64>) -> Option<(usize, usize, usize)> {
    if shape.len() == 4 {
        Some((shape[1] as usize, shape[2] as usize, shape[3] as usize))
    } else if shape.len() == 3 {
        Some((shape[0] as usize, shape[1] as usize, shape[2] as usize))
    } else {
        None
    }
}

/// Reads `(classes, height, width)` of a class-logit output; other ranks are
/// refused.
pub fn class_map_dims(shape: &[i64]) -> (r: Result<(usize, usize, usize), OutputError>)
    ensures
        match spec_class_map_dims(shape@) {
            Some(d) => r == Ok::<(usize, usize, usize), OutputError>(d),
            None => r matches Err(OutputError::UnexpectedShape(s)) && s@ == shape@,
        },
{
    let n = shape.len();
    if n == 4 {
        Ok((shape[1] as usize, shape[2] as usize, shape[3] as usize))
    } else if n == 3 {
        Ok((shape[0] as usize, shape[1] as usize, shape[2] as usize))
    } else {
        Err(OutputError::UnexpectedShape(vstd::slice::slice_to_vec(shape)))
    }
}

/// Channels per detection in a face-detection output: box (4), confidence
/// (1) and five landmarks (10).
pub const DET_CHANNELS: usize = 15;

/// `(channels, detections)` of a channel-first detection output:
/// `[1, C, N]` or, with the batch squeezed out, `[C, N]`.
pub open spec fn spec_detection_dims(shape: Seq<i64>) -> Option<(usize, usize)> {
    if shape.len() == 3 {
        Some((shape[1] as usize, shape[2] as usize))
    } else if shape.len() == 2 {
        Some((shape[0] as usize, shape[1] as usize))
    } else {
        None
    }
}

/// Reads `(channels, detections)` of a detection output, refusing other
/// ranks and outputs with fewer than 15 channels.
pub fn detection_dims(shape: &[i64]) -> (r: Result<(usize, usize), OutputError>)
    ensures
        match spec_detection_dims(shape@) {
            Some(d) => if d.0 < DET_CHANNELS {
                r == Err::<(usize, usize), OutputError>(OutputError::TooFewChannels { expected: DET_CHANNELS, got: d.0 })
            } else {
                r == Ok::<(usize, usize), OutputError>(d)
            },
            None => r matches Err(OutputError::UnexpectedShape(s)) && s@ == shape@,
        },
{
    let n = shape.len();
    let (channels, num_det) = if n == 3 {
        (shape[1] as usize, shape[2] as usize)
    } else if n == 2 {
        (shape[0] as usize, shape[1] as usize)
    } else {
        return Err(OutputError::UnexpectedShape(vstd::slice::slice_to_vec(shape)));
    };
    if channels < DET_CHANNELS {
        return Err(OutputError::TooFewChannels { expected: DET_CHANNELS, got: channels });
    }
    Ok((channels, num_det))
}

/// Index of feature `i` of detection `j` in a channel-first detection
/// output with `num_det` detections and `len` values: `i * num_det + j`,
/// or `None` past the end of the data (which reads as zero).
pub fn feature_index(i: usize, j: usize, num_det: usize, len: usize) -> (r: Option<usize>)
    requires
        i * num_det + j <= usize::MAX,
    ensures
        i * num_det + j < len ==> r == Some((i * num_det + j) as usize),
        i * num_det + j >= len ==> r is None,
{
    let idx = i * num_det + j;
    if idx < len {
        Some(idx)
    } else {
        None
    }
}

/// The `(width, height)` of a model input with a fixed spatial size, read
/// from its `[N, C, H, W]` shape; `None` when the shape has fewer than four
/// dimensions or either spatial dimension is dynamic (not positive).
pub fn fixed_input_dims(shape: &[i64]) -> (r: Option<(u32, u32)>)
    ensures
        (shape@.len() >= 4 && shape@[2] > 0 && shape@[3] > 0) ==> r == Some((shape@[3] as u32, shape@[2] as u32)),
        !(shape@.len() >= 4 && shape@[2] > 0 && shape@[3] > 0) ==> r is None,
{
    if shape.len() >= 4 {
        let h = shape[2];
        let w = shape[3];
        if h > 0 && w > 0 {
            return Some((w as u32, h as u32));
        }
    }
    None
}

/// Maps position `dst` of an axis of length `dst_len` to the nearest-lower
/// position on an axis of length `src_len` by proportional scaling, clamped
/// to the last source position.
pub fn nearest_source_index(dst: usize, src_len: usize, dst_len: usize) -> (r: usize)
    requires
        dst_len > 0,
        src_len > 0,
        dst * src_len <= usize::MAX,
    ensures
        r == (if (dst * src_len) / (dst_len as int) < src_len - 1 { (dst * src_len) / (dst_len as int) } else { src_len - 1 }),
        r < src_len,
{
    let scaled = dst * src_len / dst_len;
    if scaled < src_len - 1 {
        scaled
    } else {
        src_len - 1
    }
}

} // verus!
