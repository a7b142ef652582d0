//! From encoded image bytes to an intensity grid.
//!
//! Recognising the container and decoding it is the `image` crate's work; the
//! library checks what comes back before it calls it a grid.

use crate::grid::valid_shape;
use crate::grid::GridView;
use crate::grid::IntensityGrid;
use vstd::prelude::*;

verus! {

/// Why no grid could be had from the bytes. There is one kind of failure; the
/// message tells a reader what went wrong.
#[derive(Debug)]
pub struct DecodeFailure {
    pub message: String,
}

/// A decoded image, or an error text, as plain sequences.
pub open spec fn decoded_view(decoded: Result<(u32, u32, Vec<u8>), String>) -> Result<
    (u32, u32, Seq<u8>),
    Seq<char>,
> {
    match decoded {
        Ok(image) => Ok((image.0, image.1, image.2@)),
        Err(text) => Err(text@),
    }
}

/// The message of the failure reported for an image whose dimensions and
/// samples do not form a grid.
pub open spec fn unusable_shape_message() -> Seq<char> {
    "decoded image has an unusable shape"@
}

/// The grid, or the failure message, that a decoded image stands for.
pub open spec fn grid_of(decoded: Result<(u32, u32, Seq<u8>), Seq<char>>) -> Result<
    GridView,
    Seq<char>,
> {
    match decoded {
        Err(text) => Err(text),
        Ok(image) => if valid_shape(image.0 as nat, image.1 as nat, image.2.len()) {
            Ok(GridView { width: image.0 as nat, height: image.1 as nat, samples: image.2 })
        } else {
            Err(unusable_shape_message())
        },
    }
}

/// A grid result by the view of the grid or the text of the failure.
pub open spec fn grid_result_view(result: Result<IntensityGrid, DecodeFailure>) -> Result<
    GridView,
    Seq<char>,
> {
    match result {
        Ok(grid) => Ok(grid@),
        Err(failure) => Err(failure.message@),
    }
}

/// Trusted: calls `image::load_from_memory` on the bytes and, where that
/// succeeds, `DynamicImage::to_luma8`, and hands out the luma image's width,
/// height and pixels in row order; where it fails, the error's `Display`
/// text. Nothing is claimed about the outcome: which bytes decode, and to
/// what, is the decoder's affair and may depend on the formats and hooks
/// that the process has registered with it.
#[verifier::external_body]
pub(crate) fn decode_luma8(bytes: &[u8]) -> (decoded: Result<(u32, u32, Vec<u8>), String>) {
    match image::load_from_memory(bytes) {
        Ok(picture) => {
            let gray = picture.to_luma8();
            Ok((gray.width(), gray.height(), gray.pixels().map(|p| p.0[0]).collect()))
        },
        Err(error) => Err(error.to_string()),
    }
}

/// Turns what the decoder returned into a grid, or into the one failure.
///
/// A decoder error is passed on with its text. A decoded image becomes a grid
/// if its dimensions and samples form a valid shape, and is rejected
/// otherwise.
pub fn grid_from_decoded(decoded: Result<(u32, u32, Vec<u8>), String>) -> (result: Result<
    IntensityGrid,
    DecodeFailure,
>)
    ensures
        grid_result_view(result) == grid_of(decoded_view(decoded)),
        result matches Ok(grid) ==> decoded matches Ok(image) && grid@.width == image.0
            && grid@.height == image.1 && grid@.samples == image.2@,
{
    match decoded {
        Err(text) => Err(DecodeFailure { message: text }),
        Ok(image) => {
            let (width, height, samples) = image;
            match IntensityGrid::new(width, height, samples) {
                Some(grid) => Ok(grid),
                None => Err(
                    DecodeFailure {
                        message: "decoded image has an unusable shape".to_owned(),
                    },
                ),
            }
        },
    }
}

/// Decodes `bytes` to an 8-bit grayscale grid.
///
/// Whatever the decoder returns, the result is what `grid_from_decoded` makes
/// of it: the grid has the decoded image's width, height and samples, and a
/// failure carries the decoder's text or the message for an unusable shape.
pub fn decode(bytes: &[u8]) -> (result: Result<IntensityGrid, DecodeFailure>)
    ensures
        exists|decoded: Result<(u32, u32, Seq<u8>), Seq<char>>|
            grid_result_view(result) == #[trigger] grid_of(decoded) && (result matches Ok(grid)
                ==> decoded matches Ok(image) && grid@.width == image.0 && grid@.height
                == image.1 && grid@.samples == image.2),
{
    let decoded = decode_luma8(bytes);
    let ghost seen = decoded_view(decoded);
    let result = grid_from_decoded(decoded);
    proof {
        assert(grid_result_view(result) == grid_of(seen));
    }
    result
}

} // verus!
