//! The bytes of a frame buffer, seen as pixels.

use vstd::prelude::*;

verus! {

/// Why bytes cannot be seen as pixels.
#[derive(Clone, Copy, Debug, PartialEq, Eq, Structural)]
pub enum PodCastError {
    /// The bytes do not begin at an address that a pixel may have.
    TargetAlignmentGreaterAndInputNotAligned,
    /// The bytes are no whole number of pixels.
    OutputSliceWouldHaveSlop,
    /// The sizes differ.
    SizeMismatch,
    /// The alignments differ.
    AlignmentMismatch,
}

/// The number that the bytes from `at` on make, the lowest byte first.
pub open spec fn little_endian(bytes: Seq<u8>, at: int, size: int) -> int
    decreases size,
{
    if size <= 0 {
        0
    } else {
        bytes[at] + 0x100 * little_endian(bytes, at + 1, size - 1)
    }
}

/// The number that the bytes from `at` on make, the highest byte first.
pub open spec fn big_endian(bytes: Seq<u8>, at: int, size: int) -> int
    decreases size,
{
    if size <= 0 {
        0
    } else {
        bytes[at + size - 1] + 0x100 * big_endian(bytes, at, size - 1)
    }
}

/// Whether the bytes are those of the numbers, `size` for each, in one of the two orders.
pub open spec fn bytes_of(bytes: Seq<u8>, numbers: Seq<int>, size: int, big: bool) -> bool {
    &&& bytes.len() == numbers.len() * size
    &&& forall|i: int|
        0 <= i < numbers.len() ==> #[trigger] numbers[i] == if big {
            big_endian(bytes, i * size, size)
        } else {
            little_endian(bytes, i * size, size)
        }
}

/// The bytes are seen as numbers, in the byte order of the machine, now and after the numbers have
/// been changed.
pub open spec fn seen_as(
    bytes: Seq<u8>,
    numbers: Seq<int>,
    later_bytes: Seq<u8>,
    later_numbers: Seq<int>,
    size: int,
) -> bool {
    exists|big: bool|
        #[trigger] bytes_of(bytes, numbers, size, big) && bytes_of(
            later_bytes,
            later_numbers,
            size,
            big,
        )
}

/// Numbers of four bytes as integers.
pub open spec fn words(numbers: Seq<u32>) -> Seq<int> {
    numbers.map_values(|n: u32| n as int)
}

/// Numbers of two bytes as integers.
pub open spec fn halves(numbers: Seq<u16>) -> Seq<int> {
    numbers.map_values(|n: u16| n as int)
}

/// Sees bytes as numbers of four bytes. This calls `bytemuck::try_cast_slice_mut`, and trusts that
/// it gives the same memory in the byte order of the machine, that it succeeds on a whole number
/// of pixels alone, that it leaves the bytes alone where it fails, and that it reports a rest only
/// where there is one. Whether it fails for the address is not said: that is up to the machine.
#[verifier::external_body]
pub(crate) fn cast_words(bytes: &mut [u8]) -> (r: Result<&mut [u32], PodCastError>)
    ensures
        match r {
            Ok(px) => seen_as(old(bytes)@, words(px@), final(bytes)@, words(final(px)@), 4),
            Err(e) => {
                &&& final(bytes)@ == old(bytes)@
                &&& e == PodCastError::TargetAlignmentGreaterAndInputNotAligned || (e
                    == PodCastError::OutputSliceWouldHaveSlop && old(bytes)@.len() % 4 != 0)
            },
        },
{
    bytemuck::try_cast_slice_mut(bytes).map_err(|e| match e {
        bytemuck::PodCastError::TargetAlignmentGreaterAndInputNotAligned =>
            PodCastError::TargetAlignmentGreaterAndInputNotAligned,
        bytemuck::PodCastError::OutputSliceWouldHaveSlop => PodCastError::OutputSliceWouldHaveSlop,
        bytemuck::PodCastError::SizeMismatch => PodCastError::SizeMismatch,
        bytemuck::PodCastError::AlignmentMismatch => PodCastError::AlignmentMismatch,
    })
}

/// Sees bytes as numbers of two bytes. This calls `bytemuck::try_cast_slice_mut`, and trusts of it
/// what `cast_words` does.
#[verifier::external_body]
pub(crate) fn cast_halves(bytes: &mut [u8]) -> (r: Result<&mut [u16], PodCastError>)
    ensures
        match r {
            Ok(px) => seen_as(old(bytes)@, halves(px@), final(bytes)@, halves(final(px)@), 2),
            Err(e) => {
                &&& final(bytes)@ == old(bytes)@
                &&& e == PodCastError::TargetAlignmentGreaterAndInputNotAligned || (e
                    == PodCastError::OutputSliceWouldHaveSlop && old(bytes)@.len() % 2 != 0)
            },
        },
{
    bytemuck::try_cast_slice_mut(bytes).map_err(|e| match e {
        bytemuck::PodCastError::TargetAlignmentGreaterAndInputNotAligned =>
            PodCastError::TargetAlignmentGreaterAndInputNotAligned,
        bytemuck::PodCastError::OutputSliceWouldHaveSlop => PodCastError::OutputSliceWouldHaveSlop,
        bytemuck::PodCastError::SizeMismatch => PodCastError::SizeMismatch,
        bytemuck::PodCastError::AlignmentMismatch => PodCastError::AlignmentMismatch,
    })
}

/// Whether the cast to pixels of the given layout, called on a slice of these bytes, answered with
/// this error. Nothing but a call of the cast shows this.
pub closed spec fn cast_refused(bytes: Seq<u8>, layout: PixelLayout, error: PodCastError) -> bool {
    match layout {
        PixelLayout::Xrgb8888 => exists|slice: &mut [u8]|
            (*slice)@ == bytes && #[trigger] call_ensures(
                cast_words,
                (slice,),
                Err::<&mut [u32], PodCastError>(error),
            ),
        PixelLayout::Rgb565 => exists|slice: &mut [u8]|
            (*slice)@ == bytes && #[trigger] call_ensures(
                cast_halves,
                (slice,),
                Err::<&mut [u16], PodCastError>(error),
            ),
    }
}

/// Call a function on a value.
fn call<A, B, F: Fn(A) -> B>(value: A, function: F) -> (result: B)
    requires
        call_requires(function, (value,)),
    ensures
        call_ensures(function, (value,), result),
{
    function(value)
}

/// A frame buffer, pixel by pixel.
#[derive(Debug)]
pub enum PixelsMut<'a> {
    /// Pixels with eight bits for each of red, green and blue.
    Xrgb8888(&'a mut [u32]),
    /// Pixels with five bits for red and blue and six for green.
    Rgb565(&'a mut [u16]),
}

/// A format that is rendered to.
#[derive(Clone, Copy, Debug, PartialEq, Eq, Structural)]
pub enum PixelLayout {
    Xrgb8888,
    Rgb565,
}

/// See the bytes of a frame buffer as pixels of the given layout.
pub fn cast_pixels<'a>(bytes: &'a mut [u8], layout: PixelLayout) -> (r: Result<
    PixelsMut<'a>,
    PodCastError,
>)
    ensures
        match r {
            Ok(PixelsMut::Xrgb8888(px)) => {
                &&& layout == PixelLayout::Xrgb8888
                &&& seen_as(old(bytes)@, words(px@), final(bytes)@, words(final(px)@), 4)
            },
            Ok(PixelsMut::Rgb565(px)) => {
                &&& layout == PixelLayout::Rgb565
                &&& seen_as(old(bytes)@, halves(px@), final(bytes)@, halves(final(px)@), 2)
            },
            Err(e) => {
                &&& cast_refused(old(bytes)@, layout, e)
                &&& final(bytes)@ == old(bytes)@
                &&& e == PodCastError::TargetAlignmentGreaterAndInputNotAligned || (e
                    == PodCastError::OutputSliceWouldHaveSlop && old(bytes)@.len() % (
                if layout == PixelLayout::Xrgb8888 {
                    4
                } else {
                    2
                }) != 0)
            },
        },
{
    match layout {
        PixelLayout::Xrgb8888 => match call(bytes, cast_words) {
            Ok(px) => Ok(PixelsMut::Xrgb8888(px)),
            Err(e) => Err(e),
        },
        PixelLayout::Rgb565 => match call(bytes, cast_halves) {
            Ok(px) => Ok(PixelsMut::Rgb565(px)),
            Err(e) => Err(e),
        },
    }
}

/// Bytes are refused as pixels only by the cast itself, called on them; whatever else is true of
/// them, such as how many they are, is no reason.
pub(crate) proof fn law_refused_by_cast(bytes: Seq<u8>, error: PodCastError)
    ensures
        cast_refused(bytes, PixelLayout::Xrgb8888, error) <==> exists|slice: &mut [u8]|
            (*slice)@ == bytes && #[trigger] call_ensures(
                cast_words,
                (slice,),
                Err::<&mut [u32], PodCastError>(error),
            ),
        cast_refused(bytes, PixelLayout::Rgb565, error) <==> exists|slice: &mut [u8]|
            (*slice)@ == bytes && #[trigger] call_ensures(
                cast_halves,
                (slice,),
                Err::<&mut [u16], PodCastError>(error),
            ),
{
}

/// Bytes are refused for their address, or for a rest: four bytes make a pixel of the one layout,
/// two one of the other. Without a rest, nothing but the address is left.
pub proof fn law_reasons_for_refusal(bytes: Seq<u8>, layout: PixelLayout, error: PodCastError)
    requires
        cast_refused(bytes, layout, error),
    ensures
        error == PodCastError::TargetAlignmentGreaterAndInputNotAligned || error
            == PodCastError::OutputSliceWouldHaveSlop,
        layout == PixelLayout::Xrgb8888 && bytes.len() % 4 == 0 ==> error
            == PodCastError::TargetAlignmentGreaterAndInputNotAligned,
        layout == PixelLayout::Rgb565 && bytes.len() % 2 == 0 ==> error
            == PodCastError::TargetAlignmentGreaterAndInputNotAligned,
{
}

/// Every byte of a frame buffer belongs to one pixel of four bytes, in its place: pixel `i` is made
/// of the bytes from `4 * i` on, the lowest first or the highest first, the same way for all, now
/// and after pixels have been changed.
pub proof fn law_words_of_bytes(
    bytes: Seq<u8>,
    px: Seq<u32>,
    later_bytes: Seq<u8>,
    later_px: Seq<u32>,
)
    requires
        seen_as(bytes, words(px), later_bytes, words(later_px), 4),
    ensures
        bytes.len() == 4 * px.len(),
        later_bytes.len() == 4 * later_px.len(),
        ({
            ||| {
                &&& forall|i: int|
                    0 <= i < px.len() ==> #[trigger] px[i] == bytes[4 * i] + 0x100 * bytes[4 * i + 1]
                        + 0x1_0000 * bytes[4 * i + 2] + 0x100_0000 * bytes[4 * i + 3]
                &&& forall|i: int|
                    0 <= i < later_px.len() ==> #[trigger] later_px[i] == later_bytes[4 * i] + 0x100
                        * later_bytes[4 * i + 1] + 0x1_0000 * later_bytes[4 * i + 2] + 0x100_0000
                        * later_bytes[4 * i + 3]
            }
            ||| {
                &&& forall|i: int|
                    0 <= i < px.len() ==> #[trigger] px[i] == bytes[4 * i + 3] + 0x100 * bytes[4 * i
                        + 2] + 0x1_0000 * bytes[4 * i + 1] + 0x100_0000 * bytes[4 * i]
                &&& forall|i: int|
                    0 <= i < later_px.len() ==> #[trigger] later_px[i] == later_bytes[4 * i + 3]
                        + 0x100 * later_bytes[4 * i + 2] + 0x1_0000 * later_bytes[4 * i + 1]
                        + 0x100_0000 * later_bytes[4 * i]
            }
        }),
{
    let big = choose|big: bool|
        #[trigger] bytes_of(bytes, words(px), 4, big) && bytes_of(
            later_bytes,
            words(later_px),
            4,
            big,
        );
    reveal_with_fuel(little_endian, 5);
    reveal_with_fuel(big_endian, 5);
    assert forall|i: int| 0 <= i < px.len() implies #[trigger] px[i] == if big {
        big_endian(bytes, i * 4, 4)
    } else {
        little_endian(bytes, i * 4, 4)
    } by {
        assert(words(px)[i] == px[i] as int);
    }
    assert forall|i: int| 0 <= i < later_px.len() implies #[trigger] later_px[i] == if big {
        big_endian(later_bytes, i * 4, 4)
    } else {
        little_endian(later_bytes, i * 4, 4)
    } by {
        assert(words(later_px)[i] == later_px[i] as int);
    }
}

/// Every byte of a frame buffer belongs to one pixel of two bytes, in its place: pixel `i` is made
/// of the bytes from `2 * i` on, the lowest first or the highest first, the same way for all, now
/// and after pixels have been changed.
pub proof fn law_halves_of_bytes(
    bytes: Seq<u8>,
    px: Seq<u16>,
    later_bytes: Seq<u8>,
    later_px: Seq<u16>,
)
    requires
        seen_as(bytes, halves(px), later_bytes, halves(later_px), 2),
    ensures
        bytes.len() == 2 * px.len(),
        later_bytes.len() == 2 * later_px.len(),
        ({
            ||| {
                &&& forall|i: int|
                    0 <= i < px.len() ==> #[trigger] px[i] == bytes[2 * i] + 0x100 * bytes[2 * i + 1]
                &&& forall|i: int|
                    0 <= i < later_px.len() ==> #[trigger] later_px[i] == later_bytes[2 * i] + 0x100
                        * later_bytes[2 * i + 1]
            }
            ||| {
                &&& forall|i: int|
                    0 <= i < px.len() ==> #[trigger] px[i] == bytes[2 * i + 1] + 0x100 * bytes[2 * i]
                &&& forall|i: int|
                    0 <= i < later_px.len() ==> #[trigger] later_px[i] == later_bytes[2 * i + 1]
                        + 0x100 * later_bytes[2 * i]
            }
        }),
{
    let big = choose|big: bool|
        #[trigger] bytes_of(bytes, halves(px), 2, big) && bytes_of(
            later_bytes,
            halves(later_px),
            2,
            big,
        );
    reveal_with_fuel(little_endian, 3);
    reveal_with_fuel(big_endian, 3);
    assert forall|i: int| 0 <= i < px.len() implies #[trigger] px[i] == if big {
        big_endian(bytes, i * 2, 2)
    } else {
        little_endian(bytes, i * 2, 2)
    } by {
        assert(halves(px)[i] == px[i] as int);
    }
    assert forall|i: int| 0 <= i < later_px.len() implies #[trigger] later_px[i] == if big {
        big_endian(later_bytes, i * 2, 2)
    } else {
        little_endian(later_bytes, i * 2, 2)
    } by {
        assert(halves(later_px)[i] == later_px[i] as int);
    }
}

} // verus!
