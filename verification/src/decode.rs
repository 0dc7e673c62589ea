use vstd::prelude::*;

use vstd::arithmetic::div_mod::lemma_fundamental_div_mod;
use vstd::arithmetic::div_mod::lemma_fundamental_div_mod_converse_div;
use vstd::arithmetic::div_mod::lemma_fundamental_div_mod_converse_mod;

use crate::buffer::lemma_flat_view_is_row_major;
use crate::buffer::pixel_of;
use crate::buffer::PixelBuffer;
use crate::buffer::FLAT_LEN;
use crate::color::channel;
use crate::color::Rgba;
use crate::palette::palette;
use crate::palette::spec_palette;

verus! {

/// Bytes of the wire header, read and discarded before any row.
pub const HEADER_LEN: usize = 4;

/// Bytes of one row payload: 1000 pixels at two pixels per byte.
pub const ROW_BYTES: usize = 500;

/// Least length of a well-formed snapshot: header plus 1000 row payloads.
pub const PAYLOAD_LEN: usize = 500004;

/// Why a snapshot could not be decoded.
#[derive(Clone, Copy, Debug, PartialEq, Eq, Structural)]
pub enum DecodeError {
    /// The byte source failed before yielding the bytes.
    Transport,
    /// Fewer bytes were available than the header and 1000 full rows need.
    Truncated,
}

/// The low nibble of a byte: bits 0 to 3.
pub open spec fn low_nibble(b: u8) -> u8 {
    b % 16
}

/// The high nibble of a byte: bits 4 to 7.
pub open spec fn high_nibble(b: u8) -> u8 {
    b / 16
}

/// The payload byte that encodes output pixel (x, y): output row y comes from
/// source row 999 - y, and each source-row byte covers two columns.
pub open spec fn payload_byte_for(payload: Seq<u8>, x: int, y: int) -> u8 {
    payload[4 + (999 - y) * 500 + x / 2]
}

/// The color a well-formed payload assigns to output pixel (x, y): even
/// columns take the high nibble of their byte, odd columns the low nibble.
pub open spec fn decoded_pixel(payload: Seq<u8>, x: int, y: int) -> Rgba {
    if x % 2 == 0 {
        spec_palette(high_nibble(payload_byte_for(payload, x, y)) as int)
    } else {
        spec_palette(low_nibble(payload_byte_for(payload, x, y)) as int)
    }
}

/// Every grid position of the flat view `buf` holds the color that `payload`
/// assigns to it.
pub open spec fn fully_decoded(buf: Seq<u8>, payload: Seq<u8>) -> bool {
    forall|x: int, y: int|
        0 <= x < 1000 && 0 <= y < 1000 ==> pixel_of(buf, x, y) == decoded_pixel(payload, x, y)
}

/// Palette closure law: both nibbles of any byte are valid palette indices,
/// so no decode step can meet an unmapped color.
pub proof fn lemma_nibbles_are_palette_indices(b: u8)
    ensures
        low_nibble(b) < 16,
        high_nibble(b) < 16,
{
}

/// Determinism law: two well-formed buffers decoded from one payload hold
/// bit-identical flat byte views.
pub proof fn lemma_decode_deterministic(b1: Seq<u8>, b2: Seq<u8>, payload: Seq<u8>)
    requires
        b1.len() == FLAT_LEN,
        b2.len() == FLAT_LEN,
        fully_decoded(b1, payload),
        fully_decoded(b2, payload),
    ensures
        b1 == b2,
{
    lemma_flat_view_is_row_major(b1);
    lemma_flat_view_is_row_major(b2);
    assert forall|i: int| 0 <= i < b1.len() implies b1[i] == b2[i] by {
        let q = i / 4;
        lemma_fundamental_div_mod(i, 4);
        assert(0 <= q < 1000000);
        let x = q % 1000;
        let y = q / 1000;
        lemma_fundamental_div_mod(q, 1000);
        assert(0 <= x < 1000 && 0 <= y < 1000);
        assert(pixel_of(b1, x, y) == decoded_pixel(payload, x, y));
        assert(pixel_of(b2, x, y) == decoded_pixel(payload, x, y));
        assert(b1[i] == channel(pixel_of(b1, x, y), i % 4));
        assert(b2[i] == channel(pixel_of(b2, x, y), i % 4));
    }
    assert(b1 =~= b2);
}

/// Nibble-to-column law: the byte at position x of source row y (in read
/// order) sends its high nibble to even column 2x and its low nibble to odd
/// column 2x + 1 of output row 999 - y.
pub proof fn lemma_nibble_to_column(payload: Seq<u8>, x: int, y: int)
    requires
        payload.len() >= PAYLOAD_LEN,
        0 <= x < 500,
        0 <= y < 1000,
    ensures
        decoded_pixel(payload, 2 * x, 999 - y) == spec_palette(
            high_nibble(payload[4 + y * 500 + x]) as int,
        ),
        decoded_pixel(payload, 2 * x + 1, 999 - y) == spec_palette(
            low_nibble(payload[4 + y * 500 + x]) as int,
        ),
{
    lemma_fundamental_div_mod_converse_div(2 * x, 2, x, 0);
    lemma_fundamental_div_mod_converse_mod(2 * x, 2, x, 0);
    lemma_fundamental_div_mod_converse_div(2 * x + 1, 2, x, 1);
    lemma_fundamental_div_mod_converse_mod(2 * x + 1, 2, x, 1);
}

/// Row reversal law: the first row payload read (source row 0, the bytes
/// right after the header) populates output grid row 999, and the last one
/// read (source row 999) populates output grid row 0.
pub proof fn lemma_row_reversal(payload: Seq<u8>, x: int)
    requires
        payload.len() >= PAYLOAD_LEN,
        0 <= x < 500,
    ensures
        decoded_pixel(payload, 2 * x, 999) == spec_palette(high_nibble(payload[4 + x]) as int),
        decoded_pixel(payload, 2 * x + 1, 999) == spec_palette(low_nibble(payload[4 + x]) as int),
        decoded_pixel(payload, 2 * x, 0) == spec_palette(
            high_nibble(payload[4 + 999 * 500 + x]) as int,
        ),
        decoded_pixel(payload, 2 * x + 1, 0) == spec_palette(
            low_nibble(payload[4 + 999 * 500 + x]) as int,
        ),
{
    lemma_nibble_to_column(payload, x, 0);
    lemma_nibble_to_column(payload, x, 999);
}

/// Decode one snapshot into `out`.
///
/// The first 4 bytes of `payload` are the header and are skipped; the 1000
/// row payloads of 500 bytes that follow are expanded through the palette,
/// first row read landing at grid row 999 and counting down. Succeeds exactly
/// when at least 500,004 bytes are present, and then overwrites every cell of
/// `out`; on a shorter payload it reports truncation and leaves `out` as it
/// was. Bytes beyond the required length are ignored.
pub fn decode(payload: &Vec<u8>, out: &mut PixelBuffer) -> (r: Result<(), DecodeError>)
    requires
        old(out).wf(),
    ensures
        final(out).wf(),
        r is Ok <==> payload@.len() >= PAYLOAD_LEN,
        r is Ok ==> fully_decoded(final(out)@, payload@),
        r is Err ==> r == Err::<(), DecodeError>(DecodeError::Truncated) && final(out)@ == old(
            out,
        )@,
{
    if payload.len() < PAYLOAD_LEN {
        return Err(DecodeError::Truncated);
    }
    let mut y: usize = 0;
    while y < 1000
        invariant
            out.wf(),
            y <= 1000,
            payload@.len() >= PAYLOAD_LEN,
            forall|xx: int, yy: int|
                0 <= xx < 1000 && 1000 - y <= yy < 1000 ==> pixel_of(out@, xx, yy)
                    == decoded_pixel(payload@, xx, yy),
        decreases 1000 - y,
    {
        let row: usize = 999 - y;
        let row_base: usize = HEADER_LEN + y * ROW_BYTES;
        let mut x: usize = 0;
        while x < 500
            invariant
                out.wf(),
                x <= 500,
                y < 1000,
                row == 999 - y,
                row_base == 4 + y * 500,
                payload@.len() >= PAYLOAD_LEN,
                forall|xx: int, yy: int|
                    0 <= xx < 1000 && 1000 - y <= yy < 1000 ==> pixel_of(out@, xx, yy)
                        == decoded_pixel(payload@, xx, yy),
                forall|xx: int|
                    0 <= xx < 2 * x ==> #[trigger] pixel_of(out@, xx, 999 - y) == decoded_pixel(
                        payload@,
                        xx,
                        999 - y,
                    ),
            decreases 500 - x,
        {
            let b = payload[row_base + x];
            let hi = b / 16;
            let lo = b % 16;
            out.set(2 * x, row, palette(hi));
            out.set(2 * x + 1, row, palette(lo));
            proof {
                let xi = x as int;
                let yi = y as int;
                lemma_fundamental_div_mod_converse_div(2 * xi, 2, xi, 0);
                lemma_fundamental_div_mod_converse_mod(2 * xi, 2, xi, 0);
                lemma_fundamental_div_mod_converse_div(2 * xi + 1, 2, xi, 1);
                lemma_fundamental_div_mod_converse_mod(2 * xi + 1, 2, xi, 1);
                assert(payload_byte_for(payload@, 2 * xi, 999 - yi) == payload@[4 + yi * 500 + xi]);
                assert(payload_byte_for(payload@, 2 * xi + 1, 999 - yi) == payload@[4 + yi * 500
                    + xi]);
                assert(pixel_of(out@, 2 * xi, 999 - yi) == decoded_pixel(payload@, 2 * xi, 999
                    - yi));
                assert(pixel_of(out@, 2 * xi + 1, 999 - yi) == decoded_pixel(
                    payload@,
                    2 * xi + 1,
                    999 - yi,
                ));
            }
            x = x + 1;
        }
        y = y + 1;
    }
    Ok(())
}

/// Decode the body that a snapshot fetch yielded; a fetch that produced no
/// bytes at all is a transport failure, and the buffer is then left as it
/// was.
pub fn decode_response(body: &Option<Vec<u8>>, out: &mut PixelBuffer) -> (r: Result<
    (),
    DecodeError,
>)
    requires
        old(out).wf(),
    ensures
        final(out).wf(),
        body is None ==> r == Err::<(), DecodeError>(DecodeError::Transport) && final(out)@ == old(
            out,
        )@,
        body matches Some(p) ==> {
            &&& (r is Ok <==> p@.len() >= PAYLOAD_LEN)
            &&& (r is Ok ==> fully_decoded(final(out)@, p@))
            &&& (r is Err ==> r == Err::<(), DecodeError>(DecodeError::Truncated) && final(out)@
                == old(out)@)
        },
{
    match body {
        None => Err(DecodeError::Transport),
        Some(p) => decode(p, out),
    }
}

} // verus!
