use vstd::prelude::*;

use crate::lattice::ConfigError;

verus! {

/// Alpha byte of every pixel: fully opaque.
pub const OPAQUE: u8 = 255;

/// Bytes per RGBA pixel.
pub const CHANNELS: usize = 4;

/// Byte `k` of the RGBA rendering of grey `levels`: red, green and blue repeat
/// the pixel's level, alpha is opaque.
pub open spec fn rgba_byte(levels: Seq<u8>, k: int) -> u8 {
    if k % 4 == 3 {
        OPAQUE
    } else {
        levels[k / 4]
    }
}

/// The RGBA rendering of grey `levels`, four bytes per level, in order.
pub open spec fn rgba_of(levels: Seq<u8>) -> Seq<u8> {
    Seq::new((4 * levels.len()) as nat, |k: int| rgba_byte(levels, k))
}

/// Number of pixels of a `width` by `height` field.
///
/// An empty field is refused, and so is one whose RGBA bytes could not be indexed.
pub fn pixel_count(width: u32, height: u32) -> (r: Result<usize, ConfigError>)
    ensures
        width == 0 || height == 0 <==> r == Err::<usize, ConfigError>(ConfigError::EmptyField),
        width > 0 && height > 0 && 4 * (width as int * height as int) > usize::MAX
            <==> r == Err::<usize, ConfigError>(ConfigError::TooLarge),
        r is Ok <==> width > 0 && height > 0 && 4 * (width as int * height as int) <= usize::MAX,
        r matches Ok(n) ==> n as int == width as int * height as int,
{
    if width == 0 || height == 0 {
        return Err(ConfigError::EmptyField);
    }
    assert(width as int * height as int <= u32::MAX as int * u32::MAX as int) by (nonlinear_arith)
        requires
            width <= u32::MAX,
            height <= u32::MAX,
    ;
    let n: u64 = width as u64 * height as u64;
    if n > (usize::MAX / CHANNELS) as u64 {
        return Err(ConfigError::TooLarge);
    }
    Ok(n as usize)
}

/// Renders grey levels as RGBA bytes: each level `v` becomes `v, v, v, 255`.
pub fn to_rgba(levels: &Vec<u8>) -> (r: Vec<u8>)
    requires
        4 * levels@.len() <= usize::MAX,
    ensures
        r@ == rgba_of(levels@),
{
    let n = levels.len();
    let mut out: Vec<u8> = Vec::with_capacity(n * CHANNELS);
    let mut i: usize = 0;
    while i < n
        invariant
            n == levels@.len(),
            4 * n <= usize::MAX,
            i <= n,
            out@.len() == 4 * i,
            forall|k: int| 0 <= k < 4 * i ==> #[trigger] out@[k] == rgba_byte(levels@, k),
        decreases n - i,
    {
        let v = levels[i];
        out.push(v);
        out.push(v);
        out.push(v);
        out.push(OPAQUE);
        proof {
            assert forall|k: int| 0 <= k < 4 * (i + 1) implies #[trigger] out@[k] == rgba_byte(levels@, k) by {
                if k >= 4 * i {
                    assert(k / 4 == i && k % 4 == k - 4 * i) by (nonlinear_arith)
                        requires
                            4 * i <= k < 4 * i + 4,
                    ;
                }
            }
        }
        i = i + 1;
    }
    assert(out@ =~= rgba_of(levels@));
    out
}

} // verus!
