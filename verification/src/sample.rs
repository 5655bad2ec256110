//! The sample format of the engine: signed 16-bit PCM.

use vstd::prelude::*;

verus! {

/// One scalar of audio, for one channel at one point in time.
pub type Sample = i16;

/// The sample that stands for no sound.
pub const SILENCE: Sample = 0;

/// The loudest sample, which stands for 1.0. The quietest that is mixed is
/// its negative, which stands for -1.0.
pub const FULL_SCALE: Sample = 32767;

/// `value` brought into the range from `-FULL_SCALE` to `FULL_SCALE`.
pub open spec fn clamp(value: int) -> int {
    if value > FULL_SCALE {
        FULL_SCALE as int
    } else if value < -FULL_SCALE {
        -FULL_SCALE
    } else {
        value
    }
}

/// What 8 bits of signed PCM are in 16 bits: 256 times as much.
pub fn i8_to_i16(i: i8) -> (sample: i16)
    ensures
        sample == i * 256,
{
    i as i16 * 256
}

/// What 24 bits of signed PCM are in 16 bits: the 256th part, rounded down.
/// A value beyond 24 bits loses what does not fit in 16.
pub fn i24_to_i16(i: i32) -> (sample: i16)
    ensures
        -0x80_0000 <= i < 0x80_0000 ==> sample == i as int / 256,
        (sample - i as int / 256) % 65536 == 0,
{
    assert(-0x80_0000i32 <= i < 0x80_0000i32 ==> (i >> 8u32) as i16 == i as int / 256) by (bit_vector);
    assert((((i >> 8u32) as i16) as int - i as int / 256) % 65536 == 0) by (bit_vector);
    (i >> 8) as i16
}

/// What 32 bits of signed PCM are in 16 bits: the 65536th part, rounded down.
pub fn i32_to_i16(i: i32) -> (sample: i16)
    ensures
        sample == i as int / 65536,
{
    assert((i >> 16u32) as i16 == i as int / 65536) by (bit_vector);
    (i >> 16) as i16
}

} // verus!
