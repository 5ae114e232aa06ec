use vstd::prelude::*;

verus! {

/// The number of samples that Pure Data processes per tick.
pub const LIBPD_BLOCK_SIZE: usize = 64;

/// The number of whole Pure Data ticks in an output buffer of
/// `output_len` samples (meant to be a whole number of blocks), as the
/// `i32` that libpd takes.
pub fn process_ticks(output_len: usize) -> (t: i32)
    ensures
        t == (output_len / LIBPD_BLOCK_SIZE) as i32,
{
    (output_len / LIBPD_BLOCK_SIZE) as i32
}

/// The number of interleaved output channels of a compiled mimium
/// program: what its I/O signature declares, or two (stereo) when it
/// declares none.
pub fn output_channel_count(declared_outputs: Option<u32>) -> (n: usize)
    ensures
        n == match declared_outputs {
            Some(k) => k as usize,
            None => 2usize,
        },
{
    match declared_outputs {
        Some(k) => k as usize,
        None => 2,
    }
}

} // verus!
