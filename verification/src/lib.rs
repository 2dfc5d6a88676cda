//! Parallel DMA-pipelined stream-cipher engine for a clustered accelerator.
//!
//! The library models an N-core compute cluster that encrypts bulk data with
//! ChaCha20: a triple-buffered DMA staging ring keeps one L1 buffer being
//! computed on while a second is prefetched and a third is written back, and
//! a shard dispatcher drives each core's cipher instance at an explicit
//! keystream position so that the parallel run produces exactly the bytes of
//! a serial keystream XOR.

use vstd::prelude::*;

pub mod buf;
pub mod bytes;
pub mod chacha;
pub mod cluster;
pub mod encode;
pub mod serial;
pub mod wrapper;

verus! {

/// Wire identifiers of the ciphers a caller may request; only ChaCha20 is
/// implemented.
pub enum Cipher {
    ChaCha20,
    Rc4,
    Rabbit,
}

/// Parses the cluster core count from a one-digit configuration string;
/// the digit must be a power of two.
pub fn parse_cores_u8(s: &str) -> (n: usize)
    requires
        s@.len() >= 1,
        s@[0] == '1' || s@[0] == '2' || s@[0] == '4' || s@[0] == '8',
    ensures
        n == s@[0] as u8 - 48,
        n == 1 || n == 2 || n == 4 || n == 8,
{
    let c = s.get_char(0);
    let n: usize = (c as u8 - 48) as usize;
    n
}

/// Encrypts or decrypts `data` in place on the cluster with the requested
/// cipher.  A RAM device selects the external-RAM source path; without one
/// the data is read from L2.  Only ChaCha20 is implemented: a call with
/// any other cipher identifier aborts on the target, so it is excluded
/// here.
pub fn encrypt(
    data: &mut Vec<u8>,
    key: &Vec<u8>,
    iv: &Vec<u8>,
    wrapper: &mut wrapper::PulpWrapper,
    ram_device: Option<cluster::Device>,
    cipher: Cipher,
)
    requires
        old(wrapper).wf(),
        key@.len() == 32,
        iv@.len() == 12,
        cipher is ChaCha20,
        old(data)@.len() + 3 * old(wrapper).buf_len <= usize::MAX,
        old(data)@.len() + 2 * old(wrapper).buf_len <= 0xFFFF_FFFF * 64,
    ensures
        final(wrapper).wf(),
        final(wrapper).cores == old(wrapper).cores,
        final(wrapper).buf_len == old(wrapper).buf_len,
        final(data)@ == chacha::spec_encrypted(old(data)@, key@, iv@),
{
    let location = match ram_device {
        Some(device) => wrapper::SourceLocation::Ram(device),
        None => wrapper::SourceLocation::L2,
    };
    match cipher {
        Cipher::ChaCha20 => wrapper.run(data, key, iv, location),
        _ => {
            proof {
                assert(false);
            }
            vstd::pervasive::unreached()
        },
    }
}

} // verus!
