//! Capability interfaces for block ciphers.  These are pure interface
//! boundaries: no algorithm logic lives here.

use vstd::prelude::*;

use crate::CryptographicPrimitive;

verus! {

/// A keyed transformation of fixed-size blocks.
pub trait BlockTransformation: CryptographicPrimitive {
    /// The block size, in bytes.
    fn block_size(&self) -> usize;

    /// Transforms one block.
    fn transform(&self, block: &[u8]) -> Vec<u8>;
}

/// A block transformation used in the encryption direction.
pub trait BlockCipherEncrypt: BlockTransformation {
    /// Encrypts one block of plaintext.
    fn encrypt(&self, plaintext: &[u8]) -> Vec<u8> {
        self.transform(plaintext)
    }
}

/// A block transformation used in the decryption direction.
pub trait BlockCipherDecrypt: BlockTransformation {
    /// Decrypts one block of ciphertext.
    fn decrypt(&self, ciphertext: &[u8]) -> Vec<u8> {
        self.transform(ciphertext)
    }
}

/// A block transformation that additionally takes a tweak.
pub trait TweakableBlockTransformation: BlockTransformation {
    /// The tweak size, in bytes.
    fn tweak_size(&self) -> usize;
}

} // verus!
