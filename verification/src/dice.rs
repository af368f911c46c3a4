use rand::rngs::StdRng;
use rand::RngCore;
use rand::SeedableRng;
use vstd::prelude::*;

verus! {

/// `StdRng` of rand, the generator behind the dice. Nothing inside it is
/// visible to the verifier.
#[verifier::external_type_specification]
#[verifier::external_body]
pub struct ExStdRng(StdRng);

/// The generator that `StdRng::from_seed` of rand makes of 32 seed bytes.
/// rand reads the bytes as the key of a ChaCha cipher with twelve rounds and
/// starts its stream at block zero: the generator depends on the seed and on
/// nothing else.
pub uninterp spec fn seeded_dice(seed: Seq<u8>) -> StdRng;

/// Calls `StdRng::from_seed` of rand, which builds a generator from 32 seed
/// bytes. The generator that comes back is the one that rand makes of these
/// bytes, the same whenever the bytes are the same; what numbers it will
/// deal is not claimed.
#[verifier::external_body]
pub(crate) fn rng_from_seed(seed: [u8; 32]) -> (rng: StdRng)
    ensures
        rng == seeded_dice(seed@),
{
    StdRng::from_seed(seed)
}

/// Calls `StdRng::from_entropy` of rand, which seeds a generator from the
/// operating system, and aborts the program when the system has no entropy
/// to give. Nothing is claimed of the generator that comes back.
#[verifier::external_body]
pub(crate) fn rng_from_entropy() -> StdRng {
    StdRng::from_entropy()
}

/// Calls `RngCore::next_u32` of rand on the generator, which advances it and
/// hands out the next 32 random bits. Any value may come back.
#[verifier::external_body]
pub(crate) fn rng_next_u32(rng: &mut StdRng) -> u32 {
    rng.next_u32()
}

/// The face of a die that a raw random number stands for: one to six.
pub open spec fn die_face(raw: u32) -> u32 {
    (raw % 6 + 1) as u32
}

/// Whether every roll of a sequence is a face of a die.
pub open spec fn all_faces(rolls: Seq<u32>) -> bool {
    forall|i: int| 0 <= i < rolls.len() ==> 1 <= #[trigger] rolls[i] <= 6
}

/// Turns a raw random number into the face of a die.
pub fn face_of(raw: u32) -> (face: u32)
    ensures
        face == die_face(raw),
        1 <= face <= 6,
{
    raw % 6 + 1
}

} // verus!
