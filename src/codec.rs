use vstd::prelude::*;
use crate::field::{BabyBear, P};

verus! {

/// A field element as the accelerator carries it: one 32-bit limb, which
/// may hold any value in `[0, 2^32)` on the way back.
#[derive(Debug, Clone, Copy, PartialEq, Eq, Structural)]
pub struct AcceleratorElement {
    pub limb: u32,
}

/// The accelerator's representation of a field element.
pub open spec fn encode_spec(x: BabyBear) -> AcceleratorElement {
    AcceleratorElement { limb: x.value }
}

/// The field element that an accelerator limb stands for.
pub open spec fn decode_spec(e: AcceleratorElement) -> BabyBear {
    BabyBear { value: e.limb % P }
}

/// Widens a canonical residue into the accelerator's representation.
pub fn encode(x: BabyBear) -> (r: AcceleratorElement)
    ensures
        r == encode_spec(x),
{
    AcceleratorElement { limb: x.value }
}

/// Reduces whatever the accelerator holds back into a canonical residue.
pub fn decode(e: AcceleratorElement) -> (r: BabyBear)
    ensures
        r.wf(),
        r == decode_spec(e),
{
    BabyBear::from_wrapped_u32(e.limb)
}

/// Decoding an encoded canonical residue gives it back.
pub proof fn lemma_codec_round_trip(x: BabyBear)
    requires
        x.wf(),
    ensures
        decode_spec(encode_spec(x)) == x,
{
}

/// Decoding a limb at or above the modulus yields its residue, which is
/// strictly smaller than the limb: the raw limb never comes back.
pub proof fn lemma_decode_reduces(e: AcceleratorElement)
    requires
        e.limb >= P,
    ensures
        decode_spec(e).value == e.limb % P,
        decode_spec(e).value < e.limb,
        decode_spec(e).wf(),
{
}

} // verus!
