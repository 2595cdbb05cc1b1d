//! Render parameters: the fixed 64-byte packet that crosses the membrane.
//!
//! The packet's wire form is an explicit field-by-field layout — seven scalar
//! bytes, fifty reserved bytes, the seven-byte integrity signature — never a
//! reinterpretation of any in-memory representation. Encoding and decoding
//! are exact inverses.

use vstd::prelude::*;
use crate::block::eternal_signature_spec;

verus! {

/// The number of reserved bytes in the packet.
pub const RESERVED_LEN: usize = 50;

/// The packet's total wire length.
pub const RENDER_PARAMS_LEN: usize = 64;

/// The 64-byte render packet.
#[derive(Clone, Debug, PartialEq, Eq)]
pub struct RenderParams {
    pub hue: u8,
    pub saturation: u8,
    pub brightness: u8,
    pub curvature: u8,
    pub tempo: u8,
    pub warmth: u8,
    pub depth: u8,
    /// Fifty bytes of void; hiding data here violates the membrane.
    pub reserved: Vec<u8>,
    /// The seven-byte integrity signature.
    pub eternal_signature: Vec<u8>,
}

impl RenderParams {
    /// Well-formedness: the two byte fields have their fixed lengths.
    pub open spec fn wf(&self) -> bool {
        &&& self.reserved@.len() == RESERVED_LEN
        &&& self.eternal_signature@.len() == 7
    }

    /// The packet's 64-byte wire form.
    pub open spec fn spec_bytes(&self) -> Seq<u8> {
        seq![
            self.hue,
            self.saturation,
            self.brightness,
            self.curvature,
            self.tempo,
            self.warmth,
            self.depth,
        ] + self.reserved@ + self.eternal_signature@
    }

    /// Whether the packet carries the integrity signature.
    pub fn is_sanitized(&self) -> (r: bool)
        ensures
            r == (self.eternal_signature@ == eternal_signature_spec()),
    {
        if self.eternal_signature.len() != 7 {
            proof {
                assert(self.eternal_signature@ != eternal_signature_spec());
            }
            return false;
        }
        let mut i: usize = 0;
        while i < 7
            invariant
                i <= 7,
                self.eternal_signature@.len() == 7,
                forall|j: int| 0 <= j < i ==> #[trigger] self.eternal_signature@[j] == 7u8,
            decreases 7 - i,
        {
            if self.eternal_signature[i] != 7u8 {
                proof {
                    if self.eternal_signature@ == eternal_signature_spec() {
                        assert(eternal_signature_spec()[i as int] == 7u8);
                    }
                }
                return false;
            }
            i = i + 1;
        }
        proof {
            assert(self.eternal_signature@ =~= eternal_signature_spec());
        }
        true
    }

    /// Encodes the packet into its explicit 64-byte wire form.
    pub fn to_bytes(&self) -> (r: Vec<u8>)
        requires
            self.wf(),
        ensures
            r@ == self.spec_bytes(),
            r@.len() == RENDER_PARAMS_LEN,
    {
        let mut out: Vec<u8> = Vec::new();
        out.push(self.hue);
        out.push(self.saturation);
        out.push(self.brightness);
        out.push(self.curvature);
        out.push(self.tempo);
        out.push(self.warmth);
        out.push(self.depth);
        let mut i: usize = 0;
        while i < self.reserved.len()
            invariant
                i <= self.reserved@.len(),
                out@ == seq![
                    self.hue,
                    self.saturation,
                    self.brightness,
                    self.curvature,
                    self.tempo,
                    self.warmth,
                    self.depth,
                ] + self.reserved@.take(i as int),
            decreases self.reserved@.len() - i,
        {
            out.push(self.reserved[i]);
            i = i + 1;
            assert(out@ =~= seq![
                self.hue,
                self.saturation,
                self.brightness,
                self.curvature,
                self.tempo,
                self.warmth,
                self.depth,
            ] + self.reserved@.take(i as int));
        }
        let mut j: usize = 0;
        while j < self.eternal_signature.len()
            invariant
                j <= self.eternal_signature@.len(),
                out@ == seq![
                    self.hue,
                    self.saturation,
                    self.brightness,
                    self.curvature,
                    self.tempo,
                    self.warmth,
                    self.depth,
                ] + self.reserved@ + self.eternal_signature@.take(j as int),
            decreases self.eternal_signature@.len() - j,
        {
            out.push(self.eternal_signature[j]);
            j = j + 1;
            assert(out@ =~= seq![
                self.hue,
                self.saturation,
                self.brightness,
                self.curvature,
                self.tempo,
                self.warmth,
                self.depth,
            ] + self.reserved@ + self.eternal_signature@.take(j as int));
        }
        proof {
            assert(out@ =~= self.spec_bytes());
        }
        out
    }

    /// Decodes a packet from its 64-byte wire form: the exact inverse of
    /// `to_bytes`, field for field.
    pub fn from_bytes(bytes: &Vec<u8>) -> (r: RenderParams)
        requires
            bytes@.len() == RENDER_PARAMS_LEN,
        ensures
            r.wf(),
            r.spec_bytes() == bytes@,
            r.hue == bytes@[0],
            r.saturation == bytes@[1],
            r.brightness == bytes@[2],
            r.curvature == bytes@[3],
            r.tempo == bytes@[4],
            r.warmth == bytes@[5],
            r.depth == bytes@[6],
            r.reserved@ == bytes@.subrange(7, 57),
            r.eternal_signature@ == bytes@.subrange(57, 64),
    {
        let mut reserved: Vec<u8> = Vec::new();
        let mut i: usize = 7;
        while i < 57
            invariant
                7 <= i <= 57,
                bytes@.len() == 64,
                reserved@ == bytes@.subrange(7, i as int),
            decreases 57 - i,
        {
            reserved.push(bytes[i]);
            i = i + 1;
            assert(reserved@ =~= bytes@.subrange(7, i as int));
        }
        let mut sig: Vec<u8> = Vec::new();
        let mut j: usize = 57;
        while j < 64
            invariant
                57 <= j <= 64,
                bytes@.len() == 64,
                sig@ == bytes@.subrange(57, j as int),
            decreases 64 - j,
        {
            sig.push(bytes[j]);
            j = j + 1;
            assert(sig@ =~= bytes@.subrange(57, j as int));
        }
        let r = RenderParams {
            hue: bytes[0],
            saturation: bytes[1],
            brightness: bytes[2],
            curvature: bytes[3],
            tempo: bytes[4],
            warmth: bytes[5],
            depth: bytes[6],
            reserved,
            eternal_signature: sig,
        };
        proof {
            assert(r.spec_bytes() =~= bytes@);
        }
        r
    }
}

impl Default for RenderParams {
    /// The neutral packet: zeroed scalars but a resting tempo of 60 and a
    /// mid warmth of 127, void reserved bytes, and the integrity signature.
    fn default() -> (r: RenderParams)
        ensures
            r.wf(),
            r.hue == 0,
            r.saturation == 0,
            r.brightness == 0,
            r.curvature == 0,
            r.tempo == 60,
            r.warmth == 127,
            r.depth == 0,
            r.reserved@ == Seq::new(RESERVED_LEN as nat, |i: int| 0u8),
            r.eternal_signature@ == eternal_signature_spec(),
    {
        let mut reserved: Vec<u8> = Vec::new();
        let mut i: usize = 0;
        while i < RESERVED_LEN
            invariant
                i <= RESERVED_LEN,
                reserved@.len() == i,
                forall|j: int| 0 <= j < i ==> reserved@[j] == 0u8,
            decreases RESERVED_LEN - i,
        {
            reserved.push(0u8);
            i = i + 1;
        }
        proof {
            assert(reserved@ =~= Seq::new(RESERVED_LEN as nat, |j: int| 0u8));
        }
        RenderParams {
            hue: 0,
            saturation: 0,
            brightness: 0,
            curvature: 0,
            tempo: 60,
            warmth: 127,
            depth: 0,
            reserved,
            eternal_signature: crate::block::eternal_signature_bytes(),
        }
    }
}

} // verus!
