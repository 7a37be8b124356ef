//! Image classification labels from the NSFW detector, as a bit set.
use vstd::prelude::*;
use crate::text::{join_spec, join_strs};

verus! {

/// A set of image labels, one bit each.
#[derive(PartialEq, Eq, Structural, Debug, Clone, Copy)]
pub struct Labels(pub u8);

/// Bit of safe drawings, anime included.
pub const DRAWINGS: u8 = 1u8;

/// Bit of hentai and pornographic drawings.
pub const HENTAI: u8 = 2u8;

/// Bit of safe, neutral images.
pub const NEUTRAL: u8 = 4u8;

/// Bit of pornographic images.
pub const PORN: u8 = 8u8;

/// Bit of sexually explicit images that are not pornography.
pub const SEXY: u8 = 16u8;

impl Default for Labels {
    /// The empty set.
    fn default() -> (r: Self)
        ensures
            r.0 == 0,
    {
        Labels(0)
    }
}

impl Labels {
    /// The labels in either set.
    pub fn union(self, rhs: Labels) -> (r: Labels)
        ensures
            r.0 == self.0 | rhs.0,
    {
        Labels(self.0 | rhs.0)
    }

    /// The labels in both sets.
    pub fn intersection(self, rhs: Labels) -> (r: Labels)
        ensures
            r.0 == self.0 & rhs.0,
    {
        Labels(self.0 & rhs.0)
    }

    /// Whether the image was labelled as hentai.
    pub fn is_hentai(&self) -> (b: bool)
        ensures
            b == (self.0 & 2 != 0),
    {
        self.0 & HENTAI != 0
    }

    /// Whether the image was labelled as pornographic.
    pub fn is_porn(&self) -> (b: bool)
        ensures
            b == (self.0 & 8 != 0),
    {
        self.0 & PORN != 0
    }

    /// The label set from the five detector verdicts, in label order.
    pub fn from_flags(drawings: bool, hentai: bool, neutral: bool, porn: bool, sexy: bool) -> (r:
        Labels)
        ensures
            (r.0 & 1 != 0) == drawings,
            (r.0 & 2 != 0) == hentai,
            (r.0 & 4 != 0) == neutral,
            (r.0 & 8 != 0) == porn,
            (r.0 & 16 != 0) == sexy,
            r.0 < 32,
    {
        let a: u8 = if drawings {
            1
        } else {
            0
        };
        let b: u8 = if hentai {
            2
        } else {
            0
        };
        let c: u8 = if neutral {
            4
        } else {
            0
        };
        let d: u8 = if porn {
            8
        } else {
            0
        };
        let e: u8 = if sexy {
            16
        } else {
            0
        };
        let v: u8 = a | b | c | d | e;
        assert((a == 0 || a == 1) && (b == 0 || b == 2) && (c == 0 || c == 4) && (d == 0 || d
            == 8) && (e == 0 || e == 16) ==> ((v & 1 != 0) == (a == 1) && (v & 2 != 0) == (b == 2)
            && (v & 4 != 0) == (c == 4) && (v & 8 != 0) == (d == 8) && (v & 16 != 0) == (e == 16)
            && v < 32)) by (bit_vector)
            requires
                v == a | b | c | d | e,
        ;
        Labels(v)
    }

    /// The names of the labels in the set, in label order
    /// (`drawings`, `hentai`, `neutral`, `porn`, `sexy`).
    pub fn names(&self) -> (r: Vec<&'static str>)
        ensures
            r@.map_values(|s: &'static str| s@) == label_names_spec(self.0),
    {
        let mut v: Vec<&'static str> = Vec::new();
        if self.0 & 1 != 0 {
            v.push("drawings");
        }
        if self.0 & 2 != 0 {
            v.push("hentai");
        }
        if self.0 & 4 != 0 {
            v.push("neutral");
        }
        if self.0 & 8 != 0 {
            v.push("porn");
        }
        if self.0 & 16 != 0 {
            v.push("sexy");
        }
        proof {
            assert(v@.map_values(|s: &'static str| s@) =~= label_names_spec(self.0));
        }
        v
    }

    /// The names of the labels in the set joined by commas, as the detector
    /// logs them (`hentai,porn`).
    pub fn to_string(&self) -> (r: String)
        ensures
            r@ == join_spec(label_names_spec(self.0), ","@),
    {
        let names = self.names();
        join_strs(&names, ",")
    }
}

/// `name` when the bit `bit` of `bits` is set, nothing otherwise.
pub open spec fn name_if(bits: u8, bit: u8, name: Seq<char>) -> Seq<Seq<char>> {
    if bits & bit != 0 {
        seq![name]
    } else {
        Seq::empty()
    }
}

/// The names of the labels whose bits are set, in label order.
pub open spec fn label_names_spec(bits: u8) -> Seq<Seq<char>> {
    name_if(bits, 1, "drawings"@) + name_if(bits, 2, "hentai"@) + name_if(bits, 4, "neutral"@)
        + name_if(bits, 8, "porn"@) + name_if(bits, 16, "sexy"@)
}

} // verus!
