//! The options of a publish: the tier and the retain flag, as bits.
use vstd::prelude::*;
use vstd::std_specs::ops::{BitAndSpecImpl, BitOrSpecImpl, BitXorSpecImpl, NotSpecImpl, SubSpecImpl};
use crate::mqtt3::QoS;

verus! {

/// Bit 0: at least once. Bit 1: exactly once. Bit 2: retain.
#[derive(Debug, Clone, Copy, PartialEq, Eq, Structural)]
pub struct PubOpt(pub u8);

impl PubOpt {
    /// The tier in the bits: exactly once with bit 1, else at least
    /// once with bit 0, else at most once.
    pub open spec fn spec_qos(self) -> QoS {
        if (self.0 & 0x02) != 0 {
            QoS::ExactlyOnce
        } else if (self.0 & 0x01) != 0 {
            QoS::AtLeastOnce
        } else {
            QoS::AtMostOnce
        }
    }

    pub open spec fn spec_is_retain(self) -> bool {
        (self.0 & 0x04) != 0
    }

    /// The options that say this tier and this retain flag.
    pub fn new(qos: QoS, retain: bool) -> (opt: PubOpt)
        ensures
            opt.spec_qos() == qos,
            opt.spec_is_retain() == retain,
            opt.0 == qos.spec_to_u8() | (if retain { 0x04u8 } else { 0u8 }),
    {
        let bits = qos.to_u8();
        assert((bits | 0x04) & 0x04 != 0 && (bits | 0x04) & 0x03 == bits && (bits | 0) == bits
            && bits & 0x04 == 0) by (bit_vector)
            requires
                bits <= 2,
        ;
        assert((bits & 0x02 != 0) == (bits == 2) && ((bits | 0x04) & 0x02 != 0) == (bits == 2) && (
        bits & 0x01 != 0) == (bits == 1) && ((bits | 0x04) & 0x01 != 0) == (bits == 1))
            by (bit_vector)
            requires
                bits <= 2,
        ;
        if retain {
            PubOpt(bits | 0x04)
        } else {
            PubOpt(bits | 0)
        }
    }

    pub fn at_most_once() -> (opt: PubOpt)
        ensures
            opt == PubOpt(0x00),
    {
        PubOpt(0x00)
    }

    pub fn at_least_once() -> (opt: PubOpt)
        ensures
            opt == PubOpt(0x01),
    {
        PubOpt(0x01)
    }

    pub fn exactly_once() -> (opt: PubOpt)
        ensures
            opt == PubOpt(0x02),
    {
        PubOpt(0x02)
    }

    pub fn retain() -> (opt: PubOpt)
        ensures
            opt == PubOpt(0x04),
    {
        PubOpt(0x04)
    }

    pub fn bits(&self) -> (bits: u8)
        ensures
            bits == self.0,
    {
        self.0
    }

    pub fn qos(&self) -> (qos: QoS)
        ensures
            qos == self.spec_qos(),
    {
        if (self.0 & 0x02) != 0 {
            return QoS::ExactlyOnce;
        }
        if (self.0 & 0x01) != 0 {
            return QoS::AtLeastOnce;
        }
        QoS::AtMostOnce
    }

    pub fn is_retain(&self) -> (retain: bool)
        ensures
            retain == self.spec_is_retain(),
    {
        (self.0 & 0x04) != 0
    }
}

impl core::ops::BitOr for PubOpt {
    type Output = PubOpt;

    fn bitor(self, other: PubOpt) -> (r: PubOpt) {
        PubOpt(self.0 | other.0)
    }
}

impl BitOrSpecImpl for PubOpt {
    open spec fn obeys_bitor_spec() -> bool {
        true
    }

    open spec fn bitor_req(self, other: PubOpt) -> bool {
        true
    }

    open spec fn bitor_spec(self, other: PubOpt) -> PubOpt {
        PubOpt(self.0 | other.0)
    }
}

impl core::ops::BitXor for PubOpt {
    type Output = PubOpt;

    fn bitxor(self, other: PubOpt) -> (r: PubOpt) {
        PubOpt(self.0 ^ other.0)
    }
}

impl BitXorSpecImpl for PubOpt {
    open spec fn obeys_bitxor_spec() -> bool {
        true
    }

    open spec fn bitxor_req(self, other: PubOpt) -> bool {
        true
    }

    open spec fn bitxor_spec(self, other: PubOpt) -> PubOpt {
        PubOpt(self.0 ^ other.0)
    }
}

impl core::ops::BitAnd for PubOpt {
    type Output = PubOpt;

    fn bitand(self, other: PubOpt) -> (r: PubOpt) {
        PubOpt(self.0 & other.0)
    }
}

impl BitAndSpecImpl for PubOpt {
    open spec fn obeys_bitand_spec() -> bool {
        true
    }

    open spec fn bitand_req(self, other: PubOpt) -> bool {
        true
    }

    open spec fn bitand_spec(self, other: PubOpt) -> PubOpt {
        PubOpt(self.0 & other.0)
    }
}

/// The options of the left side that the right side does not have.
impl core::ops::Sub for PubOpt {
    type Output = PubOpt;

    fn sub(self, other: PubOpt) -> (r: PubOpt) {
        PubOpt(self.0 & !other.0)
    }
}

impl SubSpecImpl for PubOpt {
    open spec fn obeys_sub_spec() -> bool {
        true
    }

    open spec fn sub_req(self, other: PubOpt) -> bool {
        true
    }

    open spec fn sub_spec(self, other: PubOpt) -> PubOpt {
        PubOpt(self.0 & !other.0)
    }
}

/// The options that are not set, of the three there are.
impl core::ops::Not for PubOpt {
    type Output = PubOpt;

    fn not(self) -> (r: PubOpt) {
        PubOpt(!self.0 & 0b111)
    }
}

impl NotSpecImpl for PubOpt {
    open spec fn obeys_not_spec() -> bool {
        true
    }

    open spec fn not_req(self) -> bool {
        true
    }

    open spec fn not_spec(self) -> PubOpt {
        PubOpt(!self.0 & 0b111)
    }
}

} // verus!
