//! The precision at which a sensor measures.

use vstd::prelude::*;

verus! {

/// The number of bits of a temperature reading. It decides how long a
/// conversion takes and which low bits of a reading carry no information.
#[derive(Clone, Copy, Debug, PartialEq, Eq, Structural)]
pub enum Resolution {
    Bits9,
    Bits10,
    Bits11,
    Bits12,
}

impl Resolution {
    /// The number of bits.
    pub open spec fn spec_bits(self) -> u8 {
        match self {
            Resolution::Bits9 => 9,
            Resolution::Bits10 => 10,
            Resolution::Bits11 => 11,
            Resolution::Bits12 => 12,
        }
    }

    /// The configuration byte that selects this resolution.
    pub open spec fn spec_config_register(self) -> u8 {
        match self {
            Resolution::Bits9 => 0x1F,
            Resolution::Bits10 => 0x3F,
            Resolution::Bits11 => 0x5F,
            Resolution::Bits12 => 0x7F,
        }
    }

    /// The resolution that a configuration byte selects, if it selects one.
    pub open spec fn spec_from_config_register(config: u8) -> Option<Resolution> {
        if config == 0x1F {
            Some(Resolution::Bits9)
        } else if config == 0x3F {
            Some(Resolution::Bits10)
        } else if config == 0x5F {
            Some(Resolution::Bits11)
        } else if config == 0x7F {
            Some(Resolution::Bits12)
        } else {
            None
        }
    }

    /// The longest time that a conversion takes, in milliseconds.
    pub open spec fn spec_max_measurement_time_millis(self) -> u16 {
        match self {
            Resolution::Bits9 => 94,
            Resolution::Bits10 => 188,
            Resolution::Bits11 => 375,
            Resolution::Bits12 => 750,
        }
    }

    /// The size of one step of a reading, in sixteenths of a degree: a reading
    /// at this resolution is a multiple of it.
    pub open spec fn spec_step(self) -> u16 {
        match self {
            Resolution::Bits9 => 8,
            Resolution::Bits10 => 4,
            Resolution::Bits11 => 2,
            Resolution::Bits12 => 1,
        }
    }

    /// The number of bits of a reading.
    pub fn bits(&self) -> (bits: u8)
        ensures
            bits == self.spec_bits(),
    {
        match self {
            Resolution::Bits9 => 9,
            Resolution::Bits10 => 10,
            Resolution::Bits11 => 11,
            Resolution::Bits12 => 12,
        }
    }

    /// The configuration byte that selects this resolution.
    pub fn to_config_register(&self) -> (config: u8)
        ensures
            config == self.spec_config_register(),
            Self::spec_from_config_register(config) == Some(*self),
    {
        match self {
            Resolution::Bits9 => 0x1F,
            Resolution::Bits10 => 0x3F,
            Resolution::Bits11 => 0x5F,
            Resolution::Bits12 => 0x7F,
        }
    }

    /// Reads a configuration byte. Only the four bytes that a sensor ever
    /// reports are taken; anything else selects no resolution.
    pub fn from_config_register(config: u8) -> (resolution: Option<Resolution>)
        ensures
            resolution == Self::spec_from_config_register(config),
            resolution matches Some(r) ==> r.spec_config_register() == config,
            resolution is None ==> forall|r: Resolution| r.spec_config_register() != config,
    {
        if config == 0x1F {
            Some(Resolution::Bits9)
        } else if config == 0x3F {
            Some(Resolution::Bits10)
        } else if config == 0x5F {
            Some(Resolution::Bits11)
        } else if config == 0x7F {
            Some(Resolution::Bits12)
        } else {
            None
        }
    }

    /// The longest time that a conversion at this resolution takes, in
    /// milliseconds. A reading fetched earlier may be stale.
    pub fn max_measurement_time_millis(&self) -> (millis: u16)
        ensures
            millis == self.spec_max_measurement_time_millis(),
    {
        match self {
            Resolution::Bits9 => 94,
            Resolution::Bits10 => 188,
            Resolution::Bits11 => 375,
            Resolution::Bits12 => 750,
        }
    }

    /// The size of one step of a reading, in sixteenths of a degree.
    pub fn step(&self) -> (step: u16)
        ensures
            step == self.spec_step(),
    {
        match self {
            Resolution::Bits9 => 8,
            Resolution::Bits10 => 4,
            Resolution::Bits11 => 2,
            Resolution::Bits12 => 1,
        }
    }
}

/// No conversion takes longer than one at the finest resolution, so waiting
/// for that time is enough whatever the sensors are set to.
pub proof fn lemma_finest_resolution_is_slowest(resolution: Resolution)
    ensures
        resolution.spec_max_measurement_time_millis()
            <= Resolution::Bits12.spec_max_measurement_time_millis(),
{
}

} // verus!
