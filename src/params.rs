use vstd::prelude::*;
use vstd::string::StringSliceAdditionalSpecFns;

verus! {

/// Argon2id cost parameters: memory in KiB, iterations, lanes.
#[derive(Clone, Copy, Debug, PartialEq, Eq, Structural)]
pub struct KdfParams {
    pub m_cost_kib: u32,
    pub t_cost: u32,
    pub p_cost: u32,
}

/// The device classes that have a preset.
#[derive(Clone, Copy, Debug, PartialEq, Eq, Structural)]
pub enum DeviceClass {
    Desktop,
    Mobile,
    LowPower,
}

impl KdfParams {
    /// The preset of each device class.
    pub open spec fn preset(class: DeviceClass) -> KdfParams {
        match class {
            DeviceClass::Desktop => KdfParams { m_cost_kib: 262144, t_cost: 3, p_cost: 1 },
            DeviceClass::Mobile => KdfParams { m_cost_kib: 65536, t_cost: 4, p_cost: 1 },
            DeviceClass::LowPower => KdfParams { m_cost_kib: 32768, t_cost: 4, p_cost: 1 },
        }
    }

    /// Looks up the preset of a device class.
    pub fn for_class(class: DeviceClass) -> (r: KdfParams)
        ensures
            r == Self::preset(class),
    {
        match class {
            // 256 MiB, three passes: fast CPUs with plenty of memory.
            DeviceClass::Desktop => KdfParams { m_cost_kib: 262144, t_cost: 3, p_cost: 1 },
            // 64 MiB, with one more pass to make up for the smaller memory.
            DeviceClass::Mobile => KdfParams { m_cost_kib: 65536, t_cost: 4, p_cost: 1 },
            // 32 MiB: the last resort on constrained devices.
            DeviceClass::LowPower => KdfParams { m_cost_kib: 32768, t_cost: 4, p_cost: 1 },
        }
    }
}

/// The UTF-8 bytes of the tag "desktop".
pub open spec fn desktop_tag() -> Seq<u8> {
    seq![100u8, 101, 115, 107, 116, 111, 112]
}

/// The UTF-8 bytes of the tag "mobile".
pub open spec fn mobile_tag() -> Seq<u8> {
    seq![109u8, 111, 98, 105, 108, 101]
}

/// The device class that a profile tag names; any unknown tag falls back to
/// the most conservative class.
pub open spec fn class_of_tag(tag: Seq<u8>) -> DeviceClass {
    if tag == desktop_tag() {
        DeviceClass::Desktop
    } else if tag == mobile_tag() {
        DeviceClass::Mobile
    } else {
        DeviceClass::LowPower
    }
}

fn bytes_equal(a: &[u8], b: &[u8]) -> (r: bool)
    ensures
        r == (a@ == b@),
{
    if a.len() != b.len() {
        return false;
    }
    let mut i: usize = 0;
    while i < a.len()
        invariant
            a@.len() == b@.len(),
            0 <= i <= a@.len(),
            a@.subrange(0, i as int) == b@.subrange(0, i as int),
        decreases a@.len() - i,
    {
        if a[i] != b[i] {
            assert(a@[i as int] != b@[i as int]);
            return false;
        }
        assert(a@.subrange(0, i + 1) == a@.subrange(0, i as int).push(a@[i as int]));
        assert(b@.subrange(0, i + 1) == b@.subrange(0, i as int).push(b@[i as int]));
        i = i + 1;
    }
    assert(a@ == a@.subrange(0, a@.len() as int));
    assert(b@ == b@.subrange(0, b@.len() as int));
    true
}

/// Selects the preset for a device-class tag ("desktop", "mobile"); every
/// other tag gets the low-power preset, so the lookup never fails.
pub fn params_from_profile(profile: &str) -> (r: KdfParams)
    ensures
        r == KdfParams::preset(class_of_tag(profile.spec_bytes())),
{
    let tag = profile.as_bytes();
    let desktop: [u8; 7] = [100, 101, 115, 107, 116, 111, 112];
    let mobile: [u8; 6] = [109, 111, 98, 105, 108, 101];
    assert(desktop@ == desktop_tag());
    assert(mobile@ == mobile_tag());
    let class = if bytes_equal(tag, desktop.as_slice()) {
        DeviceClass::Desktop
    } else if bytes_equal(tag, mobile.as_slice()) {
        DeviceClass::Mobile
    } else {
        DeviceClass::LowPower
    };
    KdfParams::for_class(class)
}

} // verus!
