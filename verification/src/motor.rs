//! Motor identities for the controller that executes speed patterns.
//!
//! The serial transport itself lives outside this library; here is the
//! data it is configured with and the checks the configuration must pass:
//! motor identifiers must be unique, and a USB device is selected by
//! matching its vendor and product identifiers, where zero means any.

use vstd::prelude::*;

verus! {

/// A motor's wire identity: the code it answers to and the sign of its
/// forward direction.
#[derive(Clone, Copy, Debug, PartialEq, Eq, Structural, Hash)]
pub struct MotorInfo {
    pub code_sign: i32,
    /// 1 for forward, -1 for reversed mounting.
    pub direction: i8,
}

impl MotorInfo {
    /// A motor with the given code and direction sign.
    pub fn new(code_sign: i32, direction: i8) -> (r: Self)
        ensures
            r == (MotorInfo { code_sign, direction }),
    {
        MotorInfo { code_sign, direction }
    }
}

impl Default for MotorInfo {
    /// Motor code 1, mounted forward.
    fn default() -> (r: Self)
        ensures
            r == (MotorInfo { code_sign: 1i32, direction: 1i8 }),
    {
        MotorInfo::new(1, 1)
    }
}

/// Whether the motor list holds no duplicate entry.  A controller
/// configuration with a repeated motor must be rejected.
pub fn motor_infos_unique(infos: &Vec<MotorInfo>) -> (r: bool)
    ensures
        r <==> infos@.no_duplicates(),
{
    let n = infos.len();
    let mut i: usize = 0;
    while i < n
        invariant
            i <= n,
            n == infos@.len(),
            forall|a: int, b: int| 0 <= a < b < n && a < i ==> infos@[a] != infos@[b],
        decreases n - i,
    {
        let mut j: usize = i + 1;
        while j < n
            invariant
                i < j <= n,
                n == infos@.len(),
                forall|b: int| i < b < j ==> infos@[i as int] != infos@[b],
            decreases n - j,
        {
            if infos[i] == infos[j] {
                proof {
                    assert(infos@[i as int] == infos@[j as int]);
                    assert(!infos@.no_duplicates());
                }
                return false;
            }
            j = j + 1;
        }
        i = i + 1;
    }
    true
}

/// Whether a USB port with the given vendor and product identifiers
/// matches a requested pair, where a requested zero accepts any value.
pub fn usb_id_matches(id_product: u16, id_vendor: u16, pid: u16, vid: u16) -> (r: bool)
    ensures
        r <==> ((id_vendor == 0 || vid == id_vendor) && (id_product == 0 || pid == id_product)),
{
    (id_vendor == 0 || vid == id_vendor) && (id_product == 0 || pid == id_product)
}

} // verus!
