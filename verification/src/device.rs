//! Device records and selection by display name.

use vstd::prelude::*;

verus! {

/// A companion device as the discovery command reports it: a human-readable
/// display name and the stable identifier the transfer command is addressed
/// with.
pub struct Device {
    pub name: String,
    pub id: String,
}

/// The mathematical image of a [`Device`]: both fields as character
/// sequences.
pub struct DeviceView {
    pub name: Seq<char>,
    pub id: Seq<char>,
}

impl View for Device {
    type V = DeviceView;

    open spec fn view(&self) -> DeviceView {
        DeviceView { name: self.name@, id: self.id@ }
    }
}

impl DeepView for Device {
    type V = DeviceView;

    open spec fn deep_view(&self) -> DeviceView {
        self.view()
    }
}

/// A device may be used to address a transfer only when its identifier is
/// non-empty; an empty identifier marks a record that must never be targeted.
pub open spec fn valid_device(d: DeviceView) -> bool {
    d.id.len() > 0
}

/// Field-wise copy of a device record.
pub fn clone_device(d: &Device) -> (r: Device)
    ensures
        r@ == d@,
{
    Device { name: d.name.clone(), id: d.id.clone() }
}

/// The first device of `devs` whose name is exactly `choice`, if any.  When
/// two devices share a display name, the earlier one in discovery order wins.
pub open spec fn selected(devs: Seq<DeviceView>, choice: Seq<char>) -> Option<DeviceView>
    decreases devs.len(),
{
    if devs.len() == 0 {
        None
    } else if devs[0].name == choice {
        Some(devs[0])
    } else {
        selected(devs.drop_first(), choice)
    }
}

/// Resolves the picker's answer against the device list by exact name
/// equality, first match in discovery order.
#[verifier::loop_isolation(false)]
pub fn select_device(devices: &Vec<Device>, choice: &String) -> (r: Option<Device>)
    ensures
        r matches Some(d) ==> selected(devices.deep_view(), choice@) == Some(d@),
        r is None ==> selected(devices.deep_view(), choice@) is None,
{
    let ghost devs = devices.deep_view();
    let mut i: usize = 0;
    proof {
        assert(devs.skip(0) =~= devs);
    }
    while i < devices.len()
        invariant
            i <= devices.len(),
            selected(devs, choice@) == selected(devs.skip(i as int), choice@),
        decreases devices.len() - i,
    {
        let ghost rest = devs.skip(i as int);
        proof {
            assert(rest[0] == devs[i as int]);
            assert(rest.drop_first() =~= devs.skip(i + 1));
        }
        if devices[i].name == *choice {
            return Some(clone_device(&devices[i]));
        }
        i = i + 1;
    }
    proof {
        assert(devs.skip(devices.len() as int) =~= Seq::<DeviceView>::empty());
    }
    None
}

} // verus!
