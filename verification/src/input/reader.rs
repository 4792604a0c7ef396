//! Which input devices are read, and what their key events mean.
//!
//! Devices are filtered by name: the virtual device that the injector creates
//! is skipped to avoid feedback loops.

use vstd::prelude::*;

use crate::error::Error;
use crate::input::KeyKind;
use crate::text::same_text;

verus! {

/// Name of the injection device; readers skip it.
pub open spec fn virtual_device_name() -> Seq<char> {
    "swtchr-virtual"@
}

/// Name of the injection device; readers skip it.
pub fn injector_name() -> (r: &'static str)
    ensures
        r@ == virtual_device_name(),
{
    "swtchr-virtual"
}

/// Which of the telling keys a device can send.
#[derive(Debug, Clone, Copy, PartialEq, Eq, Structural)]
pub struct KeySupport {
    pub a: bool,
    pub z: bool,
    pub space: bool,
}

/// A device that was found under `/dev/input`.
#[derive(Debug, Clone)]
pub struct FoundDevice {
    /// Empty if the device reports no name.
    pub name: String,
    /// Absent if the device sends no keys at all.
    pub keys: Option<KeySupport>,
}

/// A keyboard has letters and a space bar. Mice and touchpads expose buttons
/// but no letters.
pub open spec fn keyboard_like(keys: Option<KeySupport>) -> bool {
    keys matches Some(k) && k.a && k.z && k.space
}

pub fn looks_like_keyboard(keys: Option<KeySupport>) -> (r: bool)
    ensures
        r == keyboard_like(keys),
{
    match keys {
        Some(k) => k.a && k.z && k.space,
        None => false,
    }
}

/// A device is read if it is a keyboard, is not the injection device and is not
/// to be ignored.
pub open spec fn wanted(dev: FoundDevice, ignore: Seq<String>) -> bool {
    &&& dev.name@ != virtual_device_name()
    &&& forall|j: int| 0 <= j < ignore.len() ==> (#[trigger] ignore[j])@ != dev.name@
    &&& keyboard_like(dev.keys)
}

/// The positions of the devices to read among those found, in order.
pub open spec fn wanted_positions(found: Seq<FoundDevice>, ignore: Seq<String>) -> Seq<usize>
    decreases found.len(),
{
    if found.len() == 0 {
        Seq::empty()
    } else {
        let before = wanted_positions(found.drop_last(), ignore);
        if wanted(found.last(), ignore) {
            before.push((found.len() - 1) as usize)
        } else {
            before
        }
    }
}

fn is_ignored(name: &String, ignore: &Vec<String>) -> (r: bool)
    ensures
        r == exists|j: int| 0 <= j < ignore@.len() && (#[trigger] ignore@[j])@ == name@,
{
    let mut j: usize = 0;
    while j < ignore.len()
        invariant
            j <= ignore.len(),
            forall|k: int| 0 <= k < j ==> (#[trigger] ignore@[k])@ != name@,
        decreases ignore.len() - j,
    {
        if same_text(ignore[j].as_str(), name.as_str()) {
            assert(ignore@[j as int]@ == name@);
            return true;
        }
        j = j + 1;
    }
    false
}

/// Picks the devices that look like keyboards, excluding the injection device
/// and any name listed in `ignore`. Finding none is an error.
pub fn enumerate_keyboards(found: &Vec<FoundDevice>, ignore: &Vec<String>) -> (r: Result<
    Vec<usize>,
    Error,
>)
    ensures
        match r {
            Ok(v) => v@ == wanted_positions(found@, ignore@) && v@.len() > 0,
            Err(e) => e == Error::NoKeyboards && wanted_positions(found@, ignore@).len() == 0,
        },
{
    let mut out: Vec<usize> = Vec::new();
    let mut i: usize = 0;
    assert(found@.take(0) == Seq::<FoundDevice>::empty());
    while i < found.len()
        invariant
            i <= found.len(),
            out@ == wanted_positions(found@.take(i as int), ignore@),
        decreases found.len() - i,
    {
        proof {
            assert(found@.take(i + 1).drop_last() == found@.take(i as int));
            assert(found@.take(i + 1).last() == found@[i as int]);
        }
        let keep: bool = !same_text(found[i].name.as_str(), injector_name()) && !is_ignored(
            &found[i].name,
            ignore,
        ) && looks_like_keyboard(found[i].keys);
        if keep {
            out.push(i);
        }
        i = i + 1;
    }
    assert(found@.take(i as int) == found@);
    if out.len() == 0 {
        return Err(Error::NoKeyboards);
    }
    Ok(out)
}

/// The meaning of the value of a kernel key event. Anything but the three
/// known values is dropped.
pub fn key_kind(value: i32) -> (r: Option<KeyKind>)
    ensures
        r == match value {
            0 => Some(KeyKind::Release),
            1 => Some(KeyKind::Press),
            2 => Some(KeyKind::Repeat),
            _ => None::<KeyKind>,
        },
{
    if value == 0 {
        Some(KeyKind::Release)
    } else if value == 1 {
        Some(KeyKind::Press)
    } else if value == 2 {
        Some(KeyKind::Repeat)
    } else {
        None
    }
}

/// The devices that are read are exactly the wanted ones, each once. In
/// particular the injection device is never read, so what is injected does not
/// feed back.
pub proof fn reads_wanted_devices_only(found: Seq<FoundDevice>, ignore: Seq<String>, i: usize)
    requires
        found.len() <= usize::MAX,
    ensures
        wanted_positions(found, ignore).contains(i) <==> i < found.len() && wanted(
            found[i as int],
            ignore,
        ),
        wanted_positions(found, ignore).contains(i) ==> found[i as int].name@
            != virtual_device_name(),
        wanted_positions(found, ignore).no_duplicates(),
    decreases found.len(),
{
    if found.len() > 0 {
        let rest = found.drop_last();
        let before = wanted_positions(rest, ignore);
        reads_wanted_devices_only(rest, ignore, i);
        reads_wanted_devices_only(rest, ignore, (found.len() - 1) as usize);
        let all = wanted_positions(found, ignore);
        if before.contains(i) {
            let k = choose|k: int| 0 <= k < before.len() && before[k] == i;
            assert(all[k] == i);
        }
        if wanted(found.last(), ignore) {
            assert(all == before.push((found.len() - 1) as usize));
            assert(all.last() == (found.len() - 1) as usize);
            if all.contains(i) && i != found.len() - 1 {
                let k = choose|k: int| 0 <= k < all.len() && all[k] == i;
                assert(before[k] == i);
            }
        }
        if i < rest.len() {
            assert(rest[i as int] == found[i as int]);
        }
    }
}

/// A device is read exactly if it can send A, Z and the space bar, its name is not
/// that of the injection device and does not stand in the list of those to ignore;
/// the devices are read in the order in which they were found.
pub proof fn keyboards_are_read_unless_ignored(
    found: Seq<FoundDevice>,
    ignore: Seq<String>,
    i: usize,
)
    requires
        found.len() <= usize::MAX,
    ensures
        wanted_positions(found, ignore).contains(i) <==> {
            &&& i < found.len()
            &&& found[i as int].keys is Some
            &&& found[i as int].keys->0.a
            &&& found[i as int].keys->0.z
            &&& found[i as int].keys->0.space
            &&& found[i as int].name@ != "swtchr-virtual"@
            &&& forall|j: int|
                0 <= j < ignore.len() ==> (#[trigger] ignore[j])@ != found[i as int].name@
        },
        forall|a: int, b: int|
            0 <= a < b < wanted_positions(found, ignore).len() ==> wanted_positions(
                found,
                ignore,
            )[a] < wanted_positions(found, ignore)[b],
{
    reads_wanted_devices_only(found, ignore, i);
    positions_ascend(found, ignore);
}

/// Any device with letters and a space bar is taken for a keyboard.
pub proof fn letters_and_space_make_a_keyboard(k: KeySupport)
    ensures
        !keyboard_like(None),
        keyboard_like(Some(k)) <==> k.a && k.z && k.space,
        virtual_device_name() == "swtchr-virtual"@,
{
}

proof fn positions_ascend(found: Seq<FoundDevice>, ignore: Seq<String>)
    requires
        found.len() <= usize::MAX,
    ensures
        forall|a: int|
            0 <= a < wanted_positions(found, ignore).len() ==> (#[trigger] wanted_positions(
                found,
                ignore,
            )[a]) < found.len(),
        forall|a: int, b: int|
            0 <= a < b < wanted_positions(found, ignore).len() ==> wanted_positions(
                found,
                ignore,
            )[a] < wanted_positions(found, ignore)[b],
    decreases found.len(),
{
    if found.len() > 0 {
        positions_ascend(found.drop_last(), ignore);
        let before = wanted_positions(found.drop_last(), ignore);
        let all = wanted_positions(found, ignore);
        assert forall|a: int| 0 <= a < all.len() implies (#[trigger] all[a]) < found.len() by {
            if a < before.len() {
                assert(all[a] == before[a]);
            }
        }
        assert forall|a: int, b: int| 0 <= a < b < all.len() implies all[a] < all[b] by {
            assert(all[a] == before[a]);
            if b < before.len() {
                assert(all[b] == before[b]);
            }
        }
    }
}

/// The kernel's values 0, 1 and 2 are a release, a press and a repeat; any other
/// value is nothing.
pub proof fn key_values_by_number(value: i32, r: Option<KeyKind>)
    requires
        call_ensures(key_kind, (value,), r),
    ensures
        r == Some(KeyKind::Release) <==> value == 0,
        r == Some(KeyKind::Press) <==> value == 1,
        r == Some(KeyKind::Repeat) <==> value == 2,
{
}

/// The keyboards to read are an error exactly if there is none among the devices
/// found.
pub proof fn no_keyboard_is_an_error(
    found: &Vec<FoundDevice>,
    ignore: &Vec<String>,
    r: Result<Vec<usize>, Error>,
)
    requires
        call_ensures(enumerate_keyboards, (found, ignore), r),
    ensures
        r is Err <==> forall|i: int|
            0 <= i < found@.len() ==> !wanted(#[trigger] found@[i], ignore@),
        r matches Err(e) ==> e is NoKeyboards,
        r matches Ok(v) ==> v@ == wanted_positions(found@, ignore@),
{
    let all = wanted_positions(found@, ignore@);
    assert(found@.len() == found.len());
    assert forall|i: int| 0 <= i < found@.len() && all.len() == 0 implies !wanted(
        #[trigger] found@[i],
        ignore@,
    ) by {
        reads_wanted_devices_only(found@, ignore@, i as usize);
        if wanted(found@[i], ignore@) {
            assert(all.contains(i as usize));
        }
    }
    if all.len() > 0 {
        reads_wanted_devices_only(found@, ignore@, all[0]);
        assert(all.contains(all[0]));
        assert(wanted(found@[all[0] as int], ignore@));
    }
}

} // verus!
