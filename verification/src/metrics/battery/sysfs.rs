//! Batteries under `/sys/class/power_supply`.
use vstd::prelude::*;

use crate::text::{chars_of, str_eq, string_from_range, trim_range, trimmed};

verus! {

/// Reads a battery's state from its directory under
/// `/sys/class/power_supply`.
pub struct SysfsBatteryParser {
    path: String,
}

impl SysfsBatteryParser {
    pub closed spec fn spec_path(&self) -> Seq<char> {
        self.path@
    }

    pub fn new(sysfs_path: &str) -> (r: Self)
        ensures
            r.spec_path() == sysfs_path@,
    {
        SysfsBatteryParser { path: sysfs_path.to_owned() }
    }

    /// The directory of the battery.
    pub fn path(&self) -> (r: &str)
        ensures
            r@ == self.spec_path(),
    {
        self.path.as_str()
    }
}

/// The kinds of power supply that the kernel names in `type`.
#[derive(Clone, Copy, Debug, PartialEq, Eq, Structural)]
pub enum PowerSupplyType {
    Unknown,
    Battery,
    Ups,
    Mains,
    Usb,
    UsbDcp,
    UsbCdp,
    UsbAca,
    UsbTypeC,
    UsbPd,
    UsbPdDrp,
    AppleBrickId,
    Wireless,
}

/// What `str::to_lowercase` returns for `s`: each character replaced by its
/// Unicode lowercase mapping.
pub uninterp spec fn unicode_lowercase(s: Seq<char>) -> Seq<char>;

/// `str::to_lowercase` of std. The contract only names its result; the
/// Unicode case mappings behind it are not stated.
#[verifier::external_body]
fn to_lowercase(s: &str) -> (r: String)
    ensures
        r@ == unicode_lowercase(s@),
{
    s.to_lowercase()
}

/// The supply type that the lowercase name `l` stands for.
pub open spec fn power_supply_type_of(l: Seq<char>) -> Option<PowerSupplyType> {
    if l == "unknown"@ {
        Some(PowerSupplyType::Unknown)
    } else if l == "battery"@ {
        Some(PowerSupplyType::Battery)
    } else if l == "ups"@ {
        Some(PowerSupplyType::Ups)
    } else if l == "mains"@ {
        Some(PowerSupplyType::Mains)
    } else if l == "usb"@ {
        Some(PowerSupplyType::Usb)
    } else if l == "usb_dcp"@ {
        Some(PowerSupplyType::UsbDcp)
    } else if l == "usb_cdp"@ {
        Some(PowerSupplyType::UsbCdp)
    } else if l == "usb_aca"@ {
        Some(PowerSupplyType::UsbAca)
    } else if l == "usb_type_c"@ {
        Some(PowerSupplyType::UsbTypeC)
    } else if l == "usb_pd"@ {
        Some(PowerSupplyType::UsbPd)
    } else if l == "usb_pd_drp"@ {
        Some(PowerSupplyType::UsbPdDrp)
    } else if l == "apple_brick_id"@ {
        Some(PowerSupplyType::AppleBrickId)
    } else if l == "wireless"@ {
        Some(PowerSupplyType::Wireless)
    } else {
        None
    }
}

/// The supply type named by the lowercase name `l`; `None` for any other
/// name.
pub fn power_supply_type_from_lowercase(l: &str) -> (r: Option<PowerSupplyType>)
    ensures
        r == power_supply_type_of(l@),
{
    if str_eq(l, "unknown") {
        Some(PowerSupplyType::Unknown)
    } else if str_eq(l, "battery") {
        Some(PowerSupplyType::Battery)
    } else if str_eq(l, "ups") {
        Some(PowerSupplyType::Ups)
    } else if str_eq(l, "mains") {
        Some(PowerSupplyType::Mains)
    } else if str_eq(l, "usb") {
        Some(PowerSupplyType::Usb)
    } else if str_eq(l, "usb_dcp") {
        Some(PowerSupplyType::UsbDcp)
    } else if str_eq(l, "usb_cdp") {
        Some(PowerSupplyType::UsbCdp)
    } else if str_eq(l, "usb_aca") {
        Some(PowerSupplyType::UsbAca)
    } else if str_eq(l, "usb_type_c") {
        Some(PowerSupplyType::UsbTypeC)
    } else if str_eq(l, "usb_pd") {
        Some(PowerSupplyType::UsbPd)
    } else if str_eq(l, "usb_pd_drp") {
        Some(PowerSupplyType::UsbPdDrp)
    } else if str_eq(l, "apple_brick_id") {
        Some(PowerSupplyType::AppleBrickId)
    } else if str_eq(l, "wireless") {
        Some(PowerSupplyType::Wireless)
    } else {
        None
    }
}

impl PowerSupplyType {
    /// The supply type that `value` names, in any case; `None` for any
    /// other name.
    pub fn try_from(value: &str) -> (r: Option<PowerSupplyType>)
        ensures
            r == power_supply_type_of(unicode_lowercase(value@)),
    {
        let lower = to_lowercase(value);
        power_supply_type_from_lowercase(lower.as_str())
    }
}

/// Whether a power supply whose `type` file reads `type_text` is a battery.
pub open spec fn is_battery_type(type_text: Option<Seq<char>>) -> bool {
    match type_text {
        Some(t) => power_supply_type_of(unicode_lowercase(trimmed(t))) == Some(
            PowerSupplyType::Battery,
        ),
        None => false,
    }
}

pub open spec fn type_texts(entries: Seq<(String, Option<String>)>) -> Seq<Option<Seq<char>>> {
    entries.map_values(
        |e: (String, Option<String>)|
            match e.1 {
                Some(t) => Some(t@),
                None => None,
            },
    )
}

fn is_battery_entry(type_text: &Option<String>) -> (r: bool)
    ensures
        r == is_battery_type(
            match type_text {
                Some(t) => Some(t@),
                None => None,
            },
        ),
{
    match type_text {
        None => false,
        Some(t) => {
            let v = chars_of(t.as_str());
            let (a, b) = trim_range(&v, 0, v.len());
            assert(v@.subrange(0, v@.len() as int) =~= v@);
            let trimmed_type = string_from_range(&v, a, b);
            match PowerSupplyType::try_from(trimmed_type.as_str()) {
                Some(PowerSupplyType::Battery) => true,
                _ => false,
            }
        },
    }
}

/// The first power supply that is a battery, from the directories under
/// `/sys/class/power_supply` in sorted order, each with the text of its
/// `type` file (`None` when it cannot be read): its position.
pub fn first_battery_entry(entries: &Vec<(String, Option<String>)>) -> (r: Option<usize>)
    ensures
        r matches Some(i) ==> i < entries@.len() && is_battery_type(type_texts(entries@)[i as int])
            && forall|k: int| 0 <= k < i ==> !is_battery_type(#[trigger] type_texts(entries@)[k]),
        r is None ==> forall|k: int|
            0 <= k < entries@.len() ==> !is_battery_type(#[trigger] type_texts(entries@)[k]),
{
    let ghost ts = type_texts(entries@);
    let mut i: usize = 0;
    while i < entries.len()
        invariant
            0 <= i <= entries@.len(),
            ts == type_texts(entries@),
            forall|k: int| 0 <= k < i ==> !is_battery_type(#[trigger] ts[k]),
        decreases entries@.len() - i,
    {
        if is_battery_entry(&entries[i].1) {
            return Some(i);
        }
        i = i + 1;
    }
    None
}

} // verus!
