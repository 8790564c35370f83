//! Recognising GPUs from what the kernel's DRM class directory shows.
use vstd::prelude::*;
use crate::text::{is_digit, parse_u64, parsed_u64, str_eq, trim, trimmed};

verus! {

/// A GPU maker the monitor knows how to read.
#[derive(Debug, Clone, Copy, PartialEq, Eq, Structural)]
pub enum GpuVendor {
    Nvidia,
    Amd,
    Intel,
}

/// The vendor's name as it is reported.
pub open spec fn vendor_name(v: GpuVendor) -> Seq<char> {
    match v {
        GpuVendor::Nvidia => "NVIDIA"@,
        GpuVendor::Amd => "AMD"@,
        GpuVendor::Intel => "Intel"@,
    }
}

impl GpuVendor {
    /// The vendor's name as it is reported.
    pub fn name(&self) -> (r: &'static str)
        ensures
            r@ == vendor_name(*self),
    {
        match self {
            GpuVendor::Nvidia => "NVIDIA",
            GpuVendor::Amd => "AMD",
            GpuVendor::Intel => "Intel",
        }
    }
}

/// The order in which GPUs are looked for: NVIDIA first (through its
/// management library), then AMD, then Intel.
pub open spec fn probe_after(current: Option<GpuVendor>) -> Option<GpuVendor> {
    match current {
        None => Some(GpuVendor::Nvidia),
        Some(GpuVendor::Nvidia) => Some(GpuVendor::Amd),
        Some(GpuVendor::Amd) => Some(GpuVendor::Intel),
        Some(GpuVendor::Intel) => None,
    }
}

/// Where the search for a GPU stands.
#[derive(Debug, Clone, Copy, PartialEq, Eq, Structural)]
pub enum GpuSearch {
    /// Look for a GPU of this vendor next.
    Probe(GpuVendor),
    /// A GPU of this vendor was found: the search is over.
    Found(GpuVendor),
    /// Every vendor was tried and none was found.
    NotFound,
}

/// The state after looking for `tried`: the search stops at the first GPU
/// found and otherwise goes on with the next vendor in order.
pub open spec fn search_after(tried: GpuVendor, found: bool) -> GpuSearch {
    if found {
        GpuSearch::Found(tried)
    } else {
        match probe_after(Some(tried)) {
            Some(v) => GpuSearch::Probe(v),
            None => GpuSearch::NotFound,
        }
    }
}

/// The search before anything was looked for.
pub fn gpu_search_start() -> (r: GpuSearch)
    ensures
        r == GpuSearch::Probe(probe_after(None)->0),
{
    GpuSearch::Probe(GpuVendor::Nvidia)
}

/// One step of the search: `found` tells whether a GPU of `tried` was read.
pub fn gpu_search_step(tried: GpuVendor, found: bool) -> (r: GpuSearch)
    ensures
        r == search_after(tried, found),
{
    if found {
        return GpuSearch::Found(tried);
    }
    match tried {
        GpuVendor::Nvidia => GpuSearch::Probe(GpuVendor::Amd),
        GpuVendor::Amd => GpuSearch::Probe(GpuVendor::Intel),
        GpuVendor::Intel => GpuSearch::NotFound,
    }
}

/// The GPU the search settles on when it is told, for each vendor, whether
/// one of that vendor is present: the first present in probing order.
pub open spec fn search_result(nvidia: bool, amd: bool, intel: bool) -> Option<GpuVendor> {
    if nvidia {
        Some(GpuVendor::Nvidia)
    } else if amd {
        Some(GpuVendor::Amd)
    } else if intel {
        Some(GpuVendor::Intel)
    } else {
        None
    }
}

/// Stepping the search with each vendor's answer ends in the first vendor
/// present, in the order NVIDIA, AMD, Intel, or in no GPU.
pub proof fn law_search_stops_at_first_found(nvidia: bool, amd: bool, intel: bool)
    ensures
        ({
            let s1 = search_after(GpuVendor::Nvidia, nvidia);
            let s2 = match s1 {
                GpuSearch::Probe(v) => search_after(v, amd),
                other => other,
            };
            let s3 = match s2 {
                GpuSearch::Probe(v) => search_after(v, intel),
                other => other,
            };
            match search_result(nvidia, amd, intel) {
                Some(v) => s3 == GpuSearch::Found(v),
                None => s3 == GpuSearch::NotFound,
            }
        }),
{
}

/// Looking for GPUs tries each vendor once, NVIDIA before AMD before Intel,
/// and then stops.
pub proof fn law_each_vendor_probed_once()
    ensures
        probe_after(None) == Some(GpuVendor::Nvidia),
        probe_after(probe_after(None)) == Some(GpuVendor::Amd),
        probe_after(probe_after(probe_after(None))) == Some(GpuVendor::Intel),
        probe_after(probe_after(probe_after(probe_after(None)))) is None,
{
}

/// PCI vendor identifiers of virtual display adapters (VirtIO, QEMU VGA,
/// VMware SVGA, VirtualBox), which are never reported as GPUs.
pub open spec fn virtual_vendor_ids() -> Seq<Seq<char>> {
    seq!["0x1af4"@, "0x1234"@, "0x15ad"@, "0x80ee"@]
}

/// Whether a PCI vendor identifier belongs to a virtual display adapter.
pub fn is_virtual_vendor(vendor: &str) -> (r: bool)
    ensures
        r == virtual_vendor_ids().contains(vendor@),
{
    let r = str_eq(vendor, "0x1af4") || str_eq(vendor, "0x1234") || str_eq(vendor, "0x15ad")
        || str_eq(vendor, "0x80ee");
    proof {
        let ids = virtual_vendor_ids();
        if r {
            if vendor@ == "0x1af4"@ {
                assert(ids[0] == vendor@);
            } else if vendor@ == "0x1234"@ {
                assert(ids[1] == vendor@);
            } else if vendor@ == "0x15ad"@ {
                assert(ids[2] == vendor@);
            } else {
                assert(ids[3] == vendor@);
            }
        }
    }
    r
}

/// The GPU that a card's `device/vendor` file names: AMD for `0x1002`,
/// Intel for `0x8086`, nothing for virtual adapters and other makers.
/// Surrounding white space is ignored.
pub open spec fn card_vendor_of(contents: Seq<char>) -> Option<GpuVendor> {
    let id = trimmed(contents);
    if virtual_vendor_ids().contains(id) {
        None
    } else if id == "0x1002"@ {
        Some(GpuVendor::Amd)
    } else if id == "0x8086"@ {
        Some(GpuVendor::Intel)
    } else {
        None
    }
}

/// The GPU maker that the contents of a card's vendor file name.
pub fn card_vendor(contents: &str) -> (r: Option<GpuVendor>)
    ensures
        r == card_vendor_of(contents@),
{
    let id = trim(contents);
    if is_virtual_vendor(id) {
        None
    } else if str_eq(id, "0x1002") {
        Some(GpuVendor::Amd)
    } else if str_eq(id, "0x8086") {
        Some(GpuVendor::Intel)
    } else {
        None
    }
}

/// An entry of the DRM class directory that is a card (`card0`, `card1`,
/// ...), not a render node or a connector: `card` followed by one or more
/// digits and nothing else.
pub open spec fn is_card_name(name: Seq<char>) -> bool {
    &&& name.len() >= 5
    &&& name.take(4) == "card"@
    &&& forall|i: int| 4 <= i < name.len() ==> is_digit(#[trigger] name[i])
}

/// Whether a DRM class directory entry is a card.
pub fn is_drm_card_name(name: &str) -> (r: bool)
    ensures
        r == is_card_name(name@),
{
    proof {
        reveal_strlit("card");
    }
    let n = name.unicode_len();
    if n < 5 {
        return false;
    }
    let prefix = name.substring_char(0, 4);
    if !str_eq(prefix, "card") {
        return false;
    }
    let mut i: usize = 4;
    while i < n
        invariant
            n == name@.len(),
            4 <= i <= n,
            forall|k: int| 4 <= k < i ==> is_digit(#[trigger] name@[k]),
        decreases n - i,
    {
        let c = name.get_char(i);
        if !('0' <= c && c <= '9') {
            assert(!is_digit(name@[i as int]));
            return false;
        }
        i = i + 1;
    }
    true
}

/// The first card whose vendor file names `wanted`; cards whose vendor file
/// could not be read are skipped.
pub open spec fn is_first_card_of(vendor_files: Seq<Option<String>>, wanted: GpuVendor, i: int) -> bool {
    &&& 0 <= i < vendor_files.len()
    &&& vendor_files[i] matches Some(v) && card_vendor_of(v@) == Some(wanted)
    &&& forall|j: int|
        0 <= j < i ==> !(#[trigger] vendor_files[j] matches Some(v) && card_vendor_of(v@) == Some(
            wanted,
        ))
}

/// Picks the card to read for `wanted` among the cards' vendor files, in
/// directory order.
pub fn find_card(vendor_files: &Vec<Option<String>>, wanted: GpuVendor) -> (r: Option<usize>)
    ensures
        r matches Some(i) ==> is_first_card_of(vendor_files@, wanted, i as int),
        r is None ==> forall|j: int|
            0 <= j < vendor_files@.len() ==> !(#[trigger] vendor_files@[j] matches Some(v)
                && card_vendor_of(v@) == Some(wanted)),
{
    let n = vendor_files.len();
    let mut i: usize = 0;
    while i < n
        invariant
            n == vendor_files@.len(),
            i <= n,
            forall|j: int|
                0 <= j < i ==> !(#[trigger] vendor_files@[j] matches Some(v) && card_vendor_of(v@)
                    == Some(wanted)),
        decreases n - i,
    {
        if let Some(contents) = &vendor_files[i] {
            if card_vendor(contents.as_str()) == Some(wanted) {
                return Some(i);
            }
        }
        i = i + 1;
    }
    None
}

/// Reads a counter file (memory in bytes, busy percent): a decimal number,
/// white space around it allowed.
pub fn read_counter(contents: &str) -> (r: Option<u64>)
    ensures
        r == parsed_u64(trimmed(contents@)),
{
    parse_u64(trim(contents))
}

/// A virtual display adapter is never taken for a GPU.
pub proof fn law_virtual_adapters_are_ignored(contents: Seq<char>)
    requires
        virtual_vendor_ids().contains(trimmed(contents)),
    ensures
        card_vendor_of(contents) is None,
{
}

} // verus!
