//! The report a machine publishes and the records that describe its sensors.
use vstd::prelude::*;

verus! {

/// One round of measurements, each number already written as decimal text
/// at the precision it is reported with.
pub struct SystemReport {
    pub ram_total: String,
    pub ram_usage: String,
    pub disk_total: String,
    pub disk_usage: String,
    pub cpu_usage: String,
    pub network_received: String,
    pub network_transmitted: String,
    /// Name of the GPU's vendor, when a GPU was found.
    pub gpu_vendor: Option<String>,
    /// GPU memory in use, written at the precision of the used figure.
    pub gpu_mem_used: Option<String>,
    /// GPU memory in total, written at the precision of the used figure.
    pub gpu_mem_total: Option<String>,
    /// GPU utilisation in percent, written with one decimal.
    pub gpu_usage: Option<String>,
}

/// The view of an optional string.
pub open spec fn opt_view(o: Option<String>) -> Option<Seq<char>> {
    match o {
        Some(s) => Some(s@),
        None => None,
    }
}

/// The part of the report that every machine sends: one line per figure.
pub open spec fn base_report_json(r: SystemReport) -> Seq<char> {
    "{\n\"ram_total\": "@ + r.ram_total@ + ",\n\"ram_usage\": "@ + r.ram_usage@
        + ",\n\"disk_total\": "@ + r.disk_total@ + ",\n\"disk_usage\": "@ + r.disk_usage@
        + ",\n\"cpu_usage\": "@ + r.cpu_usage@ + ",\n\"network_received\": "@
        + r.network_received@ + ",\n\"network_transmitted\": "@ + r.network_transmitted@
}

/// The GPU vendor member, present when the vendor is known; the name is
/// written between quotes as it is.
pub open spec fn gpu_vendor_json(vendor: Option<Seq<char>>) -> Seq<char> {
    match vendor {
        Some(v) => ",\"gpu_vendor\": \""@ + v + "\""@,
        None => Seq::empty(),
    }
}

/// The GPU memory members, present only when both figures are known.
pub open spec fn gpu_memory_json(used: Option<Seq<char>>, total: Option<Seq<char>>) -> Seq<char> {
    match (used, total) {
        (Some(u), Some(t)) => ",\"gpu_mem_used\": "@ + u + ",\"gpu_mem_total\": "@ + t,
        _ => Seq::empty(),
    }
}

/// The GPU utilisation member, present when it is known.
pub open spec fn gpu_usage_json(usage: Option<Seq<char>>) -> Seq<char> {
    match usage {
        Some(g) => ",\"gpu_usage\": "@ + g,
        None => Seq::empty(),
    }
}

/// The JSON text that is published for a report.
pub open spec fn report_json(r: SystemReport) -> Seq<char> {
    base_report_json(r) + gpu_vendor_json(opt_view(r.gpu_vendor)) + gpu_memory_json(
        opt_view(r.gpu_mem_used),
        opt_view(r.gpu_mem_total),
    ) + gpu_usage_json(opt_view(r.gpu_usage)) + "\n}"@
}

impl SystemReport {
    /// The report as the JSON text that is published on the state topic.
    pub fn to_json(&self) -> (r: String)
        ensures
            r@ == report_json(*self),
    {
        let mut out = String::from_str("{\n\"ram_total\": ");
        out.append(self.ram_total.as_str());
        out.append(",\n\"ram_usage\": ");
        out.append(self.ram_usage.as_str());
        out.append(",\n\"disk_total\": ");
        out.append(self.disk_total.as_str());
        out.append(",\n\"disk_usage\": ");
        out.append(self.disk_usage.as_str());
        out.append(",\n\"cpu_usage\": ");
        out.append(self.cpu_usage.as_str());
        out.append(",\n\"network_received\": ");
        out.append(self.network_received.as_str());
        out.append(",\n\"network_transmitted\": ");
        out.append(self.network_transmitted.as_str());
        let ghost base = out@;
        assert(base == base_report_json(*self));
        if let Some(vendor) = &self.gpu_vendor {
            out.append(",\"gpu_vendor\": \"");
            out.append(vendor.as_str());
            out.append("\"");
        }
        let ghost with_vendor = out@;
        assert(with_vendor =~= base + gpu_vendor_json(opt_view(self.gpu_vendor)));
        if let (Some(used), Some(total)) = (&self.gpu_mem_used, &self.gpu_mem_total) {
            out.append(",\"gpu_mem_used\": ");
            out.append(used.as_str());
            out.append(",\"gpu_mem_total\": ");
            out.append(total.as_str());
        }
        let ghost with_memory = out@;
        assert(with_memory =~= with_vendor + gpu_memory_json(
            opt_view(self.gpu_mem_used),
            opt_view(self.gpu_mem_total),
        ));
        if let Some(usage) = &self.gpu_usage {
            out.append(",\"gpu_usage\": ");
            out.append(usage.as_str());
        }
        assert(out@ =~= with_memory + gpu_usage_json(opt_view(self.gpu_usage)));
        out.append("\n}");
        out
    }
}

/// The text with which a known GPU utilisation `g` closes a report.
pub open spec fn usage_ending(g: Seq<char>) -> Seq<char> {
    ",\"gpu_usage\": "@ + g + "\n}"@
}

/// Whenever a report carries a GPU utilisation `g`, its text ends with the
/// member `"gpu_usage": g` and the closing brace, whatever else the report
/// holds (in particular whether the GPU memory figures are known).
pub proof fn law_usage_closes_the_report(r: SystemReport)
    requires
        r.gpu_usage is Some,
    ensures
        ({
            let text = report_json(r);
            let end = usage_ending(r.gpu_usage->0@);
            text.len() >= end.len() && text.subrange(text.len() - end.len(), text.len() as int)
                == end
        }),
{
    let g = r.gpu_usage->0@;
    let head = base_report_json(r) + gpu_vendor_json(opt_view(r.gpu_vendor)) + gpu_memory_json(
        opt_view(r.gpu_mem_used),
        opt_view(r.gpu_mem_total),
    );
    let end = usage_ending(g);
    let text = report_json(r);
    assert(text =~= head + end);
    assert(text.subrange(head.len() as int, text.len() as int) =~= end);
}

/// Adding a GPU utilisation `g` to a report changes its text in one way
/// only: `,"gpu_usage": g` is inserted just before the closing `\n}`.
/// Nothing else of the report decides whether the member appears.
pub proof fn law_usage_member_is_independent(r: SystemReport, g: String)
    ensures
        ({
            let without = report_json(SystemReport { gpu_usage: None, ..r });
            let with = report_json(SystemReport { gpu_usage: Some(g), ..r });
            without.len() >= 2 && with == without.subrange(0, without.len() - 2) + usage_ending(g@)
        }),
{
    let head = base_report_json(r) + gpu_vendor_json(opt_view(r.gpu_vendor)) + gpu_memory_json(
        opt_view(r.gpu_mem_used),
        opt_view(r.gpu_mem_total),
    );
    let r0 = SystemReport { gpu_usage: None, ..r };
    let r1 = SystemReport { gpu_usage: Some(g), ..r };
    reveal_strlit("\n}");
    assert(report_json(r0) =~= head + "\n}"@);
    assert(report_json(r0).subrange(0, report_json(r0).len() - 2) =~= head);
    assert(report_json(r1) =~= head + usage_ending(g@));
}

/// The text that follows the GPU memory members: the utilisation member if
/// it is known, then the closing brace.
pub open spec fn after_memory(usage: Option<String>) -> Seq<char> {
    match usage {
        Some(g) => usage_ending(g@),
        None => "\n}"@,
    }
}

/// The GPU memory figures appear only as a pair: with both known, the text
/// is the text without them plus `,"gpu_mem_used": u,"gpu_mem_total": t`
/// placed just before the utilisation member and the closing brace; with
/// either unknown, the text is the same as with neither.
pub proof fn law_memory_members_come_in_pairs(r: SystemReport, u: Option<String>, t: Option<String>)
    ensures
        ({
            let none = report_json(SystemReport { gpu_mem_used: None, gpu_mem_total: None, ..r });
            let some = report_json(SystemReport { gpu_mem_used: u, gpu_mem_total: t, ..r });
            let tail = after_memory(r.gpu_usage);
            &&& none.len() >= tail.len()
            &&& none.subrange(none.len() - tail.len(), none.len() as int) == tail
            &&& (u is Some && t is Some) ==> some == none.subrange(0, none.len() - tail.len())
                + ",\"gpu_mem_used\": "@ + u->0@ + ",\"gpu_mem_total\": "@ + t->0@ + tail
            &&& !(u is Some && t is Some) ==> some == none
        }),
{
    let r0 = SystemReport { gpu_mem_used: None, gpu_mem_total: None, ..r };
    let r1 = SystemReport { gpu_mem_used: u, gpu_mem_total: t, ..r };
    let head = base_report_json(r) + gpu_vendor_json(opt_view(r.gpu_vendor));
    let tail = after_memory(r.gpu_usage);
    let none = report_json(r0);
    assert(none =~= head + tail);
    assert(none.subrange(none.len() - tail.len(), none.len() as int) =~= tail);
    assert(none.subrange(0, none.len() - tail.len()) =~= head);
    if u is Some && t is Some {
        assert(report_json(r1) =~= head + ",\"gpu_mem_used\": "@ + u->0@ + ",\"gpu_mem_total\": "@
            + t->0@ + tail);
    } else {
        assert(report_json(r1) =~= head + tail);
    }
}

/// The kind of quantity a sensor measures.
#[derive(Debug, Clone, Copy, PartialEq, Eq, Structural)]
pub enum DeviceClass {
    DataSize,
}

/// How an entity is presented.
pub struct EntityConfig {
    pub device_class: DeviceClass,
}

/// The device that a group of sensors belongs to.
pub struct Device {
    pub identifiers: Vec<String>,
    pub manufacturer: String,
    pub model: String,
    pub name: String,
}

/// The discovery record of one sensor.
pub struct DeviceConfig {
    pub unique_id: String,
    pub name: String,
    pub state_topic: String,
    pub state_class: String,
    pub device_class: String,
    pub unit_of_measurement: String,
    pub device: Device,
}

} // verus!
