//! Home Assistant discovery messages and the reporting cadence.
use vstd::prelude::*;
use crate::json::{json_quoted, json_string};
use crate::text::{contains_seq, contains_str, replace_underscores, spaced, str_eq};
use crate::units::{unit_label, ByteUnit};
use crate::models::{report_json, SystemReport};
use crate::text::occurs_at;

verus! {

/// The settings the monitor runs with.
pub struct Config {
    /// Name of the program; the first level of every state topic.
    pub program_name: String,
    /// Name of this machine; unique among the monitored machines.
    pub client_id: String,
    /// Unit in which disk figures are reported.
    pub storage_unit: ByteUnit,
    /// Unit in which memory figures are reported.
    pub memory_unit: ByteUnit,
    /// Unit in which network figures are reported.
    pub network_unit: ByteUnit,
    /// Seconds between two reports.
    pub report_interval: u64,
}

/// A message to publish: its topic and its payload.
pub struct Publication {
    pub topic: String,
    pub payload: String,
}

/// The sensors that every machine reports, in the order they are announced.
pub open spec fn supported_sensors() -> Seq<Seq<char>> {
    seq![
        "ram_total"@,
        "ram_usage"@,
        "disk_total"@,
        "disk_usage"@,
        "cpu_usage"@,
        "network_received"@,
        "network_transmitted"@,
    ]
}

/// `<program>/<client>/state`: where the reports of a machine are published.
pub open spec fn state_topic_of(program: Seq<char>, client: Seq<char>) -> Seq<char> {
    program + "/"@ + client + "/state"@
}

/// The device's display name: program and client with spaces for underscores.
pub open spec fn device_name_of(program: Seq<char>, client: Seq<char>) -> Seq<char> {
    spaced(program) + " "@ + spaced(client)
}

/// `<program>_<client>`: the device's model and identifier.
pub open spec fn model_id_of(program: Seq<char>, client: Seq<char>) -> Seq<char> {
    program + "_"@ + client
}

/// `homeassistant/sensor/<client>_<sensor>/config`: where a sensor is announced.
pub open spec fn config_topic_of(client: Seq<char>, sensor: Seq<char>) -> Seq<char> {
    "homeassistant/sensor/"@ + client + "_"@ + sensor + "/config"@
}

/// `<client>_<sensor>`: the sensor's unique identifier.
pub open spec fn unique_id_of(client: Seq<char>, sensor: Seq<char>) -> Seq<char> {
    client + "_"@ + sensor
}

/// `{{ value_json.<sensor> }}`: how Home Assistant reads the sensor's value.
pub open spec fn value_template_of(sensor: Seq<char>) -> Seq<char> {
    "{{ value_json."@ + sensor + " }}"@
}

/// The CPU usage sensor.
pub open spec fn is_cpu_sensor(sensor: Seq<char>) -> bool {
    sensor == "cpu_usage"@
}

/// The two network traffic sensors.
pub open spec fn is_network_sensor(sensor: Seq<char>) -> bool {
    sensor == "network_received"@ || sensor == "network_transmitted"@
}

/// The JSON object that describes the device all sensors belong to.
pub open spec fn device_json(program: Seq<char>, client: Seq<char>) -> Seq<char> {
    "{\"identifiers\":["@ + json_quoted(model_id_of(program, client)) + "],\"manufacturer\":"@
        + json_quoted(program) + ",\"model\":"@ + json_quoted(model_id_of(program, client))
        + ",\"name\":"@ + json_quoted(device_name_of(program, client)) + "}"@
}

/// The unit a sensor is measured in: percent for the CPU, megabytes per
/// second for traffic, the memory unit for sensors whose name holds `ram`
/// and the storage unit for the others.
pub open spec fn sensor_unit_of(
    sensor: Seq<char>,
    memory: ByteUnit,
    storage: ByteUnit,
) -> Seq<char> {
    if is_cpu_sensor(sensor) {
        "%"@
    } else if is_network_sensor(sensor) {
        "MB/s"@
    } else if contains_seq(sensor, "ram"@) {
        unit_label(memory)
    } else {
        unit_label(storage)
    }
}

/// The `device_class` member, if the sensor has one: none for the CPU,
/// `data_rate` for traffic, `data_size` for the others.
pub open spec fn device_class_member(sensor: Seq<char>) -> Seq<char> {
    if is_cpu_sensor(sensor) {
        Seq::empty()
    } else if is_network_sensor(sensor) {
        ",\"device_class\":"@ + json_quoted("data_rate"@)
    } else {
        ",\"device_class\":"@ + json_quoted("data_size"@)
    }
}

/// `measurement` for CPU and traffic, `total` for the sizes.
pub open spec fn state_class_of(sensor: Seq<char>) -> Seq<char> {
    if is_cpu_sensor(sensor) || is_network_sensor(sensor) {
        "measurement"@
    } else {
        "total"@
    }
}

/// The discovery document of one sensor: a compact JSON object whose
/// members appear in the order of their keys, as serde_json writes a
/// `json!` object.
pub open spec fn sensor_config_json(
    program: Seq<char>,
    client: Seq<char>,
    memory: ByteUnit,
    storage: ByteUnit,
    sensor: Seq<char>,
) -> Seq<char> {
    "{\"device\":"@ + device_json(program, client) + device_class_member(sensor) + ",\"name\":"@
        + json_quoted(spaced(sensor)) + ",\"state_class\":"@ + json_quoted(state_class_of(sensor))
        + ",\"state_topic\":"@ + json_quoted(state_topic_of(program, client))
        + ",\"unique_id\":"@ + json_quoted(unique_id_of(client, sensor))
        + ",\"unit_of_measurement\":"@ + json_quoted(sensor_unit_of(sensor, memory, storage))
        + ",\"value_template\":"@ + json_quoted(value_template_of(sensor)) + "}"@
}

/// The views of a list of strings.
pub open spec fn string_views(v: Seq<String>) -> Seq<Seq<char>> {
    v.map_values(|s: String| s@)
}

/// Appends `key` (already written as JSON text) and the JSON string literal
/// of `value`.
fn push_member(out: &mut String, key: &str, value: &str)
    ensures
        final(out)@ == old(out)@ + key@ + json_quoted(value@),
{
    out.append(key);
    let quoted = json_string(value);
    out.append(quoted.as_str());
}

/// Whether the CPU sensor is meant.
fn cpu_sensor(sensor: &str) -> (r: bool)
    ensures
        r == is_cpu_sensor(sensor@),
{
    str_eq(sensor, "cpu_usage")
}

/// Whether a traffic sensor is meant.
fn network_sensor(sensor: &str) -> (r: bool)
    ensures
        r == is_network_sensor(sensor@),
{
    str_eq(sensor, "network_received") || str_eq(sensor, "network_transmitted")
}

/// The JSON object that describes the device of `program` on `client`.
fn device_document(program: &str, client: &str) -> (r: String)
    ensures
        r@ == device_json(program@, client@),
{
    let mut model_id = String::from_str(program);
    model_id.append("_");
    model_id.append(client);

    let mut device_name = replace_underscores(program);
    device_name.append(" ");
    let spaced_client = replace_underscores(client);
    device_name.append(spaced_client.as_str());

    let mut out = String::new();
    push_member(&mut out, "{\"identifiers\":[", model_id.as_str());
    push_member(&mut out, "],\"manufacturer\":", program);
    push_member(&mut out, ",\"model\":", model_id.as_str());
    push_member(&mut out, ",\"name\":", device_name.as_str());
    out.append("}");
    assert(out@ =~= device_json(program@, client@));
    out
}

/// The `device_class` member of the sensor's document, if it has one.
fn device_class_text(sensor: &str) -> (r: String)
    ensures
        r@ == device_class_member(sensor@),
{
    let mut out = String::new();
    if cpu_sensor(sensor) {
    } else if network_sensor(sensor) {
        push_member(&mut out, ",\"device_class\":", "data_rate");
    } else {
        push_member(&mut out, ",\"device_class\":", "data_size");
    }
    assert(out@ =~= device_class_member(sensor@));
    out
}

/// The state class of the sensor.
fn state_class_text(sensor: &str) -> (r: &'static str)
    ensures
        r@ == state_class_of(sensor@),
{
    if cpu_sensor(sensor) || network_sensor(sensor) {
        "measurement"
    } else {
        "total"
    }
}

/// Announces the sensors of one machine and decides what it publishes.
pub struct SystemReporter {
    pub config: Config,
    pub sensors: Vec<String>,
}

impl SystemReporter {
    /// A reporter for `config` that announces every supported sensor.
    pub fn new(config: Config) -> (r: Self)
        ensures
            r.config == config,
            string_views(r.sensors@) == supported_sensors(),
    {
        let mut sensors: Vec<String> = Vec::new();
        sensors.push(String::from_str("ram_total"));
        sensors.push(String::from_str("ram_usage"));
        sensors.push(String::from_str("disk_total"));
        sensors.push(String::from_str("disk_usage"));
        sensors.push(String::from_str("cpu_usage"));
        sensors.push(String::from_str("network_received"));
        sensors.push(String::from_str("network_transmitted"));
        assert(string_views(sensors@) =~= supported_sensors());
        SystemReporter { config, sensors }
    }

    /// The topic the reports of this machine are published on.
    pub fn state_topic(&self) -> (r: String)
        ensures
            r@ == state_topic_of(self.config.program_name@, self.config.client_id@),
    {
        let mut t = String::new();
        t.append(self.config.program_name.as_str());
        t.append("/");
        t.append(self.config.client_id.as_str());
        t.append("/state");
        t
    }

    /// What to publish in a round: the latest report on the state topic,
    /// or nothing while no report has been made yet.
    pub fn state_message(&self, latest: Option<&SystemReport>) -> (r: Option<Publication>)
        ensures
            r is Some <==> latest is Some,
            r matches Some(p) ==> p.topic@ == state_topic_of(
                self.config.program_name@,
                self.config.client_id@,
            ) && p.payload@ == report_json(*latest->0),
    {
        match latest {
            Some(report) => Some(Publication { topic: self.state_topic(), payload: report.to_json() }),
            None => None,
        }
    }

    /// The unit the sensor is measured in.
    fn sensor_unit(&self, sensor: &str) -> (r: String)
        ensures
            r@ == sensor_unit_of(sensor@, self.config.memory_unit, self.config.storage_unit),
    {
        if cpu_sensor(sensor) {
            String::from_str("%")
        } else if network_sensor(sensor) {
            String::from_str("MB/s")
        } else if contains_str(sensor, "ram") {
            self.config.memory_unit.to_label_string()
        } else {
            self.config.storage_unit.to_label_string()
        }
    }

    /// The announcement of one sensor: its discovery topic and document.
    pub fn sensor_config(&self, sensor: &str) -> (r: Publication)
        ensures
            r.topic@ == config_topic_of(self.config.client_id@, sensor@),
            r.payload@ == sensor_config_json(
                self.config.program_name@,
                self.config.client_id@,
                self.config.memory_unit,
                self.config.storage_unit,
                sensor@,
            ),
    {
        let program = self.config.program_name.as_str();
        let client = self.config.client_id.as_str();

        let mut topic = String::from_str("homeassistant/sensor/");
        topic.append(client);
        topic.append("_");
        topic.append(sensor);
        topic.append("/config");

        let mut unique_id = String::from_str(client);
        unique_id.append("_");
        unique_id.append(sensor);

        let mut value_template = String::from_str("{{ value_json.");
        value_template.append(sensor);
        value_template.append(" }}");

        let state_topic = self.state_topic();
        let sensor_name = replace_underscores(sensor);
        let unit = self.sensor_unit(sensor);
        let device = device_document(program, client);

        let mut payload = String::from_str("{\"device\":");
        payload.append(device.as_str());
        payload.append(device_class_text(sensor).as_str());
        push_member(&mut payload, ",\"name\":", sensor_name.as_str());
        push_member(&mut payload, ",\"state_class\":", state_class_text(sensor));
        push_member(&mut payload, ",\"state_topic\":", state_topic.as_str());
        push_member(&mut payload, ",\"unique_id\":", unique_id.as_str());
        push_member(&mut payload, ",\"unit_of_measurement\":", unit.as_str());
        push_member(&mut payload, ",\"value_template\":", value_template.as_str());
        payload.append("}");
        Publication { topic, payload }
    }

    /// The announcements of all sensors, one per sensor and in their order;
    /// publishing them registers the machine with Home Assistant.
    pub fn register(&self) -> (r: Vec<Publication>)
        ensures
            r@.len() == self.sensors@.len(),
            forall|i: int|
                0 <= i < r@.len() ==> {
                    &&& (#[trigger] r@[i]).topic@ == config_topic_of(
                        self.config.client_id@,
                        self.sensors@[i]@,
                    )
                    &&& r@[i].payload@ == sensor_config_json(
                        self.config.program_name@,
                        self.config.client_id@,
                        self.config.memory_unit,
                        self.config.storage_unit,
                        self.sensors@[i]@,
                    )
                },
    {
        let mut out: Vec<Publication> = Vec::new();
        let n = self.sensors.len();
        let mut i: usize = 0;
        while i < n
            invariant
                n == self.sensors@.len(),
                i <= n,
                out@.len() == i,
                forall|k: int|
                    0 <= k < i ==> {
                        &&& (#[trigger] out@[k]).topic@ == config_topic_of(
                            self.config.client_id@,
                            self.sensors@[k]@,
                        )
                        &&& out@[k].payload@ == sensor_config_json(
                            self.config.program_name@,
                            self.config.client_id@,
                            self.config.memory_unit,
                            self.config.storage_unit,
                            self.sensors@[k]@,
                        )
                    },
            decreases n - i,
        {
            let p = self.sensor_config(self.sensors[i].as_str());
            out.push(p);
            i = i + 1;
        }
        out
    }
}

/// Whether the sensors are announced again before the report with this
/// count: on every hundredth report, never on the first.
pub open spec fn reregisters_at(count: u32) -> bool {
    count % 100 == 0 && count != 0
}

/// How many reports have been sent; decides when the sensors are announced
/// again (Home Assistant may lose their configuration).
pub struct ReportCycle {
    pub refresh_count: u32,
}

impl ReportCycle {
    /// The cycle before the first report.
    pub fn new() -> (r: Self)
        ensures
            r.refresh_count == 0,
    {
        ReportCycle { refresh_count: 0 }
    }

    /// Whether the sensors must be announced again in this round.
    pub fn reregister_due(&self) -> (r: bool)
        ensures
            r == reregisters_at(self.refresh_count),
    {
        self.refresh_count % 100 == 0 && self.refresh_count != 0
    }

    /// Ends a round: tells whether the sensors were due for announcing and
    /// counts the round.
    pub fn tick(&mut self) -> (reregister: bool)
        requires
            old(self).refresh_count < u32::MAX,
        ensures
            reregister == reregisters_at(old(self).refresh_count),
            final(self).refresh_count == old(self).refresh_count + 1,
    {
        let due = self.reregister_due();
        self.refresh_count = self.refresh_count + 1;
        due
    }
}

/// After the first round the announcements repeat every hundred rounds,
/// and no two announcements are less than a hundred rounds apart.
pub proof fn law_reregister_period(n: u32, k: u32)
    requires
        n >= 1,
        n as int + 100 <= u32::MAX,
        1 <= k < 100,
        n as int + k <= u32::MAX,
    ensures
        reregisters_at(n) == reregisters_at((n + 100) as u32),
        reregisters_at(n) ==> !reregisters_at((n + k) as u32),
{
}

/// The sensors measured in the memory unit: their name holds `ram` and they
/// are neither the CPU nor a traffic sensor.
pub open spec fn is_memory_sensor(sensor: Seq<char>) -> bool {
    contains_seq(sensor, "ram"@) && !is_cpu_sensor(sensor) && !is_network_sensor(sensor)
}

/// The size sensors measured in the storage unit.
pub open spec fn is_storage_sensor(sensor: Seq<char>) -> bool {
    !contains_seq(sensor, "ram"@) && !is_cpu_sensor(sensor) && !is_network_sensor(sensor)
}

/// Memory sensors are announced in the configured memory unit and storage
/// sensors in the configured storage unit, for every pair of units; the
/// other unit has no say.
pub proof fn law_size_sensors_use_their_unit(sensor: Seq<char>, memory: ByteUnit, storage: ByteUnit)
    ensures
        is_memory_sensor(sensor) ==> sensor_unit_of(sensor, memory, storage) == unit_label(memory),
        is_storage_sensor(sensor) ==> sensor_unit_of(sensor, memory, storage) == unit_label(
            storage,
        ),
{
}

/// The member of a discovery document that gives the unit.
pub open spec fn unit_member(unit: Seq<char>) -> Seq<char> {
    ",\"unit_of_measurement\":"@ + json_quoted(unit)
}

/// The announcement of every memory sensor carries the member
/// `"unit_of_measurement":"<memory unit>"`, and that of every storage sensor
/// the storage unit's, whatever the other unit is.
pub proof fn law_announced_unit(
    program: Seq<char>,
    client: Seq<char>,
    memory: ByteUnit,
    storage: ByteUnit,
    sensor: Seq<char>,
)
    ensures
        is_memory_sensor(sensor) ==> contains_seq(
            sensor_config_json(program, client, memory, storage, sensor),
            unit_member(unit_label(memory)),
        ),
        is_storage_sensor(sensor) ==> contains_seq(
            sensor_config_json(program, client, memory, storage, sensor),
            unit_member(unit_label(storage)),
        ),
{
    let unit = sensor_unit_of(sensor, memory, storage);
    let before = "{\"device\":"@ + device_json(program, client) + device_class_member(sensor)
        + ",\"name\":"@ + json_quoted(spaced(sensor)) + ",\"state_class\":"@ + json_quoted(
        state_class_of(sensor),
    ) + ",\"state_topic\":"@ + json_quoted(state_topic_of(program, client)) + ",\"unique_id\":"@
        + json_quoted(unique_id_of(client, sensor));
    let after = ",\"value_template\":"@ + json_quoted(value_template_of(sensor)) + "}"@;
    let doc = sensor_config_json(program, client, memory, storage, sensor);
    let m = unit_member(unit);
    assert(doc =~= before + m + after);
    assert(doc.subrange(before.len() as int, (before.len() + m.len()) as int) =~= m);
    assert(occurs_at(doc, m, before.len() as int));
}

/// How many of the rounds `0..n` announce the sensors again.
pub open spec fn announcements_in(n: nat) -> nat
    decreases n,
{
    if n == 0 {
        0
    } else {
        announcements_in((n - 1) as nat) + if reregisters_at((n - 1) as u32) {
            1nat
        } else {
            0nat
        }
    }
}

/// Over the first `n` rounds the sensors are announced again `(n - 1) / 100`
/// times: never in the first round, then once every hundred rounds.
pub proof fn law_announcement_count(n: nat)
    requires
        1 <= n <= u32::MAX as nat + 1,
    ensures
        announcements_in(n) == (n - 1) / 100,
    decreases n,
{
    if n > 1 {
        law_announcement_count((n - 1) as nat);
        let k = (n - 1) as nat;
        assert(((k - 1) as nat) / 100 + (if k % 100 == 0 { 1nat } else { 0nat }) == k / 100)
            by (nonlinear_arith)
            requires
                k >= 1,
        ;
        assert(k as u32 == k);
        assert(reregisters_at(k as u32) == (k % 100 == 0));
        assert(announcements_in(n) == announcements_in(k) + if reregisters_at(k as u32) {
            1nat
        } else {
            0nat
        });
    } else {
        assert(announcements_in(1) == announcements_in(0) + if reregisters_at(0u32) {
            1nat
        } else {
            0nat
        });
    }
}

/// How a report introduces the figure named `sensor`: `"<sensor>": `.
pub open spec fn report_key(sensor: Seq<char>) -> Seq<char> {
    "\""@ + sensor + "\": "@
}

/// A piece found in either part is found in the whole.
pub broadcast proof fn lemma_contains_concat(a: Seq<char>, b: Seq<char>, p: Seq<char>)
    ensures
        contains_seq(a, p) || contains_seq(b, p) ==> #[trigger] contains_seq(a + b, p),
{
    if contains_seq(a, p) {
        let i = choose|i: int| occurs_at(a, p, i);
        assert((a + b).subrange(i, i + p.len()) =~= a.subrange(i, i + p.len()));
        assert(occurs_at(a + b, p, i));
    } else if contains_seq(b, p) {
        let i = choose|i: int| occurs_at(b, p, i);
        assert((a + b).subrange(a.len() + i, a.len() + i + p.len()) =~= b.subrange(
            i,
            i + p.len(),
        ));
        assert(occurs_at(a + b, p, a.len() + i));
    }
}

proof fn lemma_line_holds_key(line: Seq<char>, sensor: Seq<char>, at: int)
    requires
        0 <= at,
        at + report_key(sensor).len() <= line.len(),
        line.subrange(at, at + report_key(sensor).len()) == report_key(sensor),
    ensures
        contains_seq(line, report_key(sensor)),
{
    assert(occurs_at(line, report_key(sensor), at));
}

/// Every sensor that is announced finds its figure in every report: the
/// value template `value_json.<sensor>` of each announced sensor names a
/// member that each published report holds.
pub proof fn law_reports_hold_every_sensor(report: SystemReport, i: int)
    requires
        0 <= i < supported_sensors().len(),
    ensures
        contains_seq(report_json(report), report_key(supported_sensors()[i])),
{
    broadcast use lemma_contains_concat;

    reveal_strlit("\"");
    reveal_strlit("\": ");
    reveal_strlit("ram_total");
    reveal_strlit("ram_usage");
    reveal_strlit("disk_total");
    reveal_strlit("disk_usage");
    reveal_strlit("cpu_usage");
    reveal_strlit("network_received");
    reveal_strlit("network_transmitted");
    reveal_strlit("{\n\"ram_total\": ");
    reveal_strlit(",\n\"ram_usage\": ");
    reveal_strlit(",\n\"disk_total\": ");
    reveal_strlit(",\n\"disk_usage\": ");
    reveal_strlit(",\n\"cpu_usage\": ");
    reveal_strlit(",\n\"network_received\": ");
    reveal_strlit(",\n\"network_transmitted\": ");
    let s = supported_sensors()[i];
    let k = report_key(s);
    if i == 0 {
        let l = "{\n\"ram_total\": "@;
        assert(l.subrange(2, 2 + k.len() as int) =~= k);
        lemma_line_holds_key(l, s, 2);
    } else if i == 1 {
        let l = ",\n\"ram_usage\": "@;
        assert(l.subrange(2, 2 + k.len() as int) =~= k);
        lemma_line_holds_key(l, s, 2);
    } else if i == 2 {
        let l = ",\n\"disk_total\": "@;
        assert(l.subrange(2, 2 + k.len() as int) =~= k);
        lemma_line_holds_key(l, s, 2);
    } else if i == 3 {
        let l = ",\n\"disk_usage\": "@;
        assert(l.subrange(2, 2 + k.len() as int) =~= k);
        lemma_line_holds_key(l, s, 2);
    } else if i == 4 {
        let l = ",\n\"cpu_usage\": "@;
        assert(l.subrange(2, 2 + k.len() as int) =~= k);
        lemma_line_holds_key(l, s, 2);
    } else if i == 5 {
        let l = ",\n\"network_received\": "@;
        assert(l.subrange(2, 2 + k.len() as int) =~= k);
        lemma_line_holds_key(l, s, 2);
    } else {
        let l = ",\n\"network_transmitted\": "@;
        assert(l.subrange(2, 2 + k.len() as int) =~= k);
        lemma_line_holds_key(l, s, 2);
    }
    assert(contains_seq(report_json(report), k));
}

} // verus!
