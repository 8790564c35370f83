use serde_json::Value;
use system_monitor::models::SystemReport;
use system_monitor::reporter::{Config, ReportCycle, SystemReporter};
use system_monitor::units::ByteUnit;

fn config(program: &str, client: &str) -> Config {
    Config {
        program_name: program.to_string(),
        client_id: client.to_string(),
        storage_unit: ByteUnit::Terabyte,
        memory_unit: ByteUnit::Gigabyte,
        network_unit: ByteUnit::Megabyte,
        report_interval: 5,
    }
}

fn s(v: &str) -> Value {
    Value::String(v.to_string())
}

/// The discovery document built with serde_json's own object type, member by
/// member, the way a `json!` literal builds it.
fn expected_document(
    program: &str,
    client: &str,
    sensor: &str,
    device_class: Option<&str>,
    unit: &str,
    state_class: &str,
) -> String {
    let topic = format!("{}/{}/state", program, client);
    let device_name = format!("{} {}", program.replace('_', " "), client.replace('_', " "));
    let model_id = format!("{}_{}", program, client);
    let mut device = serde_json::Map::new();
    device.insert("name".to_string(), s(&device_name));
    device.insert("identifiers".to_string(), Value::Array(vec![s(&model_id)]));
    device.insert("manufacturer".to_string(), s(program));
    device.insert("model".to_string(), s(&model_id));
    let mut doc = serde_json::Map::new();
    if let Some(dc) = device_class {
        doc.insert("device_class".to_string(), s(dc));
    }
    doc.insert("state_topic".to_string(), s(&topic));
    doc.insert("unit_of_measurement".to_string(), s(unit));
    doc.insert(
        "value_template".to_string(),
        s(&format!("{{{{ value_json.{} }}}}", sensor)),
    );
    doc.insert("unique_id".to_string(), s(&format!("{}_{}", client, sensor)));
    doc.insert("name".to_string(), s(&sensor.replace('_', " ")));
    doc.insert("state_class".to_string(), s(state_class));
    doc.insert("device".to_string(), Value::Object(device));
    Value::Object(doc).to_string()
}

#[test]
fn new_reporter_announces_all_sensors() {
    let r = SystemReporter::new(config("system_monitor", "my_pc"));
    assert_eq!(
        r.sensors,
        vec![
            "ram_total",
            "ram_usage",
            "disk_total",
            "disk_usage",
            "cpu_usage",
            "network_received",
            "network_transmitted"
        ]
    );
    assert_eq!(r.config.client_id, "my_pc");
}

#[test]
fn state_topic_names_program_and_client() {
    let r = SystemReporter::new(config("system_monitor", "my_pc"));
    assert_eq!(r.state_topic(), "system_monitor/my_pc/state");
}

#[test]
fn cpu_sensor_document() {
    let r = SystemReporter::new(config("system_monitor", "my_pc"));
    let p = r.sensor_config("cpu_usage");
    assert_eq!(p.topic, "homeassistant/sensor/my_pc_cpu_usage/config");
    assert_eq!(
        p.payload,
        "{\"device\":{\"identifiers\":[\"system_monitor_my_pc\"],\"manufacturer\":\"system_monitor\",\"model\":\"system_monitor_my_pc\",\"name\":\"system monitor my pc\"},\"name\":\"cpu usage\",\"state_class\":\"measurement\",\"state_topic\":\"system_monitor/my_pc/state\",\"unique_id\":\"my_pc_cpu_usage\",\"unit_of_measurement\":\"%\",\"value_template\":\"{{ value_json.cpu_usage }}\"}"
    );
}

#[test]
fn documents_match_serde_json_objects() {
    let r = SystemReporter::new(config("system_monitor", "my_pc"));
    let msgs = r.register();
    assert_eq!(msgs.len(), 7);
    let expect = [
        ("ram_total", Some("data_size"), "GB", "total"),
        ("ram_usage", Some("data_size"), "GB", "total"),
        ("disk_total", Some("data_size"), "TB", "total"),
        ("disk_usage", Some("data_size"), "TB", "total"),
        ("cpu_usage", None, "%", "measurement"),
        ("network_received", Some("data_rate"), "MB/s", "measurement"),
        ("network_transmitted", Some("data_rate"), "MB/s", "measurement"),
    ];
    for (m, (sensor, dc, unit, sc)) in msgs.iter().zip(expect.iter()) {
        assert_eq!(m.topic, format!("homeassistant/sensor/my_pc_{}/config", sensor));
        assert_eq!(
            m.payload,
            expected_document("system_monitor", "my_pc", sensor, *dc, unit, sc)
        );
    }
}

#[test]
fn special_characters_are_escaped() {
    let r = SystemReporter::new(config("mon\"itor", "pc\\1\n"));
    let p = r.sensor_config("disk_usage");
    assert_eq!(
        p.payload,
        expected_document("mon\"itor", "pc\\1\n", "disk_usage", Some("data_size"), "TB", "total")
    );
    assert!(p.payload.contains("\"manufacturer\":\"mon\\\"itor\""));
    assert!(p.payload.contains("\"unique_id\":\"pc\\\\1\\n_disk_usage\""));
    let q = SystemReporter::new(config("a", "\u{1}")).sensor_config("cpu_usage");
    assert!(q.payload.contains("\"unique_id\":\"\\u0001_cpu_usage\""));
}

#[test]
fn storage_unit_for_sizes_memory_unit_for_ram() {
    let mut c = config("p", "c");
    c.memory_unit = ByteUnit::Kilobyte;
    c.storage_unit = ByteUnit::Byte;
    let r = SystemReporter::new(c);
    assert!(r.sensor_config("ram_usage").payload.contains("\"unit_of_measurement\":\"KB\""));
    assert!(r.sensor_config("disk_total").payload.contains("\"unit_of_measurement\":\"B\""));
    assert!(r.sensor_config("my_ram").payload.contains("\"unit_of_measurement\":\"KB\""));
}

#[test]
fn reregistration_every_hundred_rounds() {
    let mut cycle = ReportCycle::new();
    let mut due_at = Vec::new();
    for round in 0..350u32 {
        if cycle.tick() {
            due_at.push(round);
        }
    }
    assert_eq!(due_at, vec![100, 200, 300]);
    assert_eq!(cycle.refresh_count, 350);
}

#[test]
fn reregistration_is_not_due_at_start() {
    let cycle = ReportCycle::new();
    assert!(!cycle.reregister_due());
    let later = ReportCycle { refresh_count: 4200 };
    assert!(later.reregister_due());
}

fn base_report() -> SystemReport {
    SystemReport {
        ram_total: "31.2".to_string(),
        ram_usage: "7.5".to_string(),
        disk_total: "1.82".to_string(),
        disk_usage: "0.91".to_string(),
        cpu_usage: "12.5".to_string(),
        network_received: "0.12".to_string(),
        network_transmitted: "0.03".to_string(),
        gpu_vendor: None,
        gpu_mem_used: None,
        gpu_mem_total: None,
        gpu_usage: None,
    }
}

#[test]
fn report_without_gpu() {
    assert_eq!(
        base_report().to_json(),
        "{\n\"ram_total\": 31.2,\n\"ram_usage\": 7.5,\n\"disk_total\": 1.82,\n\"disk_usage\": 0.91,\n\"cpu_usage\": 12.5,\n\"network_received\": 0.12,\n\"network_transmitted\": 0.03\n}"
    );
}

#[test]
fn report_with_gpu() {
    let mut r = base_report();
    r.gpu_vendor = Some("NVIDIA".to_string());
    r.gpu_mem_used = Some("2.0".to_string());
    r.gpu_mem_total = Some("8.0".to_string());
    r.gpu_usage = Some("37.0".to_string());
    let text = r.to_json();
    assert!(text.ends_with(",\"gpu_vendor\": \"NVIDIA\",\"gpu_mem_used\": 2.0,\"gpu_mem_total\": 8.0,\"gpu_usage\": 37.0\n}"));
    let v: Value = serde_json::from_str(&text).unwrap();
    assert_eq!(v["gpu_vendor"], "NVIDIA");
    assert_eq!(v["gpu_usage"], 37.0);
}

#[test]
fn gpu_memory_needs_both_figures() {
    let mut r = base_report();
    r.gpu_mem_used = Some("2.0".to_string());
    let text = r.to_json();
    assert!(!text.contains("gpu_mem"));
    assert!(text.ends_with("0.03\n}"));
}

#[test]
fn every_announced_sensor_is_in_the_report() {
    let reporter = SystemReporter::new(config("p", "c"));
    let text = base_report().to_json();
    let v: Value = serde_json::from_str(&text).unwrap();
    for sensor in &reporter.sensors {
        assert!(v.get(sensor.as_str()).is_some(), "missing {}", sensor);
    }
}

#[test]
fn state_message_only_when_a_report_exists() {
    let reporter = SystemReporter::new(config("system_monitor", "my_pc"));
    assert!(reporter.state_message(None).is_none());
    let report = base_report();
    let m = reporter.state_message(Some(&report)).unwrap();
    assert_eq!(m.topic, "system_monitor/my_pc/state");
    assert_eq!(m.payload, report.to_json());
}

#[test]
fn announcement_count_over_rounds() {
    for n in [1u32, 2, 100, 101, 102, 201, 1000] {
        let mut cycle = ReportCycle::new();
        let mut count = 0u32;
        for _ in 0..n {
            if cycle.tick() {
                count += 1;
            }
        }
        assert_eq!(count, (n - 1) / 100, "rounds {}", n);
    }
}
