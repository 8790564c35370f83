# system_monitor

A host resource monitor that publishes memory, disk, CPU, network and GPU
figures to Home Assistant over MQTT.

- `src/` is the verified library: byte units, the discovery
  documents and state topics announced to Home Assistant, the published
  report text, the reporting cadence, disk and ZFS pool totals, network
  traffic accounting, GPU recognition from sysfs, and the text helpers
  they rest on.
- `app/` reads the machine (sysinfo, NVML, sysfs, `zpool`), formats the
  floating-point figures, and runs the measuring and publishing loops.
- `tests/` exercises the library on concrete values.
