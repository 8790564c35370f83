use system_monitor::gpu::{
    card_vendor, find_card, is_drm_card_name, is_virtual_vendor, gpu_search_start, gpu_search_step, read_counter, GpuSearch,
    GpuVendor,
};
use system_monitor::network::{total_traffic, NetworkInfo, TrafficCounters};
use system_monitor::storage::{is_zfs, storage_totals, zpool_usage, DiskEntry};

fn disk(fs: &str, total: u64, available: u64) -> DiskEntry {
    DiskEntry { file_system: fs.to_string(), total_space: total, available_space: available }
}

#[test]
fn zfs_names_in_any_case() {
    assert!(is_zfs("zfs"));
    assert!(is_zfs("ZFS"));
    assert!(is_zfs("zFs"));
    assert!(!is_zfs("zfs "));
    assert!(!is_zfs("ext4"));
    assert!(!is_zfs("zf"));
}

#[test]
fn disks_sharing_a_capacity_count_once() {
    let disks = vec![
        disk("ext4", 1000, 400),
        disk("vfat", 1000, 900),
        disk("zfs", 5000, 1),
        disk("xfs", 300, 100),
    ];
    let info = storage_totals(&disks, 0, 0).unwrap();
    assert_eq!(info.total, 1300);
    assert_eq!(info.used, 100 + 200);
}

#[test]
fn zfs_data_sets_are_replaced_by_pools() {
    let disks = vec![disk("ZFS", 7000, 1000), disk("ext4", 100, 40)];
    let info = storage_totals(&disks, 9000, 2500).unwrap();
    assert_eq!(info.total, 9100);
    assert_eq!(info.used, 2560);
}

#[test]
fn no_disks_only_pools() {
    let info = storage_totals(&Vec::new(), 0, 0).unwrap();
    assert_eq!(info.total, 0);
    assert_eq!(info.used, 0);
}

#[test]
fn zpool_listing_is_summed() {
    let out = "tank\t1000\t250\t750\t-\t-\t1%\t25%\t1.00x\tONLINE\t-\nrpool\t2000\t500\t1500\r\n";
    assert_eq!(zpool_usage(out), Some((3000, 750)));
}

#[test]
fn zpool_lines_without_numbers_are_skipped() {
    let out = "tank\tbig\t250\nshort\t1\ngood\t10\t5\n\n  \t7\t8";
    assert_eq!(zpool_usage(out), Some((17, 13)));
    assert_eq!(zpool_usage(""), Some((0, 0)));
    assert_eq!(zpool_usage("a\t+4\t 2\n"), Some((0, 0)));
    assert_eq!(zpool_usage("a\t+4\t2\n"), Some((4, 2)));
}

#[test]
fn traffic_is_summed_over_interfaces() {
    let ifs = vec![
        NetworkInfo { received: 10, transmitted: 1 },
        NetworkInfo { received: 20, transmitted: 2 },
        NetworkInfo { received: 30, transmitted: 3 },
    ];
    let t = total_traffic(&ifs).unwrap();
    assert_eq!((t.received, t.transmitted), (60, 6));
    let none = total_traffic(&Vec::new()).unwrap();
    assert_eq!((none.received, none.transmitted), (0, 0));
}

#[test]
fn traffic_growth_between_readings() {
    let mut c = TrafficCounters::new(NetworkInfo { received: 100, transmitted: 50 });
    let d = c.advance(NetworkInfo { received: 160, transmitted: 50 });
    assert_eq!(d.received, Some(60));
    assert_eq!(d.transmitted, Some(0));
    let d = c.advance(NetworkInfo { received: 10, transmitted: 70 });
    assert_eq!(d.received, None);
    assert_eq!(d.transmitted, Some(20));
    assert_eq!((c.last_received, c.last_transmitted), (10, 70));
}

#[test]
fn vendor_files_are_recognised() {
    assert_eq!(card_vendor("0x1002\n"), Some(GpuVendor::Amd));
    assert_eq!(card_vendor("  0x8086 "), Some(GpuVendor::Intel));
    assert_eq!(card_vendor("0x10de\n"), None);
    assert_eq!(card_vendor("0x1af4\n"), None);
    assert_eq!(card_vendor("0x1002x"), None);
    assert!(is_virtual_vendor("0x15ad"));
    assert!(is_virtual_vendor("0x80ee"));
    assert!(!is_virtual_vendor("0x1002"));
    assert_eq!(GpuVendor::Nvidia.name(), "NVIDIA");
    assert_eq!(GpuVendor::Amd.name(), "AMD");
    assert_eq!(GpuVendor::Intel.name(), "Intel");
}

#[test]
fn only_cards_are_scanned() {
    assert!(is_drm_card_name("card0"));
    assert!(is_drm_card_name("card12"));
    assert!(!is_drm_card_name("card1-HDMI-A-1"));
    assert!(!is_drm_card_name("card0-DP-1"));
    assert!(!is_drm_card_name("card0 "));
    assert!(is_drm_card_name("card007"));
    assert!(!is_drm_card_name("renderD128"));
    assert!(!is_drm_card_name("card"));
    assert!(!is_drm_card_name("cardX"));
    assert!(!is_drm_card_name("version"));
}

#[test]
fn first_matching_card_is_chosen() {
    let files = vec![
        None,
        Some("0x1234\n".to_string()),
        Some("0x8086\n".to_string()),
        Some("0x1002\n".to_string()),
        Some("0x1002\n".to_string()),
    ];
    assert_eq!(find_card(&files, GpuVendor::Amd), Some(3));
    assert_eq!(find_card(&files, GpuVendor::Intel), Some(2));
    assert_eq!(find_card(&files, GpuVendor::Nvidia), None);
    assert_eq!(find_card(&Vec::new(), GpuVendor::Amd), None);
}

#[test]
fn counters_are_read_as_numbers() {
    assert_eq!(read_counter("8573157376\n"), Some(8573157376));
    assert_eq!(read_counter(" 42 "), Some(42));
    assert_eq!(read_counter("n/a"), None);
    assert_eq!(read_counter("12.5\n"), None);
}

#[test]
fn sums_that_do_not_fit_are_refused() {
    let big = u64::MAX / 2 + 1;
    assert!(total_traffic(&vec![
        NetworkInfo { received: big, transmitted: 0 },
        NetworkInfo { received: big, transmitted: 0 },
    ])
    .is_none());
    let out = format!("a\t{}\t1\nb\t{}\t1\n", big, big);
    assert_eq!(zpool_usage(&out), None);
    assert!(storage_totals(&vec![disk("ext4", big, 0), disk("xfs", big + 1, 0)], 0, 0).is_none());
    assert!(storage_totals(&vec![disk("ext4", 10, 0)], u64::MAX, 0).is_none());
}

#[test]
fn more_free_than_capacity_is_refused() {
    assert!(storage_totals(&vec![disk("ext4", 10, 11)], 0, 0).is_none());
    // a disk that another one stands for is never subtracted
    let info = storage_totals(&vec![disk("ext4", 10, 11), disk("xfs", 10, 4)], 0, 0).unwrap();
    assert_eq!((info.total, info.used), (10, 6));
}

#[test]
fn vendors_are_probed_in_order() {
    let mut seen = Vec::new();
    let mut search = gpu_search_start();
    while let GpuSearch::Probe(v) = search {
        seen.push(v);
        search = gpu_search_step(v, false);
    }
    assert_eq!(seen, vec![GpuVendor::Nvidia, GpuVendor::Amd, GpuVendor::Intel]);
    assert_eq!(search, GpuSearch::NotFound);
}

#[test]
fn search_stops_at_first_gpu_found() {
    let present = [GpuVendor::Amd, GpuVendor::Intel];
    let mut probed = Vec::new();
    let mut search = gpu_search_start();
    while let GpuSearch::Probe(v) = search {
        probed.push(v);
        search = gpu_search_step(v, present.contains(&v));
    }
    assert_eq!(search, GpuSearch::Found(GpuVendor::Amd));
    assert_eq!(probed, vec![GpuVendor::Nvidia, GpuVendor::Amd]);
    assert_eq!(gpu_search_step(GpuVendor::Nvidia, true), GpuSearch::Found(GpuVendor::Nvidia));
}

#[test]
fn zfs_entries_in_any_case_do_not_change_totals() {
    let base = vec![disk("ext4", 1000, 400), disk("xfs", 300, 100)];
    let with_zfs = vec![
        disk("ZFS", 1000, 0),
        disk("ext4", 1000, 400),
        disk("zfs", 300, 300),
        disk("xfs", 300, 100),
        disk("Zfs", 77, 99),
    ];
    let a = storage_totals(&base, 50, 20).unwrap();
    let b = storage_totals(&with_zfs, 50, 20).unwrap();
    assert_eq!((a.total, a.used), (b.total, b.used));
}
