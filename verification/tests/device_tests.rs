use storage_bench::io::device::{
    describe_device, device_kind, device_size_from, first_known_size, link_description, names_nvme_namespace,
    sectors_to_bytes, skips_name, text_less, trimmed_string, Device, DeviceInfo, DeviceKind,
    DeviceList,
};

fn info(path: &str, size: u64) -> DeviceInfo {
    DeviceInfo {
        path: String::from(path),
        size,
        model: None,
        device_type: None,
        link_speed: None,
        link_status: None,
    }
}

#[test]
fn loop_ram_and_mapper_devices_are_skipped() {
    for name in ["loop0", "loop", "ram0", "ram15", "dm-0", "dm-12"].iter() {
        assert!(skips_name(name), "{}", name);
    }
    for name in ["sda", "nvme0n1", "vda", "md0", "dm", "lo", "", "xloop0", "sr0"].iter() {
        assert!(!skips_name(name), "{}", name);
    }
}

#[test]
fn nvme_namespaces_are_told_from_controllers() {
    for name in ["nvme0n1", "nvme0n1p1", "nvme10n2", "nvme1n1p12"].iter() {
        assert!(names_nvme_namespace(name), "{}", name);
    }
    for name in ["nvme0", "nvme1", "nvme", "nvme-fabrics", "sda", "", "nvm", "xnvme0n1"].iter() {
        assert!(!names_nvme_namespace(name), "{}", name);
    }
    // Six bytes make a name long enough, whatever it spells.
    assert!(names_nvme_namespace("nvme00"));
    assert!(!names_nvme_namespace("nvme0"));
    // Length counts bytes: four letters and one two-byte character are six.
    assert!(names_nvme_namespace("nvme\u{e9}"));
}

#[test]
fn sectors_are_turned_into_bytes() {
    assert_eq!(sectors_to_bytes("2048"), Some(1048576));
    assert_eq!(sectors_to_bytes("1\n"), Some(512));
    assert_eq!(sectors_to_bytes("  976773168\n"), Some(976773168 * 512));
    assert_eq!(sectors_to_bytes("0"), None);
    assert_eq!(sectors_to_bytes(""), None);
    assert_eq!(sectors_to_bytes("abc"), None);
    assert_eq!(sectors_to_bytes("-5"), None);
    assert_eq!(sectors_to_bytes("36028797018963967"), Some(36028797018963967 * 512));
    assert_eq!(sectors_to_bytes("36028797018963968"), None);
}

#[test]
fn device_size_comes_from_the_first_source_that_knows_it() {
    assert_eq!(device_size_from(Some("8\n"), Some("16\n"), Some(1), Some(2)), 4096);
    assert_eq!(device_size_from(Some("0\n"), Some("16\n"), Some(1), Some(2)), 8192);
    assert_eq!(device_size_from(None, Some("x"), Some(1000), Some(2)), 1000);
    assert_eq!(device_size_from(None, None, Some(0), Some(2)), 2);
    assert_eq!(device_size_from(None, None, None, Some(77)), 77);
    assert_eq!(device_size_from(None, None, None, Some(0)), 0);
    assert_eq!(device_size_from(None, None, None, None), 0);
    assert_eq!(device_size_from(Some(""), Some(""), Some(0), Some(0)), 0);
}

#[test]
fn kinds_of_devices_by_name() {
    assert_eq!(device_kind("nvme0n1"), DeviceKind::Nvme);
    assert_eq!(device_kind("nvme"), DeviceKind::Nvme);
    assert_eq!(device_kind("sda"), DeviceKind::Sata);
    assert_eq!(device_kind("vdb"), DeviceKind::Sata);
    assert_eq!(device_kind("xvda"), DeviceKind::Sata);
    assert_eq!(device_kind("md0"), DeviceKind::Other);
    assert_eq!(device_kind(""), DeviceKind::Other);
    assert_eq!(device_kind("s"), DeviceKind::Other);
}

#[test]
fn link_is_described_by_speed_and_width() {
    assert_eq!(link_description("8.0 GT/s PCIe\n", Some("4\n")), "8.0 GT/s PCIe x4");
    assert_eq!(link_description(" 16 GT/s ", None), "16 GT/s");
    assert_eq!(link_description("", Some("")), " x");
    assert_eq!(trimmed_string("  Samsung SSD 980 \n"), "Samsung SSD 980");
    assert_eq!(trimmed_string(""), "");
}

#[test]
fn devices_are_described_by_kind() {
    let nvme = describe_device(
        "nvme0n1",
        String::from("/dev/nvme0n1"),
        1 << 40,
        Some(" Fast Disk \n"),
        Some("8.0 GT/s\n"),
        Some("4\n"),
    );
    assert_eq!(nvme.path, "/dev/nvme0n1");
    assert_eq!(nvme.size, 1 << 40);
    assert_eq!(nvme.device_type.as_deref(), Some("NVMe"));
    assert_eq!(nvme.model.as_deref(), Some("Fast Disk"));
    assert_eq!(nvme.link_speed.as_deref(), Some("8.0 GT/s x4"));
    assert_eq!(nvme.link_status, None);
    let nvme = describe_device("nvme1n1", String::from("/dev/nvme1n1"), 5, None, None, Some("4"));
    assert_eq!(nvme.model, None);
    assert_eq!(nvme.link_speed, None);
    let sata = describe_device("sda", String::from("/dev/sda"), 9, Some("Disk\n"), Some("x"), None);
    assert_eq!(sata.device_type.as_deref(), Some("SATA/SAS"));
    assert_eq!(sata.model.as_deref(), Some("Disk"));
    assert_eq!(sata.link_speed, None);
    let other = describe_device("md0", String::from("/dev/md0"), 9, Some("Disk"), Some("x"), None);
    assert_eq!(other.device_type, None);
    assert_eq!(other.model, None);
    assert_eq!(other.link_speed, None);
}

#[test]
fn device_handle_keeps_what_it_was_given() {
    let device = Device::new(String::from("/dev/nvme0n1"), 7, 1 << 33);
    assert_eq!(device.as_raw_fd(), 7);
    assert_eq!(device.path(), "/dev/nvme0n1");
    assert_eq!(device.size(), 1 << 33);
    let info = device.info(Some("Model X\n"), None, None);
    assert_eq!(info.path, "/dev/nvme0n1");
    assert_eq!(info.size, 1 << 33);
    assert_eq!(info.device_type.as_deref(), Some("NVMe"));
    assert_eq!(info.model.as_deref(), Some("Model X"));
}

#[test]
fn texts_are_ordered_as_in_a_dictionary() {
    let words = ["", "a", "ab", "abc", "b", "/dev/sda", "/dev/sdb", "/dev/sda1", "Z", "\u{e9}", "z"];
    for a in words.iter() {
        for b in words.iter() {
            let x: Vec<char> = a.chars().collect();
            let y: Vec<char> = b.chars().collect();
            assert_eq!(text_less(&x, &y), a < b, "{:?} {:?}", a, b);
        }
    }
}

#[test]
fn device_list_filters_and_sorts() {
    let mut list = DeviceList::new();
    assert!(list.add_block_device("sdb", info("/dev/sdb", 100)));
    assert!(!list.add_block_device("loop0", info("/dev/loop0", 100)));
    assert!(!list.add_block_device("sdc", info("/dev/sdc", 0)));
    assert!(list.add_block_device("nvme0n1", info("/dev/nvme0n1", 300)));
    assert!(list.add_block_device("sda", info("/dev/sda", 200)));
    // A namespace that the block list already gave is not taken twice.
    assert!(!list.add_device_node("nvme0n1", info("/dev/nvme0n1", 300)));
    assert!(list.add_device_node("nvme0n1p1", info("/dev/nvme0n1p1", 50)));
    assert!(!list.add_device_node("nvme0", info("/dev/nvme0", 50)));
    assert!(!list.add_device_node("nvme1n1", info("/dev/nvme1n1", 0)));
    assert!(!list.add_device_node("sdz", info("/dev/sdz", 50)));
    let devices = list.finish();
    let paths: Vec<&str> = devices.iter().map(|d| d.path.as_str()).collect();
    assert_eq!(paths, vec!["/dev/nvme0n1", "/dev/nvme0n1p1", "/dev/sda", "/dev/sdb"]);
    let sizes: Vec<u64> = devices.iter().map(|d| d.size).collect();
    assert_eq!(sizes, vec![300, 50, 200, 100]);
    assert!(DeviceList::new().finish().is_empty());
}

#[test]
fn sorting_devices_agrees_with_the_standard_sort() {
    let names = ["sdq", "sda", "nvme9n1", "nvme10n1", "vdb", "sda1", "sd", "xvda", "sda"];
    let mut list = DeviceList::new();
    let mut expected: Vec<(String, u64)> = Vec::new();
    for (k, name) in names.iter().enumerate() {
        let path = format!("/dev/{}", name);
        assert!(list.add_block_device(name, info(&path, k as u64 + 1)));
        expected.push((path, k as u64 + 1));
    }
    expected.sort_by(|a, b| a.0.cmp(&b.0));
    let sorted: Vec<(String, u64)> = list.finish().into_iter().map(|d| (d.path, d.size)).collect();
    assert_eq!(sorted, expected);
}

#[test]
fn first_known_size_skips_unknown_and_zero() {
    assert_eq!(first_known_size(&vec![]), 0);
    assert_eq!(first_known_size(&vec![None, Some(0), Some(9), Some(4)]), 9);
    assert_eq!(first_known_size(&vec![Some(3), None]), 3);
    assert_eq!(first_known_size(&vec![None, Some(0)]), 0);
}
