use dogky::cpu::{clean_cpu_model, memory_frequency, package_temperature, parse_cpu_range, remove_occurrences, SensorError, SensorReading};
use dogky::disk::{disk_model, find_disk, parse_millidegrees, DiskSpace};

fn sensor(label: &str, t: Option<i64>) -> SensorReading {
    SensorReading { label: label.to_string(), millidegrees: t }
}

#[test]
fn package_temperature_by_label() {
    let label = "coretemp Package id 0".to_string();
    let sensors = vec![
        sensor("acpitz temp1", Some(27_800)),
        sensor("coretemp Package id 0", Some(45_000)),
        sensor("coretemp Package id 0", Some(99_000)),
    ];
    assert!(matches!(package_temperature(&sensors, &label), Ok(45_000)));
    assert!(matches!(package_temperature(&vec![sensor("nvme Composite", Some(1))], &label), Err(SensorError::LabelNotFound)));
    assert!(matches!(package_temperature(&vec![sensor("coretemp Package id 0", None)], &label), Err(SensorError::NoReading)));
}

#[test]
fn cpu_model_marks_removed() {
    assert_eq!(clean_cpu_model("Intel(R) Core(TM) i7-8700K CPU @ 3.70GHz"), "Intel Core i7-8700K CPU @ 3.70GHz");
    assert_eq!(clean_cpu_model("AMD Ryzen 9 5950X 16-Core Processor!"), "AMD Ryzen 9 5950X 16-Core Processor");
    assert_eq!(remove_occurrences("aaa", "aa"), "a");
    assert_eq!(remove_occurrences("", "x"), "");
}

#[test]
fn cpu_range_from_sysfs() {
    assert_eq!(parse_cpu_range("0-15\n"), Some((0, 15)));
    assert_eq!(parse_cpu_range("0-7,16-23\n"), Some((0, 7)));
    assert_eq!(parse_cpu_range("x12-3"), Some((12, 3)));
    assert_eq!(parse_cpu_range("4,5 6-"), None);
    assert_eq!(parse_cpu_range(""), None);
    assert_eq!(parse_cpu_range("99999999999999999999-1"), None);
}

#[test]
fn memory_frequency_from_listing() {
    let listing = "  *-bank:0\n       size: 16GiB\n       clock: 3200MHz (0.3ns)\n       description: DIMM DDR4 Synchronous 3200 MHz (0.3 ns)\n";
    assert_eq!(memory_frequency(listing), Some("3200 MHz".to_string()));
    assert_eq!(memory_frequency("no clock here MHz"), None);
    assert_eq!(memory_frequency("a12 MHz"), Some("12 MHz".to_string()));
}

#[test]
fn disk_model_from_properties() {
    let props = "DEVNAME=/dev/nvme0n1\nID_MODEL_ID=0x1234\nID_MODEL=Samsung_SSD_970_EVO_Plus_1TB\r\nID_SERIAL=x\n";
    assert_eq!(disk_model(props, "/dev/nvme0n1").ok(), Some("Samsung SSD 970 EVO Plus 1TB".to_string()));
    assert_eq!(disk_model("ID_MODEL=\nID_MODEL=WD_Blue", "/dev/sda").ok(), Some("WD Blue".to_string()));
    assert_eq!(
        disk_model("DEVNAME=/dev/sdz\n", "/dev/sdz").err(),
        Some("Specified device path /dev/sdz does not exist".to_string())
    );
    assert!(disk_model("XID_MODEL=a", "/dev/sda").is_err());
}

#[test]
fn temperature_file_parsing() {
    assert_eq!(parse_millidegrees("38850\n"), Some(38850));
    assert_eq!(parse_millidegrees("-1200\r\nrest"), Some(-1200));
    assert_eq!(parse_millidegrees("+7"), Some(7));
    assert_eq!(parse_millidegrees("2147483648"), None);
    assert_eq!(parse_millidegrees("-2147483648"), Some(i32::MIN));
    assert_eq!(parse_millidegrees("12a"), None);
    assert_eq!(parse_millidegrees("-"), None);
    assert_eq!(parse_millidegrees(""), None);
}

#[test]
fn disk_by_mount_point() {
    let disks = vec![
        DiskSpace { mount_point: "/boot".to_string(), total_space: 1, available_space: 1 },
        DiskSpace { mount_point: "/".to_string(), total_space: 100, available_space: 40 },
    ];
    assert_eq!(find_disk(&disks, &"/".to_string()), Some(1));
    assert_eq!(find_disk(&disks, &"/home".to_string()), None);
    assert_eq!(disks[1].used_space(), 60);
    let odd = DiskSpace { mount_point: "/x".to_string(), total_space: 5, available_space: 9 };
    assert_eq!(odd.used_space(), 0);
}
