use usb_station::domain::usb::DiskHealth;
use usb_station::service::usb::UsbService;

const MOUNTS: &str = "sysfs /sys sysfs rw,nosuid 0 0\n/dev/sda1 / ext4 rw,relatime 0 0\n/dev/sdb1 /media/usb vfat rw 0 0\r\n  /dev/sdc1\t/var/lib/docker  xfs rw 0 0\n/dev/sdd\n";

fn mounts() -> Vec<(String, String)> {
    UsbService::parse_mounts(MOUNTS)
}

#[test]
fn parses_proc_mounts() {
    assert_eq!(
        mounts(),
        vec![
            ("/dev/sda1".to_string(), "/".to_string()),
            ("/dev/sdb1".to_string(), "/media/usb".to_string()),
            ("/dev/sdc1".to_string(), "/var/lib/docker".to_string()),
        ]
    );
    assert!(UsbService::parse_mounts("").is_empty());
}

#[test]
fn mount_point_and_filesystem() {
    let m = mounts();
    assert_eq!(UsbService::mount_point_of(&m, "/dev/sdb1").as_deref(), Some("/media/usb"));
    assert_eq!(UsbService::mount_point_of(&m, "/dev/sdb"), None);
    assert_eq!(UsbService::filesystem_of(MOUNTS, "/dev/sdb1").as_deref(), Some("vfat"));
    assert_eq!(UsbService::filesystem_of(MOUNTS, "/dev/sdd"), None);
    assert_eq!(UsbService::filesystem_of(MOUNTS, "sysfs").as_deref(), Some("sysfs"));
}

#[test]
fn system_disks() {
    let m = mounts();
    assert!(UsbService::is_system_disk("sda", &vec![]));
    assert!(UsbService::is_system_disk("nvme0n1", &vec![]));
    assert!(UsbService::is_system_disk("mmcblk0p1", &vec![]));
    assert!(UsbService::is_system_disk("sdc", &m));
    assert!(!UsbService::is_system_disk("sdb", &m));
    let boot = vec![("/dev/sde2".to_string(), "/boot/efi".to_string())];
    assert!(UsbService::is_system_disk("sde", &boot));
    let plain = vec![("/dev/sde2".to_string(), "/bootstrap".to_string())];
    assert!(!UsbService::is_system_disk("sde", &plain));
}

#[test]
fn listed_devices() {
    assert!(UsbService::is_listed_device("sdb", Some("1\n")));
    assert!(UsbService::is_listed_device("nvme1n1", Some(" 1 ")));
    assert!(!UsbService::is_listed_device("sdb", Some("0\n")));
    assert!(!UsbService::is_listed_device("sdb", None));
    assert!(!UsbService::is_listed_device("loop0", Some("1")));
}

#[test]
fn device_names_from_paths() {
    assert_eq!(UsbService::device_names("/dev/sdb1"), Some(("sdb1".to_string(), "sdb".to_string())));
    assert_eq!(UsbService::device_names("/dev/sdb"), Some(("sdb".to_string(), "sdb".to_string())));
    assert_eq!(
        UsbService::device_names("/dev/nvme0n1p2"),
        Some(("nvme0n1p2".to_string(), "nvme0n".to_string()))
    );
    assert_eq!(UsbService::device_names("/dev//dev/sdc"), Some(("sdc".to_string(), "sdc".to_string())));
    assert_eq!(UsbService::device_names("/dev/"), None);
    assert_eq!(UsbService::device_names("/dev/disk/by-id"), None);
    assert_eq!(UsbService::device_names("sdf3"), Some(("sdf3".to_string(), "sdf".to_string())));
}

#[test]
fn device_info_defaults() {
    let info = UsbService::device_info("/dev/sdb", Some("1024\n"), None, Some("1\n"), Some(" Kingston "), None, Some("XYZ\n"), Some("0"));
    assert_eq!(info.device_path, "/dev/sdb");
    assert_eq!(info.size_sectors, 1024);
    assert_eq!(info.sector_size, 512);
    assert!(info.is_removable);
    assert!(!info.is_readonly);
    assert_eq!(info.vendor.as_deref(), Some("Kingston"));
    assert_eq!(info.model, None);
    assert_eq!(info.serial.as_deref(), Some("XYZ"));
    let info = UsbService::device_info("/dev/sdc", Some("junk"), Some("4096"), None, None, None, None, Some("1"));
    assert_eq!(info.size_sectors, 0);
    assert_eq!(info.sector_size, 4096);
    assert!(!info.is_removable);
    assert!(info.is_readonly);
}

#[test]
fn device_records() {
    let m = mounts();
    assert_eq!(UsbService::sectors_from_text(Some(" 2048\n")), Some(2048));
    assert_eq!(UsbService::sectors_from_text(Some("x")), None);
    assert_eq!(UsbService::sectors_from_text(None), None);
    let d = UsbService::device_record(1, 2, "sdb", Some(2048), Some("SanDisk \n"), Some("Cruzer"), None, &m, Some(MOUNTS));
    assert_eq!(d.device_path, "/dev/sdb");
    assert_eq!(d.capacity_bytes, 2048 * 512);
    assert_eq!(d.vendor.as_deref(), Some("SanDisk"));
    assert!(!d.is_mounted);
    assert_eq!(d.mount_point, None);
    assert_eq!(d.filesystem, None);
    assert!(!d.is_system_disk);
    assert_eq!(d.health, DiskHealth::Good);
    assert_eq!((d.id, d.inserted_at, d.updated_at), (1, 2, 2));
    let d = UsbService::new_device("sda1", None, None, None, None, &m, Some(MOUNTS));
    assert_eq!(d.capacity_bytes, 0);
    assert!(d.is_mounted);
    assert_eq!(d.mount_point.as_deref(), Some("/"));
    assert_eq!(d.filesystem.as_deref(), Some("ext4"));
    assert!(d.is_system_disk);
    assert_eq!((d.id >> 76) & 0xf, 4);
}
