use usb_station::domain::iso::{BootMode, IsoImage};
use usb_station::service::iso::{to_hex_lower, IsoService};

fn s(x: Option<String>) -> Option<&'static str> {
    x.map(|v| &*Box::leak(v.into_boxed_str()))
}

#[test]
fn detects_system_and_version() {
    let (os, ver) = IsoService::detect_os_from_filename("ubuntu-22.04.3-desktop-amd64.iso");
    assert_eq!(s(os), Some("Ubuntu"));
    assert_eq!(s(ver), Some("22.04.3"));
    let (os, ver) = IsoService::detect_os_from_filename("Debian_12_1.ISO");
    assert_eq!(s(os), Some("Debian"));
    assert_eq!(s(ver), Some("12.1"));
    let (os, ver) = IsoService::detect_os_from_filename("proxmox-ve_8.1-1.iso");
    assert_eq!(s(os), Some("Proxmox VE"));
    assert_eq!(s(ver), Some("8.1.1"));
    let (os, ver) = IsoService::detect_os_from_filename("archlinux-2024.01.01-x86_64.iso");
    assert_eq!(s(os), Some("Arch Linux"));
    assert_eq!(s(ver), Some("2024.01.01"));
}

#[test]
fn first_keyword_in_table_order_wins() {
    // "ubuntu" comes before "mint" in the table.
    let (os, _) = IsoService::detect_os_from_filename("mint-vs-ubuntu.img");
    assert_eq!(s(os), Some("Ubuntu"));
    let (os, ver) = IsoService::detect_os_from_filename("linuxmint-21.2-cinnamon-64bit.iso");
    assert_eq!(s(os), Some("Linux Mint"));
    assert_eq!(s(ver), Some("21.2"));
}

#[test]
fn unknown_system_gives_nothing() {
    let (os, ver) = IsoService::detect_os_from_filename("holiday-2023-10.iso");
    assert!(os.is_none());
    assert!(ver.is_none());
    let (os, ver) = IsoService::detect_os_from_filename("Windows10.iso");
    assert_eq!(s(os), Some("Windows"));
    assert!(ver.is_none());
}

#[test]
fn version_extraction() {
    assert_eq!(IsoService::extract_version("fedora-39_1-x").as_deref(), Some("39.1"));
    assert_eq!(IsoService::extract_version("v1-2-3-4").as_deref(), Some("1.2.3"));
    assert_eq!(IsoService::extract_version("no digits"), None);
    assert_eq!(IsoService::version_from_match(None), None);
    assert_eq!(
        IsoService::version_from_match(Some(vec![Some("7_0-1".to_string())])).as_deref(),
        Some("7.0.1")
    );
}

#[test]
fn categories() {
    assert_eq!(IsoService::guess_category(Some("iso")).as_deref(), Some("ISO Image"));
    assert_eq!(IsoService::guess_category(Some("img")).as_deref(), Some("Disk Image"));
    assert_eq!(IsoService::guess_category(Some("raw")).as_deref(), Some("Raw Image"));
    assert_eq!(IsoService::guess_category(Some("bin")).as_deref(), Some("Binary Image"));
    assert_eq!(IsoService::guess_category(Some("xz")).as_deref(), Some("Compressed Image"));
    assert_eq!(IsoService::guess_category(Some("gz")).as_deref(), Some("Compressed Image"));
    assert_eq!(IsoService::guess_category(Some("zip")), None);
    assert_eq!(IsoService::guess_category(Some("ISO")), None);
    assert_eq!(IsoService::guess_category(None), None);
}

#[test]
fn sha256_of_content() {
    assert_eq!(
        IsoService::sha256_hex(b"abc"),
        "ba7816bf8f01cfea414140de5dae2223b00361a396177a9cb410ff61f20015ad"
    );
    assert_eq!(
        IsoService::sha256_hex(b""),
        "e3b0c44298fc1c149afbf4c8996fb92427ae41e4649b934ca495991b7852b855"
    );
    assert_eq!(to_hex_lower(&[0x0a, 0x14, 0x1e, 0xff]), "0a141eff");
}

#[test]
fn directory_entries() {
    let img: IsoImage = IsoService::image_from_entry(
        Some("Ubuntu-24.04-live.ISO"),
        Some("ISO"),
        "/storage/iso/Ubuntu-24.04-live.ISO".to_string(),
        123,
    )
    .unwrap();
    assert_eq!(img.filename, "Ubuntu-24.04-live.ISO");
    assert_eq!(img.file_path, "/storage/iso/Ubuntu-24.04-live.ISO");
    assert_eq!(img.file_size_bytes, 123);
    assert_eq!(img.category.as_deref(), Some("ISO Image"));
    assert_eq!(img.detected_os.as_deref(), Some("Ubuntu"));
    assert_eq!(img.detected_version.as_deref(), Some("24.04"));
    assert_eq!(img.boot_mode, Some(BootMode::Unknown));
    assert!(img.tags.is_empty());
    assert!(!img.is_favorite);
    assert_eq!(img.scanned_at, Some(img.created_at));
    assert!(IsoService::image_from_entry(Some("notes.txt"), Some("txt"), "/x".to_string(), 1).is_none());
    assert!(IsoService::image_from_entry(Some("pack.zip"), Some("zip"), "/x".to_string(), 1).is_none());
    assert!(IsoService::image_from_entry(Some("README"), None, "/x".to_string(), 1).is_none());
    let unnamed = IsoService::image_from_entry_at(3, 9, None, Some("img"), "/y".to_string(), 5).unwrap();
    assert_eq!(unnamed.filename, "unknown");
    assert_eq!(unnamed.id, 3);
    assert_eq!(unnamed.created_at, 9);
    assert!(unnamed.detected_os.is_none());
}

#[test]
fn fits_on_needs_a_larger_device() {
    let img = IsoService::image_from_entry_at(1, 0, Some("a.iso"), Some("iso"), "/a.iso".to_string(), 100).unwrap();
    assert!(img.fits_on(101));
    assert!(!img.fits_on(100));
}
