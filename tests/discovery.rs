use jockey::discovery::{
    get_sender_info, registry_paths, sender_list_regions, sender_regions, DiscoverySnapshot,
    RegistryEntry,
};
use jockey::record::{
    list_sender_names, read_individual_sender, read_u32_le, scan_sender_list, SenderInfo,
    MAX_SENDERS, SLOT_SIZE, TEXTURE_INFO_SIZE,
};

fn put_u32(buf: &mut [u8], at: usize, v: u32) {
    buf[at..at + 4].copy_from_slice(&v.to_le_bytes());
}

fn write_slot(table: &mut [u8], k: usize, name: &str, w: u32, h: u32, handle: u32) {
    let base = k * SLOT_SIZE;
    table[base..base + 256].fill(0);
    table[base..base + name.len()].copy_from_slice(name.as_bytes());
    put_u32(table, base + 256, w);
    put_u32(table, base + 260, h);
    put_u32(table, base + 264, handle);
}

fn table_with(records: &[(&str, u32, u32, u32)]) -> Vec<u8> {
    let mut t = vec![0u8; MAX_SENDERS * SLOT_SIZE];
    for (k, (n, w, h, handle)) in records.iter().enumerate() {
        write_slot(&mut t, k, n, *w, *h, *handle);
    }
    t
}

fn region_with(w: u32, h: u32, handle: u32) -> Vec<u8> {
    let mut r = vec![0u8; TEXTURE_INFO_SIZE];
    put_u32(&mut r, 0, w);
    put_u32(&mut r, 4, h);
    put_u32(&mut r, 16, handle);
    r
}

fn snapshot(lists: Vec<Option<Vec<u8>>>, regions: Vec<Option<Vec<u8>>>, registry: Vec<RegistryEntry>) -> DiscoverySnapshot {
    DiscoverySnapshot { sender_lists: lists, sender_regions: regions, registry }
}

fn no_registry() -> Vec<RegistryEntry> {
    vec![RegistryEntry { width: None, height: None, handle: None }; 2]
}

#[test]
fn cam1_found_and_cam2_missing() {
    let t = table_with(&[("Cam1", 640, 480, 0xABCD)]);
    let s = snapshot(vec![Some(t), None], vec![None, None, None], no_registry());
    assert_eq!(
        get_sender_info("Cam1", &s),
        Some(SenderInfo { width: 640, height: 480, handle: 0xABCD })
    );
    assert_eq!(get_sender_info("Cam2", &s), None);
}

#[test]
fn valid_records_are_found_exactly() {
    let t = table_with(&[("A", 1, 1, 1), ("Second sender", 8192, 8192, 0xFFFF_FFFF), ("c", 1920, 1080, 42)]);
    assert_eq!(scan_sender_list(&t, b"A"), Some(SenderInfo { width: 1, height: 1, handle: 1 }));
    assert_eq!(
        scan_sender_list(&t, b"Second sender"),
        Some(SenderInfo { width: 8192, height: 8192, handle: 0xFFFF_FFFF })
    );
    assert_eq!(scan_sender_list(&t, b"c"), Some(SenderInfo { width: 1920, height: 1080, handle: 42 }));
    assert_eq!(scan_sender_list(&t, b"Secon"), None);
}

#[test]
fn invalid_records_are_skipped() {
    let t = table_with(&[
        ("ZeroW", 0, 480, 7),
        ("ZeroH", 640, 0, 7),
        ("NoHandle", 640, 480, 0),
        ("TooWide", 8193, 480, 7),
        ("TooTall", 640, 9000, 7),
    ]);
    for n in ["ZeroW", "ZeroH", "NoHandle", "TooWide", "TooTall"] {
        assert_eq!(scan_sender_list(&t, n.as_bytes()), None, "{}", n);
    }
}

#[test]
fn later_valid_record_follows_invalid_one() {
    let t = table_with(&[("Cam", 640, 480, 0), ("Cam", 800, 600, 9), ("Cam", 1, 1, 3)]);
    assert_eq!(scan_sender_list(&t, b"Cam"), Some(SenderInfo { width: 800, height: 600, handle: 9 }));
}

#[test]
fn full_width_name_without_terminator() {
    let mut t = vec![0u8; SLOT_SIZE];
    let name = vec![b'x'; 256];
    t[..256].copy_from_slice(&name);
    put_u32(&mut t, 256, 10);
    put_u32(&mut t, 260, 20);
    put_u32(&mut t, 264, 30);
    assert_eq!(scan_sender_list(&t, &name), Some(SenderInfo { width: 10, height: 20, handle: 30 }));
    assert_eq!(scan_sender_list(&t, &name[..255]), None);
}

#[test]
fn short_table_holds_only_whole_slots() {
    let t = table_with(&[("A", 5, 5, 5), ("B", 6, 6, 6)]);
    assert_eq!(scan_sender_list(&t[..SLOT_SIZE * 2 - 1], b"B"), None);
    assert_eq!(scan_sender_list(&t[..SLOT_SIZE * 2 - 1], b"A"), Some(SenderInfo { width: 5, height: 5, handle: 5 }));
    assert_eq!(scan_sender_list(&[], b"A"), None);
}

#[test]
fn little_endian_fields() {
    assert_eq!(read_u32_le(&[0x78, 0x56, 0x34, 0x12, 0xFF], 0), 0x1234_5678);
    assert_eq!(read_u32_le(&[0, 0xFF, 0xFF, 0xFF, 0xFF], 1), 0xFFFF_FFFF);
}

#[test]
fn second_table_alias_is_scanned() {
    let t1 = table_with(&[("Other", 10, 10, 1)]);
    let t2 = table_with(&[("Cam1", 320, 240, 5)]);
    let s = snapshot(vec![Some(t1), Some(t2)], vec![Some(region_with(1, 1, 1)), None, None], no_registry());
    assert_eq!(get_sender_info("Cam1", &s), Some(SenderInfo { width: 320, height: 240, handle: 5 }));
}

#[test]
fn sender_region_used_only_without_table() {
    let region = region_with(1280, 720, 0x44);
    let s = snapshot(vec![None, None], vec![None, Some(region.clone()), None], no_registry());
    assert_eq!(get_sender_info("Cam1", &s), Some(SenderInfo { width: 1280, height: 720, handle: 0x44 }));
    let t = table_with(&[("Other", 10, 10, 1)]);
    let s = snapshot(vec![Some(t), None], vec![Some(region), None, None], no_registry());
    assert_eq!(get_sender_info("Cam1", &s), None);
}

#[test]
fn sender_region_validity_and_size() {
    assert_eq!(read_individual_sender(&region_with(0, 720, 1)), None);
    assert_eq!(read_individual_sender(&region_with(10, 720, 0)), None);
    assert_eq!(read_individual_sender(&region_with(10, 720, 1)[..TEXTURE_INFO_SIZE - 1]), None);
    assert_eq!(read_individual_sender(&region_with(10, 720, 1)), Some(SenderInfo { width: 10, height: 720, handle: 1 }));
}

#[test]
fn registry_fallback_needs_all_three_values() {
    let partial = RegistryEntry { width: Some(640), height: None, handle: Some(3) };
    let full = RegistryEntry { width: Some(640), height: Some(480), handle: Some(3) };
    let s = snapshot(vec![None, None], vec![None, None, None], vec![partial, full]);
    assert_eq!(get_sender_info("Cam1", &s), Some(SenderInfo { width: 640, height: 480, handle: 3 }));
    let s = snapshot(vec![None, None], vec![None, None, None], vec![partial, partial]);
    assert_eq!(get_sender_info("Cam1", &s), None);
    let zero = RegistryEntry { width: Some(640), height: Some(480), handle: Some(0) };
    let s = snapshot(vec![None, None], vec![None, None, None], vec![zero]);
    assert_eq!(get_sender_info("Cam1", &s), None);
}

#[test]
fn shared_memory_wins_over_registry() {
    let t = table_with(&[("Cam1", 640, 480, 0xABCD)]);
    let reg = RegistryEntry { width: Some(1), height: Some(2), handle: Some(3) };
    let s = snapshot(vec![Some(t.clone()), None], vec![None, None, None], vec![reg]);
    assert_eq!(get_sender_info("Cam1", &s), Some(SenderInfo { width: 640, height: 480, handle: 0xABCD }));
    let s = snapshot(vec![Some(t), None], vec![None, None, None], vec![reg]);
    assert_eq!(get_sender_info("Cam9", &s), Some(SenderInfo { width: 1, height: 2, handle: 3 }));
}

#[test]
fn region_and_key_names() {
    let lists: Vec<String> = sender_list_regions();
    assert_eq!(lists, vec!["SpoutSenderNames".to_string(), "Local\\SpoutSenderNames".to_string()]);
    assert_eq!(
        sender_regions("Cam1"),
        vec!["Cam1".to_string(), "Local\\Cam1".to_string(), "Global\\Cam1".to_string()]
    );
    assert_eq!(
        registry_paths("Cam1"),
        vec![
            "SOFTWARE\\Leading Edge\\Spout\\Cam1".to_string(),
            "SOFTWARE\\WOW6432Node\\Leading Edge\\Spout\\Cam1".to_string()
        ]
    );
}

#[test]
fn listing_reports_printable_names() {
    let mut region = vec![0u8; 4096 + 100];
    region[0..6].copy_from_slice(b"  Cam1");
    region[256..259].copy_from_slice(b"abc");
    region[512..520].copy_from_slice(b"Vid\x01eoXY");
    region[768..774].copy_from_slice(b"      ");
    region[1024..1034].copy_from_slice(b"Studio  A ");
    region[3840..3845].copy_from_slice(b"Last!");
    let names = list_sender_names(&region);
    assert_eq!(names, vec![b"Cam1".to_vec(), b"Studio  A".to_vec(), b"Last!".to_vec()]);
    assert!(list_sender_names(&region[..255]).is_empty());
}
