use sahne_fs::directories::{Directory, FileSystem, StorageDevice, StorageDeviceType};

#[test]
fn test_file_system_add_get_remove() {
    let mut fs = FileSystem::new();
    let device1 = StorageDevice { device_type: StorageDeviceType::SSD, device_id: "ssd1".to_string() };
    let device2 = StorageDevice { device_type: StorageDeviceType::HDD, device_id: "hdd1".to_string() };

    fs.add_device(device1.clone());
    fs.add_device(device2.clone());

    fs.add_entry_to_device_root(&device1, "file1.txt".to_string(), 10);
    fs.add_entry_to_device_root(&device2, "dir1".to_string(), 20);

    assert_eq!(fs.get_entry_inode_from_device_root(&device1, "file1.txt"), Some(10));
    assert_eq!(fs.get_entry_inode_from_device_root(&device2, "dir1"), Some(20));
    assert_eq!(fs.get_entry_inode_from_device_root(&device1, "nonexistent"), None);

    fs.remove_entry_from_device_root(&device1, "file1.txt");
    assert!(fs.get_entry_inode_from_device_root(&device1, "file1.txt").is_none());
}

#[test]
fn test_file_system_list() {
    let mut fs = FileSystem::new();
    let device1 = StorageDevice { device_type: StorageDeviceType::SSD, device_id: "ssd1".to_string() };
    let device2 = StorageDevice { device_type: StorageDeviceType::HDD, device_id: "hdd1".to_string() };

    fs.add_device(device1.clone());
    fs.add_device(device2.clone());

    fs.add_entry_to_device_root(&device1, "file_a".to_string(), 100);
    fs.add_entry_to_device_root(&device1, "file_b".to_string(), 101);
    fs.add_entry_to_device_root(&device2, "file_c".to_string(), 200);

    let entries1 = fs.list_entries_on_device_root(&device1);
    assert_eq!(entries1.len(), 2);
    assert!(entries1.contains(&("file_a".to_string(), 100)));
    assert!(entries1.contains(&("file_b".to_string(), 101)));

    let entries2 = fs.list_entries_on_device_root(&device2);
    assert_eq!(entries2.len(), 1);
    assert_eq!(entries2[0], ("file_c".to_string(), 200));

    let entries3 = fs.list_entries_on_device_root(&StorageDevice {
        device_type: StorageDeviceType::USB,
        device_id: "nonexistent".to_string(),
    });
    assert!(entries3.is_empty());
}

#[test]
fn directory_add_replaces_and_remove_forgets() {
    let mut dir = Directory::new();
    dir.add_entry("a".to_string(), 1);
    dir.add_entry("b".to_string(), 2);
    dir.add_entry("a".to_string(), 3);
    assert_eq!(dir.get_entry_inode("a"), Some(3));
    assert_eq!(dir.get_entry_inode("b"), Some(2));
    assert_eq!(dir.list_entries().len(), 2);
    let names = dir.list_entry_names();
    assert_eq!(names.len(), 2);
    dir.remove_entry("a");
    assert_eq!(dir.get_entry_inode("a"), None);
    assert_eq!(dir.get_entry_inode("b"), Some(2));
    dir.remove_entry("missing");
    assert_eq!(dir.list_entries(), vec![("b".to_string(), 2)]);
}

#[test]
fn file_system_readding_a_device_empties_its_root() {
    let mut fs = FileSystem::new();
    let dev = StorageDevice { device_type: StorageDeviceType::NVMe, device_id: "n0".to_string() };
    fs.add_device(dev.clone());
    fs.add_entry_to_device_root(&dev, "x".to_string(), 7);
    fs.add_device(dev.clone());
    assert_eq!(fs.get_entry_inode_from_device_root(&dev, "x"), None);
    let other = StorageDevice { device_type: StorageDeviceType::SSD, device_id: "n0".to_string() };
    fs.add_entry_to_device_root(&other, "y".to_string(), 8);
    assert_eq!(fs.get_entry_inode_from_device_root(&other, "y"), None);
}
