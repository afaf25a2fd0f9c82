use tobi::device::{
    BlockDeviceInfo, DeviceError, DeviceMode, LiveProbe, PartitionInfo, PathMetadata, TargetKind, format_bytes,
    infer_kind, infer_linux_kind, is_visible_root_block_device, list_devices, target_from_path,
};

#[test]
fn formats_binary_sizes() {
    assert_eq!(format_bytes(Some(16 * 1024 * 1024 * 1024)), "16.0 GiB");
    assert_eq!(format_bytes(None), "unknown size");
}

#[test]
fn mock_mode_lists_emmc() {
    let targets = list_devices(DeviceMode::Mock, LiveProbe::Unsupported).expect("mock targets");
    assert!(targets.iter().any(|target| target.kind == TargetKind::Emmc));
}

#[test]
fn hides_partition_like_block_roots() {
    assert!(is_visible_root_block_device("mmcblk1"));
    assert!(is_visible_root_block_device("sda"));
    assert!(!is_visible_root_block_device("mmcblk0boot0"));
    assert!(!is_visible_root_block_device("mmcblk0rpmb"));
    assert!(!is_visible_root_block_device("mtdblock4"));
    assert!(!is_visible_root_block_device("sr0"));
}

#[test]
fn classifies_removable_mmc_as_sd() {
    assert_eq!(infer_linux_kind("mmcblk0", true), TargetKind::Sd);
    assert_eq!(infer_linux_kind("mmcblk1", false), TargetKind::Emmc);
}

#[test]
fn sizes_use_the_largest_unit_reached() {
    assert_eq!(format_bytes(Some(512)), "512 B");
    assert_eq!(format_bytes(Some(1536)), "1.5 KiB");
    assert_eq!(format_bytes(Some(1024 * 1024 * 1024 * 1024 * 3)), "3.0 TiB");
    assert_eq!(format_bytes(Some(1024 * 1024 * 1024 * 1024 * 2048)), "2048.0 TiB");
}

#[test]
fn live_listing_reads_sysblock() {
    let infos = vec![
        BlockDeviceInfo {
            name: "sda".to_string(),
            removable: Some("1\n".to_string()),
            size: Some("2048\n".to_string()),
            model: Some("Flash Disk\n".to_string()),
            partitions: vec![PartitionInfo { name: "sda1".to_string(), size: Some("1024".to_string()) }],
        },
        BlockDeviceInfo {
            name: "mmcblk0boot0".to_string(),
            removable: None,
            size: None,
            model: None,
            partitions: Vec::new(),
        },
        BlockDeviceInfo {
            name: "mmcblk0".to_string(),
            removable: Some("0".to_string()),
            size: Some("4".to_string()),
            model: None,
            partitions: Vec::new(),
        },
    ];
    let targets = list_devices(DeviceMode::Live, LiveProbe::SysBlock(Ok(infos))).expect("targets");
    assert_eq!(targets.len(), 2);
    assert_eq!(targets[0].kind, TargetKind::Emmc);
    assert_eq!(targets[0].path, "/dev/mmcblk0");
    assert_eq!(targets[0].size_bytes, Some(2048));
    assert_eq!(targets[1].kind, TargetKind::Usb);
    assert_eq!(targets[1].partitions.len(), 1);
    assert_eq!(targets[1].partitions[0].size_bytes, Some(512 * 1024));

    let err = list_devices(DeviceMode::Live, LiveProbe::SysBlock(Ok(Vec::new()))).expect_err("none");
    assert!(matches!(err, DeviceError::NoBlockDevices));
    assert_eq!(err.message(), "no writable block devices were found");
    let err = list_devices(DeviceMode::Live, LiveProbe::Unsupported).expect_err("unsupported");
    assert_eq!(
        err.message(),
        "live block device scanning is only implemented on Linux; pass --target to test with a file"
    );
}

#[test]
fn target_paths_become_targets() {
    let t = target_from_path("/tmp/disk.img", PathMetadata { is_file: true, len: 10 });
    assert_eq!(t.kind, TargetKind::File);
    assert_eq!(t.size_bytes, Some(10));
    assert_eq!(infer_kind("/dev/nvme0n1"), TargetKind::Nvme);
    let listed = list_devices(
        DeviceMode::Live,
        LiveProbe::TargetPath { path: "/tmp/disk.img".to_string(), metadata: Err("missing".to_string()) },
    )
    .expect_err("missing target");
    assert_eq!(listed.message(), "target /tmp/disk.img is not accessible: missing");
}
