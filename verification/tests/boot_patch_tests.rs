use tobi::boot_patch::{
    BootFiles, BootPatchFailure, BootPatchReport, BootPatchStart, BootPatchStatus, BootPatchStyle,
    boot_partition_path, boot_patch_mount_dir, detect_boot_patch_style, failure_report,
    finish_boot_patch, first_partition_path, patch_installed_boot_media, patch_plan,
    plan_mounted_patch, target_kind_label, target_needs_boot_patch, uenv_failure_report,
};
use tobi::device::{InstallTarget, TargetKind, TargetPartition};

fn emmc(partitions: Vec<TargetPartition>) -> InstallTarget {
    InstallTarget {
        id: "emmc".to_string(),
        name: "eMMC".to_string(),
        path: "/dev/mmcblk0".to_string(),
        size_bytes: None,
        kind: TargetKind::Emmc,
        removable: false,
        partitions,
        warning: None,
    }
}

fn armbian_files() -> BootFiles {
    BootFiles { armbian_env: true, yocto_marker: false }
}

fn yocto_files() -> BootFiles {
    BootFiles { armbian_env: false, yocto_marker: true }
}

#[test]
fn armbian_patch_uses_emmc_mmc_index_and_rootfs_partition() {
    let original = "bootpart=1:1\nfinduuid=part uuid ${boot} 1:2 uuid\nname_rd=uInitrd\n";
    let planned = plan_mounted_patch(armbian_files(), original, "", "/dev/testp1", "/boot/uEnv.txt", "/boot/extlinux/extlinux.conf");

    assert_eq!(planned.report.status, BootPatchStatus::Patched);
    let patched = planned.write.expect("patched uenv");
    assert!(patched.contains("bootpart=0:1"));
    assert!(patched.contains("finduuid=part uuid mmc 0:2 uuid"));
    assert!(patched.contains("setenv mmcdev 0"));
    assert!(patched.len() <= 256);
}

#[test]
fn ti_yocto_patch_uses_emmc_mmc_index_and_second_partition() {
    let planned = plan_mounted_patch(yocto_files(), "# empty by default\n", "", "/dev/testp1", "/boot/uEnv.txt", "/boot/extlinux/extlinux.conf");

    assert_eq!(planned.report.status, BootPatchStatus::Patched);
    let patched = planned.write.expect("patched uenv");
    assert!(patched.contains("mmcdev=0"));
    assert!(patched.contains("bootpart=0:2"));
    assert!(patched.contains("finduuid=part uuid mmc ${bootpart} uuid"));
}

#[test]
fn non_emmc_targets_skip_patching() {
    let target = InstallTarget {
        id: "sd".to_string(),
        name: "SD".to_string(),
        path: "/dev/mmcblk1".to_string(),
        size_bytes: None,
        kind: TargetKind::Sd,
        removable: true,
        partitions: Vec::new(),
        warning: None,
    };

    let report = match patch_installed_boot_media(&target, true) {
        BootPatchStart::Finished(report) => report,
        BootPatchStart::Patch { .. } => panic!("SD targets are not patched"),
    };

    assert_eq!(report.status, BootPatchStatus::Skipped);
}

#[test]
fn already_configured_report_is_displayable() {
    let report = BootPatchReport::already_configured(
        "uEnv.txt already targets eMMC",
        vec!["Verified uEnv.txt".to_string()],
    );

    assert_eq!(report.status, BootPatchStatus::AlreadyConfigured);
    assert!(
        report
            .final_message()
            .contains("Boot patch: already configured")
    );
}

#[test]
fn report_messages_list_details() {
    let report = BootPatchReport::patched("updated", vec!["one".to_string(), "two".to_string()]);
    assert_eq!(report.final_message(), "Boot patch: applied - updated\n  one\n  two");
    assert_eq!(report.phase_message(), "Boot patch complete: updated");
    let warning = BootPatchReport::warning("failed", Vec::new());
    assert_eq!(warning.phase_message(), "Boot patch warning: failed");
    assert_eq!(warning.final_message(), "Boot patch: warning - failed");
}

#[test]
fn skipped_report_names_the_target_kind() {
    let target = InstallTarget { kind: TargetKind::Usb, ..emmc(Vec::new()) };
    assert!(!target_needs_boot_patch(&target));
    match patch_installed_boot_media(&target, true) {
        BootPatchStart::Finished(report) => {
            assert_eq!(report.summary, "USB/storage installs boot as written");
            assert!(report.details.is_empty());
        }
        BootPatchStart::Patch { .. } => panic!("USB targets are not patched"),
    }
    assert_eq!(target_kind_label(TargetKind::File), "file target");
}

#[test]
fn emmc_patch_mounts_the_boot_partition() {
    let named = emmc(vec![
        TargetPartition { name: "rootfs".to_string(), path: "/dev/mmcblk0p2".to_string(), size_bytes: None },
        TargetPartition { name: "BOOT".to_string(), path: "/dev/mmcblk0p1".to_string(), size_bytes: None },
    ]);
    assert!(target_needs_boot_patch(&named));
    assert_eq!(boot_partition_path(&named).as_deref(), Some("/dev/mmcblk0p1"));
    match patch_installed_boot_media(&named, true) {
        BootPatchStart::Patch { partition } => assert_eq!(partition, "/dev/mmcblk0p1"),
        BootPatchStart::Finished(_) => panic!("eMMC targets are patched"),
    }
    match patch_installed_boot_media(&named, false) {
        BootPatchStart::Finished(report) => {
            assert_eq!(report.status, BootPatchStatus::Warning);
            assert_eq!(report.details, vec!["Target: /dev/mmcblk0".to_string()]);
        }
        BootPatchStart::Patch { .. } => panic!("no patching off Linux"),
    }
}

#[test]
fn first_partition_follows_device_naming() {
    assert_eq!(first_partition_path("/dev/mmcblk0").as_deref(), Some("/dev/mmcblk0p1"));
    assert_eq!(first_partition_path("/dev/nvme0n1").as_deref(), Some("/dev/nvme0n1p1"));
    assert_eq!(first_partition_path("/dev/sda").as_deref(), Some("/dev/sda1"));
    assert_eq!(first_partition_path("/"), None);
    assert_eq!(boot_partition_path(&emmc(Vec::new())).as_deref(), Some("/dev/mmcblk0p1"));
}

#[test]
fn boot_files_are_recognized() {
    let none = BootFiles { armbian_env: false, yocto_marker: false };
    assert_eq!(detect_boot_patch_style(none, "get_rd_mmc=load"), Some(BootPatchStyle::ArmbianOrTiDebian));
    assert_eq!(detect_boot_patch_style(none, "mmcdev=1"), Some(BootPatchStyle::TiYocto));
    assert_eq!(detect_boot_patch_style(none, "console=ttyS2"), None);
    assert_eq!(detect_boot_patch_style(armbian_files(), ""), Some(BootPatchStyle::ArmbianOrTiDebian));
    let planned = plan_mounted_patch(none, "console=ttyS2", "", "/dev/p1", "/mnt/uEnv.txt", "/mnt/extlinux/extlinux.conf");
    assert_eq!(planned.report.status, BootPatchStatus::Skipped);
    assert!(planned.write.is_none());
}

#[test]
fn patching_twice_finds_files_configured() {
    for files in [armbian_files(), yocto_files()] {
        let first = plan_mounted_patch(files, "", "", "/dev/p1", "/mnt/uEnv.txt", "/mnt/extlinux/extlinux.conf");
        let written = first.write.expect("first run writes");
        let extlinux = first.extlinux_write.unwrap_or_default();
        let second = plan_mounted_patch(files, &written, &extlinux, "/dev/p1", "/mnt/uEnv.txt", "/mnt/extlinux/extlinux.conf");
        assert_eq!(second.report.status, BootPatchStatus::AlreadyConfigured);
        assert!(second.write.is_none());
        assert!(second.extlinux_write.is_none());
    }
    let yocto = plan_mounted_patch(yocto_files(), "mmcdev=0\nbootpart=0:2\nfinduuid=part uuid mmc ${bootpart} uuid\n", "", "/dev/p1", "/mnt/uEnv.txt", "/mnt/extlinux/extlinux.conf");
    assert_eq!(yocto.report.details, vec!["Mounted /dev/p1".to_string(), "Verified /mnt/uEnv.txt".to_string()]);
    assert_eq!(patch_plan(BootPatchStyle::TiYocto).detail, "Set mmcdev=0 and rootfs bootpart=0:2.");
}

#[test]
fn armbian_patch_adds_an_extlinux_emmc_fallback() {
    let original = "bootpart=1:1\nfinduuid=part uuid ${boot} 1:2 uuid\nname_rd=uInitrd\n";
    let planned = plan_mounted_patch(armbian_files(), original, "", "/dev/testp1", "/boot/uEnv.txt", "/boot/extlinux/extlinux.conf");
    assert_eq!(planned.report.status, BootPatchStatus::Patched);
    let fallback = planned.extlinux_write.expect("extlinux fallback");
    assert!(fallback.contains("label armbian-emmc"));
    assert!(fallback.contains("root=/dev/mmcblk0p2"));
    assert_eq!(
        planned.report.details,
        vec![
            "Mounted /dev/testp1".to_string(),
            "Updated /boot/uEnv.txt".to_string(),
            "Updated /boot/extlinux/extlinux.conf".to_string(),
            "Set bootpart=0:1, rootfs lookup=mmc 0:2, and mmcdev=0; added an extlinux eMMC bootflow fallback.".to_string(),
        ]
    );
    let written_uenv = planned.write.expect("uenv");
    let stale = plan_mounted_patch(armbian_files(), &written_uenv, "label old\n", "/dev/testp1", "/boot/uEnv.txt", "/boot/extlinux/extlinux.conf");
    assert_eq!(stale.report.status, BootPatchStatus::Patched);
    assert_eq!(stale.extlinux_write.as_deref(), Some(fallback.as_str()));
    let yocto = plan_mounted_patch(yocto_files(), "", "", "/dev/testp1", "/boot/uEnv.txt", "/boot/extlinux/extlinux.conf");
    assert!(yocto.extlinux_write.is_none());
}

#[test]
fn unmount_outcome_finishes_the_report() {
    let planned = plan_mounted_patch(yocto_files(), "", "", "/dev/p1", "/mnt/uEnv.txt", "/mnt/extlinux/extlinux.conf");
    let done = finish_boot_patch(planned.report, Ok(()), "/run/tobi-installed-boot-7");
    assert_eq!(done.status, BootPatchStatus::Patched);
    assert_eq!(done.details.last().map(String::as_str), Some("Unmounted /run/tobi-installed-boot-7"));
    let failed = finish_boot_patch(
        BootPatchReport::skipped("skipped", vec!["Mounted /dev/p1".to_string()]),
        Err("busy".to_string()),
        "/tmp/x",
    );
    assert_eq!(failed.status, BootPatchStatus::Warning);
    assert_eq!(failed.summary, "boot partition may still be mounted");
    assert_eq!(failed.details, vec!["Mounted /dev/p1".to_string(), "Unmount failed: busy".to_string()]);
}

#[test]
fn failures_become_warnings() {
    let r = failure_report(BootPatchFailure::MountDirUnavailable, "/run/x", "denied");
    assert_eq!(r.status, BootPatchStatus::Warning);
    assert_eq!(r.summary, "could not create boot patch mount directory");
    assert_eq!(r.details, vec!["Directory: /run/x".to_string(), "Details: denied".to_string()]);
    let r = failure_report(BootPatchFailure::PartitionMissing, "/dev/p1", "gone");
    assert_eq!(r.details[0], "Partition: /dev/p1");
    let r = uenv_failure_report("/dev/p1", true, "/mnt/uEnv.txt", "read-only");
    assert_eq!(r.details[1], "Details: failed to write /mnt/uEnv.txt: read-only");
    assert_eq!(boot_patch_mount_dir(true, 42), "/run/tobi-installed-boot-42");
    assert_eq!(boot_patch_mount_dir(false, 7), "/tmp/tobi-installed-boot-7");
}
