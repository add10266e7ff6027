use memory_cleaner::volume::{
    collect_volume_targets, ctl_code, flush_all_volume_caches, flush_volume_session,
    is_volume_name_wide, list_volume_flush_targets, parse_volume_symbolic_links,
    volume_display_label, complete_volume_flush, volume_flush_summary, MountPointsError, VolumeFlushReport,
    VolumeFlushSession, MOUNT_POINTS_HEADER_SIZE, MOUNT_POINT_SIZE,
};
use std::cell::RefCell;

fn volume_guid_wide() -> Vec<u16> {
    "\\??\\Volume{11111111-2222-3333-4444-555555555555}".encode_utf16().collect()
}

fn wide(s: &str) -> Vec<u16> {
    s.encode_utf16().collect()
}

fn mount_points_buffer(links: &[Vec<u16>]) -> Vec<u8> {
    let header_size = MOUNT_POINTS_HEADER_SIZE;
    let entry_size = MOUNT_POINT_SIZE;
    let names_start = header_size + entry_size * links.len();
    let names_len: usize = links.iter().map(|l| l.len() * 2).sum();
    let total_size = names_start + names_len;
    let mut buffer = vec![0u8; total_size];
    buffer[..4].copy_from_slice(&(total_size as u32).to_le_bytes());
    buffer[4..8].copy_from_slice(&(links.len() as u32).to_le_bytes());
    let mut name_offset = names_start;
    for (index, link) in links.iter().enumerate() {
        let entry_offset = header_size + index * entry_size;
        let link_bytes = link.len() * 2;
        buffer[entry_offset..entry_offset + 4].copy_from_slice(&(name_offset as u32).to_le_bytes());
        buffer[entry_offset + 4..entry_offset + 6].copy_from_slice(&(link_bytes as u16).to_le_bytes());
        for (i, unit) in link.iter().enumerate() {
            let start = name_offset + i * 2;
            buffer[start..start + 2].copy_from_slice(&unit.to_le_bytes());
        }
        name_offset += link_bytes;
    }
    buffer
}

fn sample_mount_points_buffer() -> Vec<u8> {
    mount_points_buffer(&[volume_guid_wide()])
}

#[test]
fn mount_mgr_mount_point_has_expected_size() {
    assert_eq!(MOUNT_POINT_SIZE, 24);
}

#[test]
fn is_volume_name_matches_mountmgr_macro() {
    assert!(is_volume_name_wide(&volume_guid_wide()));
    assert!(!is_volume_name_wide(&"C:\\".encode_utf16().collect::<Vec<_>>()));
}

#[test]
fn volume_display_label_strips_prefix() {
    let label = volume_display_label(&volume_guid_wide());
    assert_eq!(label, "Volume{11111111-2222-3333-4444-555555555555}");
}

#[test]
fn parse_mount_points_honors_declared_size() {
    let links = parse_volume_symbolic_links(&sample_mount_points_buffer()).expect("parse");
    assert_eq!(links.len(), 1);
    assert_eq!(links[0], volume_guid_wide());
}

#[test]
fn parse_mount_points_rejects_inconsistent_size() {
    let mut buffer = sample_mount_points_buffer();
    let inflated_size = (buffer.len() as u32).saturating_add(8);
    buffer[..4].copy_from_slice(&inflated_size.to_le_bytes());
    assert!(parse_volume_symbolic_links(&buffer).is_err());
}

#[test]
fn volume_flush_report_success_rules() {
    assert!(VolumeFlushReport { succeeded: 1, failed: vec!["Volume{x}".into()] }.is_success());
    assert!(VolumeFlushReport::default().is_success());
    assert!(!VolumeFlushReport { succeeded: 0, failed: vec!["Volume{x}".into()] }.is_success());
}

#[test]
fn volume_flush_report_record_tracks_failures() {
    let mut report = VolumeFlushReport::default();
    report.record("Volume{a}", Ok(()));
    report.record("Volume{b}", Err("boom".to_string()));
    assert_eq!(report.succeeded, 1);
    assert_eq!(report.failed, vec!["Volume{b}".to_string()]);
}

#[test]
fn parse_errors_are_distinguished() {
    assert_eq!(parse_volume_symbolic_links(&[1, 2, 3]), Ok(vec![]));
    let mut small = sample_mount_points_buffer();
    small[..4].copy_from_slice(&4u32.to_le_bytes());
    assert_eq!(parse_volume_symbolic_links(&small), Err(MountPointsError::SizeMismatch));
    let mut truncated = sample_mount_points_buffer();
    truncated[4..8].copy_from_slice(&100u32.to_le_bytes());
    assert_eq!(parse_volume_symbolic_links(&truncated), Err(MountPointsError::Truncated));
}

#[test]
fn parse_skips_empty_odd_and_out_of_range_names() {
    let mut buffer = mount_points_buffer(&[volume_guid_wide(), wide("X"), wide("YZ")]);
    // entry 1: odd byte length
    buffer[8 + 24 + 4..8 + 24 + 6].copy_from_slice(&3u16.to_le_bytes());
    // entry 2: name beyond the declared size
    buffer[8 + 48..8 + 48 + 4].copy_from_slice(&60_000u32.to_le_bytes());
    let links = parse_volume_symbolic_links(&buffer).expect("parse");
    assert_eq!(links, vec![volume_guid_wide()]);
}

#[test]
fn targets_are_volumes_once_sorted_by_label() {
    let a = wide("\\??\\Volume{bbbbbbbb-2222-3333-4444-555555555555}");
    let b = wide("\\??\\Volume{aaaaaaaa-2222-3333-4444-555555555555}");
    let c = wide("\\\\?\\Volume{aaaaaaaa-2222-3333-4444-555555555555}\\");
    let drive = wide("\\DosDevices\\C:");
    let targets = collect_volume_targets(&[a.clone(), drive, b.clone(), a.clone(), c.clone()]);
    let labels: Vec<&str> = targets.iter().map(|t| t.label.as_str()).collect();
    assert_eq!(
        labels,
        vec![
            "Volume{aaaaaaaa-2222-3333-4444-555555555555}",
            "Volume{aaaaaaaa-2222-3333-4444-555555555555}",
            "Volume{bbbbbbbb-2222-3333-4444-555555555555}",
        ]
    );
    // equal labels keep their first-seen order
    assert_eq!(targets[0].symbolic_link, b);
    assert_eq!(targets[1].symbolic_link, c);
    assert_eq!(targets[2].symbolic_link, a);
}

#[test]
fn session_flush_reports_each_volume() {
    let a = wide("\\??\\Volume{bbbbbbbb-2222-3333-4444-555555555555}");
    let b = wide("\\??\\Volume{aaaaaaaa-2222-3333-4444-555555555555}");
    let buffer = mount_points_buffer(&[a, b]);
    let session = VolumeFlushSession::open(&buffer).expect("open");
    assert_eq!(session.len(), 2);
    assert!(!session.is_empty());
    assert_eq!(session.label(0), "Volume{aaaaaaaa-2222-3333-4444-555555555555}");
    let seen = RefCell::new(Vec::new());
    let report = flush_volume_session(
        &session,
        |current, total, label| seen.borrow_mut().push(format!("progress {current}/{total} {label}")),
        |index| {
            seen.borrow_mut().push(format!("flush {index}"));
            index == 0
        },
    );
    assert_eq!(
        seen.into_inner(),
        vec![
            "progress 1/2 Volume{aaaaaaaa-2222-3333-4444-555555555555}".to_string(),
            "flush 0".to_string(),
            "progress 2/2 Volume{bbbbbbbb-2222-3333-4444-555555555555}".to_string(),
            "flush 1".to_string(),
        ]
    );
    assert_eq!(report.succeeded, 1);
    assert_eq!(report.failed, vec!["Volume{bbbbbbbb-2222-3333-4444-555555555555}".to_string()]);
    assert!(report.is_success());
    assert_eq!(complete_volume_flush(&report), Ok(()));
    assert_eq!(
        volume_flush_summary(&report),
        Some(
            "[optimize] modified file cache partial success: 1 succeeded, 1 failed (Volume{bbbbbbbb-2222-3333-4444-555555555555})"
                .to_string()
        )
    );

    let (_, all_failed) = flush_all_volume_caches(&buffer, |_| false).expect("open");
    assert_eq!(
        complete_volume_flush(&all_failed),
        Err(
            "Volume{aaaaaaaa-2222-3333-4444-555555555555}, Volume{bbbbbbbb-2222-3333-4444-555555555555}"
                .to_string()
        )
    );
    assert_eq!(
        volume_flush_summary(&all_failed),
        Some(
            "[optimize] modified file cache all volumes failed (Volume{aaaaaaaa-2222-3333-4444-555555555555}, Volume{bbbbbbbb-2222-3333-4444-555555555555})"
                .to_string()
        )
    );
    let (_, all_ok) = flush_all_volume_caches(&buffer, |_| true).expect("open");
    assert_eq!(volume_flush_summary(&all_ok), None);
    assert_eq!(
        list_volume_flush_targets(&buffer),
        Ok(vec![
            "Volume{aaaaaaaa-2222-3333-4444-555555555555}".to_string(),
            "Volume{bbbbbbbb-2222-3333-4444-555555555555}".to_string(),
        ])
    );
}

#[test]
fn mount_manager_query_code() {
    assert_eq!(ctl_code(b'm' as u32, 2, 0, 0), 0x006D_0008);
}
