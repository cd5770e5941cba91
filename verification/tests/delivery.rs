use bridge_app::delivery::{Delivery, DeliveryEvent, DeliveryStage, Found};
use bridge_app::files::{Attachment, Entry, FileDiff, FileKind, Generated, ScanError, Snapshot, ARTIFACT_BYTES};
use bridge_app::messaging::{DeliveryError, ResourceKind, ResourceRef};
use bridge_app::model::Directory;
use bridge_app::staging::{Staging, StagingEvent, StagingStage};

fn dir(path: &str) -> Directory {
    Directory { text: path.to_string(), path: path.to_string() }
}

fn found(files: &[(&str, u8)], diffs: &[&str]) -> Found {
    let mut after = Snapshot::absent();
    for (name, digest) in files {
        after.files.insert(
            name.to_string(),
            Entry {
                kind: FileKind::Artifact,
                bytes: 1,
                modified: None,
                text: None,
                skipped: None,
                digest: Some([*digest; 32]),
            },
        );
    }
    Found {
        after,
        changed: files.iter().map(|(name, _)| dir(name)).collect(),
        diffs: diffs.iter().map(|d| FileDiff { path: dir(d), content: format!("+{d}") }).collect(),
        generated: Generated::Untracked,
    }
}

#[test]
fn diffs_are_shown_before_files_are_uploaded_and_reported() {
    let mut d = Delivery::new(dir("/root"), true);
    assert!(matches!(d.stage(), DeliveryStage::Scanning));
    d.step(DeliveryEvent::Scanned(Ok(found(&[("a.pdf", 1), ("copy.pdf", 1), ("b.png", 2)], &["x.rs", "y.rs"]))));
    assert!(matches!(d.stage(), DeliveryStage::Showing { panel, .. } if panel.title == "本轮文件差异：x.rs"));
    d.step(DeliveryEvent::Shown(false));
    assert!(matches!(d.stage(), DeliveryStage::Telling { fallback } if fallback == "本轮文件差异：x.rs\n+x.rs"));
    d.step(DeliveryEvent::Told(Ok(())));
    assert!(matches!(d.stage(), DeliveryStage::Showing { panel, .. } if panel.body == "+y.rs"));
    d.step(DeliveryEvent::Shown(true));
    assert!(matches!(d.stage(), DeliveryStage::Opening { relative, .. } if relative.path == "a.pdf"));
    d.step(DeliveryEvent::Opened(true));
    assert!(matches!(d.stage(), DeliveryStage::Opening { relative, .. } if relative.path == "b.png"));
    d.step(DeliveryEvent::Opened(true));
    assert!(matches!(d.stage(), DeliveryStage::Uploading { name, kind: ResourceKind::File } if name == "a.pdf"));
    d.step(DeliveryEvent::Uploaded(true));
    assert!(matches!(d.stage(), DeliveryStage::Uploading { name, kind: ResourceKind::Image } if name == "b.png"));
    d.step(DeliveryEvent::Uploaded(false));
    assert!(matches!(
        d.stage(),
        DeliveryStage::Reporting { text }
            if text == "成果物处理结果（最多 10 项）：\na.pdf：已发送\nb.png：发送失败、无法读取或超过 20 MiB，未自动重试"
    ));
    d.step(DeliveryEvent::Shown(true));
    assert!(matches!(d.stage(), DeliveryStage::Reporting { .. }));
    d.step(DeliveryEvent::Told(Ok(())));
    assert!(matches!(d.stage(), DeliveryStage::Ended(Ok(()))));
}

#[test]
fn nothing_to_say_is_no_report() {
    let mut d = Delivery::new(dir("/root"), true);
    d.step(DeliveryEvent::Scanned(Ok(found(&[], &[]))));
    assert!(matches!(d.stage(), DeliveryStage::Ended(Ok(()))));
    let mut d = Delivery::new(dir("/root"), false);
    d.step(DeliveryEvent::Scanned(Ok(found(&[], &[]))));
    assert!(matches!(d.stage(), DeliveryStage::Reporting { text } if text.contains("可能不完整")));
    d.step(DeliveryEvent::Told(Err(DeliveryError::Transport)));
    assert!(matches!(d.stage(), DeliveryStage::Ended(Err(DeliveryError::Transport))));
}

#[test]
fn failures_end_a_delivery() {
    let mut d = Delivery::new(dir("/root"), true);
    d.step(DeliveryEvent::Scanned(Err(ScanError::NotFound)));
    assert!(matches!(d.stage(), DeliveryStage::Ended(Err(DeliveryError::LocalIo))));
    let mut d = Delivery::new(dir("/root"), true);
    d.step(DeliveryEvent::Scanned(Ok(found(&[("a.pdf", 1)], &["x.rs"]))));
    d.step(DeliveryEvent::Shown(false));
    d.step(DeliveryEvent::Told(Err(DeliveryError::Rejected(7))));
    assert!(matches!(d.stage(), DeliveryStage::Ended(Err(DeliveryError::Rejected(7)))));
}

#[test]
fn files_that_cannot_be_opened_are_counted() {
    let mut d = Delivery::new(dir("/root"), true);
    d.step(DeliveryEvent::Scanned(Ok(found(&[("a.pdf", 1)], &[]))));
    d.step(DeliveryEvent::Opened(false));
    assert!(matches!(d.stage(), DeliveryStage::Reporting { text } if text.contains("另有 1 项")));
}

fn attachment(name: &str, kind: ResourceKind) -> Attachment {
    Attachment {
        resource: ResourceRef { message_id: "m".into(), key: name.into(), kind },
        name: name.into(),
    }
}

fn downloaded(bytes: u64) -> StagingEvent {
    StagingEvent::Downloaded { reported: Some(Ok(bytes)), stored: Some(bytes) }
}

#[test]
fn attachments_are_published_before_the_baseline() {
    let mut s = Staging::new(vec![attachment("a.txt", ResourceKind::File), attachment("b.png", ResourceKind::Image)]);
    assert!(matches!(&s.stage, StagingStage::Downloading { resource } if resource.key == "a.txt"));
    s.step(downloaded(5));
    assert!(matches!(&s.stage, StagingStage::Publishing { index: 0, name, image: false } if name == "a.txt"));
    s.step(StagingEvent::Published(Some(dir("/root/1-0-a.txt"))));
    s.step(downloaded(ARTIFACT_BYTES));
    assert!(matches!(&s.stage, StagingStage::Publishing { index: 1, image: true, .. }));
    s.step(StagingEvent::Published(Some(dir("/root/1-1-b.png"))));
    assert!(matches!(s.stage, StagingStage::Scanning));
    s.step(StagingEvent::Based(true));
    match s.stage {
        StagingStage::Ended(Ok(files)) => {
            assert_eq!(files.images, vec![dir("/root/1-1-b.png")]);
            assert!(files.prompt.contains("/root/1-0-a.txt"));
        }
        _ => panic!("everything is staged"),
    }
}

#[test]
fn unusable_attachments_end_a_staging() {
    let fails = |event: StagingEvent, error: DeliveryError| {
        let mut s = Staging::new(vec![attachment("a", ResourceKind::File)]);
        s.step(event);
        match s.stage {
            StagingStage::Ended(Err(e)) => assert_eq!(e, error),
            _ => panic!("the staging fails"),
        }
    };
    fails(StagingEvent::Unavailable, DeliveryError::LocalIo);
    fails(StagingEvent::Downloaded { reported: None, stored: None }, DeliveryError::Transport);
    fails(
        StagingEvent::Downloaded { reported: Some(Err(DeliveryError::Rejected(3))), stored: Some(0) },
        DeliveryError::Rejected(3),
    );
    fails(downloaded(ARTIFACT_BYTES + 1), DeliveryError::TooLarge);
    fails(
        StagingEvent::Downloaded { reported: Some(Ok(ARTIFACT_BYTES + 1)), stored: None },
        DeliveryError::TooLarge,
    );
    fails(
        StagingEvent::Downloaded { reported: Some(Ok(1)), stored: Some(ARTIFACT_BYTES + 1) },
        DeliveryError::TooLarge,
    );
    fails(StagingEvent::Downloaded { reported: Some(Ok(1)), stored: None }, DeliveryError::LocalIo);
    let many: Vec<Attachment> = (0..11).map(|_| attachment("a", ResourceKind::File)).collect();
    assert!(matches!(Staging::new(many).stage, StagingStage::Ended(Err(DeliveryError::TooLarge))));
    let mut s = Staging::new(vec![]);
    s.step(StagingEvent::Based(false));
    assert!(matches!(s.stage, StagingStage::Ended(Err(DeliveryError::LocalIo))));
}
