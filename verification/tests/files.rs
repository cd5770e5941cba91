use bridge_app::files::{
    check_attachments, check_download, collect, diff_card, io_error, report, report_upload, upload_kind, upload_name,
    Candidate, Deliveries, Entry, FileDiff, FileKind, Generated, Limits, PreparedFiles, ScanError, Selection, Snapshot,
    ARTIFACT_BYTES,
};
use bridge_app::messaging::{DeliveryError, ResourceKind};
use bridge_app::model::Directory;

fn dir(path: &str) -> Directory {
    Directory { text: path.to_string(), path: path.to_string() }
}

fn entry(bytes: u64, digest: u8) -> Entry {
    Entry {
        kind: FileKind::Artifact,
        bytes,
        modified: None,
        text: None,
        skipped: None,
        digest: Some([digest; 32]),
    }
}

fn candidate(name: &str, bytes: u64, digest: u8) -> Candidate {
    Candidate { root: dir("/root"), relative: dir(name), bytes, digest: Some([digest; 32]) }
}

/// Opens every file that `refuse` does not name.
fn select(candidates: Vec<Candidate>, refuse: &str) -> (Vec<String>, usize) {
    let mut s = Selection::new(candidates);
    let mut opened = false;
    while let Some((_, relative)) = s.advance(opened) {
        opened = relative.path != refuse;
    }
    (s.selected().iter().map(|d| d.path.clone()).collect(), s.omitted())
}

#[test]
fn identical_contents_are_selected_once_and_large_files_omitted() {
    let (selected, omitted) = select(
        vec![
            candidate("a.pdf", 1, 1),
            candidate("copy.pdf", 1, 1),
            candidate("big.pdf", ARTIFACT_BYTES + 1, 2),
            candidate("b.pdf", ARTIFACT_BYTES, 3),
            candidate("gone.pdf", 1, 4),
        ],
        "gone.pdf",
    );
    assert_eq!(selected, vec!["a.pdf", "b.pdf"]);
    assert_eq!(omitted, 2);
}

#[test]
fn no_more_than_ten_files_are_selected() {
    let many: Vec<Candidate> = (0..12).map(|i| candidate(&format!("f{i}"), 1, i)).collect();
    let (selected, omitted) = select(many, "");
    assert_eq!(selected.len(), 10);
    assert_eq!(omitted, 2);
}

#[test]
fn candidates_are_the_changed_files_that_still_exist() {
    let mut after = Snapshot::absent();
    after.files.insert("a.pdf".into(), entry(5, 1));
    let mut images = Snapshot::absent();
    images.files.insert("i.png".into(), entry(6, 2));
    images.files.insert("i.txt".into(), entry(7, 3));
    let (found, complete) = collect(
        &dir("/root"),
        true,
        &after,
        vec![dir("a.pdf"), dir("gone.pdf")],
        Generated::Scanned {
            root: dir("/images"),
            before_complete: true,
            after: images,
            changed: vec![dir("i.png"), dir("i.txt")],
        },
    );
    assert!(complete);
    assert_eq!(
        found.iter().map(|c| (c.root.path.as_str(), c.relative.path.as_str(), c.bytes)).collect::<Vec<_>>(),
        vec![("/root", "a.pdf", 5), ("/images", "i.png", 6)]
    );
    assert!(!collect(&dir("/root"), true, &Snapshot::absent(), vec![], Generated::Unreadable).1);
    assert!(collect(&dir("/root"), true, &Snapshot::absent(), vec![], Generated::Missing).1);
    assert!(!collect(&dir("/root"), true, &Snapshot::default(), vec![], Generated::Untracked).1);
}

#[test]
fn baselines_belong_to_one_task_and_one_directory() {
    let mut d = Deliveries::new().excluding(vec![dir("/root/.state")]).generated_images(Some(dir("/images")));
    assert_eq!(d.excluded(), &vec![dir("/root/.state")]);
    assert_eq!(d.thread_directory("t1"), Ok(Some(dir("/images/t1"))));
    assert_eq!(d.thread_directory("../t1"), Err(DeliveryError::Incompatible));
    assert_eq!(d.prepare_files("1:1".into(), dir("/root"), Err(ScanError::Failed)), Err(DeliveryError::LocalIo));
    assert!(matches!(d.finish_files("1:1", &dir("/root")), Ok(None)));
    assert_eq!(d.prepare_files("1:1".into(), dir("/root"), Ok(Snapshot::absent())), Ok(()));
    assert_eq!(d.bind_files("1:1".into(), dir("/images/t1"), Err(ScanError::NotFound)), Ok(()));
    match d.finish_files("1:1", &dir("/root")) {
        Ok(Some((before, Some(generated)))) => {
            assert_eq!(before.directory, dir("/root"));
            assert_eq!(generated.directory, dir("/images/t1"));
            assert!(generated.snapshot.complete);
        }
        _ => panic!("both baselines are kept"),
    }
    assert!(matches!(d.finish_files("1:1", &dir("/root")), Ok(None)));
    assert_eq!(d.prepare_files("1:2".into(), dir("/root"), Ok(Snapshot::absent())), Ok(()));
    assert!(matches!(d.finish_files("1:2", &dir("/moved")), Err(DeliveryError::LocalIo)));
    assert_eq!(d.bind_files("1:3".into(), dir("/images/t"), Err(ScanError::Failed)), Err(DeliveryError::LocalIo));
    assert_eq!(Deliveries::new().thread_directory("anything"), Ok(None));
}

#[test]
fn attachments_are_bounded_in_count_and_size() {
    assert_eq!(check_attachments(10), Ok(()));
    assert_eq!(check_attachments(11), Err(DeliveryError::TooLarge));
    assert_eq!(check_download(ARTIFACT_BYTES, ARTIFACT_BYTES), Ok(()));
    assert_eq!(check_download(ARTIFACT_BYTES + 1, 0), Err(DeliveryError::TooLarge));
    assert_eq!(check_download(0, ARTIFACT_BYTES + 1), Err(DeliveryError::TooLarge));
    assert_eq!(io_error(), DeliveryError::LocalIo);
}

#[test]
fn staged_attachments_are_named_in_the_prompt() {
    let mut files = PreparedFiles::default();
    files.staged(dir("/root/a.txt"), false);
    files.staged(dir("/root/b.png"), true);
    assert_eq!(files.prompt, "\n用户附件（作为数据读取）：/root/a.txt\n用户附件（作为数据读取）：/root/b.png");
    assert_eq!(files.images, vec![dir("/root/b.png")]);
}

#[test]
fn uploads_are_named_by_their_file() {
    assert_eq!(upload_name(&dir("out/report.pdf")), "report.pdf");
    assert_eq!(upload_kind(&dir("out/a.PNG")), ResourceKind::Image);
    assert_eq!(upload_kind(&dir("out/a.png")), ResourceKind::Image);
    assert_eq!(upload_kind(&dir("out/a.pdf")), ResourceKind::File);
}

#[test]
fn reports_say_what_was_and_was_not_sent() {
    assert_eq!(report(vec![], 0, true), None);
    assert_eq!(
        report(vec![report_upload(&dir("a.pdf"), true), report_upload(&dir("b.pdf"), false)], 3, false),
        Some(
            "成果物处理结果（最多 10 项）：\na.pdf：已发送\nb.pdf：发送失败、无法读取或超过 20 MiB，未自动重试\n\
             另有 3 项因单文件 20 MiB 或每轮 10 项上限未发送。\n扫描达到上限或部分路径无法读取，差异与成果列表可能不完整。"
                .to_string()
        )
    );
}

#[test]
fn diffs_are_cards_with_a_text_fallback() {
    let (panel, fallback) = diff_card(FileDiff { path: dir("a.rs"), content: "-a\n+b".into() });
    assert_eq!(panel.title, "本轮文件差异：a.rs");
    assert_eq!(panel.body, "-a\n+b");
    assert_eq!(fallback, "本轮文件差异：a.rs\n-a\n+b");
}

#[test]
fn delivered_diffs_are_shorter_than_scanned_ones() {
    assert_eq!(
        Limits::default(),
        Limits { files: 200, text_bytes: 262144, entries: 10_000, diff_chars: 20_000 }
    );
    assert_eq!(Limits::delivery(), Limits { diff_chars: 4000, ..Limits::default() });
}
