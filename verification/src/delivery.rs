//! The delivery of a finished task's files: what changed is shown first, then
//! the selected files are opened and uploaded, then their user is told what
//! became of them.
use vstd::prelude::*;
use vstd::string::*;
use std::collections::VecDeque;
use crate::files::{
    advanced, candidate_texts, collect, diff_card, diff_view, file_name, found, generated_candidates, generated_complete,
    io_error, is_image_path, opening_settled, report, report_lines, report_upload, upload_kind, upload_line, upload_name,
    distinct, CandidateText, FileDiff, Generated, ScanError, Selection, SelectionText, Snapshot,
};
use crate::messaging::{DeliveryError, ResourceKind};
use crate::model::{Directory, DirectoryText};
use crate::ports::path_texts;
use crate::runtime::flow::lines;
use crate::text::texts;
use crate::view::{Panel, PanelView};

verus! {

/// What the scans after a task found.
pub struct Found {
    pub after: Snapshot,
    pub changed: Vec<Directory>,
    pub diffs: Vec<FileDiff>,
    pub generated: Generated,
}

impl Found {
    pub open spec fn wf(&self) -> bool {
        self.after.wf() && self.generated.wf()
    }
}

/// Where a delivery stands, and so what is to be done next.
pub enum DeliveryStage {
    /// The directory is to be scanned and compared with the baseline.
    Scanning,
    /// The card of a diff is to be sent.
    Showing { panel: Panel, fallback: String },
    /// The card was not delivered: its text is to be sent.
    Telling { fallback: String },
    /// A stable handle of a file is to be opened.
    Opening { root: Directory, relative: Directory },
    /// An opened file is to be uploaded.
    Uploading { name: String, kind: ResourceKind },
    /// The report is to be sent.
    Reporting { text: String },
    Ended(Result<(), DeliveryError>),
}

/// A stage by its texts.
pub enum StageText {
    Scanning,
    Showing { panel: PanelView, fallback: Seq<char> },
    Telling { fallback: Seq<char> },
    Opening { root: DirectoryText, relative: DirectoryText },
    Uploading { name: Seq<char>, kind: ResourceKind },
    Reporting { text: Seq<char> },
    Ended(Result<(), DeliveryError>),
}

impl View for DeliveryStage {
    type V = StageText;

    open spec fn view(&self) -> StageText {
        match self {
            DeliveryStage::Scanning => StageText::Scanning,
            DeliveryStage::Showing { panel, fallback } => StageText::Showing { panel: panel@, fallback: fallback@ },
            DeliveryStage::Telling { fallback } => StageText::Telling { fallback: fallback@ },
            DeliveryStage::Opening { root, relative } => StageText::Opening { root: root@, relative: relative@ },
            DeliveryStage::Uploading { name, kind } => StageText::Uploading { name: name@, kind: *kind },
            DeliveryStage::Reporting { text } => StageText::Reporting { text: text@ },
            DeliveryStage::Ended(r) => StageText::Ended(*r),
        }
    }
}

/// What the file system or the messenger answered; a card or an upload that was
/// not confirmed in time counts as not delivered.
pub enum DeliveryEvent {
    Scanned(Result<Found, ScanError>),
    Shown(bool),
    Told(Result<(), DeliveryError>),
    Opened(bool),
    Uploaded(bool),
}

impl DeliveryEvent {
    pub open spec fn wf(&self) -> bool {
        self matches DeliveryEvent::Scanned(Ok(f)) ==> f.wf()
    }
}

/// The delivery of one task's files.
pub struct Delivery {
    directory: Directory,
    complete: bool,
    diffs: VecDeque<FileDiff>,
    selection: Selection,
    reported: Vec<String>,
    stage: DeliveryStage,
}

/// A delivery by its contents. `diffs` wait to be shown; `reported` says what
/// became of the first selected files.
pub struct DeliveryText {
    pub directory: DirectoryText,
    pub complete: bool,
    pub diffs: Seq<FileDiff>,
    pub selection: SelectionText,
    pub reported: Seq<Seq<char>>,
    pub stage: StageText,
}

/// No candidate was looked at yet.
pub open spec fn unselected(candidates: Seq<CandidateText>) -> SelectionText {
    SelectionText { candidates, next: 0, selected: Seq::empty(), omitted: 0, opening: false }
}

/// How a delivery begins.
pub open spec fn delivery_begin(directory: DirectoryText, before_complete: bool) -> DeliveryText {
    DeliveryText {
        directory,
        complete: before_complete,
        diffs: Seq::empty(),
        selection: unselected(Seq::empty()),
        reported: Seq::empty(),
        stage: StageText::Scanning,
    }
}

/// The report is sent, unless there is nothing to say.
pub open spec fn to_report(d: DeliveryText) -> DeliveryText {
    let all = report_lines(d.reported, d.selection.omitted, d.complete);
    DeliveryText {
        stage: if all.len() == 0 {
            StageText::Ended(Ok(()))
        } else {
            StageText::Reporting { text: "成果物处理结果（最多 10 项）：\n"@ + lines(all) }
        },
        ..d
    }
}

/// The name and the kind under which a file is uploaded.
pub open spec fn upload_stage(file: DirectoryText) -> StageText {
    StageText::Uploading {
        name: match file_name(file.path) {
            Some(name) => name,
            None => "artifact"@,
        },
        kind: if is_image_path(file.path) {
            ResourceKind::Image
        } else {
            ResourceKind::File
        },
    }
}

/// The next selected file is uploaded, or all of them are reported.
pub open spec fn to_upload(d: DeliveryText) -> DeliveryText {
    if d.reported.len() < d.selection.selected.len() {
        DeliveryText { stage: upload_stage(d.selection.selected[d.reported.len() as int]), ..d }
    } else {
        to_report(d)
    }
}

/// The next candidate is opened, or the selection is complete.
pub open spec fn to_opening(d: DeliveryText, opened: bool) -> DeliveryText {
    let s = advanced(opening_settled(d.selection, opened));
    let t = DeliveryText { selection: s, ..d };
    if s.opening {
        let c = s.candidates[s.next - 1];
        DeliveryText { stage: StageText::Opening { root: c.root, relative: c.relative }, ..t }
    } else {
        to_upload(t)
    }
}

/// The next diff is shown, or the selection begins.
pub open spec fn to_diffs(d: DeliveryText) -> DeliveryText {
    if d.diffs.len() > 0 {
        let path = d.diffs[0].path@.text;
        let content = d.diffs[0].content@;
        DeliveryText {
            stage: StageText::Showing {
                panel: diff_view(path, content),
                fallback: "本轮文件差异："@ + path + "\n"@ + content,
            },
            diffs: d.diffs.drop_first(),
            ..d
        }
    } else {
        to_opening(d, false)
    }
}

/// The delivery after an event. An event that its stage does not wait for
/// changes nothing.
pub open spec fn delivery_next(d: DeliveryText, event: DeliveryEvent) -> DeliveryText {
    match (d.stage, event) {
        (StageText::Scanning, DeliveryEvent::Scanned(Ok(f))) => to_diffs(
            DeliveryText {
                complete: d.complete && f.after.complete && generated_complete(f.generated),
                diffs: f.diffs@,
                selection: unselected(
                    found(d.directory, f.after@.files, path_texts(f.changed@), false) + generated_candidates(f.generated),
                ),
                ..d
            },
        ),
        (StageText::Scanning, DeliveryEvent::Scanned(Err(_))) => DeliveryText {
            stage: StageText::Ended(Err(DeliveryError::LocalIo)),
            ..d
        },
        (StageText::Showing { fallback, .. }, DeliveryEvent::Shown(shown)) => if shown {
            to_diffs(d)
        } else {
            DeliveryText { stage: StageText::Telling { fallback }, ..d }
        },
        (StageText::Telling { .. }, DeliveryEvent::Told(result)) => match result {
            Ok(_) => to_diffs(d),
            Err(e) => DeliveryText { stage: StageText::Ended(Err(e)), ..d },
        },
        (StageText::Opening { .. }, DeliveryEvent::Opened(opened)) => to_opening(d, opened),
        (StageText::Uploading { .. }, DeliveryEvent::Uploaded(sent)) => to_upload(
            DeliveryText {
                reported: d.reported.push(upload_line(d.selection.selected[d.reported.len() as int].text, sent)),
                ..d
            },
        ),
        (StageText::Reporting { .. }, DeliveryEvent::Told(result)) => DeliveryText { stage: StageText::Ended(result), ..d },
        _ => d,
    }
}

/// Every diff was shown or told.
pub open spec fn past_diffs(stage: StageText) -> bool {
    stage is Opening || past_selection(stage)
}

/// Every candidate was looked at.
pub open spec fn past_selection(stage: StageText) -> bool {
    stage is Uploading || stage is Reporting
}

/// Diffs come first, then the selection, then the uploads. Selected files are
/// reported in order, one line each; a file that is being uploaded is not
/// reported yet, and the report is sent after the last.
pub open spec fn delivery_wf(d: DeliveryText) -> bool {
    &&& d.selection.wf()
    &&& d.selection.opening == (d.stage is Opening)
    &&& past_diffs(d.stage) ==> d.diffs.len() == 0
    &&& past_selection(d.stage) ==> d.selection.next == d.selection.candidates.len()
    &&& !past_selection(d.stage) && !(d.stage is Ended) ==> d.reported.len() == 0
    &&& d.reported.len() <= d.selection.selected.len()
    &&& d.stage is Uploading ==> d.reported.len() < d.selection.selected.len()
    &&& d.stage is Reporting ==> d.reported.len() == d.selection.selected.len()
    &&& forall|i: int|
        0 <= i < d.reported.len() ==> (#[trigger] d.reported[i]) == upload_line(d.selection.selected[i].text, true)
            || d.reported[i] == upload_line(d.selection.selected[i].text, false)
}

impl Delivery {
    pub closed spec fn view(&self) -> DeliveryText {
        DeliveryText {
            directory: self.directory@,
            complete: self.complete,
            diffs: self.diffs@,
            selection: self.selection@,
            reported: texts(self.reported@),
            stage: self.stage@,
        }
    }

    pub closed spec fn wf(&self) -> bool {
        self.selection.wf() && delivery_wf(self@)
    }

    /// The delivery keeps its books.
    pub proof fn keeps_books(&self)
        requires
            self.wf(),
        ensures
            delivery_wf(self@),
    {
    }

    pub fn new(directory: Directory, before_complete: bool) -> (r: Self)
        ensures
            r.wf(),
            r@ == delivery_begin(directory@, before_complete),
    {
        let candidates: Vec<crate::files::Candidate> = Vec::new();
        proof {
            assert(candidate_texts(candidates@) =~= Seq::empty());
        }
        let r = Delivery {
            directory,
            complete: before_complete,
            diffs: VecDeque::new(),
            selection: Selection::new(candidates),
            reported: Vec::new(),
            stage: DeliveryStage::Scanning,
        };
        proof {
            r.selection.keeps_books();
            assert(texts(r.reported@) =~= Seq::empty());
            assert(r@.diffs =~= Seq::empty());
        }
        r
    }

    /// What is to be done next.
    pub fn stage(&self) -> (r: &DeliveryStage)
        ensures
            r@ == self@.stage,
    {
        &self.stage
    }

    fn enter_report(&mut self)
        requires
            old(self).selection.wf(),
            delivery_wf(DeliveryText { stage: StageText::Ended(Ok(())), ..old(self)@ }),
            old(self)@.diffs.len() == 0,
            old(self)@.selection.next == old(self)@.selection.candidates.len(),
            old(self)@.reported.len() == old(self)@.selection.selected.len(),
        ensures
            final(self).wf(),
            final(self)@ == to_report(old(self)@),
    {
        let mut said: Vec<String> = Vec::new();
        let mut i: usize = 0;
        while i < self.reported.len()
            invariant
                i <= self.reported@.len(),
                said@.len() == i,
                forall|j: int| 0 <= j < i ==> (#[trigger] said@[j])@ == self.reported@[j]@,
            decreases self.reported.len() - i,
        {
            said.push(self.reported[i].clone());
            i = i + 1;
        }
        proof {
            assert(texts(said@) =~= texts(self.reported@));
        }
        self.stage = match report(said, self.selection.omitted(), self.complete) {
            Some(text) => DeliveryStage::Reporting { text },
            None => DeliveryStage::Ended(Ok(())),
        };
    }

    fn enter_upload(&mut self)
        requires
            old(self).selection.wf(),
            delivery_wf(DeliveryText { stage: StageText::Ended(Ok(())), ..old(self)@ }),
            old(self)@.diffs.len() == 0,
            old(self)@.selection.next == old(self)@.selection.candidates.len(),
        ensures
            final(self).wf(),
            final(self)@ == to_upload(old(self)@),
    {
        let n: usize = self.reported.len();
        let selected = self.selection.selected();
        if n < selected.len() {
            proof {
                assert(path_texts(selected@)[n as int] == selected@[n as int]@);
            }
            let name = upload_name(&selected[n]);
            let kind = upload_kind(&selected[n]);
            self.stage = DeliveryStage::Uploading { name, kind };
        } else {
            self.enter_report();
        }
    }

    fn enter_opening(&mut self, opened: bool)
        requires
            old(self).selection.wf(),
            old(self)@.diffs.len() == 0,
            old(self)@.reported.len() == 0,
        ensures
            final(self).wf(),
            final(self)@ == to_opening(old(self)@, opened),
    {
        match self.selection.advance(opened) {
            Some((root, relative)) => {
                self.stage = DeliveryStage::Opening { root, relative };
                proof {
                    self.selection.keeps_books();
                }
            },
            None => {
                proof {
                    self.selection.keeps_books();
                }
                self.enter_upload();
            },
        }
    }

    fn enter_diffs(&mut self)
        requires
            old(self).selection.wf(),
            old(self)@.reported.len() == 0,
            !old(self)@.selection.opening,
        ensures
            final(self).wf(),
            final(self)@ == to_diffs(old(self)@),
    {
        let ghost before = self.diffs@;
        match self.diffs.pop_front() {
            Some(diff) => {
                let (panel, fallback) = diff_card(diff);
                self.stage = DeliveryStage::Showing { panel, fallback };
                proof {
                    self.selection.keeps_books();
                    assert(self.diffs@ =~= before.drop_first());
                }
            },
            None => {
                self.enter_opening(false);
            },
        }
    }

    /// Takes an answer.
    pub fn step(&mut self, event: DeliveryEvent)
        requires
            old(self).wf(),
            event.wf(),
        ensures
            final(self).wf(),
            final(self)@ == delivery_next(old(self)@, event),
    {
        proof {
            self.selection.keeps_books();
        }
        match (&self.stage, event) {
            (DeliveryStage::Scanning, DeliveryEvent::Scanned(result)) => match result {
                Ok(found) => {
                    let Found { after, changed, diffs, generated } = found;
                    let (candidates, complete) = collect(&self.directory, self.complete, &after, changed, generated);
                    self.complete = complete;
                    self.diffs = queue_of(diffs);
                    self.selection = Selection::new(candidates);
                    self.enter_diffs();
                },
                Err(_) => {
                    self.stage = DeliveryStage::Ended(Err(io_error()));
                },
            },
            (DeliveryStage::Showing { fallback, .. }, DeliveryEvent::Shown(shown)) => {
                if shown {
                    self.enter_diffs();
                } else {
                    let fallback = fallback.clone();
                    self.stage = DeliveryStage::Telling { fallback };
                }
            },
            (DeliveryStage::Telling { .. }, DeliveryEvent::Told(result)) => match result {
                Ok(()) => {
                    self.enter_diffs();
                },
                Err(e) => {
                    self.stage = DeliveryStage::Ended(Err(e));
                },
            },
            (DeliveryStage::Opening { .. }, DeliveryEvent::Opened(opened)) => {
                self.enter_opening(opened);
            },
            (DeliveryStage::Uploading { .. }, DeliveryEvent::Uploaded(sent)) => {
                let n: usize = self.reported.len();
                let selected = self.selection.selected();
                proof {
                    assert(path_texts(selected@)[n as int] == selected@[n as int]@);
                }
                let line = report_upload(&selected[n], sent);
                let ghost before = self.reported@;
                self.reported.push(line);
                proof {
                    assert(texts(self.reported@) =~= texts(before).push(line@));
                }
                self.enter_upload();
            },
            (DeliveryStage::Reporting { .. }, DeliveryEvent::Told(result)) => {
                self.stage = DeliveryStage::Ended(result);
            },
            _ => {},
        }
    }
}

fn queue_of(diffs: Vec<FileDiff>) -> (r: VecDeque<FileDiff>)
    ensures
        r@ == diffs@,
{
    let mut rest = diffs;
    let mut out: VecDeque<FileDiff> = VecDeque::new();
    let ghost all = rest@;
    proof {
        assert(out@ =~= all.skip(all.len() as int));
    }
    while rest.len() > 0
        invariant
            rest@.len() <= all.len(),
            rest@ == all.take(rest@.len() as int),
            out@ == all.skip(rest@.len() as int),
        decreases rest.len(),
    {
        match rest.pop() {
            Some(diff) => {
                out.push_front(diff);
                proof {
                    assert(rest@ =~= all.take(rest@.len() as int));
                    assert(out@ =~= all.skip(rest@.len() as int));
                }
            },
            None => {},
        }
    }
    proof {
        assert(out@ =~= all);
    }
    out
}

/// Once its report is due, a delivery has shown or told every diff, looked at
/// every candidate, and says of every selected file, in order and exactly once,
/// whether it was sent; what repeats no other file was selected or counted as
/// left out.
pub proof fn reports_are_complete(d: DeliveryText)
    requires
        delivery_wf(d),
        d.stage is Reporting,
    ensures
        d.diffs.len() == 0,
        d.reported.len() == d.selection.selected.len(),
        forall|i: int|
            0 <= i < d.reported.len() ==> (#[trigger] d.reported[i]) == upload_line(d.selection.selected[i].text, true)
                || d.reported[i] == upload_line(d.selection.selected[i].text, false),
        d.selection.selected.len() + d.selection.omitted == distinct(d.selection.candidates),
{
    assert(d.selection.candidates.take(d.selection.next as int) =~= d.selection.candidates);
}

/// A file is uploaded only after every diff was shown or told.
pub proof fn diffs_precede_uploads(d: DeliveryText, event: DeliveryEvent)
    requires
        delivery_wf(d),
        delivery_next(d, event).stage is Uploading,
    ensures
        delivery_next(d, event).diffs.len() == 0,
{
}

/// Diffs are shown one after another, each under its path and with its own
/// contents; one whose card was not delivered is told instead.
pub proof fn diffs_are_shown_in_order(d: DeliveryText)
    requires
        d.diffs.len() > 0,
        d.stage is Showing,
    ensures
        ({
            let next = delivery_next(d, DeliveryEvent::Shown(true));
            let path = d.diffs[0].path@.text;
            let content = d.diffs[0].content@;
            &&& next.diffs == d.diffs.drop_first()
            &&& next.stage matches StageText::Showing { panel, fallback } && panel.title == "本轮文件差异："@ + path && panel.body
                == content && fallback == "本轮文件差异："@ + path + "\n"@ + content
            &&& delivery_next(d, DeliveryEvent::Shown(false)).stage == (StageText::Telling {
                fallback: d.stage->Showing_fallback,
            })
            &&& delivery_next(d, DeliveryEvent::Shown(false)).diffs == d.diffs
        }),
{
}

/// An upload is reported as it went, and the next selected file follows, under
/// its own name and kind.
pub proof fn uploads_are_reported_as_they_went(d: DeliveryText, sent: bool)
    requires
        d.stage is Uploading,
        d.reported.len() < d.selection.selected.len(),
    ensures
        ({
            let next = delivery_next(d, DeliveryEvent::Uploaded(sent));
            let k = d.reported.len() as int;
            &&& next.reported == d.reported.push(
                d.selection.selected[k].text + "："@ + (if sent {
                    "已发送"@
                } else {
                    "发送失败、无法读取或超过 20 MiB，未自动重试"@
                }),
            )
            &&& next.selection == d.selection
            &&& k + 1 < d.selection.selected.len() ==> (next.stage matches StageText::Uploading { name, kind } && (file_name(
                d.selection.selected[k + 1].path,
            ) matches Some(n) ==> name == n) && (kind == ResourceKind::Image <==> is_image_path(
                d.selection.selected[k + 1].path,
            )))
            &&& k + 1 == d.selection.selected.len() ==> next.stage is Reporting
        }),
{
    let all = report_lines(
        delivery_next(d, DeliveryEvent::Uploaded(sent)).reported,
        d.selection.omitted,
        d.complete,
    );
    assert(all.len() > 0);
}

} // verus!
