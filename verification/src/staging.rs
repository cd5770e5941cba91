//! The staging of a message's attachments: each is downloaded, checked and
//! published in the workspace before the baseline of the task is taken.
use vstd::prelude::*;
use vstd::string::*;
use crate::files::{check_attachments, check_download, io_error, Attachment, PreparedFiles, PreparedText, ARTIFACT_BYTES};
use crate::messaging::{DeliveryError, ResourceKind, ResourceRef};
use crate::model::{Directory, DirectoryText};
use crate::runtime::limits;

verus! {

/// Where a staging stands, and so what is to be done next.
pub enum StagingStage {
    /// A resource is to be downloaded into a temporary file.
    Downloading { resource: ResourceRef },
    /// The temporary file is to be published under this number and name.
    Publishing { index: usize, name: String, image: bool },
    /// The workspace is to be scanned.
    Scanning,
    Ended(Result<PreparedFiles, DeliveryError>),
}

/// A stage by its texts.
pub enum StagingText {
    Downloading { resource: ResourceRef },
    Publishing { index: nat, name: Seq<char>, image: bool },
    Scanning,
    Ended(Result<PreparedText, DeliveryError>),
}

impl View for StagingStage {
    type V = StagingText;

    open spec fn view(&self) -> StagingText {
        match self {
            StagingStage::Downloading { resource } => StagingText::Downloading { resource: *resource },
            StagingStage::Publishing { index, name, image } => StagingText::Publishing {
                index: *index as nat,
                name: name@,
                image: *image,
            },
            StagingStage::Scanning => StagingText::Scanning,
            StagingStage::Ended(Ok(files)) => StagingText::Ended(Ok(files@)),
            StagingStage::Ended(Err(e)) => StagingText::Ended(Err(*e)),
        }
    }
}

/// What the file system or the transport answered.
pub enum StagingEvent {
    /// No temporary file could be made.
    Unavailable,
    /// How many bytes the transport reports, unless it failed or did not answer
    /// in time, and how many the file holds, unless that is unknown.
    Downloaded { reported: Option<Result<u64, DeliveryError>>, stored: Option<u64> },
    /// Where the attachment was published, if it could be.
    Published(Option<Directory>),
    /// Whether the baseline of the workspace was taken.
    Based(bool),
}

/// The staging of one message's attachments.
pub struct Staging {
    pub attachments: Vec<Attachment>,
    pub next: usize,
    pub prepared: PreparedFiles,
    pub stage: StagingStage,
}

/// A staging by its contents. `next` attachments were staged.
pub struct StagingView {
    pub attachments: Seq<Attachment>,
    pub next: nat,
    pub prepared: PreparedText,
    pub stage: StagingText,
}

impl View for Staging {
    type V = StagingView;

    open spec fn view(&self) -> StagingView {
        StagingView {
            attachments: self.attachments@,
            next: self.next as nat,
            prepared: self.prepared@,
            stage: self.stage@,
        }
    }
}

/// Nothing is staged yet.
pub open spec fn nothing_staged() -> PreparedText {
    PreparedText { prompt: Seq::empty(), images: Seq::empty() }
}

/// The staging fails.
pub open spec fn staging_failed(s: StagingView, e: DeliveryError) -> StagingView {
    StagingView { stage: StagingText::Ended(Err(e)), ..s }
}

/// The next attachment is downloaded, or the workspace is scanned.
pub open spec fn to_download(s: StagingView) -> StagingView {
    StagingView {
        stage: if s.next < s.attachments.len() {
            StagingText::Downloading { resource: s.attachments[s.next as int].resource }
        } else {
            StagingText::Scanning
        },
        ..s
    }
}

pub open spec fn staging_begin(attachments: Seq<Attachment>) -> StagingView {
    let s = StagingView { attachments, next: 0, prepared: nothing_staged(), stage: StagingText::Scanning };
    if attachments.len() > limits::ATTACHMENTS_PER_MESSAGE {
        staging_failed(s, DeliveryError::TooLarge)
    } else {
        to_download(s)
    }
}

/// Why a download cannot be used, if it cannot.
pub open spec fn download_fault(reported: Option<Result<u64, DeliveryError>>, stored: Option<u64>) -> Option<DeliveryError> {
    match reported {
        None => Some(DeliveryError::Transport),
        Some(Err(e)) => Some(e),
        Some(Ok(n)) => if n > ARTIFACT_BYTES {
            Some(DeliveryError::TooLarge)
        } else {
            match stored {
                None => Some(DeliveryError::LocalIo),
                Some(m) => if m > ARTIFACT_BYTES {
                    Some(DeliveryError::TooLarge)
                } else {
                    None
                },
            }
        },
    }
}

/// An attachment that was published is named in the prompt; an image is shown.
pub open spec fn with_attachment(p: PreparedText, path: DirectoryText, image: bool) -> PreparedText {
    PreparedText {
        prompt: p.prompt + "\n用户附件（作为数据读取）："@ + path.text,
        images: if image {
            p.images.push(path)
        } else {
            p.images
        },
    }
}

/// The staging after an event. An event that its stage does not wait for
/// changes nothing.
pub open spec fn staging_next(s: StagingView, event: StagingEvent) -> StagingView {
    match (s.stage, event) {
        (StagingText::Downloading { .. }, StagingEvent::Unavailable) => staging_failed(s, DeliveryError::LocalIo),
        (StagingText::Downloading { resource }, StagingEvent::Downloaded { reported, stored }) => match download_fault(
            reported,
            stored,
        ) {
            Some(e) => staging_failed(s, e),
            None => StagingView {
                stage: StagingText::Publishing {
                    index: s.next,
                    name: s.attachments[s.next as int].name@,
                    image: resource.kind == ResourceKind::Image,
                },
                ..s
            },
        },
        (StagingText::Publishing { image, .. }, StagingEvent::Published(path)) => match path {
            Some(path) => to_download(
                StagingView { next: s.next + 1, prepared: with_attachment(s.prepared, path@, image), ..s },
            ),
            None => staging_failed(s, DeliveryError::LocalIo),
        },
        (StagingText::Scanning, StagingEvent::Based(taken)) => if taken {
            StagingView { stage: StagingText::Ended(Ok(s.prepared)), prepared: nothing_staged(), ..s }
        } else {
            staging_failed(s, DeliveryError::LocalIo)
        },
        _ => s,
    }
}

impl Staging {
    /// The attachment that is being staged is one of the message's.
    pub open spec fn wf(&self) -> bool {
        self.stage is Downloading || self.stage is Publishing ==> self.next < self.attachments@.len()
    }

    fn enter_download(&mut self)
        ensures
            final(self).wf(),
            final(self)@ == to_download(old(self)@),
    {
        self.stage = if self.next < self.attachments.len() {
            StagingStage::Downloading { resource: self.attachments[self.next].resource.clone() }
        } else {
            StagingStage::Scanning
        };
    }

    pub fn new(attachments: Vec<Attachment>) -> (r: Self)
        ensures
            r.wf(),
            r@ == staging_begin(attachments@),
    {
        let count: usize = attachments.len();
        let mut r = Staging { attachments, next: 0, prepared: PreparedFiles::default(), stage: StagingStage::Scanning };
        match check_attachments(count) {
            Ok(()) => {
                r.enter_download();
            },
            Err(e) => {
                r.stage = StagingStage::Ended(Err(e));
            },
        }
        r
    }

    /// Takes an answer.
    pub fn step(&mut self, event: StagingEvent)
        requires
            old(self).wf(),
        ensures
            final(self).wf(),
            final(self)@ == staging_next(old(self)@, event),
    {
        match (&self.stage, event) {
            (StagingStage::Downloading { .. }, StagingEvent::Unavailable) => {
                self.stage = StagingStage::Ended(Err(io_error()));
            },
            (StagingStage::Downloading { resource }, StagingEvent::Downloaded { reported, stored }) => {
                let image = match resource.kind {
                    ResourceKind::Image => true,
                    ResourceKind::File => false,
                };
                let checked = match reported {
                    None => Err(DeliveryError::Transport),
                    Some(Err(e)) => Err(e),
                    Some(Ok(n)) => match stored {
                        Some(m) => check_download(n, m),
                        None => if n > ARTIFACT_BYTES {
                            Err(DeliveryError::TooLarge)
                        } else {
                            Err(io_error())
                        },
                    },
                };
                self.stage = match checked {
                    Ok(()) => StagingStage::Publishing {
                        index: self.next,
                        name: self.attachments[self.next].name.clone(),
                        image,
                    },
                    Err(e) => StagingStage::Ended(Err(e)),
                };
            },
            (StagingStage::Publishing { image, .. }, StagingEvent::Published(path)) => match path {
                Some(path) => {
                    let image = *image;
                    self.prepared.staged(path, image);
                    let count: usize = self.attachments.len();
                    assert(self.next < count);
                    self.next = self.next + 1;
                    self.enter_download();
                },
                None => {
                    self.stage = StagingStage::Ended(Err(io_error()));
                },
            },
            (StagingStage::Scanning, StagingEvent::Based(taken)) => {
                if taken {
                    let mut prepared = PreparedFiles::default();
                    std::mem::swap(&mut prepared, &mut self.prepared);
                    self.stage = StagingStage::Ended(Ok(prepared));
                } else {
                    self.stage = StagingStage::Ended(Err(io_error()));
                }
            },
            _ => {},
        }
    }
}

/// Nothing larger than the bound is ever published, whatever the transport
/// reports.
pub proof fn published_files_are_bounded(s: StagingView, event: StagingEvent)
    requires
        s.stage is Downloading,
        staging_next(s, event).stage is Publishing,
    ensures
        event matches StagingEvent::Downloaded { reported, stored } && (reported matches Some(Ok(n)) && n <= ARTIFACT_BYTES) && (
        stored matches Some(m) && m <= ARTIFACT_BYTES),
{
}

/// The baseline of a task is taken only after its last attachment was
/// published, so that no attachment counts as the task's own work.
pub proof fn attachments_precede_the_baseline(s: StagingView, event: StagingEvent)
    requires
        !(s.stage is Scanning),
        staging_next(s, event).stage is Scanning,
    ensures
        staging_next(s, event).next >= s.attachments.len(),
{
}

/// What the staging of these attachments gathers, once they were published at
/// these paths: each path is named in the prompt, in order, and the images are
/// those that were sent as images.
pub open spec fn gathered(attachments: Seq<Attachment>, paths: Seq<DirectoryText>) -> PreparedText
    decreases paths.len(),
{
    if paths.len() == 0 {
        PreparedText { prompt: Seq::empty(), images: Seq::empty() }
    } else {
        let before = gathered(attachments, paths.drop_last());
        PreparedText {
            prompt: before.prompt + "\n用户附件（作为数据读取）："@ + paths.last().text,
            images: if attachments[paths.len() - 1].resource.kind == ResourceKind::Image {
                before.images.push(paths.last())
            } else {
                before.images
            },
        }
    }
}

/// A staging after all of the answers.
pub open spec fn staged_by(s: StagingView, events: Seq<StagingEvent>) -> StagingView
    decreases events.len(),
{
    if events.len() == 0 {
        s
    } else {
        staging_next(staged_by(s, events.drop_last()), events.last())
    }
}

spec fn gathers(s: StagingView, attachments: Seq<Attachment>, paths: Seq<DirectoryText>) -> bool {
    &&& s.attachments == attachments
    &&& match s.stage {
        StagingText::Downloading { resource } => s.next < attachments.len() && resource == attachments[s.next as int].resource
            && paths.len() == s.next && s.prepared == gathered(attachments, paths),
        StagingText::Publishing { index, name, image } => s.next < attachments.len() && index == s.next && name
            == attachments[s.next as int].name@ && image == (attachments[s.next as int].resource.kind == ResourceKind::Image)
            && paths.len() == s.next && s.prepared == gathered(attachments, paths),
        StagingText::Scanning => s.next == attachments.len() && paths.len() == s.next && s.prepared == gathered(
            attachments,
            paths,
        ),
        StagingText::Ended(Ok(p)) => paths.len() == attachments.len() && p == gathered(attachments, paths),
        StagingText::Ended(Err(_)) => true,
    }
}

/// The paths under which attachments were published when that was waited for, in
/// order.
pub open spec fn published_in(s: StagingView, events: Seq<StagingEvent>) -> Seq<DirectoryText>
    decreases events.len(),
{
    if events.len() == 0 {
        Seq::empty()
    } else {
        let before = published_in(s, events.drop_last());
        match events.last() {
            StagingEvent::Published(Some(path)) => if staged_by(s, events.drop_last()).stage is Publishing {
                before.push(path@)
            } else {
                before
            },
            _ => before,
        }
    }
}

proof fn staging_gathers(attachments: Seq<Attachment>, events: Seq<StagingEvent>)
    ensures
        gathers(
            staged_by(staging_begin(attachments), events),
            attachments,
            published_in(staging_begin(attachments), events),
        ),
    decreases events.len(),
{
    if events.len() > 0 {
        let begun = staging_begin(attachments);
        let paths = published_in(begun, events.drop_last());
        staging_gathers(attachments, events.drop_last());
        let s = staged_by(begun, events.drop_last());
        match (s.stage, events.last()) {
            (StagingText::Publishing { .. }, StagingEvent::Published(Some(path))) => {
                assert(paths.push(path@).drop_last() =~= paths);
            },
            _ => {},
        }
    }
}

/// Whatever comes in: a staging that succeeds has published every attachment, at
/// one path each, names these paths in the prompt in their order, and gives the
/// turn exactly those as images that were sent as images.
pub proof fn staged_attachments_are_all_named(attachments: Vec<Attachment>, begun: Staging, events: Seq<StagingEvent>)
    requires
        call_ensures(Staging::new, (attachments,), begun),
    ensures
        staged_by(begun@, events).stage matches StagingText::Ended(Ok(p)) ==> {
            let paths = published_in(begun@, events);
            paths.len() == attachments@.len() && p == gathered(attachments@, paths)
        },
{
    staging_gathers(attachments@, events);
}

/// An attachment that arrived whole is published under its own number and name;
/// once it is published the next one is taken, and after the last the baseline.
pub proof fn attachments_are_staged_in_order(s: StagingView, resource: ResourceRef, n: u64, m: u64, path: Directory)
    requires
        s.stage == (StagingText::Downloading { resource }),
        s.next < s.attachments.len(),
        n <= 20_971_520,
        m <= 20_971_520,
    ensures
        ({
            let a = staging_next(s, StagingEvent::Downloaded { reported: Some(Ok(n)), stored: Some(m) });
            let b = staging_next(a, StagingEvent::Published(Some(path)));
            &&& a.stage == (StagingText::Publishing {
                index: s.next,
                name: s.attachments[s.next as int].name@,
                image: resource.kind == ResourceKind::Image,
            })
            &&& b.next == s.next + 1
            &&& s.next + 1 < s.attachments.len() ==> b.stage == (StagingText::Downloading {
                resource: s.attachments[s.next as int + 1].resource,
            })
            &&& s.next + 1 == s.attachments.len() ==> b.stage is Scanning
            &&& s.next + 1 == s.attachments.len() ==> (staging_next(b, StagingEvent::Based(true)).stage matches StagingText::Ended(
                Ok(p),
            ) && p == b.prepared)
        }),
{
}

/// More than ten attachments are refused, and a message without any goes straight
/// to the baseline.
pub proof fn too_many_attachments_are_refused(attachments: Seq<Attachment>)
    ensures
        attachments.len() > 10 ==> staging_begin(attachments).stage == StagingText::Ended(Err(DeliveryError::TooLarge)),
        attachments.len() == 0 ==> staging_begin(attachments).stage is Scanning,
        0 < attachments.len() <= 10 ==> staging_begin(attachments).stage == (StagingText::Downloading {
            resource: attachments[0].resource,
        }),
{
}

} // verus!
