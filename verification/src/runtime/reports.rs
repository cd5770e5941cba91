//! How the sender delivers a request, what is recorded of a delivery, and what
//! a user is told of one that failed.
use vstd::prelude::*;
use vstd::string::*;
use crate::diagnostics::{Event, Status};
use crate::presentation::{Request, RequestText};
use crate::runtime::done_task::success;
use crate::runtime::state::{Record, RecordText};

verus! {

/// The way in which a request goes out.
#[derive(Debug, Clone, Copy, PartialEq, Eq, Structural)]
pub enum Route {
    /// One text message.
    Text,
    /// The cards of an answer.
    Answer,
    /// The card of a preview.
    Preview,
    /// Nothing is sent.
    Dropped,
}

/// Cards go out only where the messenger shows them: without them an answer is
/// one text, and a preview is left out.
pub open spec fn route_of(request: RequestText, rich: bool) -> Route {
    match request {
        RequestText::Text(..) => Route::Text,
        RequestText::Answer { .. } => if rich {
            Route::Answer
        } else {
            Route::Text
        },
        RequestText::Progress { .. } => if rich {
            Route::Preview
        } else {
            Route::Dropped
        },
    }
}

/// The way in which a request goes out; `rich` says that the messenger shows
/// cards.
pub fn route(request: &Request, rich: bool) -> (r: Route)
    ensures
        r == route_of(request@, rich),
{
    match request {
        Request::Text(..) => Route::Text,
        Request::Answer { .. } => if rich {
            Route::Answer
        } else {
            Route::Text
        },
        Request::Progress { .. } => if rich {
            Route::Preview
        } else {
            Route::Dropped
        },
    }
}

/// Records by their contents.
pub open spec fn record_texts(v: Seq<Record>) -> Seq<RecordText> {
    v.map_values(|r: Record| r@)
}

/// What is recorded of a text or an answer: an answer's delivery in any case, and
/// every failure.
pub open spec fn records_of(request: RequestText, delivered: bool) -> Seq<RecordText> {
    let answered = match request {
        RequestText::Answer { task, .. } => seq![
            RecordText { event: Event::AnswerDelivered, status: success(delivered), task: Some(task), count: 0 },
        ],
        _ => Seq::empty(),
    };
    if delivered || request is Progress {
        answered
    } else {
        answered.push(RecordText { event: Event::DeliveryFailed, status: Status::Failed, task: None, count: 0 })
    }
}

fn status_of(ok: bool) -> (r: Status)
    ensures
        r == success(ok),
{
    if ok {
        Status::Succeeded
    } else {
        Status::Failed
    }
}

/// What is recorded once a request went out, or did not.
pub fn sent_records(request: &Request, delivered: bool) -> (r: Vec<Record>)
    ensures
        record_texts(r@) == records_of(request@, delivered),
{
    let mut r: Vec<Record> = Vec::new();
    proof {
        assert(record_texts(r@) =~= Seq::empty());
    }
    match request {
        Request::Answer { task, .. } => {
            r.push(
                Record { event: Event::AnswerDelivered, status: status_of(delivered), task: Some(task.clone()), count: 0 },
            );
            proof {
                assert(record_texts(r@) =~= seq![r@[0]@]);
            }
        },
        _ => {},
    }
    let preview = match request {
        Request::Progress { .. } => true,
        _ => false,
    };
    if !delivered && !preview {
        let ghost before = r@;
        r.push(Record { event: Event::DeliveryFailed, status: Status::Failed, task: None, count: 0 });
        proof {
            assert(record_texts(r@) =~= record_texts(before).push(r@.last()@));
        }
    }
    r
}

/// What a user is told when the files of a task could not be delivered in time.
pub open spec fn files_notice(delivered: bool) -> Option<Seq<char>> {
    if delivered {
        None
    } else {
        Some("成果物处理失败或超时，未自动重试；请检查工作目录。"@)
    }
}

/// What is recorded of a task's files, and what its user is told.
pub fn files_report(task: &str, delivered: bool) -> (r: (Record, Option<String>))
    ensures
        r.0@ == (RecordText { event: Event::FilesFinished, status: success(delivered), task: Some(task@), count: 0 }),
        crate::text::opt(r.1) == files_notice(delivered),
{
    let record = Record {
        event: Event::FilesFinished,
        status: status_of(delivered),
        task: Some(task.to_owned()),
        count: 0,
    };
    if delivered {
        (record, None)
    } else {
        (record, Some("成果物处理失败或超时，未自动重试；请检查工作目录。".to_owned()))
    }
}

/// A text always goes out as a text. Where cards are shown, an answer goes out as
/// cards and a preview as one; elsewhere an answer is a text and a preview is
/// left out.
pub proof fn cards_go_where_they_are_shown(request: Request, rich: bool, r: Route)
    requires
        call_ensures(route, (&request, rich), r),
    ensures
        request is Text ==> r == Route::Text,
        request is Answer && rich ==> r == Route::Answer,
        request is Answer && !rich ==> r == Route::Text,
        request is Progress && rich ==> r == Route::Preview,
        request is Progress && !rich ==> r == Route::Dropped,
{
}

/// Of an answer it is recorded whether it was delivered, under its task; of
/// anything but a preview it is recorded that it failed, if it did.
pub proof fn deliveries_are_recorded(request: RequestText, task: Seq<char>, chat: Seq<char>, text: Seq<char>)
    ensures
        request == (RequestText::Answer { task, chat, text }) ==> records_of(request, true) == seq![
            RecordText { event: Event::AnswerDelivered, status: Status::Succeeded, task: Some(task), count: 0 },
        ] && records_of(request, false).len() == 2 && records_of(request, false)[0].status == Status::Failed && records_of(
            request,
            false,
        )[0].task == Some(task) && records_of(request, false)[1].event == Event::DeliveryFailed,
        request == RequestText::Text(chat, text) ==> records_of(request, true).len() == 0 && records_of(request, false).len() == 1
            && records_of(request, false)[0].event == Event::DeliveryFailed,
        request == (RequestText::Progress { task, chat, text }) ==> records_of(request, true).len() == 0 && records_of(
            request,
            false,
        ).len() == 0,
{
}

} // verus!
