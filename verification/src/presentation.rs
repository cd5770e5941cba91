//! Serial answer and preview delivery. Platform JSON stays in the messenger adapter.
//!
//! Delivery itself happens outside: [`Presentation`] says which card to send or
//! update, takes the receipt back and remembers what it needs for the next one.
//! An answer is delivered step by step by [`Answering`].
use vstd::prelude::*;
use vstd::string::*;
use crate::answering::{answering_begin, Answering};
pub use crate::markdown::markdown_parts;
use crate::markdown::{
    joined, parts_are_bounded, parts_of, pieces, pieces_hold_the_text, short_texts_are_one_part, unfenced,
};
use crate::messaging::MessageId;
use crate::outcome::{answer_tone, answer_tone_of};
use crate::text::{begins_with, byte_count, byte_len, chars_of, decimal, decimal_text, opt, same, text_of, texts};
use crate::view::{Panel, PanelView, Tone};

verus! {

/// What the sender is asked to deliver.
pub enum Request {
    Text(String, String),
    Answer { task: String, chat: String, text: String },
    Progress { task: String, chat: String, text: String },
}

/// A request by its texts.
pub enum RequestText {
    Text(Seq<char>, Seq<char>),
    Answer { task: Seq<char>, chat: Seq<char>, text: Seq<char> },
    Progress { task: Seq<char>, chat: Seq<char>, text: Seq<char> },
}

impl View for Request {
    type V = RequestText;

    open spec fn view(&self) -> RequestText {
        match self {
            Request::Text(chat, text) => RequestText::Text(chat@, text@),
            Request::Answer { task, chat, text } => RequestText::Answer { task: task@, chat: chat@, text: text@ },
            Request::Progress { task, chat, text } => RequestText::Progress { task: task@, chat: chat@, text: text@ },
        }
    }
}

/// The preview that a task's user sees, and the task whose previews failed.
pub struct Presentation {
    preview: Option<(String, MessageId)>,
    failed_task: Option<String>,
}

/// A presentation by its texts.
pub struct PresentationText {
    pub preview: Option<(Seq<char>, Seq<char>)>,
    pub failed_task: Option<Seq<char>>,
}

/// What to do with a preview.
pub enum ProgressStep {
    /// Previews of the task have failed before: nothing is sent.
    Skip,
    Send(Panel),
    Update(MessageId, Panel),
}

/// What to do with a preview, by its texts.
pub enum ProgressText {
    Skip,
    Send(PanelView),
    Update(Seq<char>, PanelView),
}

impl View for ProgressStep {
    type V = ProgressText;

    open spec fn view(&self) -> ProgressText {
        match self {
            ProgressStep::Skip => ProgressText::Skip,
            ProgressStep::Send(p) => ProgressText::Send(p@),
            ProgressStep::Update(id, p) => ProgressText::Update(id.0@, p@),
        }
    }
}

/// One card of an answer, and the text sent in its place when the card's
/// delivery is not confirmed.
pub struct AnswerPart {
    pub panel: Panel,
    pub fallback: String,
}

/// One card of an answer by its texts.
pub struct PartText {
    pub panel: PanelView,
    pub fallback: Seq<char>,
}

impl View for AnswerPart {
    type V = PartText;

    open spec fn view(&self) -> PartText {
        PartText { panel: self.panel@, fallback: self.fallback@ }
    }
}

/// The parts of an answer by their texts.
pub open spec fn part_texts(v: Seq<AnswerPart>) -> Seq<PartText> {
    v.map_values(|p: AnswerPart| p@)
}

/// The card of a preview.
pub open spec fn preview_card(text: Seq<char>) -> PanelView {
    PanelView { title: "Codex 执行进度"@, body: parts_of(text)[0], tone: Tone::Info, buttons: Seq::empty() }
}

/// The step for a preview of `task`.
pub open spec fn progress_step(p: PresentationText, task: Seq<char>, text: Seq<char>) -> ProgressText {
    if p.failed_task == Some(task) {
        ProgressText::Skip
    } else {
        match p.preview {
            Some((shown, id)) => if shown == task {
                ProgressText::Update(id, preview_card(text))
            } else {
                ProgressText::Send(preview_card(text))
            },
            None => ProgressText::Send(preview_card(text)),
        }
    }
}

/// The preview of another task is forgotten.
pub open spec fn progressing(p: PresentationText, task: Seq<char>) -> PresentationText {
    if p.failed_task == Some(task) {
        p
    } else {
        match p.preview {
            Some((shown, id)) => if shown == task {
                p
            } else {
                PresentationText { preview: None, ..p }
            },
            None => p,
        }
    }
}

/// A preview was delivered as a message, or was not.
pub open spec fn progressed(p: PresentationText, task: Seq<char>, delivered: Option<Seq<char>>) -> PresentationText {
    match delivered {
        Some(id) => PresentationText { preview: Some((task, id)), ..p },
        None => PresentationText { failed_task: Some(task), ..p },
    }
}

/// The length of a text's first line, without the line feed.
pub open spec fn line_end(s: Seq<char>) -> nat
    decreases s.len(),
{
    if s.len() == 0 || s[0] == '\n' {
        0
    } else {
        line_end(s.drop_first()) + 1
    }
}

/// The first line of a text, without the line feed and a carriage return
/// before it; an empty text has none.
pub open spec fn first_line(s: Seq<char>) -> Option<Seq<char>> {
    let n = line_end(s) as int;
    if s.len() == 0 {
        None
    } else if 0 < n < s.len() && s[n - 1] == '\r' {
        Some(s.take(n - 1))
    } else {
        Some(s.take(n))
    }
}

/// The title under which a preview ends.
pub open spec fn closing_title(text: Seq<char>) -> Seq<char> {
    match first_line(text) {
        Some(line) => if byte_count(line) <= 128 {
            line
        } else {
            "任务已结束"@
        },
        None => "任务已结束"@,
    }
}

pub open spec fn closing_card(text: Seq<char>) -> PanelView {
    PanelView {
        title: closing_title(text),
        body: "本轮已结束，完整回复见后续消息。"@,
        tone: Tone::Muted,
        buttons: Seq::empty(),
    }
}

/// The update that ends the preview of the task, if it has one.
pub open spec fn closing(p: PresentationText, task: Seq<char>, text: Seq<char>) -> Option<(Seq<char>, PanelView)> {
    match p.preview {
        Some((shown, id)) => if shown == task {
            Some((id, closing_card(text)))
        } else {
            None
        },
        None => None,
    }
}

pub open spec fn answer_title(index: nat, total: nat) -> Seq<char> {
    if total == 1 {
        "Codex 回复"@
    } else {
        "Codex 回复 · "@ + decimal(index + 1) + "/"@ + decimal(total)
    }
}

pub open spec fn answer_fallback(index: nat, total: nat, body: Seq<char>) -> Seq<char> {
    "回复 "@ + decimal(index + 1) + "/"@ + decimal(total) + "（卡片发送未确认，文字补发）\n"@ + body
}

pub open spec fn answer_part(text: Seq<char>, index: nat) -> PartText {
    let total = parts_of(text).len();
    let body = parts_of(text)[index as int];
    PartText {
        panel: PanelView { title: answer_title(index, total), body, tone: answer_tone_of(text), buttons: Seq::empty() },
        fallback: answer_fallback(index, total, body),
    }
}

/// The cards of an answer, in order.
pub open spec fn answer_parts(text: Seq<char>) -> Seq<PartText> {
    Seq::new(parts_of(text).len(), |i: int| answer_part(text, i as nat))
}

/// The first line of a text.
fn read_first_line(s: &str) -> (r: Option<String>)
    ensures
        opt(r) == first_line(s@),
{
    let chars = chars_of(s);
    if chars.len() == 0 {
        return None;
    }
    let mut n: usize = 0;
    proof {
        assert(chars@.skip(0) =~= s@);
    }
    while n < chars.len() && chars[n] != '\n'
        invariant
            n <= chars@.len(),
            chars@ == s@,
            n + line_end(chars@.skip(n as int)) == line_end(s@),
        decreases chars.len() - n,
    {
        proof {
            assert(chars@.skip(n as int)[0] == chars@[n as int]);
            assert(chars@.skip(n as int).drop_first() =~= chars@.skip(n + 1));
        }
        n = n + 1;
    }
    proof {
        if n < chars@.len() {
            assert(chars@.skip(n as int)[0] == chars@[n as int]);
        }
        assert(line_end(s@) == n);
    }
    let end: usize = if 0 < n && n < chars.len() && chars[n - 1] == '\r' {
        n - 1
    } else {
        n
    };
    proof {
        assert(chars@.subrange(0, end as int) =~= s@.take(end as int));
    }
    Some(text_of(&chars, 0, end))
}

fn render_title(index: usize, total: usize) -> (r: String)
    requires
        index < total,
    ensures
        r@ == answer_title(index as nat, total as nat),
{
    let mut t = "Codex 回复".to_owned();
    if total == 1 {
        return t;
    }
    t = "Codex 回复 · ".to_owned();
    t.append(decimal_text(index as u64 + 1).as_str());
    t.append("/");
    t.append(decimal_text(total as u64).as_str());
    t
}

fn render_fallback(index: usize, total: usize, body: &str) -> (r: String)
    requires
        index < total,
    ensures
        r@ == answer_fallback(index as nat, total as nat, body@),
{
    let mut t = "回复 ".to_owned();
    t.append(decimal_text(index as u64 + 1).as_str());
    t.append("/");
    t.append(decimal_text(total as u64).as_str());
    t.append("（卡片发送未确认，文字补发）\n");
    t.append(body);
    t
}

/// All cards of an answer.
pub fn answer_cards(text: &str) -> (r: Vec<AnswerPart>)
    ensures
        part_texts(r@) == answer_parts(text@),
{
    let parts = markdown_parts(text);
    let tone = answer_tone(text);
    let total: usize = parts.len();
    let mut out: Vec<AnswerPart> = Vec::new();
    let mut i: usize = 0;
    proof {
        assert(texts(parts@).len() == parts@.len());
        assert(part_texts(out@) =~= answer_parts(text@).take(0));
    }
    while i < total
        invariant
            i <= total == parts@.len(),
            texts(parts@) == parts_of(text@),
            texts(parts@).len() == parts@.len(),
            tone == answer_tone_of(text@),
            part_texts(out@) == answer_parts(text@).take(i as int),
        decreases total - i,
    {
        let ghost before = out@;
        let body = parts[i].clone();
        proof {
            assert(texts(parts@)[i as int] == parts@[i as int]@);
        }
        let fallback = render_fallback(i, total, body.as_str());
        let panel = Panel::text(render_title(i, total).as_str(), body, tone);
        out.push(AnswerPart { panel, fallback });
        proof {
            let all = answer_parts(text@);
            assert(out@.last()@ == all[i as int]);
            assert(part_texts(out@) =~= part_texts(before).push(out@.last()@));
            assert(all.take(i + 1) =~= all.take(i as int).push(all[i as int]));
        }
        i = i + 1;
    }
    proof {
        assert(answer_parts(text@).take(i as int) =~= answer_parts(text@));
    }
    out
}

impl Default for Presentation {
    fn default() -> (r: Self)
        ensures
            r@ == (PresentationText { preview: None, failed_task: None }),
    {
        Presentation { preview: None, failed_task: None }
    }
}

impl Presentation {
    pub closed spec fn view(&self) -> PresentationText {
        PresentationText {
            preview: match self.preview {
                Some(p) => Some((p.0@, p.1.0@)),
                None => None,
            },
            failed_task: opt(self.failed_task),
        }
    }

    /// Which preview of a task to send or update.
    pub fn progress(&mut self, task: &str, text: &str) -> (r: ProgressStep)
        ensures
            r@ == progress_step(old(self)@, task@, text@),
            final(self)@ == progressing(old(self)@, task@),
    {
        let failed = match &self.failed_task {
            Some(t) => same(t.as_str(), task),
            None => false,
        };
        if failed {
            return ProgressStep::Skip;
        }
        let other = match &self.preview {
            Some((shown, _)) => !same(shown.as_str(), task),
            None => false,
        };
        if other {
            self.preview = None;
        }
        proof {
            parts_are_bounded(text@);
        }
        let mut parts = markdown_parts(text);
        proof {
            assert(texts(parts@).len() == parts@.len());
            assert(texts(parts@)[0] == parts@[0]@);
        }
        let body = parts.remove(0);
        let panel = Panel::text("Codex 执行进度", body, Tone::Info);
        match &self.preview {
            Some((_, id)) => ProgressStep::Update(id.clone(), panel),
            None => ProgressStep::Send(panel),
        }
    }

    /// A preview was delivered as the message, or was not.
    pub fn progress_done(&mut self, task: String, delivered: Option<MessageId>)
        ensures
            final(self)@ == progressed(
                old(self)@,
                task@,
                match delivered {
                    Some(id) => Some(id.0@),
                    None => None,
                },
            ),
    {
        match delivered {
            Some(id) => {
                self.preview = Some((task, id));
            },
            None => {
                self.failed_task = Some(task);
            },
        }
    }

    /// Begins the delivery of a task's answer: its preview ends, and every part
    /// goes out. No preview and no failure is remembered.
    pub fn answer(&mut self, task: &str, text: &str) -> (r: Answering)
        ensures
            r@ == answering_begin(closing(old(self)@, task@, text@), answer_parts(text@)),
            final(self)@ == (PresentationText { preview: None, failed_task: None }),
    {
        let ended = match self.preview.take() {
            Some((shown, id)) => {
                if same(shown.as_str(), task) {
                    let title = match read_first_line(text) {
                        Some(line) => if byte_len(line.as_str()) <= 128 {
                            line
                        } else {
                            "任务已结束".to_owned()
                        },
                        None => "任务已结束".to_owned(),
                    };
                    Some((id, Panel::text(title.as_str(), "本轮已结束，完整回复见后续消息。".to_owned(), Tone::Muted)))
                } else {
                    None
                }
            },
            None => None,
        };
        self.failed_task = None;
        Answering::new(ended, answer_cards(text))
    }
}

/// A task whose preview failed is not previewed again until an answer is given.
pub proof fn failed_previews_stop(p: PresentationText, task: Seq<char>, text: Seq<char>)
    ensures
        progress_step(progressed(p, task, None), task, text) is Skip,
        progressing(progressed(p, task, None), task) == progressed(p, task, None),
{
}

/// A delivered preview is updated in place: the next one goes to the same message.
pub proof fn previews_stay_in_place(p: PresentationText, task: Seq<char>, id: Seq<char>, text: Seq<char>)
    requires
        p.failed_task != Some(task),
    ensures
        progress_step(progressed(p, task, Some(id)), task, text) == ProgressText::Update(id, preview_card(text)),
{
}

/// An answer is delivered in full whatever became of the previews: its cards'
/// bodies are the parts of the text, each small enough for a card, and the
/// text sent in place of a card ends with the same body.
pub proof fn answers_are_complete(text: Seq<char>, i: int)
    requires
        0 <= i < answer_parts(text).len(),
    ensures
        joined(pieces(text)) == text,
        answer_parts(text).len() == parts_of(text).len(),
        answer_parts(text)[i].panel.body == parts_of(text)[i],
        byte_count(answer_parts(text)[i].panel.body) < 6000,
        answer_parts(text)[i].fallback == answer_fallback(i as nat, parts_of(text).len(), parts_of(text)[i]),
{
    pieces_hold_the_text(text);
    parts_are_bounded(text);
}

/// Each card of an answer says which part it is, of how many; a lone part needs
/// no number. The text in its place says the same and holds the same body.
pub proof fn answer_parts_are_numbered(text: Seq<char>, i: int)
    requires
        0 <= i < answer_parts(text).len(),
    ensures
        ({
            let n = parts_of(text).len();
            let part = answer_parts(text)[i];
            &&& n == 1 ==> part.panel.title == "Codex 回复"@
            &&& n > 1 ==> part.panel.title == "Codex 回复 · "@ + decimal((i + 1) as nat) + "/"@ + decimal(n)
            &&& part.panel.buttons.len() == 0
            &&& part.panel.body == parts_of(text)[i]
            &&& part.fallback.skip(part.fallback.len() - parts_of(text)[i].len()) == parts_of(text)[i]
            &&& begins_with(part.fallback, "回复 "@ + decimal((i + 1) as nat) + "/"@ + decimal(n))
        }),
{
    let n = parts_of(text).len();
    let body = parts_of(text)[i];
    let part = answer_parts(text)[i];
    let head = "回复 "@ + decimal((i + 1) as nat) + "/"@ + decimal(n);
    assert(part.fallback == head + "（卡片发送未确认，文字补发）\n"@ + body);
    assert(part.fallback.skip(part.fallback.len() - body.len()) =~= body);
    assert(part.fallback.take(head.len() as int) =~= head);
}

/// A short answer without code blocks is one card whose body is the answer.
pub proof fn short_answers_are_one_card(text: Seq<char>)
    requires
        text.len() > 0,
        byte_count(text) <= 5500,
        unfenced(text),
    ensures
        answer_parts(text).len() == 1,
        answer_parts(text)[0].panel.title == "Codex 回复"@,
        answer_parts(text)[0].panel.body == text,
{
    short_texts_are_one_part(text);
}

/// Each task has a preview of its own: the first one, and the first after one of
/// another task, is a new message; it shows the beginning of the text.
pub proof fn previews_are_of_their_task(p: PresentationText, task: Seq<char>, text: Seq<char>)
    requires
        p.failed_task != Some(task),
        p.preview matches Some(shown) ==> shown.0 != task,
    ensures
        progress_step(p, task, text) == ProgressText::Send(preview_card(text)),
        progressing(p, task).preview is None,
        preview_card(text).body == parts_of(text)[0],
        preview_card(text).title == "Codex 执行进度"@,
        preview_card(text).buttons.len() == 0,
{
}

/// The preview of a task ends with it: its message is given the first line of
/// the answer, where that is short, and says that the answer follows. Another
/// task's preview is left alone.
pub proof fn previews_end_with_their_task(p: PresentationText, task: Seq<char>, id: Seq<char>, line: Seq<char>, rest: Seq<char>)
    requires
        line.len() > 0,
        forall|i: int| 0 <= i < line.len() ==> line[i] != '\n' && line[i] != '\r',
        byte_count(line) <= 128,
    ensures
        p.preview == Some((task, id)) ==> (closing(p, task, line + "\n"@ + rest) matches Some(c) && c.0 == id && c.1.title == line
            && c.1.body == "本轮已结束，完整回复见后续消息。"@ && c.1.buttons.len() == 0),
        (p.preview matches Some(shown) ==> shown.0 != task) ==> closing(p, task, line + "\n"@ + rest) is None,
{
    reveal_strlit("\n");
    let text = line + "\n"@ + rest;
    line_ends_at(line, "\n"@ + rest);
    assert(text =~= line + ("\n"@ + rest));
    assert(text.take(line.len() as int) =~= line);
    assert(text[line.len() - 1] == line[line.len() - 1]);
}

proof fn line_ends_at(line: Seq<char>, rest: Seq<char>)
    requires
        forall|i: int| 0 <= i < line.len() ==> line[i] != '\n',
        rest.len() > 0,
        rest[0] == '\n',
    ensures
        line_end(line + rest) == line.len(),
    decreases line.len(),
{
    let s = line + rest;
    if line.len() == 0 {
        assert(s[0] == rest[0]);
    } else {
        assert(s[0] == line[0]);
        assert(s.drop_first() =~= line.drop_first() + rest);
        assert forall|i: int| 0 <= i < line.drop_first().len() implies line.drop_first()[i] != '\n' by {
            assert(line.drop_first()[i] == line[i + 1]);
        }
        line_ends_at(line.drop_first(), rest);
    }
}

} // verus!
