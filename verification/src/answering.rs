//! The delivery of one answer: the preview ends, then every part is shown as a
//! card, and told as text where its card was not confirmed.
use vstd::prelude::*;
use vstd::string::*;
use std::collections::VecDeque;
use crate::messaging::{DeliveryError, MessageId};
use crate::presentation::{part_texts, AnswerPart, PartText};
use crate::view::{Panel, PanelView};

verus! {

/// Where the delivery of an answer stands, and so what is to be done next.
pub enum AnsweringStage {
    /// The preview's message is to be updated.
    Closing { id: MessageId, panel: Panel },
    /// The card of a part is to be sent.
    Showing { panel: Panel, fallback: String },
    /// The card was not confirmed: its text is to be sent.
    Telling { fallback: String },
    Ended(Result<(), DeliveryError>),
}

/// A stage by its texts.
pub enum AnsweringStageText {
    Closing { id: Seq<char>, panel: PanelView },
    Showing { panel: PanelView, fallback: Seq<char> },
    Telling { fallback: Seq<char> },
    Ended(Result<(), DeliveryError>),
}

impl View for AnsweringStage {
    type V = AnsweringStageText;

    open spec fn view(&self) -> AnsweringStageText {
        match self {
            AnsweringStage::Closing { id, panel } => AnsweringStageText::Closing { id: id.0@, panel: panel@ },
            AnsweringStage::Showing { panel, fallback } => AnsweringStageText::Showing { panel: panel@, fallback: fallback@ },
            AnsweringStage::Telling { fallback } => AnsweringStageText::Telling { fallback: fallback@ },
            AnsweringStage::Ended(r) => AnsweringStageText::Ended(*r),
        }
    }
}

/// What the messenger answered; what was not confirmed in time counts as not
/// delivered.
#[derive(Clone, Copy)]
pub enum AnsweringEvent {
    Closed(bool),
    Shown(bool),
    Told(bool),
}

/// The delivery of one answer.
pub struct Answering {
    parts: VecDeque<AnswerPart>,
    failed: bool,
    stage: AnsweringStage,
}

/// The delivery of one answer by its contents. `parts` wait to be shown;
/// `failed` says that a part went out neither as a card nor as text.
pub struct AnsweringText {
    pub parts: Seq<PartText>,
    pub failed: bool,
    pub stage: AnsweringStageText,
}

/// What an answer's delivery ends with.
pub open spec fn answer_result(failed: bool) -> Result<(), DeliveryError> {
    if failed {
        Err(DeliveryError::Transport)
    } else {
        Ok(())
    }
}

/// The next part is shown, or the delivery ends.
pub open spec fn to_part(a: AnsweringText) -> AnsweringText {
    if a.parts.len() > 0 {
        AnsweringText {
            parts: a.parts.drop_first(),
            stage: AnsweringStageText::Showing { panel: a.parts[0].panel, fallback: a.parts[0].fallback },
            ..a
        }
    } else {
        AnsweringText { stage: AnsweringStageText::Ended(answer_result(a.failed)), ..a }
    }
}

/// How the delivery begins: with the end of the preview, where there is one.
pub open spec fn answering_begin(closing: Option<(Seq<char>, PanelView)>, parts: Seq<PartText>) -> AnsweringText {
    match closing {
        Some((id, panel)) => AnsweringText { parts, failed: false, stage: AnsweringStageText::Closing { id, panel } },
        None => to_part(AnsweringText { parts, failed: false, stage: AnsweringStageText::Ended(Ok(())) }),
    }
}

/// The delivery after an event. An event that its stage does not wait for
/// changes nothing.
pub open spec fn answering_next(a: AnsweringText, event: AnsweringEvent) -> AnsweringText {
    match (a.stage, event) {
        (AnsweringStageText::Closing { .. }, AnsweringEvent::Closed(_)) => to_part(a),
        (AnsweringStageText::Showing { fallback, .. }, AnsweringEvent::Shown(shown)) => if shown {
            to_part(a)
        } else {
            AnsweringText { stage: AnsweringStageText::Telling { fallback }, ..a }
        },
        (AnsweringStageText::Telling { .. }, AnsweringEvent::Told(told)) => to_part(
            AnsweringText { failed: a.failed || !told, ..a },
        ),
        _ => a,
    }
}

impl Answering {
    pub closed spec fn view(&self) -> AnsweringText {
        AnsweringText { parts: part_texts(self.parts@), failed: self.failed, stage: self.stage@ }
    }

    pub fn new(closing: Option<(MessageId, Panel)>, parts: Vec<AnswerPart>) -> (r: Self)
        ensures
            r@ == answering_begin(
                match closing {
                    Some((id, panel)) => Some((id.0@, panel@)),
                    None => None,
                },
                part_texts(parts@),
            ),
    {
        let mut r = Answering { parts: queued(parts), failed: false, stage: AnsweringStage::Ended(Ok(())) };
        match closing {
            Some((id, panel)) => {
                r.stage = AnsweringStage::Closing { id, panel };
            },
            None => {
                r.enter_part();
            },
        }
        r
    }

    /// What is to be done next.
    pub fn stage(&self) -> (r: &AnsweringStage)
        ensures
            r@ == self@.stage,
    {
        &self.stage
    }

    fn enter_part(&mut self)
        ensures
            final(self)@ == to_part(old(self)@),
    {
        let ghost before = self.parts@;
        match self.parts.pop_front() {
            Some(part) => {
                proof {
                    assert(part_texts(self.parts@) =~= part_texts(before).drop_first());
                    assert(part@ == part_texts(before)[0]);
                }
                self.stage = AnsweringStage::Showing { panel: part.panel, fallback: part.fallback };
            },
            None => {
                self.stage = AnsweringStage::Ended(
                    if self.failed {
                        Err(DeliveryError::Transport)
                    } else {
                        Ok(())
                    },
                );
            },
        }
    }

    pub fn step(&mut self, event: AnsweringEvent)
        ensures
            final(self)@ == answering_next(old(self)@, event),
    {
        match (&self.stage, event) {
            (AnsweringStage::Closing { .. }, AnsweringEvent::Closed(_)) => {
                self.enter_part();
            },
            (AnsweringStage::Showing { fallback, .. }, AnsweringEvent::Shown(shown)) => {
                if shown {
                    self.enter_part();
                } else {
                    let fallback = fallback.clone();
                    self.stage = AnsweringStage::Telling { fallback };
                }
            },
            (AnsweringStage::Telling { .. }, AnsweringEvent::Told(told)) => {
                self.failed = self.failed || !told;
                self.enter_part();
            },
            _ => {},
        }
    }
}

/// The parts in the order in which they are shown.
fn queued(parts: Vec<AnswerPart>) -> (r: VecDeque<AnswerPart>)
    ensures
        part_texts(r@) == part_texts(parts@),
{
    let mut rest = parts;
    let mut r: VecDeque<AnswerPart> = VecDeque::new();
    proof {
        assert(r@ + rest@ =~= parts@);
    }
    while rest.len() > 0
        invariant
            r@ + rest@ == parts@,
        decreases rest.len(),
    {
        let ghost before = r@;
        let ghost waiting = rest@;
        let part = rest.remove(0);
        r.push_back(part);
        proof {
            assert(r@ + rest@ =~= before + waiting);
        }
    }
    proof {
        assert(r@ =~= parts@);
    }
    r
}

/// What the messenger answered for a part: was its card confirmed, and was its
/// text, where it was sent.
pub struct PartOutcome {
    pub shown: bool,
    pub told: bool,
}

/// The part went out, as a card or as text.
pub open spec fn confirmed(o: PartOutcome) -> bool {
    o.shown || o.told
}

/// One part is delivered: its card is sent, and its text where the card was not
/// confirmed.
pub open spec fn part_sent(a: AnsweringText, o: PartOutcome) -> AnsweringText {
    let b = answering_next(a, AnsweringEvent::Shown(o.shown));
    if o.shown {
        b
    } else {
        answering_next(b, AnsweringEvent::Told(o.told))
    }
}

/// Part after part is delivered.
pub open spec fn parts_sent(a: AnsweringText, outcomes: Seq<PartOutcome>) -> AnsweringText
    decreases outcomes.len(),
{
    if outcomes.len() == 0 {
        a
    } else {
        part_sent(parts_sent(a, outcomes.drop_last()), outcomes.last())
    }
}

/// A card that was not confirmed is followed by its part's text, and by nothing
/// else; a card that was confirmed is not.
pub proof fn unconfirmed_cards_are_told(a: AnsweringText, panel: PanelView, fallback: Seq<char>)
    requires
        a.stage == (AnsweringStageText::Showing { panel, fallback }),
    ensures
        answering_next(a, AnsweringEvent::Shown(false)).stage == (AnsweringStageText::Telling { fallback }),
        answering_next(a, AnsweringEvent::Shown(false)).parts == a.parts,
        answering_next(a, AnsweringEvent::Shown(true)) == to_part(a),
{
}

/// The parts are shown in order, each once, and nothing stops a later one: a
/// preview that could not be ended, or a part that did not go out. The delivery
/// ends after the last part, well if and only if every part was confirmed as a
/// card or as text.
pub proof fn every_part_is_shown(closing: Option<(Seq<char>, PanelView)>, parts: Seq<PartText>, closed: bool, outcomes: Seq<PartOutcome>)
    requires
        outcomes.len() <= parts.len(),
    ensures
        ({
            let begun = answering_next(answering_begin(closing, parts), AnsweringEvent::Closed(closed));
            let a = parts_sent(begun, outcomes);
            let lost = exists|i: int| 0 <= i < outcomes.len() && !confirmed(#[trigger] outcomes[i]);
            &&& a.failed == lost
            &&& if outcomes.len() < parts.len() {
                let part = parts[outcomes.len() as int];
                &&& a.stage == (AnsweringStageText::Showing { panel: part.panel, fallback: part.fallback })
                &&& a.parts == parts.skip(outcomes.len() as int + 1)
            } else {
                a.stage == AnsweringStageText::Ended(answer_result(lost))
            }
        }),
    decreases outcomes.len(),
{
    if outcomes.len() > 0 {
        let n = outcomes.len() - 1;
        let before = outcomes.drop_last();
        every_part_is_shown(closing, parts, closed, before);
        let lost = exists|i: int| 0 <= i < before.len() && !confirmed(#[trigger] before[i]);
        if lost {
            let i = choose|i: int| 0 <= i < before.len() && !confirmed(#[trigger] before[i]);
            assert(outcomes[i] == before[i]);
        }
        assert(outcomes[n] == outcomes.last());
        assert forall|i: int| 0 <= i < n implies outcomes[i] == before[i] by {}
        let waiting = parts.skip(n + 1);
        assert(waiting.len() > 0 ==> waiting[0] == parts[n + 1]);
        assert(waiting.len() > 0 ==> waiting.drop_first() =~= parts.skip(n + 2));
    } else {
        assert(parts.len() > 0 ==> parts.drop_first() =~= parts.skip(1));
    }
}

} // verus!
