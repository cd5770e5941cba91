//! Panels and buttons as the messaging platform shows them.
use vstd::prelude::*;
use crate::text::opt;

verus! {

#[derive(Debug, Clone, Copy, PartialEq, Eq, Structural)]
pub enum Tone {
    Info,
    Success,
    Warning,
    Error,
    Muted,
}

#[derive(Debug, Clone, Copy, PartialEq, Eq, Structural)]
pub enum ButtonStyle {
    Default,
    Primary,
    Destructive,
}

/// What pressing a button reports: an opaque token and the choice made.
#[derive(Debug, PartialEq, Eq)]
pub enum ButtonAction {
    Interaction { token: String, choice: String },
}

#[derive(Debug, PartialEq, Eq)]
pub struct Button {
    pub label: String,
    pub description: Option<String>,
    pub section: Option<String>,
    pub group: Option<String>,
    pub separate: bool,
    pub style: ButtonStyle,
    pub action: ButtonAction,
}

#[derive(Debug, PartialEq, Eq)]
pub struct Panel {
    pub title: String,
    pub body: String,
    pub tone: Tone,
    pub buttons: Vec<Button>,
}

/// A button by its texts.
pub struct ButtonView {
    pub label: Seq<char>,
    pub description: Option<Seq<char>>,
    pub section: Option<Seq<char>>,
    pub group: Option<Seq<char>>,
    pub separate: bool,
    pub style: ButtonStyle,
    pub token: Seq<char>,
    pub choice: Seq<char>,
}

/// A panel by its texts.
#[verifier::ext_equal]
pub struct PanelView {
    pub title: Seq<char>,
    pub body: Seq<char>,
    pub tone: Tone,
    pub buttons: Seq<ButtonView>,
}

impl View for Button {
    type V = ButtonView;

    open spec fn view(&self) -> ButtonView {
        ButtonView {
            label: self.label@,
            description: opt(self.description),
            section: opt(self.section),
            group: opt(self.group),
            separate: self.separate,
            style: self.style,
            token: self.action->token@,
            choice: self.action->choice@,
        }
    }
}

/// The buttons of a vector by their texts.
pub open spec fn buttons_view(buttons: Seq<Button>) -> Seq<ButtonView> {
    buttons.map_values(|b: Button| b@)
}

impl View for Panel {
    type V = PanelView;

    open spec fn view(&self) -> PanelView {
        PanelView {
            title: self.title@,
            body: self.body@,
            tone: self.tone,
            buttons: buttons_view(self.buttons@),
        }
    }
}

impl Panel {
    /// A panel without buttons.
    pub fn text(title: &str, body: String, tone: Tone) -> (r: Panel)
        ensures
            r@ == (PanelView { title: title@, body: body@, tone, buttons: Seq::empty() }),
    {
        let r = Panel { title: title.to_owned(), body, tone, buttons: Vec::new() };
        proof {
            assert(buttons_view(r.buttons@) =~= Seq::empty());
        }
        r
    }
}

impl Clone for Button {
    fn clone(&self) -> (r: Self)
        ensures
            r == *self,
    {
        let action = match &self.action {
            ButtonAction::Interaction { token, choice } => ButtonAction::Interaction {
                token: token.clone(),
                choice: choice.clone(),
            },
        };
        Button {
            label: self.label.clone(),
            description: self.description.clone(),
            section: self.section.clone(),
            group: self.group.clone(),
            separate: self.separate,
            style: self.style,
            action,
        }
    }
}

impl Clone for Panel {
    fn clone(&self) -> (r: Self)
        ensures
            r.title == self.title,
            r.body == self.body,
            r.tone == self.tone,
            r.buttons@ == self.buttons@,
            r@ == self@,
    {
        let mut buttons: Vec<Button> = Vec::new();
        let mut i: usize = 0;
        while i < self.buttons.len()
            invariant
                i <= self.buttons@.len(),
                buttons@ == self.buttons@.take(i as int),
            decreases self.buttons.len() - i,
        {
            buttons.push(self.buttons[i].clone());
            proof {
                assert(self.buttons@.take(i + 1) =~= self.buttons@.take(i as int).push(self.buttons@[i as int]));
            }
            i = i + 1;
        }
        proof {
            assert(self.buttons@.take(i as int) =~= self.buttons@);
        }
        Panel { title: self.title.clone(), body: self.body.clone(), tone: self.tone, buttons }
    }
}

} // verus!
