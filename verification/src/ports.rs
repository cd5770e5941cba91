//! Agent-facing values. Vendor JSON cannot cross this boundary.
use vstd::prelude::*;
use vstd::string::*;
use crate::model::{Directory, DirectoryText, ExecutionMode};
use crate::text::{same, signed_decimal, signed_decimal_text};

verus! {

#[derive(Debug, Clone, Copy, PartialEq, Eq, Structural)]
pub enum BackendError {
    Disconnected,
    Uncertain,
    Incompatible,
    Rejected(i64),
}

/// The sentence shown for a backend error.
pub open spec fn backend_sentence(e: BackendError) -> Seq<char> {
    match e {
        BackendError::Disconnected => "代理连接已关闭"@,
        BackendError::Uncertain => "代理操作结果未知；请勿自动重试"@,
        BackendError::Incompatible => "代理协议不兼容"@,
        BackendError::Rejected(code) => "代理拒绝请求（code="@ + signed_decimal(code as int) + "）"@,
    }
}

impl BackendError {
    pub fn message(&self) -> (r: String)
        ensures
            r@ == backend_sentence(*self),
    {
        match self {
            BackendError::Disconnected => "代理连接已关闭".to_owned(),
            BackendError::Uncertain => "代理操作结果未知；请勿自动重试".to_owned(),
            BackendError::Incompatible => "代理协议不兼容".to_owned(),
            BackendError::Rejected(code) => {
                let mut t = "代理拒绝请求（code=".to_owned();
                t.append(signed_decimal_text(*code).as_str());
                t.append("）");
                t
            },
        }
    }
}

#[derive(Debug, PartialEq, Eq)]
pub struct Model {
    pub id: String,
    pub is_default: bool,
}

impl Clone for Model {
    fn clone(&self) -> (r: Self)
        ensures
            r == *self,
    {
        Model { id: self.id.clone(), is_default: self.is_default }
    }
}

#[derive(Debug, PartialEq, Eq)]
pub struct ThreadSummary {
    pub id: String,
    pub title: String,
    pub directory: Option<Directory>,
    pub active: bool,
}

impl Clone for ThreadSummary {
    fn clone(&self) -> (r: Self)
        ensures
            r == *self,
    {
        ThreadSummary {
            id: self.id.clone(),
            title: self.title.clone(),
            directory: self.directory.clone(),
            active: self.active,
        }
    }
}

#[derive(Debug, Clone, Copy, PartialEq, Eq, Structural)]
pub enum Sandbox {
    WorkspaceWrite,
    DangerFullAccess,
}

#[derive(Debug)]
pub struct TurnInput {
    pub thread_id: String,
    pub directory: Directory,
    pub prompt: String,
    pub images: Vec<Directory>,
    pub model: String,
    pub mode: ExecutionMode,
    pub sandbox: Sandbox,
}

/// The input of a turn by its texts.
pub struct TurnInputText {
    pub thread_id: Seq<char>,
    pub directory: DirectoryText,
    pub prompt: Seq<char>,
    pub images: Seq<DirectoryText>,
    pub model: Seq<char>,
    pub mode: ExecutionMode,
    pub sandbox: Sandbox,
}

/// Paths by their texts.
pub open spec fn path_texts(v: Seq<Directory>) -> Seq<DirectoryText> {
    v.map_values(|d: Directory| d@)
}

impl View for TurnInput {
    type V = TurnInputText;

    open spec fn view(&self) -> TurnInputText {
        TurnInputText {
            thread_id: self.thread_id@,
            directory: self.directory@,
            prompt: self.prompt@,
            images: path_texts(self.images@),
            model: self.model@,
            mode: self.mode,
            sandbox: self.sandbox,
        }
    }
}

/// One turn of one thread, in one epoch of the bridge.
#[derive(Debug, PartialEq, Eq)]
pub struct TurnRef {
    pub thread_id: String,
    pub turn_id: String,
    pub epoch: u64,
}

impl Clone for TurnRef {
    fn clone(&self) -> (r: Self)
        ensures
            r == *self,
    {
        TurnRef { thread_id: self.thread_id.clone(), turn_id: self.turn_id.clone(), epoch: self.epoch }
    }
}

pub open spec fn same_turn(a: TurnRef, b: TurnRef) -> bool {
    a.thread_id@ == b.thread_id@ && a.turn_id@ == b.turn_id@ && a.epoch == b.epoch
}

impl TurnRef {
    pub fn same(&self, other: &TurnRef) -> (r: bool)
        ensures
            r == same_turn(*self, *other),
    {
        same(self.thread_id.as_str(), other.thread_id.as_str()) && same(
            self.turn_id.as_str(),
            other.turn_id.as_str(),
        ) && self.epoch == other.epoch
    }
}

} // verus!
