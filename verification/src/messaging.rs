//! Messaging values keep HTTP, platform card JSON and SDK types out of use cases.
use vstd::prelude::*;
use vstd::string::*;
use crate::text::{signed_decimal, signed_decimal_text};

verus! {

#[derive(Debug, Clone, Copy, PartialEq, Eq, Structural)]
pub enum DeliveryError {
    Transport,
    Rejected(i64),
    Incompatible,
    TooLarge,
    LocalIo,
    Authentication,
}

/// The sentence shown for a delivery error.
pub open spec fn delivery_sentence(e: DeliveryError) -> Seq<char> {
    match e {
        DeliveryError::Transport => "消息接口请求失败"@,
        DeliveryError::Rejected(code) => "消息平台拒绝请求（code="@ + signed_decimal(code as int) + "）"@,
        DeliveryError::Incompatible => "消息平台响应格式不兼容"@,
        DeliveryError::TooLarge => "文件超过大小限制"@,
        DeliveryError::LocalIo => "本地文件读写失败"@,
        DeliveryError::Authentication => "认证配置无效"@,
    }
}

impl DeliveryError {
    pub fn message(&self) -> (r: String)
        ensures
            r@ == delivery_sentence(*self),
    {
        match self {
            DeliveryError::Transport => "消息接口请求失败".to_owned(),
            DeliveryError::Rejected(code) => {
                let mut t = "消息平台拒绝请求（code=".to_owned();
                t.append(signed_decimal_text(*code).as_str());
                t.append("）");
                t
            },
            DeliveryError::Incompatible => "消息平台响应格式不兼容".to_owned(),
            DeliveryError::TooLarge => "文件超过大小限制".to_owned(),
            DeliveryError::LocalIo => "本地文件读写失败".to_owned(),
            DeliveryError::Authentication => "认证配置无效".to_owned(),
        }
    }
}

#[derive(Debug, PartialEq, Eq)]
pub struct MessageId(pub String);

impl Clone for MessageId {
    fn clone(&self) -> (r: Self)
        ensures
            r == *self,
    {
        MessageId(self.0.clone())
    }
}

#[derive(Debug, Clone, Copy, PartialEq, Eq, Structural)]
pub enum ResourceKind {
    Image,
    File,
}

#[derive(Debug)]
pub struct ResourceRef {
    pub message_id: String,
    pub key: String,
    pub kind: ResourceKind,
}

impl Clone for ResourceRef {
    fn clone(&self) -> (r: Self)
        ensures
            r == *self,
    {
        ResourceRef { message_id: self.message_id.clone(), key: self.key.clone(), kind: self.kind }
    }
}

} // verus!
