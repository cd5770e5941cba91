//! The card that asks a user to allow or deny one request of the agent.
//!
//! An allow button is offered only when every detail of the request is shown
//! in full, as literal text.
use vstd::prelude::*;
use vstd::string::*;
use crate::cards::{card_commands, command_panel, pairs, panel};
use crate::requests::{Approval, ApprovalKind, ApprovalText, FileChange};
use crate::text::{blank, byte_count, byte_len, chars_of, control, is_blank, is_control, opt, same};
use crate::view::{ButtonStyle, ButtonView, Panel, PanelView, Tone};

verus! {

/// Backticks at the end of `s`.
pub open spec fn closing_run(s: Seq<char>) -> nat
    decreases s.len(),
{
    if s.len() > 0 && s.last() == '`' {
        closing_run(s.drop_last()) + 1
    } else {
        0
    }
}

/// The longest run of backticks in `s`.
pub open spec fn longest_run(s: Seq<char>) -> nat
    decreases s.len(),
{
    if s.len() == 0 {
        0
    } else if closing_run(s) > longest_run(s.drop_last()) {
        closing_run(s)
    } else {
        longest_run(s.drop_last())
    }
}

pub open spec fn backticks(n: nat) -> Seq<char> {
    Seq::new(n, |i: int| '`')
}

/// A fence that is longer than every run of backticks in the value, and has
/// three backticks at least.
pub open spec fn fence_for(value: Seq<char>) -> Seq<char> {
    backticks(
        if longest_run(value) < 2 {
            3
        } else {
            longest_run(value) + 1
        },
    )
}

/// What a field shows.
pub open spec fn field_value(value: Option<Seq<char>>) -> Seq<char> {
    match value {
        Some(v) => v,
        None => "（未提供）"@,
    }
}

/// A control character that is neither a line feed nor a tab.
pub open spec fn has_hidden(s: Seq<char>) -> bool {
    exists|i: int| 0 <= i < s.len() && is_control(#[trigger] s[i]) && s[i] != '\n' && s[i] != '\t'
}

/// The value can be shown in full.
pub open spec fn readable(value: Seq<char>) -> bool {
    byte_count(value) <= 4096 && !has_hidden(value)
}

/// A field shown literally between fences.
pub open spec fn literal_field(label: Seq<char>, value: Seq<char>) -> Seq<char> {
    "\n"@ + label + "：\n"@ + fence_for(value) + "\n"@ + value + "\n"@ + fence_for(value) + "\n"@
}

pub open spec fn shown_field(field: (Seq<char>, Option<Seq<char>>)) -> Seq<char> {
    let value = field_value(field.1);
    if readable(value) {
        literal_field(field.0, value)
    } else {
        "\n"@ + field.0 + "：内容过长或包含无法显示的控制字符。\n"@
    }
}

/// `body` followed by all fields.
pub open spec fn with_fields(body: Seq<char>, fields: Seq<(Seq<char>, Option<Seq<char>>)>) -> Seq<char>
    decreases fields.len(),
{
    if fields.len() == 0 {
        body
    } else {
        with_fields(body, fields.drop_last()) + shown_field(fields.last())
    }
}

pub open spec fn all_readable(fields: Seq<(Seq<char>, Option<Seq<char>>)>) -> bool {
    forall|i: int| 0 <= i < fields.len() ==> readable(field_value((#[trigger] fields[i]).1))
}

/// At most twenty files are shown.
pub open spec fn shown_changes(r: ApprovalText) -> Seq<FileChange> {
    match r.changes {
        Some(c) => c.take(
            if c.len() < 20 {
                c.len() as int
            } else {
                20
            },
        ),
        None => Seq::empty(),
    }
}

pub open spec fn change_fields(changes: Seq<FileChange>) -> Seq<(Seq<char>, Option<Seq<char>>)>
    decreases changes.len(),
{
    if changes.len() == 0 {
        Seq::empty()
    } else {
        let c = changes.last();
        change_fields(changes.drop_last()).push(("文件路径"@, Some(c.path@))).push(("操作类型"@, Some(c.operation@))).push(
            ("移动目标"@, opt(c.move_path)),
        ).push(("文件差异"@, Some(c.diff@)))
    }
}

/// The details that the card must show.
pub open spec fn approval_fields(r: ApprovalText) -> Seq<(Seq<char>, Option<Seq<char>>)> {
    let always = seq![
        ("命令或输入"@, r.command),
        ("工作目录"@, r.directory),
        ("请求原因"@, r.reason),
        ("授权目录"@, r.grant_root),
    ];
    let permissions = if r.permissions is Some {
        always.push(("本次额外权限"@, r.permissions))
    } else {
        always
    };
    let network = if r.network_context is Some {
        permissions.push(("网络访问目标"@, r.network_context))
    } else {
        permissions
    };
    if r.kind == ApprovalKind::FileChange {
        network + change_fields(shown_changes(r))
    } else {
        network
    }
}

/// One file's change is described: path, diff and a known operation.
pub open spec fn described(c: FileChange) -> bool {
    &&& !blank(c.path@)
    &&& !blank(c.diff@)
    &&& c.operation@ == "add"@ || c.operation@ == "delete"@ || c.operation@ == "update"@
}

pub open spec fn given(value: Option<Seq<char>>) -> bool {
    value matches Some(v) && !blank(v)
}

/// The request itself says what it is about.
pub open spec fn specified(r: ApprovalText) -> bool {
    if r.kind == ApprovalKind::FileChange {
        r.changes matches Some(c) && 0 < c.len() <= 20 && forall|i: int|
            0 <= i < c.len() ==> described(#[trigger] c[i])
    } else if r.kind == ApprovalKind::Command && r.network_context is Some && r.permissions is None {
        true
    } else {
        given(r.command) && given(r.directory)
    }
}

pub open spec fn approval_opening(r: ApprovalText) -> Seq<char> {
    if r.grant_root is Some {
        "本请求包含可能持续整个会话的目录写入授权，当前不支持同意。10 分钟内未答复将拒绝。\n"@
    } else if r.kind == ApprovalKind::FileChange && !specified(r) {
        "请核对以下请求。仅本次请求有效；10 分钟内未答复将拒绝。\n"@ + "\n当前尚未提供逐文件修改详情，或详情不完整。\n"@
    } else {
        "请核对以下请求。仅本次请求有效；10 分钟内未答复将拒绝。\n"@
    }
}

/// Every detail, without regard to the size of the card.
pub open spec fn approval_details(r: ApprovalText) -> Seq<char> {
    with_fields(approval_opening(r), approval_fields(r))
}

pub open spec fn fits_card(details: Seq<char>) -> bool {
    byte_count(details) <= 24 * 1024
}

/// The request may be allowed from the card.
pub open spec fn allowable(r: ApprovalText) -> bool {
    &&& specified(r)
    &&& r.grant_root is None
    &&& all_readable(approval_fields(r))
    &&& fits_card(approval_details(r))
    &&& r.can_allow
}

pub open spec fn approval_title(r: ApprovalText) -> Seq<char> {
    match r.kind {
        ApprovalKind::Command => if r.network_context is Some {
            "网络访问审批"@
        } else {
            "命令执行审批"@
        },
        ApprovalKind::WriteStdin => "进程输入审批"@,
        ApprovalKind::FileChange => "文件修改审批"@,
    }
}

pub open spec fn approval_body(r: ApprovalText) -> Seq<char> {
    let details = if fits_card(approval_details(r)) {
        approval_details(r)
    } else {
        "审批详情超过卡片展示上限，无法完整展示。10 分钟内未答复将拒绝。\n"@
    };
    if allowable(r) {
        details
    } else {
        details + "\n本请求暂不能通过卡片同意，请拒绝后让 Codex 调整请求。\n"@
    }
}

pub open spec fn approval_entries(r: ApprovalText, token: Seq<char>) -> Seq<(Seq<char>, Seq<char>)> {
    if allowable(r) {
        seq![("同意本次请求"@, "/approve "@ + token), ("拒绝"@, "/deny "@ + token)]
    } else {
        seq![("拒绝"@, "/deny "@ + token)]
    }
}

/// A card whose buttons allow or deny.
pub open spec fn decision_card(p: PanelView) -> PanelView {
    PanelView {
        tone: Tone::Warning,
        buttons: p.buttons.map_values(
            |b: ButtonView|
                ButtonView {
                    group: None,
                    style: if b.label == "拒绝"@ {
                        ButtonStyle::Destructive
                    } else {
                        ButtonStyle::Primary
                    },
                    ..b
                },
        ),
        ..p
    }
}

/// Labelled values by their texts.
pub open spec fn fields_view(v: Seq<(String, Option<String>)>) -> Seq<(Seq<char>, Option<Seq<char>>)> {
    v.map_values(|e: (String, Option<String>)| (e.0@, opt(e.1)))
}

fn add_field(fields: &mut Vec<(String, Option<String>)>, label: &str, value: Option<String>)
    ensures
        fields_view(final(fields)@) == fields_view(old(fields)@).push((label@, opt(value))),
{
    fields.push((label.to_owned(), value));
    proof {
        assert(fields_view(fields@) =~= fields_view(old(fields)@).push((label@, opt(value))));
    }
}

fn is_readable(value: &str) -> (r: bool)
    ensures
        r == readable(value@),
{
    if byte_len(value) > 4096 {
        return false;
    }
    let chars = chars_of(value);
    let mut i: usize = 0;
    while i < chars.len()
        invariant
            i <= chars@.len(),
            chars@ == value@,
            byte_count(value@) <= 4096,
            forall|j: int| 0 <= j < i ==> !(is_control(#[trigger] chars@[j]) && chars@[j] != '\n' && chars@[j] != '\t'),
        decreases chars.len() - i,
    {
        if control(chars[i]) && chars[i] != '\n' && chars[i] != '\t' {
            assert(is_control(value@[i as int]));
            return false;
        }
        i = i + 1;
    }
    true
}

fn fence_text(value: &str) -> (r: String)
    ensures
        r@ == fence_for(value@),
{
    let chars = chars_of(value);
    let mut longest: usize = 0;
    let mut run: usize = 0;
    let mut i: usize = 0;
    while i < chars.len()
        invariant
            i <= chars@.len(),
            run <= i,
            longest <= i,
            run == closing_run(chars@.take(i as int)),
            longest == longest_run(chars@.take(i as int)),
        decreases chars.len() - i,
    {
        proof {
            assert(chars@.take(i + 1).drop_last() =~= chars@.take(i as int));
        }
        if chars[i] == '`' {
            run = run + 1;
        } else {
            run = 0;
        }
        if run > longest {
            longest = run;
        }
        i = i + 1;
    }
    proof {
        assert(chars@.take(i as int) =~= value@);
    }
    let mut fence = "```".to_owned();
    let mut n: usize = 2;
    proof {
        reveal_strlit("```");
        assert(fence@ =~= backticks(3));
    }
    while n < longest
        invariant
            2 <= n,
            longest >= 2 ==> n <= longest,
            longest < 2 ==> n == 2,
            fence@ == backticks((n + 1) as nat),
        decreases longest - n,
    {
        fence.push('`');
        proof {
            assert(backticks((n + 1) as nat).push('`') =~= backticks((n + 2) as nat));
        }
        n = n + 1;
    }
    fence
}

fn add_shown(body: &mut String, label: &str, value: &Option<String>) -> (r: bool)
    ensures
        final(body)@ == old(body)@ + shown_field((label@, opt(*value))),
        r == readable(field_value(opt(*value))),
{
    let text: &str = match value {
        Some(v) => v.as_str(),
        None => "（未提供）",
    };
    if !is_readable(text) {
        let mut line = "\n".to_owned();
        line.append(label);
        line.append("：内容过长或包含无法显示的控制字符。\n");
        body.append(line.as_str());
        return false;
    }
    // A longer fence preserves literal Markdown, including embedded fences.
    let fence = fence_text(text);
    let mut line = "\n".to_owned();
    line.append(label);
    line.append("：\n");
    line.append(fence.as_str());
    line.append("\n");
    line.append(text);
    line.append("\n");
    line.append(fence.as_str());
    line.append("\n");
    body.append(line.as_str());
    true
}

fn is_described(c: &FileChange) -> (r: bool)
    ensures
        r == described(*c),
{
    !is_blank(c.path.as_str()) && !is_blank(c.diff.as_str()) && (same(c.operation.as_str(), "add") || same(
        c.operation.as_str(),
        "delete",
    ) || same(c.operation.as_str(), "update"))
}

fn is_given(value: &Option<String>) -> (r: bool)
    ensures
        r == given(opt(*value)),
{
    match value {
        Some(v) => !is_blank(v.as_str()),
        None => false,
    }
}

fn is_specified(request: &Approval) -> (r: bool)
    ensures
        r == specified(request@),
{
    if request.kind == ApprovalKind::FileChange {
        match &request.changes {
            Some(changes) => {
                if changes.len() == 0 || changes.len() > 20 {
                    return false;
                }
                let mut i: usize = 0;
                while i < changes.len()
                    invariant
                        request.kind == ApprovalKind::FileChange,
                        request.changes == Some(*changes),
                        0 < changes@.len() <= 20,
                        i <= changes@.len(),
                        forall|j: int| 0 <= j < i ==> described(#[trigger] changes@[j]),
                    decreases changes.len() - i,
                {
                    if !is_described(&changes[i]) {
                        assert(!described(changes@[i as int]));
                        return false;
                    }
                    i = i + 1;
                }
                true
            },
            None => false,
        }
    } else if request.kind == ApprovalKind::Command && request.network_context.is_some() && request.permissions.is_none() {
        true
    } else {
        is_given(&request.command) && is_given(&request.directory)
    }
}

fn collect_fields(request: &Approval) -> (r: Vec<(String, Option<String>)>)
    ensures
        fields_view(r@) == approval_fields(request@),
{
    let mut fields: Vec<(String, Option<String>)> = Vec::new();
    proof {
        assert(fields_view(fields@) =~= Seq::empty());
    }
    add_field(&mut fields, "命令或输入", request.command.clone());
    add_field(&mut fields, "工作目录", request.directory.clone());
    add_field(&mut fields, "请求原因", request.reason.clone());
    add_field(&mut fields, "授权目录", request.grant_root.clone());
    proof {
        assert(fields_view(fields@) =~= seq![
            ("命令或输入"@, opt(request.command)),
            ("工作目录"@, opt(request.directory)),
            ("请求原因"@, opt(request.reason)),
            ("授权目录"@, opt(request.grant_root)),
        ]);
    }
    if request.permissions.is_some() {
        add_field(&mut fields, "本次额外权限", request.permissions.clone());
    }
    if request.network_context.is_some() {
        add_field(&mut fields, "网络访问目标", request.network_context.clone());
    }
    if request.kind == ApprovalKind::FileChange {
        let ghost start = fields_view(fields@);
        if let Some(changes) = &request.changes {
            let shown: usize = if changes.len() < 20 {
                changes.len()
            } else {
                20
            };
            let ghost all = shown_changes(request@);
            let mut i: usize = 0;
            proof {
                assert(all.take(0) =~= Seq::empty());
                assert(start + change_fields(all.take(0)) =~= start);
            }
            while i < shown
                invariant
                    i <= shown <= changes@.len(),
                    shown == all.len(),
                    all == changes@.take(shown as int),
                    fields_view(fields@) == start + change_fields(all.take(i as int)),
                decreases shown - i,
            {
                let change = &changes[i];
                let ghost before = change_fields(all.take(i as int));
                proof {
                    assert(all.take(i + 1).drop_last() =~= all.take(i as int));
                    assert(all.take(i + 1).last() == *change);
                }
                add_field(&mut fields, "文件路径", Some(change.path.clone()));
                add_field(&mut fields, "操作类型", Some(change.operation.clone()));
                add_field(&mut fields, "移动目标", change.move_path.clone());
                add_field(&mut fields, "文件差异", Some(change.diff.clone()));
                proof {
                    assert(fields_view(fields@) =~= start + change_fields(all.take(i + 1)));
                }
                i = i + 1;
            }
            proof {
                assert(all.take(i as int) =~= all);
            }
        } else {
            proof {
                assert(start + change_fields(shown_changes(request@)) =~= start);
            }
        }
    }
    fields
}

/// Approval details must remain complete before an allow action is offered.
pub fn approval(request: &Approval, token: &str, prefix: &str) -> (r: (Panel, Vec<(String, String)>))
    ensures
        r.0@ == decision_card(
            command_panel(approval_title(request@), approval_body(request@), approval_entries(request@, token@), prefix@),
        ),
        pairs(r.1@) == card_commands(approval_entries(request@, token@), prefix@),
{
    let title: &str = match request.kind {
        ApprovalKind::Command => if request.network_context.is_some() {
            "网络访问审批"
        } else {
            "命令执行审批"
        },
        ApprovalKind::WriteStdin => "进程输入审批",
        ApprovalKind::FileChange => "文件修改审批",
    };
    let mut complete = is_specified(request);
    let mut body = "请核对以下请求。仅本次请求有效；10 分钟内未答复将拒绝。\n".to_owned();
    if request.kind == ApprovalKind::FileChange && !complete {
        body.append("\n当前尚未提供逐文件修改详情，或详情不完整。\n");
    }
    if request.grant_root.is_some() {
        complete = false;
        body = "本请求包含可能持续整个会话的目录写入授权，当前不支持同意。10 分钟内未答复将拒绝。\n".to_owned();
    }
    let ghost opening = body@;
    let ghost ready = complete;
    let fields = collect_fields(request);
    let ghost all = fields_view(fields@);
    let mut i: usize = 0;
    proof {
        assert(all.take(0) =~= Seq::empty());
    }
    while i < fields.len()
        invariant
            i <= fields@.len(),
            all == fields_view(fields@),
            body@ == with_fields(opening, all.take(i as int)),
            complete == (ready && all_readable(all.take(i as int))),
        decreases fields.len() - i,
    {
        proof {
            assert(all.take(i + 1).drop_last() =~= all.take(i as int));
            assert(all.take(i + 1).last() == all[i as int]);
        }
        let shown = add_shown(&mut body, fields[i].0.as_str(), &fields[i].1);
        // Do not silently truncate security-relevant details and still allow.
        if !shown {
            proof {
                assert(!readable(field_value(all.take(i + 1)[i as int].1)));
            }
            complete = false;
        } else {
            proof {
                let now = all.take(i + 1);
                let old_part = all.take(i as int);
                if all_readable(old_part) {
                    assert forall|j: int| 0 <= j < now.len() implies readable(field_value((#[trigger] now[j]).1)) by {
                        if j < i {
                            assert(now[j] == old_part[j]);
                        }
                    }
                } else {
                    let j = choose|j: int| 0 <= j < old_part.len() && !readable(field_value((#[trigger] old_part[j]).1));
                    assert(now[j] == old_part[j]);
                }
            }
        }
        i = i + 1;
    }
    proof {
        assert(all.take(i as int) =~= all);
    }
    if byte_len(body.as_str()) > 24 * 1024 {
        complete = false;
        body = "审批详情超过卡片展示上限，无法完整展示。10 分钟内未答复将拒绝。\n".to_owned();
    }
    let mut buttons: Vec<(String, String)> = Vec::new();
    if complete && request.can_allow {
        let mut allow = "/approve ".to_owned();
        allow.append(token);
        buttons.push(("同意本次请求".to_owned(), allow));
    } else {
        body.append("\n本请求暂不能通过卡片同意，请拒绝后让 Codex 调整请求。\n");
    }
    let mut deny = "/deny ".to_owned();
    deny.append(token);
    buttons.push(("拒绝".to_owned(), deny));
    proof {
        assert(pairs(buttons@) =~= approval_entries(request@, token@));
    }
    let (mut card, commands) = panel(title, body, buttons, prefix);
    let ghost plain = card@;
    card.tone = Tone::Warning;
    let ghost o = card.buttons@;
    let mut n: usize = 0;
    while n < card.buttons.len()
        invariant
            n <= card.buttons@.len() == o.len(),
            card.title@ == plain.title,
            card.body@ == plain.body,
            card.tone == Tone::Warning,
            plain.buttons == o.map_values(|b: crate::view::Button| b@),
            forall|j: int|
                0 <= j < n ==> (#[trigger] card.buttons@[j])@ == (ButtonView {
                    group: None,
                    style: if o[j].label@ == "拒绝"@ {
                        ButtonStyle::Destructive
                    } else {
                        ButtonStyle::Primary
                    },
                    ..o[j]@
                }),
            forall|j: int| n <= j < o.len() ==> #[trigger] card.buttons@[j] == o[j],
        decreases card.buttons.len() - n,
    {
        let refuse = same(card.buttons[n].label.as_str(), "拒绝");
        card.buttons[n].group = None;
        card.buttons[n].style = if refuse {
            ButtonStyle::Destructive
        } else {
            ButtonStyle::Primary
        };
        n = n + 1;
    }
    proof {
        assert(card@ =~= decision_card(plain));
    }
    (card, commands)
}

/// An allow button is offered exactly when the request may be allowed, and it
/// stands beside the deny button.
pub proof fn allow_is_offered_iff_allowable(r: ApprovalText, token: Seq<char>)
    ensures
        approval_entries(r, token).last() == ("拒绝"@, "/deny "@ + token),
        approval_entries(r, token).len() == 2 <==> allowable(r),
        allowable(r) ==> approval_entries(r, token)[0] == ("同意本次请求"@, "/approve "@ + token),
{
}

/// When a request may be allowed, the card's body holds every one of its
/// details literally.
pub proof fn allowable_shows_every_detail(r: ApprovalText, i: int) -> (parts: (Seq<char>, Seq<char>))
    requires
        allowable(r),
        0 <= i < approval_fields(r).len(),
    ensures
        approval_body(r) == parts.0 + literal_field(
            approval_fields(r)[i].0,
            field_value(approval_fields(r)[i].1),
        ) + parts.1,
{
    assert(readable(field_value(approval_fields(r)[i].1)));
    fields_are_shown(approval_opening(r), approval_fields(r), i)
}

proof fn fields_are_shown(body: Seq<char>, fields: Seq<(Seq<char>, Option<Seq<char>>)>, i: int) -> (parts: (Seq<char>, Seq<char>))
    requires
        0 <= i < fields.len(),
    ensures
        with_fields(body, fields) == parts.0 + shown_field(fields[i]) + parts.1,
    decreases fields.len(),
{
    if i == fields.len() - 1 {
        let parts = (with_fields(body, fields.drop_last()), Seq::<char>::empty());
        assert(with_fields(body, fields) =~= parts.0 + shown_field(fields[i]) + parts.1);
        parts
    } else {
        let inner = fields_are_shown(body, fields.drop_last(), i);
        let parts = (inner.0, inner.1 + shown_field(fields.last()));
        assert(with_fields(body, fields) =~= parts.0 + shown_field(fields[i]) + parts.1);
        parts
    }
}

/// A value cannot close its own fence: nowhere in it do so many backticks
/// stand together.
pub proof fn fence_stays_closed(value: Seq<char>, i: int)
    requires
        0 <= i,
        i + fence_for(value).len() <= value.len(),
    ensures
        value.subrange(i, i + fence_for(value).len()) != fence_for(value),
{
    let n = fence_for(value).len();
    if value.subrange(i, i + n) == fence_for(value) {
        let head = value.take(i + n);
        assert forall|j: int| i <= j < i + n implies head[j] == '`' by {
            assert(value.subrange(i, i + n)[j - i] == fence_for(value)[j - i]);
        }
        run_is_counted(head, n);
        run_is_bounded(value, i + n);
    }
}

proof fn run_is_counted(s: Seq<char>, n: nat)
    requires
        n <= s.len(),
        forall|j: int| s.len() - n <= j < s.len() ==> s[j] == '`',
    ensures
        closing_run(s) >= n,
    decreases n,
{
    if n > 0 {
        run_is_counted(s.drop_last(), (n - 1) as nat);
    }
}

proof fn run_is_bounded(s: Seq<char>, k: int)
    requires
        0 <= k <= s.len(),
    ensures
        closing_run(s.take(k)) <= longest_run(s),
    decreases s.len(),
{
    if s.len() > 0 {
        if k < s.len() {
            run_is_bounded(s.drop_last(), k);
            assert(s.drop_last().take(k) =~= s.take(k));
        } else {
            assert(s.take(k) =~= s);
        }
    }
}

/// The details that a card shows are the request's own, each under its name.
pub proof fn details_are_of_the_request(r: ApprovalText)
    ensures
        ({
            let f = approval_fields(r);
            let p: int = if r.permissions is Some {
                5
            } else {
                4
            };
            &&& f.len() >= 4
            &&& f[0] == ("命令或输入"@, r.command)
            &&& f[1] == ("工作目录"@, r.directory)
            &&& f[2] == ("请求原因"@, r.reason)
            &&& f[3] == ("授权目录"@, r.grant_root)
            &&& r.permissions is Some ==> f.len() >= 5 && f[4] == ("本次额外权限"@, r.permissions)
            &&& r.network_context is Some ==> f.len() >= p + 1 && f[p] == ("网络访问目标"@, r.network_context)
        }),
{
}

/// Of each file that a request wants to change the card shows the path, the
/// operation, where it moves to and the difference.
pub proof fn file_changes_are_shown(r: ApprovalText, changes: Seq<FileChange>, k: int) -> (at: int)
    requires
        r.kind == ApprovalKind::FileChange,
        r.changes == Some(changes),
        0 <= k < changes.len(),
        k < 20,
    ensures
        ({
            let f = approval_fields(r);
            &&& 4 <= at
            &&& at + 4 <= f.len()
            &&& f[at] == ("文件路径"@, Some(changes[k].path@))
            &&& f[at + 1] == ("操作类型"@, Some(changes[k].operation@))
            &&& f[at + 2] == ("移动目标"@, opt(changes[k].move_path))
            &&& f[at + 3] == ("文件差异"@, Some(changes[k].diff@))
        }),
{
    let shown = shown_changes(r);
    change_fields_at(shown, k);
    assert(shown[k] == changes[k]);
    let f = approval_fields(r);
    let head = f.len() - change_fields(shown).len();
    head + 4 * k
}

proof fn change_fields_at(changes: Seq<FileChange>, k: int)
    requires
        0 <= k < changes.len(),
    ensures
        change_fields(changes).len() == 4 * changes.len(),
        change_fields(changes)[4 * k] == ("文件路径"@, Some(changes[k].path@)),
        change_fields(changes)[4 * k + 1] == ("操作类型"@, Some(changes[k].operation@)),
        change_fields(changes)[4 * k + 2] == ("移动目标"@, opt(changes[k].move_path)),
        change_fields(changes)[4 * k + 3] == ("文件差异"@, Some(changes[k].diff@)),
    decreases changes.len(),
{
    change_fields_count(changes);
    change_fields_count(changes.drop_last());
    if k < changes.len() - 1 {
        change_fields_at(changes.drop_last(), k);
    }
}

proof fn change_fields_count(changes: Seq<FileChange>)
    ensures
        change_fields(changes).len() == 4 * changes.len(),
    decreases changes.len(),
{
    if changes.len() > 0 {
        change_fields_count(changes.drop_last());
    }
}

/// A request may be allowed only if the agent takes a consent, it asks for no
/// lasting grant, and it says what it is about: a file change which files, each
/// with its difference and a known operation; anything else what is run and
/// where, unless it only asks for the network.
pub proof fn only_complete_requests_may_be_allowed(r: ApprovalText)
    requires
        allowable(r),
    ensures
        r.can_allow,
        r.grant_root is None,
        r.kind == ApprovalKind::FileChange ==> (r.changes matches Some(c) && 0 < c.len() <= 20 && forall|i: int|
            0 <= i < c.len() ==> !blank((#[trigger] c[i]).path@) && !blank(c[i].diff@) && (c[i].operation@ == "add"@ || c[i].operation@
                == "delete"@ || c[i].operation@ == "update"@)),
        r.kind == ApprovalKind::WriteStdin ==> (r.command matches Some(c) && !blank(c)) && (r.directory matches Some(d) && !blank(d)),
        r.kind == ApprovalKind::Command && (r.network_context is None || r.permissions is Some) ==> (r.command matches Some(c)
            && !blank(c)) && (r.directory matches Some(d) && !blank(d)),
{
    if r.kind == ApprovalKind::FileChange {
        let c = r.changes->Some_0;
        assert forall|i: int| 0 <= i < c.len() implies !blank((#[trigger] c[i]).path@) && !blank(c[i].diff@) && (c[i].operation@
            == "add"@ || c[i].operation@ == "delete"@ || c[i].operation@ == "update"@) by {
            assert(described(c[i]));
        }
    }
}

/// A plain command that says what it runs and where, and fits on the card, may
/// be allowed.
pub proof fn plain_commands_may_be_allowed(r: ApprovalText)
    requires
        r.kind == ApprovalKind::Command,
        r.can_allow,
        r.grant_root is None,
        r.command matches Some(c) && !blank(c),
        r.directory matches Some(d) && !blank(d),
        forall|i: int| 0 <= i < approval_fields(r).len() ==> readable(field_value((#[trigger] approval_fields(r)[i]).1)),
        byte_count(approval_details(r)) <= 24576,
    ensures
        allowable(r),
{
}

/// The card's title says what kind of thing is asked for.
pub proof fn titles_name_the_kind(r: ApprovalText)
    ensures
        r.kind == ApprovalKind::FileChange ==> approval_title(r) == "文件修改审批"@,
        r.kind == ApprovalKind::WriteStdin ==> approval_title(r) == "进程输入审批"@,
        r.kind == ApprovalKind::Command && r.network_context is Some ==> approval_title(r) == "网络访问审批"@,
        r.kind == ApprovalKind::Command && r.network_context is None ==> approval_title(r) == "命令执行审批"@,
{
}

} // verus!
