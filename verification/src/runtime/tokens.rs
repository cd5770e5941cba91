//! Capability token formats, minted in exactly one place.
//!
//! Every token this runtime issues is scoped to the process epoch plus a
//! monotonic sequence (or a task id), so tokens from an earlier run or an
//! earlier task can never be replayed. Button tokens append `-<index>` to a
//! panel prefix; nothing outside this module may format a token.
use vstd::prelude::*;
use vstd::string::*;
use crate::cards::CardToken;
use crate::text::{decimal, decimal_is_digits, decimal_is_injective, decimal_text, is_digit};

verus! {

/// Two numbers joined by a mark.
pub open spec fn numbered(epoch: u64, mark: Seq<char>, sequence: u64) -> Seq<char> {
    decimal(epoch as nat) + mark + decimal(sequence as nat)
}

pub open spec fn panel_prefix_text(epoch: u64, sequence: u64) -> Seq<char> {
    "panel-"@ + numbered(epoch, "-"@, sequence)
}

pub open spec fn confirmation_text(epoch: u64, sequence: u64) -> Seq<char> {
    "cd-"@ + numbered(epoch, "-"@, sequence)
}

pub open spec fn approval_text(epoch: u64, sequence: u64) -> Seq<char> {
    "approval-"@ + numbered(epoch, "-"@, sequence)
}

pub open spec fn task_id_text(epoch: u64, sequence: u64) -> Seq<char> {
    numbered(epoch, ":"@, sequence)
}

fn number_pair(epoch: u64, mark: &str, sequence: u64) -> (r: String)
    ensures
        r@ == numbered(epoch, mark@, sequence),
{
    let mut t = decimal_text(epoch);
    t.append(mark);
    t.append(decimal_text(sequence).as_str());
    t
}

/// Panel action prefix: `panel-{epoch}-{sequence}`. Each minted panel bumps
/// the sequence; its buttons become `{prefix}-{index}`.
pub fn panel_prefix(epoch: u64, sequence: u64) -> (r: String)
    ensures
        r@ == panel_prefix_text(epoch, sequence),
{
    let mut t = "panel-".to_owned();
    t.append(number_pair(epoch, "-", sequence).as_str());
    t
}

/// Directory creation confirmation token: `cd-{epoch}-{sequence}`.
pub fn confirmation(epoch: u64, sequence: u64) -> (r: String)
    ensures
        r@ == confirmation_text(epoch, sequence),
{
    let mut t = "cd-".to_owned();
    t.append(number_pair(epoch, "-", sequence).as_str());
    t
}

/// Approval or question card token: `approval-{epoch}-{sequence}`.
pub fn approval(epoch: u64, sequence: u64) -> (r: CardToken)
    ensures
        r@ == approval_text(epoch, sequence),
{
    let mut t = "approval-".to_owned();
    t.append(number_pair(epoch, "-", sequence).as_str());
    CardToken::new(t)
}

/// Task identity: `{epoch}:{sequence}`.
pub fn task_id(epoch: u64, sequence: u64) -> (r: String)
    ensures
        r@ == task_id_text(epoch, sequence),
{
    number_pair(epoch, ":", sequence)
}

/// Plan offer token: `plan-{task}`; one offer per task.
pub fn plan(task: &str) -> (r: String)
    ensures
        r@ == "plan-"@ + task@,
{
    let mut t = "plan-".to_owned();
    t.append(task);
    t
}

/// Durable input id for a card click, so journal claims cannot collide with
/// message ids: `card:{token}`.
pub fn click_receipt(token: &str) -> (r: String)
    ensures
        r@ == "card:"@ + token@,
{
    let mut t = "card:".to_owned();
    t.append(token);
    t
}

/// A mark that is no digit separates two numbers unambiguously.
pub proof fn numbered_is_injective(e1: u64, s1: u64, e2: u64, s2: u64, mark: Seq<char>)
    requires
        mark.len() == 1,
        !is_digit(mark[0]),
        numbered(e1, mark, s1) == numbered(e2, mark, s2),
    ensures
        e1 == e2,
        s1 == s2,
{
    let a = decimal(e1 as nat);
    let b = decimal(e2 as nat);
    let c = decimal(s1 as nat);
    let d = decimal(s2 as nat);
    let x = numbered(e1, mark, s1);
    decimal_is_digits(e1 as nat);
    decimal_is_digits(e2 as nat);
    if a.len() < b.len() {
        assert((a + mark + c)[a.len() as int] == mark[0]);
        assert((b + mark + d)[a.len() as int] == b[a.len() as int]);
    } else if b.len() < a.len() {
        assert((b + mark + d)[b.len() as int] == mark[0]);
        assert((a + mark + c)[b.len() as int] == a[b.len() as int]);
    }
    assert(a =~= x.take(a.len() as int));
    assert(b =~= x.take(a.len() as int));
    assert(c =~= x.skip(a.len() as int + 1));
    assert(d =~= x.skip(a.len() as int + 1));
    decimal_is_injective(e1 as nat, e2 as nat);
    decimal_is_injective(s1 as nat, s2 as nat);
}

proof fn stripped(prefix: Seq<char>, a: Seq<char>, b: Seq<char>)
    requires
        prefix + a == prefix + b,
    ensures
        a == b,
{
    assert(a =~= (prefix + a).skip(prefix.len() as int));
    assert(b =~= (prefix + b).skip(prefix.len() as int));
}

/// A token belongs to one epoch and one sequence number, and panels,
/// confirmations and approvals never share a token: nothing that an earlier
/// run or an earlier step issued can be replayed.
pub proof fn tokens_never_collide(e1: u64, s1: u64, e2: u64, s2: u64)
    ensures
        panel_prefix_text(e1, s1) == panel_prefix_text(e2, s2) ==> e1 == e2 && s1 == s2,
        confirmation_text(e1, s1) == confirmation_text(e2, s2) ==> e1 == e2 && s1 == s2,
        approval_text(e1, s1) == approval_text(e2, s2) ==> e1 == e2 && s1 == s2,
        task_id_text(e1, s1) == task_id_text(e2, s2) ==> e1 == e2 && s1 == s2,
        panel_prefix_text(e1, s1) != confirmation_text(e2, s2),
        panel_prefix_text(e1, s1) != approval_text(e2, s2),
        confirmation_text(e1, s1) != approval_text(e2, s2),
{
    reveal_strlit("panel-");
    reveal_strlit("cd-");
    reveal_strlit("approval-");
    reveal_strlit("-");
    reveal_strlit(":");
    assert(panel_prefix_text(e1, s1)[0] == 'p');
    assert(confirmation_text(e1, s1)[0] == 'c');
    assert(confirmation_text(e2, s2)[0] == 'c');
    assert(approval_text(e2, s2)[0] == 'a');
    if panel_prefix_text(e1, s1) == panel_prefix_text(e2, s2) {
        stripped("panel-"@, numbered(e1, "-"@, s1), numbered(e2, "-"@, s2));
        numbered_is_injective(e1, s1, e2, s2, "-"@);
    }
    if confirmation_text(e1, s1) == confirmation_text(e2, s2) {
        stripped("cd-"@, numbered(e1, "-"@, s1), numbered(e2, "-"@, s2));
        numbered_is_injective(e1, s1, e2, s2, "-"@);
    }
    if approval_text(e1, s1) == approval_text(e2, s2) {
        stripped("approval-"@, numbered(e1, "-"@, s1), numbered(e2, "-"@, s2));
        numbered_is_injective(e1, s1, e2, s2, "-"@);
    }
    if task_id_text(e1, s1) == task_id_text(e2, s2) {
        numbered_is_injective(e1, s1, e2, s2, ":"@);
    }
}

/// The buttons of one card have distinct tokens, and so have the buttons of
/// different cards.
pub proof fn buttons_never_collide(e1: u64, s1: u64, i1: u64, e2: u64, s2: u64, i2: u64)
    requires
        crate::cards::button_token(panel_prefix_text(e1, s1), i1 as nat) == crate::cards::button_token(
            panel_prefix_text(e2, s2),
            i2 as nat,
        ),
    ensures
        e1 == e2,
        s1 == s2,
        i1 == i2,
{
    reveal_strlit("panel-");
    reveal_strlit("-");
    let a = crate::cards::button_token(panel_prefix_text(e1, s1), i1 as nat);
    let b = crate::cards::button_token(panel_prefix_text(e2, s2), i2 as nat);
    let x1 = numbered(s1, "-"@, i1);
    let x2 = numbered(s2, "-"@, i2);
    let y1 = decimal(e1 as nat) + "-"@ + x1;
    let y2 = decimal(e2 as nat) + "-"@ + x2;
    assert(a =~= "panel-"@ + y1);
    assert(b =~= "panel-"@ + y2);
    stripped("panel-"@, y1, y2);
    decimal_is_digits(e1 as nat);
    decimal_is_digits(e2 as nat);
    let p = decimal(e1 as nat);
    let q = decimal(e2 as nat);
    if p.len() < q.len() {
        assert(y1[p.len() as int] == '-');
        assert(y2[p.len() as int] == q[p.len() as int]);
    } else if q.len() < p.len() {
        assert(y2[q.len() as int] == '-');
        assert(y1[q.len() as int] == p[q.len() as int]);
    }
    assert(p =~= y1.take(p.len() as int));
    assert(q =~= y1.take(p.len() as int));
    assert(x1 =~= y1.skip(p.len() as int + 1));
    assert(x2 =~= y1.skip(p.len() as int + 1));
    decimal_is_injective(e1 as nat, e2 as nat);
    numbered_is_injective(s1, i1, s2, i2, "-"@);
}

} // verus!
