//! What the bot does to the outside world, and the courses of action that it
//! takes in several places.

use vstd::prelude::*;
use crate::pending::{
    apply_spec, busy_count, distinct, expired_rows, has_row, is_row, law_changes_keep_rows_distinct,
    law_changes_start_nothing, law_removed_is_gone, without, PendingRow, StoreOp,
};
use crate::telegram::{ban, ban_spec, send, send_spec, Request, RequestView};

verus! {

/// Something to be done.
#[derive(Debug)]
pub enum Effect {
    /// Make a call; whether it succeeds does not matter.
    Call(Request),
    /// Make a call; if it fails, whatever is under way fails with it.
    Require(Request),
    /// Change the table of those who have yet to verify themselves.
    Store(StoreOp),
}

/// Something to be done, to reason about.
pub enum EffectView {
    Call(RequestView),
    Require(RequestView),
    Store(StoreOp),
}

impl View for Effect {
    type V = EffectView;

    open spec fn view(&self) -> EffectView {
        match self {
            Effect::Call(request) => EffectView::Call(request@),
            Effect::Require(request) => EffectView::Require(request@),
            Effect::Store(op) => EffectView::Store(*op),
        }
    }
}

/// Things to be done, one after the other.
pub open spec fn effects_view(effects: Seq<Effect>) -> Seq<EffectView> {
    Seq::new(effects.len(), |i: int| effects[i]@)
}

/// Puts one more thing at the end.
pub(crate) fn push_effect(effects: &mut Vec<Effect>, effect: Effect)
    ensures
        effects_view(final(effects)@) == effects_view(old(effects)@).push(effect@),
{
    effects.push(effect);
    assert(effects_view(effects@) =~= effects_view(old(effects)@).push(effect@));
}

/// Nothing to be done.
pub(crate) fn no_effects() -> (r: Vec<Effect>)
    ensures
        effects_view(r@) == Seq::<EffectView>::empty(),
{
    let r: Vec<Effect> = Vec::new();
    assert(effects_view(r@) =~= Seq::<EffectView>::empty());
    r
}

/// One thing to be done.
pub(crate) fn one_effect(effect: Effect) -> (r: Vec<Effect>)
    ensures
        effects_view(r@) == seq![effect@],
{
    let mut r = no_effects();
    push_effect(&mut r, effect);
    assert(effects_view(r@) =~= seq![effect@]);
    r
}

/// What follows a failed attempt of a member who has failed `failures` times
/// before: they are told, and on the second failure they are removed and banned;
/// else the failure is noted and they may try again.
pub open spec fn reject_spec(user: i64, chat: i64, failures: i64) -> Seq<EffectView> {
    let told = EffectView::Call(send_spec(user, "验证失败\nVerification failed"@));
    if failures + 1 >= 2 {
        seq![
            told,
            EffectView::Store(StoreOp::Delete { user, chat }),
            EffectView::Call(ban_spec(chat, user)),
        ]
    } else {
        seq![
            told,
            EffectView::Store(
                StoreOp::SetFailures { user, chat, failures: (failures + 1) as i64 },
            ),
        ]
    }
}

/// What follows a failed attempt of a member who has failed `failures` times
/// before.
pub fn reject(user: i64, chat: i64, failures: i64) -> (r: Vec<Effect>)
    requires
        failures < i64::MAX,
    ensures
        effects_view(r@) == reject_spec(user, chat, failures),
{
    let mut out = one_effect(Effect::Call(send(user, "验证失败\nVerification failed")));
    if failures + 1 >= 2 {
        push_effect(&mut out, Effect::Store(StoreOp::Delete { user, chat }));
        push_effect(&mut out, Effect::Call(ban(chat, user)));
    } else {
        push_effect(
            &mut out,
            Effect::Store(StoreOp::SetFailures { user, chat, failures: failures + 1 }),
        );
    }
    assert(effects_view(out@) =~= reject_spec(user, chat, failures));
    out
}

/// What follows when the time of members is over: each is removed and banned.
pub open spec fn expire_spec(rows: Seq<PendingRow>) -> Seq<EffectView>
    decreases rows.len(),
{
    if rows.len() == 0 {
        Seq::empty()
    } else {
        let row = rows.last();
        expire_spec(rows.drop_last()) + seq![
            EffectView::Store(StoreOp::Delete { user: row.user_id, chat: row.chat_id }),
            EffectView::Call(ban_spec(row.chat_id, row.user_id)),
        ]
    }
}

/// What follows when the time of members is over: each is removed and banned.
pub fn expire(rows: &Vec<PendingRow>) -> (r: Vec<Effect>)
    ensures
        effects_view(r@) == expire_spec(rows@),
{
    let mut out = no_effects();
    let mut i: usize = 0;
    while i < rows.len()
        invariant
            i <= rows@.len(),
            effects_view(out@) == expire_spec(rows@.take(i as int)),
        decreases rows@.len() - i,
    {
        let row = rows[i];
        proof {
            assert(rows@.take(i + 1).drop_last() =~= rows@.take(i as int));
            assert(rows@.take(i + 1).last() == row);
        }
        push_effect(
            &mut out,
            Effect::Store(StoreOp::Delete { user: row.user_id, chat: row.chat_id }),
        );
        push_effect(&mut out, Effect::Call(ban(row.chat_id, row.user_id)));
        assert(effects_view(out@) =~= expire_spec(rows@.take(i + 1)));
        i += 1;
    }
    assert(rows@.take(rows@.len() as int) =~= rows@);
    out
}

/// The table after things have been done: only changes of it matter.
pub open spec fn stored(rows: Seq<PendingRow>, effects: Seq<EffectView>) -> Seq<PendingRow>
    decreases effects.len(),
{
    if effects.len() == 0 {
        rows
    } else {
        let before = stored(rows, effects.drop_last());
        match effects.last() {
            EffectView::Store(op) => apply_spec(before, op),
            _ => before,
        }
    }
}

/// What holds of the table when one more thing has been done.
pub(crate) proof fn lemma_stored_push(
    rows: Seq<PendingRow>,
    effects: Seq<EffectView>,
    effect: EffectView,
)
    ensures
        stored(rows, effects.push(effect)) == (match effect {
            EffectView::Store(op) => apply_spec(stored(rows, effects), op),
            _ => stored(rows, effects),
        }),
{
    assert(effects.push(effect).drop_last() =~= effects);
}

/// What holds of the table when one thing has been done.
pub(crate) proof fn lemma_stored_one(rows: Seq<PendingRow>, effect: EffectView)
    ensures
        stored(rows, seq![effect]) == (match effect {
            EffectView::Store(op) => apply_spec(rows, op),
            _ => rows,
        }),
{
    lemma_stored_push(rows, Seq::empty(), effect);
    assert(Seq::empty().push(effect) =~= seq![effect]);
}

/// No user occurs twice in a chat, whatever is done.
pub proof fn law_effects_keep_rows_distinct(rows: Seq<PendingRow>, effects: Seq<EffectView>)
    requires
        distinct(rows),
    ensures
        distinct(stored(rows, effects)),
    decreases effects.len(),
{
    if effects.len() > 0 {
        let rest = effects.drop_last();
        law_effects_keep_rows_distinct(rows, rest);
        if let EffectView::Store(op) = effects.last() {
            law_changes_keep_rows_distinct(stored(rows, rest), op);
        }
    }
}

/// Whatever is done, no more attempts are under way than before, if every row
/// that is entered is free.
pub proof fn law_effects_start_nothing(rows: Seq<PendingRow>, effects: Seq<EffectView>)
    requires
        forall|i: int|
            0 <= i < effects.len() ==> (#[trigger] effects[i] matches EffectView::Store(
                StoreOp::Insert(row),
            ) ==> row.busy != 1),
    ensures
        busy_count(stored(rows, effects)) <= busy_count(rows),
    decreases effects.len(),
{
    if effects.len() > 0 {
        let rest = effects.drop_last();
        assert forall|i: int| 0 <= i < rest.len() implies (#[trigger] rest[i] matches
            EffectView::Store(StoreOp::Insert(row)) ==> row.busy != 1) by {
            assert(rest[i] == effects[i]);
        }
        law_effects_start_nothing(rows, rest);
        assert(effects[effects.len() - 1] == effects.last());
        if let EffectView::Store(op) = effects.last() {
            law_changes_start_nothing(stored(rows, rest), op);
        }
    }
}

/// Sifting twice is sifting by both.
proof fn lemma_filter_twice(
    rows: Seq<PendingRow>,
    first: spec_fn(PendingRow) -> bool,
    second: spec_fn(PendingRow) -> bool,
    both: spec_fn(PendingRow) -> bool,
)
    requires
        forall|row: PendingRow| #[trigger] both(row) == (first(row) && second(row)),
    ensures
        rows.filter(first).filter(second) == rows.filter(both),
    decreases rows.len(),
{
    reveal(Seq::filter);
    if rows.len() > 0 {
        let rest = rows.drop_last();
        let last = rows.last();
        lemma_filter_twice(rest, first, second, both);
        assert(both(last) == (first(last) && second(last)));
        assert(rest.filter(first).push(last).drop_last() =~= rest.filter(first));
    }
}

/// Sifting by what agrees on the rows gives the same.
proof fn lemma_filter_same(
    rows: Seq<PendingRow>,
    one: spec_fn(PendingRow) -> bool,
    other: spec_fn(PendingRow) -> bool,
)
    requires
        forall|i: int| 0 <= i < rows.len() ==> one(#[trigger] rows[i]) == other(rows[i]),
    ensures
        rows.filter(one) == rows.filter(other),
    decreases rows.len(),
{
    reveal(Seq::filter);
    if rows.len() > 0 {
        let rest = rows.drop_last();
        assert forall|i: int| 0 <= i < rest.len() implies one(#[trigger] rest[i]) == other(
            rest[i],
        ) by {
            assert(rest[i] == rows[i]);
        }
        lemma_filter_same(rest, one, other);
        assert(rows[rows.len() - 1] == rows.last());
    }
}

/// The table when the time of members is over holds the others.
proof fn lemma_stored_expire(rows: Seq<PendingRow>, gone: Seq<PendingRow>)
    ensures
        stored(rows, expire_spec(gone)) == rows.filter(
            |row: PendingRow| !has_row(gone, row.user_id, row.chat_id),
        ),
    decreases gone.len(),
{
    let left = |row: PendingRow| !has_row(gone, row.user_id, row.chat_id);
    if gone.len() == 0 {
        lemma_filter_same(rows, left, |row: PendingRow| true);
        lemma_filter_all(rows);
    } else {
        let rest = gone.drop_last();
        let last = gone.last();
        let before = expire_spec(rest);
        let removed = EffectView::Store(
            StoreOp::Delete { user: last.user_id, chat: last.chat_id },
        );
        let banned = EffectView::Call(ban_spec(last.chat_id, last.user_id));
        assert(expire_spec(gone) =~= before.push(removed).push(banned));
        lemma_stored_push(rows, before, removed);
        lemma_stored_push(rows, before.push(removed), banned);
        lemma_stored_expire(rows, rest);
        let left_rest = |row: PendingRow| !has_row(rest, row.user_id, row.chat_id);
        let other = |row: PendingRow| !is_row(row, last.user_id, last.chat_id);
        assert forall|row: PendingRow| #[trigger] left(row) == (left_rest(row) && other(row)) by {
            if has_row(gone, row.user_id, row.chat_id) {
                let i = choose|i: int|
                    0 <= i < gone.len() && is_row(#[trigger] gone[i], row.user_id, row.chat_id);
                if i < rest.len() {
                    assert(is_row(rest[i], row.user_id, row.chat_id));
                }
            }
            if has_row(rest, row.user_id, row.chat_id) {
                let i = choose|i: int|
                    0 <= i < rest.len() && is_row(#[trigger] rest[i], row.user_id, row.chat_id);
                assert(is_row(gone[i], row.user_id, row.chat_id));
            }
            if is_row(row, last.user_id, last.chat_id) {
                assert(is_row(gone[gone.len() - 1], row.user_id, row.chat_id));
            }
        }
        lemma_filter_twice(rows, left_rest, other, left);
    }
}

proof fn lemma_filter_all(rows: Seq<PendingRow>)
    ensures
        rows.filter(|row: PendingRow| true) == rows,
    decreases rows.len(),
{
    reveal(Seq::filter);
    if rows.len() > 0 {
        lemma_filter_all(rows.drop_last());
        assert(rows.drop_last().push(rows.last()) =~= rows);
    }
}

/// Once the members whose time is over are dealt with, the table holds exactly
/// those whose time is not over, in their order.
pub proof fn law_expiry_leaves_the_others(rows: Seq<PendingRow>, now: int)
    requires
        distinct(rows),
    ensures
        stored(rows, expire_spec(expired_rows(rows, now))) == rows.filter(
            |row: PendingRow| row.deadline >= now,
        ),
{
    let over = |row: PendingRow| row.deadline < now;
    let gone = rows.filter(over);
    let left = |row: PendingRow| !has_row(gone, row.user_id, row.chat_id);
    let in_time = |row: PendingRow| row.deadline >= now;
    lemma_stored_expire(rows, gone);
    assert forall|i: int| 0 <= i < rows.len() implies left(#[trigger] rows[i]) == in_time(
        rows[i],
    ) by {
        let row = rows[i];
        if has_row(gone, row.user_id, row.chat_id) {
            let k = choose|k: int|
                0 <= k < gone.len() && is_row(#[trigger] gone[k], row.user_id, row.chat_id);
            rows.lemma_filter_pred(over, k);
            assert(gone.contains(gone[k]));
            rows.lemma_filter_contains_rev(over, gone[k]);
            let j = choose|j: int| 0 <= j < rows.len() && rows[j] == gone[k];
            assert(i == j);
        } else if row.deadline < now {
            rows.lemma_filter_contains(over, i);
            let k = choose|k: int| 0 <= k < gone.len() && gone[k] == row;
            assert(is_row(gone[k], row.user_id, row.chat_id));
        }
    }
    lemma_filter_same(rows, left, in_time);
}

/// Every member whose time is over is banned.
pub proof fn law_expired_are_banned(rows: Seq<PendingRow>, i: int)
    requires
        0 <= i < rows.len(),
    ensures
        expire_spec(rows).contains(
            EffectView::Call(ban_spec(rows[i].chat_id, rows[i].user_id)),
        ),
    decreases rows.len(),
{
    let rest = rows.drop_last();
    let before = expire_spec(rest);
    let all = expire_spec(rows);
    if i < rest.len() {
        law_expired_are_banned(rest, i);
        let ban = EffectView::Call(ban_spec(rows[i].chat_id, rows[i].user_id));
        let k = choose|k: int| 0 <= k < before.len() && before[k] == ban;
        assert(all[k] == ban);
    } else {
        assert(all[before.len() as int + 1] == EffectView::Call(
            ban_spec(rows[i].chat_id, rows[i].user_id),
        ));
    }
}

/// The calls among things to be done.
pub open spec fn calls(effects: Seq<EffectView>) -> Seq<EffectView> {
    effects.filter(|effect: EffectView| !(effect is Store))
}

/// The calls that ban members.
pub open spec fn bans_of(rows: Seq<PendingRow>) -> Seq<EffectView> {
    rows.map_values(|row: PendingRow| EffectView::Call(ban_spec(row.chat_id, row.user_id)))
}

/// When the time of members is over, each is banned once, in their order, and no
/// other call is made.
pub proof fn law_expiry_bans_once(rows: Seq<PendingRow>)
    ensures
        calls(expire_spec(rows)) == bans_of(rows),
    decreases rows.len(),
{
    let is_call = |effect: EffectView| !(effect is Store);
    reveal(Seq::filter);
    if rows.len() > 0 {
        let rest = rows.drop_last();
        let row = rows.last();
        let before = expire_spec(rest);
        let removed = EffectView::Store(StoreOp::Delete { user: row.user_id, chat: row.chat_id });
        let banned = EffectView::Call(ban_spec(row.chat_id, row.user_id));
        law_expiry_bans_once(rest);
        assert(expire_spec(rows) =~= before.push(removed).push(banned));
        assert(before.push(removed).push(banned).drop_last() =~= before.push(removed));
        assert(before.push(removed).drop_last() =~= before);
        assert(before.push(removed).filter(is_call) == before.filter(is_call));
        assert(bans_of(rows) =~= bans_of(rest).push(banned));
    }
}

/// A call that bans a member tells which, and from which chat.
pub proof fn law_ban_names_its_member(chat: i64, user: i64, other_chat: i64, other_user: i64)
    requires
        ban_spec(chat, user) == ban_spec(other_chat, other_user),
    ensures
        chat == other_chat,
        user == other_user,
{
    let one = ban_spec(chat, user).body->Object_0;
    let other = ban_spec(other_chat, other_user).body->Object_0;
    assert(one[0] == other[0]);
    assert(one[1] == other[1]);
}

/// A member who has failed before is, on failing again, taken from the table and
/// banned, and every other row stays.
pub proof fn law_second_failure_is_final(
    rows: Seq<PendingRow>,
    user: i64,
    chat: i64,
    failures: i64,
)
    requires
        distinct(rows),
        failures >= 1,
    ensures
        reject_spec(user, chat, failures).contains(
            EffectView::Call(ban_spec(chat, user)),
        ),
        !has_row(stored(rows, reject_spec(user, chat, failures)), user, chat),
        forall|row: PendingRow|
            !is_row(row, user, chat) ==> (#[trigger] stored(
                rows,
                reject_spec(user, chat, failures),
            ).contains(row) <==> rows.contains(row)),
{
    let all = reject_spec(user, chat, failures);
    assert(all[2] == EffectView::Call(ban_spec(chat, user)));
    let empty = Seq::<EffectView>::empty();
    lemma_stored_push(rows, empty, all[0]);
    lemma_stored_push(rows, empty.push(all[0]), all[1]);
    lemma_stored_push(rows, empty.push(all[0]).push(all[1]), all[2]);
    assert(all =~= empty.push(all[0]).push(all[1]).push(all[2]));
    assert(stored(rows, all) == without(rows, user, chat));
    law_removed_is_gone(rows, user, chat);
}

/// A member who has not failed before is, on failing, not banned, and may make
/// another attempt: the failure is counted and the row is free.
pub proof fn law_first_failure_is_counted(rows: Seq<PendingRow>, user: i64, chat: i64, i: int)
    requires
        0 <= i < rows.len(),
    ensures
        !reject_spec(user, chat, 0).contains(EffectView::Call(ban_spec(chat, user))),
        stored(rows, reject_spec(user, chat, 0)).len() == rows.len(),
        stored(rows, reject_spec(user, chat, 0))[i] == (if is_row(rows[i], user, chat) {
            PendingRow { failures: 1, busy: 0, ..rows[i] }
        } else {
            rows[i]
        }),
{
    let all = reject_spec(user, chat, 0);
    let empty = Seq::<EffectView>::empty();
    lemma_stored_push(rows, empty, all[0]);
    lemma_stored_push(rows, empty.push(all[0]), all[1]);
    assert(all =~= empty.push(all[0]).push(all[1]));
    reveal_strlit("sendMessage");
    reveal_strlit("banChatMember");
    assert("sendMessage"@.len() != "banChatMember"@.len());
}

} // verus!
