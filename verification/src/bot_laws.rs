//! What holds of the course of the bot as a whole.

use vstd::prelude::*;
use crate::bot::{
    bot_wf, chat_of, deadline_spec, full_spec, is_private, message_of, new_members, private_spec,
    reply_is_admin, sender_of, step_spec, table_use_spec, AskView, BotView, Fault, Stage,
};
use crate::config::ConfigView;
use crate::credentials::credentials_spec;
use crate::effect::{
    bans_of, calls, expire_spec, law_ban_names_its_member, law_effects_keep_rows_distinct,
    law_effects_start_nothing, law_expired_are_banned, law_expiry_bans_once,
    law_expiry_leaves_the_others, law_second_failure_is_final, lemma_stored_one, lemma_stored_push,
    stored, EffectView,
};
use crate::json::{field_spec, int_or, int_spec, items_spec, text_or_empty, JsonView};
use crate::pending::{
    busy_count, distinct, expired_rows, has_row, is_row, latest_row, law_busy_is_set,
    law_busy_rows_are_counted, law_changes, law_claim_respects_limit, law_latest_row,
    law_removed_is_gone, lemma_with_busy, PendingRow, StoreOp,
};
use crate::telegram::{
    ban_spec, get_updates_spec, law_get_updates, law_leave, law_member_calls, law_restrict, law_send,
    law_send_button, mutes, names_member, restrict_spec, says, send_button_spec, send_spec, unban_spec,
};
use crate::text::has_prefix;
use crate::verification::{law_reject_turns_down, turns_down};
use crate::welcome::welcome_spec;

verus! {

/// The table after a step and the things that it has to do.
pub open spec fn rows_after(
    b: BotView,
    reply: Option<JsonView>,
    config: ConfigView,
    rows: Seq<PendingRow>,
    listed: Map<i64, i64>,
    now: i64,
) -> Seq<PendingRow> {
    let step = step_spec(b, reply, config, rows, listed, now);
    stored(step.rows, step.effects)
}

/// No step lets a user occur twice in a chat.
pub proof fn law_steps_keep_rows_distinct(
    b: BotView,
    reply: Option<JsonView>,
    config: ConfigView,
    rows: Seq<PendingRow>,
    listed: Map<i64, i64>,
    now: i64,
)
    requires
        bot_wf(b),
        distinct(rows),
    ensures
        distinct(rows_after(b, reply, config, rows, listed, now)),
{
    let step = step_spec(b, reply, config, rows, listed, now);
    let user = sender_of(message_of(b));
    if let Some(row) = latest_row(rows, user) {
        lemma_with_busy(rows, user, row.chat_id, 1);
    }
    assert(distinct(step.rows));
    law_effects_keep_rows_distinct(step.rows, step.effects);
}

/// Nothing that a step has to do enters a row that is busy.
proof fn lemma_entered_rows_are_free(
    b: BotView,
    reply: Option<JsonView>,
    config: ConfigView,
    rows: Seq<PendingRow>,
    listed: Map<i64, i64>,
    now: i64,
    i: int,
)
    requires
        0 <= i < step_spec(b, reply, config, rows, listed, now).effects.len(),
    ensures
        step_spec(b, reply, config, rows, listed, now).effects[i] matches EffectView::Store(
            StoreOp::Insert(row),
        ) ==> row.busy != 1,
{
    if b.stage is Cycle {
        lemma_expiry_enters_nothing(expired_rows(rows, now as int), i);
    }
}

proof fn lemma_expiry_enters_nothing(rows: Seq<PendingRow>, i: int)
    requires
        0 <= i < expire_spec(rows).len(),
    ensures
        !(expire_spec(rows)[i] matches EffectView::Store(StoreOp::Insert(_))),
    decreases rows.len(),
{
    let before = expire_spec(rows.drop_last());
    if i < before.len() {
        lemma_expiry_enters_nothing(rows.drop_last(), i);
    }
}

/// Never are more attempts under way than the settings allow.
pub proof fn law_steps_respect_limit(
    b: BotView,
    reply: Option<JsonView>,
    config: ConfigView,
    rows: Seq<PendingRow>,
    listed: Map<i64, i64>,
    now: i64,
)
    requires
        bot_wf(b),
        distinct(rows),
        busy_count(rows) <= config.max_verifications,
    ensures
        busy_count(rows_after(b, reply, config, rows, listed, now)) <= config.max_verifications,
{
    let step = step_spec(b, reply, config, rows, listed, now);
    let limit = config.max_verifications as int;
    if step.ask is Spawn {
        let user = sender_of(message_of(b));
        let row = latest_row(rows, user)->0;
        law_claim_respects_limit(rows, user, row.chat_id, limit);
    }
    assert(busy_count(step.rows) <= limit);
    assert forall|i: int| 0 <= i < step.effects.len() implies (#[trigger] step.effects[i] matches
        EffectView::Store(StoreOp::Insert(row)) ==> row.busy != 1) by {
        lemma_entered_rows_are_free(b, reply, config, rows, listed, now, i);
    }
    law_effects_start_nothing(step.rows, step.effects);
}

/// At the beginning of a cycle every member whose time is over leaves the table
/// and is banned, once, and no other call is made; everyone else stays in the
/// table and is not banned.
pub proof fn law_cycle_removes_the_late(
    b: BotView,
    reply: Option<JsonView>,
    config: ConfigView,
    rows: Seq<PendingRow>,
    listed: Map<i64, i64>,
    now: i64,
)
    requires
        b.stage is Cycle,
        distinct(rows),
    ensures
        rows_after(b, reply, config, rows, listed, now) == rows.filter(
            |row: PendingRow| row.deadline >= now,
        ),
        calls(step_spec(b, reply, config, rows, listed, now).effects) == bans_of(
            rows.filter(|row: PendingRow| row.deadline < now),
        ),
        forall|i: int|
            0 <= i < rows.len() ==> ((#[trigger] rows[i]).deadline < now <==> step_spec(
                b,
                reply,
                config,
                rows,
                listed,
                now,
            ).effects.contains(EffectView::Call(ban_spec(rows[i].chat_id, rows[i].user_id)))),
{
    law_expiry_leaves_the_others(rows, now as int);
    assert((|row: PendingRow| row.deadline >= now as int) =~= (|row: PendingRow|
        row.deadline >= now));
    let over = |row: PendingRow| row.deadline < now as int;
    assert(over =~= (|row: PendingRow| row.deadline < now));
    let gone = rows.filter(over);
    law_expiry_bans_once(gone);
    let effects = step_spec(b, reply, config, rows, listed, now).effects;
    assert forall|i: int| 0 <= i < rows.len() implies ((#[trigger] rows[i]).deadline < now
        <==> effects.contains(
        EffectView::Call(ban_spec(rows[i].chat_id, rows[i].user_id)),
    )) by {
        let ban = EffectView::Call(ban_spec(rows[i].chat_id, rows[i].user_id));
        if rows[i].deadline < now {
            rows.lemma_filter_contains(over, i);
            let k = choose|k: int| 0 <= k < gone.len() && gone[k] == rows[i];
            law_expired_are_banned(gone, k);
        } else if effects.contains(ban) {
            let at = choose|at: int| 0 <= at < effects.len() && effects[at] == ban;
            effects.lemma_filter_contains(|effect: EffectView| !(effect is Store), at);
            assert(bans_of(gone).contains(ban));
            let k = choose|k: int| 0 <= k < bans_of(gone).len() && bans_of(gone)[k] == ban;
            law_ban_names_its_member(
                gone[k].chat_id,
                gone[k].user_id,
                rows[i].chat_id,
                rows[i].user_id,
            );
            rows.lemma_filter_pred(over, k);
            assert(gone.contains(gone[k]));
            rows.lemma_filter_contains_rev(over, gone[k]);
            let j = choose|j: int| 0 <= j < rows.len() && rows[j] == gone[k];
            assert(i == j);
        }
    }
}

/// Where the bot is no administrator, a new member brings about nothing.
pub proof fn law_no_rights_no_action(
    b: BotView,
    reply: Option<JsonView>,
    config: ConfigView,
    rows: Seq<PendingRow>,
    listed: Map<i64, i64>,
    now: i64,
)
    requires
        b.stage is Rights,
        !reply_is_admin(reply),
    ensures
        step_spec(b, reply, config, rows, listed, now).effects.len() == 0,
        rows_after(b, reply, config, rows, listed, now) == rows,
        step_spec(b, reply, config, rows, listed, now).ask is Continue,
{
}

/// A new member who is let in without verification is greeted, and nothing else
/// happens to them.
pub proof fn law_whitelisted_are_only_greeted(
    b: BotView,
    reply: Option<JsonView>,
    config: ConfigView,
    rows: Seq<PendingRow>,
    listed: Map<i64, i64>,
    now: i64,
    i: usize,
    user: i64,
)
    requires
        bot_wf(b),
        b.stage == Stage::Rights(i),
        reply_is_admin(reply),
        int_spec(field_spec(new_members(message_of(b))[i as int], "id"@)) == Some(user),
        listed.dom().contains(user),
    ensures
        step_spec(b, reply, config, rows, listed, now).effects =~= seq![
            EffectView::Require(
                send_spec(
                    chat_of(message_of(b)),
                    welcome_spec(
                        config.welcome,
                        new_members(message_of(b))[i as int],
                    ),
                ),
            ),
        ],
        rows_after(b, reply, config, rows, listed, now) == rows,
{
    let step = step_spec(b, reply, config, rows, listed, now);
    lemma_stored_one(rows, step.effects[0]);
}

/// Any other new member has, from then on, to verify themselves before the
/// deadline, and is kept from sending messages until then.
pub proof fn law_others_must_verify(
    b: BotView,
    reply: Option<JsonView>,
    config: ConfigView,
    rows: Seq<PendingRow>,
    listed: Map<i64, i64>,
    now: i64,
    i: usize,
    user: i64,
)
    requires
        bot_wf(b),
        b.stage == Stage::Rights(i),
        reply_is_admin(reply),
        int_spec(field_spec(new_members(message_of(b))[i as int], "id"@)) == Some(user),
        !listed.dom().contains(user),
        i64::MIN <= deadline_spec(now as int, config.timeout_seconds) <= i64::MAX,
    ensures
        ({
            let chat = chat_of(message_of(b));
            let deadline = deadline_spec(now as int, config.timeout_seconds);
            &&& rows_after(b, reply, config, rows, listed, now).contains(
                PendingRow {
                    user_id: user,
                    chat_id: chat,
                    deadline: deadline as i64,
                    failures: 0,
                    busy: 0,
                },
            )
            &&& step_spec(b, reply, config, rows, listed, now).effects.contains(
                EffectView::Require(restrict_spec(chat, user, deadline as i64)),
            )
        }),
{
    let step = step_spec(b, reply, config, rows, listed, now);
    let all = step.effects;
    let empty = Seq::<EffectView>::empty();
    lemma_stored_push(rows, empty, all[0]);
    lemma_stored_push(rows, empty.push(all[0]), all[1]);
    lemma_stored_push(rows, empty.push(all[0]).push(all[1]), all[2]);
    assert(all =~= empty.push(all[0]).push(all[1]).push(all[2]));
    let after = rows_after(b, reply, config, rows, listed, now);
    assert(after[after.len() - 1] == after.last());
    assert(all[1] == EffectView::Require(
        restrict_spec(
            chat_of(message_of(b)),
            user,
            deadline_spec(now as int, config.timeout_seconds) as i64,
        ),
    ));
}

/// A sender of whom nothing is expected changes nothing by a private message,
/// and is at most told that nothing is expected of them.
pub proof fn law_strangers_change_nothing(
    user: i64,
    text: Seq<char>,
    config: ConfigView,
    rows: Seq<PendingRow>,
)
    requires
        forall|k: int| 0 <= k < rows.len() ==> (#[trigger] rows[k]).user_id != user,
    ensures
        private_spec(user, text, config, rows).rows == rows,
        private_spec(user, text, config, rows).ask is Continue,
        forall|i: int|
            0 <= i < private_spec(user, text, config, rows).effects.len() ==> #[trigger] private_spec(
                user,
                text,
                config,
                rows,
            ).effects[i] == EffectView::Call(
                send_spec(user, "没有待验证请求\nNo pending verification request"@),
            ),
{
    law_latest_row(rows, user);
}

/// An attempt that begins is that of a member who has yet to verify themselves
/// and makes no other attempt, with what their command says; from then on it is
/// under way.
pub proof fn law_attempt_is_claimed(
    user: i64,
    text: Seq<char>,
    config: ConfigView,
    rows: Seq<PendingRow>,
)
    requires
        distinct(rows),
        private_spec(user, text, config, rows).ask is Spawn,
    ensures
        ({
            let answer = private_spec(user, text, config, rows);
            let job = answer.ask->Spawn_0;
            &&& job.user == user
            &&& credentials_spec(text) == Some((job.key, job.org))
            &&& has_row(rows, user, job.chat)
            &&& answer.rows.len() == rows.len()
            &&& forall|i: int|
                0 <= i < rows.len() ==> #[trigger] answer.rows[i] == (if is_row(
                    rows[i],
                    user,
                    job.chat,
                ) {
                    PendingRow { busy: 1, ..rows[i] }
                } else {
                    rows[i]
                })
            &&& forall|i: int|
                0 <= i < rows.len() && is_row(#[trigger] rows[i], user, job.chat) ==> rows[i].busy
                    == 0 && rows[i].failures == job.failures
        }),
{
    let answer = private_spec(user, text, config, rows);
    let job = answer.ask->Spawn_0;
    law_latest_row(rows, user);
    let row = latest_row(rows, user)->0;
    let k = choose|k: int| 0 <= k < rows.len() && rows[k] == row;
    assert(is_row(rows[k], user, job.chat));
    let f = choose|f: int|
        0 <= f < rows.len() && is_row(#[trigger] rows[f], user, job.chat) && rows[f].busy == 0;
    assert forall|i: int| 0 <= i < rows.len() && is_row(#[trigger] rows[i], user, job.chat) implies
        rows[i].busy == 0 && rows[i].failures == job.failures by {
        assert(i == k);
        assert(i == f);
    }
}

/// A member who has failed before and sends anything but a registration command
/// is banned and leaves the table.
pub proof fn law_second_wrong_answer_bans(
    user: i64,
    text: Seq<char>,
    config: ConfigView,
    rows: Seq<PendingRow>,
    row: PendingRow,
)
    requires
        distinct(rows),
        latest_row(rows, user) == Some(row),
        1 <= row.failures < i64::MAX,
        !has_prefix(text, "/start"@),
        credentials_spec(text) is None,
    ensures
        ({
            let answer = private_spec(user, text, config, rows);
            &&& answer.effects.contains(EffectView::Call(ban_spec(row.chat_id, user)))
            &&& !has_row(stored(answer.rows, answer.effects), user, row.chat_id)
        }),
{
    law_second_failure_is_final(rows, user, row.chat_id, row.failures);
}

/// A member who is turned away because too many attempts are under way, or one
/// of their own is, leaves the table, is removed from the chat and may join it
/// again.
pub proof fn law_turned_away_may_return(
    user: i64,
    text: Seq<char>,
    config: ConfigView,
    rows: Seq<PendingRow>,
    row: PendingRow,
)
    requires
        distinct(rows),
        latest_row(rows, user) == Some(row),
        !has_prefix(text, "/start"@),
        credentials_spec(text) is Some,
        busy_count(rows) >= config.max_verifications || row.busy == 1,
    ensures
        ({
            let answer = private_spec(user, text, config, rows);
            &&& answer.ask is Continue
            &&& answer.effects.contains(EffectView::Call(ban_spec(row.chat_id, user)))
            &&& answer.effects.contains(EffectView::Call(unban_spec(row.chat_id, user)))
            &&& !has_row(stored(answer.rows, answer.effects), user, row.chat_id)
        }),
{
    let all = full_spec(user, row.chat_id);
    assert(all[1] == EffectView::Call(ban_spec(row.chat_id, user)));
    assert(all[2] == EffectView::Call(unban_spec(row.chat_id, user)));
    let empty = Seq::<EffectView>::empty();
    lemma_stored_push(rows, empty, all[0]);
    lemma_stored_push(rows, empty.push(all[0]), all[1]);
    lemma_stored_push(rows, empty.push(all[0]).push(all[1]), all[2]);
    lemma_stored_push(rows, empty.push(all[0]).push(all[1]).push(all[2]), all[3]);
    assert(all =~= empty.push(all[0]).push(all[1]).push(all[2]).push(all[3]));
    law_removed_is_gone(rows, user, row.chat_id);
}

/// The number of the message at a place.
pub open spec fn update_id(b: BotView, at: int) -> i64 {
    int_or(field_spec(b.batch[at], "update_id"@), 0)
}

/// Whether the next call for messages asks for those after the last one that has
/// been taken up.
pub open spec fn acknowledged(b: BotView) -> bool {
    match b.stage {
        Stage::Cycle | Stage::Polling | Stage::Updates => b.next == 0 || b.offset == update_id(
            b,
            b.next - 1,
        ) + 1,
        _ => b.offset == update_id(b, b.next as int) + 1,
    }
}

/// Once a message has been taken up it is not asked for again, as long as no
/// other batch has come.
pub proof fn law_messages_are_acknowledged(
    b: BotView,
    reply: Option<JsonView>,
    config: ConfigView,
    rows: Seq<PendingRow>,
    listed: Map<i64, i64>,
    now: i64,
)
    requires
        bot_wf(b),
        acknowledged(b),
    ensures
        ({
            let step = step_spec(b, reply, config, rows, listed, now);
            step.ask is Abort || acknowledged(step.bot)
        }),
        b.stage is Cycle ==> step_spec(b, reply, config, rows, listed, now).ask == AskView::Query(
            get_updates_spec(b.offset),
        ),
{
}

/// How far the bot is within a message: the larger, the nearer its beginning.
pub open spec fn phase(stage: Stage) -> int {
    match stage {
        Stage::Cycle | Stage::Polling => 0,
        Stage::Private => 1,
        Stage::Members(_) | Stage::Rights(_) => 2,
        Stage::BotRights => 3,
        Stage::Inviter => 4,
        Stage::Updates => 5,
    }
}

/// How many steps remain within the members of a message, at most.
pub open spec fn members_left(b: BotView) -> int {
    let n = new_members(message_of(b)).len() as int;
    match b.stage {
        Stage::Members(i) => if i < n {
            2 * (n - i)
        } else {
            0
        },
        Stage::Rights(i) => 2 * (n - i) - 1,
        _ => 0,
    }
}

/// Each step brings the bot nearer to the end of a batch: messages, the parts of
/// a message and its members are each gone through once, and the cycle ends.
pub proof fn law_batch_is_worked_off(
    b: BotView,
    reply: Option<JsonView>,
    config: ConfigView,
    rows: Seq<PendingRow>,
    listed: Map<i64, i64>,
    now: i64,
)
    requires
        bot_wf(b),
        b.next <= b.batch.len(),
        new_members(message_of(b)).len() <= usize::MAX,
        !(b.stage is Cycle || b.stage is Polling),
    ensures
        ({
            let step = step_spec(b, reply, config, rows, listed, now);
            step.ask is Abort || decreases_to!(
                (b.batch.len() - b.next), phase(b.stage), members_left(b)
                => (step.bot.batch.len() - step.bot.next), phase(step.bot.stage),
                   members_left(step.bot)
            )
        }),
{
}

/// A step that does nothing with the tables comes out the same whatever they
/// hold, and only a step that may begin an attempt changes a table itself.
pub proof fn law_table_use(
    b: BotView,
    reply: Option<JsonView>,
    config: ConfigView,
    rows: Seq<PendingRow>,
    listed: Map<i64, i64>,
    other_rows: Seq<PendingRow>,
    other_listed: Map<i64, i64>,
    now: i64,
)
    ensures
        ({
            let one = step_spec(b, reply, config, rows, listed, now);
            let other = step_spec(b, reply, config, other_rows, other_listed, now);
            &&& table_use_spec(b) is Nothing ==> one.bot == other.bot && one.effects
                == other.effects && one.ask == other.ask
            &&& !(table_use_spec(b) is Claim) ==> one.rows == rows
        }),
{
}

/// The bot stops only on a member without a number, or where a number or a time
/// lies beyond what can be counted.
pub proof fn law_faults(
    b: BotView,
    reply: Option<JsonView>,
    config: ConfigView,
    rows: Seq<PendingRow>,
    listed: Map<i64, i64>,
    now: i64,
    fault: Fault,
)
    requires
        bot_wf(b),
        step_spec(b, reply, config, rows, listed, now).ask == AskView::Abort(fault),
    ensures
        match fault {
            Fault::MemberWithoutId => b.stage matches Stage::Rights(i) && int_spec(
                field_spec(new_members(message_of(b))[i as int], "id"@),
            ) is None,
            Fault::OffsetOverflow => b.stage is Updates && update_id(b, b.next as int) == i64::MAX,
            Fault::DeadlineOverflow => b.stage is Rights && !(i64::MIN <= deadline_spec(
                now as int,
                config.timeout_seconds,
            ) <= i64::MAX),
            Fault::FailuresOverflow => b.stage is Private && is_private(message_of(b))
                && credentials_spec(text_or_empty(field_spec(message_of(b), "text"@))) is None,
        },
{
}

/// The message at which the bot stands, in the batch.
pub open spec fn message_at(b: BotView) -> JsonView {
    field_spec(b.batch[b.next as int], "message"@)
}

/// The chat that the message at which the bot stands was sent to, zero where it
/// names none.
pub open spec fn chat_at(b: BotView) -> i64 {
    int_or(field_spec(field_spec(message_at(b), "chat"@), "id"@), 0)
}

/// Who sent the message at which the bot stands, zero where it does not say.
pub open spec fn sender_at(b: BotView) -> i64 {
    int_or(field_spec(field_spec(message_at(b), "from"@), "id"@), 0)
}

/// The members who, by the message at which the bot stands, have joined.
pub open spec fn members_at(b: BotView) -> Seq<JsonView> {
    items_spec(field_spec(message_at(b), "new_chat_members"@))
}

/// Whether a reply has come that tells of an administrator or the creator.
pub open spec fn tells_of_admin(reply: Option<JsonView>) -> bool {
    reply is Some && (field_spec(reply->0, "status"@) == JsonView::Str("administrator"@)
        || field_spec(reply->0, "status"@) == JsonView::Str("creator"@))
}

/// Whether one of the things to be done is a call, which may fail, that says a
/// text in a chat.
pub open spec fn says_somewhere(effects: Seq<EffectView>, chat: i64, text: Seq<char>) -> bool {
    exists|i: int|
        0 <= i < effects.len() && (#[trigger] effects[i] matches EffectView::Call(r) && says(
            r,
            chat,
            text,
        ))
}

/// Whether one of the things to be done is a call, which may fail, of a method on a
/// member of a chat.
pub open spec fn calls_on_member(
    effects: Seq<EffectView>,
    method: Seq<char>,
    chat: i64,
    user: i64,
) -> bool {
    exists|i: int|
        0 <= i < effects.len() && (#[trigger] effects[i] matches EffectView::Call(r)
            && names_member(r, method, chat, user))
}

/// Whether the bot asks about a member of a chat.
pub open spec fn asks_about(ask: AskView, chat: i64, user: i64) -> bool {
    ask matches AskView::Query(r) && names_member(r, "getChatMember"@, chat, user)
}

/// Whether the bot has gone on to the next message, with nothing else changed.
pub open spec fn went_on(b: BotView, after: BotView) -> bool {
    &&& after.stage is Updates
    &&& after.next == b.next + 1
    &&& after.batch == b.batch
    &&& after.offset == b.offset
    &&& after.bot_id == b.bot_id
    &&& after.username == b.username
}

/// Whether the bot stands elsewhere in the same message, with nothing else
/// changed.
pub open spec fn moved_to(b: BotView, after: BotView, stage: Stage) -> bool {
    &&& after.stage == stage
    &&& after.next == b.next
    &&& after.batch == b.batch
    &&& after.offset == b.offset
    &&& after.bot_id == b.bot_id
    &&& after.username == b.username
}

/// A bot that was not added by an administrator says so in the chat that it was
/// added to, leaves that chat, and does nothing else.
pub proof fn law_uninvited_bot_leaves(
    b: BotView,
    reply: Option<JsonView>,
    config: ConfigView,
    rows: Seq<PendingRow>,
    listed: Map<i64, i64>,
    now: i64,
)
    requires
        bot_wf(b),
        b.stage is Inviter,
        !tells_of_admin(reply),
    ensures
        ({
            let step = step_spec(b, reply, config, rows, listed, now);
            &&& says_somewhere(step.effects, chat_at(b), "只有群管理员可以添加本 Bot。"@)
            &&& exists|i: int|
                0 <= i < step.effects.len() && (#[trigger] step.effects[i] matches
                    EffectView::Call(r) && r.method == "leaveChat"@ && field_spec(
                    r.body,
                    "chat_id"@,
                ) == JsonView::Int(chat_at(b)))
            &&& step.effects.len() == 2
            &&& rows_after(b, reply, config, rows, listed, now) == rows
            &&& went_on(b, step.bot)
            &&& step.ask is Continue
        }),
{
    let step = step_spec(b, reply, config, rows, listed, now);
    law_send(chat_at(b), "只有群管理员可以添加本 Bot。"@);
    law_leave(chat_at(b));
    lemma_two_calls(rows, step.effects[0], step.effects[1]);
    assert(step.effects =~= seq![step.effects[0], step.effects[1]]);
    assert(step.effects[0] matches EffectView::Call(r) && says(
        r,
        chat_at(b),
        "只有群管理员可以添加本 Bot。"@,
    ));
    assert(step.effects[1] matches EffectView::Call(r) && r.method == "leaveChat"@);
}

/// Calls leave the table as it is.
proof fn lemma_two_calls(rows: Seq<PendingRow>, first: EffectView, second: EffectView)
    requires
        !(first is Store),
        !(second is Store),
    ensures
        stored(rows, seq![first, second]) == rows,
{
    lemma_stored_one(rows, first);
    lemma_stored_push(rows, seq![first], second);
    assert(seq![first].push(second) =~= seq![first, second]);
}

/// A bot that was added by an administrator asks about itself in that chat.
pub proof fn law_invited_bot_asks_about_itself(
    b: BotView,
    reply: Option<JsonView>,
    config: ConfigView,
    rows: Seq<PendingRow>,
    listed: Map<i64, i64>,
    now: i64,
)
    requires
        bot_wf(b),
        b.stage is Inviter,
        tells_of_admin(reply),
    ensures
        ({
            let step = step_spec(b, reply, config, rows, listed, now);
            &&& step.effects.len() == 0 && step.rows == rows
            &&& asks_about(step.ask, chat_at(b), b.bot_id)
            &&& moved_to(b, step.bot, Stage::BotRights)
        }),
{
    law_member_calls(chat_at(b), b.bot_id);
}

/// A bot that has been added says in that chat whether it is an administrator
/// there. If it is, it goes on with the members who have joined; if not, the
/// message is done with.
pub proof fn law_added_bot_tells_its_rights(
    b: BotView,
    reply: Option<JsonView>,
    config: ConfigView,
    rows: Seq<PendingRow>,
    listed: Map<i64, i64>,
    now: i64,
)
    requires
        bot_wf(b),
        b.stage is BotRights,
    ensures
        ({
            let step = step_spec(b, reply, config, rows, listed, now);
            &&& step.effects.len() == 1
            &&& step.ask is Continue
            &&& rows_after(b, reply, config, rows, listed, now) == rows
            &&& tells_of_admin(reply) ==> moved_to(b, step.bot, Stage::Members(0))
                && says_somewhere(step.effects, chat_at(b), "管理员身份与 Bot 管理权限验证成功。"@)
            &&& !tells_of_admin(reply) ==> went_on(b, step.bot) && says_somewhere(
                step.effects,
                chat_at(b),
                "已验证添加者为群管理员。请将本 Bot 设置为管理员，并授予封禁用户和限制成员权限；设置完成后 Bot 才会处理新人验证。"@,
            )
        }),
{
    let step = step_spec(b, reply, config, rows, listed, now);
    law_send(chat_at(b), "管理员身份与 Bot 管理权限验证成功。"@);
    law_send(
        chat_at(b),
        "已验证添加者为群管理员。请将本 Bot 设置为管理员，并授予封禁用户和限制成员权限；设置完成后 Bot 才会处理新人验证。"@,
    );
    lemma_stored_one(rows, step.effects[0]);
    assert(step.effects =~= seq![step.effects[0]]);
    assert(step.effects[0] is Call);
}

/// A message that is taken up is acknowledged. If the bot is among those who have
/// joined, it asks about who sent the message; else it goes on with the members.
pub proof fn law_message_is_taken_up(
    b: BotView,
    reply: Option<JsonView>,
    config: ConfigView,
    rows: Seq<PendingRow>,
    listed: Map<i64, i64>,
    now: i64,
)
    requires
        b.stage is Updates,
        b.next < b.batch.len(),
        int_or(field_spec(b.batch[b.next as int], "update_id"@), 0) < i64::MAX,
    ensures
        ({
            let step = step_spec(b, reply, config, rows, listed, now);
            let added = exists|i: int|
                0 <= i < members_at(b).len() && field_spec(#[trigger] members_at(b)[i], "id"@)
                    == JsonView::Int(b.bot_id);
            &&& step.effects.len() == 0 && step.rows == rows
            &&& step.bot.offset == int_or(field_spec(b.batch[b.next as int], "update_id"@), 0) + 1
            &&& step.bot.next == b.next && step.bot.batch == b.batch
            &&& step.bot.bot_id == b.bot_id && step.bot.username == b.username
            &&& added ==> step.bot.stage is Inviter && asks_about(
                step.ask,
                chat_at(b),
                sender_at(b),
            )
            &&& !added ==> step.bot.stage == Stage::Members(0) && step.ask is Continue
        }),
{
    law_member_calls(chat_at(b), sender_at(b));
    let members = members_at(b);
    assert(members == new_members(message_of(b)));
    assert forall|i: int| 0 <= i < members.len() implies (int_spec(
        field_spec(#[trigger] members[i], "id"@),
    ) == Some(b.bot_id) <==> field_spec(members[i], "id"@) == JsonView::Int(b.bot_id)) by {}
}

/// The members who have joined are gone through one after the other: bots are
/// passed over, and before anyone else is taken in the bot asks about itself in
/// that chat. Behind the last of them comes the private message.
pub proof fn law_members_are_gone_through(
    b: BotView,
    reply: Option<JsonView>,
    config: ConfigView,
    rows: Seq<PendingRow>,
    listed: Map<i64, i64>,
    now: i64,
    i: usize,
)
    requires
        bot_wf(b),
        b.stage == Stage::Members(i),
        i < usize::MAX,
    ensures
        ({
            let step = step_spec(b, reply, config, rows, listed, now);
            let is_bot = i < members_at(b).len() && field_spec(members_at(b)[i as int], "is_bot"@)
                == JsonView::Bool(true);
            &&& step.effects.len() == 0 && step.rows == rows
            &&& i >= members_at(b).len() ==> moved_to(b, step.bot, Stage::Private)
                && step.ask is Continue
            &&& is_bot ==> moved_to(b, step.bot, Stage::Members((i + 1) as usize))
                && step.ask is Continue
            &&& i < members_at(b).len() && !is_bot ==> moved_to(b, step.bot, Stage::Rights(i))
                && asks_about(step.ask, chat_at(b), b.bot_id)
        }),
{
    law_member_calls(chat_at(b), b.bot_id);
}

/// A new member of a chat in which the bot is an administrator, who is not let in
/// without verification, gets just the time of the settings: from the time at
/// which they join, so many seconds. Until then they are entered in the table and
/// kept from sending messages. They are greeted in that chat and shown the way to
/// the bot.
pub proof fn law_new_member_gets_the_time(
    b: BotView,
    reply: Option<JsonView>,
    config: ConfigView,
    rows: Seq<PendingRow>,
    listed: Map<i64, i64>,
    now: i64,
    i: usize,
    user: i64,
)
    requires
        bot_wf(b),
        b.stage == Stage::Rights(i),
        i < usize::MAX,
        distinct(rows),
        tells_of_admin(reply),
        field_spec(members_at(b)[i as int], "id"@) == JsonView::Int(user),
        !listed.dom().contains(user),
        config.timeout_seconds <= i64::MAX,
        now + config.timeout_seconds <= i64::MAX,
    ensures
        ({
            let step = step_spec(b, reply, config, rows, listed, now);
            let after = rows_after(b, reply, config, rows, listed, now);
            let greeting = welcome_spec(config.welcome, members_at(b)[i as int]);
            &&& forall|row: PendingRow| #[trigger]
                after.contains(row) <==> (row.user_id == user && row.chat_id == chat_at(b)
                    && row.deadline == now + config.timeout_seconds && row.failures == 0
                    && row.busy == 0) || (rows.contains(row) && (row.user_id != user || row.chat_id
                    != chat_at(b)))
            &&& exists|k: int|
                0 <= k < step.effects.len() && (#[trigger] step.effects[k] matches
                    EffectView::Require(r) && mutes(
                    r,
                    chat_at(b),
                    user,
                    now + config.timeout_seconds,
                ))
            &&& exists|k: int|
                0 <= k < step.effects.len() && (#[trigger] step.effects[k] matches
                    EffectView::Require(r) && says(r, chat_at(b), greeting) && r
                    == send_button_spec(chat_at(b), greeting, config.button, b.username))
            &&& step.effects.len() == 3
            &&& moved_to(b, step.bot, Stage::Members((i + 1) as usize))
            &&& step.ask is Continue
        }),
{
    let step = step_spec(b, reply, config, rows, listed, now);
    let all = step.effects;
    let greeting = welcome_spec(config.welcome, members_at(b)[i as int]);
    let deadline = (now + config.timeout_seconds) as i64;
    let row = PendingRow {
        user_id: user,
        chat_id: chat_at(b),
        deadline,
        failures: 0,
        busy: 0,
    };
    assert(all[0] == EffectView::Store(StoreOp::Insert(row)));
    let empty = Seq::<EffectView>::empty();
    lemma_stored_push(rows, empty, all[0]);
    lemma_stored_push(rows, empty.push(all[0]), all[1]);
    lemma_stored_push(rows, empty.push(all[0]).push(all[1]), all[2]);
    assert(all =~= empty.push(all[0]).push(all[1]).push(all[2]));
    law_changes(rows, row, user, chat_at(b));
    law_restrict(chat_at(b), user, deadline);
    law_send_button(chat_at(b), greeting, config.button, b.username);
    assert(all[1] matches EffectView::Require(r) && mutes(
        r,
        chat_at(b),
        user,
        now + config.timeout_seconds,
    ));
    assert(all[2] matches EffectView::Require(r) && says(r, chat_at(b), greeting));
}

/// More time in the settings gives a new member later deadlines, by just the
/// difference.
pub proof fn law_more_time_is_later(now: i64, time: u64, more: u64)
    requires
        time <= more <= i64::MAX,
    ensures
        deadline_spec(now as int, more) - deadline_spec(now as int, time) == more - time,
        deadline_spec(now as int, 0) == now,
{
}

/// A new member who is let in without verification is greeted in that chat, and
/// nothing else happens; where a member has no number, or the deadline lies beyond
/// what can be counted, the bot stops.
pub proof fn law_listed_member_is_greeted(
    b: BotView,
    reply: Option<JsonView>,
    config: ConfigView,
    rows: Seq<PendingRow>,
    listed: Map<i64, i64>,
    now: i64,
    i: usize,
)
    requires
        bot_wf(b),
        b.stage == Stage::Rights(i),
        i < usize::MAX,
        tells_of_admin(reply),
    ensures
        ({
            let step = step_spec(b, reply, config, rows, listed, now);
            let member = members_at(b)[i as int];
            let id = field_spec(member, "id"@);
            &&& (id is Int && listed.dom().contains(id->Int_0)) ==> {
                &&& step.effects.len() == 1
                &&& (step.effects[0] matches EffectView::Require(r) && says(
                    r,
                    chat_at(b),
                    welcome_spec(config.welcome, member),
                ))
                &&& rows_after(b, reply, config, rows, listed, now) == rows
                &&& moved_to(b, step.bot, Stage::Members((i + 1) as usize))
                &&& step.ask is Continue
            }
            &&& !(id is Int) ==> step.ask == AskView::Abort(Fault::MemberWithoutId)
            &&& (id is Int && !listed.dom().contains(id->Int_0) && config.timeout_seconds
                <= i64::MAX && now + config.timeout_seconds > i64::MAX) ==> step.ask
                == AskView::Abort(Fault::DeadlineOverflow)
        }),
{
    let step = step_spec(b, reply, config, rows, listed, now);
    let member = members_at(b)[i as int];
    law_send(chat_at(b), welcome_spec(config.welcome, member));
    let id = field_spec(member, "id"@);
    if id is Int && listed.dom().contains(id->Int_0) {
        lemma_stored_one(rows, step.effects[0]);
        assert(step.effects =~= seq![step.effects[0]]);
    }
}

/// A message that is not private is done with behind its members. To a private one
/// the bot answers its sender, by its text, and then goes on.
pub proof fn law_private_messages_are_answered(
    b: BotView,
    reply: Option<JsonView>,
    config: ConfigView,
    rows: Seq<PendingRow>,
    listed: Map<i64, i64>,
    now: i64,
)
    requires
        bot_wf(b),
        b.stage is Private,
    ensures
        ({
            let step = step_spec(b, reply, config, rows, listed, now);
            let private = field_spec(field_spec(message_at(b), "chat"@), "type"@) == JsonView::Str(
                "private"@,
            );
            let said = field_spec(message_at(b), "text"@);
            let text = if said is Str { said->Str_0 } else { Seq::empty() };
            let answer = private_spec(sender_at(b), text, config, rows);
            &&& !private ==> step.effects.len() == 0 && step.rows == rows && step.ask is Continue
                && went_on(b, step.bot)
            &&& private ==> step.effects == answer.effects && step.rows == answer.rows && step.ask
                == answer.ask
            &&& private && !(answer.ask is Abort) ==> went_on(b, step.bot)
        }),
{
}

/// Who sends `/start`, with or without more behind it, is answered with one
/// message: the prompt of the settings if the sender has yet to verify themselves
/// anywhere, else that nothing is expected of them. No row changes.
pub proof fn law_start_is_answered(
    user: i64,
    text: Seq<char>,
    config: ConfigView,
    rows: Seq<PendingRow>,
)
    requires
        has_prefix(text, "/start"@),
    ensures
        ({
            let answer = private_spec(user, text, config, rows);
            let expected = exists|i: int|
                0 <= i < rows.len() && (#[trigger] rows[i]).user_id == user;
            &&& answer.rows == rows
            &&& answer.ask is Continue
            &&& answer.effects.len() == 1
            &&& expected ==> says_somewhere(answer.effects, user, config.prompt)
            &&& !expected ==> says_somewhere(
                answer.effects,
                user,
                "没有待验证请求\nNo pending verification request"@,
            )
        }),
{
    law_latest_row(rows, user);
    law_send(user, config.prompt);
    law_send(user, "没有待验证请求\nNo pending verification request"@);
    let answer = private_spec(user, text, config, rows);
    if let Some(row) = latest_row(rows, user) {
        let k = choose|k: int| 0 <= k < rows.len() && rows[k] == row;
        assert(rows[k].user_id == user);
    }
    assert(answer.effects[0] is Call);
}

/// A member who has yet to verify themselves, makes no attempt and sends a
/// registration command begins one, as long as fewer attempts are under way than
/// the settings allow: they are told, their row is busy, and the attempt has the
/// key and the organization of the command.
pub proof fn law_attempt_begins(
    user: i64,
    text: Seq<char>,
    config: ConfigView,
    rows: Seq<PendingRow>,
    row: PendingRow,
    key: Seq<char>,
    org: Seq<char>,
)
    requires
        distinct(rows),
        !has_prefix(text, "/start"@),
        credentials_spec(text) == Some((key, org)),
        rows.contains(row),
        row.user_id == user,
        row.busy == 0,
        forall|i: int|
            0 <= i < rows.len() && (#[trigger] rows[i]).user_id == user && rows[i] != row
                ==> rows[i].deadline < row.deadline,
        rows.filter(|row: PendingRow| row.busy == 1).len() < config.max_verifications,
    ensures
        ({
            let answer = private_spec(user, text, config, rows);
            &&& answer.ask matches AskView::Spawn(job) && job.user == user && job.chat
                == row.chat_id && job.key == key && job.org == org && job.failures == row.failures
            &&& answer.effects.len() == 1
            &&& says_somewhere(answer.effects, user, "正在验证\nVerification in progress"@)
            &&& answer.rows.contains(PendingRow { busy: 1, ..row })
            &&& answer.rows.len() == rows.len()
        }),
{
    law_busy_rows_are_counted(rows);
    law_latest_row(rows, user);
    let at = choose|at: int| 0 <= at < rows.len() && rows[at] == row;
    assert(rows[at].user_id == user);
    let found = latest_row(rows, user)->0;
    let k = choose|k: int| 0 <= k < rows.len() && rows[k] == found;
    assert(rows[k].user_id == user);
    assert(found == row);
    assert(is_row(rows[at], user, row.chat_id));
    law_busy_is_set(rows, user, row.chat_id, 1, at);
    let answer = private_spec(user, text, config, rows);
    assert(answer.rows[at] == (PendingRow { busy: 1, ..row }));
    law_send(user, "正在验证\nVerification in progress"@);
    assert(answer.effects[0] is Call);
}

/// What a member who has yet to verify themselves sends, if it is neither `/start`
/// nor a registration command, is a failed attempt, and they are turned down.
pub proof fn law_wrong_answer_is_a_failure(
    user: i64,
    text: Seq<char>,
    config: ConfigView,
    rows: Seq<PendingRow>,
    row: PendingRow,
)
    requires
        latest_row(rows, user) == Some(row),
        row.failures < i64::MAX,
        !has_prefix(text, "/start"@),
        credentials_spec(text) is None,
    ensures
        ({
            let answer = private_spec(user, text, config, rows);
            &&& turns_down(answer.effects, user, row.chat_id, row.failures)
            &&& answer.rows == rows
            &&& answer.ask is Continue
        }),
{
    law_reject_turns_down(user, row.chat_id, row.failures);
}

/// A member with a registration command for whom there is no room, or who already
/// makes an attempt, is removed from the chat that they have joined, may join it
/// again, and is told so.
pub proof fn law_no_room(
    user: i64,
    text: Seq<char>,
    config: ConfigView,
    rows: Seq<PendingRow>,
    row: PendingRow,
)
    requires
        latest_row(rows, user) == Some(row),
        !has_prefix(text, "/start"@),
        credentials_spec(text) is Some,
        rows.filter(|row: PendingRow| row.busy == 1).len() >= config.max_verifications || row.busy
            == 1,
    ensures
        ({
            let answer = private_spec(user, text, config, rows);
            &&& answer.ask is Continue
            &&& answer.rows == rows
            &&& answer.effects.contains(
                EffectView::Store(StoreOp::Delete { user, chat: row.chat_id }),
            )
            &&& calls_on_member(answer.effects, "banChatMember"@, row.chat_id, user)
            &&& calls_on_member(answer.effects, "unbanChatMember"@, row.chat_id, user)
            &&& says_somewhere(
                answer.effects,
                user,
                "当前验证人数已满，请过段时间再进群\nVerification capacity is full. Please join the group again later."@,
            )
            &&& answer.effects.len() == 4
        }),
{
    law_busy_rows_are_counted(rows);
    law_member_calls(row.chat_id, user);
    law_send(
        user,
        "当前验证人数已满，请过段时间再进群\nVerification capacity is full. Please join the group again later."@,
    );
    let all = private_spec(user, text, config, rows).effects;
    assert(all[0] == EffectView::Store(StoreOp::Delete { user, chat: row.chat_id }));
    assert(all[1] is Call && all[2] is Call && all[3] is Call);
}

/// The bot asks for messages from its offset on. Those that come are gone through
/// from the first; where the call fails, the bot pauses and begins again; behind
/// the last of them a new cycle begins.
pub proof fn law_polling(
    b: BotView,
    reply: Option<JsonView>,
    config: ConfigView,
    rows: Seq<PendingRow>,
    listed: Map<i64, i64>,
    now: i64,
)
    ensures
        ({
            let step = step_spec(b, reply, config, rows, listed, now);
            &&& b.stage is Cycle ==> moved_to(b, step.bot, Stage::Polling) && (step.ask matches
                AskView::Query(r) && r.method == "getUpdates"@ && field_spec(r.body, "offset"@)
                == JsonView::Int(b.offset))
            &&& b.stage is Polling && reply is None ==> moved_to(b, step.bot, Stage::Cycle)
                && step.ask is Pause
            &&& b.stage is Polling && reply is Some ==> step.bot.stage is Updates && step.bot.next
                == 0 && step.bot.offset == b.offset && step.ask is Continue && step.bot.batch == (
            if reply->0 is Array {
                reply->0->Array_0
            } else {
                Seq::empty()
            })
            &&& b.stage is Updates && b.next >= b.batch.len() ==> moved_to(
                b,
                step.bot,
                Stage::Cycle,
            ) && step.ask is NextCycle
            &&& b.stage is Polling || (b.stage is Updates && b.next >= b.batch.len())
                ==> step.effects.len() == 0 && step.rows == rows
        }),
{
    law_get_updates(b.offset);
}

/// The tables are read at the beginning of a cycle and when a member is taken in;
/// only a private message may begin an attempt.
pub proof fn law_when_tables_are_used(b: BotView)
    ensures
        table_use_spec(b) is Claim <==> b.stage is Private && field_spec(
            field_spec(message_at(b), "chat"@),
            "type"@,
        ) == JsonView::Str("private"@),
        table_use_spec(b) is Read <==> b.stage is Cycle || b.stage is Rights,
{
}

/// Where the bot is no administrator, the next member is gone on to.
pub proof fn law_no_rights_next_member(
    b: BotView,
    reply: Option<JsonView>,
    config: ConfigView,
    rows: Seq<PendingRow>,
    listed: Map<i64, i64>,
    now: i64,
    i: usize,
)
    requires
        bot_wf(b),
        b.stage == Stage::Rights(i),
        i < usize::MAX,
        !tells_of_admin(reply),
    ensures
        ({
            let step = step_spec(b, reply, config, rows, listed, now);
            &&& moved_to(b, step.bot, Stage::Members((i + 1) as usize))
            &&& step.ask is Continue
            &&& step.effects.len() == 0 && step.rows == rows
        }),
{
}

/// The bot stops at a message behind whose number there is none, and at a wrong
/// answer of a member whose failures cannot be counted on; the latter is still
/// told.
pub proof fn law_uncountable(
    b: BotView,
    reply: Option<JsonView>,
    config: ConfigView,
    rows: Seq<PendingRow>,
    listed: Map<i64, i64>,
    now: i64,
    user: i64,
    text: Seq<char>,
    row: PendingRow,
)
    ensures
        b.stage is Updates && b.next < b.batch.len() && field_spec(
            b.batch[b.next as int],
            "update_id"@,
        ) == JsonView::Int(i64::MAX) ==> step_spec(b, reply, config, rows, listed, now).ask
            == AskView::Abort(Fault::OffsetOverflow),
        ({
            let answer = private_spec(user, text, config, rows);
            latest_row(rows, user) == Some(row) && row.failures == i64::MAX && !has_prefix(
                text,
                "/start"@,
            ) && credentials_spec(text) is None ==> answer.ask == AskView::Abort(
                Fault::FailuresOverflow,
            ) && answer.rows == rows && answer.effects.len() == 1 && says_somewhere(
                answer.effects,
                user,
                "验证失败\nVerification failed"@,
            )
        }),
{
    law_send(user, "验证失败\nVerification failed"@);
    let answer = private_spec(user, text, config, rows);
    if latest_row(rows, user) == Some(row) && row.failures == i64::MAX && !has_prefix(
        text,
        "/start"@,
    ) && credentials_spec(text) is None {
        assert(answer.effects[0] is Call);
    }
}

/// A time in the settings that is beyond what is counted as signed is counted from
/// the other end.
pub proof fn law_uncountable_time(now: i64, time: u64)
    requires
        time > i64::MAX,
    ensures
        deadline_spec(now as int, time) == now + time - 0x1_0000_0000_0000_0000,
{
}

/// Of a sender of whom nothing is expected, nothing but `/start` is answered.
pub proof fn law_nothing_expected(
    user: i64,
    text: Seq<char>,
    config: ConfigView,
    rows: Seq<PendingRow>,
)
    requires
        forall|k: int| 0 <= k < rows.len() ==> (#[trigger] rows[k]).user_id != user,
        !has_prefix(text, "/start"@),
    ensures
        private_spec(user, text, config, rows).effects.len() == 0,
        private_spec(user, text, config, rows).rows == rows,
        private_spec(user, text, config, rows).ask is Continue,
{
    law_latest_row(rows, user);
}

} // verus!
