//! The course of the bot: it waits for messages, takes in new members and
//! answers private messages.
//!
//! The bot advances in steps. A step takes the reply to the question that the
//! step before it asked, and says what is to be done and what to ask next. The
//! driver does these things, in order, before it takes the next step.

use vstd::prelude::*;
use crate::config::{Config, ConfigView};
use crate::credentials::{credentials_spec, verification_credentials};
use crate::effect::{
    effects_view, expire, expire_spec, no_effects, one_effect, push_effect, reject, reject_spec,
    Effect, EffectView,
};
use crate::json::{
    field_spec, int_or, int_spec, is_true, items_spec, items_view, text_or_empty, Json, JsonView,
};
use crate::number::{wrap_i64, wrapped};
use crate::pending::{
    can_claim, claim_slot, expired_rows, latest_row, with_busy, Pending, PendingRow, StoreOp,
};
use crate::telegram::{
    admin_spec, ban, ban_spec, get_member, get_member_spec, get_updates, get_updates_spec, is_admin,
    leave, leave_spec, restrict, restrict_spec, send, send_button, send_button_spec, send_spec,
    unban, unban_spec, Request, RequestView,
};
use crate::text::{has_prefix, starts_with};
use crate::welcome::{welcome_spec, welcome_text};
use crate::whitelist::{is_whitelisted, Whitelist};

verus! {

/// A state of affairs in which the bot cannot go on.
#[derive(Debug, Clone, Copy, PartialEq, Eq, Structural)]
pub enum Fault {
    /// A new member comes without a number.
    MemberWithoutId,
    /// There is no number after that of a message.
    OffsetOverflow,
    /// The end of the time for a verification lies beyond what can be counted.
    DeadlineOverflow,
    /// There is no number after that of a member's failures.
    FailuresOverflow,
}

/// How long the pause after a failed call for messages lasts, in seconds.
pub const PAUSE_SECONDS: u64 = 3;

/// An attempt at a verification that is to be made.
#[derive(Debug)]
pub struct Job {
    pub user: i64,
    pub chat: i64,
    pub key: String,
    pub org: String,
    /// How many attempts have failed before.
    pub failures: i64,
}

/// An attempt to reason about.
pub struct JobView {
    pub user: i64,
    pub chat: i64,
    pub key: Seq<char>,
    pub org: Seq<char>,
    pub failures: i64,
}

impl View for Job {
    type V = JobView;

    open spec fn view(&self) -> JobView {
        JobView {
            user: self.user,
            chat: self.chat,
            key: self.key@,
            org: self.org@,
            failures: self.failures,
        }
    }
}

/// What comes after the things that a step has to do.
#[derive(Debug)]
pub enum Ask {
    /// The next step, with no reply.
    Continue,
    /// The next step, with the reply to a call, or none if it fails.
    Query(Request),
    /// The next step, after a pause: the call for messages has failed.
    Pause,
    /// An attempt at a verification, to run on its own, and the next step.
    Spawn(Job),
    /// The next step; the settings may have changed.
    NextCycle,
    /// Nothing: the bot cannot go on.
    Abort(Fault),
}

/// What comes next, to reason about.
pub enum AskView {
    Continue,
    Query(RequestView),
    Pause,
    Spawn(JobView),
    NextCycle,
    Abort(Fault),
}

impl View for Ask {
    type V = AskView;

    open spec fn view(&self) -> AskView {
        match self {
            Ask::Continue => AskView::Continue,
            Ask::Query(request) => AskView::Query(request@),
            Ask::Pause => AskView::Pause,
            Ask::Spawn(job) => AskView::Spawn(job@),
            Ask::NextCycle => AskView::NextCycle,
            Ask::Abort(fault) => AskView::Abort(*fault),
        }
    }
}

/// The outcome of a step.
#[derive(Debug)]
pub struct Step {
    pub effects: Vec<Effect>,
    pub ask: Ask,
}

/// Where the bot stands.
#[derive(Debug, Clone, Copy, PartialEq, Eq, Structural)]
pub enum Stage {
    /// At the beginning of a cycle.
    Cycle,
    /// Waiting for messages.
    Polling,
    /// Before the next message.
    Updates,
    /// Waiting to learn whether who added the bot is an administrator.
    Inviter,
    /// Waiting to learn whether the bot, just added, is an administrator.
    BotRights,
    /// Before a new member.
    Members(usize),
    /// Waiting to learn whether the bot is an administrator, for a new member.
    Rights(usize),
    /// After the new members.
    Private,
}

/// The bot, to reason about.
pub struct BotView {
    /// The number of the bot.
    pub bot_id: i64,
    /// The name of the bot.
    pub username: Seq<char>,
    /// The number from which on messages are asked for.
    pub offset: i64,
    /// The messages that have come.
    pub batch: Seq<JsonView>,
    /// How many of them have been dealt with.
    pub next: nat,
    pub stage: Stage,
}

/// The outcome of a step, to reason about: the bot and the table after it, what
/// is to be done and what comes next.
pub struct StepView {
    pub bot: BotView,
    pub rows: Seq<PendingRow>,
    pub effects: Seq<EffectView>,
    pub ask: AskView,
}

/// What is said when the bot cannot be started: it needs a token.
pub fn start_error(config: &Config) -> (r: Option<String>)
    ensures
        match r {
            Some(text) => config@.token.len() == 0 && text@
                == "请先运行 rhc-bot config 设置 token"@,
            None => config@.token.len() > 0,
        },
{
    if config.token.as_str().unicode_len() == 0 {
        Some("请先运行 rhc-bot config 设置 token".to_owned())
    } else {
        None
    }
}

/// What is logged when the call for messages has failed.
pub fn poll_failure_line(error: &str) -> (r: String)
    ensures
        r@ == "poll: "@ + error@,
{
    let mut out = "poll: ".to_owned();
    out.append(error);
    out
}

/// The message that the bot is dealing with.
pub open spec fn message_of(b: BotView) -> JsonView {
    field_spec(b.batch[b.next as int], "message"@)
}

/// The chat of a message.
pub open spec fn chat_of(message: JsonView) -> i64 {
    int_or(field_spec(field_spec(message, "chat"@), "id"@), 0)
}

/// The sender of a message.
pub open spec fn sender_of(message: JsonView) -> i64 {
    int_or(field_spec(field_spec(message, "from"@), "id"@), 0)
}

/// The members who have joined the chat.
pub open spec fn new_members(message: JsonView) -> Seq<JsonView> {
    items_spec(field_spec(message, "new_chat_members"@))
}

/// Whether the bot is among the members who have joined.
pub open spec fn bot_added(message: JsonView, bot_id: i64) -> bool {
    exists|i: int|
        0 <= i < new_members(message).len() && int_spec(
            field_spec(#[trigger] new_members(message)[i], "id"@),
        ) == Some(bot_id)
}

/// Whether a message has been sent to the bot alone.
pub open spec fn is_private(message: JsonView) -> bool {
    field_spec(field_spec(message, "chat"@), "type"@) == JsonView::Str("private"@)
}

/// Whether a reply on a chat member tells of an administrator.
pub open spec fn reply_is_admin(reply: Option<JsonView>) -> bool {
    reply matches Some(member) && admin_spec(member)
}

/// When the time for a verification that begins now is over. The length is read
/// as an `i64`.
pub open spec fn deadline_spec(now: int, timeout_seconds: u64) -> int {
    now + wrapped(timeout_seconds as int)
}

/// The bot with the next message before it.
pub open spec fn next_update(b: BotView) -> BotView {
    BotView { next: b.next + 1, stage: Stage::Updates, ..b }
}

/// What the bot does with a new member of a chat in which it is an administrator.
/// One who is let in without verification is greeted. Any other is entered as
/// having yet to verify themselves, is kept from sending messages, and is shown
/// the way to the verification. A member without a number, or a deadline that
/// cannot be counted, is a fault.
pub open spec fn take_in_spec(
    member: JsonView,
    chat: i64,
    config: ConfigView,
    username: Seq<char>,
    listed: Map<i64, i64>,
    now: int,
) -> Result<Seq<EffectView>, Fault> {
    let greeting = welcome_spec(config.welcome, member);
    let deadline = deadline_spec(now, config.timeout_seconds);
    match int_spec(field_spec(member, "id"@)) {
        None => Err(Fault::MemberWithoutId),
        Some(user) => if listed.dom().contains(user) {
            Ok(seq![EffectView::Require(send_spec(chat, greeting))])
        } else if !(i64::MIN <= deadline <= i64::MAX) {
            Err(Fault::DeadlineOverflow)
        } else {
            Ok(
                seq![
                    EffectView::Store(
                        StoreOp::Insert(
                            PendingRow {
                                user_id: user,
                                chat_id: chat,
                                deadline: deadline as i64,
                                failures: 0,
                                busy: 0,
                            },
                        ),
                    ),
                    EffectView::Require(restrict_spec(chat, user, deadline as i64)),
                    EffectView::Require(
                        send_button_spec(chat, greeting, config.button, username),
                    ),
                ],
            )
        },
    }
}

/// What the bot does when no more attempts can be under way, or one of the member
/// is: the member is removed from the chat, may join again, and is told so.
pub open spec fn full_spec(user: i64, chat: i64) -> Seq<EffectView> {
    seq![
        EffectView::Store(StoreOp::Delete { user, chat }),
        EffectView::Call(ban_spec(chat, user)),
        EffectView::Call(unban_spec(chat, user)),
        EffectView::Call(
            send_spec(
                user,
                "当前验证人数已满，请过段时间再进群\nVerification capacity is full. Please join the group again later."@,
            ),
        ),
    ]
}

/// The outcome of a private message: the table after it, what is to be done and
/// what comes next.
pub struct AnswerView {
    pub rows: Seq<PendingRow>,
    pub effects: Seq<EffectView>,
    pub ask: AskView,
}

/// The answer to a private message. `/start` is answered with the prompt, or with
/// the word that nothing is expected of the sender. Nothing else of a sender of
/// whom nothing is expected is answered. What is no registration command is a
/// failed attempt. A registration command begins an attempt, if one may begin.
pub open spec fn private_spec(
    user: i64,
    text: Seq<char>,
    config: ConfigView,
    rows: Seq<PendingRow>,
) -> AnswerView {
    let row = latest_row(rows, user);
    if has_prefix(text, "/start"@) {
        let answer = if row is Some {
            config.prompt
        } else {
            "没有待验证请求\nNo pending verification request"@
        };
        AnswerView {
            rows,
            effects: seq![EffectView::Call(send_spec(user, answer))],
            ask: AskView::Continue,
        }
    } else {
        match row {
            None => AnswerView { rows, effects: Seq::empty(), ask: AskView::Continue },
            Some(row) => match credentials_spec(text) {
                None => if row.failures == i64::MAX {
                    AnswerView {
                        rows,
                        effects: seq![
                            EffectView::Call(
                                send_spec(user, "验证失败\nVerification failed"@),
                            ),
                        ],
                        ask: AskView::Abort(Fault::FailuresOverflow),
                    }
                } else {
                    AnswerView {
                        rows,
                        effects: reject_spec(user, row.chat_id, row.failures),
                        ask: AskView::Continue,
                    }
                },
                Some((key, org)) => if row.busy != 1 && can_claim(
                    rows,
                    user,
                    row.chat_id,
                    config.max_verifications as int,
                ) {
                    AnswerView {
                        rows: with_busy(rows, user, row.chat_id, 1),
                        effects: seq![
                            EffectView::Call(
                                send_spec(user, "正在验证\nVerification in progress"@),
                            ),
                        ],
                        ask: AskView::Spawn(
                            JobView {
                                user,
                                chat: row.chat_id,
                                key,
                                org,
                                failures: row.failures,
                            },
                        ),
                    }
                } else {
                    AnswerView {
                        rows,
                        effects: full_spec(user, row.chat_id),
                        ask: AskView::Continue,
                    }
                },
            },
        }
    }
}

/// Takes up the next message. If the bot has been added to a chat, it asks about
/// who added it.
pub open spec fn take_up_spec(b: BotView, rows: Seq<PendingRow>) -> StepView {
    let message = message_of(b);
    let id = int_or(field_spec(b.batch[b.next as int], "update_id"@), 0);
    if id == i64::MAX {
        StepView {
            bot: b,
            rows,
            effects: Seq::empty(),
            ask: AskView::Abort(Fault::OffsetOverflow),
        }
    } else if bot_added(message, b.bot_id) {
        StepView {
            bot: BotView { offset: (id + 1) as i64, stage: Stage::Inviter, ..b },
            rows,
            effects: Seq::empty(),
            ask: AskView::Query(get_member_spec(chat_of(message), sender_of(message))),
        }
    } else {
        StepView {
            bot: BotView { offset: (id + 1) as i64, stage: Stage::Members(0), ..b },
            rows,
            effects: Seq::empty(),
            ask: AskView::Continue,
        }
    }
}

/// A step of the bot.
pub open spec fn step_spec(
    b: BotView,
    reply: Option<JsonView>,
    config: ConfigView,
    rows: Seq<PendingRow>,
    listed: Map<i64, i64>,
    now: i64,
) -> StepView {
    let message = message_of(b);
    let chat = chat_of(message);
    match b.stage {
        // The time of some members may be over. Then messages are asked for.
        Stage::Cycle => StepView {
            bot: BotView { stage: Stage::Polling, ..b },
            rows,
            effects: expire_spec(expired_rows(rows, now as int)),
            ask: AskView::Query(get_updates_spec(b.offset)),
        },
        Stage::Polling => match reply {
            None => StepView {
                bot: BotView { stage: Stage::Cycle, ..b },
                rows,
                effects: Seq::empty(),
                ask: AskView::Pause,
            },
            Some(updates) => StepView {
                bot: BotView { batch: items_spec(updates), next: 0, stage: Stage::Updates, ..b },
                rows,
                effects: Seq::empty(),
                ask: AskView::Continue,
            },
        },
        Stage::Updates => if b.next >= b.batch.len() {
            StepView {
                bot: BotView { stage: Stage::Cycle, ..b },
                rows,
                effects: Seq::empty(),
                ask: AskView::NextCycle,
            }
        } else {
            take_up_spec(b, rows)
        },
        // Only an administrator may add the bot.
        Stage::Inviter => if reply_is_admin(reply) {
            StepView {
                bot: BotView { stage: Stage::BotRights, ..b },
                rows,
                effects: Seq::empty(),
                ask: AskView::Query(get_member_spec(chat, b.bot_id)),
            }
        } else {
            StepView {
                bot: next_update(b),
                rows,
                effects: seq![
                    EffectView::Call(send_spec(chat, "只有群管理员可以添加本 Bot。"@)),
                    EffectView::Call(leave_spec(chat)),
                ],
                ask: AskView::Continue,
            }
        },
        // The bot has to be an administrator itself.
        Stage::BotRights => if reply_is_admin(reply) {
            StepView {
                bot: BotView { stage: Stage::Members(0), ..b },
                rows,
                effects: seq![
                    EffectView::Call(send_spec(chat, "管理员身份与 Bot 管理权限验证成功。"@)),
                ],
                ask: AskView::Continue,
            }
        } else {
            StepView {
                bot: next_update(b),
                rows,
                effects: seq![
                    EffectView::Call(
                        send_spec(
                            chat,
                            "已验证添加者为群管理员。请将本 Bot 设置为管理员，并授予封禁用户和限制成员权限；设置完成后 Bot 才会处理新人验证。"@,
                        ),
                    ),
                ],
                ask: AskView::Continue,
            }
        },
        // Other bots are passed over.
        Stage::Members(i) => if i >= new_members(message).len() {
            StepView {
                bot: BotView { stage: Stage::Private, ..b },
                rows,
                effects: Seq::empty(),
                ask: AskView::Continue,
            }
        } else if is_true(field_spec(new_members(message)[i as int], "is_bot"@)) {
            StepView {
                bot: BotView { stage: Stage::Members((i + 1) as usize), ..b },
                rows,
                effects: Seq::empty(),
                ask: AskView::Continue,
            }
        } else {
            StepView {
                bot: BotView { stage: Stage::Rights(i), ..b },
                rows,
                effects: Seq::empty(),
                ask: AskView::Query(get_member_spec(chat, b.bot_id)),
            }
        },
        // Where the bot is no administrator, nothing is done.
        Stage::Rights(i) => if !reply_is_admin(reply) {
            StepView {
                bot: BotView { stage: Stage::Members((i + 1) as usize), ..b },
                rows,
                effects: Seq::empty(),
                ask: AskView::Continue,
            }
        } else {
            match take_in_spec(
                new_members(message)[i as int],
                chat,
                config,
                b.username,
                listed,
                now as int,
            ) {
                Err(fault) => StepView {
                    bot: b,
                    rows,
                    effects: Seq::empty(),
                    ask: AskView::Abort(fault),
                },
                Ok(effects) => StepView {
                    bot: BotView { stage: Stage::Members((i + 1) as usize), ..b },
                    rows,
                    effects,
                    ask: AskView::Continue,
                },
            }
        },
        Stage::Private => if !is_private(message) {
            StepView {
                bot: next_update(b),
                rows,
                effects: Seq::empty(),
                ask: AskView::Continue,
            }
        } else {
            let answer = private_spec(
                sender_of(message),
                text_or_empty(field_spec(message, "text"@)),
                config,
                rows,
            );
            StepView {
                bot: if answer.ask is Abort {
                    b
                } else {
                    next_update(b)
                },
                rows: answer.rows,
                effects: answer.effects,
                ask: answer.ask,
            }
        },
    }
}

/// What a step does with the tables.
#[derive(Debug, Clone, Copy, PartialEq, Eq, Structural)]
pub enum TableUse {
    /// Nothing: any tables will do.
    Nothing,
    /// It reads them.
    Read,
    /// It looks a sender up among those who have yet to verify themselves, and may
    /// begin an attempt of theirs. If the table cannot be read, it counts as
    /// empty.
    Claim,
}

/// What the next step does with the tables.
pub open spec fn table_use_spec(b: BotView) -> TableUse {
    match b.stage {
        Stage::Cycle | Stage::Rights(_) => TableUse::Read,
        Stage::Private => if is_private(message_of(b)) {
            TableUse::Claim
        } else {
            TableUse::Nothing
        },
        _ => TableUse::Nothing,
    }
}

/// Whether the bot is among the members who have joined.
fn was_added(message: &Json, bot_id: i64) -> (r: bool)
    ensures
        r == bot_added(message@, bot_id),
{
    let members = message.field("new_chat_members");
    let n: usize = members.item_count();
    let mut i: usize = 0;
    while i < n
        invariant
            i <= n,
            members@ == field_spec(message@, "new_chat_members"@),
            n == items_spec(members@).len(),
            forall|k: int|
                0 <= k < i ==> int_spec(field_spec(#[trigger] new_members(message@)[k], "id"@))
                    != Some(bot_id),
        decreases n - i,
    {
        match members.item(i).field("id").as_i64() {
            Some(id) => {
                if id == bot_id {
                    assert(int_spec(field_spec(new_members(message@)[i as int], "id"@)) == Some(
                        bot_id,
                    ));
                    return true;
                }
            },
            None => {},
        }
        i += 1;
    }
    false
}

/// What the bot does with a new member of a chat in which it is an administrator.
pub fn take_in(
    member: &Json,
    chat: i64,
    config: &Config,
    username: &str,
    whitelist: &Whitelist,
    now: i64,
) -> (r: Result<Vec<Effect>, Fault>)
    requires
        whitelist.wf(),
    ensures
        match (r, take_in_spec(member@, chat, config@, username@, whitelist@, now as int)) {
            (Ok(effects), Ok(want)) => effects_view(effects@) == want,
            (Err(fault), Err(want)) => fault == want,
            _ => false,
        },
{
    let user = match member.field("id").as_i64() {
        Some(user) => user,
        None => {
            return Err(Fault::MemberWithoutId);
        },
    };
    let greeting = welcome_text(config.welcome.as_str(), member);
    let ghost want = take_in_spec(member@, chat, config@, username@, whitelist@, now as int);
    if is_whitelisted(whitelist, user) {
        return Ok(one_effect(Effect::Require(send(chat, greeting.as_str()))));
    }
    let end: i128 = now as i128 + wrap_i64(config.timeout_seconds) as i128;
    if end < i64::MIN as i128 || end > i64::MAX as i128 {
        return Err(Fault::DeadlineOverflow);
    }
    let deadline: i64 = end as i64;
    let row = PendingRow { user_id: user, chat_id: chat, deadline, failures: 0, busy: 0 };
    let mut out = one_effect(Effect::Store(StoreOp::Insert(row)));
    push_effect(&mut out, Effect::Require(restrict(chat, user, deadline)));
    push_effect(
        &mut out,
        Effect::Require(send_button(chat, greeting.as_str(), config.button.as_str(), username)),
    );
    assert(effects_view(out@) =~= want->Ok_0);
    Ok(out)
}

/// The answer to a private message.
pub fn answer_private(user: i64, text: &str, config: &Config, pending: &mut Pending) -> (r: Step)
    requires
        old(pending).wf(),
    ensures
        final(pending).wf(),
        ({
            let want = private_spec(user, text@, config@, old(pending)@);
            &&& final(pending)@ == want.rows
            &&& effects_view(r.effects@) == want.effects
            &&& r.ask@ == want.ask
        }),
{
    let row = pending.latest(user);
    if starts_with(text, "/start") {
        let answer: &str = match row {
            Some(_) => config.prompt.as_str(),
            None => "没有待验证请求\nNo pending verification request",
        };
        return Step { effects: one_effect(Effect::Call(send(user, answer))), ask: Ask::Continue };
    }
    let row = match row {
        Some(row) => row,
        None => {
            return Step { effects: no_effects(), ask: Ask::Continue };
        },
    };
    let chat = row.chat_id;
    let (key, org) = match verification_credentials(text) {
        Some(both) => both,
        None => {
            if row.failures == i64::MAX {
                return Step {
                    effects: one_effect(
                        Effect::Call(send(user, "验证失败\nVerification failed")),
                    ),
                    ask: Ask::Abort(Fault::FailuresOverflow),
                };
            }
            return Step { effects: reject(user, chat, row.failures), ask: Ask::Continue };
        },
    };
    if row.busy == 1 || !claim_slot(pending, user, chat, config.max_verifications) {
        let mut out = one_effect(Effect::Store(StoreOp::Delete { user, chat }));
        push_effect(&mut out, Effect::Call(ban(chat, user)));
        push_effect(&mut out, Effect::Call(unban(chat, user)));
        push_effect(
            &mut out,
            Effect::Call(
                send(
                    user,
                    "当前验证人数已满，请过段时间再进群\nVerification capacity is full. Please join the group again later.",
                ),
            ),
        );
        assert(effects_view(out@) =~= full_spec(user, chat));
        return Step { effects: out, ask: Ask::Continue };
    }
    Step {
        effects: one_effect(Effect::Call(send(user, "正在验证\nVerification in progress"))),
        ask: Ask::Spawn(Job { user, chat, key, org, failures: row.failures }),
    }
}

/// The bot.
#[derive(Debug)]
pub struct Bot {
    bot_id: i64,
    username: String,
    offset: i64,
    batch: Vec<Json>,
    next: usize,
    stage: Stage,
}

impl View for Bot {
    type V = BotView;

    closed spec fn view(&self) -> BotView {
        BotView {
            bot_id: self.bot_id,
            username: self.username@,
            offset: self.offset,
            batch: items_view(self.batch@),
            next: self.next as nat,
            stage: self.stage,
        }
    }
}

/// A bot that deals with a message has one before it, and a member it waits for
/// is one of the new members.
pub open spec fn bot_wf(b: BotView) -> bool {
    match b.stage {
        Stage::Cycle | Stage::Polling | Stage::Updates => true,
        Stage::Rights(i) => b.next < b.batch.len() && i < new_members(message_of(b)).len(),
        _ => b.next < b.batch.len(),
    }
}

impl Bot {
    /// A bot of that number and name, which has seen no messages.
    pub fn new(bot_id: i64, username: String) -> (r: Bot)
        ensures
            bot_wf(r@),
            r@ == (BotView {
                bot_id,
                username: username@,
                offset: 0,
                batch: Seq::empty(),
                next: 0,
                stage: Stage::Cycle,
            }),
    {
        let r = Bot { bot_id, username, offset: 0, batch: Vec::new(), next: 0, stage: Stage::Cycle };
        assert(items_view(r.batch@) =~= Seq::<JsonView>::empty());
        r
    }

    /// What the next step does with the tables.
    pub fn table_use(&self) -> (r: TableUse)
        requires
            bot_wf(self@),
        ensures
            r == table_use_spec(self@),
    {
        match self.stage {
            Stage::Cycle | Stage::Rights(_) => TableUse::Read,
            Stage::Private => {
                let message = self.batch[self.next].field("message");
                if message.field("chat").field("type").is_text("private") {
                    TableUse::Claim
                } else {
                    TableUse::Nothing
                }
            },
            _ => TableUse::Nothing,
        }
    }

    /// Goes to another stage.
    fn skip_to(&mut self, stage: Stage)
        ensures
            final(self)@ == (BotView { stage, ..old(self)@ }),
    {
        self.stage = stage;
    }

    /// Goes to the next message.
    fn finish_update(&mut self)
        requires
            old(self)@.next < old(self)@.batch.len(),
        ensures
            final(self)@ == next_update(old(self)@),
    {
        assert(self.next < self.batch.len());
        self.next += 1;
        self.stage = Stage::Updates;
    }

    /// Takes up the next message.
    fn take_up(&mut self) -> (r: Step)
        requires
            old(self)@.next < old(self)@.batch.len(),
            old(self)@.stage == Stage::Updates,
        ensures
            bot_wf(final(self)@),
            forall|rows: Seq<PendingRow>|
                {
                    let want = #[trigger] take_up_spec(old(self)@, rows);
                    &&& final(self)@ == want.bot
                    &&& rows == want.rows
                    &&& effects_view(r.effects@) == want.effects
                    &&& r.ask@ == want.ask
                },
    {
        let update = &self.batch[self.next];
        let id = update.field("update_id").i64_or(0);
        if id == i64::MAX {
            return Step { effects: no_effects(), ask: Ask::Abort(Fault::OffsetOverflow) };
        }
        let message = update.field("message");
        if was_added(message, self.bot_id) {
            let chat = message.field("chat").field("id").i64_or(0);
            let inviter = message.field("from").field("id").i64_or(0);
            self.offset = id + 1;
            self.stage = Stage::Inviter;
            Step { effects: no_effects(), ask: Ask::Query(get_member(chat, inviter)) }
        } else {
            self.offset = id + 1;
            self.stage = Stage::Members(0);
            Step { effects: no_effects(), ask: Ask::Continue }
        }
    }

    /// Takes a step. `reply` is the reply to the call that the step before it
    /// asked for, if it did and the call succeeded.
    pub fn step(
        &mut self,
        reply: Option<Json>,
        config: &Config,
        pending: &mut Pending,
        whitelist: &Whitelist,
        now: i64,
    ) -> (r: Step)
        requires
            bot_wf(old(self)@),
            old(pending).wf(),
            whitelist.wf(),
        ensures
            bot_wf(final(self)@),
            final(pending).wf(),
            ({
                let want = step_spec(
                    old(self)@,
                    match reply {
                        Some(v) => Some(v@),
                        None => None,
                    },
                    config@,
                    old(pending)@,
                    whitelist@,
                    now,
                );
                &&& final(self)@ == want.bot
                &&& final(pending)@ == want.rows
                &&& effects_view(r.effects@) == want.effects
                &&& r.ask@ == want.ask
            }),
    {
        match self.stage {
            Stage::Cycle => {
                let effects = expire(&pending.expired(now));
                self.skip_to(Stage::Polling);
                Step { effects, ask: Ask::Query(get_updates(self.offset)) }
            },
            Stage::Polling => match reply {
                None => {
                    self.skip_to(Stage::Cycle);
                    Step { effects: no_effects(), ask: Ask::Pause }
                },
                Some(updates) => {
                    self.batch = updates.into_items();
                    self.next = 0;
                    self.stage = Stage::Updates;
                    Step { effects: no_effects(), ask: Ask::Continue }
                },
            },
            Stage::Updates => {
                if self.next >= self.batch.len() {
                    self.skip_to(Stage::Cycle);
                    return Step { effects: no_effects(), ask: Ask::NextCycle };
                }
                let step = self.take_up();
                proof {
                    let want = take_up_spec(old(self)@, old(pending)@);
                    assert(pending@ == want.rows);
                }
                step
            },
            Stage::Inviter => {
                let chat = self.batch[self.next].field("message").field("chat").field("id").i64_or(
                    0,
                );
                let admin = match &reply {
                    Some(member) => is_admin(member),
                    None => false,
                };
                if admin {
                    self.skip_to(Stage::BotRights);
                    return Step {
                        effects: no_effects(),
                        ask: Ask::Query(get_member(chat, self.bot_id)),
                    };
                }
                let mut out = one_effect(
                    Effect::Call(send(chat, "只有群管理员可以添加本 Bot。")),
                );
                push_effect(&mut out, Effect::Call(leave(chat)));
                self.finish_update();
                assert(effects_view(out@) =~= seq![
                    EffectView::Call(send_spec(chat, "只有群管理员可以添加本 Bot。"@)),
                    EffectView::Call(leave_spec(chat)),
                ]);
                Step { effects: out, ask: Ask::Continue }
            },
            Stage::BotRights => {
                let chat = self.batch[self.next].field("message").field("chat").field("id").i64_or(
                    0,
                );
                let admin = match &reply {
                    Some(member) => is_admin(member),
                    None => false,
                };
                if admin {
                    self.skip_to(Stage::Members(0));
                    return Step {
                        effects: one_effect(
                            Effect::Call(send(chat, "管理员身份与 Bot 管理权限验证成功。")),
                        ),
                        ask: Ask::Continue,
                    };
                }
                self.finish_update();
                Step {
                    effects: one_effect(
                        Effect::Call(
                            send(
                                chat,
                                "已验证添加者为群管理员。请将本 Bot 设置为管理员，并授予封禁用户和限制成员权限；设置完成后 Bot 才会处理新人验证。",
                            ),
                        ),
                    ),
                    ask: Ask::Continue,
                }
            },
            Stage::Members(i) => {
                let message = self.batch[self.next].field("message");
                let members = message.field("new_chat_members");
                if i >= members.item_count() {
                    self.skip_to(Stage::Private);
                    return Step { effects: no_effects(), ask: Ask::Continue };
                }
                if members.item(i).field("is_bot").is_true() {
                    self.skip_to(Stage::Members(i + 1));
                    return Step { effects: no_effects(), ask: Ask::Continue };
                }
                let chat = message.field("chat").field("id").i64_or(0);
                self.skip_to(Stage::Rights(i));
                Step { effects: no_effects(), ask: Ask::Query(get_member(chat, self.bot_id)) }
            },
            Stage::Rights(i) => {
                let message = self.batch[self.next].field("message");
                let members = message.field("new_chat_members");
                // There are no more members than a `usize` counts.
                let _ = members.item_count();
                let admin = match &reply {
                    Some(member) => is_admin(member),
                    None => false,
                };
                if !admin {
                    self.skip_to(Stage::Members(i + 1));
                    return Step { effects: no_effects(), ask: Ask::Continue };
                }
                let chat = message.field("chat").field("id").i64_or(0);
                match take_in(
                    members.item(i),
                    chat,
                    config,
                    self.username.as_str(),
                    whitelist,
                    now,
                ) {
                    Ok(effects) => {
                        self.skip_to(Stage::Members(i + 1));
                        Step { effects, ask: Ask::Continue }
                    },
                    Err(fault) => Step { effects: no_effects(), ask: Ask::Abort(fault) },
                }
            },
            Stage::Private => {
                let message = self.batch[self.next].field("message");
                if !message.field("chat").field("type").is_text("private") {
                    self.finish_update();
                    return Step { effects: no_effects(), ask: Ask::Continue };
                }
                let user = message.field("from").field("id").i64_or(0);
                let step = answer_private(
                    user,
                    message.field("text").str_or_empty(),
                    config,
                    pending,
                );
                match step.ask {
                    Ask::Abort(_) => {},
                    _ => {
                        self.finish_update();
                    },
                }
                step
            },
        }
    }
}

} // verus!
