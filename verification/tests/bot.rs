use rhc_bot::bot::{
    answer_private, poll_failure_line, start_error, take_in, Ask, Bot, Fault, Step, TableUse,
    PAUSE_SECONDS,
};
use rhc_bot::config::Config;
use rhc_bot::effect::Effect;
use rhc_bot::json::Json;
use rhc_bot::pending::{Pending, PendingRow, StoreOp};
use rhc_bot::telegram::{
    api_error, api_failure, api_result, api_url, bot_identity, get_me, is_admin, IdentityError, Request,
};
use rhc_bot::whitelist::{whitelist_add, Whitelist};

const BOT: i64 = 900;
const CHAT: i64 = -100;
const COMMAND: &str = "rhc connect --activation-key=abcdefghij0123456789 --organization=42";

struct World {
    bot: Bot,
    config: Config,
    pending: Pending,
    whitelist: Whitelist,
}

fn world() -> World {
    World {
        bot: Bot::new(BOT, "my_bot".to_owned()),
        config: Config { token: "t".to_owned(), welcome: "Hi {fullname}".to_owned(), ..Config::default() },
        pending: Pending::new(),
        whitelist: Whitelist::new(),
    }
}

impl World {
    fn step(&mut self, reply: Option<Json>, now: i64) -> Step {
        let step =
            self.bot.step(reply, &self.config, &mut self.pending, &self.whitelist, now);
        for effect in &step.effects {
            if let Effect::Store(op) = effect {
                self.pending.apply(*op);
            }
        }
        step
    }

    /// Goes as far as the first message of a batch.
    fn receive(&mut self, updates: Vec<Json>, now: i64) -> Step {
        self.step(None, now);
        assert!(matches!(self.step(Some(Json::array(updates)), now).ask, Ask::Continue));
        self.step(None, now)
    }
}

fn update(id: i64, message: Json) -> Json {
    Json::object().with("update_id", Json::Int(id)).with("message", message)
}

fn person(id: i64) -> Json {
    Json::object().with("id", Json::Int(id)).with("first_name", Json::text("Ann"))
}

fn joined(members: Vec<Json>) -> Json {
    Json::object()
        .with("chat", Json::object().with("id", Json::Int(CHAT)).with("type", Json::text("group")))
        .with("from", person(1))
        .with("new_chat_members", Json::array(members))
}

fn private(user: i64, text: &str) -> Json {
    Json::object()
        .with("chat", Json::object().with("id", Json::Int(user)).with("type", Json::text("private")))
        .with("from", person(user))
        .with("text", Json::text(text))
}

fn status(text: &str) -> Option<Json> {
    Some(Json::object().with("status", Json::text(text)))
}

fn query(step: &Step) -> (String, i64, i64) {
    match &step.ask {
        Ask::Query(r) => (
            r.method.clone(),
            r.body.field("chat_id").i64_or(0),
            r.body.field("user_id").i64_or(0),
        ),
        other => panic!("{other:?}"),
    }
}

fn request(effect: &Effect) -> &Request {
    match effect {
        Effect::Call(r) | Effect::Require(r) => r,
        other => panic!("{other:?}"),
    }
}

fn said(effect: &Effect) -> (i64, String) {
    let r = request(effect);
    assert_eq!(r.method, "sendMessage");
    (r.body.field("chat_id").i64_or(0), r.body.field("text").str_or_empty().to_owned())
}

fn row(user_id: i64, deadline: i64) -> PendingRow {
    PendingRow { user_id, chat_id: CHAT, deadline, failures: 0, busy: 0 }
}

#[test]
fn replies_are_read() {
    let ok = Json::object().with("ok", Json::Bool(true)).with("result", Json::Int(5));
    assert_eq!(api_result(ok).unwrap().as_i64(), Some(5));
    let bad = Json::object()
        .with("ok", Json::Bool(false))
        .with("description", Json::text("Not Found"));
    assert!(api_result(bad).unwrap_err().is_text("Not Found"));
    assert!(matches!(api_result(Json::object().with("ok", Json::text("true"))), Err(Json::Null)));
    assert!(is_admin(&status("administrator").unwrap()));
    assert!(is_admin(&status("creator").unwrap()));
    assert!(!is_admin(&status("member").unwrap()));
    assert!(!is_admin(&Json::Null));
    assert_eq!(api_url("1:x", "getMe"), "https://api.telegram.org/bot1:x/getMe");
    assert_eq!(api_error("x"), "Telegram: x");
    assert_eq!(api_failure(&Json::text("Not \"Found\"")), r#"Telegram: "Not \"Found\"""#);
    assert_eq!(api_failure(&Json::Null), "Telegram: null");
    assert_eq!(get_me().method, "getMe");
    assert_eq!(format!("{:?}", get_me().body), format!("{:?}", Json::object()));
}

#[test]
fn the_bot_learns_who_it_is() {
    let me = Json::object().with("id", Json::Int(BOT)).with("username", Json::text("my_bot"));
    assert_eq!(bot_identity(&me), Ok((BOT, "my_bot".to_owned())));
    assert_eq!(bot_identity(&Json::object()), Err(IdentityError::NoId));
    let nameless = Json::object().with("id", Json::Int(1));
    assert_eq!(bot_identity(&nameless), Err(IdentityError::NoUsername));
    assert_eq!(IdentityError::NoId.message(), "Bot 无 id");
    assert_eq!(IdentityError::NoUsername.message(), "Bot 无 username");
}

#[test]
fn a_token_is_needed() {
    assert_eq!(start_error(&Config::default()).unwrap(), "请先运行 rhc-bot config 设置 token");
    assert_eq!(start_error(&world().config), None);
    assert_eq!(poll_failure_line("timed out"), "poll: timed out");
}

#[test]
fn a_cycle_begins_with_the_late() {
    let mut w = world();
    w.pending = Pending::from_rows(&vec![row(5, 99), row(6, 100)]);
    let step = w.step(None, 100);
    assert_eq!(step.effects.len(), 2);
    assert_eq!(request(&step.effects[1]).method, "banChatMember");
    assert_eq!(w.pending.rows(), &vec![row(6, 100)]);
    match step.ask {
        Ask::Query(r) => {
            assert_eq!(r.method, "getUpdates");
            assert_eq!(r.body.field("offset").as_i64(), Some(0));
            assert_eq!(r.body.field("timeout").as_i64(), Some(10));
            assert!(r.body.field("allowed_updates").item(0).is_text("message"));
        }
        other => panic!("{other:?}"),
    }
}

#[test]
fn a_failed_poll_is_a_pause() {
    let mut w = world();
    w.step(None, 0);
    let step = w.step(None, 0);
    assert!(step.effects.is_empty());
    assert!(matches!(step.ask, Ask::Pause));
    assert_eq!(PAUSE_SECONDS, 3);
    assert!(matches!(w.step(None, 0).ask, Ask::Query(_)));
}

#[test]
fn messages_are_acknowledged() {
    let mut w = world();
    let silent = || Json::object().with("chat", Json::object());
    w.receive(vec![update(7, silent()), update(9, silent())], 0);
    let mut steps = 0;
    while !matches!(w.step(None, 0).ask, Ask::NextCycle) {
        steps += 1;
        assert!(steps < 20);
    }
    match w.step(None, 0).ask {
        Ask::Query(r) => assert_eq!(r.body.field("offset").as_i64(), Some(10)),
        other => panic!("{other:?}"),
    }
}

#[test]
fn only_an_administrator_adds_the_bot() {
    let mut w = world();
    let step = w.receive(vec![update(1, joined(vec![person(BOT)]))], 0);
    assert_eq!(query(&step), ("getChatMember".to_owned(), CHAT, 1));
    let step = w.step(status("member"), 0);
    assert_eq!(said(&step.effects[0]), (CHAT, "只有群管理员可以添加本 Bot。".to_owned()));
    assert_eq!(request(&step.effects[1]).method, "leaveChat");
    assert!(matches!(w.step(None, 0).ask, Ask::NextCycle));
}

#[test]
fn the_bot_has_to_be_an_administrator() {
    let mut w = world();
    w.receive(vec![update(1, joined(vec![person(BOT)]))], 0);
    let step = w.step(status("creator"), 0);
    assert_eq!(query(&step), ("getChatMember".to_owned(), CHAT, BOT));
    let step = w.step(None, 0);
    assert_eq!(said(&step.effects[0]), (CHAT, "已验证添加者为群管理员。请将本 Bot 设置为管理员，并授予封禁用户和限制成员权限；设置完成后 Bot 才会处理新人验证。".to_owned()));
    assert!(matches!(w.step(None, 0).ask, Ask::NextCycle));
}

#[test]
fn the_bot_is_welcomed_with_its_rights() {
    let mut w = world();
    let bot = person(BOT).with("is_bot", Json::Bool(true));
    w.receive(vec![update(1, joined(vec![bot, person(5)]))], 0);
    w.step(status("creator"), 0);
    let step = w.step(status("administrator"), 0);
    assert_eq!(said(&step.effects[0]), (CHAT, "管理员身份与 Bot 管理权限验证成功。".to_owned()));
    assert!(matches!(w.step(None, 0).ask, Ask::Continue));
    assert_eq!(query(&w.step(None, 0)), ("getChatMember".to_owned(), CHAT, BOT));
}

#[test]
fn a_new_member_has_to_verify() {
    let mut w = world();
    w.receive(vec![update(1, joined(vec![person(5)]))], 1_000);
    w.step(None, 1_000);
    let step = w.step(status("administrator"), 1_000);
    assert_eq!(step.effects.len(), 3);
    assert_eq!(w.pending.rows(), &vec![row(5, 1_600)]);
    let restrict = request(&step.effects[1]);
    assert_eq!(restrict.method, "restrictChatMember");
    assert_eq!(restrict.body.field("until_date").as_i64(), Some(1_600));
    assert!(matches!(
        restrict.body.field("permissions").field("can_send_messages"),
        Json::Bool(false)
    ));
    assert!(matches!(step.effects[1], Effect::Require(_)));
    assert_eq!(said(&step.effects[2]), (CHAT, "Hi Ann".to_owned()));
    let markup = request(&step.effects[2]).body.field("reply_markup");
    let button = markup.field("inline_keyboard").item(0).item(0);
    assert!(button.field("text").is_text("开始验证"));
    assert!(button.field("url").is_text("https://t.me/my_bot?start=verify"));
}

#[test]
fn without_rights_nothing_happens() {
    let mut w = world();
    w.receive(vec![update(1, joined(vec![person(5)]))], 0);
    w.step(None, 0);
    let step = w.step(status("member"), 0);
    assert!(step.effects.is_empty());
    assert!(w.pending.rows().is_empty());
}

#[test]
fn the_whitelisted_are_only_greeted() {
    let mut w = world();
    whitelist_add(&mut w.whitelist, 5, 0);
    w.receive(vec![update(1, joined(vec![person(5)]))], 0);
    w.step(None, 0);
    let step = w.step(status("creator"), 0);
    assert_eq!(step.effects.len(), 1);
    assert!(matches!(step.effects[0], Effect::Require(_)));
    assert_eq!(said(&step.effects[0]), (CHAT, "Hi Ann".to_owned()));
    assert!(w.pending.rows().is_empty());
}

#[test]
fn some_members_stop_the_bot() {
    let w = world();
    let nobody = Json::object();
    let failed = take_in(&nobody, CHAT, &w.config, "b", &w.whitelist, 0);
    assert!(matches!(failed, Err(Fault::MemberWithoutId)));
    let failed = take_in(&person(5), CHAT, &w.config, "b", &w.whitelist, i64::MAX);
    assert!(matches!(failed, Err(Fault::DeadlineOverflow)));
    let mut w = world();
    let step = w.receive(vec![update(i64::MAX, Json::Null)], 0);
    assert!(matches!(step.ask, Ask::Abort(Fault::OffsetOverflow)));
    let mut pending =
        Pending::from_rows(&vec![PendingRow { failures: i64::MAX, ..row(5, 10) }]);
    let step = answer_private(5, "hello", &w.config, &mut pending);
    assert!(matches!(step.ask, Ask::Abort(Fault::FailuresOverflow)));
}

#[test]
fn start_is_answered() {
    let mut w = world();
    let step = answer_private(5, "/start verify", &w.config, &mut w.pending);
    assert_eq!(said(&step.effects[0]), (5, "没有待验证请求\nNo pending verification request".to_owned()));
    w.pending.apply(StoreOp::Insert(row(5, 10)));
    let step = answer_private(5, "/start", &w.config, &mut w.pending);
    assert_eq!(said(&step.effects[0]), (5, w.config.prompt.clone()));
    assert!(matches!(step.ask, Ask::Continue));
}

#[test]
fn strangers_change_nothing() {
    let mut w = world();
    w.pending.apply(StoreOp::Insert(row(6, 10)));
    let step = answer_private(5, COMMAND, &w.config, &mut w.pending);
    assert!(step.effects.is_empty());
    assert!(matches!(step.ask, Ask::Continue));
    assert_eq!(w.pending.rows(), &vec![row(6, 10)]);
}

#[test]
fn a_wrong_command_is_a_failed_attempt() {
    let mut w = world();
    w.pending.apply(StoreOp::Insert(row(5, 10)));
    w.receive(vec![update(1, private(5, "hello"))], 0);
    w.step(None, 0);
    let step = w.step(None, 0);
    assert_eq!(said(&step.effects[0]), (5, "验证失败\nVerification failed".to_owned()));
    assert_eq!(w.pending.rows()[0].failures, 1);
}

#[test]
fn a_right_command_begins_an_attempt() {
    let mut w = world();
    w.pending.apply(StoreOp::Insert(PendingRow { failures: 1, ..row(5, 10) }));
    let step = answer_private(5, COMMAND, &w.config, &mut w.pending);
    assert_eq!(said(&step.effects[0]), (5, "正在验证\nVerification in progress".to_owned()));
    match step.ask {
        Ask::Spawn(job) => {
            assert_eq!((job.user, job.chat, job.failures), (5, CHAT, 1));
            assert_eq!((job.key.as_str(), job.org.as_str()), ("abcdefghij0123456789", "42"));
        }
        other => panic!("{other:?}"),
    }
    assert_eq!(w.pending.rows()[0].busy, 1);
}

#[test]
fn too_many_attempts_are_turned_away() {
    let mut w = world();
    w.config.max_verifications = 1;
    w.pending.apply(StoreOp::Insert(row(5, 10)));
    w.pending.apply(StoreOp::Insert(row(6, 10)));
    answer_private(5, COMMAND, &w.config, &mut w.pending);
    for user in [5, 6] {
        let step = answer_private(user, COMMAND, &w.config, &mut w.pending);
        assert!(matches!(step.ask, Ask::Continue));
        assert_eq!(step.effects.len(), 4);
        assert!(matches!(step.effects[0], Effect::Store(StoreOp::Delete { user: u, chat: CHAT }) if u == user));
        assert_eq!(request(&step.effects[1]).method, "banChatMember");
        let unban = request(&step.effects[2]);
        assert_eq!(unban.method, "unbanChatMember");
        assert!(unban.body.field("only_if_banned").is_true());
        assert_eq!(said(&step.effects[3]), (user, "当前验证人数已满，请过段时间再进群\nVerification capacity is full. Please join the group again later.".to_owned()));
    }
}

#[test]
fn group_messages_are_not_answered() {
    let mut w = world();
    w.pending.apply(StoreOp::Insert(row(5, 10)));
    w.receive(vec![update(1, joined(vec![]).with("text", Json::text("/start")))], 0);
    w.step(None, 0);
    let step = w.step(None, 0);
    assert!(step.effects.is_empty());
    assert!(matches!(w.step(None, 0).ask, Ask::NextCycle));
}

#[test]
fn a_second_wrong_answer_bans() {
    let mut w = world();
    w.pending.apply(StoreOp::Insert(row(5, 10)));
    w.pending.apply(StoreOp::Insert(row(6, 10)));
    for _ in 0..2 {
        let step = answer_private(5, "hello", &w.config, &mut w.pending);
        for effect in &step.effects {
            if let Effect::Store(op) = effect {
                w.pending.apply(*op);
            }
        }
        if w.pending.rows().len() == 1 {
            assert_eq!(request(&step.effects[2]).method, "banChatMember");
        }
    }
    assert_eq!(w.pending.rows(), &vec![row(6, 10)]);
}

#[test]
fn steps_use_the_tables_only_where_they_need_them() {
    let mut w = world();
    assert_eq!(w.bot.table_use(), TableUse::Read);
    w.step(None, 0);
    assert_eq!(w.bot.table_use(), TableUse::Nothing);
    let updates = vec![update(1, joined(vec![person(5)])), update(2, private(5, "/start"))];
    w.step(Some(Json::array(updates)), 0);
    w.step(None, 0);
    w.step(None, 0);
    assert_eq!(w.bot.table_use(), TableUse::Read);
    w.step(status("member"), 0);
    w.step(None, 0);
    assert_eq!(w.bot.table_use(), TableUse::Nothing);
    w.step(None, 0);
    w.step(None, 0);
    w.step(None, 0);
    assert_eq!(w.bot.table_use(), TableUse::Claim);
}
