//! The calls of the Telegram Bot API that the bot makes, and what it reads from
//! the replies.

use vstd::prelude::*;
use crate::json::{
    field_spec, int_spec, is_true, items_view, json_text, law_member_is_found, rendered, Json, JsonView,
};

verus! {

/// A call of the API.
#[derive(Debug)]
pub struct Request {
    pub method: String,
    pub body: Json,
}

/// A call to reason about.
pub struct RequestView {
    pub method: Seq<char>,
    pub body: JsonView,
}

impl View for Request {
    type V = RequestView;

    open spec fn view(&self) -> RequestView {
        RequestView { method: self.method@, body: self.body@ }
    }
}

/// The address of a method.
pub fn api_url(token: &str, method: &str) -> (r: String)
    ensures
        r@ == "https://api.telegram.org/bot"@ + token@ + "/"@ + method@,
{
    let mut out = "https://api.telegram.org/bot".to_owned();
    out.append(token);
    out.append("/");
    out.append(method);
    out
}

/// What a reply comes to: its result where it says that all went well, else what
/// it says of the failure.
pub fn api_result(reply: Json) -> (r: Result<Json, Json>)
    ensures
        match r {
            Ok(result) => is_true(field_spec(reply@, "ok"@)) && result@ == field_spec(
                reply@,
                "result"@,
            ),
            Err(description) => !is_true(field_spec(reply@, "ok"@)) && description@ == field_spec(
                reply@,
                "description"@,
            ),
        },
{
    if reply.field("ok").is_true() {
        Ok(reply.into_field("result"))
    } else {
        Err(reply.into_field("description"))
    }
}

/// What is said of a call that was answered with a failure, which the reply
/// describes: the description, written as JSON.
pub fn api_failure(description: &Json) -> (r: String)
    ensures
        r@ == "Telegram: "@ + json_text(description@),
{
    api_error(rendered(description).as_str())
}

/// What is said of a call that was answered with a failure; `text` is what the
/// reply says of it.
pub fn api_error(text: &str) -> (r: String)
    ensures
        r@ == "Telegram: "@ + text@,
{
    let mut out = "Telegram: ".to_owned();
    out.append(text);
    out
}

/// Whether a reply on a chat member tells of an administrator or the creator.
pub open spec fn admin_spec(member: JsonView) -> bool {
    let status = field_spec(member, "status"@);
    status == JsonView::Str("administrator"@) || status == JsonView::Str("creator"@)
}

/// Whether the reply on a chat member tells of an administrator or the creator.
pub fn is_admin(member: &Json) -> (r: bool)
    ensures
        r == admin_spec(member@),
{
    let status = member.field("status");
    status.is_text("administrator") || status.is_text("creator")
}

/// What the bot is missing in the reply about itself.
#[derive(Debug, Clone, Copy, PartialEq, Eq, Structural)]
pub enum IdentityError {
    NoId,
    NoUsername,
}

impl IdentityError {
    /// What to tell the user.
    pub fn message(&self) -> (r: String)
        ensures
            r@ == (match *self {
                IdentityError::NoId => "Bot 无 id"@,
                IdentityError::NoUsername => "Bot 无 username"@,
            }),
    {
        match self {
            IdentityError::NoId => "Bot 无 id".to_string(),
            IdentityError::NoUsername => "Bot 无 username".to_string(),
        }
    }
}

/// The number and the name of the bot, from the reply about itself.
pub fn bot_identity(me: &Json) -> (r: Result<(i64, String), IdentityError>)
    ensures
        match r {
            Ok((id, username)) => int_spec(field_spec(me@, "id"@)) == Some(id)
                && field_spec(me@, "username"@) == JsonView::Str(username@),
            Err(IdentityError::NoId) => int_spec(field_spec(me@, "id"@)) is None,
            Err(IdentityError::NoUsername) => int_spec(field_spec(me@, "id"@)) is Some && !(
            field_spec(me@, "username"@) is Str),
        },
{
    let id = match me.field("id").as_i64() {
        Some(id) => id,
        None => {
            return Err(IdentityError::NoId);
        },
    };
    match me.field("username").as_str() {
        Some(username) => Ok((id, username.to_owned())),
        None => Err(IdentityError::NoUsername),
    }
}

/// Asks about the bot itself.
pub fn get_me() -> (r: Request)
    ensures
        r@ == (RequestView { method: "getMe"@, body: JsonView::Object(Seq::empty()) }),
{
    Request { method: "getMe".to_string(), body: Json::object() }
}

/// Waits for the messages from `offset` on.
pub open spec fn get_updates_spec(offset: i64) -> RequestView {
    RequestView {
        method: "getUpdates"@,
        body: JsonView::Object(
            seq![
                ("offset"@, JsonView::Int(offset)),
                ("timeout"@, JsonView::Int(10)),
                ("allowed_updates"@, JsonView::Array(seq![JsonView::Str("message"@)])),
            ],
        ),
    }
}

pub(crate) fn get_updates(offset: i64) -> (r: Request)
    ensures
        r@ == get_updates_spec(offset),
{
    let mut kinds: Vec<Json> = Vec::new();
    kinds.push(Json::text("message"));
    assert(items_view(kinds@) =~= seq![JsonView::Str("message"@)]);
    let body = Json::object().with("offset", Json::Int(offset)).with(
        "timeout",
        Json::Int(10),
    ).with("allowed_updates", Json::array(kinds));
    assert(body@->Object_0 =~= get_updates_spec(offset).body->Object_0);
    Request { method: "getUpdates".to_string(), body }
}

/// Sends a text to a chat.
pub open spec fn send_spec(chat: i64, text: Seq<char>) -> RequestView {
    RequestView {
        method: "sendMessage"@,
        body: JsonView::Object(
            seq![("chat_id"@, JsonView::Int(chat)), ("text"@, JsonView::Str(text))],
        ),
    }
}

pub(crate) fn send(chat: i64, text: &str) -> (r: Request)
    ensures
        r@ == send_spec(chat, text@),
{
    let body = Json::object().with("chat_id", Json::Int(chat)).with("text", Json::text(text));
    assert(body@->Object_0 =~= send_spec(chat, text@).body->Object_0);
    Request { method: "sendMessage".to_string(), body }
}

/// Sends a text with a button that opens a private chat with the bot.
pub open spec fn send_button_spec(
    chat: i64,
    text: Seq<char>,
    button: Seq<char>,
    username: Seq<char>,
) -> RequestView {
    let key = JsonView::Object(
        seq![
            ("text"@, JsonView::Str(button)),
            ("url"@, JsonView::Str("https://t.me/"@ + username + "?start=verify"@)),
        ],
    );
    RequestView {
        method: "sendMessage"@,
        body: JsonView::Object(
            seq![
                ("chat_id"@, JsonView::Int(chat)),
                ("text"@, JsonView::Str(text)),
                (
                    "reply_markup"@,
                    JsonView::Object(
                        seq![
                            (
                                "inline_keyboard"@,
                                JsonView::Array(seq![JsonView::Array(seq![key])]),
                            ),
                        ],
                    ),
                ),
            ],
        ),
    }
}

pub(crate) fn send_button(chat: i64, text: &str, button: &str, username: &str) -> (r: Request)
    ensures
        r@ == send_button_spec(chat, text@, button@, username@),
{
    let mut url = "https://t.me/".to_owned();
    url.append(username);
    url.append("?start=verify");
    let key = Json::object().with("text", Json::text(button)).with("url", Json::Str(url));
    let ghost key_view = JsonView::Object(
        seq![("text"@, JsonView::Str(button@)), ("url"@, JsonView::Str(url@))],
    );
    assert(key@->Object_0 =~= key_view->Object_0);
    let mut row: Vec<Json> = Vec::new();
    row.push(key);
    assert(items_view(row@) =~= seq![key_view]);
    let mut rows: Vec<Json> = Vec::new();
    rows.push(Json::array(row));
    assert(items_view(rows@) =~= seq![JsonView::Array(seq![key_view])]);
    let markup = Json::object().with("inline_keyboard", Json::array(rows));
    let ghost want = send_button_spec(chat, text@, button@, username@).body->Object_0;
    assert(markup@->Object_0 =~= want[2].1->Object_0);
    let body = Json::object().with("chat_id", Json::Int(chat)).with(
        "text",
        Json::text(text),
    ).with("reply_markup", markup);
    assert(body@->Object_0 =~= want);
    Request { method: "sendMessage".to_string(), body }
}

/// Bans a user from a chat and removes their messages.
pub open spec fn ban_spec(chat: i64, user: i64) -> RequestView {
    RequestView {
        method: "banChatMember"@,
        body: JsonView::Object(
            seq![
                ("chat_id"@, JsonView::Int(chat)),
                ("user_id"@, JsonView::Int(user)),
                ("revoke_messages"@, JsonView::Bool(true)),
            ],
        ),
    }
}

pub(crate) fn ban(chat: i64, user: i64) -> (r: Request)
    ensures
        r@ == ban_spec(chat, user),
{
    let body = Json::object().with("chat_id", Json::Int(chat)).with(
        "user_id",
        Json::Int(user),
    ).with("revoke_messages", Json::Bool(true));
    assert(body@->Object_0 =~= ban_spec(chat, user).body->Object_0);
    Request { method: "banChatMember".to_string(), body }
}

/// Lifts the ban of a user, who may then join again.
pub open spec fn unban_spec(chat: i64, user: i64) -> RequestView {
    RequestView {
        method: "unbanChatMember"@,
        body: JsonView::Object(
            seq![
                ("chat_id"@, JsonView::Int(chat)),
                ("user_id"@, JsonView::Int(user)),
                ("only_if_banned"@, JsonView::Bool(true)),
            ],
        ),
    }
}

pub(crate) fn unban(chat: i64, user: i64) -> (r: Request)
    ensures
        r@ == unban_spec(chat, user),
{
    let body = Json::object().with("chat_id", Json::Int(chat)).with(
        "user_id",
        Json::Int(user),
    ).with("only_if_banned", Json::Bool(true));
    assert(body@->Object_0 =~= unban_spec(chat, user).body->Object_0);
    Request { method: "unbanChatMember".to_string(), body }
}

/// Leaves a chat.
pub open spec fn leave_spec(chat: i64) -> RequestView {
    RequestView {
        method: "leaveChat"@,
        body: JsonView::Object(seq![("chat_id"@, JsonView::Int(chat))]),
    }
}

pub(crate) fn leave(chat: i64) -> (r: Request)
    ensures
        r@ == leave_spec(chat),
{
    let body = Json::object().with("chat_id", Json::Int(chat));
    assert(body@->Object_0 =~= leave_spec(chat).body->Object_0);
    Request { method: "leaveChat".to_string(), body }
}

/// Asks about a member of a chat.
pub open spec fn get_member_spec(chat: i64, user: i64) -> RequestView {
    RequestView {
        method: "getChatMember"@,
        body: JsonView::Object(
            seq![("chat_id"@, JsonView::Int(chat)), ("user_id"@, JsonView::Int(user))],
        ),
    }
}

pub(crate) fn get_member(chat: i64, user: i64) -> (r: Request)
    ensures
        r@ == get_member_spec(chat, user),
{
    let body = Json::object().with("chat_id", Json::Int(chat)).with("user_id", Json::Int(user));
    assert(body@->Object_0 =~= get_member_spec(chat, user).body->Object_0);
    Request { method: "getChatMember".to_string(), body }
}

/// Keeps a user of a chat from sending messages until a time.
pub open spec fn restrict_spec(chat: i64, user: i64, until: i64) -> RequestView {
    RequestView {
        method: "restrictChatMember"@,
        body: JsonView::Object(
            seq![
                ("chat_id"@, JsonView::Int(chat)),
                ("user_id"@, JsonView::Int(user)),
                (
                    "permissions"@,
                    JsonView::Object(seq![("can_send_messages"@, JsonView::Bool(false))]),
                ),
                ("until_date"@, JsonView::Int(until)),
            ],
        ),
    }
}

pub(crate) fn restrict(chat: i64, user: i64, until: i64) -> (r: Request)
    ensures
        r@ == restrict_spec(chat, user, until),
{
    let permissions = Json::object().with("can_send_messages", Json::Bool(false));
    let ghost want = restrict_spec(chat, user, until).body->Object_0;
    assert(permissions@->Object_0 =~= want[2].1->Object_0);
    let body = Json::object().with("chat_id", Json::Int(chat)).with(
        "user_id",
        Json::Int(user),
    ).with("permissions", permissions).with("until_date", Json::Int(until));
    assert(body@->Object_0 =~= want);
    Request { method: "restrictChatMember".to_string(), body }
}

/// What a verified member may do.
pub open spec fn permissions_spec() -> JsonView {
    JsonView::Object(
        seq![
            ("can_send_messages"@, JsonView::Bool(true)),
            ("can_send_audios"@, JsonView::Bool(true)),
            ("can_send_documents"@, JsonView::Bool(true)),
            ("can_send_photos"@, JsonView::Bool(true)),
            ("can_send_videos"@, JsonView::Bool(true)),
            ("can_send_video_notes"@, JsonView::Bool(true)),
            ("can_send_voice_notes"@, JsonView::Bool(true)),
            ("can_send_polls"@, JsonView::Bool(true)),
            ("can_send_other_messages"@, JsonView::Bool(true)),
            ("can_add_web_page_previews"@, JsonView::Bool(true)),
            ("can_invite_users"@, JsonView::Bool(true)),
        ],
    )
}

/// Lets a verified user of a chat take part in it.
pub open spec fn permit_spec(chat: i64, user: i64) -> RequestView {
    RequestView {
        method: "restrictChatMember"@,
        body: JsonView::Object(
            seq![
                ("chat_id"@, JsonView::Int(chat)),
                ("user_id"@, JsonView::Int(user)),
                ("permissions"@, permissions_spec()),
            ],
        ),
    }
}

pub(crate) fn permit(chat: i64, user: i64) -> (r: Request)
    ensures
        r@ == permit_spec(chat, user),
{
    let permissions = Json::object().with("can_send_messages", Json::Bool(true)).with(
        "can_send_audios",
        Json::Bool(true),
    ).with("can_send_documents", Json::Bool(true)).with(
        "can_send_photos",
        Json::Bool(true),
    ).with("can_send_videos", Json::Bool(true)).with(
        "can_send_video_notes",
        Json::Bool(true),
    ).with("can_send_voice_notes", Json::Bool(true)).with("can_send_polls", Json::Bool(true)).with(
        "can_send_other_messages",
        Json::Bool(true),
    ).with("can_add_web_page_previews", Json::Bool(true)).with(
        "can_invite_users",
        Json::Bool(true),
    );
    assert(permissions@->Object_0 =~= permissions_spec()->Object_0);
    let body = Json::object().with("chat_id", Json::Int(chat)).with(
        "user_id",
        Json::Int(user),
    ).with("permissions", permissions);
    assert(body@->Object_0 =~= permit_spec(chat, user).body->Object_0);
    Request { method: "restrictChatMember".to_string(), body }
}

/// Whether a call names a member of a chat in the usual way.
pub open spec fn names_member(r: RequestView, method: Seq<char>, chat: i64, user: i64) -> bool {
    &&& r.method == method
    &&& field_spec(r.body, "chat_id"@) == JsonView::Int(chat)
    &&& field_spec(r.body, "user_id"@) == JsonView::Int(user)
}

/// Whether a call sends a text to a chat.
pub open spec fn says(r: RequestView, chat: i64, text: Seq<char>) -> bool {
    &&& r.method == "sendMessage"@
    &&& field_spec(r.body, "chat_id"@) == JsonView::Int(chat)
    &&& field_spec(r.body, "text"@) == JsonView::Str(text)
}

/// Whether a call lets a member of a chat do everything that members may do.
pub open spec fn permits_all(r: RequestView, chat: i64, user: i64) -> bool {
    let permissions = field_spec(r.body, "permissions"@);
    &&& names_member(r, "restrictChatMember"@, chat, user)
    &&& field_spec(permissions, "can_send_messages"@) == JsonView::Bool(true)
    &&& field_spec(permissions, "can_send_audios"@) == JsonView::Bool(true)
    &&& field_spec(permissions, "can_send_documents"@) == JsonView::Bool(true)
    &&& field_spec(permissions, "can_send_photos"@) == JsonView::Bool(true)
    &&& field_spec(permissions, "can_send_videos"@) == JsonView::Bool(true)
    &&& field_spec(permissions, "can_send_video_notes"@) == JsonView::Bool(true)
    &&& field_spec(permissions, "can_send_voice_notes"@) == JsonView::Bool(true)
    &&& field_spec(permissions, "can_send_polls"@) == JsonView::Bool(true)
    &&& field_spec(permissions, "can_send_other_messages"@) == JsonView::Bool(true)
    &&& field_spec(permissions, "can_add_web_page_previews"@) == JsonView::Bool(true)
    &&& field_spec(permissions, "can_invite_users"@) == JsonView::Bool(true)
}

/// Whether a call keeps a member of a chat from sending messages until a time.
pub open spec fn mutes(r: RequestView, chat: i64, user: i64, until: int) -> bool {
    &&& names_member(r, "restrictChatMember"@, chat, user)
    &&& field_spec(field_spec(r.body, "permissions"@), "can_send_messages"@) == JsonView::Bool(
        false,
    )
    &&& field_spec(r.body, "until_date"@) matches JsonView::Int(date) && date == until
}

/// The names in the bodies of the calls differ.
proof fn lemma_names()
    ensures
        "chat_id"@ != "user_id"@,
        "chat_id"@ != "text"@,
        "chat_id"@ != "reply_markup"@,
        "text"@ != "reply_markup"@,
        "text"@ != "url"@,
        "chat_id"@ != "permissions"@,
        "user_id"@ != "permissions"@,
        "chat_id"@ != "until_date"@,
        "user_id"@ != "until_date"@,
        "permissions"@ != "until_date"@,
        "chat_id"@ != "revoke_messages"@,
        "user_id"@ != "revoke_messages"@,
        "chat_id"@ != "only_if_banned"@,
        "user_id"@ != "only_if_banned"@,
        "offset"@ != "timeout"@,
        "offset"@ != "allowed_updates"@,
        "timeout"@ != "allowed_updates"@,
{
    reveal_strlit("chat_id");
    reveal_strlit("user_id");
    reveal_strlit("text");
    reveal_strlit("url");
    reveal_strlit("reply_markup");
    reveal_strlit("permissions");
    reveal_strlit("until_date");
    reveal_strlit("revoke_messages");
    reveal_strlit("only_if_banned");
    reveal_strlit("offset");
    reveal_strlit("timeout");
    reveal_strlit("allowed_updates");
    assert("chat_id"@[0] == 'c' && "user_id"@[0] == 'u' && "chat_id"@.len() == 7);
    assert("user_id"@.len() == 7 && "permissions"@.len() == 11 && "until_date"@.len() == 10);
    assert("revoke_messages"@.len() == 15 && "only_if_banned"@.len() == 14);
    assert("text"@.len() == 4 && "url"@.len() == 3 && "reply_markup"@.len() == 12);
    assert("offset"@.len() == 6 && "timeout"@.len() == 7 && "allowed_updates"@.len() == 15);
}

/// The call that sends a text names the chat and holds the text.
pub proof fn law_send(chat: i64, text: Seq<char>)
    ensures
        says(send_spec(chat, text), chat, text),
{
    lemma_names();
    let members = send_spec(chat, text).body->Object_0;
    law_member_is_found(members, 0);
    law_member_is_found(members, 1);
}

/// The call that shows the way to the verification says the greeting in the chat
/// and has one button, with its text, that opens the private chat with the bot.
pub proof fn law_send_button(
    chat: i64,
    text: Seq<char>,
    button: Seq<char>,
    username: Seq<char>,
)
    ensures
        says(send_button_spec(chat, text, button, username), chat, text),
        ({
            let r = send_button_spec(chat, text, button, username);
            let keyboard = field_spec(field_spec(r.body, "reply_markup"@), "inline_keyboard"@);
            let rows = keyboard->Array_0;
            let row = rows[0]->Array_0;
            &&& keyboard is Array && rows.len() == 1
            &&& rows[0] is Array && row.len() == 1
            &&& field_spec(row[0], "text"@) == JsonView::Str(button)
            &&& field_spec(row[0], "url"@) == JsonView::Str(
                "https://t.me/"@ + username + "?start=verify"@,
            )
        }),
{
    lemma_names();
    let members = send_button_spec(chat, text, button, username).body->Object_0;
    law_member_is_found(members, 0);
    law_member_is_found(members, 1);
    law_member_is_found(members, 2);
    let markup = members[2].1->Object_0;
    law_member_is_found(markup, 0);
    let key = markup[0].1->Array_0[0]->Array_0[0]->Object_0;
    law_member_is_found(key, 0);
    law_member_is_found(key, 1);
}

/// The call that bans names the chat and the member, in their places, and has
/// their messages removed; the one that lifts a ban does so only where there is
/// one; the one that asks about a member names both.
pub proof fn law_member_calls(chat: i64, user: i64)
    ensures
        names_member(ban_spec(chat, user), "banChatMember"@, chat, user),
        field_spec(ban_spec(chat, user).body, "revoke_messages"@) == JsonView::Bool(true),
        names_member(unban_spec(chat, user), "unbanChatMember"@, chat, user),
        field_spec(unban_spec(chat, user).body, "only_if_banned"@) == JsonView::Bool(true),
        names_member(get_member_spec(chat, user), "getChatMember"@, chat, user),
{
    lemma_names();
    let ban = ban_spec(chat, user).body->Object_0;
    law_member_is_found(ban, 0);
    law_member_is_found(ban, 1);
    law_member_is_found(ban, 2);
    let unban = unban_spec(chat, user).body->Object_0;
    law_member_is_found(unban, 0);
    law_member_is_found(unban, 1);
    law_member_is_found(unban, 2);
    let about = get_member_spec(chat, user).body->Object_0;
    law_member_is_found(about, 0);
    law_member_is_found(about, 1);
}

/// The call that leaves a chat names that chat.
pub proof fn law_leave(chat: i64)
    ensures
        leave_spec(chat).method == "leaveChat"@,
        field_spec(leave_spec(chat).body, "chat_id"@) == JsonView::Int(chat),
{
    law_member_is_found(leave_spec(chat).body->Object_0, 0);
}

/// The call for messages asks for those from the offset on, and for messages
/// alone.
pub proof fn law_get_updates(offset: i64)
    ensures
        get_updates_spec(offset).method == "getUpdates"@,
        field_spec(get_updates_spec(offset).body, "offset"@) == JsonView::Int(offset),
        field_spec(get_updates_spec(offset).body, "timeout"@) == JsonView::Int(10),
        field_spec(get_updates_spec(offset).body, "allowed_updates"@) == JsonView::Array(
            seq![JsonView::Str("message"@)],
        ),
{
    lemma_names();
    let members = get_updates_spec(offset).body->Object_0;
    law_member_is_found(members, 0);
    law_member_is_found(members, 1);
    law_member_is_found(members, 2);
}

/// The call that restricts a new member mutes them until the time that is given.
pub proof fn law_restrict(chat: i64, user: i64, until: i64)
    ensures
        mutes(restrict_spec(chat, user, until), chat, user, until as int),
{
    lemma_names();
    let members = restrict_spec(chat, user, until).body->Object_0;
    law_member_is_found(members, 0);
    law_member_is_found(members, 1);
    law_member_is_found(members, 2);
    law_member_is_found(members, 3);
    law_member_is_found(members[2].1->Object_0, 0);
}

/// The names of the permissions differ.
proof fn lemma_permission_names(i: int, j: int)
    requires
        0 <= i < j < 11,
    ensures
        permissions_spec()->Object_0[i].0 != permissions_spec()->Object_0[j].0,
{
    reveal_strlit("can_send_messages");
    reveal_strlit("can_send_audios");
    reveal_strlit("can_send_documents");
    reveal_strlit("can_send_photos");
    reveal_strlit("can_send_videos");
    reveal_strlit("can_send_video_notes");
    reveal_strlit("can_send_voice_notes");
    reveal_strlit("can_send_polls");
    reveal_strlit("can_send_other_messages");
    reveal_strlit("can_add_web_page_previews");
    reveal_strlit("can_invite_users");
    let a = permissions_spec()->Object_0[i].0;
    let b = permissions_spec()->Object_0[j].0;
    assert(a.len() != b.len() || a[9] != b[9] || a[10] != b[10] || a[4] != b[4]);
}

/// The call that frees a verified member grants them every permission.
pub proof fn law_permit(chat: i64, user: i64)
    ensures
        permits_all(permit_spec(chat, user), chat, user),
{
    lemma_names();
    let members = permit_spec(chat, user).body->Object_0;
    law_member_is_found(members, 0);
    law_member_is_found(members, 1);
    law_member_is_found(members, 2);
    let all = permissions_spec()->Object_0;
    assert forall|j: int| 0 <= j < 11 implies field_spec(
        permissions_spec(),
        (#[trigger] all[j]).0,
    ) == all[j].1 by {
        assert forall|i: int| 0 <= i < j implies (#[trigger] all[i]).0 != all[j].0 by {
            lemma_permission_names(i, j);
        }
        law_member_is_found(all, j);
    }
    assert(all[0].0 == "can_send_messages"@ && all[1].0 == "can_send_audios"@);
    assert(all[2].0 == "can_send_documents"@ && all[3].0 == "can_send_photos"@);
    assert(all[4].0 == "can_send_videos"@ && all[5].0 == "can_send_video_notes"@);
    assert(all[6].0 == "can_send_voice_notes"@ && all[7].0 == "can_send_polls"@);
    assert(all[8].0 == "can_send_other_messages"@ && all[9].0 == "can_add_web_page_previews"@);
    assert(all[10].0 == "can_invite_users"@);
}

} // verus!
