//! The command line of the bot, parsed by the `clap` crate.

use vstd::prelude::*;
use crate::config::DEFAULT_DATA;
use crate::number::{decimal, law_decimal_reads_back, parse_i64, parse_i64_spec};
use crate::service::{verb_spec, ServiceAction};
use crate::text::{replace, replace_spec, str_eq, texts};

verus! {

/// What an argument takes.
#[derive(Debug, Clone, Copy, PartialEq, Eq, Structural)]
pub enum ArgKind {
    /// Nothing: it is there or not.
    Flag,
    /// A number.
    Number,
    /// A path, which is not empty.
    Path,
}

/// An argument of a command.
#[derive(Debug)]
pub struct ArgRow {
    /// What the argument is called in the result.
    pub id: &'static str,
    /// The long option, for an argument that is one; a positional argument has none.
    pub long: Option<&'static str>,
    /// What stands for its value in a help text; none for a flag.
    pub shown: Option<&'static str>,
    /// What a help text says of it.
    pub help: Option<String>,
    pub required: bool,
    pub kind: ArgKind,
}

/// An argument, as values to reason about.
pub struct ArgRowView {
    pub id: Seq<char>,
    pub long: Option<Seq<char>>,
    pub shown: Option<Seq<char>>,
    pub help: Option<Seq<char>>,
    pub required: bool,
    pub kind: ArgKind,
}

impl View for ArgRow {
    type V = ArgRowView;

    open spec fn view(&self) -> ArgRowView {
        ArgRowView {
            id: self.id@,
            long: match self.long {
                Some(long) => Some(long@),
                None => None,
            },
            shown: match self.shown {
                Some(shown) => Some(shown@),
                None => None,
            },
            help: text_of(self.help),
            required: self.required,
            kind: self.kind,
        }
    }
}

/// A command at some depth below the program: its name, what it does, whether it
/// needs a subcommand, and its arguments.
pub struct CommandRowView {
    pub depth: nat,
    pub name: Seq<char>,
    pub about: Option<Seq<char>>,
    pub group: bool,
    pub args: Seq<ArgRowView>,
}

/// What a command line was found to hold.
#[derive(Debug)]
pub struct Found {
    /// The names of the subcommands, from the outermost in.
    pub path: Vec<String>,
    /// The values, as they are written, each with the argument it belongs to.
    pub values: Vec<(String, String)>,
}

/// What a command line was found to hold, as values to reason about.
pub struct FoundView {
    pub path: Seq<Seq<char>>,
    pub values: Seq<(Seq<char>, Seq<char>)>,
}

impl View for Found {
    type V = FoundView;

    open spec fn view(&self) -> FoundView {
        FoundView {
            path: texts(self.path@),
            values: Seq::new(
                self.values@.len(),
                |i: int| (self.values@[i].0@, self.values@[i].1@),
            ),
        }
    }
}

/// A command of `clap`.
#[verifier::external_type_specification]
#[verifier::external_body]
pub struct ExCommand(clap::Command);

/// What `clap` has to say of a command line that it refuses or answers itself,
/// and the code to exit with.
#[derive(Debug)]
pub struct Refusal {
    pub text: String,
    /// The text for a terminal, with the codes that style it.
    pub styled: String,
    pub code: i32,
}

/// A refusal, as values to reason about.
pub struct RefusalView {
    pub text: Seq<char>,
    pub styled: Seq<char>,
    pub code: i32,
}

impl View for Refusal {
    type V = RefusalView;

    open spec fn view(&self) -> RefusalView {
        RefusalView { text: self.text@, styled: self.styled@, code: self.code }
    }
}

/// The command and its subcommands, each before its own, that a command of
/// `clap` has been made of.
pub uninterp spec fn command_rows(command: clap::Command) -> Seq<CommandRowView>;

/// What `clap` finds in a command line for a command made of `rows`, or what it
/// says where it refuses the command line or answers it itself.
pub uninterp spec fn clap_found(rows: Seq<CommandRowView>, args: Seq<Seq<char>>) -> Result<
    FoundView,
    RefusalView,
>;

/// Makes a command with `clap::Command::new` and gives it arguments made with
/// `clap::Arg::new`, of which a flag has the action `clap::ArgAction::SetTrue`, a
/// number is checked by `clap::builder::RangedI64ValueParser` and a path by
/// `clap::builder::PathBufValueParser`. Claimed is that the command is made of
/// just these.
#[verifier::external_body]
fn clap_command(
    name: &'static str,
    about: Option<&'static str>,
    group: bool,
    args: &Vec<ArgRow>,
) -> (r: clap::Command)
    ensures
        command_rows(r) == seq![
            CommandRowView {
                depth: 0,
                name: name@,
                about: match about {
                    Some(text) => Some(text@),
                    None => None,
                },
                group,
                args: Seq::new(args@.len(), |i: int| args@[i]@),
            },
        ],
{
    clap::Command::new(name)
        .about(about)
        .subcommand_required(group)
        .arg_required_else_help(group)
        .args(args.iter().map(|a| {
            let arg = clap::Arg::new(a.id).long(a.long).value_name(a.shown).required(a.required);
            let help = a.help.as_ref().map(|text| clap::builder::StyledStr::from(text));
            let arg = arg.help(clap::builder::Resettable::from(help));
            match a.kind {
                ArgKind::Flag => arg.action(clap::ArgAction::SetTrue),
                ArgKind::Number => arg.value_parser(clap::builder::RangedI64ValueParser::<i64>::new()),
                ArgKind::Path => arg.value_parser(clap::builder::PathBufValueParser::new()),
            }
        }))
}

/// Gives a command a subcommand with `clap::Command::subcommand`. Claimed is
/// that it stands behind those that the command has, one level deeper.
#[verifier::external_body]
fn clap_subcommand(outer: clap::Command, inner: clap::Command) -> (r: clap::Command)
    ensures
        command_rows(r) == command_rows(outer) + deeper(command_rows(inner)),
{
    outer.subcommand(inner)
}

/// The rows, one level deeper.
pub open spec fn deeper(rows: Seq<CommandRowView>) -> Seq<CommandRowView> {
    Seq::new(rows.len(), |i: int| CommandRowView { depth: rows[i].depth + 1, ..rows[i] })
}

/// Parses a command line, of which the first argument is the program, with
/// `clap::Command::try_get_matches_from`, and reads the result with
/// `clap::ArgMatches::subcommand`, `ids` and `get_raw`, or the error with
/// `to_string`, `clap::Error::render` and `clap::Error::exit_code`.
///
/// Claimed is that the outcome depends on the command and the arguments alone.
/// What `clap` finds in which command line is not claimed.
#[verifier::external_body]
fn clap_parse(command: clap::Command, args: &Vec<String>) -> (r: Result<Found, Refusal>)
    requires
        exists|env: Option<Seq<char>>| command_rows(command) == #[trigger] program_rows(env),
    ensures
        match r {
            Ok(found) => clap_found(command_rows(command), texts(args@)) == Ok::<
                FoundView,
                RefusalView,
            >(found@),
            Err(refusal) => clap_found(command_rows(command), texts(args@)) == Err::<
                FoundView,
                RefusalView,
            >(refusal@),
        },
{
    let matches = command.try_get_matches_from(args).map_err(|e| {
        Refusal { text: e.to_string(), styled: e.render().ansi().to_string(), code: e.exit_code() }
    })?;
    let mut out = Found { path: Vec::new(), values: Vec::new() };
    let mut at = Some(&matches);
    while let Some(level) = at {
        for id in level.ids() {
            for raw in level.get_raw(id.as_str()).into_iter().flatten() {
                out.values.push((id.to_string(), raw.to_string_lossy().into_owned()));
            }
        }
        out.path.extend(level.subcommand_name().map(str::to_owned));
        at = level.subcommand().map(|(_, inner)| inner);
    }
    Ok(out)
}

/// A command without subcommands and arguments.
pub open spec fn leaf(depth: nat, name: Seq<char>, about: Option<Seq<char>>) -> CommandRowView {
    CommandRowView { depth, name, about, group: false, args: Seq::empty() }
}

/// What a help text says of the data directory: where else it may come from, with
/// what the environment says, and what it is otherwise. `clap` reads `{n}` in a
/// help text as a line break; with a style reset inside, which is not shown, it
/// stands for itself.
pub open spec fn data_help_spec(env: Option<Seq<char>>) -> Seq<char> {
    let value = match env {
        Some(value) => value,
        None => Seq::empty(),
    };
    "[env: RHC_BOT_DATA="@ + replace_spec(value, "{n}"@, "{\x1b[0mn}"@) + "] [default: "@
        + DEFAULT_DATA@ + "]"@
}

/// The option for the data directory.
pub open spec fn data_arg(env: Option<Seq<char>>) -> ArgRowView {
    ArgRowView {
        id: "data"@,
        long: Some("data"@),
        shown: Some("DATA"@),
        help: Some(data_help_spec(env)),
        required: false,
        kind: ArgKind::Path,
    }
}

/// The number of a user.
pub open spec fn number_arg(required: bool) -> ArgRowView {
    ArgRowView {
        id: "tg_id"@,
        long: None,
        shown: Some("TG_ID"@),
        help: None,
        required,
        kind: ArgKind::Number,
    }
}

/// The option for all users.
pub open spec fn flag_arg() -> ArgRowView {
    ArgRowView {
        id: "all"@,
        long: Some("all"@),
        shown: None,
        help: None,
        required: false,
        kind: ArgKind::Flag,
    }
}

/// The commands of the program: `run`, `config`, `reset`, `cache-update`,
/// `whitelist` with its subcommands `add`, `delete` and `list`, and one for each
/// action on the service. `env` is the data directory named in the environment,
/// if any.
pub open spec fn program_rows(env: Option<Seq<char>>) -> Seq<CommandRowView> {
    seq![
        CommandRowView { args: seq![data_arg(env)], ..leaf(0, "rhc-bot"@, None) },
        leaf(1, "run"@, None),
        leaf(1, "config"@, None),
        leaf(1, "reset"@, None),
        leaf(1, "cache-update"@, None),
        CommandRowView {
            group: true,
            ..leaf(1, "whitelist"@, Some("管理 Telegram 数字 ID 白名单"@))
        },
        CommandRowView {
            args: seq![number_arg(true)],
            ..leaf(2, "add"@, Some("添加白名单 Telegram 数字 ID"@))
        },
        CommandRowView {
            args: seq![number_arg(false), flag_arg()],
            ..leaf(
                2,
                "delete"@,
                Some("删除指定 Telegram 数字 ID；不指定 ID 并加 --all 则删除全部"@),
            )
        },
        leaf(2, "list"@, Some("查询白名单 Telegram 数字 ID"@)),
        leaf(1, "start"@, Some("启动 rhc-bot systemd 服务"@)),
        leaf(1, "stop"@, Some("停止 rhc-bot systemd 服务"@)),
        leaf(1, "restart"@, Some("重启 rhc-bot systemd 服务"@)),
        leaf(1, "enable"@, Some("设置 rhc-bot 服务开机自启"@)),
        leaf(1, "disable"@, Some("关闭 rhc-bot 服务开机自启"@)),
    ]
}

/// A command without arguments.
fn plain_command(name: &'static str, about: Option<&'static str>) -> (r: clap::Command)
    ensures
        command_rows(r) == seq![
            leaf(
                0,
                name@,
                match about {
                    Some(text) => Some(text@),
                    None => None,
                },
            ),
        ],
{
    let none: Vec<ArgRow> = Vec::new();
    let r = clap_command(name, about, false, &none);
    proof {
        assert(command_rows(r)[0].args =~= Seq::<ArgRowView>::empty());
    }
    r
}

spec fn whitelist_rows() -> Seq<CommandRowView> {
    program_rows(None).subrange(5, 9)
}

/// The command `whitelist`.
fn whitelist_command() -> (r: clap::Command)
    ensures
        deeper(command_rows(r)) == whitelist_rows(),
{
    let none: Vec<ArgRow> = Vec::new();
    let outer = clap_command("whitelist", Some("管理 Telegram 数字 ID 白名单"), true, &none);
    let mut add_args: Vec<ArgRow> = Vec::new();
    add_args.push(ArgRow {
        id: "tg_id",
        long: None,
        shown: Some("TG_ID"),
        help: None,
        required: true,
        kind: ArgKind::Number,
    });
    let add = clap_command("add", Some("添加白名单 Telegram 数字 ID"), false, &add_args);
    let mut delete_args: Vec<ArgRow> = Vec::new();
    delete_args.push(ArgRow {
        id: "tg_id",
        long: None,
        shown: Some("TG_ID"),
        help: None,
        required: false,
        kind: ArgKind::Number,
    });
    delete_args.push(ArgRow {
        id: "all",
        long: Some("all"),
        shown: None,
        help: None,
        required: false,
        kind: ArgKind::Flag,
    });
    let delete = clap_command(
        "delete",
        Some("删除指定 Telegram 数字 ID；不指定 ID 并加 --all 则删除全部"),
        false,
        &delete_args,
    );
    let list = plain_command("list", Some("查询白名单 Telegram 数字 ID"));
    proof {
        assert(command_rows(outer)[0].args =~= Seq::<ArgRowView>::empty());
        assert(command_rows(add)[0].args =~= seq![number_arg(true)]);
        assert(command_rows(delete)[0].args =~= seq![number_arg(false), flag_arg()]);
    }
    let r = clap_subcommand(clap_subcommand(clap_subcommand(outer, add), delete), list);
    assert(deeper(command_rows(r)) =~= whitelist_rows());
    r
}

/// What a help text says of the data directory.
fn data_help(env: &Option<String>) -> (r: String)
    ensures
        r@ == data_help_spec(text_of(*env)),
{
    proof {
        reveal_strlit("{n}");
    }
    let mut out = "[env: RHC_BOT_DATA=".to_owned();
    if let Some(value) = env {
        let value = replace(value.as_str(), "{n}", "{\x1b[0mn}");
        out.append(value.as_str());
    }
    out.append("] [default: ");
    out.append(DEFAULT_DATA);
    out.append("]");
    assert(out@ =~= data_help_spec(text_of(*env)));
    out
}

/// The command of the program.
fn program(env: &Option<String>) -> (r: clap::Command)
    ensures
        command_rows(r) == program_rows(text_of(*env)),
{
    let ghost rows = program_rows(text_of(*env));
    let mut args: Vec<ArgRow> = Vec::new();
    args.push(ArgRow {
        id: "data",
        long: Some("data"),
        shown: Some("DATA"),
        help: Some(data_help(env)),
        required: false,
        kind: ArgKind::Path,
    });
    let mut r = clap_command("rhc-bot", None, false, &args);
    assert(command_rows(r)[0].args =~= rows[0].args);
    r = clap_subcommand(r, plain_command("run", None));
    r = clap_subcommand(r, plain_command("config", None));
    r = clap_subcommand(r, plain_command("reset", None));
    r = clap_subcommand(r, plain_command("cache-update", None));
    assert(command_rows(r) =~= rows.take(5));
    r = clap_subcommand(r, whitelist_command());
    assert(command_rows(r) =~= rows.take(9));
    r = clap_subcommand(r, plain_command("start", Some("启动 rhc-bot systemd 服务")));
    r = clap_subcommand(r, plain_command("stop", Some("停止 rhc-bot systemd 服务")));
    r = clap_subcommand(r, plain_command("restart", Some("重启 rhc-bot systemd 服务")));
    r = clap_subcommand(r, plain_command("enable", Some("设置 rhc-bot 服务开机自启")));
    r = clap_subcommand(r, plain_command("disable", Some("关闭 rhc-bot 服务开机自启")));
    assert(command_rows(r) =~= rows);
    r
}

/// What can be done to the list of users who are let in without verification.
#[allow(inconsistent_fields)]
#[derive(Debug, Clone, Copy, PartialEq, Eq, Structural)]
pub enum WhitelistAction {
    Add { tg_id: i64 },
    Delete { tg_id: Option<i64>, all: bool },
    List,
}

/// What the program is asked to do.
#[derive(Debug, Clone, Copy, PartialEq, Eq, Structural)]
pub enum Action {
    Run,
    Config,
    Reset,
    CacheUpdate,
    Whitelist(WhitelistAction),
    Service(ServiceAction),
}

/// A command line: what to do, the menu where nothing is named, and the data
/// directory.
#[derive(Debug)]
pub struct Cli {
    pub command: Option<Action>,
    pub data: String,
}

/// Why a command line is refused.
#[derive(Debug)]
pub enum CliError {
    /// It does not follow the grammar, or asks for help.
    Refused(Refusal),
    /// The data directory is the empty text.
    EmptyData,
    /// It names no known command, or lacks its user, which is a number.
    Incomplete,
}

impl CliError {
    /// What to tell the user.
    pub fn message(&self) -> (r: String)
        ensures
            r@ == (match *self {
                CliError::Refused(refusal) => refusal.text@,
                CliError::EmptyData => "error: the data directory is empty\n"@,
                CliError::Incomplete => "error: incomplete command line\n"@,
            }),
    {
        match self {
            CliError::Refused(refusal) => refusal.text.clone(),
            CliError::EmptyData => "error: the data directory is empty\n".to_owned(),
            CliError::Incomplete => "error: incomplete command line\n".to_owned(),
        }
    }

    /// What to tell the user on a terminal.
    pub fn styled_message(&self) -> (r: String)
        ensures
            r@ == (match *self {
                CliError::Refused(refusal) => refusal.styled@,
                CliError::EmptyData => "error: the data directory is empty\n"@,
                CliError::Incomplete => "error: incomplete command line\n"@,
            }),
    {
        match self {
            CliError::Refused(refusal) => refusal.styled.clone(),
            CliError::EmptyData => "error: the data directory is empty\n".to_owned(),
            CliError::Incomplete => "error: incomplete command line\n".to_owned(),
        }
    }

    /// The code to exit with.
    pub fn code(&self) -> (r: i32)
        ensures
            r == (match *self {
                CliError::Refused(refusal) => refusal.code,
                _ => 2,
            }),
    {
        match self {
            CliError::Refused(refusal) => refusal.code,
            _ => 2,
        }
    }
}

/// A command line, as values to reason about.
pub struct CliView {
    pub command: Option<Action>,
    pub data: Seq<char>,
}

impl View for Cli {
    type V = CliView;

    open spec fn view(&self) -> CliView {
        CliView { command: self.command, data: self.data@ }
    }
}

/// Why what was found in a command line is refused, as values to reason about.
pub enum CliFault {
    EmptyData,
    Incomplete,
}

/// The first value of an argument.
pub open spec fn value_of(values: Seq<(Seq<char>, Seq<char>)>, id: Seq<char>) -> Option<Seq<char>>
    decreases values.len(),
{
    if values.len() == 0 {
        None
    } else if values[0].0 == id {
        Some(values[0].1)
    } else {
        value_of(values.skip(1), id)
    }
}

/// The user that is named, if any; a user is a number.
pub open spec fn tg_id_spec(found: FoundView) -> Result<Option<i64>, CliFault> {
    match value_of(found.values, "tg_id"@) {
        None => Ok(None),
        Some(text) => match parse_i64_spec(text) {
            Some(id) => Ok(Some(id as i64)),
            None => Err(CliFault::Incomplete),
        },
    }
}

/// The action of a command without subcommands.
pub open spec fn plain_action(name: Seq<char>) -> Option<Action> {
    if name == "run"@ {
        Some(Action::Run)
    } else if name == "config"@ {
        Some(Action::Config)
    } else if name == "reset"@ {
        Some(Action::Reset)
    } else if name == "cache-update"@ {
        Some(Action::CacheUpdate)
    } else if name == "start"@ {
        Some(Action::Service(ServiceAction::Start))
    } else if name == "stop"@ {
        Some(Action::Service(ServiceAction::Stop))
    } else if name == "restart"@ {
        Some(Action::Service(ServiceAction::Restart))
    } else if name == "enable"@ {
        Some(Action::Service(ServiceAction::Enable))
    } else if name == "disable"@ {
        Some(Action::Service(ServiceAction::Disable))
    } else {
        None
    }
}

/// What the program is asked to do, or why that cannot be said.
pub open spec fn action_spec(found: FoundView) -> Result<Option<Action>, CliFault> {
    if found.path.len() == 0 {
        Ok(None)
    } else if found.path.len() == 1 {
        match plain_action(found.path[0]) {
            Some(action) => Ok(Some(action)),
            None => Err(CliFault::Incomplete),
        }
    } else if found.path.len() == 2 && found.path[0] == "whitelist"@ {
        if found.path[1] == "add"@ {
            match tg_id_spec(found) {
                Ok(Some(tg_id)) => Ok(Some(Action::Whitelist(WhitelistAction::Add { tg_id }))),
                _ => Err(CliFault::Incomplete),
            }
        } else if found.path[1] == "delete"@ {
            match tg_id_spec(found) {
                Ok(tg_id) => Ok(
                    Some(
                        Action::Whitelist(
                            WhitelistAction::Delete {
                                tg_id,
                                all: value_of(found.values, "all"@) == Some("true"@),
                            },
                        ),
                    ),
                ),
                Err(fault) => Err(fault),
            }
        } else if found.path[1] == "list"@ {
            Ok(Some(Action::Whitelist(WhitelistAction::List)))
        } else {
            Err(CliFault::Incomplete)
        }
    } else {
        Err(CliFault::Incomplete)
    }
}

/// The data directory: from the command line, else from the environment, else
/// the default.
pub open spec fn data_spec(found: FoundView, env: Option<Seq<char>>) -> Seq<char> {
    match value_of(found.values, "data"@) {
        Some(data) => data,
        None => match env {
            Some(data) => data,
            None => DEFAULT_DATA@,
        },
    }
}

/// The command line in which `found` was found, or why it is refused.
pub open spec fn cli_spec(found: FoundView, env: Option<Seq<char>>) -> Result<CliView, CliFault> {
    match action_spec(found) {
        Err(fault) => Err(fault),
        Ok(command) => if data_spec(found, env).len() == 0 {
            Err(CliFault::EmptyData)
        } else {
            Ok(CliView { command, data: data_spec(found, env) })
        },
    }
}

/// Whether an error stands for a fault.
pub open spec fn is_fault(e: CliError, fault: CliFault) -> bool {
    match fault {
        CliFault::EmptyData => e is EmptyData,
        CliFault::Incomplete => e is Incomplete,
    }
}

/// The characters of a string, where there is one.
pub open spec fn text_of(s: Option<String>) -> Option<Seq<char>> {
    match s {
        Some(s) => Some(s@),
        None => None,
    }
}

fn find_value(found: &Found, id: &str) -> (r: Option<String>)
    ensures
        text_of(r) == value_of(found@.values, id@),
{
    let ghost values = found@.values;
    let mut i: usize = 0;
    assert(values.skip(0) =~= values);
    while i < found.values.len()
        invariant
            i <= found.values@.len(),
            values == found@.values,
            value_of(values, id@) == value_of(values.skip(i as int), id@),
        decreases found.values@.len() - i,
    {
        proof {
            assert(values.skip(i as int)[0] == values[i as int]);
            assert(values.skip(i as int).skip(1) =~= values.skip(i + 1));
        }
        if str_eq(found.values[i].0.as_str(), id) {
            return Some(found.values[i].1.clone());
        }
        i += 1;
    }
    None
}

fn find_tg_id(found: &Found) -> (r: Result<Option<i64>, CliError>)
    ensures
        match (r, tg_id_spec(found@)) {
            (Ok(id), Ok(want)) => id == want,
            (Err(e), Err(fault)) => is_fault(e, fault),
            _ => false,
        },
{
    match find_value(found, "tg_id") {
        None => Ok(None),
        Some(text) => match parse_i64(text.as_str()) {
            Ok(id) => Ok(Some(id)),
            Err(_) => Err(CliError::Incomplete),
        },
    }
}

fn find_plain(name: &str) -> (r: Option<Action>)
    ensures
        r == plain_action(name@),
{
    if str_eq(name, "run") {
        Some(Action::Run)
    } else if str_eq(name, "config") {
        Some(Action::Config)
    } else if str_eq(name, "reset") {
        Some(Action::Reset)
    } else if str_eq(name, "cache-update") {
        Some(Action::CacheUpdate)
    } else if str_eq(name, "start") {
        Some(Action::Service(ServiceAction::Start))
    } else if str_eq(name, "stop") {
        Some(Action::Service(ServiceAction::Stop))
    } else if str_eq(name, "restart") {
        Some(Action::Service(ServiceAction::Restart))
    } else if str_eq(name, "enable") {
        Some(Action::Service(ServiceAction::Enable))
    } else if str_eq(name, "disable") {
        Some(Action::Service(ServiceAction::Disable))
    } else {
        None
    }
}

fn find_action(found: &Found) -> (r: Result<Option<Action>, CliError>)
    ensures
        match (r, action_spec(found@)) {
            (Ok(action), Ok(want)) => action == want,
            (Err(e), Err(fault)) => is_fault(e, fault),
            _ => false,
        },
{
    if found.path.len() == 0 {
        return Ok(None);
    }
    if found.path.len() == 1 {
        return match find_plain(found.path[0].as_str()) {
            Some(action) => Ok(Some(action)),
            None => Err(CliError::Incomplete),
        };
    }
    if found.path.len() != 2 || !str_eq(found.path[0].as_str(), "whitelist") {
        return Err(CliError::Incomplete);
    }
    if str_eq(found.path[1].as_str(), "add") {
        match find_tg_id(found) {
            Ok(Some(tg_id)) => Ok(Some(Action::Whitelist(WhitelistAction::Add { tg_id }))),
            _ => Err(CliError::Incomplete),
        }
    } else if str_eq(found.path[1].as_str(), "delete") {
        let all = match find_value(found, "all") {
            Some(text) => str_eq(text.as_str(), "true"),
            None => false,
        };
        match find_tg_id(found) {
            Ok(tg_id) => Ok(Some(Action::Whitelist(WhitelistAction::Delete { tg_id, all }))),
            Err(e) => Err(e),
        }
    } else if str_eq(found.path[1].as_str(), "list") {
        Ok(Some(Action::Whitelist(WhitelistAction::List)))
    } else {
        Err(CliError::Incomplete)
    }
}

/// What a command line asks for, given what was found in it and the data
/// directory named in the environment, if any.
pub fn cli_from_found(found: &Found, env: Option<String>) -> (r: Result<Cli, CliError>)
    ensures
        match (r, cli_spec(found@, text_of(env))) {
            (Ok(cli), Ok(want)) => cli@ == want,
            (Err(e), Err(fault)) => is_fault(e, fault),
            _ => false,
        },
{
    let command = match find_action(found) {
        Ok(command) => command,
        Err(e) => {
            return Err(e);
        },
    };
    let data = match find_value(found, "data") {
        Some(data) => data,
        None => match env {
            Some(data) => data,
            None => DEFAULT_DATA.to_owned(),
        },
    };
    if data.as_str().is_empty() {
        return Err(CliError::EmptyData);
    }
    Ok(Cli { command, data })
}

/// A command line with an empty data directory.
pub open spec fn empty_data_args() -> Seq<Seq<char>> {
    seq!["rhc-bot"@, "--data="@]
}

/// What `clap` says of an empty data directory.
fn empty_data(env: &Option<String>) -> (r: CliError)
    ensures
        match clap_found(program_rows(text_of(*env)), empty_data_args()) {
            Err(refusal) => r matches CliError::Refused(said) && said@ == refusal,
            Ok(_) => r is EmptyData,
        },
{
    let mut args: Vec<String> = Vec::new();
    args.push("rhc-bot".to_owned());
    args.push("--data=".to_owned());
    assert(texts(args@) =~= empty_data_args());
    match clap_parse(program(env), &args) {
        Ok(_) => CliError::EmptyData,
        Err(refusal) => CliError::Refused(refusal),
    }
}

/// Parses a command line, of which the first argument is the program. `env` is
/// the data directory named in the environment, if any. Of an empty one the same
/// is said as of one on the command line.
pub fn parse_cli(args: &Vec<String>, env: Option<String>) -> (r: Result<Cli, CliError>)
    ensures
        match clap_found(program_rows(text_of(env)), texts(args@)) {
            Err(refusal) => r matches Err(CliError::Refused(said)) && said@ == refusal,
            Ok(found) => match cli_spec(found, text_of(env)) {
                Ok(want) => r matches Ok(cli) && cli@ == want,
                Err(CliFault::EmptyData) => match clap_found(
                    program_rows(text_of(env)),
                    empty_data_args(),
                ) {
                    Err(refusal) => r matches Err(CliError::Refused(said)) && said@ == refusal,
                    Ok(_) => r matches Err(CliError::EmptyData),
                },
                Err(CliFault::Incomplete) => r matches Err(CliError::Incomplete),
            },
        },
{
    let found = match clap_parse(program(&env), args) {
        Ok(found) => found,
        Err(refusal) => {
            return Err(CliError::Refused(refusal));
        },
    };
    match cli_from_found(&found, env.clone()) {
        Err(CliError::EmptyData) => Err(empty_data(&env)),
        other => other,
    }
}

/// Which users a deletion is for.
#[derive(Debug, Clone, Copy, PartialEq, Eq, Structural)]
pub enum DeleteTarget {
    All,
    One(i64),
    /// None is named, and all are not asked for.
    Missing,
}

/// Which users a deletion is for: all where that is asked for, else the one that
/// is named.
pub fn delete_target(tg_id: Option<i64>, all: bool) -> (r: DeleteTarget)
    ensures
        r == (if all {
            DeleteTarget::All
        } else {
            match tg_id {
                Some(id) => DeleteTarget::One(id),
                None => DeleteTarget::Missing,
            }
        }),
{
    if all {
        DeleteTarget::All
    } else {
        match tg_id {
            Some(id) => DeleteTarget::One(id),
            None => DeleteTarget::Missing,
        }
    }
}

impl DeleteTarget {
    /// What to tell the user where there is nothing to delete.
    pub fn refusal(&self) -> (r: Option<String>)
        ensures
            text_of(r) == (match *self {
                DeleteTarget::Missing => Some(
                    "请提供要删除的 Telegram 数字 ID，或使用 --all 删除全部"@,
                ),
                _ => None,
            }),
    {
        match self {
            DeleteTarget::Missing => Some(
                "请提供要删除的 Telegram 数字 ID，或使用 --all 删除全部".to_owned(),
            ),
            _ => None,
        }
    }
}

/// What is said once the command to reset has removed the database.
pub fn reset_text() -> (r: String)
    ensures
        r@ == "数据已重置"@,
{
    "数据已重置".to_owned()
}

/// The name of each action on the service is a command that performs it.
pub proof fn law_service_commands(action: ServiceAction)
    ensures
        plain_action(verb_spec(action)) == Some(Action::Service(action)),
{
    reveal_strlit("run");
    reveal_strlit("config");
    reveal_strlit("reset");
    reveal_strlit("cache-update");
    reveal_strlit("start");
    reveal_strlit("stop");
    reveal_strlit("restart");
    reveal_strlit("enable");
    reveal_strlit("disable");
    assert("start"@[1] == 't' && "stop"@[2] == 'o' && "start"@[2] == 'a');
    assert("restart"@[2] == 's' && "config"@[0] == 'c' && "reset"@[4] == 't');
    assert("enable"@[0] == 'e' && "disable"@[0] == 'd' && "restart"@[0] == 'r');
    assert("run"@[0] == 'r' && "cache-update"@[0] == 'c' && "start"@[0] == 's' && "stop"@[0] == 's');
}

/// The data directory is the one that the command line names; where it names none,
/// the one that the environment names; and where that names none either, the
/// default. What is done does not depend on it.
pub proof fn law_data_directory(found: FoundView, env: Option<Seq<char>>, cli: CliView)
    requires
        cli_spec(found, env) == Ok::<CliView, CliFault>(cli),
    ensures
        match (value_of(found.values, "data"@), env) {
            (Some(data), _) => cli.data == data,
            (None, Some(data)) => cli.data == data,
            (None, None) => cli.data == "/var/lib/rhc-bot"@,
        },
        cli.data.len() > 0,
        Ok::<Option<Action>, CliFault>(cli.command) == action_spec(found),
{
}

/// The number of the command that adds or deletes a user is the one that is
/// written, and all are deleted just if that is asked for.
pub proof fn law_named_user(found: FoundView, id: i64)
    requires
        found.path.len() == 2,
        found.path[0] == "whitelist"@,
        value_of(found.values, "tg_id"@) == Some(decimal(id as int)),
    ensures
        found.path[1] == "add"@ ==> action_spec(found) == Ok::<Option<Action>, CliFault>(
            Some(Action::Whitelist(WhitelistAction::Add { tg_id: id })),
        ),
        found.path[1] == "delete"@ ==> action_spec(found) == Ok::<Option<Action>, CliFault>(
            Some(
                Action::Whitelist(
                    WhitelistAction::Delete {
                        tg_id: Some(id),
                        all: value_of(found.values, "all"@) == Some("true"@),
                    },
                ),
            ),
        ),
{
    law_decimal_reads_back(id as int, i64::MIN as int, i64::MAX as int);
    reveal_strlit("add");
    reveal_strlit("delete");
    assert("add"@.len() == 3 && "delete"@.len() == 6);
}

/// Without a command the menu is meant, and each command without subcommands has
/// its own action.
pub proof fn law_commands(found: FoundView)
    ensures
        found.path.len() == 0 ==> action_spec(found) == Ok::<Option<Action>, CliFault>(None),
        found.path == seq!["run"@] ==> action_spec(found) == Ok::<Option<Action>, CliFault>(
            Some(Action::Run),
        ),
        found.path == seq!["config"@] ==> action_spec(found) == Ok::<Option<Action>, CliFault>(
            Some(Action::Config),
        ),
        found.path == seq!["reset"@] ==> action_spec(found) == Ok::<Option<Action>, CliFault>(
            Some(Action::Reset),
        ),
        found.path == seq!["cache-update"@] ==> action_spec(found) == Ok::<
            Option<Action>,
            CliFault,
        >(Some(Action::CacheUpdate)),
        found.path == seq!["whitelist"@, "list"@] ==> action_spec(found) == Ok::<
            Option<Action>,
            CliFault,
        >(Some(Action::Whitelist(WhitelistAction::List))),
{
    reveal_strlit("run");
    reveal_strlit("config");
    reveal_strlit("reset");
    reveal_strlit("cache-update");
    reveal_strlit("add");
    reveal_strlit("delete");
    reveal_strlit("list");
    assert("run"@.len() == 3 && "config"@.len() == 6 && "reset"@.len() == 5);
    assert("cache-update"@.len() == 12 && "add"@.len() == 3 && "delete"@.len() == 6);
    assert("list"@.len() == 4);
}

/// The value of an argument is the first that stands for it.
pub proof fn law_first_value(values: Seq<(Seq<char>, Seq<char>)>, id: Seq<char>, at: int)
    requires
        0 <= at < values.len(),
        values[at].0 == id,
        forall|i: int| 0 <= i < at ==> (#[trigger] values[i]).0 != id,
    ensures
        value_of(values, id) == Some(values[at].1),
    decreases values.len(),
{
    if at > 0 {
        assert(values[0].0 != id);
        let rest = values.skip(1);
        assert(rest[at - 1] == values[at]);
        assert forall|i: int| 0 <= i < at - 1 implies (#[trigger] rest[i]).0 != id by {
            assert(values[i + 1].0 != id);
        }
        law_first_value(rest, id, at - 1);
    }
}

} // verus!
