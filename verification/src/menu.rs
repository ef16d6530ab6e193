//! The menu from which the bot is managed.

use vstd::prelude::*;
use crate::number::{
    decimal, decimal_nat, law_decimal_reads_back, lemma_decimal_nat, parse_i64, parse_i64_spec,
    read_i64_spec, NumberError,
};
use crate::service::ServiceAction;
use crate::text::{str_eq, trim, trim_spec};
use crate::whitelist::{
    added_spec, added_text, cleared_spec, cleared_text, deleted_spec, deleted_text,
};

verus! {

/// What stands in front of the place where a choice is typed.
pub const CHOICE_PROMPT: &'static str = "请选择 [0-13]: ";

/// What is shown before each choice, with the settings of the image.
pub fn menu_text(image_mode: &str, cache_update_interval: &str) -> (r: String)
    ensures
        r@
            == "\n\x1b[0;32mRHC Bot 管理界面\x1b[0m\n0. 退出\n1. 更改设置\n2. 查看当前设置\n3. 立即更新本地 UBI 缓存\n4. 重置验证数据\n5. 启动服务\n6. 停止服务\n7. 重启服务\n8. 设置开机自启\n9. 关闭开机自启\n10. 添加白名单 TG ID\n11. 删除白名单 TG ID\n12. 查询白名单 TG ID\n13. 删除全部白名单 TG ID\n\n镜像模式: "@
            + image_mode@ + " | 缓存更新周期: "@ + cache_update_interval@,
{
    let mut out =
        "\n\x1b[0;32mRHC Bot 管理界面\x1b[0m\n0. 退出\n1. 更改设置\n2. 查看当前设置\n3. 立即更新本地 UBI 缓存\n4. 重置验证数据\n5. 启动服务\n6. 停止服务\n7. 重启服务\n8. 设置开机自启\n9. 关闭开机自启\n10. 添加白名单 TG ID\n11. 删除白名单 TG ID\n12. 查询白名单 TG ID\n13. 删除全部白名单 TG ID\n\n镜像模式: ".to_owned();
    out.append(image_mode);
    out.append(" | 缓存更新周期: ");
    out.append(cache_update_interval);
    out
}

/// What is asked for.
#[derive(Debug, Clone, Copy, PartialEq, Eq, Structural)]
pub enum MenuStage {
    /// A choice.
    Choice,
    /// The number to let in without verification.
    Add,
    /// The number no longer to let in without verification.
    Delete,
}

/// What is to be done.
#[derive(Debug, Clone, Copy, PartialEq, Eq, Structural)]
pub enum MenuAction {
    /// Leave the menu.
    Leave,
    /// Go through the settings.
    Configure,
    /// Show the settings.
    Show,
    /// Update the cached image.
    UpdateCache,
    /// Remove the database.
    Reset,
    /// Do something to the service.
    Service(ServiceAction),
    /// Ask for a number.
    Ask,
    /// Let a number in without verification.
    Add(i64),
    /// No longer let a number in without verification.
    Delete(i64),
    /// Show the numbers that are let in without verification.
    List,
    /// No longer let any number in without verification.
    Clear,
    /// Say that there is no such choice.
    Unknown,
    /// Leave the menu: what was typed is no number.
    NoNumber(NumberError),
}

/// The choice that a text, without white space around it, makes.
pub open spec fn choice_spec(text: Seq<char>) -> (MenuStage, MenuAction) {
    if text == "10"@ {
        (MenuStage::Add, MenuAction::Ask)
    } else if text == "11"@ {
        (MenuStage::Delete, MenuAction::Ask)
    } else {
        let action = if text == "0"@ {
            MenuAction::Leave
        } else if text == "1"@ {
            MenuAction::Configure
        } else if text == "2"@ {
            MenuAction::Show
        } else if text == "3"@ {
            MenuAction::UpdateCache
        } else if text == "4"@ {
            MenuAction::Reset
        } else if text == "5"@ {
            MenuAction::Service(ServiceAction::Start)
        } else if text == "6"@ {
            MenuAction::Service(ServiceAction::Stop)
        } else if text == "7"@ {
            MenuAction::Service(ServiceAction::Restart)
        } else if text == "8"@ {
            MenuAction::Service(ServiceAction::Enable)
        } else if text == "9"@ {
            MenuAction::Service(ServiceAction::Disable)
        } else if text == "12"@ {
            MenuAction::List
        } else if text == "13"@ {
            MenuAction::Clear
        } else {
            MenuAction::Unknown
        };
        (MenuStage::Choice, action)
    }
}

/// What a line that is typed brings about.
pub open spec fn menu_spec(stage: MenuStage, line: Seq<char>) -> (MenuStage, MenuAction) {
    let number = read_i64_spec(trim_spec(line));
    match stage {
        MenuStage::Choice => choice_spec(trim_spec(line)),
        MenuStage::Add => (
            MenuStage::Choice,
            match number {
                Ok(id) => MenuAction::Add(id as i64),
                Err(e) => MenuAction::NoNumber(e),
            },
        ),
        MenuStage::Delete => (
            MenuStage::Choice,
            match number {
                Ok(id) => MenuAction::Delete(id as i64),
                Err(e) => MenuAction::NoNumber(e),
            },
        ),
    }
}

fn choice(text: &str) -> (r: (MenuStage, MenuAction))
    ensures
        r == choice_spec(text@),
{
    if str_eq(text, "10") {
        return (MenuStage::Add, MenuAction::Ask);
    }
    if str_eq(text, "11") {
        return (MenuStage::Delete, MenuAction::Ask);
    }
    let action = if str_eq(text, "0") {
        MenuAction::Leave
    } else if str_eq(text, "1") {
        MenuAction::Configure
    } else if str_eq(text, "2") {
        MenuAction::Show
    } else if str_eq(text, "3") {
        MenuAction::UpdateCache
    } else if str_eq(text, "4") {
        MenuAction::Reset
    } else if str_eq(text, "5") {
        MenuAction::Service(ServiceAction::Start)
    } else if str_eq(text, "6") {
        MenuAction::Service(ServiceAction::Stop)
    } else if str_eq(text, "7") {
        MenuAction::Service(ServiceAction::Restart)
    } else if str_eq(text, "8") {
        MenuAction::Service(ServiceAction::Enable)
    } else if str_eq(text, "9") {
        MenuAction::Service(ServiceAction::Disable)
    } else if str_eq(text, "12") {
        MenuAction::List
    } else if str_eq(text, "13") {
        MenuAction::Clear
    } else {
        MenuAction::Unknown
    };
    (MenuStage::Choice, action)
}

/// The number on a line, with white space around it or not, or why there is none.
pub fn read_tg_id(line: &str) -> (r: Result<i64, NumberError>)
    ensures
        read_i64_spec(trim_spec(line@)) == (match r {
            Ok(id) => Ok::<int, NumberError>(id as int),
            Err(e) => Err::<int, NumberError>(e),
        }),
{
    parse_i64(trim(line))
}

/// What a line that is typed brings about: what is asked for next, and what is to
/// be done before.
pub fn menu_step(stage: MenuStage, line: &str) -> (r: (MenuStage, MenuAction))
    ensures
        r == menu_spec(stage, line@),
{
    match stage {
        MenuStage::Choice => choice(trim(line)),
        MenuStage::Add => match read_tg_id(line) {
            Ok(id) => (MenuStage::Choice, MenuAction::Add(id)),
            Err(e) => (MenuStage::Choice, MenuAction::NoNumber(e)),
        },
        MenuStage::Delete => match read_tg_id(line) {
            Ok(id) => (MenuStage::Choice, MenuAction::Delete(id)),
            Err(e) => (MenuStage::Choice, MenuAction::NoNumber(e)),
        },
    }
}

/// What stands in front of the place where a line is typed.
pub fn prompt(stage: MenuStage) -> (r: &'static str)
    ensures
        r@ == (match stage {
            MenuStage::Choice => CHOICE_PROMPT@,
            MenuStage::Add => "请输入要添加的 Telegram 数字 ID: "@,
            MenuStage::Delete => "请输入要删除的 Telegram 数字 ID: "@,
        }),
{
    match stage {
        MenuStage::Choice => CHOICE_PROMPT,
        MenuStage::Add => "请输入要添加的 Telegram 数字 ID: ",
        MenuStage::Delete => "请输入要删除的 Telegram 数字 ID: ",
    }
}

/// What is said once something has been done, if anything. `count` is how many
/// numbers were on the list that no longer are.
pub open spec fn report_spec(action: MenuAction, count: nat) -> Option<Seq<char>> {
    match action {
        MenuAction::UpdateCache => Some("本地 UBI 缓存已更新"@),
        MenuAction::Reset => Some("验证数据已重置"@),
        MenuAction::Service(ServiceAction::Start) => Some("服务已启动"@),
        MenuAction::Service(ServiceAction::Stop) => Some("服务已停止"@),
        MenuAction::Service(ServiceAction::Restart) => Some("服务已重启"@),
        MenuAction::Service(ServiceAction::Enable) => Some("已设置开机自启"@),
        MenuAction::Service(ServiceAction::Disable) => Some("已关闭开机自启"@),
        MenuAction::Add(id) => Some(added_spec(id)),
        MenuAction::Delete(id) => Some(deleted_spec(count, id)),
        MenuAction::Clear => Some(cleared_spec(count)),
        MenuAction::Unknown => Some("输入无效"@),
        MenuAction::NoNumber(_) => Some("请输入 Telegram 数字 ID"@),
        _ => None,
    }
}

/// What is said once something has been done, if anything.
pub fn report(action: MenuAction, count: usize) -> (r: Option<String>)
    ensures
        report_spec(action, count as nat) == (match r {
            Some(text) => Some(text@),
            None => None,
        }),
{
    match action {
        MenuAction::UpdateCache => Some("本地 UBI 缓存已更新".to_owned()),
        MenuAction::Reset => Some("验证数据已重置".to_owned()),
        MenuAction::Service(service) => Some(service.done()),
        MenuAction::Add(id) => Some(added_text(id)),
        MenuAction::Delete(id) => Some(deleted_text(count, id)),
        MenuAction::Clear => Some(cleared_text(count)),
        MenuAction::Unknown => Some("输入无效".to_owned()),
        MenuAction::NoNumber(_) => Some("请输入 Telegram 数字 ID".to_owned()),
        _ => None,
    }
}

/// A line counts by its text without the white space around it alone.
pub proof fn law_line_is_trimmed(stage: MenuStage, line: Seq<char>, other: Seq<char>)
    requires
        trim_spec(line) == trim_spec(other),
    ensures
        menu_spec(stage, line) == menu_spec(stage, other),
{
}

/// A number that is asked for and typed, with or without white space around it, is
/// let in or no longer let in; what is no number ends the menu. Then the menu asks
/// for a choice again.
pub proof fn law_typed_number_is_used(line: Seq<char>, id: i64)
    ensures
        trim_spec(line) == decimal(id as int) ==> menu_spec(MenuStage::Add, line) == (
            MenuStage::Choice,
            MenuAction::Add(id),
        ) && menu_spec(MenuStage::Delete, line) == (MenuStage::Choice, MenuAction::Delete(id)),
        parse_i64_spec(trim_spec(line)) is None ==> menu_spec(MenuStage::Add, line).1 is NoNumber
            && menu_spec(MenuStage::Delete, line).1 is NoNumber,
{
    law_decimal_reads_back(id as int, i64::MIN as int, i64::MAX as int);
}

/// Each of the fourteen numbers, with or without white space around it, is a
/// choice of its own, and nothing else is a choice.
pub proof fn law_choices(line: Seq<char>)
    ensures
        ({
            let text = trim_spec(line);
            let choice = menu_spec(MenuStage::Choice, line);
            &&& text == decimal_nat(0) <==> choice.1 is Leave
            &&& text == decimal_nat(1) <==> choice.1 is Configure
            &&& text == decimal_nat(2) <==> choice.1 is Show
            &&& text == decimal_nat(3) <==> choice.1 is UpdateCache
            &&& text == decimal_nat(4) <==> choice.1 is Reset
            &&& text == decimal_nat(5) <==> choice.1 == MenuAction::Service(ServiceAction::Start)
            &&& text == decimal_nat(6) <==> choice.1 == MenuAction::Service(ServiceAction::Stop)
            &&& text == decimal_nat(7) <==> choice.1 == MenuAction::Service(
                ServiceAction::Restart,
            )
            &&& text == decimal_nat(8) <==> choice.1 == MenuAction::Service(ServiceAction::Enable)
            &&& text == decimal_nat(9) <==> choice.1 == MenuAction::Service(
                ServiceAction::Disable,
            )
            &&& text == decimal_nat(10) <==> choice == (MenuStage::Add, MenuAction::Ask)
            &&& text == decimal_nat(11) <==> choice == (MenuStage::Delete, MenuAction::Ask)
            &&& text == decimal_nat(12) <==> choice.1 is List
            &&& text == decimal_nat(13) <==> choice.1 is Clear
            &&& !(choice.1 is Ask) ==> choice.0 is Choice
        }),
{
    reveal_with_fuel(decimal_nat, 3);
    reveal_strlit("0");
    reveal_strlit("1");
    reveal_strlit("2");
    reveal_strlit("3");
    reveal_strlit("4");
    reveal_strlit("5");
    reveal_strlit("6");
    reveal_strlit("7");
    reveal_strlit("8");
    reveal_strlit("9");
    reveal_strlit("10");
    reveal_strlit("11");
    reveal_strlit("12");
    reveal_strlit("13");
    assert(decimal_nat(0) =~= "0"@ && decimal_nat(1) =~= "1"@ && decimal_nat(2) =~= "2"@);
    assert(decimal_nat(3) =~= "3"@ && decimal_nat(4) =~= "4"@ && decimal_nat(5) =~= "5"@);
    assert(decimal_nat(6) =~= "6"@ && decimal_nat(7) =~= "7"@ && decimal_nat(8) =~= "8"@);
    assert(decimal_nat(9) =~= "9"@ && decimal_nat(10) =~= "10"@ && decimal_nat(11) =~= "11"@);
    assert(decimal_nat(12) =~= "12"@ && decimal_nat(13) =~= "13"@);
    lemma_numbers_differ();
}

/// The numbers of the choices differ.
proof fn lemma_numbers_differ()
    ensures
        forall|i: nat, j: nat| i != j ==> #[trigger] decimal_nat(i) != #[trigger] decimal_nat(j),
{
    assert forall|i: nat, j: nat| i != j implies #[trigger] decimal_nat(i)
        != #[trigger] decimal_nat(j) by {
        lemma_decimal_nat(i);
        lemma_decimal_nat(j);
    }
}

/// What was done to the list is reported with the user that it was done to, or with
/// how many there were.
pub proof fn law_list_is_reported(id: i64, count: nat)
    ensures
        report_spec(MenuAction::Add(id), count) == Some(
            "已添加白名单 TG ID: "@ + decimal(id as int),
        ),
        report_spec(MenuAction::Delete(id), 0) == Some(
            "白名单中没有 TG ID: "@ + decimal(id as int),
        ),
        count > 0 ==> report_spec(MenuAction::Delete(id), count) == Some(
            "已删除白名单 TG ID: "@ + decimal(id as int),
        ),
        report_spec(MenuAction::Clear, count) == Some(
            "已删除全部白名单 TG ID，共 "@ + decimal_nat(count) + " 个"@,
        ),
{
}

} // verus!
