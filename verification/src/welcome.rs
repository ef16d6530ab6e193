//! The text that greets a new member.

use vstd::prelude::*;
use crate::json::{field_spec, text_or_empty, Json, JsonView};
use crate::text::{
    has_prefix, law_replace_absent, law_replace_first, occurs, replace, replace_spec,
};

verus! {

/// The name of a member: first and last name with a space between them, the one
/// that there is, or else the user name.
pub open spec fn fullname_spec(member: JsonView) -> Seq<char> {
    let first = text_or_empty(field_spec(member, "first_name"@));
    let last = text_or_empty(field_spec(member, "last_name"@));
    if first.len() > 0 && last.len() > 0 {
        first + " "@ + last
    } else if first.len() > 0 {
        first
    } else if last.len() > 0 {
        last
    } else {
        text_or_empty(field_spec(member, "username"@))
    }
}

/// The greeting for a member: the template with the member's name in place of
/// each `{fullname}`.
pub open spec fn welcome_spec(template: Seq<char>, member: JsonView) -> Seq<char> {
    replace_spec(template, "{fullname}"@, fullname_spec(member))
}

/// The greeting for a member: the template with the member's name in place of
/// each `{fullname}`.
pub fn welcome_text(template: &str, member: &Json) -> (r: String)
    ensures
        r@ == welcome_spec(template@, member@),
{
    let first = member.field("first_name").str_or_empty();
    let last = member.field("last_name").str_or_empty();
    let fullname: String = if !first.is_empty() && !last.is_empty() {
        let mut both = first.to_owned();
        both.append(" ");
        both.append(last);
        both
    } else if !first.is_empty() {
        first.to_owned()
    } else if !last.is_empty() {
        last.to_owned()
    } else {
        member.field("username").str_or_empty().to_owned()
    };
    proof {
        reveal_strlit("{fullname}");
    }
    replace(template, "{fullname}", fullname.as_str())
}

/// A template that does not speak of the name greets everybody alike.
pub proof fn law_template_without_name(template: Seq<char>, member: JsonView)
    requires
        !occurs(template, "{fullname}"@),
    ensures
        welcome_spec(template, member) == template,
{
    reveal_strlit("{fullname}");
    law_replace_absent(template, "{fullname}"@, fullname_spec(member));
}

/// The first `{fullname}` of a template gives way to the name of the member, what
/// stands before it stays, and what stands behind it is dealt with alike.
pub proof fn law_name_is_put_in(before: Seq<char>, after: Seq<char>, member: JsonView)
    requires
        forall|i: int| 0 <= i < before.len() ==> #[trigger] before[i] != '{',
    ensures
        welcome_spec(before + "{fullname}"@ + after, member) == before + fullname_spec(member)
            + welcome_spec(after, member),
{
    reveal_strlit("{fullname}");
    let whole = before + "{fullname}"@ + after;
    assert forall|i: int| 0 <= i < before.len() implies !has_prefix(
        #[trigger] whole.skip(i),
        "{fullname}"@,
    ) by {
        if has_prefix(whole.skip(i), "{fullname}"@) {
            assert(whole.skip(i).take(10)[0] == before[i]);
        }
    }
    law_replace_first(before, "{fullname}"@, after, fullname_spec(member));
}

/// A member is called by first and last name, with a space between them, by the
/// one of the two that there is, or else by the user name, if there is one.
pub proof fn law_fullname(member: JsonView, first: Seq<char>, last: Seq<char>, user: Seq<char>)
    requires
        first.len() > 0,
        last.len() > 0,
    ensures
        ({
            let f = field_spec(member, "first_name"@);
            let l = field_spec(member, "last_name"@);
            let u = field_spec(member, "username"@);
            let no_first = !(f is Str) || f == JsonView::Str(Seq::empty());
            let no_last = !(l is Str) || l == JsonView::Str(Seq::empty());
            &&& f == JsonView::Str(first) && l == JsonView::Str(last) ==> fullname_spec(member)
                == first + " "@ + last
            &&& f == JsonView::Str(first) && no_last ==> fullname_spec(member) == first
            &&& no_first && l == JsonView::Str(last) ==> fullname_spec(member) == last
            &&& no_first && no_last && u == JsonView::Str(user) ==> fullname_spec(member) == user
            &&& no_first && no_last && !(u is Str) ==> fullname_spec(member).len() == 0
        }),
{
}

} // verus!
