//! The registration commands that a new member answers with.

use vstd::prelude::*;
use crate::number::{all_digits, decimal_nat, is_digit};
use crate::pattern::{
    captures, class_matches, class_supported, class_text, classes_text, holds_groups, in_class,
    is_alphanumeric, lemma_single_class, part_supported, part_text, parts_text, pattern_text,
    regex_captures, repeat_text, supported, Class, Part, Repeat,
};

verus! {

/// An activation key: 20 to 45 ASCII letters, digits and hyphens.
pub open spec fn valid_key(key: Seq<char>) -> bool {
    20 <= key.len() <= 45 && forall|i: int|
        0 <= i < key.len() ==> is_alphanumeric(#[trigger] key[i]) || key[i] == '-'
}

/// An organization: 1 to 12 ASCII digits.
pub open spec fn valid_org(org: Seq<char>) -> bool {
    1 <= org.len() <= 12 && all_digits(org)
}

/// The command of `rhc` that registers with a key and an organization.
pub open spec fn rhc_command(key: Seq<char>, org: Seq<char>) -> Seq<char> {
    "rhc connect --activation-key="@ + key + " --organization="@ + org
}

/// The command of `subscription-manager` that does the same.
pub open spec fn manager_command(key: Seq<char>, org: Seq<char>) -> Seq<char> {
    "subscription-manager register --activationkey="@ + key + " --org="@ + org
}

/// Whether `text` is one of the two commands for a valid key and organization.
pub open spec fn registers(text: Seq<char>, key: Seq<char>, org: Seq<char>) -> bool {
    &&& valid_key(key)
    &&& valid_org(org)
    &&& text == rhc_command(key, org) || text == manager_command(key, org)
}

/// The key and the organization that `text` registers with, if it is one of the
/// two commands.
pub open spec fn credentials_spec(text: Seq<char>) -> Option<(Seq<char>, Seq<char>)> {
    if exists|key: Seq<char>, org: Seq<char>| registers(text, key, org) {
        Some(choose|both: (Seq<char>, Seq<char>)| registers(text, both.0, both.1))
    } else {
        None
    }
}

/// The parts of a command: a text, the key, a text, the organization.
spec fn command_parts(head: Seq<char>, middle: Seq<char>) -> Seq<Part> {
    seq![
        Part::Text(head),
        Part::Group(seq![Class { members: "A-Za-z0-9-"@, repeat: Repeat::Between(20, 45) }]),
        Part::Text(middle),
        Part::Group(seq![Class { members: "0-9"@, repeat: Repeat::Between(1, 12) }]),
    ]
}

proof fn lemma_key_class(c: char)
    ensures
        in_class("A-Za-z0-9-"@, c) == (is_alphanumeric(c) || c == '-'),
        class_supported("A-Za-z0-9-"@),
        "A-Za-z0-9-"@.len() == 10,
{
    reveal_strlit("A-Za-z0-9-");
    reveal_with_fuel(in_class, 5);
    reveal_with_fuel(class_supported, 5);
}

proof fn lemma_org_class(c: char)
    ensures
        in_class("0-9"@, c) == is_digit(c),
        class_supported("0-9"@),
        "0-9"@.len() == 3,
{
    reveal_strlit("0-9");
    reveal_with_fuel(in_class, 2);
    reveal_with_fuel(class_supported, 2);
}

/// A text matches a command's parts where it is the command for a valid key and
/// organization, and then these are the groups.
proof fn lemma_command_captures(
    head: Seq<char>,
    middle: Seq<char>,
    s: Seq<char>,
    groups: Seq<Seq<char>>,
)
    ensures
        captures(command_parts(head, middle), s, groups) <==> {
            &&& groups.len() == 2
            &&& valid_key(groups[0])
            &&& valid_org(groups[1])
            &&& s == head + groups[0] + middle + groups[1]
        },
{
    let parts = command_parts(head, middle);
    let key_class = Class { members: "A-Za-z0-9-"@, repeat: Repeat::Between(20, 45) };
    let org_class = Class { members: "0-9"@, repeat: Repeat::Between(1, 12) };
    let s1 = s.skip(head.len() as int);
    let s2 = s1.skip(groups[0].len() as int);
    let s3 = s2.skip(middle.len() as int);
    reveal_with_fuel(captures, 5);
    assert(parts.skip(1).skip(1).skip(1).skip(1).len() == 0);
    assert(parts.skip(1)[0] == parts[1]);
    assert(parts.skip(1).skip(1)[0] == parts[2]);
    assert(parts.skip(1).skip(1).skip(1)[0] == parts[3]);
    lemma_single_class(key_class, groups[0]);
    lemma_single_class(org_class, groups[1]);
    assert(class_matches(key_class, groups[0]) == valid_key(groups[0])) by {
        assert forall|i: int| 0 <= i < groups[0].len() implies in_class(
            key_class.members,
            #[trigger] groups[0][i],
        ) == (is_alphanumeric(groups[0][i]) || groups[0][i] == '-') by {
            lemma_key_class(groups[0][i]);
        }
    }
    assert(class_matches(org_class, groups[1]) == valid_org(groups[1])) by {
        assert forall|i: int| 0 <= i < groups[1].len() implies in_class(
            org_class.members,
            #[trigger] groups[1][i],
        ) == is_digit(groups[1][i]) by {
            lemma_org_class(groups[1][i]);
        }
    }
    if captures(parts, s, groups) {
        assert(groups.skip(1)[0] == groups[1]);
        assert(s3.skip(groups[1].len() as int).len() == 0);
        assert(s =~= head + s1);
        assert(s1 =~= groups[0] + s2);
        assert(s2 =~= middle + s3);
        assert(s3 =~= groups[1]);
        assert(s =~= head + groups[0] + middle + groups[1]);
    }
    if groups.len() == 2 && valid_key(groups[0]) && valid_org(groups[1]) && s == head + groups[0]
        + middle + groups[1] {
        assert(groups.skip(1)[0] == groups[1]);
        assert(s.take(head.len() as int) =~= head);
        assert(s1 =~= groups[0] + middle + groups[1]);
        assert(s1.take(groups[0].len() as int) =~= groups[0]);
        assert(s2 =~= middle + groups[1]);
        assert(s2.take(middle.len() as int) =~= middle);
        assert(s3 =~= groups[1]);
        assert(s3.take(groups[1].len() as int) =~= groups[1]);
        assert(groups.skip(1).skip(1).len() == 0);
    }
}

/// How a command's parts are written as a pattern.
proof fn lemma_command_text(head: Seq<char>, middle: Seq<char>)
    ensures
        pattern_text(command_parts(head, middle)) == "^"@ + head + "([A-Za-z0-9-]{20,45})"@ + middle
            + "([0-9]{1,12})$"@,
{
    let parts = command_parts(head, middle);
    let key_class = Class { members: "A-Za-z0-9-"@, repeat: Repeat::Between(20, 45) };
    let org_class = Class { members: "0-9"@, repeat: Repeat::Between(1, 12) };
    reveal_strlit("^");
    reveal_strlit("A-Za-z0-9-");
    reveal_strlit("0-9");
    reveal_strlit("([A-Za-z0-9-]{20,45})");
    reveal_strlit("([0-9]{1,12})$");
    reveal_with_fuel(decimal_nat, 3);
    reveal_with_fuel(parts_text, 5);
    reveal_with_fuel(classes_text, 2);
    assert(parts.skip(1).skip(1).skip(1).skip(1).len() == 0);
    assert(parts.skip(1)[0] == parts[1]);
    assert(parts.skip(1).skip(1)[0] == parts[2]);
    assert(parts.skip(1).skip(1).skip(1)[0] == parts[3]);
    assert(decimal_nat(20) =~= seq!['2', '0']);
    assert(decimal_nat(45) =~= seq!['4', '5']);
    assert(decimal_nat(1) =~= seq!['1']);
    assert(decimal_nat(12) =~= seq!['1', '2']);
    assert(repeat_text(key_class.repeat) =~= seq!['{', '2', '0', ',', '4', '5', '}']);
    assert(repeat_text(org_class.repeat) =~= seq!['{', '1', ',', '1', '2', '}']);
    assert(class_text(key_class) =~= seq![
        '[',
        'A',
        '-',
        'Z',
        'a',
        '-',
        'z',
        '0',
        '-',
        '9',
        '-',
        ']',
        '{',
        '2',
        '0',
        ',',
        '4',
        '5',
        '}',
    ]);
    assert(class_text(org_class) =~= seq!['[', '0', '-', '9', ']', '{', '1', ',', '1', '2', '}']);
    assert(classes_text(seq![key_class]) =~= class_text(key_class));
    assert(classes_text(seq![org_class]) =~= class_text(org_class));
    assert(part_text(parts[1]) =~= "([A-Za-z0-9-]{20,45})"@);
    assert(part_text(parts[3]) + seq!['$'] =~= "([0-9]{1,12})$"@);
    assert(pattern_text(parts) =~= "^"@ + head + "([A-Za-z0-9-]{20,45})"@ + middle + (part_text(
        parts[3],
    ) + seq!['$']));
}

/// Whether a text holds no space.
spec fn spaceless(s: Seq<char>) -> bool {
    forall|i: int| 0 <= i < s.len() ==> #[trigger] s[i] != ' '
}

/// A text that is a command for a key and an organization without spaces is one
/// for no other texts.
proof fn lemma_one_reading(
    head: Seq<char>,
    middle: Seq<char>,
    k1: Seq<char>,
    o1: Seq<char>,
    k2: Seq<char>,
    o2: Seq<char>,
)
    requires
        spaceless(k2),
        spaceless(o2),
        middle.len() > 0,
        middle[0] == ' ',
        spaceless(middle.skip(1)),
        head + k1 + middle + o1 == head + k2 + middle + o2,
    ensures
        k1 == k2,
        o1 == o2,
{
    let s1 = head + k1 + middle + o1;
    let s2 = head + k2 + middle + o2;
    let h = head.len() as int;
    let at = h + k1.len();
    assert(s1.len() == s2.len());
    assert(s1[at] == ' ');
    if k1.len() < k2.len() {
        assert(s2[at] == k2[k1.len() as int]);
        assert(false);
    }
    if k2.len() < k1.len() {
        let m = at - h - k2.len();
        if m < middle.len() {
            assert(s2[at] == middle[m]);
            assert(middle.skip(1)[m - 1] == middle[m]);
        } else {
            assert(s2[at] == o2[m - middle.len()]);
        }
        assert(false);
    }
    assert forall|i: int| 0 <= i < k1.len() implies k1[i] == k2[i] by {
        assert(s1[h + i] == k1[i]);
        assert(s2[h + i] == k2[i]);
    }
    assert(k1 =~= k2);
    let m = h + k1.len() + middle.len();
    assert(o1 =~= s1.skip(m as int));
    assert(o2 =~= s2.skip(m as int));
}

/// What stands between the key and the organization begins with its only space.
proof fn lemma_middles()
    ensures
        " --organization="@.len() > 0,
        " --organization="@[0] == ' ',
        spaceless(" --organization="@.skip(1)),
        " --org="@.len() > 0,
        " --org="@[0] == ' ',
        spaceless(" --org="@.skip(1)),
{
    reveal_strlit(" --organization=");
    reveal_strlit(" --org=");
}

/// A command for two texts registers with no others.
proof fn lemma_registers_only(key: Seq<char>, org: Seq<char>, k: Seq<char>, o: Seq<char>)
    ensures
        registers(rhc_command(key, org), k, o) ==> k == key && o == org,
        registers(manager_command(key, org), k, o) ==> k == key && o == org,
{
    lemma_middles();
    lemma_commands_differ(key, org, k, o);
    lemma_commands_differ(k, o, key, org);
    if valid_key(k) && valid_org(o) {
        assert forall|i: int| 0 <= i < o.len() implies #[trigger] o[i] != ' ' by {
            assert(is_digit(o[i]));
        }
        if rhc_command(key, org) == rhc_command(k, o) {
            lemma_one_reading(
                "rhc connect --activation-key="@,
                " --organization="@,
                key,
                org,
                k,
                o,
            );
        }
        if manager_command(key, org) == manager_command(k, o) {
            lemma_one_reading(
                "subscription-manager register --activationkey="@,
                " --org="@,
                key,
                org,
                k,
                o,
            );
        }
    }
}

/// A text that begins with one of the two commands does not begin with the other.
proof fn lemma_commands_differ(k1: Seq<char>, o1: Seq<char>, k2: Seq<char>, o2: Seq<char>)
    ensures
        rhc_command(k1, o1) != manager_command(k2, o2),
{
    reveal_strlit("rhc connect --activation-key=");
    reveal_strlit("subscription-manager register --activationkey=");
    assert(rhc_command(k1, o1)[0] == 'r');
    assert(manager_command(k2, o2)[0] == 's');
}

/// The key and the organization of a command that begins with `head` and has
/// `middle` between the two.
fn read_command(head: &str, middle: &str, text: &str) -> (r: Option<(String, String)>)
    requires
        part_supported(Part::Text(head@)),
        part_supported(Part::Text(middle@)),
        head@.len() + middle@.len() <= 100,
    ensures
        match r {
            Some((key, org)) => {
                &&& valid_key(key@)
                &&& valid_org(org@)
                &&& text@ == head@ + key@ + middle@ + org@
            },
            None => forall|key: Seq<char>, org: Seq<char>|
                valid_key(key) && valid_org(org) ==> text@ != #[trigger] (head@ + key + middle@
                    + org),
        },
{
    let mut pattern = String::new();
    pattern.append("^");
    pattern.append(head);
    pattern.append("([A-Za-z0-9-]{20,45})");
    pattern.append(middle);
    pattern.append("([0-9]{1,12})$");
    let ghost parts = command_parts(head@, middle@);
    proof {
        lemma_command_text(head@, middle@);
        assert(pattern@ =~= pattern_text(parts));
        reveal_strlit("^");
        reveal_strlit("([A-Za-z0-9-]{20,45})");
        reveal_strlit("([0-9]{1,12})$");
        lemma_key_class('0');
        lemma_org_class('0');
        assert(supported(parts));
    }
    let found = match regex_captures(pattern.as_str(), text) {
        Ok(Some(found)) => found,
        Ok(None) => {
            proof {
                assert forall|key: Seq<char>, org: Seq<char>|
                    valid_key(key) && valid_org(org) implies text@ != #[trigger] (head@ + key
                    + middle@ + org) by {
                    lemma_command_captures(head@, middle@, text@, seq![key, org]);
                }
            }
            return None;
        },
        Err(_) => {
            return None;
        },
    };
    proof {
        let groups = choose|groups: Seq<Seq<char>>|
            #[trigger] captures(parts, text@, groups) && holds_groups(
                found@,
                text@,
                groups,
            );
        lemma_command_captures(head@, middle@, text@, groups);
        assert(found@[1] is Some && found@[1]->0@ == groups[0]);
        assert(found@[2] is Some && found@[2]->0@ == groups[1]);
    }
    match (&found[1], &found[2]) {
        (Some(key), Some(org)) => Some((key.clone(), org.clone())),
        _ => None,
    }
}

/// The activation key and the organization of a registration command, in either
/// of its two forms.
pub fn verification_credentials(text: &str) -> (r: Option<(String, String)>)
    ensures
        match r {
            Some((key, org)) => registers(text@, key@, org@),
            None => forall|key: Seq<char>, org: Seq<char>| !registers(text@, key, org),
        },
        credentials_spec(text@) == (match r {
            Some((key, org)) => Some((key@, org@)),
            None => None,
        }),
{
    proof {
        reveal_strlit("rhc connect --activation-key=");
        reveal_strlit(" --organization=");
        reveal_strlit("subscription-manager register --activationkey=");
        reveal_strlit(" --org=");
    }
    let r = match read_command("rhc connect --activation-key=", " --organization=", text) {
        Some(found) => Some(found),
        None => read_command("subscription-manager register --activationkey=", " --org=", text),
    };
    proof {
        if r is Some {
            let both = r->0;
            law_credentials_found(text@, both.0@, both.1@);
        }
    }
    r
}

/// A command for a valid key and organization is read as these.
pub proof fn law_credentials_found(text: Seq<char>, key: Seq<char>, org: Seq<char>)
    requires
        registers(text, key, org),
    ensures
        credentials_spec(text) == Some((key, org)),
{
    let both = (key, org);
    assert(registers(text, both.0, both.1));
    let found = choose|both: (Seq<char>, Seq<char>)| registers(text, both.0, both.1);
    law_credentials_unique(text, key, org, found.0, found.1);
}

/// What a registration command registers with is determined by its text.
pub proof fn law_credentials_unique(
    text: Seq<char>,
    k1: Seq<char>,
    o1: Seq<char>,
    k2: Seq<char>,
    o2: Seq<char>,
)
    requires
        registers(text, k1, o1),
        registers(text, k2, o2),
    ensures
        k1 == k2,
        o1 == o2,
{
    lemma_registers_only(k1, o1, k2, o2);
}

/// For every two texts both forms of the command are read in the same way: as
/// just these texts where they are a valid key and a valid organization, and else
/// not at all.
pub proof fn law_both_forms_agree(key: Seq<char>, org: Seq<char>)
    ensures
        credentials_spec(rhc_command(key, org)) == (if valid_key(key) && valid_org(org) {
            Some((key, org))
        } else {
            None
        }),
        credentials_spec(manager_command(key, org)) == credentials_spec(rhc_command(key, org)),
{
    if valid_key(key) && valid_org(org) {
        law_credentials_found(rhc_command(key, org), key, org);
        law_credentials_found(manager_command(key, org), key, org);
    } else {
        assert forall|k: Seq<char>, o: Seq<char>| !registers(rhc_command(key, org), k, o)
            && !registers(manager_command(key, org), k, o) by {
            lemma_registers_only(key, org, k, o);
        }
    }
}

/// A registration command is read just if the key has twenty to forty-five ASCII
/// letters, digits and hyphens and the organization has one to twelve digits, and
/// then as these, whichever of the two forms it has.
pub proof fn law_what_is_read(key: Seq<char>, org: Seq<char>)
    ensures
        ({
            let fits = 20 <= key.len() <= 45 && 1 <= org.len() <= 12 && (forall|i: int|
                0 <= i < key.len() ==> 'a' <= (#[trigger] key[i]) <= 'z' || 'A' <= key[i] <= 'Z'
                    || '0' <= key[i] <= '9' || key[i] == '-') && (forall|i: int|
                0 <= i < org.len() ==> '0' <= (#[trigger] org[i]) <= '9');
            let rhc = "rhc connect --activation-key="@ + key + " --organization="@ + org;
            let manager = "subscription-manager register --activationkey="@ + key + " --org="@
                + org;
            &&& fits ==> credentials_spec(rhc) == Some((key, org)) && credentials_spec(manager)
                == Some((key, org))
            &&& !fits ==> credentials_spec(rhc) is None && credentials_spec(manager) is None
        }),
{
    law_both_forms_agree(key, org);
    assert(valid_key(key) <==> (20 <= key.len() <= 45 && forall|i: int|
        0 <= i < key.len() ==> 'a' <= (#[trigger] key[i]) <= 'z' || 'A' <= key[i] <= 'Z' || '0'
            <= key[i] <= '9' || key[i] == '-'));
    assert(valid_org(org) <==> (1 <= org.len() <= 12 && forall|i: int|
        0 <= i < org.len() ==> '0' <= (#[trigger] org[i]) <= '9')) by {
        if forall|i: int| 0 <= i < org.len() ==> '0' <= (#[trigger] org[i]) <= '9' {
            assert(all_digits(org));
        }
        if all_digits(org) {
            assert forall|i: int| 0 <= i < org.len() implies '0' <= (#[trigger] org[i]) <= '9' by {
                assert(is_digit(org[i]));
            }
        }
    }
}

/// Nothing but a registration command is read.
pub proof fn law_only_commands_are_read(text: Seq<char>)
    ensures
        credentials_spec(text) matches Some(both) ==> text == "rhc connect --activation-key="@
            + both.0 + " --organization="@ + both.1 || text
            == "subscription-manager register --activationkey="@ + both.0 + " --org="@ + both.1,
{
    if credentials_spec(text) is Some {
        let (key, org) = choose|key: Seq<char>, org: Seq<char>| registers(text, key, org);
        law_credentials_found(text, key, org);
    }
}

} // verus!
