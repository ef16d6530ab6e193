use rhc_bot::credentials::verification_credentials;

#[test]
fn accepts_and_normalizes_both_verification_commands() {
    let key = "es9s5n3d-90a3-052d-s1km-s03b6ds7a013";
    let expected = Some((key.to_owned(), "19736027".to_owned()));
    assert_eq!(
        verification_credentials(&format!(
            "rhc connect --activation-key={key} --organization=19736027"
        )),
        expected
    );
    assert_eq!(
        verification_credentials(&format!(
            "subscription-manager register --activationkey={key} --org=19736027"
        )),
        expected
    );
}

const KEY: &str = "abcdefghij0123456789";

fn rhc(key: &str, org: &str) -> Option<(String, String)> {
    verification_credentials(&format!("rhc connect --activation-key={key} --organization={org}"))
}

fn manager(key: &str, org: &str) -> Option<(String, String)> {
    verification_credentials(&format!(
        "subscription-manager register --activationkey={key} --org={org}"
    ))
}

#[test]
fn both_commands_give_the_same_credentials() {
    for (key, org) in [(KEY, "1"), ("A-------------------", "000000000000")] {
        assert_eq!(rhc(key, org), Some((key.to_owned(), org.to_owned())));
        assert_eq!(rhc(key, org), manager(key, org));
    }
    for (key, org) in [
        ("short", "1"),
        (KEY, "1 --organization=2"),
        ("abcdefghij0123456789 --organization=1", "2"),
        ("abcdefghij0123456789 --org=1", "2"),
    ] {
        assert_eq!(rhc(key, org), None);
        assert_eq!(manager(key, org), None);
    }
}

#[test]
fn keys_have_twenty_to_forty_five_characters() {
    assert_eq!(rhc(&"a".repeat(19), "1"), None);
    assert!(rhc(&"a".repeat(20), "1").is_some());
    assert!(manager(&"Z".repeat(45), "1").is_some());
    assert_eq!(manager(&"Z".repeat(46), "1"), None);
    assert_eq!(rhc("abcdefghij_123456789", "1"), None);
    assert_eq!(rhc("äbcdefghij0123456789", "1"), None);
}

#[test]
fn organizations_have_one_to_twelve_digits() {
    assert_eq!(rhc(KEY, ""), None);
    assert!(rhc(KEY, "123456789012").is_some());
    assert_eq!(rhc(KEY, "1234567890123"), None);
    assert_eq!(manager(KEY, "12a"), None);
    assert_eq!(manager(KEY, "١"), None);
}

#[test]
fn nothing_may_stand_around_a_command() {
    assert_eq!(rhc(KEY, "1 "), None);
    assert_eq!(rhc(KEY, "1\n"), None);
    assert_eq!(rhc(KEY, "1; reboot"), None);
    assert_eq!(
        verification_credentials(&format!(
            " rhc connect --activation-key={KEY} --organization=1"
        )),
        None
    );
    assert_eq!(verification_credentials(""), None);
    assert_eq!(verification_credentials("/start"), None);
}
