use rhc_bot::bot::Job;
use rhc_bot::config::Config;
use rhc_bot::effect::Effect;
use rhc_bot::image::{cache_due, cache_step, Action, CacheStage, ImageError, Outcome};
use rhc_bot::pending::{claim_slot, Pending, PendingRow, StoreOp};
use rhc_bot::verification::{failure_line, release, temporary_name, Attempt, SCRIPT};

fn done(success: bool) -> Outcome {
    Outcome { text: None, success }
}

fn read(text: &str) -> Outcome {
    Outcome { text: Some(text.to_owned()), success: true }
}

fn words(list: &[&str]) -> Vec<String> {
    list.iter().map(|w| w.to_string()).collect()
}

fn podman(action: Action) -> Vec<String> {
    match action {
        Action::Podman(arguments) => arguments,
        other => panic!("{other:?}"),
    }
}

#[test]
fn an_update_is_due_after_the_interval() {
    let marker = |s: &str| Some(s.to_owned());
    assert_eq!(cache_due(&marker("1000"), "1h", 4_599), Some(false));
    assert_eq!(cache_due(&marker("1000"), "1h", 4_600), Some(true));
    assert_eq!(cache_due(&marker("1000"), "1d", 4_600), Some(false));
    assert_eq!(cache_due(&marker("1000"), "soon", 87_399), Some(false));
    assert_eq!(cache_due(&marker("1000"), "soon", 87_400), Some(true));
    assert_eq!(cache_due(&None, "1h", 0), Some(true));
    assert_eq!(cache_due(&marker("1000\n"), "1h", 1_001), Some(true));
    assert_eq!(cache_due(&marker("-1"), "1h", i64::MAX), None);
    assert_eq!(cache_due(&marker("0"), "9223372036854775807h", 0), None);
    assert_eq!(cache_due(&None, "9223372036854775807h", 0), Some(true));
}

#[test]
fn a_forced_update_pulls_and_notes_the_time() {
    let (stage, action) = cache_step(CacheStage::Start, true, &done(false), "img", "1h", 5);
    assert_eq!(podman(action), words(&["pull", "img"]));
    let (stage, action) = cache_step(stage, true, &done(true), "img", "1h", 77);
    assert!(matches!(action, Action::WriteMarker(text) if text == "77"));
    let (stage, action) = cache_step(stage, true, &done(true), "img", "1h", 78);
    assert!(matches!(action, Action::Done(effects) if effects.is_empty()));
    assert_eq!(stage, CacheStage::End);
}

#[test]
fn a_fresh_cache_is_not_pulled() {
    let (stage, action) = cache_step(CacheStage::Start, false, &done(false), "img", "1h", 5);
    assert!(matches!(action, Action::ReadMarker));
    assert_eq!(stage, CacheStage::Marker);
    let (_, action) = cache_step(stage, false, &read("0"), "img", "1h", 3_599);
    assert!(matches!(action, Action::Done(_)));
    let (_, action) = cache_step(stage, false, &read("0"), "img", "1h", 3_600);
    assert_eq!(podman(action), words(&["pull", "img"]));
    let (_, action) = cache_step(stage, false, &read("-2"), "img", "1h", i64::MAX);
    assert!(matches!(action, Action::Abort(_)));
}

#[test]
fn image_errors_have_messages() {
    let (_, action) = cache_step(CacheStage::Pull, false, &done(false), "img", "1h", 5);
    assert!(matches!(action, Action::Fail(ImageError::CachePull)));
    assert_eq!(ImageError::CachePull.message(), "无法更新 UBI 缓存镜像");
    assert_eq!(ImageError::LivePull.message(), "无法实时拉取 UBI 镜像");
    assert_eq!(ImageError::Copy.message(), "无法复制本地 UBI 缓存镜像");
}

fn attempt(mode: &str, failures: i64) -> Attempt {
    let job = Job {
        user: 5,
        chat: -60,
        key: "abcdefghij0123456789".to_owned(),
        org: "42".to_owned(),
        failures,
    };
    let config =
        Config { image: "img".to_owned(), image_mode: mode.to_owned(), ..Config::default() };
    Attempt::new(job, config)
}

fn feed(action: Action) -> (Vec<String>, String) {
    match action {
        Action::Feed { arguments, input } => (arguments, input),
        other => panic!("{other:?}"),
    }
}

#[test]
fn a_live_attempt_that_succeeds() {
    let mut a = attempt("live", 0);
    assert_eq!(podman(a.step(&done(false), 1)), words(&["pull", "img"]));
    let (arguments, input) = feed(a.step(&done(true), 2));
    assert_eq!(arguments, words(&["run", "--rm", "-i", "img", "bash", "-c", SCRIPT]));
    assert_eq!(input, "abcdefghij0123456789\n42\n");
    match a.step(&done(true), 3) {
        Action::Done(effects) => {
            assert_eq!(effects.len(), 3);
            assert!(matches!(&effects[0], Effect::Store(StoreOp::Delete { user: 5, chat: -60 })));
            match &effects[1] {
                Effect::Require(request) => {
                    assert_eq!(request.method, "restrictChatMember");
                    assert_eq!(request.body.field("chat_id").as_i64(), Some(-60));
                    assert_eq!(request.body.field("user_id").as_i64(), Some(5));
                    let permissions = request.body.field("permissions");
                    for name in [
                        "can_send_messages",
                        "can_send_audios",
                        "can_send_documents",
                        "can_send_photos",
                        "can_send_videos",
                        "can_send_video_notes",
                        "can_send_voice_notes",
                        "can_send_polls",
                        "can_send_other_messages",
                        "can_add_web_page_previews",
                        "can_invite_users",
                    ] {
                        assert!(permissions.field(name).is_true(), "{name}");
                    }
                }
                other => panic!("{other:?}"),
            }
            assert!(matches!(&effects[2], Effect::Call(r)
                if r.body.field("text").is_text("验证成功\nVerification successful")));
        }
        other => panic!("{other:?}"),
    }
    assert!(matches!(a.step(&done(true), 4), Action::Done(effects) if effects.is_empty()));
}

#[test]
fn a_live_attempt_that_fails() {
    let mut a = attempt("live", 1);
    a.step(&done(false), 1);
    a.step(&done(true), 2);
    match a.step(&done(false), 3) {
        Action::Done(effects) => {
            assert!(matches!(&effects[1], Effect::Store(StoreOp::Delete { user: 5, chat: -60 })));
            assert!(matches!(&effects[2], Effect::Call(r) if r.method == "banChatMember"));
        }
        other => panic!("{other:?}"),
    }
    let mut b = attempt("live", i64::MAX);
    b.step(&done(false), 1);
    b.step(&done(true), 2);
    assert!(matches!(b.step(&done(false), 3), Action::Abort(effects) if effects.len() == 1));
    let mut c = attempt("live", 0);
    c.step(&done(false), 1);
    assert!(matches!(c.step(&done(false), 2), Action::Fail(ImageError::LivePull)));
}

#[test]
fn a_cached_attempt_uses_a_name_of_its_own() {
    let mut a = attempt("cache", 0);
    assert!(matches!(a.step(&done(false), 1), Action::ReadMarker));
    assert_eq!(podman(a.step(&done(false), 2)), words(&["pull", "img"]));
    assert!(matches!(a.step(&done(true), 3), Action::WriteMarker(text) if text == "3"));
    let name = "localhost/rhc-bot-verify-5--60-9";
    assert_eq!(temporary_name(5, -60, 9), name);
    assert_eq!(podman(a.step(&done(true), 9)), words(&["tag", "img", name]));
    let (arguments, input) = feed(a.step(&done(true), 10));
    assert_eq!(arguments, words(&["run", "--rm", "-i", name, "bash", "-c", SCRIPT]));
    assert_eq!(input, "abcdefghij0123456789\n42\n");
    match a.step(&done(false), 11) {
        Action::TryPodman(arguments) => assert_eq!(arguments, words(&["image", "rm", name])),
        other => panic!("{other:?}"),
    }
    match a.step(&done(true), 12) {
        Action::Done(effects) => assert!(matches!(
            &effects[1],
            Effect::Store(StoreOp::SetFailures { user: 5, chat: -60, failures: 1 })
        )),
        other => panic!("{other:?}"),
    }
}

#[test]
fn a_cached_attempt_may_lack_its_image() {
    let mut a = attempt("cache", 0);
    a.step(&done(false), 1);
    a.step(&done(false), 2);
    assert!(matches!(a.step(&done(false), 3), Action::Fail(ImageError::CachePull)));
    let mut b = attempt("cache", 0);
    b.step(&done(false), 1);
    assert_eq!(podman(b.step(&read("0"), 5)).len(), 3);
    assert!(matches!(b.step(&done(false), 6), Action::Fail(ImageError::Copy)));
}

#[test]
fn credentials_stand_on_no_command_line() {
    for mode in ["live", "cache"] {
        let mut a = attempt(mode, 0);
        let mut outcome = done(true);
        for time in 0..10 {
            match a.step(&outcome, time) {
                Action::Podman(list) | Action::TryPodman(list) => {
                    assert!(list.iter().all(|w| !w.contains("abcdefghij") && !w.contains("42")));
                }
                Action::Feed { arguments, .. } => {
                    assert!(arguments
                        .iter()
                        .all(|w| !w.contains("abcdefghij") && !w.contains("42")));
                }
                _ => {}
            }
            outcome = done(true);
        }
    }
    assert!(SCRIPT.starts_with("read -r KEY && read -r ORG && trap "));
    assert!(SCRIPT.ends_with(
        "subscription-manager register --activationkey=\"$KEY\" --org=\"$ORG\" >/dev/null"
    ));
}

#[test]
fn a_release_undoes_a_claim() {
    let row = PendingRow { user_id: 1, chat_id: 2, deadline: 3, failures: 1, busy: 0 };
    let mut table = Pending::from_rows(&vec![row]);
    assert!(claim_slot(&mut table, 1, 2, 1));
    for effect in release(1, 2) {
        match effect {
            Effect::Store(op) => table.apply(op),
            other => panic!("{other:?}"),
        }
    }
    assert_eq!(table.rows(), &vec![row]);
    assert_eq!(failure_line(1, -2, "x: y"), "verify user=1 chat=-2: x: y");
}

#[test]
fn every_end_of_an_attempt_frees_its_row() {
    let row = PendingRow { user_id: 5, chat_id: -60, deadline: 3, failures: 0, busy: 0 };
    let other = PendingRow { user_id: 6, ..row };
    for (pulled, ran) in [(true, true), (true, false), (false, false)] {
        for failures in [0, 1] {
            let mut table = Pending::from_rows(&vec![PendingRow { failures, ..row }, other]);
            assert!(claim_slot(&mut table, 5, -60, 1));
            let mut a = attempt("live", failures);
            a.step(&done(false), 1);
            let mut action = a.step(&done(pulled), 2);
            if pulled {
                action = a.step(&done(ran), 3);
            }
            let effects = match action {
                Action::Done(effects) => effects,
                Action::Fail(error) => {
                    let failure = a.failure(&error.message());
                    assert_eq!(failure.line, "verify user=5 chat=-60: 无法实时拉取 UBI 镜像");
                    failure.effects
                }
                other => panic!("{other:?}"),
            };
            for effect in effects {
                if let Effect::Store(op) = effect {
                    table.apply(op);
                }
            }
            assert!(table.rows().iter().all(|r| r.busy == 0));
            assert!(table.rows().contains(&other));
            let left = table.rows().iter().find(|r| r.user_id == 5);
            match (pulled, ran, failures) {
                (false, _, _) => assert_eq!(left, Some(&PendingRow { failures, ..row })),
                (true, false, 0) => assert_eq!(left, Some(&PendingRow { failures: 1, ..row })),
                _ => assert_eq!(left, None),
            }
        }
    }
}
