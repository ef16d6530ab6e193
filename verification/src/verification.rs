//! An attempt at a verification: the registration that a member has given is
//! tried in a container.

use vstd::prelude::*;
use crate::bot::{Job, JobView};
use crate::config::{Config, ConfigView};
use crate::credentials::{valid_key, valid_org};
use crate::effect::{
    effects_view, law_second_failure_is_final, lemma_stored_one, lemma_stored_push, no_effects,
    one_effect, push_effect, reject, reject_spec, stored, Effect, EffectView,
};
use crate::image::{
    cache_step, cache_step_spec, no_texts, pull, pull_spec, push_text, Action, ActionView,
    CacheStage, ImageError, Outcome, OutcomeView,
};
use crate::interval::{interval_spec, IntervalError};
use crate::number::{decimal, law_decimal_reads_back, parse_i64_spec, push_i64};
use crate::pending::{
    distinct, has_row, is_row, law_removed_is_gone, with_busy, without, PendingRow, StoreOp,
};
use crate::telegram::{
    law_member_calls, law_permit, law_send, names_member, permit, permit_spec, permits_all, says, send,
    send_spec,
};
use crate::text::{has_prefix, has_suffix, occurs, str_eq, texts};

verus! {

/// What runs in the container. It reads the key and the organization, so that
/// neither stands on a command line outside of it, and undoes the registration.
pub const SCRIPT: &'static str = "read -r KEY && read -r ORG && trap 'subscription-manager unregister >/dev/null 2>&1 || true; subscription-manager clean >/dev/null 2>&1 || true' EXIT && subscription-manager register --activationkey=\"$KEY\" --org=\"$ORG\" >/dev/null";

/// The name under which an attempt that began at a time uses the cached image.
pub open spec fn temporary_spec(user: i64, chat: i64, time: i64) -> Seq<char> {
    "localhost/rhc-bot-verify-"@ + decimal(user as int) + "-"@ + decimal(chat as int) + "-"@
        + decimal(time as int)
}

/// The name under which an attempt that began at a time uses the cached image.
pub fn temporary_name(user: i64, chat: i64, time: i64) -> (r: String)
    ensures
        r@ == temporary_spec(user, chat, time),
{
    let mut out = "localhost/rhc-bot-verify-".to_owned();
    push_i64(&mut out, user);
    out.append("-");
    push_i64(&mut out, chat);
    out.append("-");
    push_i64(&mut out, time);
    out
}

/// The arguments with which `podman` gives an image another name.
pub open spec fn tag_spec(image: Seq<char>, name: Seq<char>) -> Seq<Seq<char>> {
    seq!["tag"@, image, name]
}

fn tag(image: &str, name: &str) -> (r: Vec<String>)
    ensures
        texts(r@) == tag_spec(image@, name@),
{
    let mut out = no_texts();
    push_text(&mut out, "tag");
    push_text(&mut out, image);
    push_text(&mut out, name);
    assert(texts(out@) =~= tag_spec(image@, name@));
    out
}

/// The arguments with which `podman` runs the script in an image.
pub open spec fn run_spec(image: Seq<char>) -> Seq<Seq<char>> {
    seq!["run"@, "--rm"@, "-i"@, image, "bash"@, "-c"@, SCRIPT@]
}

fn run_arguments(image: &str) -> (r: Vec<String>)
    ensures
        texts(r@) == run_spec(image@),
{
    let mut out = no_texts();
    push_text(&mut out, "run");
    push_text(&mut out, "--rm");
    push_text(&mut out, "-i");
    push_text(&mut out, image);
    push_text(&mut out, "bash");
    push_text(&mut out, "-c");
    push_text(&mut out, SCRIPT);
    assert(texts(out@) =~= run_spec(image@));
    out
}

/// The arguments with which `podman` removes an image.
pub open spec fn remove_spec(image: Seq<char>) -> Seq<Seq<char>> {
    seq!["image"@, "rm"@, image]
}

fn remove(image: &str) -> (r: Vec<String>)
    ensures
        texts(r@) == remove_spec(image@),
{
    let mut out = no_texts();
    push_text(&mut out, "image");
    push_text(&mut out, "rm");
    push_text(&mut out, image);
    assert(texts(out@) =~= remove_spec(image@));
    out
}

/// What the script reads.
pub open spec fn input_spec(key: Seq<char>, org: Seq<char>) -> Seq<char> {
    key + "\n"@ + org + "\n"@
}

fn input(key: &str, org: &str) -> (r: String)
    ensures
        r@ == input_spec(key@, org@),
{
    let mut out = key.to_owned();
    out.append("\n");
    out.append(org);
    out.append("\n");
    out
}

/// What follows an attempt that has succeeded: the member leaves the table, may
/// send messages, and is told.
pub open spec fn accept_spec(user: i64, chat: i64) -> Seq<EffectView> {
    seq![
        EffectView::Store(StoreOp::Delete { user, chat }),
        EffectView::Require(permit_spec(chat, user)),
        EffectView::Call(send_spec(user, "验证成功\nVerification successful"@)),
    ]
}

/// What follows an attempt that has succeeded.
pub fn accept(user: i64, chat: i64) -> (r: Vec<Effect>)
    ensures
        effects_view(r@) == accept_spec(user, chat),
{
    let mut out = one_effect(Effect::Store(StoreOp::Delete { user, chat }));
    push_effect(&mut out, Effect::Require(permit(chat, user)));
    push_effect(&mut out, Effect::Call(send(user, "验证成功\nVerification successful")));
    assert(effects_view(out@) =~= accept_spec(user, chat));
    out
}

/// What follows an attempt, by whether it has succeeded.
pub open spec fn settle_spec(job: JobView, success: bool) -> ActionView {
    if success {
        ActionView::Done(accept_spec(job.user, job.chat))
    } else if job.failures == i64::MAX {
        ActionView::Abort(
            seq![EffectView::Call(send_spec(job.user, "验证失败\nVerification failed"@))],
        )
    } else {
        ActionView::Done(reject_spec(job.user, job.chat, job.failures))
    }
}

fn settle(job: &Job, success: bool) -> (r: Action)
    ensures
        r@ == settle_spec(job@, success),
{
    if success {
        Action::Done(accept(job.user, job.chat))
    } else if job.failures == i64::MAX {
        Action::Abort(one_effect(Effect::Call(send(job.user, "验证失败\nVerification failed"))))
    } else {
        Action::Done(reject(job.user, job.chat, job.failures))
    }
}

/// What follows an attempt that could not be made: the member may make another.
pub open spec fn release_spec(user: i64, chat: i64) -> Seq<EffectView> {
    seq![EffectView::Store(StoreOp::Release { user, chat })]
}

/// What follows an attempt that could not be made.
pub fn release(user: i64, chat: i64) -> (r: Vec<Effect>)
    ensures
        effects_view(r@) == release_spec(user, chat),
{
    one_effect(Effect::Store(StoreOp::Release { user, chat }))
}

/// What is logged of an attempt that could not be made.
pub open spec fn failure_line_spec(user: i64, chat: i64, error: Seq<char>) -> Seq<char> {
    "verify user="@ + decimal(user as int) + " chat="@ + decimal(chat as int) + ": "@ + error
}

/// What is logged of an attempt that could not be made.
pub fn failure_line(user: i64, chat: i64, error: &str) -> (r: String)
    ensures
        r@ == failure_line_spec(user, chat, error@),
{
    let mut out = "verify user=".to_owned();
    push_i64(&mut out, user);
    out.append(" chat=");
    push_i64(&mut out, chat);
    out.append(": ");
    out.append(error);
    out
}

/// What follows an attempt that could not be made: it is logged, and the member
/// may make another.
#[derive(Debug)]
pub struct Failure {
    pub line: String,
    pub effects: Vec<Effect>,
}

/// Where an attempt stands.
#[derive(Debug, Clone, Copy, PartialEq, Eq, Structural)]
pub enum AttemptStage {
    /// At the beginning.
    Start,
    /// Waiting for the image to be pulled.
    LivePull,
    /// Within the update of the cached image.
    Cache(CacheStage),
    /// Waiting for the cached image to get the name of that time.
    Tag(i64),
    /// Waiting for the script, which runs in the image itself or in the one with
    /// the name of that time.
    Run(Option<i64>),
    /// Waiting for the name to be removed; whether the script has succeeded.
    Remove(bool),
    /// At the end.
    End,
}

/// Goes on from a step of the update of the cached image: once it is done, the
/// image gets a name of its own for the attempt.
pub open spec fn after_cache_spec(
    job: JobView,
    config: ConfigView,
    step: (CacheStage, ActionView),
    now: i64,
) -> (AttemptStage, ActionView) {
    match step.1 {
        ActionView::Done(_) => (
            AttemptStage::Tag(now),
            ActionView::Podman(
                tag_spec(config.image, temporary_spec(job.user, job.chat, now)),
            ),
        ),
        ActionView::Fail(_) | ActionView::Abort(_) => (AttemptStage::End, step.1),
        _ => (AttemptStage::Cache(step.0), step.1),
    }
}

/// A step of an attempt.
pub open spec fn attempt_spec(
    job: JobView,
    config: ConfigView,
    stage: AttemptStage,
    outcome: OutcomeView,
    now: i64,
) -> (AttemptStage, ActionView) {
    let input = input_spec(job.key, job.org);
    match stage {
        AttemptStage::Start => if config.image_mode == "live"@ {
            (AttemptStage::LivePull, ActionView::Podman(pull_spec(config.image)))
        } else {
            after_cache_spec(
                job,
                config,
                cache_step_spec(
                    CacheStage::Start,
                    false,
                    outcome,
                    config.image,
                    config.cache_update_interval,
                    now,
                ),
                now,
            )
        },
        AttemptStage::LivePull => if outcome.success {
            (
                AttemptStage::Run(None),
                ActionView::Feed { arguments: run_spec(config.image), input },
            )
        } else {
            (AttemptStage::End, ActionView::Fail(ImageError::LivePull))
        },
        AttemptStage::Cache(at) => after_cache_spec(
            job,
            config,
            cache_step_spec(at, false, outcome, config.image, config.cache_update_interval, now),
            now,
        ),
        AttemptStage::Tag(time) => if outcome.success {
            (
                AttemptStage::Run(Some(time)),
                ActionView::Feed {
                    arguments: run_spec(temporary_spec(job.user, job.chat, time)),
                    input,
                },
            )
        } else {
            (AttemptStage::End, ActionView::Fail(ImageError::Copy))
        },
        AttemptStage::Run(None) => (AttemptStage::End, settle_spec(job, outcome.success)),
        AttemptStage::Run(Some(time)) => (
            AttemptStage::Remove(outcome.success),
            ActionView::TryPodman(remove_spec(temporary_spec(job.user, job.chat, time))),
        ),
        AttemptStage::Remove(success) => (AttemptStage::End, settle_spec(job, success)),
        AttemptStage::End => (AttemptStage::End, ActionView::Done(Seq::empty())),
    }
}

fn after_cache(job: &Job, config: &Config, step: (CacheStage, Action), now: i64) -> (r: (
    AttemptStage,
    Action,
))
    ensures
        (r.0, r.1@) == after_cache_spec(job@, config@, (step.0, step.1@), now),
{
    let (at, action) = step;
    match action {
        Action::Done(_) => {
            let name = temporary_name(job.user, job.chat, now);
            (AttemptStage::Tag(now), Action::Podman(tag(config.image.as_str(), name.as_str())))
        },
        Action::Fail(error) => (AttemptStage::End, Action::Fail(error)),
        Action::Abort(effects) => (AttemptStage::End, Action::Abort(effects)),
        other => (AttemptStage::Cache(at), other),
    }
}

/// An attempt at a verification.
#[derive(Debug)]
pub struct Attempt {
    job: Job,
    config: Config,
    stage: AttemptStage,
}

impl Attempt {
    pub closed spec fn job(&self) -> JobView {
        self.job@
    }

    pub closed spec fn settings(&self) -> ConfigView {
        self.config@
    }

    pub closed spec fn stage(&self) -> AttemptStage {
        self.stage
    }

    /// An attempt that is about to begin.
    pub fn new(job: Job, config: Config) -> (r: Attempt)
        ensures
            r.job() == job@,
            r.settings() == config@,
            r.stage() == AttemptStage::Start,
    {
        Attempt { job, config, stage: AttemptStage::Start }
    }

    /// Takes a step. `outcome` is what has come of the action before it.
    pub fn step(&mut self, outcome: &Outcome, now: i64) -> (r: Action)
        ensures
            final(self).job() == old(self).job(),
            final(self).settings() == old(self).settings(),
            (final(self).stage(), r@) == attempt_spec(
                old(self).job(),
                old(self).settings(),
                old(self).stage(),
                outcome@,
                now,
            ),
    {
        let image = self.config.image.as_str();
        let interval = self.config.cache_update_interval.as_str();
        let (stage, action) = match self.stage {
            AttemptStage::Start => if str_eq(self.config.image_mode.as_str(), "live") {
                (AttemptStage::LivePull, Action::Podman(pull(image)))
            } else {
                let step = cache_step(CacheStage::Start, false, outcome, image, interval, now);
                after_cache(&self.job, &self.config, step, now)
            },
            AttemptStage::LivePull => if outcome.success {
                (
                    AttemptStage::Run(None),
                    Action::Feed {
                        arguments: run_arguments(image),
                        input: input(self.job.key.as_str(), self.job.org.as_str()),
                    },
                )
            } else {
                (AttemptStage::End, Action::Fail(ImageError::LivePull))
            },
            AttemptStage::Cache(at) => {
                let step = cache_step(at, false, outcome, image, interval, now);
                after_cache(&self.job, &self.config, step, now)
            },
            AttemptStage::Tag(time) => if outcome.success {
                let name = temporary_name(self.job.user, self.job.chat, time);
                (
                    AttemptStage::Run(Some(time)),
                    Action::Feed {
                        arguments: run_arguments(name.as_str()),
                        input: input(self.job.key.as_str(), self.job.org.as_str()),
                    },
                )
            } else {
                (AttemptStage::End, Action::Fail(ImageError::Copy))
            },
            AttemptStage::Run(None) => (AttemptStage::End, settle(&self.job, outcome.success)),
            AttemptStage::Run(Some(time)) => {
                let name = temporary_name(self.job.user, self.job.chat, time);
                (AttemptStage::Remove(outcome.success), Action::TryPodman(remove(name.as_str())))
            },
            AttemptStage::Remove(success) => (AttemptStage::End, settle(&self.job, success)),
            AttemptStage::End => (AttemptStage::End, Action::Done(no_effects())),
        };
        self.stage = stage;
        action
    }

    /// What follows when the attempt cannot be made, for whatever reason: an
    /// action has failed or could not be done, or a call on which it depends has
    /// failed.
    pub fn failure(&self, error: &str) -> (r: Failure)
        ensures
            r.line@ == failure_line_spec(self.job().user, self.job().chat, error@),
            effects_view(r.effects@) == release_spec(self.job().user, self.job().chat),
    {
        Failure {
            line: failure_line(self.job.user, self.job.chat, error),
            effects: release(self.job.user, self.job.chat),
        }
    }
}

/// What remains to be done once an attempt has come to its end, if the action is
/// one that ends it: what it says where it has been settled, the release where it
/// has failed.
pub open spec fn end_spec(job: JobView, action: ActionView) -> Option<Seq<EffectView>> {
    match action {
        ActionView::Done(effects) => Some(effects),
        ActionView::Fail(_) => Some(release_spec(job.user, job.chat)),
        _ => None,
    }
}

/// Whether no attempt of a user in a chat is under way.
pub open spec fn is_idle(rows: Seq<PendingRow>, user: i64, chat: i64) -> bool {
    forall|i: int| 0 <= i < rows.len() && is_row(#[trigger] rows[i], user, chat) ==> rows[i].busy
        != 1
}

/// A release leaves every row in its place: that of the member is free, with its
/// deadline and failures as they were, and the others are as they were. So no
/// attempt of the member is under way, whatever had been done of it before.
pub proof fn law_release_frees(rows: Seq<PendingRow>, user: i64, chat: i64)
    ensures
        is_idle(stored(rows, release_spec(user, chat)), user, chat),
        stored(rows, release_spec(user, chat)).len() == rows.len(),
        forall|i: int|
            0 <= i < rows.len() ==> #[trigger] stored(rows, release_spec(user, chat))[i] == (
            if is_row(rows[i], user, chat) {
                PendingRow { busy: 0, ..rows[i] }
            } else {
                rows[i]
            }),
{
    lemma_stored_one(rows, EffectView::Store(StoreOp::Release { user, chat }));
}

/// However an attempt ends, accepted, rejected or failed, it is no longer under
/// way: no row of the member in the chat is busy.
pub proof fn law_every_end_frees(
    job: JobView,
    config: ConfigView,
    stage: AttemptStage,
    outcome: OutcomeView,
    now: i64,
    rows: Seq<PendingRow>,
)
    requires
        distinct(rows),
        !(stage is End),
        job.failures < i64::MAX,
    ensures
        ({
            let step = attempt_spec(job, config, stage, outcome, now);
            &&& step.0 is End ==> end_spec(job, step.1) is Some || step.1 == ActionView::Abort(
                Seq::empty(),
            )
            &&& end_spec(job, step.1) matches Some(effects) ==> step.0 is End && is_idle(
                stored(rows, effects),
                job.user,
                job.chat,
            )
        }),
{
    law_release_frees(rows, job.user, job.chat);
    law_verified_are_free(rows, job.user, job.chat);
    lemma_absent_is_idle(stored(rows, accept_spec(job.user, job.chat)), job.user, job.chat);
    let rejected = stored(rows, reject_spec(job.user, job.chat, job.failures));
    if job.failures >= 1 {
        law_second_failure_is_final(rows, job.user, job.chat, job.failures);
        lemma_absent_is_idle(rejected, job.user, job.chat);
    } else {
        let all = reject_spec(job.user, job.chat, job.failures);
        let empty = Seq::<EffectView>::empty();
        lemma_stored_push(rows, empty, all[0]);
        lemma_stored_push(rows, empty.push(all[0]), all[1]);
        assert(all =~= empty.push(all[0]).push(all[1]));
        assert(is_idle(rejected, job.user, job.chat));
    }
}

proof fn lemma_absent_is_idle(rows: Seq<PendingRow>, user: i64, chat: i64)
    requires
        !has_row(rows, user, chat),
    ensures
        is_idle(rows, user, chat),
{
}

/// The key and the organization reach nothing but what the script reads: two
/// attempts that differ in them alone take the same steps, but for that.
pub proof fn law_credentials_only_in_input(
    one: JobView,
    other: JobView,
    config: ConfigView,
    stage: AttemptStage,
    outcome: OutcomeView,
    now: i64,
)
    requires
        one.user == other.user,
        one.chat == other.chat,
        one.failures == other.failures,
    ensures
        attempt_spec(one, config, stage, outcome, now).0 == attempt_spec(
            other,
            config,
            stage,
            outcome,
            now,
        ).0,
        match (
            attempt_spec(one, config, stage, outcome, now).1,
            attempt_spec(other, config, stage, outcome, now).1,
        ) {
            (
                ActionView::Feed { arguments: a, input: i },
                ActionView::Feed { arguments: b, input: j },
            ) => a == b && i == input_spec(one.key, one.org) && j == input_spec(
                other.key,
                other.org,
            ),
            (a, b) => a == b,
        },
{
}

/// The script reads exactly two lines, the key and the organization: neither
/// holds the end of a line.
pub proof fn law_input_is_two_lines(key: Seq<char>, org: Seq<char>)
    requires
        valid_key(key),
        valid_org(org),
    ensures
        input_spec(key, org).len() == key.len() + org.len() + 2,
        input_spec(key, org).take(key.len() as int) == key,
        input_spec(key, org).skip(key.len() as int + 1).take(org.len() as int) == org,
        forall|i: int|
            0 <= i < input_spec(key, org).len() ==> (#[trigger] input_spec(key, org)[i] == '\n'
                <==> i == key.len() || i == key.len() + 1 + org.len()),
{
    reveal_strlit("\n");
    let all = input_spec(key, org);
    assert(all.take(key.len() as int) =~= key);
    assert(all.skip(key.len() as int + 1).take(org.len() as int) =~= org);
    assert forall|i: int| 0 <= i < all.len() implies (#[trigger] all[i] == '\n' <==> i == key.len()
        || i == key.len() + 1 + org.len()) by {
        if i < key.len() {
            assert(all[i] == key[i]);
        } else if key.len() < i < key.len() + 1 + org.len() {
            assert(all[i] == org[i - key.len() - 1]);
        }
    }
}

/// A member who has verified themselves leaves the table and may send messages,
/// and every other row stays.
pub proof fn law_verified_are_free(rows: Seq<PendingRow>, user: i64, chat: i64)
    requires
        distinct(rows),
    ensures
        accept_spec(user, chat).contains(EffectView::Require(permit_spec(chat, user))),
        !has_row(stored(rows, accept_spec(user, chat)), user, chat),
        forall|row: PendingRow|
            !is_row(row, user, chat) ==> (#[trigger] stored(
                rows,
                accept_spec(user, chat),
            ).contains(row) <==> rows.contains(row)),
{
    let all = accept_spec(user, chat);
    assert(all[1] == EffectView::Require(permit_spec(chat, user)));
    let empty = Seq::<EffectView>::empty();
    lemma_stored_push(rows, empty, all[0]);
    lemma_stored_push(rows, empty.push(all[0]), all[1]);
    lemma_stored_push(rows, empty.push(all[0]).push(all[1]), all[2]);
    assert(all =~= empty.push(all[0]).push(all[1]).push(all[2]));
    assert(stored(rows, all) == without(rows, user, chat));
    law_removed_is_gone(rows, user, chat);
}

/// An attempt that could not be made leaves the table as it was before it began.
pub proof fn law_release_undoes_claim(rows: Seq<PendingRow>, user: i64, chat: i64)
    requires
        forall|i: int|
            0 <= i < rows.len() && is_row(#[trigger] rows[i], user, chat) ==> rows[i].busy == 0,
    ensures
        stored(with_busy(rows, user, chat, 1), release_spec(user, chat)) == rows,
{
    let claimed = with_busy(rows, user, chat, 1);
    lemma_stored_one(claimed, EffectView::Store(StoreOp::Release { user, chat }));
    assert(with_busy(claimed, user, chat, 0) =~= rows);
}

/// Only a script that has succeeded lets a member go free, and whatever came of
/// it, the name that the image got for the attempt is removed again.
pub proof fn law_only_success_frees(
    job: JobView,
    config: ConfigView,
    stage: AttemptStage,
    outcome: OutcomeView,
    now: i64,
)
    ensures
        ({
            let step = attempt_spec(job, config, stage, outcome, now);
            &&& (step.1 matches ActionView::Done(effects) && effects.contains(
                EffectView::Require(permit_spec(job.chat, job.user)),
            )) ==> (stage == AttemptStage::Run(None) && outcome.success) || stage
                == AttemptStage::Remove(true)
            &&& step.0 == AttemptStage::Remove(true) ==> outcome.success
            &&& (stage matches AttemptStage::Run(Some(time)) ==> step.1 == ActionView::TryPodman(
                remove_spec(temporary_spec(job.user, job.chat, time)),
            ))
        }),
{
    let step = attempt_spec(job, config, stage, outcome, now);
    if let ActionView::Done(effects) = step.1 {
        let permitted = EffectView::Require(permit_spec(job.chat, job.user));
        if effects.contains(permitted) {
            let k = choose|k: int| 0 <= k < effects.len() && effects[k] == permitted;
            assert(effects[k] is Require);
        }
    }
}

/// How far an attempt is: the larger, the nearer its beginning.
pub open spec fn attempt_left(stage: AttemptStage) -> int {
    match stage {
        AttemptStage::Start => 8,
        AttemptStage::Cache(at) => match at {
            CacheStage::Start => 8,
            CacheStage::Marker => 7,
            CacheStage::Pull => 6,
            CacheStage::Mark => 5,
            CacheStage::End => 4,
        },
        AttemptStage::LivePull => 4,
        AttemptStage::Tag(_) => 3,
        AttemptStage::Run(_) => 2,
        AttemptStage::Remove(_) => 1,
        AttemptStage::End => 0,
    }
}

/// Each step brings an attempt nearer to its end.
pub proof fn law_attempt_ends(
    job: JobView,
    config: ConfigView,
    stage: AttemptStage,
    outcome: OutcomeView,
    now: i64,
)
    requires
        !(stage is End),
    ensures
        0 <= attempt_left(attempt_spec(job, config, stage, outcome, now).0) < attempt_left(stage),
{
}

/// Whether something to be done is a call of a method.
pub open spec fn is_call_of(effect: EffectView, method: Seq<char>) -> bool {
    match effect {
        EffectView::Call(r) => r.method == method,
        EffectView::Require(r) => r.method == method,
        EffectView::Store(_) => false,
    }
}

/// Whether the end of an attempt frees a member: they are given every permission,
/// which has to succeed, and told; they leave the table; they are not banned, and
/// no failure is counted.
pub open spec fn frees_member(effects: Seq<EffectView>, user: i64, chat: i64) -> bool {
    &&& exists|i: int|
        0 <= i < effects.len() && (#[trigger] effects[i] matches EffectView::Require(r)
            && permits_all(r, chat, user))
    &&& exists|i: int|
        0 <= i < effects.len() && (#[trigger] effects[i] matches EffectView::Call(r) && says(
            r,
            user,
            "验证成功\nVerification successful"@,
        ))
    &&& effects.contains(EffectView::Store(StoreOp::Delete { user, chat }))
    &&& forall|i: int|
        0 <= i < effects.len() ==> !is_call_of(#[trigger] effects[i], "banChatMember"@)
    &&& forall|i: int|
        0 <= i < effects.len() ==> (#[trigger] effects[i] matches EffectView::Store(op) ==> op
            == StoreOp::Delete { user, chat })
}

/// Whether the end of an attempt turns a member down who has failed `failures`
/// times before: they are told and given no permission. The first failure is
/// counted and the member is not banned; on a later one they leave the table and
/// are banned from the chat.
pub open spec fn turns_down(effects: Seq<EffectView>, user: i64, chat: i64, failures: i64) -> bool {
    &&& exists|i: int|
        0 <= i < effects.len() && (#[trigger] effects[i] matches EffectView::Call(r) && says(
            r,
            user,
            "验证失败\nVerification failed"@,
        ))
    &&& forall|i: int|
        0 <= i < effects.len() ==> !is_call_of(#[trigger] effects[i], "restrictChatMember"@)
    &&& failures <= 0 ==> {
        &&& forall|i: int|
            0 <= i < effects.len() ==> !is_call_of(#[trigger] effects[i], "banChatMember"@)
        &&& effects.contains(
            EffectView::Store(
                StoreOp::SetFailures { user, chat, failures: (failures + 1) as i64 },
            ),
        )
        &&& !effects.contains(EffectView::Store(StoreOp::Delete { user, chat }))
    }
    &&& failures >= 1 ==> {
        &&& exists|i: int|
            0 <= i < effects.len() && (#[trigger] effects[i] matches EffectView::Call(r)
                && names_member(r, "banChatMember"@, chat, user))
        &&& effects.contains(EffectView::Store(StoreOp::Delete { user, chat }))
    }
}

/// The names of the methods differ.
proof fn lemma_methods()
    ensures
        "sendMessage"@ != "banChatMember"@,
        "restrictChatMember"@ != "banChatMember"@,
        "sendMessage"@ != "restrictChatMember"@,
{
    reveal_strlit("sendMessage");
    reveal_strlit("banChatMember");
    reveal_strlit("restrictChatMember");
    assert("sendMessage"@.len() == 11 && "banChatMember"@.len() == 13);
    assert("restrictChatMember"@.len() == 18);
}

/// What follows a success frees the member.
pub proof fn law_accept_frees(user: i64, chat: i64)
    ensures
        frees_member(accept_spec(user, chat), user, chat),
{
    lemma_methods();
    law_permit(chat, user);
    law_send(user, "验证成功\nVerification successful"@);
    let all = accept_spec(user, chat);
    assert(all[0] == EffectView::Store(StoreOp::Delete { user, chat }));
    assert(all[1] matches EffectView::Require(r) && permits_all(r, chat, user));
    assert(all[2] matches EffectView::Call(r) && says(
        r,
        user,
        "验证成功\nVerification successful"@,
    ));
}

/// What follows a failure turns the member down.
pub proof fn law_reject_turns_down(user: i64, chat: i64, failures: i64)
    requires
        failures < i64::MAX,
    ensures
        turns_down(reject_spec(user, chat, failures), user, chat, failures),
{
    lemma_methods();
    law_member_calls(chat, user);
    law_send(user, "验证失败\nVerification failed"@);
    let all = reject_spec(user, chat, failures);
    assert(all[0] matches EffectView::Call(r) && says(
        r,
        user,
        "验证失败\nVerification failed"@,
    ));
    if failures >= 1 {
        assert(all[1] == EffectView::Store(StoreOp::Delete { user, chat }));
        assert(all[2] matches EffectView::Call(r) && names_member(
            r,
            "banChatMember"@,
            chat,
            user,
        ));
    } else {
        assert(all[1] == EffectView::Store(
            StoreOp::SetFailures { user, chat, failures: (failures + 1) as i64 },
        ));
    }
}

/// How the script ends decides, in the image itself and in the one with a name of
/// its own alike: its success frees the member, its failure turns them down. That
/// the name is removed in between, and whether that succeeds, changes nothing.
pub proof fn law_script_decides(
    job: JobView,
    config: ConfigView,
    outcome: OutcomeView,
    removal: OutcomeView,
    time: i64,
    now: i64,
    later: i64,
)
    requires
        job.failures < i64::MAX,
    ensures
        ({
            let live = attempt_spec(job, config, AttemptStage::Run(None), outcome, now);
            let cached = attempt_spec(job, config, AttemptStage::Run(Some(time)), outcome, now);
            let settled = attempt_spec(job, config, cached.0, removal, later);
            &&& live.0 is End && live.1 is Done
            &&& cached.1 is TryPodman
            &&& settled.0 is End && settled.1 is Done
            &&& outcome.success ==> frees_member(live.1->Done_0, job.user, job.chat)
                && frees_member(settled.1->Done_0, job.user, job.chat)
            &&& !outcome.success ==> turns_down(
                live.1->Done_0,
                job.user,
                job.chat,
                job.failures,
            ) && turns_down(settled.1->Done_0, job.user, job.chat, job.failures)
        }),
        attempt_spec(job, config, AttemptStage::Run(Some(time)), outcome, now).0
            == AttemptStage::Remove(outcome.success),
{
    law_accept_frees(job.user, job.chat);
    law_reject_turns_down(job.user, job.chat, job.failures);
}

/// A live attempt pulls the image of the settings and runs the script in it, or
/// fails where it cannot be pulled. The script reads the key and the organization,
/// a line each.
pub proof fn law_live_attempt(
    job: JobView,
    config: ConfigView,
    outcome: OutcomeView,
    pulled: OutcomeView,
    now: i64,
    later: i64,
)
    requires
        config.image_mode == "live"@,
    ensures
        ({
            let first = attempt_spec(job, config, AttemptStage::Start, outcome, now);
            let second = attempt_spec(job, config, first.0, pulled, later);
            &&& first.1 == ActionView::Podman(seq!["pull"@, config.image])
            &&& pulled.success ==> second.0 == AttemptStage::Run(None) && second.1
                == (ActionView::Feed {
                arguments: seq![
                    "run"@,
                    "--rm"@,
                    "-i"@,
                    config.image,
                    "bash"@,
                    "-c"@,
                    SCRIPT@,
                ],
                input: job.key + "\n"@ + job.org + "\n"@,
            })
            &&& !pulled.success ==> second.1 == ActionView::Fail(ImageError::LivePull)
        }),
{
}

/// Any other attempt uses the cached image, which it first updates if that is
/// due.
pub proof fn law_cached_attempt(
    job: JobView,
    config: ConfigView,
    outcome: OutcomeView,
    marker: OutcomeView,
    pulled: OutcomeView,
    now: i64,
    last: i64,
    seconds: int,
)
    requires
        config.image_mode != "live"@,
        interval_spec(config.cache_update_interval) == Ok::<int, IntervalError>(seconds),
        seconds <= i64::MAX,
        marker.text == Some(decimal(last as int)),
        i64::MIN <= now - last <= i64::MAX,
    ensures
        ({
            let first = attempt_spec(job, config, AttemptStage::Start, outcome, now);
            let second = attempt_spec(job, config, first.0, marker, now);
            let third = attempt_spec(job, config, second.0, pulled, now);
            &&& first.1 is ReadMarker
            &&& now - last < seconds ==> second.0 == AttemptStage::Tag(now)
            &&& now - last >= seconds ==> second.1 == ActionView::Podman(
                seq!["pull"@, config.image],
            ) && (pulled.success ==> (third.1 matches ActionView::WriteMarker(text)
                && parse_i64_spec(text) == Some(now as int)) && attempt_spec(
                job,
                config,
                third.0,
                pulled,
                now,
            ).0 == AttemptStage::Tag(now)) && (!pulled.success ==> third.1 == ActionView::Fail(
                ImageError::CachePull,
            ))
        }),
{
    law_decimal_reads_back(last as int, i64::MIN as int, i64::MAX as int);
    law_decimal_reads_back(now as int, i64::MIN as int, i64::MAX as int);
}

/// The name that the cached image gets is that of the image that the script runs
/// in, and that name is the one that is removed. Where the image gets no name, the
/// attempt fails.
pub proof fn law_one_name_per_attempt(
    job: JobView,
    config: ConfigView,
    stage: AttemptStage,
    outcome: OutcomeView,
    tagged: OutcomeView,
    ran: OutcomeView,
    now: i64,
    later: i64,
    latest: i64,
)
    requires
        attempt_spec(job, config, stage, outcome, now).0 is Tag,
    ensures
        ({
            let first = attempt_spec(job, config, stage, outcome, now);
            let second = attempt_spec(job, config, first.0, tagged, later);
            let third = attempt_spec(job, config, second.0, ran, latest);
            let name = first.1->Podman_0[2];
            &&& first.1 == ActionView::Podman(seq!["tag"@, config.image, name])
            &&& tagged.success ==> {
                &&& second.1 == (ActionView::Feed {
                    arguments: seq!["run"@, "--rm"@, "-i"@, name, "bash"@, "-c"@, SCRIPT@],
                    input: job.key + "\n"@ + job.org + "\n"@,
                })
                &&& third.1 == ActionView::TryPodman(seq!["image"@, "rm"@, name])
            }
            &&& !tagged.success ==> second.1 == ActionView::Fail(ImageError::Copy)
        }),
{
    let first = attempt_spec(job, config, stage, outcome, now);
    let second = attempt_spec(job, config, first.0, tagged, later);
    let name = first.1->Podman_0[2];
    assert(first.1->Podman_0 =~= seq!["tag"@, config.image, name]);
}

/// Attempts of one member in one chat that begin at different times use different
/// names, and so do attempts at one time of different members of one chat, or of
/// one member in different chats.
pub proof fn law_names_differ(user: i64, chat: i64, time: i64, other: i64)
    ensures
        other != time ==> temporary_spec(user, chat, time) != temporary_spec(user, chat, other),
        other != chat ==> temporary_spec(user, chat, time) != temporary_spec(user, other, time),
        other != user ==> temporary_spec(user, chat, time) != temporary_spec(other, chat, time),
{
    let head = "localhost/rhc-bot-verify-"@;
    let dash = "-"@;
    let u = decimal(user as int);
    let c = decimal(chat as int);
    let t = decimal(time as int);
    let o = decimal(other as int);
    lemma_decimals_differ(time, other);
    lemma_decimals_differ(chat, other);
    lemma_decimals_differ(user, other);
    let empty = Seq::<char>::empty();
    assert(temporary_spec(user, chat, time) =~= (head + u + dash + c + dash) + t + empty);
    assert(temporary_spec(user, chat, other) =~= (head + u + dash + c + dash) + o + empty);
    lemma_cut(head + u + dash + c + dash, t, o, empty);
    assert(temporary_spec(user, chat, time) =~= (head + u + dash) + c + (dash + t));
    assert(temporary_spec(user, other, time) =~= (head + u + dash) + o + (dash + t));
    lemma_cut(head + u + dash, c, o, dash + t);
    assert(temporary_spec(user, chat, time) =~= head + u + (dash + c + dash + t));
    assert(temporary_spec(other, chat, time) =~= head + o + (dash + c + dash + t));
    lemma_cut(head, u, o, dash + c + dash + t);
}

/// What stands between two texts can be told from the whole.
proof fn lemma_cut(before: Seq<char>, one: Seq<char>, other: Seq<char>, after: Seq<char>)
    ensures
        before + one + after == before + other + after ==> one == other,
{
    let a = before + one + after;
    let b = before + other + after;
    let from = before.len() as int;
    if a == b {
        assert(a.subrange(from, a.len() - after.len()) =~= one);
        assert(b.subrange(from, b.len() - after.len()) =~= other);
    }
}

proof fn lemma_decimals_differ(one: i64, other: i64)
    ensures
        one != other ==> decimal(one as int) != decimal(other as int),
{
    law_decimal_reads_back(one as int, i64::MIN as int, i64::MAX as int);
    law_decimal_reads_back(other as int, i64::MIN as int, i64::MAX as int);
}

/// The script reads the key and then the organization, registers with just these,
/// and whatever comes of it undoes the registration at its end.
pub proof fn law_script()
    ensures
        has_prefix(SCRIPT@, "read -r KEY && read -r ORG && "@),
        occurs(
            SCRIPT@,
            "trap 'subscription-manager unregister >/dev/null 2>&1 || true; subscription-manager clean >/dev/null 2>&1 || true' EXIT && subscription-manager register --activationkey=\"$KEY\" --org=\"$ORG\" >/dev/null"@,
        ),
{
    reveal_strlit("read -r KEY && read -r ORG && ");
    reveal_strlit(
        "trap 'subscription-manager unregister >/dev/null 2>&1 || true; subscription-manager clean >/dev/null 2>&1 || true' EXIT && subscription-manager register --activationkey=\"$KEY\" --org=\"$ORG\" >/dev/null",
    );
    reveal_strlit(
        "read -r KEY && read -r ORG && trap 'subscription-manager unregister >/dev/null 2>&1 || true; subscription-manager clean >/dev/null 2>&1 || true' EXIT && subscription-manager register --activationkey=\"$KEY\" --org=\"$ORG\" >/dev/null",
    );
    let rest = SCRIPT@.skip(30);
    assert(SCRIPT@.take(30) =~= "read -r KEY && read -r ORG && "@);
    assert(rest.take(rest.len() as int) =~= "trap 'subscription-manager unregister >/dev/null 2>&1 || true; subscription-manager clean >/dev/null 2>&1 || true' EXIT && subscription-manager register --activationkey=\"$KEY\" --org=\"$ORG\" >/dev/null"@);
    assert(has_prefix(rest, "trap 'subscription-manager unregister >/dev/null 2>&1 || true; subscription-manager clean >/dev/null 2>&1 || true' EXIT && subscription-manager register --activationkey=\"$KEY\" --org=\"$ORG\" >/dev/null"@));
}

/// The line that is logged of an attempt that could not be made names the member
/// and the chat, and ends with what is said of the failure.
pub proof fn law_failure_line(user: i64, chat: i64, error: Seq<char>)
    ensures
        ({
            let line = failure_line_spec(user, chat, error);
            let head = "verify user="@ + decimal(user as int) + " chat="@ + decimal(chat as int);
            &&& has_prefix(line, head)
            &&& has_suffix(line, error)
            &&& line.len() == head.len() + ": "@.len() + error.len()
        }),
{
    let line = failure_line_spec(user, chat, error);
    let head = "verify user="@ + decimal(user as int) + " chat="@ + decimal(chat as int);
    assert(line.take(head.len() as int) =~= head);
    assert(line.skip(line.len() - error.len()) =~= error);
}

/// A script that fails for a member whose failures cannot be counted on stops the
/// attempt; the member is still told, and nothing else is done.
pub proof fn law_uncountable_failures(
    job: JobView,
    config: ConfigView,
    stage: AttemptStage,
    outcome: OutcomeView,
    now: i64,
)
    requires
        job.failures == i64::MAX,
        (stage == AttemptStage::Run(None) && !outcome.success) || stage == AttemptStage::Remove(
            false,
        ),
    ensures
        ({
            let step = attempt_spec(job, config, stage, outcome, now);
            step.1 matches ActionView::Abort(effects) && effects.len() == 1 && (effects[0] matches
                EffectView::Call(r) && says(r, job.user, "验证失败\nVerification failed"@))
        }),
{
    law_send(job.user, "验证失败\nVerification failed"@);
}

} // verus!
