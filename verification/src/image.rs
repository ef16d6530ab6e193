//! The image that attempts run in, and its cached copy.

use vstd::prelude::*;
use crate::effect::{effects_view, no_effects, Effect, EffectView};
use crate::interval::{
    interval_fits, interval_in_range, interval_seconds, interval_spec, IntervalError,
};
use crate::number::{decimal, i64_text, law_decimal_reads_back, parse_i64, parse_i64_spec};
use crate::text::texts;

verus! {

/// Puts one more text at the end.
pub(crate) fn push_text(v: &mut Vec<String>, text: &str)
    ensures
        texts(final(v)@) == texts(old(v)@).push(text@),
{
    v.push(text.to_owned());
    assert(texts(v@) =~= texts(old(v)@).push(text@));
}

/// No texts.
pub(crate) fn no_texts() -> (r: Vec<String>)
    ensures
        texts(r@) == Seq::<Seq<char>>::empty(),
{
    let r: Vec<String> = Vec::new();
    assert(texts(r@) =~= Seq::<Seq<char>>::empty());
    r
}

/// Why there is no image to run in.
#[derive(Debug, Clone, Copy, PartialEq, Eq, Structural)]
pub enum ImageError {
    /// The cached image could not be updated.
    CachePull,
    /// The image could not be pulled.
    LivePull,
    /// The cached image could not be given another name.
    Copy,
}

impl ImageError {
    /// What is said about it.
    pub fn message(&self) -> (r: String)
        ensures
            r@ == (match *self {
                ImageError::CachePull => "无法更新 UBI 缓存镜像"@,
                ImageError::LivePull => "无法实时拉取 UBI 镜像"@,
                ImageError::Copy => "无法复制本地 UBI 缓存镜像"@,
            }),
    {
        match self {
            ImageError::CachePull => "无法更新 UBI 缓存镜像".to_owned(),
            ImageError::LivePull => "无法实时拉取 UBI 镜像".to_owned(),
            ImageError::Copy => "无法复制本地 UBI 缓存镜像".to_owned(),
        }
    }
}

/// What is to be done next. Where something cannot be done at all, what is under
/// way fails, unless it is said otherwise.
#[derive(Debug)]
pub enum Action {
    /// Read the time of the last update of the cached image.
    ReadMarker,
    /// Note the time of the last update of the cached image.
    WriteMarker(String),
    /// Run `podman` with these arguments.
    Podman(Vec<String>),
    /// Run `podman` with these arguments; whether it can be done does not matter.
    TryPodman(Vec<String>),
    /// Run `podman` with these arguments and give it this to read.
    Feed { arguments: Vec<String>, input: String },
    /// These things remain to be done.
    Done(Vec<Effect>),
    /// It has failed.
    Fail(ImageError),
    /// These things remain to be done, and then it cannot go on: a number lies
    /// beyond what can be counted.
    Abort(Vec<Effect>),
}

/// What is to be done next, to reason about.
pub enum ActionView {
    ReadMarker,
    WriteMarker(Seq<char>),
    Podman(Seq<Seq<char>>),
    TryPodman(Seq<Seq<char>>),
    Feed { arguments: Seq<Seq<char>>, input: Seq<char> },
    Done(Seq<EffectView>),
    Fail(ImageError),
    Abort(Seq<EffectView>),
}

impl View for Action {
    type V = ActionView;

    open spec fn view(&self) -> ActionView {
        match self {
            Action::ReadMarker => ActionView::ReadMarker,
            Action::WriteMarker(text) => ActionView::WriteMarker(text@),
            Action::Podman(arguments) => ActionView::Podman(texts(arguments@)),
            Action::TryPodman(arguments) => ActionView::TryPodman(texts(arguments@)),
            Action::Feed { arguments, input } => ActionView::Feed {
                arguments: texts(arguments@),
                input: input@,
            },
            Action::Done(effects) => ActionView::Done(effects_view(effects@)),
            Action::Fail(error) => ActionView::Fail(*error),
            Action::Abort(effects) => ActionView::Abort(effects_view(effects@)),
        }
    }
}

/// What has come of the last action.
#[derive(Debug)]
pub struct Outcome {
    /// The text that was read, if there was any.
    pub text: Option<String>,
    /// Whether `podman` reported success.
    pub success: bool,
}

/// What has come of the last action, to reason about.
pub struct OutcomeView {
    pub text: Option<Seq<char>>,
    pub success: bool,
}

impl View for Outcome {
    type V = OutcomeView;

    open spec fn view(&self) -> OutcomeView {
        OutcomeView {
            text: match self.text {
                Some(text) => Some(text@),
                None => None,
            },
            success: self.success,
        }
    }
}

/// Whether the cached image is to be updated: the time of the last update is not
/// known, or lies at least as far back as the settings say, or a day where they
/// do not say it well. None where a time lies beyond what can be counted.
pub open spec fn cache_due_spec(
    marker: Option<Seq<char>>,
    interval: Seq<char>,
    now: int,
) -> Option<bool> {
    let last = match marker {
        Some(text) => parse_i64_spec(text),
        None => None,
    };
    match last {
        None => Some(true),
        Some(last) => if i64::MIN <= now - last <= i64::MAX && interval_in_range(interval) {
            let limit = match interval_spec(interval) {
                Ok(seconds) => seconds,
                Err(_) => 86_400,
            };
            Some(now - last >= limit)
        } else {
            None
        },
    }
}

/// Whether the cached image is to be updated; none where a time lies beyond what
/// can be counted.
pub fn cache_due(marker: &Option<String>, interval: &str, now: i64) -> (r: Option<bool>)
    ensures
        r == cache_due_spec(
            match *marker {
                Some(text) => Some(text@),
                None => None,
            },
            interval@,
            now as int,
        ),
{
    let last = match marker {
        Some(text) => match parse_i64(text.as_str()) {
            Ok(last) => last,
            Err(_) => {
                return Some(true);
            },
        },
        None => {
            return Some(true);
        },
    };
    let age: i128 = now as i128 - last as i128;
    if age < i64::MIN as i128 || age > i64::MAX as i128 || !interval_fits(interval) {
        return None;
    }
    let limit: i64 = match interval_seconds(interval) {
        Ok(seconds) => seconds,
        Err(_) => 86_400,
    };
    Some(age >= limit as i128)
}

/// Where the update of the cached image stands.
#[derive(Debug, Clone, Copy, PartialEq, Eq, Structural)]
pub enum CacheStage {
    /// At the beginning.
    Start,
    /// Waiting for the time of the last update.
    Marker,
    /// Waiting for the image.
    Pull,
    /// Waiting until the time is noted.
    Mark,
    /// At the end.
    End,
}

/// The arguments with which `podman` pulls an image.
pub open spec fn pull_spec(image: Seq<char>) -> Seq<Seq<char>> {
    seq!["pull"@, image]
}

/// The arguments with which `podman` pulls an image.
pub(crate) fn pull(image: &str) -> (r: Vec<String>)
    ensures
        texts(r@) == pull_spec(image@),
{
    let mut out = no_texts();
    push_text(&mut out, "pull");
    push_text(&mut out, image);
    assert(texts(out@) =~= pull_spec(image@));
    out
}

/// A step of the update of the cached image. It is pulled if that is due, or if
/// it is forced; the time is then noted.
pub open spec fn cache_step_spec(
    stage: CacheStage,
    force: bool,
    outcome: OutcomeView,
    image: Seq<char>,
    interval: Seq<char>,
    now: i64,
) -> (CacheStage, ActionView) {
    match stage {
        CacheStage::Start => if force {
            (CacheStage::Pull, ActionView::Podman(pull_spec(image)))
        } else {
            (CacheStage::Marker, ActionView::ReadMarker)
        },
        CacheStage::Marker => match cache_due_spec(outcome.text, interval, now as int) {
            None => (CacheStage::End, ActionView::Abort(Seq::empty())),
            Some(true) => (CacheStage::Pull, ActionView::Podman(pull_spec(image))),
            Some(false) => (CacheStage::End, ActionView::Done(Seq::empty())),
        },
        CacheStage::Pull => if outcome.success {
            (CacheStage::Mark, ActionView::WriteMarker(decimal(now as int)))
        } else {
            (CacheStage::End, ActionView::Fail(ImageError::CachePull))
        },
        CacheStage::Mark | CacheStage::End => (CacheStage::End, ActionView::Done(Seq::empty())),
    }
}

/// Takes a step of the update of the cached image. `outcome` is what has come of
/// the action before it.
pub fn cache_step(
    stage: CacheStage,
    force: bool,
    outcome: &Outcome,
    image: &str,
    interval: &str,
    now: i64,
) -> (r: (CacheStage, Action))
    ensures
        (r.0, r.1@) == cache_step_spec(stage, force, outcome@, image@, interval@, now),
{
    match stage {
        CacheStage::Start => if force {
            (CacheStage::Pull, Action::Podman(pull(image)))
        } else {
            (CacheStage::Marker, Action::ReadMarker)
        },
        CacheStage::Marker => match cache_due(&outcome.text, interval, now) {
            None => (CacheStage::End, Action::Abort(no_effects())),
            Some(due) => if due {
                (CacheStage::Pull, Action::Podman(pull(image)))
            } else {
                (CacheStage::End, Action::Done(no_effects()))
            },
        },
        CacheStage::Pull => if outcome.success {
            (CacheStage::Mark, Action::WriteMarker(i64_text(now)))
        } else {
            (CacheStage::End, Action::Fail(ImageError::CachePull))
        },
        CacheStage::Mark | CacheStage::End => (CacheStage::End, Action::Done(no_effects())),
    }
}

/// Once an update has been noted, no other is due until the time of the settings
/// has passed.
pub proof fn law_noted_update_holds(noted: i64, now: i64, interval: Seq<char>, seconds: int)
    requires
        interval_spec(interval) == Ok::<int, IntervalError>(seconds),
        seconds <= i64::MAX,
        i64::MIN <= now - noted <= i64::MAX,
    ensures
        cache_due_spec(Some(decimal(noted as int)), interval, now as int) == Some(
            now - noted >= seconds,
        ),
{
    law_decimal_reads_back(noted as int, i64::MIN as int, i64::MAX as int);
}

/// A forced update pulls the image without asking when it was last updated.
pub proof fn law_forced_update_pulls(
    outcome: OutcomeView,
    image: Seq<char>,
    interval: Seq<char>,
    now: i64,
)
    ensures
        cache_step_spec(CacheStage::Start, true, outcome, image, interval, now).1
            == ActionView::Podman(pull_spec(image)),
{
}

/// The update of the cached image, unless it is forced, begins with a look at
/// when it was last made. It is made where that cannot be told, or lies at least
/// the interval of the settings back, and is not made where it lies less far
/// back.
pub proof fn law_update_when_due(
    outcome: OutcomeView,
    image: Seq<char>,
    interval: Seq<char>,
    now: i64,
    last: i64,
    seconds: int,
)
    requires
        interval_spec(interval) == Ok::<int, IntervalError>(seconds),
        seconds <= i64::MAX,
        i64::MIN <= now - last <= i64::MAX,
    ensures
        cache_step_spec(CacheStage::Start, false, outcome, image, interval, now) == (
            CacheStage::Marker,
            ActionView::ReadMarker,
        ),
        ({
            let step = cache_step_spec(CacheStage::Marker, false, outcome, image, interval, now);
            let known = outcome.text matches Some(text) && parse_i64_spec(text) == Some(last as int);
            let unknown = outcome.text is None || parse_i64_spec(outcome.text->0) is None;
            &&& unknown || (known && now - last >= seconds) ==> step == (
                CacheStage::Pull,
                ActionView::Podman(seq!["pull"@, image]),
            )
            &&& known && now - last < seconds ==> step == (
                CacheStage::End,
                ActionView::Done(Seq::empty()),
            )
        }),
{
}

/// Where the settings hold no time span, an update is due after a day.
pub proof fn law_update_daily_otherwise(interval: Seq<char>, now: i64, last: i64)
    requires
        interval_spec(interval) is Err,
        i64::MIN <= now - last <= i64::MAX,
    ensures
        cache_due_spec(Some(decimal(last as int)), interval, now as int) == Some(
            now - last >= 24 * 60 * 60,
        ),
{
    law_decimal_reads_back(last as int, i64::MIN as int, i64::MAX as int);
}

/// An image that has been pulled is noted with the time, which a later look reads
/// back, and then the update is over; one that has not is a failure, and nothing
/// is noted.
pub proof fn law_update_is_noted(
    force: bool,
    outcome: OutcomeView,
    image: Seq<char>,
    interval: Seq<char>,
    now: i64,
)
    ensures
        ({
            let step = cache_step_spec(CacheStage::Pull, force, outcome, image, interval, now);
            &&& outcome.success ==> step.0 is Mark && (step.1 matches ActionView::WriteMarker(text)
                && parse_i64_spec(text) == Some(now as int))
            &&& !outcome.success ==> step.1 == ActionView::Fail(ImageError::CachePull)
        }),
        cache_step_spec(CacheStage::Mark, force, outcome, image, interval, now).1
            == ActionView::Done(Seq::empty()),
        cache_step_spec(CacheStage::Start, true, outcome, image, interval, now) == (
            CacheStage::Pull,
            ActionView::Podman(seq!["pull"@, image]),
        ),
{
    law_decimal_reads_back(now as int, i64::MIN as int, i64::MAX as int);
}

/// Where a time lies beyond what can be counted, it cannot be told whether an
/// update is due.
pub proof fn law_uncountable_age(last: i64, now: i64, interval: Seq<char>)
    ensures
        now - last > i64::MAX || now - last < i64::MIN ==> cache_due_spec(
            Some(decimal(last as int)),
            interval,
            now as int,
        ) is None,
        interval_spec(interval) is Ok && interval_spec(interval)->Ok_0 > i64::MAX
            ==> cache_due_spec(Some(decimal(last as int)), interval, now as int) is None,
{
    law_decimal_reads_back(last as int, i64::MIN as int, i64::MAX as int);
}

} // verus!
