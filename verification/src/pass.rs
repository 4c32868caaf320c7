//! One pass over the phrases that are rendered ahead of time.
//!
//! The directory of the voice is made. Then each phrase is taken in turn: its
//! file is looked up, and only where it is not there is the backend asked for
//! it. A phrase that fails does not stop the pass.
//!
//! [`Pass`] decides what is done at each step.

use crate::cache;
use crate::cache::{CacheError, CacheManager, PhraseOutcome, RenderReport, Tally};
use crate::synth::{Synth, SynthError};
use crate::text;
use vstd::prelude::*;

verus! {

/// Where a pass stands.
#[derive(Debug, Clone, Copy, PartialEq, Eq)]
pub enum PassPhase {
    /// The directory of the voice is being made.
    MakingDir,
    /// The file of a phrase is looked up.
    Looking,
    /// The backend is asked for a phrase.
    Rendering,
    /// It is over.
    Done,
}

/// What came of the last action.
#[derive(Debug)]
pub enum PassEvent {
    /// The directory is there.
    DirMade,
    /// The directory could not be made.
    DirFailed(String),
    /// Whether the file is there.
    Found(bool),
    /// The backend has rendered the phrase.
    Rendered,
    /// The backend has failed.
    RenderFailed(SynthError),
}

/// What is to be done next.
#[derive(Debug)]
pub enum PassAction {
    /// Make this directory.
    MakeDir(String),
    /// See whether this file exists.
    LookUp(String),
    /// Ask the backend for a phrase.
    Render {
        /// The voice.
        voice: String,
        /// The phrase.
        text: String,
        /// The file to render into.
        path: String,
    },
    /// It is over, and the report is complete.
    Finish,
    /// It is over because the directory could not be made.
    Fail(CacheError),
    /// Nothing more.
    Stop,
}

/// A pass over the phrases.
#[derive(Debug)]
pub struct Pass<'a> {
    /// The cache that the phrases are rendered into.
    pub cache: &'a CacheManager,
    /// The phrases.
    pub phrases: &'a [String],
    /// Where the pass stands.
    pub phase: PassPhase,
    /// The number of phrases that are done with.
    pub at: usize,
    /// What became of them.
    pub report: RenderReport,
}

/// An event with its texts as sequences of characters.
pub enum EventView {
    DirMade,
    DirFailed(Seq<char>),
    Found(bool),
    Rendered,
    RenderFailed(Seq<char>),
}

/// An action with its texts as sequences of characters.
pub enum ActionView {
    MakeDir(Seq<char>),
    LookUp(Seq<char>),
    Render { voice: Seq<char>, text: Seq<char>, path: Seq<char> },
    Finish,
    Fail { path: Seq<char>, source: Seq<char> },
    Stop,
}

/// What changes in a pass.
pub struct StateView {
    pub phase: PassPhase,
    pub at: nat,
    pub tally: Tally,
}

impl PassEvent {
    /// The event with its texts as sequences of characters.
    pub open spec fn view(self) -> EventView {
        match self {
            PassEvent::DirMade => EventView::DirMade,
            PassEvent::DirFailed(why) => EventView::DirFailed(why@),
            PassEvent::Found(b) => EventView::Found(b),
            PassEvent::Rendered => EventView::Rendered,
            PassEvent::RenderFailed(e) => EventView::RenderFailed(e.words()),
        }
    }
}

impl PassAction {
    /// Whether this is the action.
    pub open spec fn is(self, a: ActionView) -> bool {
        match (self, a) {
            (PassAction::MakeDir(d), ActionView::MakeDir(dir)) => d@ == dir,
            (PassAction::LookUp(p), ActionView::LookUp(path)) => p@ == path,
            (
                PassAction::Render { voice, text, path },
                ActionView::Render { voice: v, text: t, path: p },
            ) => voice@ == v && text@ == t && path@ == p,
            (PassAction::Finish, ActionView::Finish) => true,
            (
                PassAction::Fail(CacheError::Io { path, source }),
                ActionView::Fail { path: p, source: s },
            ) => path@ == p && source@ == s,
            (PassAction::Stop, ActionView::Stop) => true,
            _ => false,
        }
    }
}

/// Nothing is counted yet.
pub open spec fn nothing() -> Tally {
    Tally { hits: 0, rendered: 0, failures: Map::empty() }
}

/// Goes on with the phrase at `at`, if there is one.
pub open spec fn go_on(cache: CacheManager, phrases: Seq<Seq<char>>, at: nat, tally: Tally) -> (
    StateView,
    ActionView,
) {
    if at < phrases.len() {
        (
            StateView { phase: PassPhase::Looking, at, tally },
            ActionView::LookUp(cache.entry(phrases[at as int])),
        )
    } else {
        (StateView { phase: PassPhase::Done, at, tally }, ActionView::Finish)
    }
}

/// How a pass goes on after an event. An event that does not belong to the
/// phase ends it.
pub open spec fn next(
    cache: CacheManager,
    phrases: Seq<Seq<char>>,
    s: StateView,
    e: EventView,
) -> (StateView, ActionView) {
    let done = StateView { phase: PassPhase::Done, ..s };
    match (s.phase, e) {
        (PassPhase::MakingDir, EventView::DirMade) => go_on(cache, phrases, s.at, s.tally),
        (PassPhase::MakingDir, EventView::DirFailed(why)) => (
            done,
            ActionView::Fail { path: cache.dir(), source: why },
        ),
        (PassPhase::Looking, EventView::Found(true)) => go_on(
            cache,
            phrases,
            s.at + 1,
            Tally { hits: s.tally.hits + 1, ..s.tally },
        ),
        (PassPhase::Looking, EventView::Found(false)) => (
            StateView { phase: PassPhase::Rendering, ..s },
            ActionView::Render {
                voice: cache.voice@,
                text: phrases[s.at as int],
                path: cache.entry(phrases[s.at as int]),
            },
        ),
        (PassPhase::Rendering, EventView::Rendered) => go_on(
            cache,
            phrases,
            s.at + 1,
            Tally { rendered: s.tally.rendered + 1, ..s.tally },
        ),
        (PassPhase::Rendering, EventView::RenderFailed(why)) => go_on(
            cache,
            phrases,
            s.at + 1,
            Tally { failures: s.tally.failures.insert(phrases[s.at as int], why), ..s.tally },
        ),
        _ => (done, ActionView::Stop),
    }
}

impl<'a> Pass<'a> {
    /// What changes in the pass.
    pub open spec fn view(self) -> StateView {
        StateView { phase: self.phase, at: self.at as nat, tally: self.report@ }
    }

    /// The phrases as sequences of characters.
    pub open spec fn list(self) -> Seq<Seq<char>> {
        text::texts(self.phrases@)
    }

    /// No more phrases are counted than are done with, and while one is looked
    /// up or rendered there is one.
    pub open spec fn wf(self) -> bool {
        &&& self.report.wf()
        &&& self.report.hits + self.report.rendered <= self.at <= self.phrases@.len()
        &&& self.phase == PassPhase::Looking || self.phase == PassPhase::Rendering ==> self.at
            < self.phrases@.len()
    }

    /// Begins: the directory of the voice is to be made.
    pub fn begin(cache: &'a CacheManager, phrases: &'a [String]) -> (r: (Self, PassAction))
        ensures
            r.0.wf(),
            *r.0.cache == *cache,
            r.0.phrases@ == phrases@,
            r.0@ == (StateView { phase: PassPhase::MakingDir, at: 0, tally: nothing() }),
            r.1.is(ActionView::MakeDir(cache.dir())),
    {
        (
            Pass {
                cache,
                phrases,
                phase: PassPhase::MakingDir,
                at: 0,
                report: RenderReport::new(),
            },
            PassAction::MakeDir(cache.voice_dir()),
        )
    }

    fn look_up(&mut self) -> (r: PassAction)
        requires
            old(self).report.wf(),
            old(self).report.hits + old(self).report.rendered <= old(self).at <= old(
                self,
            ).phrases@.len(),
        ensures
            final(self).wf(),
            final(self).cache == old(self).cache,
            final(self).phrases == old(self).phrases,
            final(self)@ == go_on(
                *old(self).cache,
                old(self).list(),
                old(self).at as nat,
                old(self).report@,
            ).0,
            r.is(
                go_on(
                    *old(self).cache,
                    old(self).list(),
                    old(self).at as nat,
                    old(self).report@,
                ).1,
            ),
    {
        if self.at < self.phrases.len() {
            self.phase = PassPhase::Looking;
            PassAction::LookUp(self.cache.entry_path(self.phrases[self.at].as_str()))
        } else {
            self.phase = PassPhase::Done;
            PassAction::Finish
        }
    }

    /// Takes what came of the last action and says what is done next.
    pub fn step(&mut self, e: PassEvent) -> (r: PassAction)
        requires
            old(self).wf(),
        ensures
            final(self).wf(),
            final(self).cache == old(self).cache,
            final(self).phrases == old(self).phrases,
            final(self)@ == next(*old(self).cache, old(self).list(), old(self)@, e@).0,
            r.is(next(*old(self).cache, old(self).list(), old(self)@, e@).1),
    {
        let _count: usize = self.phrases.len();
        match (self.phase, e) {
            (PassPhase::MakingDir, PassEvent::DirMade) => self.look_up(),
            (PassPhase::MakingDir, PassEvent::DirFailed(source)) => {
                self.phase = PassPhase::Done;
                PassAction::Fail(CacheError::Io { path: self.cache.voice_dir(), source })
            },
            (PassPhase::Looking, PassEvent::Found(true)) => {
                self.report.hits += 1;
                self.at += 1;
                self.look_up()
            },
            (PassPhase::Looking, PassEvent::Found(false)) => {
                let phrase = self.phrases[self.at].as_str();
                let action = PassAction::Render {
                    voice: self.cache.voice.clone(),
                    text: phrase.to_owned(),
                    path: self.cache.entry_path(phrase),
                };
                self.phase = PassPhase::Rendering;
                action
            },
            (PassPhase::Rendering, PassEvent::Rendered) => {
                self.report.rendered += 1;
                self.at += 1;
                self.look_up()
            },
            (PassPhase::Rendering, PassEvent::RenderFailed(e)) => {
                let phrase = self.phrases[self.at].as_str();
                self.report.record_failure(phrase, e.message());
                self.at += 1;
                self.look_up()
            },
            _ => {
                self.phase = PassPhase::Done;
                PassAction::Stop
            },
        }
    }
}

/// The state after the first `n` events.
pub open spec fn state_after(
    cache: CacheManager,
    phrases: Seq<Seq<char>>,
    events: Seq<EventView>,
    n: nat,
) -> StateView
    decreases n,
{
    if n == 0 {
        StateView { phase: PassPhase::MakingDir, at: 0, tally: nothing() }
    } else {
        next(
            cache,
            phrases,
            state_after(cache, phrases, events, (n - 1) as nat),
            events[n - 1],
        ).0
    }
}

/// The action after the first `n` events.
pub open spec fn action_after(
    cache: CacheManager,
    phrases: Seq<Seq<char>>,
    events: Seq<EventView>,
    n: nat,
) -> ActionView {
    if n == 0 {
        ActionView::MakeDir(cache.dir())
    } else {
        next(
            cache,
            phrases,
            state_after(cache, phrases, events, (n - 1) as nat),
            events[n - 1],
        ).1
    }
}

/// Whether an action may be answered with this event: making a directory,
/// looking for a file and asking the backend each by what the call with just
/// these arguments may give.
pub open spec fn may_answer<S: Synth, D: Fn(&str) -> Result<(), String>, F: Fn(&str) -> bool>(
    synth: S,
    create_dir: D,
    is_file: F,
    action: ActionView,
    e: EventView,
) -> bool {
    match (action, e) {
        (ActionView::MakeDir(dir), EventView::DirMade) => exists|
            d: &str,
            made: Result<(), String>,
        |
            d@ == dir && made is Ok && #[trigger] call_ensures(create_dir, (d,), made),
        (ActionView::MakeDir(dir), EventView::DirFailed(why)) => exists|d: &str, source: String|
            d@ == dir && source@ == why && #[trigger] call_ensures(create_dir, (d,), Err(source)),
        (ActionView::LookUp(path), EventView::Found(there)) => exists|p: &str|
            p@ == path && #[trigger] call_ensures(is_file, (p,), there),
        (ActionView::Render { voice, text, path }, EventView::Rendered) => exists|
            v: &str,
            t: &str,
            p: &str,
            result: Result<(), SynthError>,
        |
            v@ == voice && t@ == text && p@ == path && result is Ok && #[trigger] call_ensures(
                S::render,
                (&synth, v, t, p),
                result,
            ),
        (ActionView::Render { voice, text, path }, EventView::RenderFailed(why)) => exists|
            v: &str,
            t: &str,
            p: &str,
            failed: SynthError,
        |
            v@ == voice && t@ == text && p@ == path && failed.words() == why
                && #[trigger] call_ensures(S::render, (&synth, v, t, p), Err(failed)),
        _ => false,
    }
}

/// Whether a pass may go through these events.
pub open spec fn may_go<S: Synth, D: Fn(&str) -> Result<(), String>, F: Fn(&str) -> bool>(
    cache: CacheManager,
    phrases: Seq<Seq<char>>,
    synth: S,
    create_dir: D,
    is_file: F,
    events: Seq<EventView>,
) -> bool {
    forall|i: int|
        0 <= i < events.len() ==> may_answer(
            synth,
            create_dir,
            is_file,
            action_after(cache, phrases, events, i as nat),
            #[trigger] events[i],
        )
}

/// Whether a pass that went through these events gives this result.
pub open spec fn gives(
    cache: CacheManager,
    phrases: Seq<Seq<char>>,
    events: Seq<EventView>,
    r: Result<RenderReport, CacheError>,
) -> bool {
    match action_after(cache, phrases, events, events.len()) {
        ActionView::Finish => r matches Ok(report) && report.wf() && report@ == state_after(
            cache,
            phrases,
            events,
            events.len(),
        ).tally,
        ActionView::Fail { path, source } => r matches Err(CacheError::Io { path: p, source: s })
            && p@ == path && s@ == source,
        _ => false,
    }
}

proof fn lemma_prefix(
    cache: CacheManager,
    phrases: Seq<Seq<char>>,
    events: Seq<EventView>,
    e: EventView,
    n: nat,
)
    requires
        n <= events.len(),
    ensures
        state_after(cache, phrases, events.push(e), n) == state_after(cache, phrases, events, n),
        action_after(cache, phrases, events.push(e), n) == action_after(cache, phrases, events, n),
    decreases n,
{
    if n > 0 {
        lemma_prefix(cache, phrases, events, e, (n - 1) as nat);
    }
}

/// One more event that the last action may be answered with.
pub(crate) proof fn lemma_goes_on<
    S: Synth,
    D: Fn(&str) -> Result<(), String>,
    F: Fn(&str) -> bool,
>(
    cache: CacheManager,
    phrases: Seq<Seq<char>>,
    synth: S,
    create_dir: D,
    is_file: F,
    events: Seq<EventView>,
    e: EventView,
)
    requires
        may_go(cache, phrases, synth, create_dir, is_file, events),
        may_answer(
            synth,
            create_dir,
            is_file,
            action_after(cache, phrases, events, events.len()),
            e,
        ),
    ensures
        may_go(cache, phrases, synth, create_dir, is_file, events.push(e)),
        state_after(cache, phrases, events.push(e), events.len() + 1) == next(
            cache,
            phrases,
            state_after(cache, phrases, events, events.len()),
            e,
        ).0,
        action_after(cache, phrases, events.push(e), events.len() + 1) == next(
            cache,
            phrases,
            state_after(cache, phrases, events, events.len()),
            e,
        ).1,
{
    let all = events.push(e);
    lemma_prefix(cache, phrases, events, e, events.len());
    assert forall|i: int| 0 <= i < all.len() implies may_answer(
        synth,
        create_dir,
        is_file,
        action_after(cache, phrases, all, i as nat),
        #[trigger] all[i],
    ) by {
        lemma_prefix(cache, phrases, events, e, i as nat);
        if i < events.len() {
            assert(all[i] == events[i]);
        }
    }
}

/// Whether an action is one that leads into the state.
pub(crate) open spec fn in_step(s: StateView, a: ActionView) -> bool {
    match s.phase {
        PassPhase::MakingDir => a is MakeDir,
        PassPhase::Looking => a is LookUp,
        PassPhase::Rendering => a is Render,
        PassPhase::Done => a is Finish || a is Fail,
    }
}

/// An upper bound on the steps that a pass has before it.
pub(crate) open spec fn steps_left(s: StateView, count: nat) -> int {
    match s.phase {
        PassPhase::MakingDir => 2 * (count as int) + 3,
        PassPhase::Looking => 2 * (count - s.at) + 2,
        PassPhase::Rendering => 2 * (count - s.at) + 1,
        PassPhase::Done => 0,
    }
}

/// An action that is answered leads on.
pub(crate) proof fn lemma_in_step<
    S: Synth,
    D: Fn(&str) -> Result<(), String>,
    F: Fn(&str) -> bool,
>(
    cache: CacheManager,
    phrases: Seq<Seq<char>>,
    synth: S,
    create_dir: D,
    is_file: F,
    s: StateView,
    a: ActionView,
    e: EventView,
)
    requires
        in_step(s, a),
        s.at <= phrases.len(),
        s.phase == PassPhase::Looking || s.phase == PassPhase::Rendering ==> s.at < phrases.len(),
        may_answer(synth, create_dir, is_file, a, e),
    ensures
        ({
            let (t, b) = next(cache, phrases, s, e);
            &&& in_step(t, b)
            &&& 0 <= steps_left(t, phrases.len()) < steps_left(s, phrases.len())
        }),
{
}

// ---- what every pass keeps to --------------------------------------------

proof fn lemma_state(
    cache: CacheManager,
    phrases: Seq<Seq<char>>,
    events: Seq<EventView>,
    n: nat,
)
    ensures
        ({
            let s = state_after(cache, phrases, events, n);
            let a = action_after(cache, phrases, events, n);
            &&& s.at <= phrases.len()
            &&& s.phase == PassPhase::MakingDir ==> n == 0
            &&& s.phase == PassPhase::Looking ==> s.at < phrases.len() && a == ActionView::LookUp(
                cache.entry(phrases[s.at as int]),
            )
            &&& s.phase == PassPhase::Rendering <==> a is Render
            &&& s.phase == PassPhase::Rendering ==> s.at < phrases.len() && a
                == (ActionView::Render {
                voice: cache.voice@,
                text: phrases[s.at as int],
                path: cache.entry(phrases[s.at as int]),
            })
            &&& a is Finish ==> s.phase == PassPhase::Done && s.at == phrases.len()
        }),
    decreases n,
{
    if n > 0 {
        lemma_state(cache, phrases, events, (n - 1) as nat);
    }
}

/// The backend is asked for a phrase only right after its file was looked up
/// and not found: in the voice of the cache, for the phrase at hand, and into
/// its file. For a phrase whose file is there it is never asked.
pub proof fn backend_is_asked_only_for_missing_files(
    cache: CacheManager,
    phrases: Seq<Seq<char>>,
    events: Seq<EventView>,
    n: nat,
)
    requires
        action_after(cache, phrases, events, n) is Render,
    ensures
        ({
            let at = state_after(cache, phrases, events, n).at;
            &&& n > 0
            &&& at < phrases.len()
            &&& action_after(cache, phrases, events, n) == (ActionView::Render {
                voice: cache.voice@,
                text: phrases[at as int],
                path: cache.entry(phrases[at as int]),
            })
            &&& action_after(cache, phrases, events, (n - 1) as nat) == ActionView::LookUp(
                cache.entry(phrases[at as int]),
            )
            &&& events[n - 1] == EventView::Found(false)
        }),
{
    lemma_state(cache, phrases, events, n);
    lemma_state(cache, phrases, events, (n - 1) as nat);
}

/// A file that is not found is asked of the backend next; after one that is
/// found, the backend is not asked.
pub proof fn missing_file_is_asked_for(
    cache: CacheManager,
    phrases: Seq<Seq<char>>,
    events: Seq<EventView>,
    n: nat,
)
    requires
        n < events.len(),
        state_after(cache, phrases, events, n).phase == PassPhase::Looking,
    ensures
        ({
            let at = state_after(cache, phrases, events, n).at;
            let then = action_after(cache, phrases, events, n + 1);
            &&& at < phrases.len()
            &&& action_after(cache, phrases, events, n) == ActionView::LookUp(
                cache.entry(phrases[at as int]),
            )
            &&& events[n as int] == EventView::Found(false) ==> then == (ActionView::Render {
                voice: cache.voice@,
                text: phrases[at as int],
                path: cache.entry(phrases[at as int]),
            })
            &&& events[n as int] == EventView::Found(true) ==> !(then is Render)
        }),
{
    lemma_state(cache, phrases, events, n);
}

proof fn lemma_at_grows(
    cache: CacheManager,
    phrases: Seq<Seq<char>>,
    events: Seq<EventView>,
    i: nat,
    j: nat,
)
    requires
        i <= j,
    ensures
        state_after(cache, phrases, events, i).at <= state_after(cache, phrases, events, j).at,
        state_after(cache, phrases, events, i).phase == PassPhase::Done ==> state_after(
            cache,
            phrases,
            events,
            j,
        ).phase == PassPhase::Done,
    decreases j,
{
    if i < j {
        lemma_at_grows(cache, phrases, events, i, (j - 1) as nat);
    }
}

/// The backend is asked for each phrase at most once, and in the order of the
/// list.
pub proof fn backend_is_asked_once_and_in_order(
    cache: CacheManager,
    phrases: Seq<Seq<char>>,
    events: Seq<EventView>,
    i: nat,
    j: nat,
)
    requires
        i < j,
        action_after(cache, phrases, events, i) is Render,
        action_after(cache, phrases, events, j) is Render,
    ensures
        state_after(cache, phrases, events, i).at < state_after(cache, phrases, events, j).at,
{
    lemma_state(cache, phrases, events, i);
    lemma_state(cache, phrases, events, j);
    lemma_at_grows(cache, phrases, events, i + 1, j);
}

/// Once the directory could not be made, the pass fails with it and nothing
/// more is done: the backend is not asked at all.
pub proof fn nothing_follows_a_failed_directory(
    cache: CacheManager,
    phrases: Seq<Seq<char>>,
    events: Seq<EventView>,
    why: Seq<char>,
    n: nat,
)
    requires
        0 < n <= events.len(),
        events[0] == EventView::DirFailed(why),
    ensures
        action_after(cache, phrases, events, n) == (if n == 1 {
            ActionView::Fail { path: cache.dir(), source: why }
        } else {
            ActionView::Stop
        }),
{
    reveal_with_fuel(state_after, 2);
    assert(state_after(cache, phrases, events, 1).phase == PassPhase::Done);
    lemma_at_grows(cache, phrases, events, 1, n);
    if n > 1 {
        lemma_at_grows(cache, phrases, events, 1, (n - 1) as nat);
    }
}

// ---- what the result says ------------------------------------------------

/// What became of the phrases that were done with in the first `n` events.
pub open spec fn outcomes_of(events: Seq<EventView>, n: nat) -> Seq<PhraseOutcome>
    decreases n,
{
    if n == 0 {
        Seq::empty()
    } else {
        let before = outcomes_of(events, (n - 1) as nat);
        match events[n - 1] {
            EventView::Found(true) => before.push(PhraseOutcome::Hit),
            EventView::Rendered => before.push(PhraseOutcome::Rendered),
            EventView::RenderFailed(why) => before.push(PhraseOutcome::Failed(why)),
            _ => before,
        }
    }
}

proof fn lemma_outcomes<S: Synth, D: Fn(&str) -> Result<(), String>, F: Fn(&str) -> bool>(
    cache: CacheManager,
    phrases: Seq<Seq<char>>,
    synth: S,
    create_dir: D,
    is_file: F,
    events: Seq<EventView>,
    n: nat,
)
    requires
        may_go(cache, phrases, synth, create_dir, is_file, events),
        n <= events.len(),
    ensures
        ({
            let s = state_after(cache, phrases, events, n);
            let outcomes = outcomes_of(events, n);
            &&& in_step(s, action_after(cache, phrases, events, n))
            &&& s.at == outcomes.len()
            &&& s.tally == cache::tally(phrases, outcomes)
            &&& s.phase == PassPhase::Rendering ==> cache.seen(
                is_file,
                phrases[s.at as int],
                false,
            )
            &&& forall|i: int|
                0 <= i < outcomes.len() ==> cache.may_fare(
                    synth,
                    is_file,
                    phrases[i],
                    #[trigger] outcomes[i],
                )
            &&& n > 0 && !(action_after(cache, phrases, events, n) is Fail) ==> exists|
                made: Result<(), String>,
            |
                made is Ok && #[trigger] cache.may_make(create_dir, made)
        }),
    decreases n,
{
    if n > 0 {
        let m = (n - 1) as nat;
        lemma_outcomes(cache, phrases, synth, create_dir, is_file, events, m);
        lemma_state(cache, phrases, events, m);
        let s = state_after(cache, phrases, events, m);
        let e = events[m as int];
        let asked = action_after(cache, phrases, events, m);
        assert(may_answer(synth, create_dir, is_file, asked, e));
        let before = outcomes_of(events, m);
        let outcomes = outcomes_of(events, n);
        if m == 0 {
            if e is DirMade {
                let (d, made) = choose|d: &str, made: Result<(), String>|
                    d@ == cache.dir() && made is Ok && #[trigger] call_ensures(
                        create_dir,
                        (d,),
                        made,
                    );
                assert(cache.may_make(create_dir, made));
            }
        }
        if outcomes.len() > before.len() {
            assert(outcomes.drop_last() == before);
            let at = s.at as int;
            assert(cache.may_fare(synth, is_file, phrases[at], outcomes[at])) by {
                match e {
                    EventView::Found(true) => {
                        assert(cache.seen(is_file, phrases[at], true));
                    },
                    EventView::Rendered => {
                        let (v, t, p, result) = choose|
                            v: &str,
                            t: &str,
                            p: &str,
                            result: Result<(), SynthError>,
                        |
                            v@ == cache.voice@ && t@ == phrases[at] && p@ == cache.entry(
                                phrases[at],
                            ) && result is Ok && #[trigger] call_ensures(
                                S::render,
                                (&synth, v, t, p),
                                result,
                            );
                        assert(cache.may_render(synth, phrases[at], result));
                    },
                    EventView::RenderFailed(why) => {
                        let (v, t, p, failed) = choose|
                            v: &str,
                            t: &str,
                            p: &str,
                            failed: SynthError,
                        |
                            v@ == cache.voice@ && t@ == phrases[at] && p@ == cache.entry(
                                phrases[at],
                            ) && failed.words() == why && #[trigger] call_ensures(
                                S::render,
                                (&synth, v, t, p),
                                Err(failed),
                            );
                        assert(cache.may_render(synth, phrases[at], Err(failed)));
                    },
                    _ => {},
                }
            }
            assert forall|i: int| 0 <= i < outcomes.len() implies cache.may_fare(
                synth,
                is_file,
                phrases[i],
                #[trigger] outcomes[i],
            ) by {
                if i < before.len() {
                    assert(outcomes[i] == before[i]);
                }
            }
        }
    }
}

/// What a pass returns: a report exactly if the directory was made, and then
/// one that counts every phrase as what became of it; else the error that says
/// why there is no directory. A failure of the backend is never the error.
pub proof fn result_tells_what_became_of_each_phrase<
    S: Synth,
    D: Fn(&str) -> Result<(), String>,
    F: Fn(&str) -> bool,
>(
    cache: CacheManager,
    phrases: Seq<Seq<char>>,
    synth: S,
    create_dir: D,
    is_file: F,
    r: Result<RenderReport, CacheError>,
)
    requires
        cache.may_prerender(phrases, synth, create_dir, is_file, r),
    ensures
        match r {
            Ok(report) => {
                &&& exists|made: Result<(), String>|
                    made is Ok && #[trigger] cache.may_make(create_dir, made)
                &&& report.wf()
                &&& cache.may_report(synth, is_file, phrases, report@)
            },
            Err(CacheError::Io { path, source }) => {
                &&& path@ == cache.dir()
                &&& exists|why: String|
                    why@ == source@ && #[trigger] cache.may_make(create_dir, Err(why))
            },
            Err(CacheError::Synth(_)) => false,
        },
{
    let events = choose|events: Seq<EventView>| #[trigger]
        may_go(cache, phrases, synth, create_dir, is_file, events) && gives(
            cache,
            phrases,
            events,
            r,
        );
    let n = events.len();
    lemma_outcomes(cache, phrases, synth, create_dir, is_file, events, n);
    lemma_state(cache, phrases, events, n);
    let last = action_after(cache, phrases, events, n);
    if last is Finish {
        assert(report_is_tally(cache, phrases, events, n, outcomes_of(events, n)));
    } else {
        let m = (n - 1) as nat;
        lemma_state(cache, phrases, events, m);
        lemma_outcomes(cache, phrases, synth, create_dir, is_file, events, m);
        let e = events[m as int];
        assert(may_answer(
            synth,
            create_dir,
            is_file,
            action_after(cache, phrases, events, m),
            e,
        ));
        let why = e->DirFailed_0;
        let (d, source) = choose|d: &str, source: String|
            d@ == cache.dir() && source@ == why && #[trigger] call_ensures(
                create_dir,
                (d,),
                Err(source),
            );
        assert(cache.may_make(create_dir, Err(source)));
    }
}

spec fn report_is_tally(
    cache: CacheManager,
    phrases: Seq<Seq<char>>,
    events: Seq<EventView>,
    n: nat,
    outcomes: Seq<PhraseOutcome>,
) -> bool {
    &&& outcomes.len() == phrases.len()
    &&& state_after(cache, phrases, events, n).tally == cache::tally(phrases, outcomes)
}

/// A pass over phrases that differ from each other counts each of them once.
pub proof fn pass_counts_every_phrase_once<
    S: Synth,
    D: Fn(&str) -> Result<(), String>,
    F: Fn(&str) -> bool,
>(
    cache: CacheManager,
    phrases: Seq<Seq<char>>,
    synth: S,
    create_dir: D,
    is_file: F,
    report: RenderReport,
)
    requires
        phrases.no_duplicates(),
        cache.may_prerender(phrases, synth, create_dir, is_file, Ok(report)),
    ensures
        report@.hits + report@.rendered + report@.failures.len() == phrases.len(),
{
    result_tells_what_became_of_each_phrase(
        cache,
        phrases,
        synth,
        create_dir,
        is_file,
        Ok(report),
    );
    let outcomes = choose|outcomes: Seq<PhraseOutcome>|
        outcomes.len() == phrases.len() && (forall|i: int|
            0 <= i < outcomes.len() ==> cache.may_fare(
                synth,
                is_file,
                phrases[i],
                #[trigger] outcomes[i],
            )) && report@ == #[trigger] cache::tally(phrases, outcomes);
    cache::every_phrase_is_counted_once(phrases, outcomes);
}

// ---- a second pass -------------------------------------------------------

/// The files on disk after the first `n` events of a pass that began with
/// `files`: whatever the backend rendered has been added.
pub open spec fn files_after(
    cache: CacheManager,
    phrases: Seq<Seq<char>>,
    events: Seq<EventView>,
    files: Set<Seq<char>>,
    n: nat,
) -> Set<Seq<char>>
    decreases n,
{
    if n == 0 {
        files
    } else {
        let before = files_after(cache, phrases, events, files, (n - 1) as nat);
        match action_after(cache, phrases, events, (n - 1) as nat) {
            ActionView::Render { path, .. } => if events[n - 1] is Rendered {
                before.insert(path)
            } else {
                before
            },
            _ => before,
        }
    }
}

/// Whether the event at `i` is the answer of a disk that began with `files`: a
/// file is found exactly if it is there when it is looked up.
pub open spec fn goes_by_files_at(
    cache: CacheManager,
    phrases: Seq<Seq<char>>,
    events: Seq<EventView>,
    files: Set<Seq<char>>,
    i: nat,
) -> bool {
    let e = events[i as int];
    match action_after(cache, phrases, events, i) {
        ActionView::MakeDir(_) => e is DirMade || e is DirFailed,
        ActionView::LookUp(path) => e == EventView::Found(
            files_after(cache, phrases, events, files, i).contains(path),
        ),
        ActionView::Render { .. } => e is Rendered || e is RenderFailed,
        _ => false,
    }
}

/// Whether the answers of a pass are those of a disk that began with `files`.
pub open spec fn goes_by_files(
    cache: CacheManager,
    phrases: Seq<Seq<char>>,
    events: Seq<EventView>,
    files: Set<Seq<char>>,
) -> bool {
    forall|i: nat|
        i < events.len() ==> #[trigger] goes_by_files_at(cache, phrases, events, files, i)
}

proof fn lemma_done_files(
    cache: CacheManager,
    phrases: Seq<Seq<char>>,
    events: Seq<EventView>,
    files: Set<Seq<char>>,
    n: nat,
)
    requires
        n <= events.len(),
        goes_by_files(cache, phrases, events, files),
        forall|i: int| 0 <= i < events.len() ==> !((#[trigger] events[i]) is RenderFailed),
    ensures
        ({
            let s = state_after(cache, phrases, events, n);
            forall|k: int|
                0 <= k < s.at ==> files_after(cache, phrases, events, files, n).contains(
                    cache.entry(#[trigger] phrases[k]),
                )
        }),
    decreases n,
{
    if n > 0 {
        let m = (n - 1) as nat;
        lemma_done_files(cache, phrases, events, files, m);
        lemma_state(cache, phrases, events, m);
        assert(goes_by_files_at(cache, phrases, events, files, m));
        assert(!(events[m as int] is RenderFailed));
    }
}

proof fn lemma_second(
    cache: CacheManager,
    phrases: Seq<Seq<char>>,
    events: Seq<EventView>,
    files: Set<Seq<char>>,
    n: nat,
)
    requires
        n <= events.len(),
        goes_by_files(cache, phrases, events, files),
        forall|k: int|
            0 <= k < phrases.len() ==> files.contains(cache.entry(#[trigger] phrases[k])),
    ensures
        ({
            let s = state_after(cache, phrases, events, n);
            &&& !(action_after(cache, phrases, events, n) is Render)
            &&& files_after(cache, phrases, events, files, n) == files
            &&& s.tally == (Tally { hits: s.at, rendered: 0, failures: Map::empty() })
        }),
    decreases n,
{
    if n > 0 {
        let m = (n - 1) as nat;
        lemma_second(cache, phrases, events, files, m);
        lemma_state(cache, phrases, events, m);
        assert(goes_by_files_at(cache, phrases, events, files, m));
    }
}

/// Rendering ahead is idempotent. After a pass that finished without a failure,
/// a second pass over the same phrases finds every file, as long as none was
/// removed: it asks the backend for nothing, and if it finishes, its report is
/// all hits.
pub proof fn second_pass_asks_for_nothing(
    cache: CacheManager,
    phrases: Seq<Seq<char>>,
    files: Set<Seq<char>>,
    first: Seq<EventView>,
    later: Set<Seq<char>>,
    second: Seq<EventView>,
    n: nat,
)
    requires
        goes_by_files(cache, phrases, first, files),
        action_after(cache, phrases, first, first.len()) is Finish,
        forall|i: int| 0 <= i < first.len() ==> !((#[trigger] first[i]) is RenderFailed),
        files_after(cache, phrases, first, files, first.len()).subset_of(later),
        goes_by_files(cache, phrases, second, later),
        n <= second.len(),
    ensures
        !(action_after(cache, phrases, second, n) is Render),
        action_after(cache, phrases, second, n) is Finish ==> state_after(
            cache,
            phrases,
            second,
            n,
        ).tally == (Tally { hits: phrases.len(), rendered: 0, failures: Map::empty() }),
{
    lemma_done_files(cache, phrases, first, files, first.len());
    lemma_state(cache, phrases, first, first.len());
    lemma_second(cache, phrases, second, later, n);
    lemma_state(cache, phrases, second, n);
}

/// Where every file is there, whatever the backend might do, a report is all
/// hits.
pub proof fn all_hits_where_every_file_is_there<
    S: Synth,
    D: Fn(&str) -> Result<(), String>,
    F: Fn(&str) -> bool,
>(
    cache: CacheManager,
    phrases: Seq<Seq<char>>,
    synth: S,
    create_dir: D,
    is_file: F,
    report: RenderReport,
)
    requires
        cache.may_prerender(phrases, synth, create_dir, is_file, Ok(report)),
        forall|k: int| 0 <= k < phrases.len() ==> !cache.seen(is_file, #[trigger] phrases[k], false),
    ensures
        report@ == (Tally { hits: phrases.len(), rendered: 0, failures: Map::empty() }),
{
    result_tells_what_became_of_each_phrase(
        cache,
        phrases,
        synth,
        create_dir,
        is_file,
        Ok(report),
    );
    let outcomes = choose|outcomes: Seq<PhraseOutcome>|
        outcomes.len() == phrases.len() && (forall|i: int|
            0 <= i < outcomes.len() ==> cache.may_fare(
                synth,
                is_file,
                phrases[i],
                #[trigger] outcomes[i],
            )) && report@ == #[trigger] cache::tally(phrases, outcomes);
    assert forall|i: int| 0 <= i < outcomes.len() implies (#[trigger] outcomes[i]) is Hit by {
        assert(!cache.seen(is_file, phrases[i], false));
        assert(cache.may_fare(synth, is_file, phrases[i], outcomes[i]));
    }
    cache::lemma_all_hits(phrases, outcomes);
}

/// Whether a pass may have left a phrase with its file there: it was found, or
/// the backend rendered it.
pub open spec fn may_leave<S: Synth, F: Fn(&str) -> bool>(
    cache: CacheManager,
    synth: S,
    is_file: F,
    phrase: Seq<char>,
) -> bool {
    cache.seen(is_file, phrase, true) || exists|result: Result<(), SynthError>|
        result is Ok && #[trigger] cache.may_render(synth, phrase, result)
}

/// Two passes in a row: where the first returned a report without failures,
/// and a file that was there then, or that the backend rendered, is found in
/// the second, the second returns nothing but hits.
pub proof fn second_result_is_all_hits<
    S: Synth,
    D: Fn(&str) -> Result<(), String>,
    F: Fn(&str) -> bool,
    E: Fn(&str) -> Result<(), String>,
    G: Fn(&str) -> bool,
>(
    cache: CacheManager,
    phrases: Seq<Seq<char>>,
    synth: S,
    create_dir: D,
    is_file: F,
    first: RenderReport,
    create_dir_later: E,
    is_file_later: G,
    second: RenderReport,
)
    requires
        cache.may_prerender(phrases, synth, create_dir, is_file, Ok(first)),
        first@.failures == Map::<Seq<char>, Seq<char>>::empty(),
        cache.may_prerender(phrases, synth, create_dir_later, is_file_later, Ok(second)),
        forall|k: int|
            0 <= k < phrases.len() && may_leave(cache, synth, is_file, #[trigger] phrases[k])
                ==> !cache.seen(is_file_later, phrases[k], false),
    ensures
        second@ == (Tally { hits: phrases.len(), rendered: 0, failures: Map::empty() }),
{
    result_tells_what_became_of_each_phrase(cache, phrases, synth, create_dir, is_file, Ok(first));
    let outcomes = choose|outcomes: Seq<PhraseOutcome>|
        outcomes.len() == phrases.len() && (forall|i: int|
            0 <= i < outcomes.len() ==> cache.may_fare(
                synth,
                is_file,
                phrases[i],
                #[trigger] outcomes[i],
            )) && first@ == #[trigger] cache::tally(phrases, outcomes);
    assert forall|k: int| 0 <= k < phrases.len() implies !cache.seen(
        is_file_later,
        #[trigger] phrases[k],
        false,
    ) by {
        assert(cache.may_fare(synth, is_file, phrases[k], outcomes[k]));
        if outcomes[k] is Failed {
            lemma_failure_is_told(phrases, outcomes, k);
        }
        assert(may_leave(cache, synth, is_file, phrases[k]));
    }
    all_hits_where_every_file_is_there(
        cache,
        phrases,
        synth,
        create_dir_later,
        is_file_later,
        second,
    );
}

proof fn lemma_failure_is_told(
    phrases: Seq<Seq<char>>,
    outcomes: Seq<PhraseOutcome>,
    k: int,
)
    requires
        0 <= k < outcomes.len(),
        outcomes[k] is Failed,
    ensures
        cache::tally(phrases, outcomes).failures.contains_key(phrases[k]),
    decreases outcomes.len(),
{
    if k < outcomes.len() - 1 {
        lemma_failure_is_told(phrases, outcomes.drop_last(), k);
    }
}

} // verus!
