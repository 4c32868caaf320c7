//! Cache of rendered phrases.
//!
//! Short phrases are rendered ahead of time. The file of a phrase is
//! `<root>/<voice>/<name>.wav`, where the name is the first sixteen
//! hexadecimal digits of the SHA-256 digest of the phrase, trimmed and in
//! lower case: `"Yes"` and `" yes "` share a file.

use crate::pass;
use crate::pass::{Pass, PassAction, PassEvent};
use crate::paths;
use crate::synth::{Synth, SynthError};
use crate::text;
use sha2::Digest;
use vstd::prelude::*;

verus! {

/// The SHA-256 digest of a byte string.
pub uninterp spec fn sha256_digest(data: Seq<u8>) -> Seq<u8>;

/// `sha2::Sha256::digest`: the SHA-256 digest, which depends on the bytes
/// alone and is 32 bytes long.
#[verifier::external_body]
fn sha256(data: &[u8]) -> (r: Vec<u8>)
    ensures
        r@ == sha256_digest(data@),
        r@.len() == 32,
{
    sha2::Sha256::digest(data).to_vec()
}

/// Two hexadecimal digits for each byte.
pub open spec fn hex_bytes(b: Seq<u8>) -> Seq<char>
    decreases b.len(),
{
    if b.len() == 0 {
        Seq::empty()
    } else {
        hex_bytes(b.drop_last()) + text::hex_text(b.last() as nat, 2)
    }
}

/// A phrase as the cache looks it up: trimmed and in lower case.
pub open spec fn normalized(phrase: Seq<char>) -> Seq<char> {
    text::lower(text::trimmed(phrase))
}

/// The file name that belongs to a digest.
pub open spec fn digest_file_name(digest: Seq<u8>) -> Seq<char> {
    hex_bytes(digest.take(8)) + ".wav"@
}

/// The digest of a phrase.
pub open spec fn phrase_digest(phrase: Seq<char>) -> Seq<u8> {
    sha256_digest(vstd::utf8::encode_utf8(normalized(phrase)))
}

/// Trims a phrase and puts it in lower case.
pub fn normalize(phrase: &str) -> (r: String)
    ensures
        r@ == normalized(phrase@),
{
    text::to_lower(text::trim(phrase))
}

/// The file name that belongs to a digest.
pub fn file_name_for_digest(digest: &[u8]) -> (r: String)
    requires
        digest@.len() >= 8,
    ensures
        r@ == digest_file_name(digest@),
{
    let mut name = String::new();
    let mut i: usize = 0;
    while i < 8
        invariant
            i <= 8 <= digest@.len(),
            name@ == hex_bytes(digest@.take(i as int)),
        decreases 8 - i,
    {
        let pair = text::hex(digest[i] as u64, 2);
        name.append(pair.as_str());
        assert(digest@.take(i as int + 1).drop_last() == digest@.take(i as int));
        i += 1;
    }
    name.append(".wav");
    name
}

/// Failure of the cache as a whole.
#[derive(Debug, PartialEq, Eq)]
pub enum CacheError {
    /// The cache directory could not be made.
    Io {
        /// The directory.
        path: String,
        /// Why it failed.
        source: String,
    },
    /// The synthesis backend failed.
    Synth(SynthError),
}

impl CacheError {
    /// The error in words.
    pub open spec fn words(self) -> Seq<char> {
        match self {
            CacheError::Io { path, source } => "io failure on "@ + path@ + ": "@ + source@,
            CacheError::Synth(e) => "synth backend failure: "@ + e.words(),
        }
    }

    /// The error in words.
    pub fn message(&self) -> (r: String)
        ensures
            r@ == self.words(),
    {
        match self {
            CacheError::Io { path, source } => text::joined4(
                "io failure on ",
                path.as_str(),
                ": ",
                source.as_str(),
            ),
            CacheError::Synth(e) => text::joined2(
                "synth backend failure: ",
                e.message().as_str(),
            ),
        }
    }
}

/// What became of one phrase in a pre-render pass.
pub enum PhraseOutcome {
    /// Its file was there already.
    Hit,
    /// It was rendered.
    Rendered,
    /// It could not be rendered; the words say why.
    Failed(Seq<char>),
}

/// The content of a report: the counts, and the failures by phrase.
pub struct Tally {
    pub hits: nat,
    pub rendered: nat,
    pub failures: Map<Seq<char>, Seq<char>>,
}

/// The counts over a pass. A phrase that fails more than once keeps the last
/// of its messages.
pub open spec fn tally(phrases: Seq<Seq<char>>, outcomes: Seq<PhraseOutcome>) -> Tally
    decreases outcomes.len(),
{
    if outcomes.len() == 0 {
        Tally { hits: 0, rendered: 0, failures: Map::empty() }
    } else {
        let t = tally(phrases, outcomes.drop_last());
        match outcomes.last() {
            PhraseOutcome::Hit => Tally { hits: t.hits + 1, ..t },
            PhraseOutcome::Rendered => Tally { rendered: t.rendered + 1, ..t },
            PhraseOutcome::Failed(why) => Tally {
                failures: t.failures.insert(phrases[outcomes.len() - 1], why),
                ..t
            },
        }
    }
}

/// Outcome of a pre-render pass.
#[derive(Debug, Clone, PartialEq, Eq)]
pub struct RenderReport {
    /// Phrases whose file was there already.
    pub hits: usize,
    /// Phrases rendered in this pass.
    pub rendered: usize,
    /// Phrases that could not be rendered, each with its message, in the
    /// order of the phrases and none of them twice.
    pub failures: Vec<(String, String)>,
}

/// The map that a list of pairs stands for.
pub open spec fn pairs_map(pairs: Seq<(String, String)>) -> Map<Seq<char>, Seq<char>>
    decreases pairs.len(),
{
    if pairs.len() == 0 {
        Map::empty()
    } else {
        pairs_map(pairs.drop_last()).insert(pairs.last().0@, pairs.last().1@)
    }
}

/// Whether the keys stand in strictly rising order, so that none occurs
/// twice.
pub open spec fn rising_keys(pairs: Seq<(String, String)>) -> bool {
    forall|i: int, j: int|
        0 <= i < j < pairs.len() ==> text::earlier(
            (#[trigger] pairs[i]).0@,
            (#[trigger] pairs[j]).0@,
        )
}

proof fn lemma_rising_front(pairs: Seq<(String, String)>)
    requires
        rising_keys(pairs),
        pairs.len() > 0,
    ensures
        rising_keys(pairs.drop_last()),
        !pairs_map(pairs.drop_last()).contains_key(pairs.last().0@),
{
    let front = pairs.drop_last();
    assert forall|i: int, j: int| 0 <= i < j < front.len() implies text::earlier(
        (#[trigger] front[i]).0@,
        (#[trigger] front[j]).0@,
    ) by {
        assert(front[i] == pairs[i] && front[j] == pairs[j]);
    }
    lemma_pairs_map_keys(front);
    if pairs_map(front).contains_key(pairs.last().0@) {
        let i = choose|i: int|
            0 <= i < front.len() && (#[trigger] front[i]).0@ == pairs.last().0@;
        assert(text::earlier(pairs[i].0@, pairs[pairs.len() - 1].0@));
        text::lemma_earlier_irreflexive(pairs.last().0@);
    }
}

proof fn lemma_pairs_map_keys(pairs: Seq<(String, String)>)
    ensures
        forall|k: Seq<char>| #[trigger]
            pairs_map(pairs).contains_key(k) <==> exists|i: int|
                0 <= i < pairs.len() && (#[trigger] pairs[i]).0@ == k,
        pairs_map(pairs).dom().finite(),
    decreases pairs.len(),
{
    if pairs.len() > 0 {
        let front = pairs.drop_last();
        lemma_pairs_map_keys(front);
        assert forall|k: Seq<char>| #[trigger]
            pairs_map(pairs).contains_key(k) <==> exists|i: int|
                0 <= i < pairs.len() && (#[trigger] pairs[i]).0@ == k by {
            if pairs_map(front).contains_key(k) {
                let i = choose|i: int| 0 <= i < front.len() && (#[trigger] front[i]).0@ == k;
                assert(pairs[i].0@ == k);
            }
            if k == pairs.last().0@ {
                assert(pairs[pairs.len() - 1].0@ == k);
            }
            if exists|i: int| 0 <= i < pairs.len() && (#[trigger] pairs[i]).0@ == k {
                let i = choose|i: int| 0 <= i < pairs.len() && (#[trigger] pairs[i]).0@ == k;
                if i < front.len() {
                    assert(front[i].0@ == k);
                }
            }
        }
    } else {
        assert(pairs_map(pairs).dom() =~= Set::empty());
    }
}

proof fn lemma_pairs_map_len(pairs: Seq<(String, String)>)
    requires
        rising_keys(pairs),
    ensures
        pairs_map(pairs).len() == pairs.len(),
    decreases pairs.len(),
{
    lemma_pairs_map_keys(pairs);
    if pairs.len() > 0 {
        lemma_rising_front(pairs);
        lemma_pairs_map_len(pairs.drop_last());
        lemma_pairs_map_keys(pairs.drop_last());
    }
}

proof fn lemma_pairs_map_update(pairs: Seq<(String, String)>, at: int, pair: (String, String))
    requires
        rising_keys(pairs),
        0 <= at < pairs.len(),
        pairs[at].0@ == pair.0@,
    ensures
        pairs_map(pairs.update(at, pair)) == pairs_map(pairs).insert(pair.0@, pair.1@),
        rising_keys(pairs.update(at, pair)),
    decreases pairs.len(),
{
    let new = pairs.update(at, pair);
    assert forall|i: int, j: int| 0 <= i < j < new.len() implies text::earlier(
        (#[trigger] new[i]).0@,
        (#[trigger] new[j]).0@,
    ) by {
        assert(text::earlier(pairs[i].0@, pairs[j].0@));
    }
    let front = pairs.drop_last();
    lemma_rising_front(pairs);
    if at == pairs.len() - 1 {
        assert(new.drop_last() == front);
    } else {
        lemma_pairs_map_update(front, at, pair);
        assert(new.drop_last() == front.update(at, pair));
        lemma_pairs_map_keys(front);
        assert(front[at].0@ == pair.0@);
    }
    assert(pairs_map(new) =~= pairs_map(pairs).insert(pair.0@, pair.1@));
}

proof fn lemma_pairs_map_insert(pairs: Seq<(String, String)>, at: int, pair: (String, String))
    requires
        rising_keys(pairs),
        0 <= at <= pairs.len(),
        forall|i: int| 0 <= i < at ==> text::earlier((#[trigger] pairs[i]).0@, pair.0@),
        forall|i: int|
            at <= i < pairs.len() ==> text::earlier(pair.0@, (#[trigger] pairs[i]).0@),
    ensures
        pairs_map(pairs.insert(at, pair)) == pairs_map(pairs).insert(pair.0@, pair.1@),
        rising_keys(pairs.insert(at, pair)),
    decreases pairs.len(),
{
    let new = pairs.insert(at, pair);
    assert forall|i: int, j: int| 0 <= i < j < new.len() implies text::earlier(
        (#[trigger] new[i]).0@,
        (#[trigger] new[j]).0@,
    ) by {
        let i0 = if i < at { i } else { i - 1 };
        let j0 = if j < at { j } else { j - 1 };
        if i != at {
            assert(new[i] == pairs[i0]);
        }
        if j != at {
            assert(new[j] == pairs[j0]);
        }
    }
    if at == pairs.len() {
        assert(new.drop_last() == pairs);
    } else {
        let front = pairs.drop_last();
        lemma_rising_front(pairs);
        assert forall|i: int| 0 <= i < at implies text::earlier(
            (#[trigger] front[i]).0@,
            pair.0@,
        ) by {
            assert(front[i] == pairs[i]);
        }
        assert forall|i: int| at <= i < front.len() implies text::earlier(
            pair.0@,
            (#[trigger] front[i]).0@,
        ) by {
            assert(front[i] == pairs[i]);
        }
        lemma_pairs_map_insert(front, at, pair);
        assert(new.drop_last() == front.insert(at, pair));
        assert(text::earlier(pair.0@, pairs[pairs.len() - 1].0@));
        text::lemma_earlier_irreflexive(pair.0@);
    }
    assert(pairs_map(new) =~= pairs_map(pairs).insert(pair.0@, pair.1@));
}

impl RenderReport {
    /// The failures stand in the order of their phrases, none of them twice.
    pub open spec fn wf(self) -> bool {
        rising_keys(self.failures@)
    }

    /// The counts, and the failures by phrase.
    pub open spec fn view(self) -> Tally {
        Tally {
            hits: self.hits as nat,
            rendered: self.rendered as nat,
            failures: pairs_map(self.failures@),
        }
    }

    /// The report of a pass that has not begun.
    pub fn new() -> (r: Self)
        ensures
            r.wf(),
            r@ == (Tally { hits: 0, rendered: 0, failures: Map::empty() }),
    {
        RenderReport { hits: 0, rendered: 0, failures: Vec::new() }
    }

    /// Notes that `phrase` could not be rendered.
    pub fn record_failure(&mut self, phrase: &str, why: String)
        requires
            old(self).wf(),
        ensures
            final(self).wf(),
            final(self)@ == (Tally {
                failures: old(self)@.failures.insert(phrase@, why@),
                ..old(self)@
            }),
    {
        let mut i: usize = 0;
        while i < self.failures.len() && text::is_earlier(self.failures[i].0.as_str(), phrase)
            invariant
                *self == *old(self),
                self.wf(),
                i <= self.failures@.len(),
                forall|k: int|
                    0 <= k < i ==> text::earlier((#[trigger] self.failures@[k]).0@, phrase@),
            decreases self.failures@.len() - i,
        {
            i += 1;
        }
        let pair = (phrase.to_owned(), why);
        if i < self.failures.len() && text::same_text(self.failures[i].0.as_str(), phrase) {
            proof {
                lemma_pairs_map_update(self.failures@, i as int, pair);
            }
            self.failures.set(i, pair);
        } else {
            proof {
                let pairs = self.failures@;
                assert forall|k: int| i <= k < pairs.len() implies text::earlier(
                    pair.0@,
                    (#[trigger] pairs[k]).0@,
                ) by {
                    text::lemma_earlier_total(pair.0@, pairs[i as int].0@);
                    if k > i {
                        text::lemma_earlier_transitive(
                            pair.0@,
                            pairs[i as int].0@,
                            pairs[k].0@,
                        );
                    }
                }
                lemma_pairs_map_insert(pairs, i as int, pair);
            }
            self.failures.insert(i, pair);
        }
    }

    /// The number of phrases that could not be rendered.
    pub fn failure_count(&self) -> (r: usize)
        requires
            self.wf(),
        ensures
            r == self@.failures.len(),
    {
        proof {
            lemma_pairs_map_len(self.failures@);
        }
        self.failures.len()
    }
}

impl Default for RenderReport {
    /// The report of a pass that has not begun.
    fn default() -> (r: Self)
        ensures
            r.wf(),
            r@ == (Tally { hits: 0, rendered: 0, failures: Map::empty() }),
    {
        RenderReport::new()
    }
}

/// Cache files of one voice.
#[derive(Debug, Clone)]
pub struct CacheManager {
    /// Root directory of the cache.
    pub root: String,
    /// Voice whose files these are.
    pub voice: String,
}

impl CacheManager {
    /// The directory of the voice.
    pub open spec fn dir(self) -> Seq<char> {
        paths::joined_path(self.root@, self.voice@)
    }

    /// The file of a phrase.
    pub open spec fn entry(self, phrase: Seq<char>) -> Seq<char> {
        paths::joined_path(self.dir(), digest_file_name(phrase_digest(phrase)))
    }

    /// The cache of `voice` under `root`.
    pub fn new(root: String, voice: String) -> (r: Self)
        ensures
            r.root == root,
            r.voice == voice,
    {
        CacheManager { root, voice }
    }

    /// The directory of the voice.
    pub fn voice_dir(&self) -> (r: String)
        ensures
            r@ == self.dir(),
    {
        paths::join_path(self.root.as_str(), self.voice.as_str())
    }

    /// The file of a phrase.
    pub fn entry_path(&self, phrase: &str) -> (r: String)
        ensures
            r@ == self.entry(phrase@),
            phrase_digest(phrase@).len() == 32,
    {
        let key = normalize(phrase);
        let digest = sha256(key.as_str().as_bytes());
        let name = file_name_for_digest(digest.as_slice());
        paths::join_path(self.voice_dir().as_str(), name.as_str())
    }

    /// Whether the file of a phrase is on disk, as `is_file` sees it.
    pub fn has<F: Fn(&str) -> bool>(&self, phrase: &str, is_file: F) -> (r: bool)
        requires
            forall|p: &str| call_requires(is_file, (p,)),
        ensures
            exists|p: &str| p@ == self.entry(phrase@) && #[trigger] call_ensures(is_file, (p,), r),
    {
        let path = self.entry_path(phrase);
        let p = path.as_str();
        is_file(p)
    }

    /// Whether making the directory of the voice may give this result.
    pub open spec fn may_make<D: Fn(&str) -> Result<(), String>>(
        self,
        create_dir: D,
        result: Result<(), String>,
    ) -> bool {
        exists|d: &str| d@ == self.dir() && #[trigger] call_ensures(create_dir, (d,), result)
    }

    /// Whether `is_file` may find the file of a phrase there, or not there.
    pub open spec fn seen<F: Fn(&str) -> bool>(
        self,
        is_file: F,
        phrase: Seq<char>,
        there: bool,
    ) -> bool {
        exists|p: &str| p@ == self.entry(phrase) && #[trigger] call_ensures(is_file, (p,), there)
    }

    /// Whether the backend, asked for the phrase in this voice and into its
    /// file, may give this result.
    pub open spec fn may_render<S: Synth>(
        self,
        synth: S,
        phrase: Seq<char>,
        result: Result<(), SynthError>,
    ) -> bool {
        exists|voice: &str, text: &str, path: &str|
            voice@ == self.voice@ && text@ == phrase && path@ == self.entry(phrase)
                && #[trigger] call_ensures(S::render, (&synth, voice, text, path), result)
    }

    /// Whether a phrase may fare so: a file that is there is a hit, and only
    /// where there is none is the backend asked.
    pub open spec fn may_fare<S: Synth, F: Fn(&str) -> bool>(
        self,
        synth: S,
        is_file: F,
        phrase: Seq<char>,
        outcome: PhraseOutcome,
    ) -> bool {
        match outcome {
            PhraseOutcome::Hit => self.seen(is_file, phrase, true),
            PhraseOutcome::Rendered => self.seen(is_file, phrase, false) && exists|
                result: Result<(), SynthError>,
            |
                result is Ok && #[trigger] self.may_render(synth, phrase, result),
            PhraseOutcome::Failed(why) => self.seen(is_file, phrase, false) && exists|
                e: SynthError,
            |
                e.words() == why && #[trigger] self.may_render(synth, phrase, Err(e)),
        }
    }

    /// Whether a pass over the phrases may give this report.
    pub open spec fn may_report<S: Synth, F: Fn(&str) -> bool>(
        self,
        synth: S,
        is_file: F,
        phrases: Seq<Seq<char>>,
        report: Tally,
    ) -> bool {
        exists|outcomes: Seq<PhraseOutcome>|
            outcomes.len() == phrases.len() && (forall|i: int|
                0 <= i < outcomes.len() ==> self.may_fare(
                    synth,
                    is_file,
                    phrases[i],
                    #[trigger] outcomes[i],
                )) && report == #[trigger] tally(phrases, outcomes)
    }

    /// Whether a pass over the phrases may give this result: it goes through
    /// steps of [`pass::Pass`], each answered by the one call that the step
    /// asks for, and the result is that of the last.
    pub open spec fn may_prerender<
        S: Synth,
        D: Fn(&str) -> Result<(), String>,
        F: Fn(&str) -> bool,
    >(
        self,
        phrases: Seq<Seq<char>>,
        synth: S,
        create_dir: D,
        is_file: F,
        r: Result<RenderReport, CacheError>,
    ) -> bool {
        exists|events: Seq<pass::EventView>| #[trigger]
            pass::may_go(self, phrases, synth, create_dir, is_file, events) && pass::gives(
                self,
                phrases,
                events,
                r,
            )
    }

    /// Makes the directory of the voice and renders every phrase that has no
    /// file in it. A phrase that fails is noted in the report and does not
    /// stop the pass; the one error is a directory that cannot be made.
    #[verifier::spinoff_prover]
    #[verifier::rlimit(60)]
    pub fn prerender<S: Synth, D: Fn(&str) -> Result<(), String>, F: Fn(&str) -> bool>(
        &self,
        phrases: &[String],
        synth: &S,
        create_dir: D,
        is_file: F,
    ) -> (r: Result<RenderReport, CacheError>)
        requires
            forall|d: &str| d@ == self.dir() ==> #[trigger] call_requires(create_dir, (d,)),
            forall|p: &str| #[trigger] call_requires(is_file, (p,)),
        ensures
            self.may_prerender(text::texts(phrases@), *synth, create_dir, is_file, r),
    {
        let ghost list = text::texts(phrases@);
        let ghost mut events: Seq<pass::EventView> = Seq::empty();
        let (mut pass, mut action) = Pass::begin(self, phrases);
        loop
            invariant
                forall|d: &str| d@ == self.dir() ==> #[trigger] call_requires(create_dir, (d,)),
                forall|p: &str| #[trigger] call_requires(is_file, (p,)),
                list == text::texts(phrases@),
                pass.wf(),
                *pass.cache == *self,
                pass.list() == list,
                pass.phrases@.len() == list.len(),
                pass@ == pass::state_after(*self, list, events, events.len()),
                action.is(pass::action_after(*self, list, events, events.len())),
                pass::may_go(*self, list, *synth, create_dir, is_file, events),
                pass::in_step(pass@, pass::action_after(*self, list, events, events.len())),
            decreases pass::steps_left(pass@, list.len()),
        {
            let ghost asked = pass::action_after(*self, list, events, events.len());
            let event = match action {
                PassAction::MakeDir(dir) => {
                    let d = dir.as_str();
                    let made = create_dir(d);
                    assert(call_ensures(create_dir, (d,), made));
                    let e = match made {
                        Ok(()) => PassEvent::DirMade,
                        Err(source) => PassEvent::DirFailed(source),
                    };
                    assert(pass::may_answer(*synth, create_dir, is_file, asked, e@));
                    e
                },
                PassAction::LookUp(path) => {
                    let p = path.as_str();
                    let there = is_file(p);
                    assert(call_ensures(is_file, (p,), there));
                    let e = PassEvent::Found(there);
                    assert(pass::may_answer(*synth, create_dir, is_file, asked, e@));
                    e
                },
                PassAction::Render { voice, text, path } => {
                    let v = voice.as_str();
                    let t = text.as_str();
                    let p = path.as_str();
                    let result = synth.render(v, t, p);
                    assert(call_ensures(S::render, (synth, v, t, p), result));
                    let e = match result {
                        Ok(()) => PassEvent::Rendered,
                        Err(e) => PassEvent::RenderFailed(e),
                    };
                    assert(pass::may_answer(*synth, create_dir, is_file, asked, e@));
                    e
                },
                PassAction::Finish => {
                    assert(pass::gives(*self, list, events, Ok(pass.report)));
                    return Ok(pass.report);
                },
                PassAction::Fail(e) => {
                    assert(pass::gives(*self, list, events, Err(e)));
                    return Err(e);
                },
                PassAction::Stop => {
                    return Ok(pass.report);
                },
            };
            proof {
                pass::lemma_goes_on(*self, list, *synth, create_dir, is_file, events, event@);
                pass::lemma_in_step(
                    *self,
                    list,
                    *synth,
                    create_dir,
                    is_file,
                    pass@,
                    asked,
                    event@,
                );
                events = events.push(event@);
            }
            action = pass.step(event);
        }
    }
}

/// Phrases that agree once trimmed and in lower case share a file.
pub proof fn equivalent_phrases_share_a_file(cache: CacheManager, a: Seq<char>, b: Seq<char>)
    requires
        normalized(a) == normalized(b),
    ensures
        cache.entry(a) == cache.entry(b),
{
}

proof fn lemma_hex_bytes(b: Seq<u8>)
    ensures
        hex_bytes(b).len() == 2 * b.len(),
        forall|i: int|
            0 <= i < hex_bytes(b).len() ==> text::lower_hex_digit(#[trigger] hex_bytes(b)[i]),
    decreases b.len(),
{
    if b.len() > 0 {
        let front = hex_bytes(b.drop_last());
        let pair = text::hex_text(b.last() as nat, 2);
        lemma_hex_bytes(b.drop_last());
        text::byte_takes_two_digits(b.last() as nat);
        assert forall|i: int| 0 <= i < hex_bytes(b).len() implies text::lower_hex_digit(
            #[trigger] hex_bytes(b)[i],
        ) by {
            if i < front.len() {
                assert(hex_bytes(b)[i] == front[i]);
            } else {
                assert(hex_bytes(b)[i] == pair[i - front.len()]);
            }
        }
    }
}

/// The file of a phrase is, in the directory of the voice, sixteen lower-case
/// hexadecimal digits and `.wav`. They depend on the phrase through its
/// normalized form alone.
pub proof fn file_name_is_sixteen_digits(cache: CacheManager, phrase: Seq<char>)
    requires
        phrase_digest(phrase).len() == 32,
    ensures
        ({
            let digits = hex_bytes(
                sha256_digest(vstd::utf8::encode_utf8(normalized(phrase))).take(8),
            );
            &&& digits.len() == 16
            &&& forall|i: int| 0 <= i < 16 ==> text::lower_hex_digit(#[trigger] digits[i])
            &&& cache.entry(phrase) == paths::joined_path(cache.dir(), digits + ".wav"@)
        }),
{
    lemma_hex_bytes(phrase_digest(phrase).take(8));
}

/// White space around a phrase does not change its file.
pub proof fn surrounding_space_does_not_matter(
    cache: CacheManager,
    before: Seq<char>,
    phrase: Seq<char>,
    after: Seq<char>,
)
    requires
        text::all_white(before),
        text::all_white(after),
    ensures
        cache.entry(before + phrase + after) == cache.entry(phrase),
{
    text::surrounding_white_is_trimmed(before, phrase, after);
}

/// Two ASCII phrases that differ only in letter case share a file.
pub proof fn ascii_case_does_not_matter(cache: CacheManager, a: Seq<char>, b: Seq<char>)
    requires
        vstd::utf8::is_ascii_chars(a),
        vstd::utf8::is_ascii_chars(b),
        text::ascii_lower(a) == text::ascii_lower(b),
    ensures
        cache.entry(a) == cache.entry(b),
{
    text::lemma_trimmed_ascii(a);
    text::lemma_trimmed_ascii(b);
    text::lemma_ascii_lower_trimmed(a);
    text::lemma_ascii_lower_trimmed(b);
}

proof fn lemma_tally_failures(phrases: Seq<Seq<char>>, outcomes: Seq<PhraseOutcome>)
    requires
        outcomes.len() <= phrases.len(),
    ensures
        tally(phrases, outcomes).failures.dom().finite(),
        forall|k: Seq<char>| #[trigger]
            tally(phrases, outcomes).failures.contains_key(k) ==> exists|i: int|
                0 <= i < outcomes.len() && #[trigger] phrases[i] == k,
    decreases outcomes.len(),
{
    if outcomes.len() > 0 {
        lemma_tally_failures(phrases, outcomes.drop_last());
        let last = outcomes.len() - 1;
        assert forall|k: Seq<char>| #[trigger]
            tally(phrases, outcomes).failures.contains_key(k) implies exists|i: int|
            0 <= i < outcomes.len() && #[trigger] phrases[i] == k by {
            if !tally(phrases, outcomes.drop_last()).failures.contains_key(k) {
                assert(phrases[last] == k);
            }
        }
    } else {
        assert(tally(phrases, outcomes).failures.dom() =~= Set::empty());
    }
}

/// In a pass over phrases that differ from each other, every phrase is
/// counted exactly once: as a hit, as rendered or as a failure.
pub proof fn every_phrase_is_counted_once(
    phrases: Seq<Seq<char>>,
    outcomes: Seq<PhraseOutcome>,
)
    requires
        phrases.no_duplicates(),
        outcomes.len() <= phrases.len(),
    ensures
        tally(phrases, outcomes).hits + tally(phrases, outcomes).rendered + tally(
            phrases,
            outcomes,
        ).failures.len() == outcomes.len(),
    decreases outcomes.len(),
{
    if outcomes.len() > 0 {
        let front = outcomes.drop_last();
        every_phrase_is_counted_once(phrases, front);
        lemma_tally_failures(phrases, front);
        if tally(phrases, front).failures.contains_key(phrases[front.len() as int]) {
            let i = choose|i: int|
                0 <= i < front.len() && #[trigger] phrases[i] == phrases[front.len() as int];
            assert(false);
        }
    } else {
        assert(tally(phrases, outcomes).failures.dom() =~= Set::empty());
    }
}

/// In a pass over phrases that differ from each other, the failures are
/// exactly the phrases that failed, each with its own message.
pub proof fn failures_are_the_phrases_that_failed(
    phrases: Seq<Seq<char>>,
    outcomes: Seq<PhraseOutcome>,
    i: int,
)
    requires
        phrases.no_duplicates(),
        outcomes.len() <= phrases.len(),
        0 <= i < outcomes.len(),
    ensures
        match outcomes[i] {
            PhraseOutcome::Failed(why) => tally(phrases, outcomes).failures.contains_key(phrases[i])
                && tally(phrases, outcomes).failures[phrases[i]] == why,
            _ => !tally(phrases, outcomes).failures.contains_key(phrases[i]),
        },
    decreases outcomes.len(),
{
    let front = outcomes.drop_last();
    if i < front.len() {
        failures_are_the_phrases_that_failed(phrases, front, i);
        assert(phrases[i] != phrases[front.len() as int]);
    } else {
        lemma_tally_failures(phrases, front);
        if tally(phrases, front).failures.contains_key(phrases[i]) {
            let k = choose|k: int| 0 <= k < front.len() && #[trigger] phrases[k] == phrases[i];
            assert(false);
        }
    }
}

pub(crate) proof fn lemma_all_hits(phrases: Seq<Seq<char>>, outcomes: Seq<PhraseOutcome>)
    requires
        forall|i: int| 0 <= i < outcomes.len() ==> (#[trigger] outcomes[i]) is Hit,
    ensures
        tally(phrases, outcomes) == (Tally {
            hits: outcomes.len(),
            rendered: 0,
            failures: Map::empty(),
        }),
    decreases outcomes.len(),
{
    if outcomes.len() > 0 {
        let front = outcomes.drop_last();
        assert forall|i: int| 0 <= i < front.len() implies (#[trigger] front[i]) is Hit by {
            assert(front[i] == outcomes[i]);
        }
        lemma_all_hits(phrases, front);
    }
}

} // verus!
