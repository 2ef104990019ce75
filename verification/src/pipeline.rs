//! The decisions of a run over many language pairs: which languages to read, which
//! pairs to process once a language was read, and how the run ends.

use crate::bilingual_generator_errors::BilingualGeneratorError;
use crate::bilingual_set::{add_language, with_language, with_pair_languages, Pair};
use crate::text::{join_texts, join_with, names_contain, split_on, split_text, text_eq};
use vstd::prelude::*;
use vstd::string::*;

verus! {

/// The language whose text stands in where the secondary language has none.
pub const ENGLISH: &'static str = "English";

/// The languages that a run has to read: English, then the languages of the pairs in
/// the order in which they are first named.
pub open spec fn required_languages(pairs: Seq<Pair>) -> Seq<Seq<char>> {
    with_pair_languages(seq![ENGLISH@], pairs)
}

/// The languages to read are English and the languages that the pairs name, each
/// once.
pub proof fn lemma_required_languages(pairs: Seq<Pair>)
    ensures
        required_languages(pairs).no_duplicates(),
        forall|name: Seq<char>| #[trigger]
            required_languages(pairs).contains(name) <==> name == ENGLISH@
                || crate::bilingual_set::names_language(pairs, name),
{
    let start = seq![ENGLISH@];
    assert(start.no_duplicates());
    assert(start[0] == ENGLISH@);
    crate::bilingual_set::lemma_with_pair_languages(start, pairs);
    assert forall|name: Seq<char>| #[trigger]
        required_languages(pairs).contains(name) <==> name == ENGLISH@
            || crate::bilingual_set::names_language(pairs, name) by {
        if name == ENGLISH@ {
            assert(start.contains(name));
        }
        if start.contains(name) {
            assert(name == ENGLISH@);
        }
    }
}

/// A pair can be processed once its two languages and English were read.
pub open spec fn is_ready(pair: Pair, available: Seq<Seq<char>>) -> bool {
    available.contains(pair.0) && available.contains(pair.1) && available.contains(ENGLISH@)
}

/// The pairs that can be processed, in their order.
pub open spec fn ready_pairs(pending: Seq<Pair>, available: Seq<Seq<char>>) -> Seq<Pair>
    decreases pending.len(),
{
    if pending.len() == 0 {
        Seq::empty()
    } else {
        let earlier = ready_pairs(pending.drop_last(), available);
        if is_ready(pending.last(), available) {
            earlier.push(pending.last())
        } else {
            earlier
        }
    }
}

/// The pairs that have to wait, in their order.
pub open spec fn waiting_pairs(pending: Seq<Pair>, available: Seq<Seq<char>>) -> Seq<Pair>
    decreases pending.len(),
{
    if pending.len() == 0 {
        Seq::empty()
    } else {
        let earlier = waiting_pairs(pending.drop_last(), available);
        if is_ready(pending.last(), available) {
            earlier
        } else {
            earlier.push(pending.last())
        }
    }
}

/// The names without `name`.
pub open spec fn without_name(names: Seq<Seq<char>>, name: Seq<char>) -> Seq<Seq<char>>
    decreases names.len(),
{
    if names.len() == 0 {
        Seq::empty()
    } else {
        let earlier = without_name(names.drop_last(), name);
        if names.last() == name {
            earlier
        } else {
            earlier.push(names.last())
        }
    }
}

/// The label of a processed pair, made from the name of its folder: the folder name
/// names the two languages where ` + ` parts it in two.
pub open spec fn success_message(folder: Seq<char>) -> Seq<char> {
    let parts = split_on(folder, " + "@);
    if parts.len() == 2 {
        "primary_language = "@ + parts[0] + ", secondary_language = "@ + parts[1]
    } else {
        "Successfully processed pair (dir: "@ + folder + ")"@
    }
}

/// A pair as it is named in a message.
pub open spec fn pair_text(pair: Pair) -> Seq<char> {
    "(\""@ + pair.0 + "\", \""@ + pair.1 + "\")"@
}

/// Pairs as they are named in a message, with commas between them.
pub open spec fn pairs_text(pairs: Seq<Pair>) -> Seq<char> {
    join_with(Seq::new(pairs.len(), |i: int| pair_text(pairs[i])), ", "@)
}

/// The message of the failure that pairs left waiting are reported with.
pub open spec fn missing_data_message(pairs: Seq<Pair>) -> Seq<char> {
    "Failed to process pairs due to missing data: ["@ + pairs_text(pairs) + "]"@
}

/// Where a run stands.
pub struct RunState {
    /// The pairs that wait for a language.
    pub pending: Seq<Pair>,
    /// The languages that are still being read.
    pub awaited: Seq<Seq<char>>,
    /// The languages that were read.
    pub available: Seq<Seq<char>>,
    /// How many pairs were handed out for processing and have not reported.
    pub in_flight: nat,
    /// The labels of the pairs that were processed.
    pub messages: Seq<Seq<char>>,
    /// The failures, in the order in which they were reported.
    pub errors: Seq<BilingualGeneratorError>,
}

/// The part of a run that a state belongs to.
#[derive(Clone, Copy, Debug, PartialEq, Eq, Structural)]
pub enum Phase {
    /// Some language is still being read.
    Reading,
    /// Every language has reported; some pair is still being processed.
    Draining,
    /// Nothing is awaited: the run can be ended.
    Terminal,
}

/// The part of a run that a state belongs to.
pub open spec fn phase_of(state: RunState) -> Phase {
    if state.awaited.len() > 0 {
        Phase::Reading
    } else if state.in_flight > 0 {
        Phase::Draining
    } else {
        Phase::Terminal
    }
}

/// The state of a run that has read nothing yet. A run without pairs reads nothing.
pub open spec fn initial_state(pairs: Seq<Pair>) -> RunState {
    RunState {
        pending: pairs,
        awaited: if pairs.len() == 0 {
            Seq::empty()
        } else {
            required_languages(pairs)
        },
        available: Seq::empty(),
        in_flight: 0,
        messages: Seq::empty(),
        errors: Seq::empty(),
    }
}

/// The state after a language was read, or could not be read: a language that was read
/// becomes available, and the pairs that are ready with it are handed out.
pub open spec fn after_language(
    state: RunState,
    language: Seq<char>,
    failure: Option<BilingualGeneratorError>,
) -> RunState {
    let available = match failure {
        Some(_) => state.available,
        None => with_language(state.available, language),
    };
    RunState {
        pending: waiting_pairs(state.pending, available),
        awaited: without_name(state.awaited, language),
        available,
        in_flight: state.in_flight + ready_pairs(state.pending, available).len(),
        messages: state.messages,
        errors: match failure {
            Some(error) => state.errors.push(error),
            None => state.errors,
        },
    }
}

/// The label of a processed pair whose folder name is not known: it names the path
/// that the pair was written to.
pub open spec fn unnamed_success_message(path: Seq<char>) -> Seq<char> {
    "Successfully processed pair (path: "@ + path + ")"@
}

/// The state after a pair was processed and is reported with its label, or could not
/// be processed.
pub open spec fn after_pair(
    state: RunState,
    outcome: Result<String, BilingualGeneratorError>,
) -> RunState {
    RunState {
        pending: state.pending,
        awaited: state.awaited,
        available: state.available,
        in_flight: if state.in_flight > 0 {
            (state.in_flight - 1) as nat
        } else {
            0
        },
        messages: match outcome {
            Ok(label) => state.messages.push(label@),
            Err(_) => state.messages,
        },
        errors: match outcome {
            Ok(_) => state.errors,
            Err(error) => state.errors.push(error),
        },
    }
}

/// The failures that a run ends with: those that were reported and, where pairs are
/// left waiting, one more that names these pairs.
pub open spec fn is_final_errors(state: RunState, errors: Seq<BilingualGeneratorError>) -> bool {
    if state.pending.len() == 0 {
        errors == state.errors
    } else {
        &&& errors.len() == state.errors.len() + 1
        &&& errors.drop_last() == state.errors
        &&& errors.last() matches BilingualGeneratorError::XmlProcessingFailed(message)
        &&& message@ == missing_data_message(state.pending)
    }
}

/// The label of a processed pair, made from the name of its folder.
pub fn success_message_of(folder: &str) -> (message: String)
    ensures
        message@ == success_message(folder@),
{
    let parts = split_text(folder, " + ");
    if parts.len() == 2 {
        let mut message = "primary_language = ".to_owned();
        message.append(parts[0].as_str());
        message.append(", secondary_language = ");
        message.append(parts[1].as_str());
        message
    } else {
        let mut message = "Successfully processed pair (dir: ".to_owned();
        message.append(folder);
        message.append(")");
        message
    }
}

/// The label of a processed pair whose folder name is not known.
pub fn unnamed_success_message_of(path: &str) -> (message: String)
    ensures
        message@ == unnamed_success_message(path@),
{
    let mut message = "Successfully processed pair (path: ".to_owned();
    message.append(path);
    message.append(")");
    message
}

/// A pair as it is named in a message.
pub fn pair_text_of(primary: &str, secondary: &str) -> (text: String)
    ensures
        text@ == pair_text((primary@, secondary@)),
{
    let mut text = "(\"".to_owned();
    text.append(primary);
    text.append("\", \"");
    text.append(secondary);
    text.append("\")");
    text
}

/// The message of the failure that pairs left waiting are reported with.
pub fn missing_data_message_of(pairs: &Vec<(String, String)>) -> (message: String)
    ensures
        message@ == missing_data_message(pairs.deep_view()),
{
    let mut named: Vec<String> = Vec::new();
    let mut i: usize = 0;
    while i < pairs.len()
        invariant
            i <= pairs.len(),
            named.len() == i,
            forall|k: int|
                0 <= k < i ==> (#[trigger] named[k])@ == pair_text((pairs[k].0@, pairs[k].1@)),
        decreases pairs.len() - i,
    {
        named.push(pair_text_of(pairs[i].0.as_str(), pairs[i].1.as_str()));
        i += 1;
    }
    assert(named.deep_view() =~= Seq::new(
        pairs.deep_view().len(),
        |i: int| pair_text(pairs.deep_view()[i]),
    ));
    let listed = join_texts(&named, ", ");
    let mut message = "Failed to process pairs due to missing data: [".to_owned();
    message.append(listed.as_str());
    message.append("]");
    message
}

/// The languages that a run over `pairs` has to read.
pub fn required_languages_of(pairs: &Vec<(String, String)>) -> (languages: Vec<String>)
    ensures
        languages.deep_view() == required_languages(pairs.deep_view()),
{
    let mut languages: Vec<String> = Vec::new();
    languages.push(ENGLISH.to_owned());
    assert(languages.deep_view() =~= seq![ENGLISH@]);
    let ghost all = pairs.deep_view();
    let mut i: usize = 0;
    while i < pairs.len()
        invariant
            i <= pairs.len(),
            all == pairs.deep_view(),
            languages.deep_view() == with_pair_languages(seq![ENGLISH@], all.take(i as int)),
        decreases pairs.len() - i,
    {
        proof {
            let now = all.take(i + 1);
            assert(now.drop_last() =~= all.take(i as int));
            assert(now.last() == (pairs[i as int].0@, pairs[i as int].1@));
        }
        add_language(&mut languages, pairs[i].0.as_str());
        add_language(&mut languages, pairs[i].1.as_str());
        i += 1;
    }
    assert(all.take(pairs.len() as int) =~= all);
    languages
}

/// Each waiting pair is either handed out or goes on waiting: it is handed out where
/// it is ready, and goes on waiting where it is not.
pub proof fn lemma_ready_or_waiting(pending: Seq<Pair>, available: Seq<Seq<char>>, pair: Pair)
    requires
        pending.contains(pair),
    ensures
        is_ready(pair, available) ==> ready_pairs(pending, available).contains(pair)
            && !waiting_pairs(pending, available).contains(pair),
        !is_ready(pair, available) ==> waiting_pairs(pending, available).contains(pair)
            && !ready_pairs(pending, available).contains(pair),
    decreases pending.len(),
{
    lemma_pairs_keep_readiness(pending, available);
    let earlier = pending.drop_last();
    let i = choose|i: int| 0 <= i < pending.len() && pending[i] == pair;
    if i < pending.len() - 1 {
        assert(earlier[i] == pair);
        lemma_ready_or_waiting(earlier, available, pair);
        let ready = ready_pairs(earlier, available);
        let waiting = waiting_pairs(earlier, available);
        if is_ready(pair, available) {
            let k = choose|k: int| 0 <= k < ready.len() && ready[k] == pair;
            if is_ready(pending.last(), available) {
                assert(ready.push(pending.last())[k] == pair);
            }
        } else {
            let k = choose|k: int| 0 <= k < waiting.len() && waiting[k] == pair;
            if !is_ready(pending.last(), available) {
                assert(waiting.push(pending.last())[k] == pair);
            }
        }
    } else {
        assert(pending.last() == pair);
        if is_ready(pair, available) {
            let ready = ready_pairs(earlier, available).push(pair);
            assert(ready[ready.len() - 1] == pair);
        } else {
            let waiting = waiting_pairs(earlier, available).push(pair);
            assert(waiting[waiting.len() - 1] == pair);
        }
    }
}

/// No waiting pair is lost: each is handed out or goes on waiting.
pub proof fn lemma_pairs_are_kept(pending: Seq<Pair>, available: Seq<Seq<char>>)
    ensures
        ready_pairs(pending, available).len() + waiting_pairs(pending, available).len()
            == pending.len(),
    decreases pending.len(),
{
    if pending.len() > 0 {
        lemma_pairs_are_kept(pending.drop_last(), available);
    }
}

/// The pairs that are handed out are ready, and the pairs that go on waiting are not.
pub proof fn lemma_pairs_keep_readiness(pending: Seq<Pair>, available: Seq<Seq<char>>)
    ensures
        forall|pair: Pair| #[trigger]
            ready_pairs(pending, available).contains(pair) ==> is_ready(pair, available)
                && pending.contains(pair),
        forall|pair: Pair| #[trigger]
            waiting_pairs(pending, available).contains(pair) ==> !is_ready(pair, available)
                && pending.contains(pair),
    decreases pending.len(),
{
    if pending.len() > 0 {
        let earlier = pending.drop_last();
        lemma_pairs_keep_readiness(earlier, available);
        assert forall|pair: Pair| #[trigger]
            ready_pairs(pending, available).contains(pair) implies is_ready(pair, available)
            && pending.contains(pair) by {
            let ready = ready_pairs(pending, available);
            let k = choose|k: int| 0 <= k < ready.len() && ready[k] == pair;
            if ready_pairs(earlier, available).contains(pair) {
                let i = choose|i: int| 0 <= i < earlier.len() && earlier[i] == pair;
                assert(pending[i] == pair);
            } else {
                assert(pair == pending.last());
                assert(pending[pending.len() - 1] == pair);
            }
        }
        assert forall|pair: Pair| #[trigger]
            waiting_pairs(pending, available).contains(pair) implies !is_ready(pair, available)
            && pending.contains(pair) by {
            let waiting = waiting_pairs(pending, available);
            let k = choose|k: int| 0 <= k < waiting.len() && waiting[k] == pair;
            if waiting_pairs(earlier, available).contains(pair) {
                let i = choose|i: int| 0 <= i < earlier.len() && earlier[i] == pair;
                assert(pending[i] == pair);
            } else {
                assert(pair == pending.last());
                assert(pending[pending.len() - 1] == pair);
            }
        }
    }
}

/// A language that could not be read holds back its pairs: while the language is not
/// available, a waiting pair that names it goes on waiting through the reading of any
/// other language and through its own failure, and the language stays unavailable.
pub proof fn lemma_unread_language_holds_pairs(
    state: RunState,
    blocked: Seq<char>,
    pair: Pair,
    language: Seq<char>,
    failure: Option<BilingualGeneratorError>,
)
    requires
        !state.available.contains(blocked),
        state.pending.contains(pair),
        pair.0 == blocked || pair.1 == blocked,
        language != blocked || failure is Some,
    ensures
        !after_language(state, language, failure).available.contains(blocked),
        after_language(state, language, failure).pending.contains(pair),
{
    let next = after_language(state, language, failure);
    assert(!next.available.contains(blocked)) by {
        if next.available.contains(blocked) {
            let i = choose|i: int| 0 <= i < next.available.len() && next.available[i] == blocked;
            if i < state.available.len() {
                assert(state.available[i] == blocked);
            }
        }
    }
    lemma_ready_or_waiting(state.pending, next.available, pair);
}

/// How a run ended.
#[derive(Debug)]
pub struct RunOutcome {
    /// The labels of the pairs that were processed, also where other pairs failed.
    pub processed: Vec<String>,
    /// The failures, the first one first.
    pub failures: Vec<BilingualGeneratorError>,
}

impl RunOutcome {
    /// The run as one result: the labels of the processed pairs where nothing failed,
    /// else the first failure.
    pub fn into_result(self) -> (result: Result<Vec<String>, BilingualGeneratorError>)
        ensures
            match result {
                Ok(labels) => self.failures@.len() == 0 && labels == self.processed,
                Err(first) => self.failures@.len() > 0 && first == self.failures@[0],
            },
    {
        let RunOutcome { processed, mut failures } = self;
        if failures.len() == 0 {
            Ok(processed)
        } else {
            Err(failures.remove(0))
        }
    }
}

/// The run over a bilingual set: follows which languages were read and which pairs
/// wait, and collects what the pairs report.
pub struct Pipeline {
    pending: Vec<(String, String)>,
    awaited: Vec<String>,
    available: Vec<String>,
    in_flight: usize,
    messages: Vec<String>,
    errors: Vec<BilingualGeneratorError>,
}

impl View for Pipeline {
    type V = RunState;

    closed spec fn view(&self) -> RunState {
        RunState {
            pending: self.pending.deep_view(),
            awaited: self.awaited.deep_view(),
            available: self.available.deep_view(),
            in_flight: self.in_flight as nat,
            messages: self.messages.deep_view(),
            errors: self.errors@,
        }
    }
}

/// The names without `name`.
pub fn remove_name(names: &Vec<String>, name: &str) -> (rest: Vec<String>)
    ensures
        rest.deep_view() == without_name(names.deep_view(), name@),
{
    let mut rest: Vec<String> = Vec::new();
    let ghost all = names.deep_view();
    let mut i: usize = 0;
    assert(rest.deep_view() =~= Seq::<Seq<char>>::empty());
    while i < names.len()
        invariant
            i <= names.len(),
            all == names.deep_view(),
            rest.deep_view() == without_name(all.take(i as int), name@),
        decreases names.len() - i,
    {
        proof {
            assert(all.take(i + 1).drop_last() =~= all.take(i as int));
            assert(all.take(i + 1).last() == names[i as int]@);
        }
        if !text_eq(names[i].as_str(), name) {
            let ghost before = rest.deep_view();
            rest.push(names[i].clone());
            assert(rest.deep_view() =~= before.push(names[i as int]@));
        }
        i += 1;
    }
    assert(all.take(names.len() as int) =~= all);
    rest
}

/// Whether a pair can be processed with the languages that were read.
pub fn pair_is_ready(primary: &str, secondary: &str, available: &Vec<String>) -> (ready: bool)
    ensures
        ready == is_ready((primary@, secondary@), available.deep_view()),
{
    names_contain(available, primary) && names_contain(available, secondary) && names_contain(
        available,
        ENGLISH,
    )
}

impl Pipeline {
    /// The pairs in flight and the pairs waiting can be counted together.
    #[verifier::type_invariant]
    spec fn well_formed(&self) -> bool {
        self.in_flight + self.pending.len() <= usize::MAX
    }

    /// The run over `pairs`, before anything was read.
    pub fn new(pairs: Vec<(String, String)>) -> (run: Self)
        ensures
            run@ == initial_state(pairs.deep_view()),
    {
        let awaited = if pairs.len() == 0 {
            Vec::new()
        } else {
            required_languages_of(&pairs)
        };
        let run = Pipeline {
            pending: pairs,
            awaited,
            available: Vec::new(),
            in_flight: 0,
            messages: Vec::new(),
            errors: Vec::new(),
        };
        proof {
            assert(run.awaited.deep_view() =~= initial_state(pairs.deep_view()).awaited);
            assert(run.available.deep_view() =~= Seq::<Seq<char>>::empty());
            assert(run.messages.deep_view() =~= Seq::<Seq<char>>::empty());
            assert(run.errors@ =~= Seq::<BilingualGeneratorError>::empty());
        }
        run
    }

    /// The languages that are still being read. For a new run these are the languages
    /// to read.
    pub fn awaited_languages(&self) -> (languages: Vec<String>)
        ensures
            languages.deep_view() == self@.awaited,
    {
        let mut languages: Vec<String> = Vec::new();
        let mut i: usize = 0;
        while i < self.awaited.len()
            invariant
                i <= self.awaited.len(),
                languages.deep_view() == self.awaited.deep_view().take(i as int),
            decreases self.awaited.len() - i,
        {
            let ghost before = languages.deep_view();
            languages.push(self.awaited[i].clone());
            assert(languages.deep_view() =~= before.push(self.awaited[i as int]@));
            assert(self.awaited.deep_view().take(i + 1) =~= before.push(self.awaited[i as int]@));
            i += 1;
        }
        assert(self.awaited.deep_view().take(self.awaited.len() as int)
            =~= self.awaited.deep_view());
        languages
    }

    /// The pairs that wait for a language, in their order.
    pub fn pending_pairs(&self) -> (pairs: Vec<(String, String)>)
        ensures
            pairs.deep_view() == self@.pending,
    {
        let mut pairs: Vec<(String, String)> = Vec::new();
        let mut i: usize = 0;
        assert(pairs.deep_view() =~= self.pending.deep_view().take(0));
        while i < self.pending.len()
            invariant
                i <= self.pending.len(),
                pairs.deep_view() == self.pending.deep_view().take(i as int),
            decreases self.pending.len() - i,
        {
            let ghost before = pairs.deep_view();
            let ghost pair = (self.pending[i as int].0@, self.pending[i as int].1@);
            pairs.push((self.pending[i].0.clone(), self.pending[i].1.clone()));
            assert(pairs.deep_view() =~= before.push(pair));
            assert(self.pending.deep_view().take(i + 1) =~= before.push(pair));
            i += 1;
        }
        assert(self.pending.deep_view().take(self.pending.len() as int)
            =~= self.pending.deep_view());
        pairs
    }

    /// The part of the run that it is in.
    pub fn phase(&self) -> (phase: Phase)
        ensures
            phase == phase_of(self@),
    {
        if self.awaited.len() > 0 {
            Phase::Reading
        } else if self.in_flight > 0 {
            Phase::Draining
        } else {
            Phase::Terminal
        }
    }

    /// Takes in that `language` was read, or with `failure` why it could not be read, and
    /// returns the pairs to process now: the waiting pairs whose two languages and
    /// English were read, in their order. The other pairs go on waiting.
    pub fn language_finished(
        &mut self,
        language: &str,
        failure: Option<BilingualGeneratorError>,
    ) -> (ready: Vec<(String, String)>)
        ensures
            final(self)@ == after_language(old(self)@, language@, failure),
            ready.deep_view() == ready_pairs(old(self)@.pending, final(self)@.available),
    {
        proof {
            use_type_invariant(&*self);
        }
        let mut taken = Pipeline::new(Vec::new());
        std::mem::swap(self, &mut taken);
        let ghost before = taken@;
        let Pipeline { pending, awaited, mut available, mut in_flight, messages, mut errors } =
            taken;
        match failure {
            Some(error) => {
                errors.push(error);
            },
            None => {
                add_language(&mut available, language);
            },
        }
        let awaited = remove_name(&awaited, language);
        let mut ready: Vec<(String, String)> = Vec::new();
        let mut waiting: Vec<(String, String)> = Vec::new();
        let ghost all = pending.deep_view();
        let ghost names = available.deep_view();
        let mut i: usize = 0;
        assert(ready.deep_view() =~= Seq::<Pair>::empty());
        assert(waiting.deep_view() =~= Seq::<Pair>::empty());
        while i < pending.len()
            invariant
                i <= pending.len(),
                all == pending.deep_view(),
                names == available.deep_view(),
                ready.deep_view() == ready_pairs(all.take(i as int), names),
                waiting.deep_view() == waiting_pairs(all.take(i as int), names),
                ready.len() + waiting.len() == i,
            decreases pending.len() - i,
        {
            proof {
                assert(all.take(i + 1).drop_last() =~= all.take(i as int));
                assert(all.take(i + 1).last() == (pending[i as int].0@, pending[i as int].1@));
            }
            let pair = (pending[i].0.clone(), pending[i].1.clone());
            if pair_is_ready(pair.0.as_str(), pair.1.as_str(), &available) {
                let ghost earlier = ready.deep_view();
                ready.push(pair);
                assert(ready.deep_view() =~= earlier.push(
                    (pending[i as int].0@, pending[i as int].1@),
                ));
            } else {
                let ghost earlier = waiting.deep_view();
                waiting.push(pair);
                assert(waiting.deep_view() =~= earlier.push(
                    (pending[i as int].0@, pending[i as int].1@),
                ));
            }
            i += 1;
        }
        assert(all.take(pending.len() as int) =~= all);
        in_flight = in_flight + ready.len();
        *self = Pipeline { pending: waiting, awaited, available, in_flight, messages, errors };
        ready
    }

    /// Takes in what processing a pair gave: the label of the pair, or why the pair
    /// could not be processed.
    pub fn pair_finished(&mut self, outcome: Result<String, BilingualGeneratorError>)
        ensures
            final(self)@ == after_pair(old(self)@, outcome),
    {
        proof {
            use_type_invariant(&*self);
        }
        let mut taken = Pipeline::new(Vec::new());
        std::mem::swap(self, &mut taken);
        let Pipeline { pending, awaited, available, mut in_flight, mut messages, mut errors } =
            taken;
        if in_flight > 0 {
            in_flight = in_flight - 1;
        }
        match outcome {
            Ok(label) => {
                let ghost before = messages.deep_view();
                messages.push(label);
                assert(messages.deep_view() =~= before.push(label@));
            },
            Err(error) => {
                errors.push(error);
            },
        }
        *self = Pipeline { pending, awaited, available, in_flight, messages, errors };
    }

    /// Ends the run. Pairs that are left waiting count as one failure, the last. The
    /// pairs that were processed are reported whatever failed.
    pub fn finish(self) -> (outcome: RunOutcome)
        ensures
            outcome.processed.deep_view() == self@.messages,
            is_final_errors(self@, outcome.failures@),
    {
        let Pipeline { pending, awaited, available, in_flight, messages, mut errors } = self;
        let ghost reported = errors@;
        if pending.len() > 0 {
            let message = missing_data_message_of(&pending);
            errors.push(BilingualGeneratorError::XmlProcessingFailed(message));
            assert(errors@.drop_last() =~= reported);
        }
        RunOutcome { processed: messages, failures: errors }
    }
}

} // verus!
