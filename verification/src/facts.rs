//! What is known of the file system, and decisions that wait for what is not.
//!
//! A decision reads a table of known facts. Where the table is silent it answers with the one
//! question it needs next. The caller looks, records what it saw and asks for the decision again.
use crate::place::Place;
use crate::place::PlaceView;
use vstd::prelude::*;

verus! {

/// The names in a directory: a name that is not Unicode is `None`. A directory that cannot be
/// read has no listing at all.
pub type Listing = Option<Vec<Option<String>>>;

/// The names in a directory, over their characters.
pub type ListingView = Option<Seq<Option<Seq<char>>>>;

/// A question about the file system.
#[derive(Debug)]
pub enum Question {
    /// Is there a directory at this place?
    IsDir(Place),
    /// Is there a file at this place?
    IsFile(Place),
    /// What does the directory at this place hold?
    List(Place),
    /// What is the extension of the path of this place, if it has one in Unicode?
    Extension(Place),
}

/// A question, over views.
pub enum QuestionView {
    IsDir(PlaceView),
    IsFile(PlaceView),
    List(PlaceView),
    Extension(PlaceView),
}

impl DeepView for Question {
    type V = QuestionView;

    open spec fn deep_view(&self) -> QuestionView {
        match self {
            Question::IsDir(place) => QuestionView::IsDir(place@),
            Question::IsFile(place) => QuestionView::IsFile(place@),
            Question::List(place) => QuestionView::List(place@),
            Question::Extension(place) => QuestionView::Extension(place@),
        }
    }
}

/// What a decision comes to: a result, or the next question.
#[derive(Debug)]
pub enum Answer<T> {
    Known(T),
    Ask(Question),
}

/// What a decision comes to, over views.
pub enum Verdict<T> {
    Known(T),
    Ask(QuestionView),
}

impl<T: DeepView> DeepView for Answer<T> {
    type V = Verdict<T::V>;

    open spec fn deep_view(&self) -> Verdict<T::V> {
        match self {
            Answer::Known(value) => Verdict::Known(value.deep_view()),
            Answer::Ask(question) => Verdict::Ask(question.deep_view()),
        }
    }
}

/// The facts known so far.
pub struct FactsView {
    pub dirs: Map<PlaceView, bool>,
    pub files: Map<PlaceView, bool>,
    pub listings: Map<PlaceView, ListingView>,
    pub extensions: Map<PlaceView, Option<Seq<char>>>,
}

impl FactsView {
    /// The question has been answered.
    pub open spec fn knows(self, question: QuestionView) -> bool {
        match question {
            QuestionView::IsDir(place) => self.dirs.contains_key(place),
            QuestionView::IsFile(place) => self.files.contains_key(place),
            QuestionView::List(place) => self.listings.contains_key(place),
            QuestionView::Extension(place) => self.extensions.contains_key(place),
        }
    }

    /// Whether there is a directory at the place.
    pub open spec fn dir(self, place: PlaceView) -> Verdict<bool> {
        if self.dirs.contains_key(place) {
            Verdict::Known(self.dirs[place])
        } else {
            Verdict::Ask(QuestionView::IsDir(place))
        }
    }

    /// Whether there is a file at the place.
    pub open spec fn file(self, place: PlaceView) -> Verdict<bool> {
        if self.files.contains_key(place) {
            Verdict::Known(self.files[place])
        } else {
            Verdict::Ask(QuestionView::IsFile(place))
        }
    }

    /// What the directory at the place holds.
    pub open spec fn listing(self, place: PlaceView) -> Verdict<ListingView> {
        if self.listings.contains_key(place) {
            Verdict::Known(self.listings[place])
        } else {
            Verdict::Ask(QuestionView::List(place))
        }
    }

    /// The extension of the path of the place.
    pub open spec fn extension(self, place: PlaceView) -> Verdict<Option<Seq<char>>> {
        if self.extensions.contains_key(place) {
            Verdict::Known(self.extensions[place])
        } else {
            Verdict::Ask(QuestionView::Extension(place))
        }
    }
}

/// The second verdict, if the first is yes; else the first.
pub open spec fn both(first: Verdict<bool>, second: Verdict<bool>) -> Verdict<bool> {
    if first == Verdict::Known(true) {
        second
    } else {
        first
    }
}

/// The second verdict, if the first is no; else the first.
pub open spec fn either(first: Verdict<bool>, second: Verdict<bool>) -> Verdict<bool> {
    if first == Verdict::Known(false) {
        second
    } else {
        first
    }
}

/// The first item, in the order given, that passes a test whose verdicts may be questions.
pub open spec fn first_passing<C>(
    items: Seq<C>,
    test: spec_fn(C) -> Verdict<bool>,
) -> Verdict<Option<C>>
    decreases items.len(),
{
    if items.len() == 0 {
        Verdict::Known(None)
    } else {
        match test(items[0]) {
            Verdict::Ask(question) => Verdict::Ask(question),
            Verdict::Known(true) => Verdict::Known(Some(items[0])),
            Verdict::Known(false) => first_passing(items.skip(1), test),
        }
    }
}

/// Whether a search found anything.
pub open spec fn found_any<C>(search: Verdict<Option<C>>) -> Verdict<bool> {
    match search {
        Verdict::Ask(question) => Verdict::Ask(question),
        Verdict::Known(found) => Verdict::Known(found is Some),
    }
}

/// The entries of a directory that holds these names.
pub open spec fn entries(dir: PlaceView, names: Seq<Option<Seq<char>>>) -> Seq<PlaceView> {
    Seq::new(names.len(), |i: int| dir.entry(i as usize, names[i]))
}

/// What was recorded last for each place.
pub open spec fn latest<A>(ledger: Seq<(PlaceView, A)>) -> Map<PlaceView, A>
    decreases ledger.len(),
{
    if ledger.len() == 0 {
        Map::empty()
    } else {
        latest(ledger.drop_last()).insert(ledger.last().0, ledger.last().1)
    }
}

/// A table of facts.
pub struct Facts {
    dirs: Vec<(Place, bool)>,
    files: Vec<(Place, bool)>,
    listings: Vec<(Place, Listing)>,
    extensions: Vec<(Place, Option<String>)>,
}

impl View for Facts {
    type V = FactsView;

    closed spec fn view(&self) -> FactsView {
        FactsView {
            dirs: latest(self.dirs.deep_view()),
            files: latest(self.files.deep_view()),
            listings: latest(self.listings.deep_view()),
            extensions: latest(self.extensions.deep_view()),
        }
    }
}

/// What was recorded last for the place.
fn recall<'a, A: DeepView>(ledger: &'a Vec<(Place, A)>, place: &Place) -> (value: Option<&'a A>)
    ensures
        latest(ledger.deep_view()).contains_key(place@) <==> value is Some,
        value matches Some(value) ==> latest(ledger.deep_view())[place@] == value.deep_view(),
{
    let ghost whole = ledger.deep_view();
    let mut k: usize = ledger.len();
    assert(whole.take(k as int) =~= whole);
    while k > 0
        invariant
            k <= ledger.len(),
            whole == ledger.deep_view(),
            latest(whole).contains_key(place@) <==> latest(whole.take(k as int)).contains_key(
                place@,
            ),
            latest(whole).contains_key(place@) ==> latest(whole)[place@] == latest(
                whole.take(k as int),
            )[place@],
        decreases k,
    {
        let ghost so_far = whole.take(k as int);
        assert(so_far.drop_last() =~= whole.take(k - 1));
        assert(so_far.last() == ledger[k - 1].deep_view());
        if ledger[k - 1].0.same(place) {
            return Some(&ledger[k - 1].1);
        }
        k -= 1;
    }
    None
}

/// Records a value for a place.
fn note<A: DeepView>(ledger: &mut Vec<(Place, A)>, place: &Place, value: A)
    ensures
        latest(final(ledger).deep_view()) == latest(old(ledger).deep_view()).insert(
            place@,
            value.deep_view(),
        ),
{
    let ghost before = ledger.deep_view();
    let ghost noted = value.deep_view();
    ledger.push((place.copy(), value));
    assert(ledger.deep_view() =~= before.push((place@, noted)));
    assert(before.push((place@, noted)).drop_last() =~= before);
}

impl Facts {
    /// A table without facts.
    pub fn new() -> (facts: Facts)
        ensures
            facts@.dirs == Map::<PlaceView, bool>::empty(),
            facts@.files == Map::<PlaceView, bool>::empty(),
            facts@.listings == Map::<PlaceView, ListingView>::empty(),
            facts@.extensions == Map::<PlaceView, Option<Seq<char>>>::empty(),
    {
        Facts {
            dirs: Vec::new(),
            files: Vec::new(),
            listings: Vec::new(),
            extensions: Vec::new(),
        }
    }

    /// Records whether there is a directory at the place.
    pub fn record_dir(&mut self, place: &Place, present: bool)
        ensures
            final(self)@.dirs == old(self)@.dirs.insert(place@, present),
            final(self)@.files == old(self)@.files,
            final(self)@.listings == old(self)@.listings,
            final(self)@.extensions == old(self)@.extensions,
    {
        note(&mut self.dirs, place, present);
    }

    /// Records whether there is a file at the place.
    pub fn record_file(&mut self, place: &Place, present: bool)
        ensures
            final(self)@.dirs == old(self)@.dirs,
            final(self)@.files == old(self)@.files.insert(place@, present),
            final(self)@.listings == old(self)@.listings,
            final(self)@.extensions == old(self)@.extensions,
    {
        note(&mut self.files, place, present);
    }

    /// Records what the directory at the place holds.
    pub fn record_listing(&mut self, place: &Place, listing: Listing)
        ensures
            final(self)@.dirs == old(self)@.dirs,
            final(self)@.files == old(self)@.files,
            final(self)@.listings == old(self)@.listings.insert(place@, listing.deep_view()),
            final(self)@.extensions == old(self)@.extensions,
    {
        note(&mut self.listings, place, listing);
    }

    /// Records the extension of the path of the place, if it has one in Unicode.
    pub fn record_extension(&mut self, place: &Place, extension: Option<String>)
        ensures
            final(self)@.dirs == old(self)@.dirs,
            final(self)@.files == old(self)@.files,
            final(self)@.listings == old(self)@.listings,
            final(self)@.extensions == old(self)@.extensions.insert(
                place@,
                extension.deep_view(),
            ),
    {
        note(&mut self.extensions, place, extension);
    }

    /// Whether there is a directory at the place.
    pub fn is_dir(&self, place: &Place) -> (answer: Answer<bool>)
        ensures
            answer.deep_view() == self@.dir(place@),
    {
        match recall(&self.dirs, place) {
            Some(present) => Answer::Known(*present),
            None => Answer::Ask(Question::IsDir(place.copy())),
        }
    }

    /// Whether there is a file at the place.
    pub fn is_file(&self, place: &Place) -> (answer: Answer<bool>)
        ensures
            answer.deep_view() == self@.file(place@),
    {
        match recall(&self.files, place) {
            Some(present) => Answer::Known(*present),
            None => Answer::Ask(Question::IsFile(place.copy())),
        }
    }

    /// What the directory at the place holds.
    pub fn list(&self, place: &Place) -> (answer: Answer<&Listing>)
        ensures
            answer.deep_view() == self@.listing(place@),
    {
        match recall(&self.listings, place) {
            Some(listing) => Answer::Known(listing),
            None => Answer::Ask(Question::List(place.copy())),
        }
    }

    /// The extension of the path of the place.
    pub fn extension(&self, place: &Place) -> (answer: Answer<&Option<String>>)
        ensures
            answer.deep_view() == self@.extension(place@),
    {
        match recall(&self.extensions, place) {
            Some(extension) => Answer::Known(extension),
            None => Answer::Ask(Question::Extension(place.copy())),
        }
    }
}

/// A file system that does not change: for every place, whether it is a directory, whether it
/// is a file, what it lists, and the extension of its path.
pub struct World {
    pub is_dir: spec_fn(PlaceView) -> bool,
    pub is_file: spec_fn(PlaceView) -> bool,
    pub listing: spec_fn(PlaceView) -> ListingView,
    pub extension: spec_fn(PlaceView) -> Option<Seq<char>>,
}

impl World {
    /// All that is known holds in this file system.
    pub open spec fn agrees(self, facts: FactsView) -> bool {
        &&& forall|p: PlaceView| #[trigger]
            facts.dirs.contains_key(p) ==> facts.dirs[p] == (self.is_dir)(p)
        &&& forall|p: PlaceView| #[trigger]
            facts.files.contains_key(p) ==> facts.files[p] == (self.is_file)(p)
        &&& forall|p: PlaceView| #[trigger]
            facts.listings.contains_key(p) ==> facts.listings[p] == (self.listing)(p)
        &&& forall|p: PlaceView| #[trigger]
            facts.extensions.contains_key(p) ==> facts.extensions[p] == (self.extension)(p)
    }

    /// What holds a page, and what can be listed, is a directory.
    pub open spec fn is_sound(self) -> bool {
        &&& forall|p: PlaceView|
            (self.is_file)(#[trigger] p.join("index.html"@)) ==> (self.is_dir)(p)
        &&& forall|p: PlaceView| #[trigger] (self.listing)(p) is Some ==> (self.is_dir)(p)
    }
}

/// If there is a result, it is this one.
pub open spec fn settles<T>(verdict: Verdict<T>, truth: T) -> bool {
    verdict matches Verdict::Known(value) ==> value == truth
}

/// If there is a question, it is one of these.
pub open spec fn asks_within<T>(
    verdict: Verdict<T>,
    topic: spec_fn(QuestionView) -> bool,
) -> bool {
    verdict matches Verdict::Ask(question) ==> topic(question)
}

/// If there is a question, the facts do not answer it yet.
pub open spec fn asks_news<T>(verdict: Verdict<T>, facts: FactsView) -> bool {
    verdict matches Verdict::Ask(question) ==> !facts.knows(question)
}

/// The first item, in the order given, that passes a test.
pub open spec fn first_true<C>(items: Seq<C>, test: spec_fn(C) -> bool) -> Option<C>
    decreases items.len(),
{
    if items.len() == 0 {
        None
    } else if test(items[0]) {
        Some(items[0])
    } else {
        first_true(items.skip(1), test)
    }
}

/// The item found is one of those given, it passes, and none before it does. Nothing is found
/// exactly if none passes.
pub proof fn law_first_true_is_first<C>(items: Seq<C>, test: spec_fn(C) -> bool)
    ensures
        match first_true(items, test) {
            Some(found) => exists|i: int|
                #![trigger items[i]]
                0 <= i < items.len() && items[i] == found && test(found) && forall|j: int|
                    0 <= j < i ==> !test(#[trigger] items[j]),
            None => forall|j: int| 0 <= j < items.len() ==> !test(#[trigger] items[j]),
        },
    decreases items.len(),
{
    if items.len() > 0 {
        if test(items[0]) {
            assert(items[0] == first_true(items, test)->0);
        } else {
            let rest = items.skip(1);
            law_first_true_is_first(rest, test);
            match first_true(rest, test) {
                Some(found) => {
                    let i = choose|i: int|
                        #![trigger rest[i]]
                        0 <= i < rest.len() && rest[i] == found && test(found) && forall|j: int|
                            0 <= j < i ==> !test(#[trigger] rest[j]);
                    assert(items[i + 1] == found);
                    assert forall|j: int| 0 <= j < i + 1 implies !test(#[trigger] items[j]) by {
                        if j > 0 {
                            assert(items[j] == rest[j - 1]);
                        }
                    }
                },
                None => {
                    assert forall|j: int| 0 <= j < items.len() implies !test(
                        #[trigger] items[j],
                    ) by {
                        if j > 0 {
                            assert(items[j] == rest[j - 1]);
                        }
                    }
                },
            }
        }
    }
}

/// A search settles on the first item that passes, if each test settles.
pub proof fn law_search_settles<C>(
    items: Seq<C>,
    test: spec_fn(C) -> Verdict<bool>,
    truth: spec_fn(C) -> bool,
)
    requires
        forall|i: int| 0 <= i < items.len() ==> settles(#[trigger] test(items[i]), truth(items[i])),
    ensures
        settles(first_passing(items, test), first_true(items, truth)),
    decreases items.len(),
{
    if items.len() > 0 {
        let rest = items.skip(1);
        assert(settles(test(items[0]), truth(items[0])));
        assert forall|i: int| 0 <= i < rest.len() implies settles(
            #[trigger] test(rest[i]),
            truth(rest[i]),
        ) by {
            assert(rest[i] == items[i + 1]);
            assert(settles(test(items[i + 1]), truth(items[i + 1])));
        }
        law_search_settles(rest, test, truth);
    }
}

/// A search asks only what one of its tests asks.
pub proof fn law_search_asks_within<C>(
    items: Seq<C>,
    test: spec_fn(C) -> Verdict<bool>,
    topic: spec_fn(QuestionView) -> bool,
)
    requires
        forall|i: int| 0 <= i < items.len() ==> asks_within(#[trigger] test(items[i]), topic),
    ensures
        asks_within(first_passing(items, test), topic),
    decreases items.len(),
{
    if items.len() > 0 {
        let rest = items.skip(1);
        assert(asks_within(test(items[0]), topic));
        assert forall|i: int| 0 <= i < rest.len() implies asks_within(
            #[trigger] test(rest[i]),
            topic,
        ) by {
            assert(rest[i] == items[i + 1]);
            assert(asks_within(test(items[i + 1]), topic));
        }
        law_search_asks_within(rest, test, topic);
    }
}

/// What a search found is one of the items it was given.
pub proof fn law_found_is_given<C>(items: Seq<C>, test: spec_fn(C) -> Verdict<bool>)
    ensures
        first_passing(items, test) matches Verdict::Known(Some(found)) ==> items.contains(found)
            && test(found) == Verdict::Known(true),
    decreases items.len(),
{
    if items.len() > 0 {
        let rest = items.skip(1);
        law_found_is_given(rest, test);
        if let Verdict::Known(Some(found)) = first_passing(items, test) {
            if test(items[0]) == Verdict::Known(true) {
                assert(items.contains(items[0]));
            } else {
                let i = choose|i: int| 0 <= i < rest.len() && rest[i] == found;
                assert(items[i + 1] == found);
            }
        }
    }
}

/// The facts answer a question with what was recorded for its place, and ask it if nothing was.
pub proof fn law_facts_answer_or_ask(f: FactsView, place: PlaceView)
    ensures
        f.dirs.contains_key(place) ==> f.dir(place) == Verdict::Known(f.dirs[place]),
        !f.dirs.contains_key(place) ==> f.dir(place) == Verdict::<bool>::Ask(
            QuestionView::IsDir(place),
        ),
        f.files.contains_key(place) ==> f.file(place) == Verdict::Known(f.files[place]),
        !f.files.contains_key(place) ==> f.file(place) == Verdict::<bool>::Ask(
            QuestionView::IsFile(place),
        ),
        f.listings.contains_key(place) ==> f.listing(place) == Verdict::Known(f.listings[place]),
        !f.listings.contains_key(place) ==> f.listing(place) == Verdict::<ListingView>::Ask(
            QuestionView::List(place),
        ),
        f.extensions.contains_key(place) ==> f.extension(place) == Verdict::Known(
            f.extensions[place],
        ),
        !f.extensions.contains_key(place) ==> f.extension(place) == Verdict::<
            Option<Seq<char>>,
        >::Ask(QuestionView::Extension(place)),
        f.knows(QuestionView::IsDir(place)) == f.dirs.contains_key(place),
        f.knows(QuestionView::IsFile(place)) == f.files.contains_key(place),
        f.knows(QuestionView::List(place)) == f.listings.contains_key(place),
        f.knows(QuestionView::Extension(place)) == f.extensions.contains_key(place),
{
}

/// Of two verdicts, both and either hold as for truths, and the second is asked for only where the
/// first leaves it open.
pub proof fn law_verdicts_combine_as_truths(question: QuestionView, second: Verdict<bool>)
    ensures
        both(Verdict::Known(true), second) == second,
        both(Verdict::Known(false), second) == Verdict::Known(false),
        both(Verdict::Ask(question), second) == Verdict::<bool>::Ask(question),
        either(Verdict::Known(false), second) == second,
        either(Verdict::Known(true), second) == Verdict::Known(true),
        either(Verdict::Ask(question), second) == Verdict::<bool>::Ask(question),
{
}

/// A search goes through the items in order. It stops at the first that does not fail: with the
/// item, if it passes, and else with its question.
pub proof fn law_search_goes_in_order<C>(items: Seq<C>, test: spec_fn(C) -> Verdict<bool>)
    ensures
        match first_passing(items, test) {
            Verdict::Known(None) => forall|j: int|
                0 <= j < items.len() ==> test(#[trigger] items[j]) == Verdict::Known(false),
            Verdict::Known(Some(found)) => exists|i: int|
                #![trigger items[i]]
                0 <= i < items.len() && items[i] == found && test(found) == Verdict::Known(true)
                    && forall|j: int|
                    0 <= j < i ==> test(#[trigger] items[j]) == Verdict::Known(false),
            Verdict::Ask(question) => exists|i: int|
                #![trigger items[i]]
                0 <= i < items.len() && test(items[i]) == Verdict::<bool>::Ask(question)
                    && forall|j: int|
                    0 <= j < i ==> test(#[trigger] items[j]) == Verdict::Known(false),
        },
    decreases items.len(),
{
    if items.len() > 0 {
        if test(items[0]) == Verdict::Known(false) {
            let rest = items.skip(1);
            law_search_goes_in_order(rest, test);
            match first_passing(rest, test) {
                Verdict::Known(None) => {
                    assert forall|j: int| 0 <= j < items.len() implies test(#[trigger] items[j])
                        == Verdict::Known(false) by {
                        if j > 0 {
                            assert(items[j] == rest[j - 1]);
                        }
                    }
                },
                Verdict::Known(Some(found)) => {
                    let i = choose|i: int|
                        #![trigger rest[i]]
                        0 <= i < rest.len() && rest[i] == found && test(found) == Verdict::Known(
                            true,
                        ) && forall|j: int|
                            0 <= j < i ==> test(#[trigger] rest[j]) == Verdict::Known(false);
                    assert(items[i + 1] == found);
                    assert forall|j: int| 0 <= j < i + 1 implies test(#[trigger] items[j])
                        == Verdict::Known(false) by {
                        if j > 0 {
                            assert(items[j] == rest[j - 1]);
                        }
                    }
                },
                Verdict::Ask(question) => {
                    let i = choose|i: int|
                        #![trigger rest[i]]
                        0 <= i < rest.len() && test(rest[i]) == Verdict::<bool>::Ask(question)
                            && forall|j: int|
                            0 <= j < i ==> test(#[trigger] rest[j]) == Verdict::Known(false);
                    assert(items[i + 1] == rest[i]);
                    assert forall|j: int| 0 <= j < i + 1 implies test(#[trigger] items[j])
                        == Verdict::Known(false) by {
                        if j > 0 {
                            assert(items[j] == rest[j - 1]);
                        }
                    }
                },
            }
        } else {
            let first = items[0];
            assert(items[0] == first);
        }
    }
}

/// Whether something was found is whether there is an item.
pub proof fn law_something_was_found<C>(item: C, question: QuestionView)
    ensures
        found_any(Verdict::Known(Some(item))) == Verdict::Known(true),
        found_any(Verdict::<Option<C>>::Known(None)) == Verdict::Known(false),
        found_any(Verdict::<Option<C>>::Ask(question)) == Verdict::<bool>::Ask(question),
{
}

/// There is one entry for each name, in the order of the names, each with its name.
pub proof fn law_entries_go_by_names(dir: PlaceView, names: Seq<Option<Seq<char>>>, i: int)
    requires
        0 <= i < names.len(),
    ensures
        entries(dir, names).len() == names.len(),
        entries(dir, names)[i] == dir.entry(i as usize, names[i]),
{
}

/// Views of answers and questions hold all that these hold.
pub proof fn law_views_hold_whole_answers(place: Place, present: bool, question: Question)
    ensures
        Question::IsDir(place).deep_view() == QuestionView::IsDir(place@),
        Question::IsFile(place).deep_view() == QuestionView::IsFile(place@),
        Question::List(place).deep_view() == QuestionView::List(place@),
        Question::Extension(place).deep_view() == QuestionView::Extension(place@),
        Answer::Known(present).deep_view() == Verdict::Known(present),
        Answer::Known(Some(place)).deep_view() == Verdict::Known(Some(place@)),
        Answer::Known(None::<Place>).deep_view() == Verdict::<Option<PlaceView>>::Known(None),
        Answer::<bool>::Ask(question).deep_view() == Verdict::<bool>::Ask(question.deep_view()),
        Answer::<Option<Place>>::Ask(question).deep_view() == Verdict::<Option<PlaceView>>::Ask(
            question.deep_view(),
        ),
{
}

/// Facts agree with a file system exactly if each of them holds there.
pub proof fn law_agreement_is_on_every_fact(w: World, f: FactsView)
    ensures
        w.agrees(f) <==> {
            &&& forall|p: PlaceView| #[trigger]
                f.dirs.contains_key(p) ==> f.dirs[p] == (w.is_dir)(p)
            &&& forall|p: PlaceView| #[trigger]
                f.files.contains_key(p) ==> f.files[p] == (w.is_file)(p)
            &&& forall|p: PlaceView| #[trigger]
                f.listings.contains_key(p) ==> f.listings[p] == (w.listing)(p)
            &&& forall|p: PlaceView| #[trigger]
                f.extensions.contains_key(p) ==> f.extensions[p] == (w.extension)(p)
        },
{
}

/// A verdict settles on a truth exactly if it does not give another, and asks something new
/// exactly if it does not ask what is known.
pub proof fn law_verdicts_are_right_or_ask<T>(
    value: T,
    truth: T,
    question: QuestionView,
    f: FactsView,
    topic: spec_fn(QuestionView) -> bool,
)
    ensures
        settles(Verdict::Known(value), truth) <==> value == truth,
        settles(Verdict::Ask(question), truth),
        asks_news(Verdict::Known(value), f),
        asks_news(Verdict::<T>::Ask(question), f) <==> !f.knows(question),
        asks_within(Verdict::Known(value), topic),
        asks_within(Verdict::<T>::Ask(question), topic) <==> topic(question),
{
}

/// Recording a fact answers its question from then on, and no other.
pub proof fn law_recorded_facts_are_recalled(f: FactsView, place: PlaceView, other: PlaceView, present: bool)
    ensures
        (FactsView { dirs: f.dirs.insert(place, present), ..f }).dir(place) == Verdict::Known(present),
        place != other ==> (FactsView { dirs: f.dirs.insert(place, present), ..f }).dir(other)
            == f.dir(other),
        (FactsView { files: f.files.insert(place, present), ..f }).file(place) == Verdict::Known(
            present,
        ),
        place != other ==> (FactsView { files: f.files.insert(place, present), ..f }).file(other)
            == f.file(other),
{
}

} // verus!
