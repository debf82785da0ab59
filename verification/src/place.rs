//! Places in the file system, as the library speaks of them.
//!
//! The library never touches the file system. It names a place by where it starts and by the
//! steps that lead on from there; whoever holds the real paths takes those steps.
use crate::text;
use vstd::prelude::*;

verus! {

/// Where the way to a place starts.
#[derive(Clone, Copy, PartialEq, Eq, Structural, Debug)]
pub enum Base {
    /// The empty path: the first step decides.
    Bare,
    /// The directory that the caller knows by this number.
    Start(usize),
}

/// One step of the way to a place.
#[derive(Debug)]
pub enum Leg {
    /// Join this text to the path.
    Join(String),
    /// Go to the entry with this number in the listing of the directory. It has this name, or
    /// `None` for one that is not Unicode.
    Entry(usize, Option<String>),
}

/// A place: the ancestor `up` levels above the base, and the steps on from there.
#[derive(Debug)]
pub struct Place {
    pub base: Base,
    pub up: usize,
    pub legs: Vec<Leg>,
}

/// A step, over the characters of its text.
pub enum LegView {
    Join(Seq<char>),
    Entry(usize, Option<Seq<char>>),
}

/// A place, over the characters of its steps.
#[verifier::ext_equal]
pub struct PlaceView {
    pub base: Base,
    pub up: usize,
    pub legs: Seq<LegView>,
}

impl DeepView for Leg {
    type V = LegView;

    open spec fn deep_view(&self) -> LegView {
        match self {
            Leg::Join(text) => LegView::Join(text@),
            Leg::Entry(index, name) => LegView::Entry(*index, name.deep_view()),
        }
    }
}

impl DeepView for Place {
    type V = PlaceView;

    open spec fn deep_view(&self) -> PlaceView {
        PlaceView { base: self.base, up: self.up, legs: self.legs.deep_view() }
    }
}

impl View for Place {
    type V = PlaceView;

    open spec fn view(&self) -> PlaceView {
        self.deep_view()
    }
}

impl PlaceView {
    /// The place that joining a text to this one leads to.
    pub open spec fn join(self, text: Seq<char>) -> PlaceView {
        PlaceView { legs: self.legs.push(LegView::Join(text)), ..self }
    }

    /// The place that joining several texts, one after the other, leads to.
    pub open spec fn join_all(self, texts: Seq<Seq<char>>) -> PlaceView {
        PlaceView { legs: self.legs + texts.map_values(|t: Seq<char>| LegView::Join(t)), ..self }
    }

    /// An entry of this directory.
    pub open spec fn entry(self, index: usize, name: Option<Seq<char>>) -> PlaceView {
        PlaceView { legs: self.legs.push(LegView::Entry(index, name)), ..self }
    }
}

/// The place that a path given as text names.
pub open spec fn bare_place(path: Seq<char>) -> PlaceView {
    PlaceView { base: Base::Bare, up: 0, legs: seq![LegView::Join(path)] }
}

/// The ancestor `up` levels above a start directory.
pub open spec fn ancestor(id: usize, up: usize) -> PlaceView {
    PlaceView { base: Base::Start(id), up, legs: Seq::empty() }
}

/// The same name again.
fn copy_name(name: &Option<String>) -> (copy: Option<String>)
    ensures
        copy.deep_view() == name.deep_view(),
{
    match name {
        Some(name) => Some(name.as_str().to_owned()),
        None => None,
    }
}

/// Whether two names are the same, or both missing.
fn same_name(a: &Option<String>, b: &Option<String>) -> (same: bool)
    ensures
        same == (a.deep_view() == b.deep_view()),
{
    match (a, b) {
        (Some(a), Some(b)) => text::same_text(a.as_str(), b.as_str()),
        (None, None) => true,
        _ => false,
    }
}

impl Leg {
    fn copy(&self) -> (leg: Leg)
        ensures
            leg.deep_view() == self.deep_view(),
    {
        match self {
            Leg::Join(text) => Leg::Join(text.as_str().to_owned()),
            Leg::Entry(index, name) => Leg::Entry(*index, copy_name(name)),
        }
    }

    fn same(&self, other: &Leg) -> (same: bool)
        ensures
            same == (self.deep_view() == other.deep_view()),
    {
        match (self, other) {
            (Leg::Join(a), Leg::Join(b)) => text::same_text(a.as_str(), b.as_str()),
            (Leg::Entry(a, a_name), Leg::Entry(b, b_name)) => *a == *b && same_name(a_name, b_name),
            _ => false,
        }
    }
}

impl Place {
    /// The place that a path given as text names.
    pub fn bare(path: &str) -> (place: Place)
        ensures
            place@ == bare_place(path@),
    {
        let mut legs: Vec<Leg> = Vec::new();
        legs.push(Leg::Join(path.to_owned()));
        let place = Place { base: Base::Bare, up: 0, legs };
        assert(place@ =~= bare_place(path@));
        place
    }

    /// The ancestor `up` levels above a start directory.
    pub fn start(id: usize, up: usize) -> (place: Place)
        ensures
            place@ == ancestor(id, up),
    {
        let place = Place { base: Base::Start(id), up, legs: Vec::new() };
        assert(place@ =~= ancestor(id, up));
        place
    }

    /// The same place again.
    pub fn copy(&self) -> (place: Place)
        ensures
            place@ == self@,
    {
        let mut legs: Vec<Leg> = Vec::new();
        let mut i: usize = 0;
        while i < self.legs.len()
            invariant
                i <= self.legs.len(),
                legs.deep_view() == self.legs.deep_view().take(i as int),
            decreases self.legs.len() - i,
        {
            let ghost before = legs.deep_view();
            legs.push(self.legs[i].copy());
            assert(legs.deep_view() =~= before.push(self.legs[i as int].deep_view()));
            assert(legs.deep_view() =~= self.legs.deep_view().take(i + 1));
            i += 1;
        }
        let place = Place { base: self.base, up: self.up, legs };
        assert(place@ =~= self@);
        place
    }

    /// Whether the two places are described in the same way.
    pub fn same(&self, other: &Place) -> (same: bool)
        ensures
            same == (self@ == other@),
    {
        if self.base != other.base || self.up != other.up || self.legs.len() != other.legs.len() {
            assert(self@.legs.len() == self.legs.len());
            assert(other@.legs.len() == other.legs.len());
            return false;
        }
        let mut i: usize = 0;
        while i < self.legs.len()
            invariant
                i <= self.legs.len(),
                self.legs.len() == other.legs.len(),
                self@.base == other@.base,
                self@.up == other@.up,
                forall|j: int|
                    0 <= j < i ==> self.legs.deep_view()[j] == other.legs.deep_view()[j],
            decreases self.legs.len() - i,
        {
            if !self.legs[i].same(&other.legs[i]) {
                assert(self.legs.deep_view()[i as int] != other.legs.deep_view()[i as int]);
                return false;
            }
            i += 1;
        }
        assert(self@ =~= other@);
        true
    }

    /// The place that joining a text to this one leads to.
    pub fn join(&self, text: &str) -> (place: Place)
        ensures
            place@ == self@.join(text@),
    {
        let mut place = self.copy();
        place.legs.push(Leg::Join(text.to_owned()));
        assert(place@ =~= self@.join(text@));
        place
    }

    /// An entry of this directory.
    pub fn entry(&self, index: usize, name: &Option<String>) -> (place: Place)
        ensures
            place@ == self@.entry(index, name.deep_view()),
    {
        let mut place = self.copy();
        place.legs.push(Leg::Entry(index, copy_name(name)));
        assert(place@ =~= self@.entry(index, name.deep_view()));
        place
    }
}

/// The view of a place holds all that the place holds: its base, its level and each of its steps.
pub proof fn law_view_holds_the_whole_place(place: Place)
    ensures
        place@.base == place.base,
        place@.up == place.up,
        place@.legs.len() == place.legs.len(),
        place.deep_view() == place@,
        forall|i: int|
            0 <= i < place.legs.len() ==> match #[trigger] place.legs[i] {
                Leg::Join(text) => place@.legs[i] == LegView::Join(text@),
                Leg::Entry(index, name) => place@.legs[i] == LegView::Entry(
                    index,
                    name.deep_view(),
                ),
            },
{
    assert forall|i: int| 0 <= i < place.legs.len() implies match #[trigger] place.legs[i] {
        Leg::Join(text) => place@.legs[i] == LegView::Join(text@),
        Leg::Entry(index, name) => place@.legs[i] == LegView::Entry(index, name.deep_view()),
    } by {
        assert(place@.legs[i] == place.legs[i].deep_view());
    }
}

/// A step goes behind those that are there, and changes nothing else.
pub proof fn law_steps_go_behind(place: PlaceView, text: Seq<char>, index: usize, name: Option<Seq<char>>)
    ensures
        place.join(text).base == place.base,
        place.join(text).up == place.up,
        place.join(text).legs == place.legs + seq![LegView::Join(text)],
        place.entry(index, name).base == place.base,
        place.entry(index, name).up == place.up,
        place.entry(index, name).legs == place.legs + seq![LegView::Entry(index, name)],
{
    assert(place.join(text).legs =~= place.legs + seq![LegView::Join(text)]);
    assert(place.entry(index, name).legs =~= place.legs + seq![LegView::Entry(index, name)]);
}

/// Joining several texts is joining one after the other.
pub proof fn law_joining_all_is_joining_each(place: PlaceView, texts: Seq<Seq<char>>, last: Seq<char>)
    ensures
        place.join_all(Seq::empty()) == place,
        place.join_all(texts.push(last)) == place.join_all(texts).join(last),
{
    assert(place.join_all(Seq::empty()) =~= place);
    assert(place.join_all(texts.push(last)) =~= place.join_all(texts).join(last));
}

/// A path given as text is one step from nowhere, and an ancestor of a start directory is no step
/// from its level.
pub proof fn law_ways_start_where_they_say(path: Seq<char>, id: usize, up: usize)
    ensures
        bare_place(path).base == Base::Bare,
        bare_place(path).up == 0,
        bare_place(path).legs == seq![LegView::Join(path)],
        ancestor(id, up).base == Base::Start(id),
        ancestor(id, up).up == up,
        ancestor(id, up).legs.len() == 0,
{
}

} // verus!
