//! Where the bundled web tools lie.
use crate::facts;
use crate::facts::Answer;
use crate::facts::Facts;
use crate::facts::FactsView;
use crate::facts::Verdict;
use crate::place;
use crate::place::Place;
use crate::place::PlaceView;
use crate::text;
use vstd::prelude::*;

verus! {

/// Where the web root is looked for last.
pub const WEB_ROOT_FALLBACK: &'static str = "G:\\Dx\\code\\web";

/// Where the root of the exported sites is looked for last.
pub const ASSETS_WEB_ROOT_FALLBACK: &'static str = "G:\\Dx\\code\\assets\\web";

/// A directory to start from: the number the caller knows it by, and the last name of the
/// directory and of each of its ancestors, from the directory up. A directory without a name
/// in Unicode has `None`.
#[derive(Debug)]
pub struct Start {
    pub id: usize,
    pub names: Vec<Option<String>>,
}

/// A start directory, over the characters of its names.
pub struct StartView {
    pub id: usize,
    pub names: Seq<Option<Seq<char>>>,
}

impl DeepView for Start {
    type V = StartView;

    open spec fn deep_view(&self) -> StartView {
        StartView { id: self.id, names: self.names.deep_view() }
    }
}

/// What the process finds around it: the two settings that override a search, the current
/// directory, and the directory of the running program.
#[derive(Debug)]
pub struct Surroundings {
    pub web_root: Option<String>,
    pub assets_web_root: Option<String>,
    pub current_dir: Option<Start>,
    pub executable_dir: Option<Start>,
}

/// The surroundings, over views.
pub struct SurroundingsView {
    pub web_root: Option<Seq<char>>,
    pub assets_web_root: Option<Seq<char>>,
    pub current_dir: Option<StartView>,
    pub executable_dir: Option<StartView>,
}

impl View for Surroundings {
    type V = SurroundingsView;

    open spec fn view(&self) -> SurroundingsView {
        SurroundingsView {
            web_root: self.web_root.deep_view(),
            assets_web_root: self.assets_web_root.deep_view(),
            current_dir: self.current_dir.deep_view(),
            executable_dir: self.executable_dir.deep_view(),
        }
    }
}

/// Whether a place is a web root: a directory that holds one of the two tools that every web
/// root has.
pub open spec fn web_root_verdict(f: FactsView, place: PlaceView) -> Verdict<bool> {
    facts::both(
        f.dir(place),
        facts::either(f.dir(place.join("shader"@)), f.dir(place.join("whiteboard"@))),
    )
}

/// The test for a web root.
pub open spec fn web_root_test(f: FactsView) -> spec_fn(PlaceView) -> Verdict<bool> {
    |p: PlaceView| web_root_verdict(f, p)
}

/// The places tried at one level of a walk to the top: the directory itself, and the two
/// places below it where a web root is kept.
pub open spec fn web_root_level(dir: PlaceView) -> Seq<PlaceView> {
    seq![dir, dir.join("web"@), dir.join("code"@).join("web"@)]
}

/// The ancestor `up` levels above a start directory.
pub open spec fn ancestor_of(start: StartView, up: int) -> PlaceView {
    place::ancestor(start.id, up as usize)
}

/// The places tried on the lowest `levels` levels of a walk from a start directory to the top.
pub open spec fn web_root_walk(start: StartView, levels: nat) -> Seq<PlaceView>
    decreases levels,
{
    if levels == 0 {
        Seq::empty()
    } else {
        web_root_walk(start, (levels - 1) as nat) + web_root_level(ancestor_of(start, levels - 1))
    }
}

/// The places tried on a walk from a start directory, if there is one.
pub open spec fn web_root_walk_from(start: Option<StartView>) -> Seq<PlaceView> {
    match start {
        Some(start) => web_root_walk(start, start.names.len()),
        None => Seq::empty(),
    }
}

/// A path given by a setting, if there is one.
pub open spec fn named_place(setting: Option<Seq<char>>) -> Seq<PlaceView> {
    match setting {
        Some(path) => seq![place::bare_place(path)],
        None => Seq::empty(),
    }
}

/// The places where the web root may be, in the order in which they are tried: the override,
/// the walk from the current directory, the walk from the program's directory, the fallback.
pub open spec fn web_root_candidates(s: SurroundingsView) -> Seq<PlaceView> {
    named_place(s.web_root) + web_root_walk_from(s.current_dir) + web_root_walk_from(
        s.executable_dir,
    ) + seq![place::bare_place(WEB_ROOT_FALLBACK@)]
}

/// The web root: the first candidate that is one.
pub open spec fn dx_web_root(f: FactsView, s: SurroundingsView) -> Verdict<Option<PlaceView>> {
    facts::first_passing(web_root_candidates(s), web_root_test(f))
}

/// Whether the place is a web root.
pub fn is_dx_web_root(p: &Place, known: &Facts) -> (answer: Answer<bool>)
    ensures
        answer.deep_view() == web_root_verdict(known@, p@),
{
    match known.is_dir(p) {
        Answer::Known(true) => {},
        other => {
            return other;
        },
    }
    match known.is_dir(&p.join("shader")) {
        Answer::Known(false) => {},
        other => {
            return other;
        },
    }
    known.is_dir(&p.join("whiteboard"))
}

/// Adds the places tried on a walk from a start directory.
fn push_web_root_walk(candidates: &mut Vec<Place>, start: &Option<Start>)
    ensures
        final(candidates).deep_view() == old(candidates).deep_view() + web_root_walk_from(
            start.deep_view(),
        ),
{
    let ghost before = candidates.deep_view();
    assert(before + Seq::<PlaceView>::empty() =~= before);
    if let Some(start) = start {
        let mut up: usize = 0;
        while up < start.names.len()
            invariant
                up <= start.names.len(),
                candidates.deep_view() == before + web_root_walk(start.deep_view(), up as nat),
            decreases start.names.len() - up,
        {
            let ghost so_far = candidates.deep_view();
            let dir = Place::start(start.id, up);
            let web = dir.join("web");
            let code_web = dir.join("code").join("web");
            candidates.push(dir);
            candidates.push(web);
            candidates.push(code_web);
            assert(candidates.deep_view() =~= so_far + web_root_level(
                ancestor_of(start.deep_view(), up as int),
            ));
            assert(candidates.deep_view() =~= before + web_root_walk(
                start.deep_view(),
                (up + 1) as nat,
            ));
            up += 1;
        }
    }
}

/// Adds the path given by a setting.
fn push_named_place(candidates: &mut Vec<Place>, setting: &Option<String>)
    ensures
        final(candidates).deep_view() == old(candidates).deep_view() + named_place(
            setting.deep_view(),
        ),
{
    let ghost before = candidates.deep_view();
    if let Some(path) = setting {
        candidates.push(Place::bare(path.as_str()));
    }
    assert(candidates.deep_view() =~= before + named_place(setting.deep_view()));
}

/// Finds the web root: the override if it is one, else the first on the ways from the current
/// directory and from the program's directory to the top, else the fallback.
pub fn find_dx_web_root(surroundings: &Surroundings, known: &Facts) -> (answer: Answer<
    Option<Place>,
>)
    ensures
        answer.deep_view() == dx_web_root(known@, surroundings@),
{
    let mut candidates: Vec<Place> = Vec::new();
    push_named_place(&mut candidates, &surroundings.web_root);
    push_web_root_walk(&mut candidates, &surroundings.current_dir);
    push_web_root_walk(&mut candidates, &surroundings.executable_dir);
    candidates.push(Place::bare(WEB_ROOT_FALLBACK));
    assert(candidates.deep_view() =~= web_root_candidates(surroundings@));
    let ghost all = candidates.deep_view();
    let ghost test = web_root_test(known@);
    let mut i: usize = 0;
    assert(all.skip(0) =~= all);
    while i < candidates.len()
        invariant
            i <= candidates.len(),
            all == candidates.deep_view(),
            all == web_root_candidates(surroundings@),
            test == web_root_test(known@),
            facts::first_passing(all, test) == facts::first_passing(all.skip(i as int), test),
        decreases candidates.len() - i,
    {
        let ghost rest = all.skip(i as int);
        assert(rest[0] == candidates[i as int]@);
        assert(rest.skip(1) =~= all.skip(i + 1));
        match is_dx_web_root(&candidates[i], known) {
            Answer::Ask(question) => {
                return Answer::Ask(question);
            },
            Answer::Known(true) => {
                return Answer::Known(Some(candidates[i].copy()));
            },
            Answer::Known(false) => {},
        }
        i += 1;
    }
    Answer::Known(None)
}

/// The web root once it has been looked for. It is looked for only once.
#[derive(Debug)]
pub struct WebRootMemo {
    pub found: Option<Option<Place>>,
}

impl View for WebRootMemo {
    type V = Option<Option<PlaceView>>;

    open spec fn view(&self) -> Option<Option<PlaceView>> {
        self.found.deep_view()
    }
}

/// The web root as remembered, or as found now.
pub open spec fn web_root_now(
    memo: Option<Option<PlaceView>>,
    f: FactsView,
    s: SurroundingsView,
) -> Verdict<Option<PlaceView>> {
    match memo {
        Some(found) => Verdict::Known(found),
        None => dx_web_root(f, s),
    }
}

/// What is remembered after the web root was asked for.
pub open spec fn memo_after(
    memo: Option<Option<PlaceView>>,
    f: FactsView,
    s: SurroundingsView,
) -> Option<Option<PlaceView>> {
    match web_root_now(memo, f, s) {
        Verdict::Known(found) => Some(found),
        Verdict::Ask(_) => memo,
    }
}

impl WebRootMemo {
    /// Nothing has been looked for yet.
    pub fn new() -> (memo: WebRootMemo)
        ensures
            memo@ is None,
    {
        WebRootMemo { found: None }
    }
}

fn copy_option(place: &Option<Place>) -> (copy: Option<Place>)
    ensures
        copy.deep_view() == place.deep_view(),
{
    match place {
        Some(place) => Some(place.copy()),
        None => None,
    }
}

/// The web root. The first result is remembered and given from then on, whatever changes.
pub fn web_root(memo: &mut WebRootMemo, surroundings: &Surroundings, known: &Facts) -> (answer:
    Answer<Option<Place>>)
    ensures
        answer.deep_view() == web_root_now(old(memo)@, known@, surroundings@),
        final(memo)@ == memo_after(old(memo)@, known@, surroundings@),
{
    if let Some(found) = &memo.found {
        return Answer::Known(copy_option(found));
    }
    match find_dx_web_root(surroundings, known) {
        Answer::Known(found) => {
            memo.found = Some(copy_option(&found));
            Answer::Known(found)
        },
        Answer::Ask(question) => Answer::Ask(question),
    }
}

/// A way in which a place can be the root of the exported sites.
#[derive(Clone, Copy, PartialEq, Eq, Structural, Debug)]
pub enum AssetsKind {
    /// It was named, and is a directory.
    Named,
    /// It is the `assets/web` directory below a directory on the way to the top.
    Below,
    /// It is itself an `assets/web` directory on the way to the top.
    Itself,
}

impl DeepView for AssetsKind {
    type V = AssetsKind;

    open spec fn deep_view(&self) -> AssetsKind {
        *self
    }
}

/// The test for a directory with a built site in it.
pub open spec fn built_site_test(f: FactsView) -> spec_fn(PlaceView) -> Verdict<bool> {
    |entry: PlaceView| facts::both(f.dir(entry), f.file(entry.join("index.html"@)))
}

/// Whether one of the entries of a directory that holds these names is a directory with a built
/// site.
pub open spec fn has_built_site(
    f: FactsView,
    dir: PlaceView,
    names: Seq<Option<Seq<char>>>,
) -> Verdict<bool> {
    facts::found_any(facts::first_passing(facts::entries(dir, names), built_site_test(f)))
}

/// Whether a candidate is the root of the exported sites.
pub open spec fn assets_verdict(f: FactsView, place: PlaceView, kind: AssetsKind) -> Verdict<bool> {
    match kind {
        AssetsKind::Named => f.dir(place),
        AssetsKind::Below => facts::both(
            f.dir(place),
            match f.listing(place) {
                Verdict::Ask(question) => Verdict::Ask(question),
                Verdict::Known(None) => Verdict::Known(false),
                Verdict::Known(Some(names)) => facts::either(
                    has_built_site(f, place, names),
                    facts::either(f.dir(place.join("design"@)), f.dir(place.join("whiteboard"@))),
                ),
            },
        ),
        AssetsKind::Itself => facts::either(
            f.file(place.join("index.html"@)),
            match f.listing(place) {
                Verdict::Ask(question) => Verdict::Ask(question),
                Verdict::Known(None) => Verdict::Known(false),
                Verdict::Known(Some(names)) => has_built_site(f, place, names),
            },
        ),
    }
}

/// The test for the root of the exported sites.
pub open spec fn assets_test(f: FactsView) -> spec_fn((PlaceView, AssetsKind)) -> Verdict<bool> {
    |c: (PlaceView, AssetsKind)| assets_verdict(f, c.0, c.1)
}

/// What is tried at one directory on the way to the top: the `assets/web` below it and, if the
/// directory is itself an `assets/web`, the directory.
pub open spec fn assets_level(dir: PlaceView, is_assets_web: bool) -> Seq<
    (PlaceView, AssetsKind),
> {
    let below = seq![(dir.join("assets"@).join("web"@), AssetsKind::Below)];
    if is_assets_web {
        below.push((dir, AssetsKind::Itself))
    } else {
        below
    }
}

/// The ancestor `up` levels above a start directory is a `web` in an `assets`.
pub open spec fn is_assets_web(names: Seq<Option<Seq<char>>>, up: int) -> bool {
    &&& up + 1 < names.len()
    &&& names[up] == Some("web"@)
    &&& names[up + 1] == Some("assets"@)
}

/// What is tried at the ancestor `up` levels above a start directory.
pub open spec fn assets_level_of(start: StartView, up: int) -> Seq<(PlaceView, AssetsKind)> {
    assets_level(ancestor_of(start, up), is_assets_web(start.names, up))
}

/// What is tried on the lowest `levels` levels of a walk from a start directory to the top.
pub open spec fn assets_walk(start: StartView, levels: nat) -> Seq<(PlaceView, AssetsKind)>
    decreases levels,
{
    if levels == 0 {
        Seq::empty()
    } else {
        assets_walk(start, (levels - 1) as nat) + assets_level_of(start, levels - 1)
    }
}

/// What is tried below a start directory: first the `assets/web` there, in either way, then the
/// `assets/web` below that and below the `assets`.
pub open spec fn assets_below(start: StartView) -> Seq<(PlaceView, AssetsKind)> {
    let assets = ancestor_of(start, 0).join("assets"@);
    let web = assets.join("web"@);
    seq![(web, AssetsKind::Below), (web, AssetsKind::Itself)] + assets_level(web, false)
        + assets_level(assets, false)
}

/// What is tried for a start directory, if there is one: what lies below it, then the walk from
/// the directory to the top.
pub open spec fn assets_walks_from(start: Option<StartView>) -> Seq<(PlaceView, AssetsKind)> {
    match start {
        Some(start) => assets_below(start) + assets_walk(start, start.names.len()),
        None => Seq::empty(),
    }
}

/// A path given by a setting, if there is one.
pub open spec fn named_assets(setting: Option<Seq<char>>) -> Seq<(PlaceView, AssetsKind)> {
    match setting {
        Some(path) => seq![(place::bare_place(path), AssetsKind::Named)],
        None => Seq::empty(),
    }
}

/// What is tried for the root of the exported sites, in order.
pub open spec fn assets_candidates(s: SurroundingsView) -> Seq<(PlaceView, AssetsKind)> {
    named_assets(s.assets_web_root) + assets_walks_from(s.current_dir) + assets_walks_from(
        s.executable_dir,
    ) + seq![(place::bare_place(ASSETS_WEB_ROOT_FALLBACK@), AssetsKind::Named)]
}

/// The place of a candidate found.
pub open spec fn place_found(
    search: Verdict<Option<(PlaceView, AssetsKind)>>,
) -> Verdict<Option<PlaceView>> {
    match search {
        Verdict::Ask(question) => Verdict::Ask(question),
        Verdict::Known(Some(found)) => Verdict::Known(Some(found.0)),
        Verdict::Known(None) => Verdict::Known(None),
    }
}

/// The root of the exported sites: the first candidate that is one.
pub open spec fn assets_web_root(f: FactsView, s: SurroundingsView) -> Verdict<
    Option<PlaceView>,
> {
    place_found(facts::first_passing(assets_candidates(s), assets_test(f)))
}

/// Whether one of the entries of a directory is a directory with a built site.
fn finds_built_site(dir: &Place, names: &Vec<Option<String>>, known: &Facts) -> (answer: Answer<
    bool,
>)
    ensures
        answer.deep_view() == has_built_site(known@, dir@, names.deep_view()),
{
    let ghost all = facts::entries(dir@, names.deep_view());
    let ghost test = built_site_test(known@);
    let mut i: usize = 0;
    assert(all.skip(0) =~= all);
    while i < names.len()
        invariant
            i <= names.len(),
            all == facts::entries(dir@, names.deep_view()),
            test == built_site_test(known@),
            facts::first_passing(all, test) == facts::first_passing(all.skip(i as int), test),
        decreases names.len() - i,
    {
        let ghost rest = all.skip(i as int);
        let entry = dir.entry(i, &names[i]);
        assert(rest[0] == entry@);
        assert(rest.skip(1) =~= all.skip(i + 1));
        match known.is_dir(&entry) {
            Answer::Ask(question) => {
                return Answer::Ask(question);
            },
            Answer::Known(true) => {
                match known.is_file(&entry.join("index.html")) {
                    Answer::Known(false) => {},
                    other => {
                        return other;
                    },
                }
            },
            Answer::Known(false) => {},
        }
        i += 1;
    }
    Answer::Known(false)
}

/// Whether a candidate is the root of the exported sites.
fn is_assets_root(place: &Place, kind: AssetsKind, known: &Facts) -> (answer: Answer<bool>)
    ensures
        answer.deep_view() == assets_verdict(known@, place@, kind),
{
    match kind {
        AssetsKind::Named => known.is_dir(place),
        AssetsKind::Below => {
            match known.is_dir(place) {
                Answer::Known(true) => {},
                other => {
                    return other;
                },
            }
            match known.list(place) {
                Answer::Ask(question) => Answer::Ask(question),
                Answer::Known(None) => Answer::Known(false),
                Answer::Known(Some(names)) => {
                    match finds_built_site(place, names, known) {
                        Answer::Known(false) => {},
                        other => {
                            return other;
                        },
                    }
                    match known.is_dir(&place.join("design")) {
                        Answer::Known(false) => {},
                        other => {
                            return other;
                        },
                    }
                    known.is_dir(&place.join("whiteboard"))
                },
            }
        },
        AssetsKind::Itself => {
            match known.is_file(&place.join("index.html")) {
                Answer::Known(false) => {},
                other => {
                    return other;
                },
            }
            match known.list(place) {
                Answer::Ask(question) => Answer::Ask(question),
                Answer::Known(None) => Answer::Known(false),
                Answer::Known(Some(names)) => finds_built_site(place, names, known),
            }
        },
    }
}

/// Adds what is tried at one directory on the way to the top.
fn push_assets_level(candidates: &mut Vec<(Place, AssetsKind)>, dir: Place, is_assets_web: bool)
    ensures
        final(candidates).deep_view() == old(candidates).deep_view() + assets_level(
            dir@,
            is_assets_web,
        ),
{
    let ghost before = candidates.deep_view();
    let ghost at = dir@;
    candidates.push((dir.join("assets").join("web"), AssetsKind::Below));
    if is_assets_web {
        candidates.push((dir, AssetsKind::Itself));
    }
    assert(candidates.deep_view() =~= before + assets_level(at, is_assets_web));
}

/// Whether a name is the given one.
fn is_named(name: &Option<String>, wanted: &str) -> (same: bool)
    ensures
        same == (name.deep_view() == Some(wanted@)),
{
    match name {
        Some(name) => text::same_text(name.as_str(), wanted),
        None => false,
    }
}

/// Adds what is tried on a walk from a start directory to the top.
fn push_assets_walk(candidates: &mut Vec<(Place, AssetsKind)>, start: &Start)
    ensures
        final(candidates).deep_view() == old(candidates).deep_view() + assets_walk(
            start.deep_view(),
            start.names.len() as nat,
        ),
{
    let ghost before = candidates.deep_view();
    let ghost names = start.names.deep_view();
    assert(before + Seq::<(PlaceView, AssetsKind)>::empty() =~= before);
    let mut up: usize = 0;
    while up < start.names.len()
        invariant
            up <= start.names.len(),
            names == start.names.deep_view(),
            candidates.deep_view() == before + assets_walk(start.deep_view(), up as nat),
        decreases start.names.len() - up,
    {
        assert(names[up as int] == start.names[up as int].deep_view());
        let itself = up + 1 < start.names.len() && is_named(&start.names[up], "web") && is_named(
            &start.names[up + 1],
            "assets",
        );
        assert(itself == is_assets_web(names, up as int));
        push_assets_level(candidates, Place::start(start.id, up), itself);
        assert(candidates.deep_view() =~= before + assets_walk(
            start.deep_view(),
            (up + 1) as nat,
        ));
        up += 1;
    }
}

/// Adds what is tried for a start directory.
fn push_assets_walks(candidates: &mut Vec<(Place, AssetsKind)>, start: &Option<Start>)
    ensures
        final(candidates).deep_view() == old(candidates).deep_view() + assets_walks_from(
            start.deep_view(),
        ),
{
    let ghost before = candidates.deep_view();
    if let Some(start) = start {
        let assets = Place::start(start.id, 0).join("assets");
        let web = assets.join("web");
        candidates.push((web.copy(), AssetsKind::Below));
        candidates.push((web.copy(), AssetsKind::Itself));
        push_assets_level(candidates, web, false);
        push_assets_level(candidates, assets, false);
        push_assets_walk(candidates, start);
    }
    assert(candidates.deep_view() =~= before + assets_walks_from(start.deep_view()));
}

/// Finds the root of the exported sites: the override if it is a directory, else the `assets/web`
/// below the current directory or the next on the way from there to the top, else the same from
/// the program's directory, else the fallback if it is a directory.
pub fn find_assets_web_root(surroundings: &Surroundings, known: &Facts) -> (answer: Answer<
    Option<Place>,
>)
    ensures
        answer.deep_view() == assets_web_root(known@, surroundings@),
{
    let mut candidates: Vec<(Place, AssetsKind)> = Vec::new();
    if let Some(path) = &surroundings.assets_web_root {
        candidates.push((Place::bare(path.as_str()), AssetsKind::Named));
    }
    assert(candidates.deep_view() =~= named_assets(surroundings@.assets_web_root));
    push_assets_walks(&mut candidates, &surroundings.current_dir);
    push_assets_walks(&mut candidates, &surroundings.executable_dir);
    candidates.push((Place::bare(ASSETS_WEB_ROOT_FALLBACK), AssetsKind::Named));
    assert(candidates.deep_view() =~= assets_candidates(surroundings@));
    let ghost all = candidates.deep_view();
    let ghost test = assets_test(known@);
    let mut i: usize = 0;
    assert(all.skip(0) =~= all);
    while i < candidates.len()
        invariant
            i <= candidates.len(),
            all == candidates.deep_view(),
            all == assets_candidates(surroundings@),
            test == assets_test(known@),
            facts::first_passing(all, test) == facts::first_passing(all.skip(i as int), test),
        decreases candidates.len() - i,
    {
        let ghost rest = all.skip(i as int);
        assert(rest[0] == candidates[i as int].deep_view());
        assert(rest.skip(1) =~= all.skip(i + 1));
        match is_assets_root(&candidates[i].0, candidates[i].1, known) {
            Answer::Ask(question) => {
                return Answer::Ask(question);
            },
            Answer::Known(true) => {
                return Answer::Known(Some(candidates[i].0.copy()));
            },
            Answer::Known(false) => {},
        }
        i += 1;
    }
    Answer::Known(None)
}

/// The view of the memo holds what was found.
pub proof fn law_view_holds_what_was_found(memo: WebRootMemo)
    ensures
        memo.found is None ==> memo@ is None,
        memo.found matches Some(None) ==> memo@ == Some(None::<PlaceView>),
        memo.found matches Some(Some(root)) ==> memo@ == Some(Some(root@)),
{
}

} // verus!
