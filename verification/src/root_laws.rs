//! What the searches for the two roots come to in a file system that does not change.
use crate::facts;
use crate::facts::FactsView;
use crate::facts::QuestionView;
use crate::facts::World;
use crate::place;
use crate::place::Base;
use crate::place::LegView;
use crate::place::PlaceView;
use crate::roots;
use crate::roots::AssetsKind;
use crate::roots::Start;
use crate::roots::StartView;
use crate::roots::Surroundings;
use crate::roots::SurroundingsView;
use vstd::prelude::*;

verus! {

/// The place is a web root.
pub open spec fn is_web_root(w: World, place: PlaceView) -> bool {
    (w.is_dir)(place) && ((w.is_dir)(place.join("shader"@)) || (w.is_dir)(
        place.join("whiteboard"@),
    ))
}

/// The first of some places that is a web root.
pub open spec fn first_web_root(w: World, places: Seq<PlaceView>) -> Option<PlaceView> {
    facts::first_true(places, |p: PlaceView| is_web_root(w, p))
}

/// The web root.
pub open spec fn web_root_in(w: World, s: SurroundingsView) -> Option<PlaceView> {
    first_web_root(w, roots::web_root_candidates(s))
}

/// What may be asked on the way to the web root: three questions for each candidate.
pub open spec fn web_root_questions(candidates: Seq<PlaceView>) -> Seq<QuestionView>
    decreases candidates.len(),
{
    if candidates.len() == 0 {
        Seq::empty()
    } else {
        let p = candidates.last();
        web_root_questions(candidates.drop_last()) + seq![
            QuestionView::IsDir(p),
            QuestionView::IsDir(p.join("shader"@)),
            QuestionView::IsDir(p.join("whiteboard"@)),
        ]
    }
}

/// One of some entries is a directory with a built site.
pub open spec fn some_built_site(
    w: World,
    dir: PlaceView,
    names: Seq<Option<Seq<char>>>,
) -> bool {
    facts::first_true(
        facts::entries(dir, names),
        |e: PlaceView| (w.is_dir)(e) && (w.is_file)(e.join("index.html"@)),
    ) is Some
}

/// The candidate is the root of the exported sites.
pub open spec fn is_assets_root(w: World, place: PlaceView, kind: AssetsKind) -> bool {
    match kind {
        AssetsKind::Named => (w.is_dir)(place),
        AssetsKind::Below => (w.is_dir)(place) && match (w.listing)(place) {
            None => false,
            Some(names) => some_built_site(w, place, names) || (w.is_dir)(
                place.join("design"@),
            ) || (w.is_dir)(place.join("whiteboard"@)),
        },
        AssetsKind::Itself => (w.is_file)(place.join("index.html"@)) || match (w.listing)(place) {
            None => false,
            Some(names) => some_built_site(w, place, names),
        },
    }
}

/// The first of some candidates that is the root of the exported sites.
pub open spec fn first_assets_root(
    w: World,
    candidates: Seq<(PlaceView, AssetsKind)>,
) -> Option<(PlaceView, AssetsKind)> {
    facts::first_true(
        candidates,
        |c: (PlaceView, AssetsKind)| is_assets_root(w, c.0, c.1),
    )
}

/// The root of the exported sites.
pub open spec fn assets_root_in(w: World, s: SurroundingsView) -> Option<PlaceView> {
    match first_assets_root(w, roots::assets_candidates(s)) {
        Some(found) => Some(found.0),
        None => None,
    }
}

/// Looking through one row of places and then another is looking through both at once.
proof fn lemma_first_true_in_two_rows<C>(a: Seq<C>, b: Seq<C>, test: spec_fn(C) -> bool)
    ensures
        facts::first_true(a + b, test) == match facts::first_true(a, test) {
            Some(found) => Some(found),
            None => facts::first_true(b, test),
        },
    decreases a.len(),
{
    if a.len() == 0 {
        assert(a + b =~= b);
    } else {
        assert((a + b).skip(1) =~= a.skip(1) + b);
        lemma_first_true_in_two_rows(a.skip(1), b, test);
    }
}

/// Whatever web root the search gives is the web root of every file system in which the facts
/// hold.
pub proof fn law_web_root_search_is_right(w: World, f: FactsView, s: SurroundingsView)
    requires
        w.agrees(f),
    ensures
        facts::settles(roots::dx_web_root(f, s), web_root_in(w, s)),
{
    let test = roots::web_root_test(f);
    let truth = |p: PlaceView| is_web_root(w, p);
    facts::law_search_settles(roots::web_root_candidates(s), test, truth);
}

/// The questions on the way to the web root are questions about candidates.
proof fn lemma_questions_cover(candidates: Seq<PlaceView>, i: int)
    requires
        0 <= i < candidates.len(),
    ensures
        web_root_questions(candidates).contains(QuestionView::IsDir(candidates[i])),
        web_root_questions(candidates).contains(
            QuestionView::IsDir(candidates[i].join("shader"@)),
        ),
        web_root_questions(candidates).contains(
            QuestionView::IsDir(candidates[i].join("whiteboard"@)),
        ),
        web_root_questions(candidates).len() == 3 * candidates.len(),
    decreases candidates.len(),
{
    let all = web_root_questions(candidates);
    let before = web_root_questions(candidates.drop_last());
    if candidates.len() > 1 {
        lemma_questions_cover(candidates.drop_last(), 0);
    } else {
        assert(candidates.drop_last().len() == 0);
    }
    if i == candidates.len() - 1 {
        let n = before.len() as int;
        assert(all[n] == QuestionView::IsDir(candidates[i]));
        assert(all[n + 1] == QuestionView::IsDir(candidates[i].join("shader"@)));
        assert(all[n + 2] == QuestionView::IsDir(candidates[i].join("whiteboard"@)));
    } else {
        lemma_questions_cover(candidates.drop_last(), i);
        assert forall|q: QuestionView| before.contains(q) implies all.contains(q) by {
            let k = choose|k: int| 0 <= k < before.len() && before[k] == q;
            assert(all[k] == q);
        }
    }
}

/// The search for the web root ends: it asks only what is not known yet, and never anything but
/// three questions for each candidate.
pub proof fn law_web_root_search_ends(f: FactsView, s: SurroundingsView)
    ensures
        facts::asks_news(roots::dx_web_root(f, s), f),
        facts::asks_within(
            roots::dx_web_root(f, s),
            |q: QuestionView| web_root_questions(roots::web_root_candidates(s)).contains(q),
        ),
        web_root_questions(roots::web_root_candidates(s)).len() == 3 * roots::web_root_candidates(
            s,
        ).len(),
{
    let candidates = roots::web_root_candidates(s);
    let test = roots::web_root_test(f);
    facts::law_search_asks_within(candidates, test, |q: QuestionView| !f.knows(q));
    let topic = |q: QuestionView| web_root_questions(candidates).contains(q);
    assert forall|i: int| 0 <= i < candidates.len() implies facts::asks_within(
        #[trigger] test(candidates[i]),
        topic,
    ) by {
        lemma_questions_cover(candidates, i);
    }
    facts::law_search_asks_within(candidates, test, topic);
    lemma_questions_cover(candidates, candidates.len() - 1);
}

/// The order in which the web root is looked for: the override wins if it is a web root, then
/// the way up from the current directory, then the way up from the program's directory, and the
/// fallback is taken only if nothing else is a web root.
pub proof fn law_web_root_order(w: World, s: SurroundingsView)
    ensures
        web_root_in(w, s) == match first_web_root(w, roots::named_place(s.web_root)) {
            Some(found) => Some(found),
            None => match first_web_root(w, roots::web_root_walk_from(s.current_dir)) {
                Some(found) => Some(found),
                None => match first_web_root(w, roots::web_root_walk_from(s.executable_dir)) {
                    Some(found) => Some(found),
                    None => first_web_root(
                        w,
                        seq![place::bare_place(roots::WEB_ROOT_FALLBACK@)],
                    ),
                },
            },
        },
{
    let test = |p: PlaceView| is_web_root(w, p);
    let named = roots::named_place(s.web_root);
    let current = roots::web_root_walk_from(s.current_dir);
    let program = roots::web_root_walk_from(s.executable_dir);
    let last = seq![place::bare_place(roots::WEB_ROOT_FALLBACK@)];
    lemma_first_true_in_two_rows(named, current, test);
    lemma_first_true_in_two_rows(named + current, program, test);
    lemma_first_true_in_two_rows(named + current + program, last, test);
}

/// An override that is a web root is the web root.
pub proof fn law_web_root_override_wins(w: World, s: SurroundingsView)
    requires
        s.web_root is Some,
        is_web_root(w, place::bare_place(s.web_root->0)),
    ensures
        web_root_in(w, s) == Some(place::bare_place(s.web_root->0)),
{
    law_web_root_order(w, s);
}

/// A web root is a directory that holds the shader or the whiteboard.
pub proof fn law_web_root_holds_a_tool(w: World, s: SurroundingsView)
    ensures
        web_root_in(w, s) matches Some(root) ==> is_web_root(w, root)
            && roots::web_root_candidates(s).contains(root),
{
    facts::law_first_true_is_first(
        roots::web_root_candidates(s),
        |p: PlaceView| is_web_root(w, p),
    );
}

/// What a directory's entries come to.
proof fn lemma_built_site(
    w: World,
    f: FactsView,
    dir: PlaceView,
    names: Seq<Option<Seq<char>>>,
)
    ensures
        w.agrees(f) ==> facts::settles(
            roots::has_built_site(f, dir, names),
            some_built_site(w, dir, names),
        ),
        facts::asks_news(roots::has_built_site(f, dir, names), f),
{
    let all = facts::entries(dir, names);
    let test = roots::built_site_test(f);
    if w.agrees(f) {
        facts::law_search_settles(
            all,
            test,
            |e: PlaceView| (w.is_dir)(e) && (w.is_file)(e.join("index.html"@)),
        );
    }
    facts::law_search_asks_within(all, test, |q: QuestionView| !f.knows(q));
}

/// What a candidate for the root of the exported sites comes to.
proof fn lemma_assets_candidate(w: World, f: FactsView, place: PlaceView, kind: AssetsKind)
    ensures
        w.agrees(f) ==> facts::settles(
            roots::assets_verdict(f, place, kind),
            is_assets_root(w, place, kind),
        ),
        facts::asks_news(roots::assets_verdict(f, place, kind), f),
{
    if let facts::Verdict::Known(Some(names)) = f.listing(place) {
        lemma_built_site(w, f, place, names);
    }
}

/// Whatever root of the exported sites the search gives is that of every file system in which
/// the facts hold.
pub proof fn law_assets_search_is_right(w: World, f: FactsView, s: SurroundingsView)
    requires
        w.agrees(f),
    ensures
        facts::settles(roots::assets_web_root(f, s), assets_root_in(w, s)),
{
    let candidates = roots::assets_candidates(s);
    let test = roots::assets_test(f);
    let truth = |c: (PlaceView, AssetsKind)| is_assets_root(w, c.0, c.1);
    assert forall|i: int| 0 <= i < candidates.len() implies facts::settles(
        #[trigger] test(candidates[i]),
        truth(candidates[i]),
    ) by {
        lemma_assets_candidate(w, f, candidates[i].0, candidates[i].1);
    }
    facts::law_search_settles(candidates, test, truth);
}

/// The search for the root of the exported sites asks only what is not known yet.
pub proof fn law_assets_search_asks_news(f: FactsView, s: SurroundingsView)
    ensures
        facts::asks_news(roots::assets_web_root(f, s), f),
{
    let candidates = roots::assets_candidates(s);
    let test = roots::assets_test(f);
    let topic = |q: QuestionView| !f.knows(q);
    let w = World {
        is_dir: |p: PlaceView| true,
        is_file: |p: PlaceView| true,
        listing: |p: PlaceView| None,
        extension: |p: PlaceView| None,
    };
    assert forall|i: int| 0 <= i < candidates.len() implies facts::asks_within(
        #[trigger] test(candidates[i]),
        topic,
    ) by {
        lemma_assets_candidate(w, f, candidates[i].0, candidates[i].1);
    }
    facts::law_search_asks_within(candidates, test, topic);
}

/// The order in which the root of the exported sites is looked for: the override, the ways up
/// from the current directory, the ways up from the program's directory, and the fallback only
/// if nothing else is such a root.
pub proof fn law_assets_order(w: World, s: SurroundingsView)
    ensures
        first_assets_root(w, roots::assets_candidates(s)) == match first_assets_root(
            w,
            roots::named_assets(s.assets_web_root),
        ) {
            Some(found) => Some(found),
            None => match first_assets_root(w, roots::assets_walks_from(s.current_dir)) {
                Some(found) => Some(found),
                None => match first_assets_root(w, roots::assets_walks_from(s.executable_dir)) {
                    Some(found) => Some(found),
                    None => first_assets_root(
                        w,
                        seq![
                            (
                                place::bare_place(roots::ASSETS_WEB_ROOT_FALLBACK@),
                                AssetsKind::Named,
                            ),
                        ],
                    ),
                },
            },
        },
{
    let test = |c: (PlaceView, AssetsKind)| is_assets_root(w, c.0, c.1);
    let named = roots::named_assets(s.assets_web_root);
    let current = roots::assets_walks_from(s.current_dir);
    let program = roots::assets_walks_from(s.executable_dir);
    let last = seq![
        (place::bare_place(roots::ASSETS_WEB_ROOT_FALLBACK@), AssetsKind::Named),
    ];
    lemma_first_true_in_two_rows(named, current, test);
    lemma_first_true_in_two_rows(named + current, program, test);
    lemma_first_true_in_two_rows(named + current + program, last, test);
}

/// An override that is a directory is the root of the exported sites.
pub proof fn law_assets_override_wins(w: World, s: SurroundingsView)
    requires
        s.assets_web_root is Some,
        (w.is_dir)(place::bare_place(s.assets_web_root->0)),
    ensures
        assets_root_in(w, s) == Some(place::bare_place(s.assets_web_root->0)),
{
    let first = roots::assets_candidates(s)[0];
    assert(first == (place::bare_place(s.assets_web_root->0), AssetsKind::Named));
}

/// The `assets/web` directory below a start directory.
pub open spec fn assets_web_below(start: StartView) -> PlaceView {
    roots::ancestor_of(start, 0).join("assets"@).join("web"@)
}

/// The place is the root of the exported sites in one of the two ways that need no name.
pub open spec fn holds_exported_sites(w: World, place: PlaceView) -> bool {
    is_assets_root(w, place, AssetsKind::Below) || is_assets_root(w, place, AssetsKind::Itself)
}

/// Of what is tried for a start directory, the `assets/web` below it comes first.
proof fn lemma_assets_web_below_comes_first(w: World, start: StartView)
    requires
        holds_exported_sites(w, assets_web_below(start)),
    ensures
        first_assets_root(w, roots::assets_walks_from(Some(start))) matches Some(found)
            && found.0 == assets_web_below(start),
{
    let all = roots::assets_walks_from(Some(start));
    let web = assets_web_below(start);
    assert(all[0] == (web, AssetsKind::Below));
    assert(all[1] == (web, AssetsKind::Itself));
    assert(all.skip(1)[0] == all[1]);
    reveal_with_fuel(facts::first_true, 2);
}

/// The `assets/web` below the current directory is preferred: where it holds exported sites, and
/// the override names no directory, it is their root.
pub proof fn law_assets_below_current_dir_is_preferred(w: World, s: SurroundingsView)
    requires
        s.current_dir is Some,
        first_assets_root(w, roots::named_assets(s.assets_web_root)) is None,
        holds_exported_sites(w, assets_web_below(s.current_dir->0)),
    ensures
        assets_root_in(w, s) == Some(assets_web_below(s.current_dir->0)),
{
    law_assets_order(w, s);
    lemma_assets_web_below_comes_first(w, s.current_dir->0);
}

/// The `assets/web` below the program's directory comes next: where it holds exported sites, and
/// neither the override nor the way up from the current directory gives a root, it is their root.
pub proof fn law_assets_below_executable_dir_is_next(w: World, s: SurroundingsView)
    requires
        s.executable_dir is Some,
        first_assets_root(w, roots::named_assets(s.assets_web_root)) is None,
        first_assets_root(w, roots::assets_walks_from(s.current_dir)) is None,
        holds_exported_sites(w, assets_web_below(s.executable_dir->0)),
    ensures
        assets_root_in(w, s) == Some(assets_web_below(s.executable_dir->0)),
{
    law_assets_order(w, s);
    lemma_assets_web_below_comes_first(w, s.executable_dir->0);
}

/// On a walk to the top, the lowest level with a root decides.
proof fn lemma_assets_walk(w: World, start: StartView, up: int, levels: nat)
    requires
        0 <= up,
        forall|j: int|
            0 <= j < up && j < levels ==> first_assets_root(
                w,
                #[trigger] roots::assets_level_of(start, j),
            ) is None,
        up < levels ==> first_assets_root(w, roots::assets_level_of(start, up)) is Some,
    ensures
        first_assets_root(w, roots::assets_walk(start, levels)) == if up < levels {
            first_assets_root(w, roots::assets_level_of(start, up))
        } else {
            None
        },
    decreases levels,
{
    if levels > 0 {
        let test = |c: (PlaceView, AssetsKind)| is_assets_root(w, c.0, c.1);
        lemma_assets_walk(w, start, up, (levels - 1) as nat);
        lemma_first_true_in_two_rows(
            roots::assets_walk(start, (levels - 1) as nat),
            roots::assets_level_of(start, levels - 1),
            test,
        );
    }
}

/// The nearest ancestor wins: where nothing below a start directory is the root of the exported
/// sites, the root is found at the lowest level of the way up that has one.
pub proof fn law_nearest_ancestor_wins_for_assets(w: World, start: StartView, up: int)
    requires
        0 <= up < start.names.len(),
        first_assets_root(w, roots::assets_below(start)) is None,
        forall|j: int|
            0 <= j < up ==> first_assets_root(
                w,
                #[trigger] roots::assets_level_of(start, j),
            ) is None,
        first_assets_root(w, roots::assets_level_of(start, up)) is Some,
    ensures
        first_assets_root(w, roots::assets_walks_from(Some(start))) == first_assets_root(
            w,
            roots::assets_level_of(start, up),
        ),
{
    let test = |c: (PlaceView, AssetsKind)| is_assets_root(w, c.0, c.1);
    lemma_assets_walk(w, start, up, start.names.len());
    lemma_first_true_in_two_rows(
        roots::assets_below(start),
        roots::assets_walk(start, start.names.len()),
        test,
    );
}

/// On a walk to the top, the lowest level with a web root decides.
proof fn lemma_web_root_walk(w: World, start: StartView, up: int, levels: nat)
    requires
        0 <= up,
        forall|j: int|
            0 <= j < up && j < levels ==> first_web_root(
                w,
                roots::web_root_level(#[trigger] roots::ancestor_of(start, j)),
            ) is None,
        up < levels ==> first_web_root(
            w,
            roots::web_root_level(roots::ancestor_of(start, up)),
        ) is Some,
    ensures
        first_web_root(w, roots::web_root_walk(start, levels)) == if up < levels {
            first_web_root(w, roots::web_root_level(roots::ancestor_of(start, up)))
        } else {
            None
        },
    decreases levels,
{
    if levels > 0 {
        let test = |p: PlaceView| is_web_root(w, p);
        lemma_web_root_walk(w, start, up, (levels - 1) as nat);
        lemma_first_true_in_two_rows(
            roots::web_root_walk(start, (levels - 1) as nat),
            roots::web_root_level(roots::ancestor_of(start, levels - 1)),
            test,
        );
    }
}

/// The nearest ancestor wins: the web root is found at the lowest level of the way up that has
/// one.
pub proof fn law_nearest_ancestor_wins_for_web_root(w: World, start: StartView, up: int)
    requires
        0 <= up < start.names.len(),
        forall|j: int|
            0 <= j < up ==> first_web_root(
                w,
                roots::web_root_level(#[trigger] roots::ancestor_of(start, j)),
            ) is None,
        first_web_root(w, roots::web_root_level(roots::ancestor_of(start, up))) is Some,
    ensures
        first_web_root(w, roots::web_root_walk_from(Some(start))) == first_web_root(
            w,
            roots::web_root_level(roots::ancestor_of(start, up)),
        ),
{
    lemma_web_root_walk(w, start, up, start.names.len());
}

/// The root of the exported sites is a directory, in a file system where what holds a page or can
/// be listed is one.
pub proof fn law_assets_root_is_a_directory(w: World, s: SurroundingsView)
    requires
        w.is_sound(),
    ensures
        assets_root_in(w, s) matches Some(root) ==> (w.is_dir)(root),
{
    let candidates = roots::assets_candidates(s);
    facts::law_first_true_is_first(
        candidates,
        |c: (PlaceView, AssetsKind)| is_assets_root(w, c.0, c.1),
    );
}

/// The web root is looked for once: what was found is given ever after, whatever has changed.
pub proof fn law_web_root_is_remembered(
    memo: Option<Option<PlaceView>>,
    f: FactsView,
    s: SurroundingsView,
    later_f: FactsView,
    later_s: SurroundingsView,
)
    requires
        roots::web_root_now(memo, f, s) is Known,
    ensures
        roots::web_root_now(roots::memo_after(memo, f, s), later_f, later_s)
            == roots::web_root_now(memo, f, s),
{
}

/// The view of the surroundings holds all that they hold.
pub proof fn law_view_holds_all_surroundings(around: Surroundings, start: Start)
    ensures
        around@.web_root is Some <==> around.web_root is Some,
        around.web_root is Some ==> around@.web_root->0 == around.web_root->0@,
        around@.assets_web_root is Some <==> around.assets_web_root is Some,
        around.assets_web_root is Some ==> around@.assets_web_root->0 == around.assets_web_root->0@,
        around@.current_dir is Some <==> around.current_dir is Some,
        around.current_dir is Some ==> around@.current_dir->0 == around.current_dir->0.deep_view(),
        around@.executable_dir is Some <==> around.executable_dir is Some,
        around.executable_dir is Some ==> around@.executable_dir->0
            == around.executable_dir->0.deep_view(),
        start.deep_view().id == start.id,
        start.deep_view().names.len() == start.names.len(),
        forall|i: int|
            0 <= i < start.names.len() ==> #[trigger] start.deep_view().names[i]
                == start.names[i].deep_view(),
{
}

/// A place is found to be a web root exactly if it is a directory that holds a directory `shader`
/// or a directory `whiteboard`.
pub proof fn law_web_root_is_told_by_its_tools(w: World, f: FactsView, place: PlaceView)
    requires
        w.agrees(f),
    ensures
        roots::web_root_verdict(f, place) matches facts::Verdict::Known(yes) ==> yes == ((w.is_dir)(
            place,
        ) && ((w.is_dir)(place.join("shader"@)) || (w.is_dir)(place.join("whiteboard"@)))),
        facts::asks_news(roots::web_root_verdict(f, place), f),
{
}

/// The three places of each level stand on the walk, level by level.
proof fn lemma_web_root_walk_by_level(start: StartView, levels: nat, up: int)
    requires
        0 <= up < levels,
    ensures
        roots::web_root_walk(start, levels).len() == 3 * levels,
        roots::web_root_walk(start, levels)[3 * up] == roots::ancestor_of(start, up),
        roots::web_root_walk(start, levels)[3 * up + 1] == roots::ancestor_of(start, up).join(
            "web"@,
        ),
        roots::web_root_walk(start, levels)[3 * up + 2] == roots::ancestor_of(start, up).join(
            "code"@,
        ).join("web"@),
    decreases levels,
{
    if levels > 1 {
        lemma_web_root_walk_by_level(
            start,
            (levels - 1) as nat,
            if up < levels - 1 {
                up
            } else {
                0
            },
        );
    } else {
        assert(roots::web_root_walk(start, 0).len() == 0);
    }
}

/// The walk to the web root reaches every ancestor, from the directory up: at each it tries the
/// ancestor itself, then the `web` below it, then the `code/web` below it, and nothing else.
pub proof fn law_web_root_walk_reaches_every_ancestor(start: StartView, up: usize)
    requires
        up < start.names.len(),
    ensures
        ({
            let walk = roots::web_root_walk_from(Some(start));
            let dir = PlaceView { base: Base::Start(start.id), up, legs: Seq::empty() };
            &&& walk.len() == 3 * start.names.len()
            &&& walk[3 * up] == dir
            &&& walk[3 * up + 1] == dir.join("web"@)
            &&& walk[3 * up + 2] == dir.join("code"@).join("web"@)
        }),
{
    lemma_web_root_walk_by_level(start, start.names.len(), up as int);
}

/// The web root is looked for at the override, on the walk from the current directory, on the walk
/// from the program's directory and at the fallback, in this order and nowhere else.
pub proof fn law_web_root_candidates_are_in_order(s: SurroundingsView)
    ensures
        ({
            let all = roots::web_root_candidates(s);
            let current = roots::web_root_walk_from(s.current_dir);
            let program = roots::web_root_walk_from(s.executable_dir);
            let n = if s.web_root is Some {
                1int
            } else {
                0int
            };
            &&& all.len() == n + current.len() + program.len() + 1
            &&& s.web_root is Some ==> all[0] == (PlaceView {
                base: Base::Bare,
                up: 0,
                legs: seq![LegView::Join(s.web_root->0)],
            })
            &&& all.subrange(n, n + current.len()) == current
            &&& all.subrange(n + current.len(), n + current.len() + program.len()) == program
            &&& all.last() == (PlaceView {
                base: Base::Bare,
                up: 0,
                legs: seq![LegView::Join("G:\\Dx\\code\\web"@)],
            })
        }),
        roots::web_root_walk_from(None).len() == 0,
        s.current_dir is Some && s.current_dir->0.names.len() == 0 ==> roots::web_root_walk_from(
            s.current_dir,
        ).len() == 0,
        s.executable_dir is Some && s.executable_dir->0.names.len() == 0
            ==> roots::web_root_walk_from(s.executable_dir).len() == 0,
{
    let all = roots::web_root_candidates(s);
    let current = roots::web_root_walk_from(s.current_dir);
    let program = roots::web_root_walk_from(s.executable_dir);
    let n = if s.web_root is Some {
        1int
    } else {
        0int
    };
    assert(all.subrange(n, n + current.len()) =~= current);
    assert(all.subrange(n + current.len(), n + current.len() + program.len()) =~= program);
}

/// The web root is the first candidate that is a directory with one of the two tools, and there is
/// none exactly if no candidate is.
pub proof fn law_web_root_is_the_first(w: World, s: SurroundingsView)
    ensures
        match web_root_in(w, s) {
            Some(root) => exists|i: int|
                #![trigger roots::web_root_candidates(s)[i]]
                0 <= i < roots::web_root_candidates(s).len() && roots::web_root_candidates(s)[i]
                    == root && (w.is_dir)(root) && ((w.is_dir)(root.join("shader"@)) || (w.is_dir)(
                    root.join("whiteboard"@),
                )) && forall|j: int|
                    0 <= j < i ==> {
                        let p = #[trigger] roots::web_root_candidates(s)[j];
                        !((w.is_dir)(p) && ((w.is_dir)(p.join("shader"@)) || (w.is_dir)(
                            p.join("whiteboard"@),
                        )))
                    },
            None => forall|j: int|
                0 <= j < roots::web_root_candidates(s).len() ==> {
                    let p = #[trigger] roots::web_root_candidates(s)[j];
                    !((w.is_dir)(p) && ((w.is_dir)(p.join("shader"@)) || (w.is_dir)(
                        p.join("whiteboard"@),
                    )))
                },
        },
{
    let all = roots::web_root_candidates(s);
    let test = |p: PlaceView| is_web_root(w, p);
    facts::law_first_true_is_first(all, test);
    if let Some(root) = web_root_in(w, s) {
        let i = choose|i: int|
            #![trigger all[i]]
            0 <= i < all.len() && all[i] == root && test(root) && forall|j: int|
                0 <= j < i ==> !test(#[trigger] all[j]);
        assert(all[i] == root);
        assert forall|j: int| 0 <= j < i implies {
            let p = #[trigger] all[j];
            !((w.is_dir)(p) && ((w.is_dir)(p.join("shader"@)) || (w.is_dir)(
                p.join("whiteboard"@),
            )))
        } by {
            assert(!test(all[j]));
        }
    } else {
        assert forall|j: int| 0 <= j < all.len() implies {
            let p = #[trigger] all[j];
            !((w.is_dir)(p) && ((w.is_dir)(p.join("shader"@)) || (w.is_dir)(
                p.join("whiteboard"@),
            )))
        } by {
            assert(!test(all[j]));
        }
    }
}

/// A web root anywhere on the way up is not missed: if an ancestor of the current directory or of
/// the program's directory is one, or its `web` or `code/web` is, a web root is found.
pub proof fn law_web_root_on_the_way_is_found(
    w: World,
    s: SurroundingsView,
    start: StartView,
    up: usize,
    place: PlaceView,
)
    requires
        s.current_dir == Some(start) || s.executable_dir == Some(start),
        up < start.names.len(),
        ({
            let dir = PlaceView { base: Base::Start(start.id), up, legs: Seq::empty() };
            place == dir || place == dir.join("web"@) || place == dir.join("code"@).join("web"@)
        }),
        (w.is_dir)(place),
        (w.is_dir)(place.join("shader"@)) || (w.is_dir)(place.join("whiteboard"@)),
    ensures
        web_root_in(w, s) is Some,
{
    let all = roots::web_root_candidates(s);
    let current = roots::web_root_walk_from(s.current_dir);
    let program = roots::web_root_walk_from(s.executable_dir);
    let walk = roots::web_root_walk_from(Some(start));
    let n = if s.web_root is Some {
        1int
    } else {
        0int
    };
    law_web_root_walk_reaches_every_ancestor(start, up);
    law_web_root_candidates_are_in_order(s);
    law_web_root_is_the_first(w, s);
    let k = choose|k: int| 3 * up <= k < 3 * up + 3 && walk[k] == place;
    if s.current_dir == Some(start) {
        assert(all.subrange(n, n + current.len())[k] == all[n + k]);
    } else {
        let m = n + current.len();
        assert(all.subrange(m, m + program.len())[k] == all[m + k]);
    }
}

/// One of the entries of a directory with these names is a directory with a page.
proof fn lemma_some_built_site(w: World, dir: PlaceView, names: Seq<Option<Seq<char>>>)
    ensures
        some_built_site(w, dir, names) <==> exists|i: int|
            0 <= i < names.len() && (w.is_dir)(#[trigger] dir.entry(i as usize, names[i]))
                && (w.is_file)(dir.entry(i as usize, names[i]).join("index.html"@)),
{
    let all = facts::entries(dir, names);
    let test = |e: PlaceView| (w.is_dir)(e) && (w.is_file)(e.join("index.html"@));
    facts::law_first_true_is_first(all, test);
    if some_built_site(w, dir, names) {
        let found = facts::first_true(all, test)->0;
        let i = choose|i: int|
            #![trigger all[i]]
            0 <= i < all.len() && all[i] == found && test(found) && forall|j: int|
                0 <= j < i ==> !test(#[trigger] all[j]);
        assert(all[i] == dir.entry(i as usize, names[i]));
    } else {
        assert forall|i: int| 0 <= i < names.len() implies !((w.is_dir)(
            #[trigger] dir.entry(i as usize, names[i]),
        ) && (w.is_file)(dir.entry(i as usize, names[i]).join("index.html"@))) by {
            assert(!test(all[i]));
        }
    }
}

/// A named root is one exactly if it is a directory. The `assets/web` below a directory is one
/// exactly if it is a directory that can be listed and holds a directory with a page, or one of
/// the directories `design` and `whiteboard`. An `assets/web` on the way is one exactly if it has a
/// page or can be listed and holds a directory with a page.
pub proof fn law_assets_root_is_told_by_its_sites(w: World, place: PlaceView)
    ensures
        is_assets_root(w, place, AssetsKind::Named) <==> (w.is_dir)(place),
        is_assets_root(w, place, AssetsKind::Below) <==> (w.is_dir)(place) && (w.listing)(
            place,
        ) is Some && ((w.is_dir)(place.join("design"@)) || (w.is_dir)(place.join("whiteboard"@))
            || exists|i: int|
            0 <= i < (w.listing)(place)->0.len() && (w.is_dir)(
                #[trigger] place.entry(i as usize, (w.listing)(place)->0[i]),
            ) && (w.is_file)(
                place.entry(i as usize, (w.listing)(place)->0[i]).join("index.html"@),
            )),
        is_assets_root(w, place, AssetsKind::Itself) <==> (w.is_file)(place.join("index.html"@))
            || (w.listing)(place) is Some && exists|i: int|
            0 <= i < (w.listing)(place)->0.len() && (w.is_dir)(
                #[trigger] place.entry(i as usize, (w.listing)(place)->0[i]),
            ) && (w.is_file)(
                place.entry(i as usize, (w.listing)(place)->0[i]).join("index.html"@),
            ),
{
    if (w.listing)(place) is Some {
        lemma_some_built_site(w, place, (w.listing)(place)->0);
    }
}

/// At each ancestor the `assets/web` below it is tried and, if the ancestor is itself named `web`
/// in a directory named `assets`, then the ancestor, and nothing else.
pub proof fn law_assets_walk_reaches_every_ancestor(start: StartView, up: usize)
    requires
        up < start.names.len(),
    ensures
        ({
            let dir = PlaceView { base: Base::Start(start.id), up, legs: Seq::empty() };
            let below = (dir.join("assets"@).join("web"@), AssetsKind::Below);
            let itself = up + 1 < start.names.len() && start.names[up as int] == Some("web"@)
                && start.names[up + 1] == Some("assets"@);
            &&& roots::assets_walk(start, (up + 1) as nat) == roots::assets_walk(start, up as nat)
                + if itself {
                seq![below, (dir, AssetsKind::Itself)]
            } else {
                seq![below]
            }
            &&& roots::assets_walk(start, 0).len() == 0
            &&& roots::assets_walk(start, start.names.len()).contains(below)
            &&& itself ==> roots::assets_walk(start, start.names.len()).contains(
                (dir, AssetsKind::Itself),
            )
        }),
{
    let dir = roots::ancestor_of(start, up as int);
    let level = roots::assets_level_of(start, up as int);
    assert(roots::assets_walk(start, (up + 1) as nat) =~= roots::assets_walk(start, up as nat)
        + level);
    assert(level =~= if roots::is_assets_web(start.names, up as int) {
        seq![
            (dir.join("assets"@).join("web"@), AssetsKind::Below),
            (dir, AssetsKind::Itself),
        ]
    } else {
        seq![(dir.join("assets"@).join("web"@), AssetsKind::Below)]
    });
    assert(level[0] == (dir.join("assets"@).join("web"@), AssetsKind::Below));
    lemma_assets_walk_holds_levels(start, start.names.len(), up as int, 0);
    if roots::is_assets_web(start.names, up as int) {
        assert(level[1] == (dir, AssetsKind::Itself));
        lemma_assets_walk_holds_levels(start, start.names.len(), up as int, 1);
    }
}

proof fn lemma_assets_walk_holds_levels(start: StartView, levels: nat, up: int, k: int)
    requires
        0 <= up < levels,
        0 <= k < roots::assets_level_of(start, up).len(),
    ensures
        roots::assets_walk(start, levels).contains(roots::assets_level_of(start, up)[k]),
    decreases levels,
{
    let before = roots::assets_walk(start, (levels - 1) as nat);
    let whole = roots::assets_walk(start, levels);
    let wanted = roots::assets_level_of(start, up)[k];
    if up == levels - 1 {
        assert(whole[before.len() + k] == wanted);
    } else {
        lemma_assets_walk_holds_levels(start, (levels - 1) as nat, up, k);
        let i = choose|i: int| 0 <= i < before.len() && before[i] == wanted;
        assert(whole[i] == wanted);
    }
}

/// For a start directory the `assets/web` below it is tried first, in both ways, then the
/// `assets/web` below that, then the one below the `assets`, and then the walk to the top.
pub proof fn law_assets_candidates_of_a_start(start: StartView)
    ensures
        ({
            let all = roots::assets_walks_from(Some(start));
            let dir = PlaceView { base: Base::Start(start.id), up: 0, legs: Seq::empty() };
            let assets = dir.join("assets"@);
            let web = assets.join("web"@);
            let walk = roots::assets_walk(start, start.names.len());
            &&& all.len() == 4 + walk.len()
            &&& all[0] == (web, AssetsKind::Below)
            &&& all[1] == (web, AssetsKind::Itself)
            &&& all[2] == (web.join("assets"@).join("web"@), AssetsKind::Below)
            &&& all[3] == (assets.join("assets"@).join("web"@), AssetsKind::Below)
            &&& all.skip(4) == walk
        }),
        roots::assets_walks_from(None).len() == 0,
{
    let all = roots::assets_walks_from(Some(start));
    assert(all.skip(4) =~= roots::assets_walk(start, start.names.len()));
}

/// The root of the exported sites is looked for at the override, for the current directory, for
/// the program's directory and at the fallback, in this order and nowhere else.
pub proof fn law_assets_candidates_are_in_order(s: SurroundingsView)
    ensures
        ({
            let all = roots::assets_candidates(s);
            let current = roots::assets_walks_from(s.current_dir);
            let program = roots::assets_walks_from(s.executable_dir);
            let n = if s.assets_web_root is Some {
                1int
            } else {
                0int
            };
            &&& all.len() == n + current.len() + program.len() + 1
            &&& s.assets_web_root is Some ==> all[0].1 == AssetsKind::Named && all[0].0 == (
            PlaceView {
                base: Base::Bare,
                up: 0,
                legs: seq![LegView::Join(s.assets_web_root->0)],
            })
            &&& all.subrange(n, n + current.len()) == current
            &&& all.subrange(n + current.len(), n + current.len() + program.len()) == program
            &&& all.last().1 == AssetsKind::Named
            &&& all.last().0 == (PlaceView {
                base: Base::Bare,
                up: 0,
                legs: seq![LegView::Join("G:\\Dx\\code\\assets\\web"@)],
            })
        }),
{
    let all = roots::assets_candidates(s);
    let current = roots::assets_walks_from(s.current_dir);
    let program = roots::assets_walks_from(s.executable_dir);
    let n = if s.assets_web_root is Some {
        1int
    } else {
        0int
    };
    assert(all.subrange(n, n + current.len()) =~= current);
    assert(all.subrange(n + current.len(), n + current.len() + program.len()) =~= program);
}

/// The root of the exported sites is the place of the first candidate that is one, and there is
/// none exactly if no candidate is.
pub proof fn law_assets_root_is_the_first(w: World, s: SurroundingsView)
    ensures
        match assets_root_in(w, s) {
            Some(root) => exists|i: int|
                #![trigger roots::assets_candidates(s)[i]]
                0 <= i < roots::assets_candidates(s).len() && roots::assets_candidates(s)[i].0
                    == root && is_assets_root(w, root, roots::assets_candidates(s)[i].1)
                    && forall|j: int|
                    0 <= j < i ==> !is_assets_root(
                        w,
                        (#[trigger] roots::assets_candidates(s)[j]).0,
                        roots::assets_candidates(s)[j].1,
                    ),
            None => forall|j: int|
                0 <= j < roots::assets_candidates(s).len() ==> !is_assets_root(
                    w,
                    (#[trigger] roots::assets_candidates(s)[j]).0,
                    roots::assets_candidates(s)[j].1,
                ),
        },
{
    let all = roots::assets_candidates(s);
    let test = |c: (PlaceView, AssetsKind)| is_assets_root(w, c.0, c.1);
    facts::law_first_true_is_first(all, test);
    if let Some(root) = assets_root_in(w, s) {
        let found = first_assets_root(w, all)->0;
        let i = choose|i: int|
            #![trigger all[i]]
            0 <= i < all.len() && all[i] == found && test(found) && forall|j: int|
                0 <= j < i ==> !test(#[trigger] all[j]);
        assert(all[i].0 == root);
        assert forall|j: int| 0 <= j < i implies !is_assets_root(
            w,
            (#[trigger] all[j]).0,
            all[j].1,
        ) by {
            assert(!test(all[j]));
        }
    } else {
        assert forall|j: int| 0 <= j < all.len() implies !is_assets_root(
            w,
            (#[trigger] all[j]).0,
            all[j].1,
        ) by {
            assert(!test(all[j]));
        }
    }
}

/// An `assets/web` anywhere on the way up is not missed: if the one below an ancestor of the
/// current directory or of the program's directory holds exported sites, a root is found.
pub proof fn law_assets_root_on_the_way_is_found(
    w: World,
    s: SurroundingsView,
    start: StartView,
    up: usize,
)
    requires
        s.current_dir == Some(start) || s.executable_dir == Some(start),
        up < start.names.len(),
        is_assets_root(
            w,
            (PlaceView { base: Base::Start(start.id), up, legs: Seq::empty() }).join(
                "assets"@,
            ).join("web"@),
            AssetsKind::Below,
        ),
    ensures
        assets_root_in(w, s) is Some,
{
    let all = roots::assets_candidates(s);
    let current = roots::assets_walks_from(s.current_dir);
    let program = roots::assets_walks_from(s.executable_dir);
    let dir = PlaceView { base: Base::Start(start.id), up, legs: Seq::empty() };
    let below = (dir.join("assets"@).join("web"@), AssetsKind::Below);
    let walk = roots::assets_walk(start, start.names.len());
    let n = if s.assets_web_root is Some {
        1int
    } else {
        0int
    };
    law_assets_walk_reaches_every_ancestor(start, up);
    law_assets_candidates_of_a_start(start);
    law_assets_candidates_are_in_order(s);
    law_assets_root_is_the_first(w, s);
    let k = choose|k: int| 0 <= k < walk.len() && walk[k] == below;
    let mine = roots::assets_walks_from(Some(start));
    assert(mine.skip(4)[k] == mine[4 + k]);
    if s.current_dir == Some(start) {
        assert(all.subrange(n, n + current.len())[4 + k] == all[n + 4 + k]);
    } else {
        let m = n + current.len();
        assert(all.subrange(m, m + program.len())[4 + k] == all[m + 4 + k]);
    }
}

/// What is remembered of the web root is the first result, and nothing before there is one.
pub proof fn law_first_web_root_is_remembered(
    remembered: Option<PlaceView>,
    f: FactsView,
    s: SurroundingsView,
)
    ensures
        roots::web_root_now(Some(remembered), f, s) == facts::Verdict::Known(remembered),
        roots::memo_after(Some(remembered), f, s) == Some(remembered),
        roots::web_root_now(None, f, s) == roots::dx_web_root(f, s),
        roots::dx_web_root(f, s) is Ask ==> roots::memo_after(None, f, s) is None,
        roots::dx_web_root(f, s) matches facts::Verdict::Known(found) ==> roots::memo_after(
            None,
            f,
            s,
        ) == Some(found),
{
}

} // verus!
