//! The search for the site of a tool ends: what it may ask is a finite list.
use crate::facts;
use crate::facts::FactsView;
use crate::facts::QuestionView;
use crate::facts::Verdict;
use crate::facts::World;
use crate::place::PlaceView;
use crate::projects;
use crate::root_laws;
use crate::roots;
use crate::roots::AssetsKind;
use crate::roots::SurroundingsView;
use vstd::prelude::*;

verus! {

/// What may be asked about the entries of a directory that holds these names.
pub open spec fn entry_questions(dir: PlaceView, names: Seq<Option<Seq<char>>>) -> Seq<
    QuestionView,
>
    decreases names.len(),
{
    if names.len() == 0 {
        Seq::empty()
    } else {
        let entry = dir.entry((names.len() - 1) as usize, names.last());
        entry_questions(dir, names.drop_last()) + seq![
            QuestionView::IsDir(entry),
            QuestionView::IsFile(entry.join("index.html"@)),
            QuestionView::IsFile(projects::output_below(entry).join("index.html"@)),
        ]
    }
}

/// The names that a directory lists.
pub open spec fn listed(w: World, dir: PlaceView) -> Seq<Option<Seq<char>>> {
    match (w.listing)(dir) {
        Some(names) => names,
        None => Seq::empty(),
    }
}

/// What may be asked about one place while the wanted directory is looked for.
pub open spec fn questions_at(w: World, p: PlaceView, wanted: Seq<char>) -> Seq<QuestionView> {
    seq![
        QuestionView::IsDir(p),
        QuestionView::IsDir(p.join("shader"@)),
        QuestionView::IsDir(p.join("whiteboard"@)),
        QuestionView::IsDir(p.join("design"@)),
        QuestionView::IsFile(p.join("index.html"@)),
        QuestionView::List(p),
        QuestionView::IsDir(p.join(wanted)),
        QuestionView::IsFile(p.join(wanted).join("index.html"@)),
        QuestionView::IsFile(projects::output_below(p.join(wanted)).join("index.html"@)),
    ] + entry_questions(p, listed(w, p))
}

/// What may be asked about some places.
pub open spec fn questions_about(w: World, places: Seq<PlaceView>, wanted: Seq<char>) -> Seq<
    QuestionView,
>
    decreases places.len(),
{
    if places.len() == 0 {
        Seq::empty()
    } else {
        questions_about(w, places.drop_last(), wanted) + questions_at(w, places.last(), wanted)
    }
}

/// The places that the search for a site looks at: the candidates for the two roots, and the
/// web root that is remembered.
pub open spec fn places_searched(memo: Option<Option<PlaceView>>, s: SurroundingsView) -> Seq<
    PlaceView,
> {
    let remembered = match memo {
        Some(Some(root)) => seq![root],
        _ => Seq::empty(),
    };
    roots::web_root_candidates(s) + roots::assets_candidates(s).map_values(
        |c: (PlaceView, AssetsKind)| c.0,
    ) + remembered
}

/// What the search for the site of a tool may ask.
pub open spec fn site_questions(
    memo: Option<Option<PlaceView>>,
    w: World,
    s: SurroundingsView,
    tool: Seq<char>,
) -> Seq<QuestionView> {
    questions_about(w, places_searched(memo, s), projects::project_dir(tool))
}

/// The questions about an entry are among those about its directory.
proof fn lemma_entry_questions(dir: PlaceView, names: Seq<Option<Seq<char>>>, i: int)
    requires
        0 <= i < names.len(),
    ensures
        ({
            let all = entry_questions(dir, names);
            let entry = dir.entry(i as usize, names[i]);
            &&& all.contains(QuestionView::IsDir(entry))
            &&& all.contains(QuestionView::IsFile(entry.join("index.html"@)))
            &&& all.contains(
                QuestionView::IsFile(projects::output_below(entry).join("index.html"@)),
            )
        }),
    decreases names.len(),
{
    let all = entry_questions(dir, names);
    let before = entry_questions(dir, names.drop_last());
    let n = before.len() as int;
    if i == names.len() - 1 {
        let entry = dir.entry(i as usize, names[i]);
        assert(all[n] == QuestionView::IsDir(entry));
        assert(all[n + 1] == QuestionView::IsFile(entry.join("index.html"@)));
        assert(all[n + 2] == QuestionView::IsFile(
            projects::output_below(entry).join("index.html"@),
        ));
    } else {
        lemma_entry_questions(dir, names.drop_last(), i);
        assert forall|q: QuestionView| before.contains(q) implies all.contains(q) by {
            let k = choose|k: int| 0 <= k < before.len() && before[k] == q;
            assert(all[k] == q);
        }
    }
}

/// The questions about a place hold those of its own and those about its entries.
proof fn lemma_questions_at(w: World, p: PlaceView, wanted: Seq<char>)
    ensures
        ({
            let all = questions_at(w, p, wanted);
            &&& all.contains(QuestionView::IsDir(p))
            &&& all.contains(QuestionView::IsDir(p.join("shader"@)))
            &&& all.contains(QuestionView::IsDir(p.join("whiteboard"@)))
            &&& all.contains(QuestionView::IsDir(p.join("design"@)))
            &&& all.contains(QuestionView::IsFile(p.join("index.html"@)))
            &&& all.contains(QuestionView::List(p))
            &&& all.contains(QuestionView::IsDir(p.join(wanted)))
            &&& all.contains(QuestionView::IsFile(p.join(wanted).join("index.html"@)))
            &&& all.contains(
                QuestionView::IsFile(projects::output_below(p.join(wanted)).join("index.html"@)),
            )
        }),
        forall|q: QuestionView| #[trigger]
            entry_questions(p, listed(w, p)).contains(q) ==> questions_at(w, p, wanted).contains(q),
{
    let all = questions_at(w, p, wanted);
    let entries = entry_questions(p, listed(w, p));
    assert(all[0] == QuestionView::IsDir(p));
    assert(all[1] == QuestionView::IsDir(p.join("shader"@)));
    assert(all[2] == QuestionView::IsDir(p.join("whiteboard"@)));
    assert(all[3] == QuestionView::IsDir(p.join("design"@)));
    assert(all[4] == QuestionView::IsFile(p.join("index.html"@)));
    assert(all[5] == QuestionView::List(p));
    assert(all[6] == QuestionView::IsDir(p.join(wanted)));
    assert(all[7] == QuestionView::IsFile(p.join(wanted).join("index.html"@)));
    assert(all[8] == QuestionView::IsFile(
        projects::output_below(p.join(wanted)).join("index.html"@),
    ));
    assert forall|q: QuestionView| #[trigger] entries.contains(q) implies all.contains(q) by {
        let k = choose|k: int| 0 <= k < entries.len() && entries[k] == q;
        assert(all[9 + k] == q);
    }
}

/// The questions about one of some places are among those about all of them.
proof fn lemma_questions_about(w: World, places: Seq<PlaceView>, wanted: Seq<char>, i: int)
    requires
        0 <= i < places.len(),
    ensures
        forall|q: QuestionView| #[trigger]
            questions_at(w, places[i], wanted).contains(q) ==> questions_about(
                w,
                places,
                wanted,
            ).contains(q),
    decreases places.len(),
{
    let all = questions_about(w, places, wanted);
    let before = questions_about(w, places.drop_last(), wanted);
    let last = questions_at(w, places.last(), wanted);
    if i < places.len() - 1 {
        lemma_questions_about(w, places.drop_last(), wanted, i);
    }
    assert forall|q: QuestionView| #[trigger]
        questions_at(w, places[i], wanted).contains(q) implies all.contains(q) by {
        if i < places.len() - 1 {
            assert(places.drop_last()[i] == places[i]);
            let k = choose|k: int| 0 <= k < before.len() && before[k] == q;
            assert(all[k] == q);
        } else {
            let k = choose|k: int| 0 <= k < last.len() && last[k] == q;
            assert(all[before.len() + k] == q);
        }
    }
}

/// Looking for a built site in a directory asks only about its entries.
proof fn lemma_built_site_asks(
    w: World,
    f: FactsView,
    p: PlaceView,
    topic: spec_fn(QuestionView) -> bool,
)
    requires
        forall|q: QuestionView| #[trigger]
            entry_questions(p, listed(w, p)).contains(q) ==> topic(q),
    ensures
        facts::asks_within(roots::has_built_site(f, p, listed(w, p)), topic),
{
    let all = facts::entries(p, listed(w, p));
    let test = roots::built_site_test(f);
    assert forall|i: int| 0 <= i < all.len() implies facts::asks_within(
        #[trigger] test(all[i]),
        topic,
    ) by {
        lemma_entry_questions(p, listed(w, p), i);
    }
    facts::law_search_asks_within(all, test, topic);
}

/// Looking for a directory by name asks only about a directory and its entries.
proof fn lemma_entry_named_asks(
    w: World,
    f: FactsView,
    dir: PlaceView,
    wanted: Seq<char>,
    needs_page: bool,
    topic: spec_fn(QuestionView) -> bool,
)
    requires
        w.agrees(f),
        topic(QuestionView::List(dir)),
        forall|q: QuestionView| #[trigger]
            entry_questions(dir, listed(w, dir)).contains(q) ==> topic(q),
    ensures
        facts::asks_within(projects::entry_named(f, dir, wanted, needs_page), topic),
        projects::entry_named(f, dir, wanted, needs_page) matches Verdict::Known(Some(found))
            ==> topic(QuestionView::IsFile(projects::output_below(found).join("index.html"@))),
{
    if let Verdict::Known(Some(names)) = f.listing(dir) {
        assert(names == listed(w, dir));
        let all = facts::entries(dir, names);
        let test = projects::entry_test(f, wanted, needs_page);
        assert forall|i: int| 0 <= i < all.len() implies facts::asks_within(
            #[trigger] test(all[i]),
            topic,
        ) by {
            lemma_entry_questions(dir, listed(w, dir), i);
        }
        facts::law_search_asks_within(all, test, topic);
        facts::law_found_is_given(all, test);
        if let Verdict::Known(Some(found)) = projects::entry_named(f, dir, wanted, needs_page) {
            let i = choose|i: int| 0 <= i < all.len() && all[i] == found;
            lemma_entry_questions(dir, listed(w, dir), i);
        }
    }
}

/// The search for the root of the exported sites asks only about its candidates.
proof fn lemma_assets_search_asks(
    memo: Option<Option<PlaceView>>,
    w: World,
    f: FactsView,
    s: SurroundingsView,
    wanted: Seq<char>,
    topic: spec_fn(QuestionView) -> bool,
)
    requires
        w.agrees(f),
        forall|q: QuestionView| #[trigger]
            questions_about(w, places_searched(memo, s), wanted).contains(q) ==> topic(q),
    ensures
        facts::asks_within(roots::assets_web_root(f, s), topic),
{
    let candidates = roots::assets_candidates(s);
    let test = roots::assets_test(f);
    let places = places_searched(memo, s);
    assert forall|i: int| 0 <= i < candidates.len() implies facts::asks_within(
        #[trigger] test(candidates[i]),
        topic,
    ) by {
        let p = candidates[i].0;
        let k = roots::web_root_candidates(s).len() + i;
        assert(places[k] == p);
        lemma_questions_about(w, places, wanted, k);
        lemma_questions_at(w, p, wanted);
        lemma_built_site_asks(w, f, p, topic);
        assert(f.listings.contains_key(p) ==> f.listings[p] == (w.listing)(p));
    }
    facts::law_search_asks_within(candidates, test, topic);
}

/// The search for the site of a tool ends: in a file system that does not change it asks only
/// what is not known yet, and only what is on a list that does not change either.
pub proof fn law_site_search_ends(
    memo: Option<Option<PlaceView>>,
    w: World,
    f: FactsView,
    s: SurroundingsView,
    tool: Seq<char>,
)
    requires
        w.agrees(f),
    ensures
        facts::asks_news(projects::output_dir(memo, f, s, tool), f),
        facts::asks_within(
            projects::output_dir(memo, f, s, tool),
            |q: QuestionView| site_questions(memo, w, s, tool).contains(q),
        ),
{
    let wanted = projects::project_dir(tool);
    let places = places_searched(memo, s);
    let topic = |q: QuestionView| site_questions(memo, w, s, tool).contains(q);
    projects::law_site_search_asks_news(memo, f, s, tool);
    lemma_assets_search_asks(memo, w, f, s, wanted, topic);
    if let Verdict::Known(Some(root)) = roots::assets_web_root(f, s) {
        let candidates = roots::assets_candidates(s);
        facts::law_found_is_given(candidates, roots::assets_test(f));
        let found = facts::first_passing(candidates, roots::assets_test(f))->Known_0->0;
        let i = choose|i: int| 0 <= i < candidates.len() && candidates[i] == found;
        let k = roots::web_root_candidates(s).len() + i;
        assert(places[k] == root);
        lemma_questions_about(w, places, wanted, k);
        lemma_questions_at(w, root, wanted);
        lemma_entry_named_asks(w, f, root, wanted, true, topic);
    }
    let web_roots = roots::web_root_candidates(s);
    let test = roots::web_root_test(f);
    assert forall|i: int| 0 <= i < web_roots.len() implies facts::asks_within(
        #[trigger] test(web_roots[i]),
        topic,
    ) by {
        assert(places[i] == web_roots[i]);
        lemma_questions_about(w, places, wanted, i);
        lemma_questions_at(w, web_roots[i], wanted);
    }
    facts::law_search_asks_within(web_roots, test, topic);
    if let Verdict::Known(Some(root)) = roots::web_root_now(memo, f, s) {
        facts::law_found_is_given(web_roots, test);
        let k = if memo is Some {
            places.len() - 1
        } else {
            choose|i: int| 0 <= i < web_roots.len() && web_roots[i] == root
        };
        assert(places[k] == root);
        lemma_questions_about(w, places, wanted, k);
        lemma_questions_at(w, root, wanted);
        lemma_entry_named_asks(w, f, root, wanted, false, topic);
    }
}

} // verus!
