//! From the id of a web tool to the directory of its built site.
use crate::facts;
use crate::facts::Answer;
use crate::facts::Facts;
use crate::facts::FactsView;
use crate::facts::QuestionView;
use crate::facts::Verdict;
use crate::facts::World;
use crate::place::LegView;
use crate::place::Place;
use crate::place::PlaceView;
use crate::root_laws;
use crate::roots;
use crate::roots::Surroundings;
use crate::roots::SurroundingsView;
use crate::roots::WebRootMemo;
use crate::text;
use vstd::prelude::*;

verus! {

/// The directory name for a tool id: capitalised for the tools whose projects are, else the id.
pub open spec fn project_dir(tool: Seq<char>) -> Seq<char> {
    if tool == "design"@ {
        "Design"@
    } else if tool == "graphics"@ {
        "Graphics"@
    } else if tool == "presentations"@ {
        "Presentations"@
    } else if tool == "spreadsheets"@ {
        "Spreadsheets"@
    } else if tool == "video"@ {
        "Video"@
    } else if tool == "music"@ {
        "Music"@
    } else {
        tool
    }
}

/// The entry of a listed directory has the wanted name, whatever the case of its letters.
pub open spec fn entry_has_name(entry: PlaceView, wanted: Seq<char>) -> bool {
    entry.legs.last() matches LegView::Entry(_, Some(name)) && text::same_ignoring_case(
        name,
        wanted,
    )
}

/// The test for a directory with the wanted name, and with a page if one is needed.
pub open spec fn entry_test(
    f: FactsView,
    wanted: Seq<char>,
    needs_page: bool,
) -> spec_fn(PlaceView) -> Verdict<bool> {
    |entry: PlaceView|
        facts::both(
            f.dir(entry),
            facts::both(
                Verdict::Known(entry_has_name(entry, wanted)),
                if needs_page {
                    f.file(entry.join("index.html"@))
                } else {
                    Verdict::Known(true)
                },
            ),
        )
}

/// The first directory with the wanted name among the entries of a directory that can be read.
pub open spec fn entry_named(
    f: FactsView,
    dir: PlaceView,
    wanted: Seq<char>,
    needs_page: bool,
) -> Verdict<Option<PlaceView>> {
    match f.listing(dir) {
        Verdict::Ask(question) => Verdict::Ask(question),
        Verdict::Known(None) => Verdict::Known(None),
        Verdict::Known(Some(names)) => facts::first_passing(
            facts::entries(dir, names),
            entry_test(f, wanted, needs_page),
        ),
    }
}

/// The exported site: the directory of the wanted name if it has a page, else the first with
/// that name in any case that has one.
pub open spec fn exported_site(f: FactsView, root: PlaceView, wanted: Seq<char>) -> Verdict<
    Option<PlaceView>,
> {
    match f.file(root.join(wanted).join("index.html"@)) {
        Verdict::Ask(question) => Verdict::Ask(question),
        Verdict::Known(true) => Verdict::Known(Some(root.join(wanted))),
        Verdict::Known(false) => entry_named(f, root, wanted, true),
    }
}

/// The project below the web root: the directory of the wanted name, else the first with that
/// name in any case.
pub open spec fn project_folder(f: FactsView, root: PlaceView, wanted: Seq<char>) -> Verdict<
    Option<PlaceView>,
> {
    match f.dir(root.join(wanted)) {
        Verdict::Ask(question) => Verdict::Ask(question),
        Verdict::Known(true) => Verdict::Known(Some(root.join(wanted))),
        Verdict::Known(false) => entry_named(f, root, wanted, false),
    }
}

/// Where a project keeps its static output.
pub open spec fn output_below(project: PlaceView) -> PlaceView {
    project.join(".dx"@).join("www"@).join("output"@)
}

/// The static output of the project below the web root, if it has a page.
pub open spec fn project_output(f: FactsView, root: PlaceView, wanted: Seq<char>) -> Verdict<
    Option<PlaceView>,
> {
    match project_folder(f, root, wanted) {
        Verdict::Ask(question) => Verdict::Ask(question),
        Verdict::Known(None) => Verdict::Known(None),
        Verdict::Known(Some(project)) => match f.file(output_below(project).join("index.html"@)) {
            Verdict::Ask(question) => Verdict::Ask(question),
            Verdict::Known(true) => Verdict::Known(Some(output_below(project))),
            Verdict::Known(false) => Verdict::Known(None),
        },
    }
}

/// The exported site below the root of the exported sites, if there is such a root.
pub open spec fn exported_output(f: FactsView, s: SurroundingsView, wanted: Seq<char>) -> Verdict<
    Option<PlaceView>,
> {
    match roots::assets_web_root(f, s) {
        Verdict::Ask(question) => Verdict::Ask(question),
        Verdict::Known(None) => Verdict::Known(None),
        Verdict::Known(Some(root)) => exported_site(f, root, wanted),
    }
}

/// The directory of the built site of a tool: an exported site, else the static output of the
/// project below the web root.
pub open spec fn output_dir(
    memo: Option<Option<PlaceView>>,
    f: FactsView,
    s: SurroundingsView,
    tool: Seq<char>,
) -> Verdict<Option<PlaceView>> {
    match exported_output(f, s, project_dir(tool)) {
        Verdict::Ask(question) => Verdict::Ask(question),
        Verdict::Known(Some(site)) => Verdict::Known(Some(site)),
        Verdict::Known(None) => match roots::web_root_now(memo, f, s) {
            Verdict::Ask(question) => Verdict::Ask(question),
            Verdict::Known(None) => Verdict::Known(None),
            Verdict::Known(Some(root)) => project_output(f, root, project_dir(tool)),
        },
    }
}

/// What is remembered of the web root after a site was looked for. It is asked for only if there
/// is no exported site.
pub open spec fn memo_after_output(
    memo: Option<Option<PlaceView>>,
    f: FactsView,
    s: SurroundingsView,
    tool: Seq<char>,
) -> Option<Option<PlaceView>> {
    if exported_output(f, s, project_dir(tool)) == Verdict::<Option<PlaceView>>::Known(None) {
        roots::memo_after(memo, f, s)
    } else {
        memo
    }
}

/// The directory name for a tool id.
pub fn project_dir_name(tool_id: &str) -> (name: &str)
    ensures
        name@ == project_dir(tool_id@),
{
    if text::same_text(tool_id, "design") {
        "Design"
    } else if text::same_text(tool_id, "graphics") {
        "Graphics"
    } else if text::same_text(tool_id, "presentations") {
        "Presentations"
    } else if text::same_text(tool_id, "spreadsheets") {
        "Spreadsheets"
    } else if text::same_text(tool_id, "video") {
        "Video"
    } else if text::same_text(tool_id, "music") {
        "Music"
    } else {
        tool_id
    }
}

/// The first directory with the wanted name among the entries of a directory.
fn find_entry(dir: &Place, wanted: &str, needs_page: bool, known: &Facts) -> (answer: Answer<
    Option<Place>,
>)
    ensures
        answer.deep_view() == entry_named(known@, dir@, wanted@, needs_page),
{
    let names = match known.list(dir) {
        Answer::Ask(question) => {
            return Answer::Ask(question);
        },
        Answer::Known(None) => {
            return Answer::Known(None);
        },
        Answer::Known(Some(names)) => names,
    };
    let ghost all = facts::entries(dir@, names.deep_view());
    let ghost test = entry_test(known@, wanted@, needs_page);
    let mut i: usize = 0;
    assert(all.skip(0) =~= all);
    while i < names.len()
        invariant
            i <= names.len(),
            all == facts::entries(dir@, names.deep_view()),
            test == entry_test(known@, wanted@, needs_page),
            entry_named(known@, dir@, wanted@, needs_page) == facts::first_passing(
                all.skip(i as int),
                test,
            ),
        decreases names.len() - i,
    {
        let ghost rest = all.skip(i as int);
        let entry = dir.entry(i, &names[i]);
        assert(rest[0] == entry@);
        assert(rest.skip(1) =~= all.skip(i + 1));
        assert(entry@.legs.last() == LegView::Entry(i, names[i as int].deep_view()));
        match known.is_dir(&entry) {
            Answer::Ask(question) => {
                return Answer::Ask(question);
            },
            Answer::Known(true) => {
                let has_name = match &names[i] {
                    Some(name) => text::matches_ignoring_case(name.as_str(), wanted),
                    None => false,
                };
                assert(has_name == entry_has_name(entry@, wanted@));
                if has_name {
                    if !needs_page {
                        return Answer::Known(Some(entry));
                    }
                    match known.is_file(&entry.join("index.html")) {
                        Answer::Ask(question) => {
                            return Answer::Ask(question);
                        },
                        Answer::Known(true) => {
                            return Answer::Known(Some(entry));
                        },
                        Answer::Known(false) => {},
                    }
                }
            },
            Answer::Known(false) => {},
        }
        i += 1;
    }
    Answer::Known(None)
}

/// Looks for an exported site.
fn find_exported_site(surroundings: &Surroundings, wanted: &str, known: &Facts) -> (answer: Answer<
    Option<Place>,
>)
    ensures
        answer.deep_view() == exported_output(known@, surroundings@, wanted@),
{
    let root = match roots::find_assets_web_root(surroundings, known) {
        Answer::Known(Some(root)) => root,
        other => {
            return other;
        },
    };
    let site = root.join(wanted);
    match known.is_file(&site.join("index.html")) {
        Answer::Ask(question) => Answer::Ask(question),
        Answer::Known(true) => Answer::Known(Some(site)),
        Answer::Known(false) => find_entry(&root, wanted, true, known),
    }
}

/// Looks for the static output of a project below the web root.
fn find_project_output(root: &Place, wanted: &str, known: &Facts) -> (answer: Answer<Option<Place>>)
    ensures
        answer.deep_view() == project_output(known@, root@, wanted@),
{
    let mut project = root.join(wanted);
    match known.is_dir(&project) {
        Answer::Ask(question) => {
            return Answer::Ask(question);
        },
        Answer::Known(true) => {},
        Answer::Known(false) => {
            match find_entry(root, wanted, false, known) {
                Answer::Known(Some(entry)) => {
                    project = entry;
                },
                other => {
                    return other;
                },
            }
        },
    }
    let output = project.join(".dx").join("www").join("output");
    match known.is_file(&output.join("index.html")) {
        Answer::Ask(question) => Answer::Ask(question),
        Answer::Known(true) => Answer::Known(Some(output)),
        Answer::Known(false) => Answer::Known(None),
    }
}

/// Finds the directory of the built site of a tool.
pub fn project_output_dir(
    tool_id: &str,
    memo: &mut WebRootMemo,
    surroundings: &Surroundings,
    known: &Facts,
) -> (answer: Answer<Option<Place>>)
    ensures
        answer.deep_view() == output_dir(old(memo)@, known@, surroundings@, tool_id@),
        final(memo)@ == memo_after_output(old(memo)@, known@, surroundings@, tool_id@),
{
    let wanted = project_dir_name(tool_id);
    match find_exported_site(surroundings, wanted, known) {
        Answer::Known(None) => {},
        other => {
            return other;
        },
    }
    match roots::web_root(memo, surroundings, known) {
        Answer::Known(Some(root)) => find_project_output(&root, wanted, known),
        other => other,
    }
}

/// The directory name differs from the tool id at most in the case of its letters.
pub proof fn law_project_dir_matches_id(tool: Seq<char>)
    ensures
        text::same_ignoring_case(project_dir(tool), tool),
{
    reveal_strlit("design");
    reveal_strlit("Design");
    reveal_strlit("graphics");
    reveal_strlit("Graphics");
    reveal_strlit("presentations");
    reveal_strlit("Presentations");
    reveal_strlit("spreadsheets");
    reveal_strlit("Spreadsheets");
    reveal_strlit("video");
    reveal_strlit("Video");
    reveal_strlit("music");
    reveal_strlit("Music");
    assert(text::ascii_lowercase(project_dir(tool)) =~= text::ascii_lowercase(tool));
}

/// The directory name for a directory name is that name: the names are settled at once.
pub proof fn law_project_dir_is_settled(tool: Seq<char>)
    ensures
        project_dir(project_dir(tool)) == project_dir(tool),
{
    reveal_strlit("design");
    reveal_strlit("Design");
    reveal_strlit("graphics");
    reveal_strlit("Graphics");
    reveal_strlit("presentations");
    reveal_strlit("Presentations");
    reveal_strlit("spreadsheets");
    reveal_strlit("Spreadsheets");
    reveal_strlit("video");
    reveal_strlit("Video");
    reveal_strlit("music");
    reveal_strlit("Music");
    let name = project_dir(tool);
    if name != tool {
        assert('A' <= name[0] <= 'Z');
    }
}

/// A site is given only if its page is known to be there.
pub proof fn law_site_has_a_page(
    memo: Option<Option<PlaceView>>,
    f: FactsView,
    s: SurroundingsView,
    tool: Seq<char>,
)
    ensures
        output_dir(memo, f, s, tool) matches Verdict::Known(Some(site)) ==> f.file(
            site.join("index.html"@),
        ) == Verdict::Known(true),
{
    let wanted = project_dir(tool);
    if let Verdict::Known(Some(root)) = roots::assets_web_root(f, s) {
        if let Verdict::Known(Some(names)) = f.listing(root) {
            facts::law_found_is_given(
                facts::entries(root, names),
                entry_test(f, wanted, true),
            );
        }
    }
}

/// The first directory with the wanted name.
pub open spec fn entry_named_in(
    w: World,
    dir: PlaceView,
    wanted: Seq<char>,
    needs_page: bool,
) -> Option<PlaceView> {
    match (w.listing)(dir) {
        None => None,
        Some(names) => facts::first_true(
            facts::entries(dir, names),
            |entry: PlaceView|
                (w.is_dir)(entry) && entry_has_name(entry, wanted) && (!needs_page
                    || (w.is_file)(entry.join("index.html"@))),
        ),
    }
}

/// The exported site of a tool.
pub open spec fn exported_site_in(w: World, s: SurroundingsView, wanted: Seq<char>) -> Option<
    PlaceView,
> {
    match root_laws::assets_root_in(w, s) {
        None => None,
        Some(root) => if (w.is_file)(root.join(wanted).join("index.html"@)) {
            Some(root.join(wanted))
        } else {
            entry_named_in(w, root, wanted, true)
        },
    }
}

/// The static output of a project below a web root.
pub open spec fn project_output_in(w: World, root: PlaceView, wanted: Seq<char>) -> Option<
    PlaceView,
> {
    let project = if (w.is_dir)(root.join(wanted)) {
        Some(root.join(wanted))
    } else {
        entry_named_in(w, root, wanted, false)
    };
    match project {
        Some(project) if (w.is_file)(output_below(project).join("index.html"@)) => Some(
            output_below(project),
        ),
        _ => None,
    }
}

/// The directory of the built site of a tool.
pub open spec fn output_dir_in(
    memo: Option<Option<PlaceView>>,
    w: World,
    s: SurroundingsView,
    tool: Seq<char>,
) -> Option<PlaceView> {
    let web_root = match memo {
        Some(found) => found,
        None => root_laws::web_root_in(w, s),
    };
    match exported_site_in(w, s, project_dir(tool)) {
        Some(site) => Some(site),
        None => match web_root {
            Some(root) => project_output_in(w, root, project_dir(tool)),
            None => None,
        },
    }
}

/// What looking for a directory by name comes to.
proof fn lemma_entry_named(
    w: World,
    f: FactsView,
    dir: PlaceView,
    wanted: Seq<char>,
    needs_page: bool,
)
    ensures
        w.agrees(f) ==> facts::settles(
            entry_named(f, dir, wanted, needs_page),
            entry_named_in(w, dir, wanted, needs_page),
        ),
        facts::asks_news(entry_named(f, dir, wanted, needs_page), f),
{
    if let Verdict::Known(Some(names)) = f.listing(dir) {
        let all = facts::entries(dir, names);
        let test = entry_test(f, wanted, needs_page);
        if w.agrees(f) {
            facts::law_search_settles(
                all,
                test,
                |entry: PlaceView|
                    (w.is_dir)(entry) && entry_has_name(entry, wanted) && (!needs_page
                        || (w.is_file)(entry.join("index.html"@))),
            );
        }
        facts::law_search_asks_within(all, test, |q: QuestionView| !f.knows(q));
    }
}

/// Whatever site the search gives is the site of every file system in which the facts hold.
pub proof fn law_site_search_is_right(
    memo: Option<Option<PlaceView>>,
    w: World,
    f: FactsView,
    s: SurroundingsView,
    tool: Seq<char>,
)
    requires
        w.agrees(f),
    ensures
        facts::settles(output_dir(memo, f, s, tool), output_dir_in(memo, w, s, tool)),
{
    let wanted = project_dir(tool);
    root_laws::law_assets_search_is_right(w, f, s);
    root_laws::law_web_root_search_is_right(w, f, s);
    if let Verdict::Known(Some(root)) = roots::assets_web_root(f, s) {
        lemma_entry_named(w, f, root, wanted, true);
    }
    if let Verdict::Known(Some(root)) = roots::web_root_now(memo, f, s) {
        lemma_entry_named(w, f, root, wanted, false);
    }
}

/// The search for a site asks only what is not known yet.
pub proof fn law_site_search_asks_news(
    memo: Option<Option<PlaceView>>,
    f: FactsView,
    s: SurroundingsView,
    tool: Seq<char>,
)
    ensures
        facts::asks_news(output_dir(memo, f, s, tool), f),
{
    let wanted = project_dir(tool);
    let w = World {
        is_dir: |p: PlaceView| true,
        is_file: |p: PlaceView| true,
        listing: |p: PlaceView| None,
        extension: |p: PlaceView| None,
    };
    root_laws::law_assets_search_asks_news(f, s);
    root_laws::law_web_root_search_ends(f, s);
    if let Verdict::Known(Some(root)) = roots::assets_web_root(f, s) {
        lemma_entry_named(w, f, root, wanted, true);
    }
    if let Verdict::Known(Some(root)) = roots::web_root_now(memo, f, s) {
        lemma_entry_named(w, f, root, wanted, false);
    }
}

/// An exported site takes precedence: while there is one, it is the site of its tool.
pub proof fn law_exported_site_takes_precedence(
    memo: Option<Option<PlaceView>>,
    w: World,
    s: SurroundingsView,
    tool: Seq<char>,
)
    requires
        exported_site_in(w, s, project_dir(tool)) is Some,
    ensures
        output_dir_in(memo, w, s, tool) == exported_site_in(w, s, project_dir(tool)),
{
}

/// The site of a tool has a page and, in a file system where what holds a page is a directory, it
/// is a directory.
pub proof fn law_site_is_a_directory(
    memo: Option<Option<PlaceView>>,
    w: World,
    s: SurroundingsView,
    tool: Seq<char>,
)
    ensures
        output_dir_in(memo, w, s, tool) matches Some(site) ==> (w.is_file)(
            site.join("index.html"@),
        ) && (w.is_sound() ==> (w.is_dir)(site)),
{
    let wanted = project_dir(tool);
    let needs_page = true;
    if let Some(root) = root_laws::assets_root_in(w, s) {
        if let Some(names) = (w.listing)(root) {
            facts::law_first_true_is_first(
                facts::entries(root, names),
                |entry: PlaceView|
                    (w.is_dir)(entry) && entry_has_name(entry, wanted) && (!needs_page
                        || (w.is_file)(entry.join("index.html"@))),
            );
        }
    }
}

/// A directory is found by its name in any case: if some entry is a directory with the wanted
/// name, and with a page if one is needed, an entry like that is found.
pub proof fn law_name_is_found_in_any_case(
    w: World,
    dir: PlaceView,
    names: Seq<Option<Seq<char>>>,
    wanted: Seq<char>,
    needs_page: bool,
    index: int,
)
    requires
        (w.listing)(dir) == Some(names),
        0 <= index < names.len(),
        names[index] is Some,
        text::same_ignoring_case(names[index]->0, wanted),
        (w.is_dir)(dir.entry(index as usize, names[index])),
        needs_page ==> (w.is_file)(dir.entry(index as usize, names[index]).join("index.html"@)),
    ensures
        entry_named_in(w, dir, wanted, needs_page) matches Some(found) && (w.is_dir)(found)
            && entry_has_name(found, wanted) && (needs_page ==> (w.is_file)(
            found.join("index.html"@),
        )),
{
    let all = facts::entries(dir, names);
    let test = |entry: PlaceView|
        (w.is_dir)(entry) && entry_has_name(entry, wanted) && (!needs_page || (w.is_file)(
            entry.join("index.html"@),
        ));
    facts::law_first_true_is_first(all, test);
    assert(all[index].legs.last() == LegView::Entry(index as usize, names[index]));
    assert(test(all[index]));
}

/// Six tools have directories with a capital, and every other tool has the directory of its id.
pub proof fn law_directories_of_tools(tool: Seq<char>)
    ensures
        project_dir("design"@) == "Design"@,
        project_dir("graphics"@) == "Graphics"@,
        project_dir("presentations"@) == "Presentations"@,
        project_dir("spreadsheets"@) == "Spreadsheets"@,
        project_dir("video"@) == "Video"@,
        project_dir("music"@) == "Music"@,
        tool != "design"@ && tool != "graphics"@ && tool != "presentations"@ && tool != "spreadsheets"@ && tool != "video"@ && tool != "music"@ ==> project_dir(tool) == tool,
{
    reveal_strlit("design");
    reveal_strlit("graphics");
    reveal_strlit("presentations");
    reveal_strlit("spreadsheets");
    reveal_strlit("video");
    reveal_strlit("music");
    assert("design"@[0] == 'd' && "graphics"@[0] == 'g' && "presentations"@[0] == 'p'
        && "spreadsheets"@[0] == 's' && "video"@[0] == 'v' && "music"@[0] == 'm');
}

/// The entry that a search by name gives is the first with the wanted name: a directory of the
/// listing whose whole name is the wanted one but for the case of ASCII letters, with a page if
/// one is needed. None is given exactly if there is none, or no listing.
pub proof fn law_entry_found_has_the_whole_name(
    w: World,
    dir: PlaceView,
    names: Seq<Option<Seq<char>>>,
    wanted: Seq<char>,
    needs_page: bool,
)
    ensures
        (w.listing)(dir) is None ==> entry_named_in(w, dir, wanted, needs_page) is None,
        (w.listing)(dir) == Some(names) ==> match entry_named_in(w, dir, wanted, needs_page) {
            Some(found) => exists|i: int|
                #![trigger names[i]]
                0 <= i < names.len() && found == dir.entry(i as usize, names[i])
                    && names[i] is Some && text::ascii_lowercase(names[i]->0)
                    == text::ascii_lowercase(wanted) && (w.is_dir)(found) && (needs_page ==> (
                w.is_file)(found.join("index.html"@))) && forall|j: int|
                    #![trigger names[j]]
                    0 <= j < i ==> !(names[j] is Some && text::ascii_lowercase(names[j]->0)
                        == text::ascii_lowercase(wanted) && (w.is_dir)(
                        dir.entry(j as usize, names[j]),
                    ) && (needs_page ==> (w.is_file)(
                        dir.entry(j as usize, names[j]).join("index.html"@),
                    ))),
            None => forall|j: int|
                #![trigger names[j]]
                0 <= j < names.len() ==> !(names[j] is Some && text::ascii_lowercase(names[j]->0)
                    == text::ascii_lowercase(wanted) && (w.is_dir)(dir.entry(j as usize, names[j]))
                    && (needs_page ==> (w.is_file)(
                    dir.entry(j as usize, names[j]).join("index.html"@),
                ))),
        },
{
    if (w.listing)(dir) == Some(names) {
        let all = facts::entries(dir, names);
        let test = |entry: PlaceView|
            (w.is_dir)(entry) && entry_has_name(entry, wanted) && (!needs_page || (w.is_file)(
                entry.join("index.html"@),
            ));
        facts::law_first_true_is_first(all, test);
        assert forall|j: int| #![trigger names[j]] 0 <= j < names.len() implies test(all[j]) == (
        names[j] is Some && text::ascii_lowercase(names[j]->0) == text::ascii_lowercase(wanted)
            && (w.is_dir)(dir.entry(j as usize, names[j])) && (needs_page ==> (w.is_file)(
            dir.entry(j as usize, names[j]).join("index.html"@),
        ))) by {
            assert(all[j] == dir.entry(j as usize, names[j]));
            assert(all[j].legs.last() == LegView::Entry(j as usize, names[j]));
        }
        match entry_named_in(w, dir, wanted, needs_page) {
            Some(found) => {
                let i = choose|i: int|
                    #![trigger all[i]]
                    0 <= i < all.len() && all[i] == found && test(found) && forall|j: int|
                        0 <= j < i ==> !test(#[trigger] all[j]);
                assert(names[i] == names[i]);
                assert forall|j: int| #![trigger names[j]] 0 <= j < i implies !test(all[j]) by {}
            },
            None => {
                assert forall|j: int| #![trigger names[j]] 0 <= j < names.len() implies !test(
                    all[j],
                ) by {}
            },
        }
    }
}

/// The exported site is the directory of the wanted name below the root of the exported sites if
/// it has a page, else what the search by name with a page gives there, and none without a root.
pub proof fn law_exported_site_lies_below_its_root(w: World, s: SurroundingsView, wanted: Seq<char>)
    ensures
        root_laws::assets_root_in(w, s) is None ==> exported_site_in(w, s, wanted) is None,
        root_laws::assets_root_in(w, s) matches Some(root) ==> {
            &&& (w.is_file)(root.join(wanted).join("index.html"@)) ==> exported_site_in(w, s, wanted)
                == Some(root.join(wanted))
            &&& !(w.is_file)(root.join(wanted).join("index.html"@)) ==> exported_site_in(
                w,
                s,
                wanted,
            ) == entry_named_in(w, root, wanted, true)
        },
{
}

/// The output of a project is its `.dx/www/output`, and is given exactly if it has a page. The
/// project is the directory of the wanted name below the web root if there is one, else what the
/// search by name gives there.
pub proof fn law_output_lies_below_its_project(
    w: World,
    root: PlaceView,
    wanted: Seq<char>,
    project: PlaceView,
)
    requires
        (w.is_dir)(root.join(wanted)) ==> project == root.join(wanted),
        !(w.is_dir)(root.join(wanted)) ==> entry_named_in(w, root, wanted, false) == Some(project),
    ensures
        ({
            let output = project.join(".dx"@).join("www"@).join("output"@);
            project_output_in(w, root, wanted) == if (w.is_file)(output.join("index.html"@)) {
                Some(output)
            } else {
                None
            }
        }),
{
}

/// Without a directory of the wanted name there is no output.
pub proof fn law_no_project_has_no_output(w: World, root: PlaceView, wanted: Seq<char>)
    requires
        !(w.is_dir)(root.join(wanted)),
        entry_named_in(w, root, wanted, false) is None,
    ensures
        project_output_in(w, root, wanted) is None,
{
}

/// The site of a tool is its exported site. Without one it is the output of its project below the
/// web root, the one remembered if one is, and without a web root there is none.
pub proof fn law_site_is_exported_or_built(
    w: World,
    s: SurroundingsView,
    tool: Seq<char>,
    remembered: Option<PlaceView>,
)
    ensures
        ({
            let exported = exported_site_in(w, s, project_dir(tool));
            let found = root_laws::web_root_in(w, s);
            &&& exported is Some ==> output_dir_in(None, w, s, tool) == exported && output_dir_in(
                Some(remembered),
                w,
                s,
                tool,
            ) == exported
            &&& exported is None && found is None ==> output_dir_in(None, w, s, tool) is None
            &&& exported is None && remembered is None ==> output_dir_in(
                Some(remembered),
                w,
                s,
                tool,
            ) is None
            &&& exported is None && found is Some ==> output_dir_in(None, w, s, tool)
                == project_output_in(w, found->0, project_dir(tool))
            &&& exported is None && remembered is Some ==> output_dir_in(
                Some(remembered),
                w,
                s,
                tool,
            ) == project_output_in(w, remembered->0, project_dir(tool))
        }),
{
}

/// Looking for a site leaves a remembered web root as it is, and remembers one only where there is
/// no exported site.
pub proof fn law_site_search_remembers_the_web_root(
    w: World,
    f: FactsView,
    s: SurroundingsView,
    tool: Seq<char>,
    remembered: Option<PlaceView>,
)
    requires
        w.agrees(f),
    ensures
        memo_after_output(Some(remembered), f, s, tool) == Some(remembered),
        memo_after_output(None, f, s, tool) matches Some(root) ==> root == root_laws::web_root_in(
            w,
            s,
        ) && exported_site_in(w, s, project_dir(tool)) is None,
        output_dir(None, f, s, tool) is Known && exported_site_in(w, s, project_dir(tool)) is None
            ==> memo_after_output(None, f, s, tool) == Some(root_laws::web_root_in(w, s)),
{
    let wanted = project_dir(tool);
    root_laws::law_assets_search_is_right(w, f, s);
    root_laws::law_web_root_search_is_right(w, f, s);
    if let Verdict::Known(Some(root)) = roots::assets_web_root(f, s) {
        lemma_entry_named(w, f, root, wanted, true);
    }
}

} // verus!
