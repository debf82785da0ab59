use web_preview::facts::{Answer, Facts, Question};
use web_preview::place::{Base, Leg, Place};
use web_preview::preview::{
    ensure_dx_preview_server_running, finish_preview_start, local_preview_url, url_for_port,
    PreviewStep, ProjectServers,
};
use web_preview::projects::{project_dir_name, project_output_dir};
use web_preview::roots::{
    find_assets_web_root, find_dx_web_root, is_dx_web_root, web_root, Start, Surroundings, WebRootMemo,
};

/// A file system in memory. Places are written as text: `0` is a start directory, `0^^` its
/// ancestor two levels up, `/x` joins, `/#1` is an entry.
#[derive(Default)]
struct Disk {
    dirs: Vec<&'static str>,
    files: Vec<&'static str>,
    listings: Vec<(&'static str, Vec<Option<&'static str>>)>,
    asked: usize,
}

fn spelled(place: &Place) -> String {
    let mut text = match place.base {
        Base::Bare => String::new(),
        Base::Start(id) => format!("{}", id),
    };
    for _ in 0..place.up {
        text.push('^');
    }
    for leg in &place.legs {
        match leg {
            Leg::Join(name) => text.push_str(&format!("/{}", name)),
            Leg::Entry(index, _) => text.push_str(&format!("/#{}", index)),
        }
    }
    text
}

impl Disk {
    fn tell(&mut self, question: &Question, facts: &mut Facts) {
        self.asked += 1;
        assert!(self.asked < 1000, "the search does not end");
        match question {
            Question::IsDir(p) => facts.record_dir(p, self.dirs.contains(&spelled(p).as_str())),
            Question::IsFile(p) => facts.record_file(p, self.files.contains(&spelled(p).as_str())),
            Question::Extension(_) => panic!("no file is read here"),
            Question::List(p) => {
                let key = spelled(p);
                let listing = self.listings.iter().find(|(dir, _)| *dir == key);
                facts.record_listing(
                    p,
                    listing.map(|(_, names)| names.iter().map(|n| n.map(str::to_string)).collect()),
                );
            }
        }
    }

    fn settle<T>(&mut self, decide: impl Fn(&Facts) -> Answer<T>) -> T {
        let mut facts = Facts::new();
        loop {
            match decide(&facts) {
                Answer::Known(value) => return value,
                Answer::Ask(question) => self.tell(&question, &mut facts),
            }
        }
    }

    fn web_root(&mut self, around: &Surroundings) -> Option<String> {
        self.settle(|facts| find_dx_web_root(around, facts)).map(|p| spelled(&p))
    }

    fn assets_root(&mut self, around: &Surroundings) -> Option<String> {
        self.settle(|facts| find_assets_web_root(around, facts)).map(|p| spelled(&p))
    }

    fn site(&mut self, tool: &str, around: &Surroundings) -> Option<String> {
        let memo = std::cell::RefCell::new(WebRootMemo::new());
        self.settle(|facts| project_output_dir(tool, &mut memo.borrow_mut(), around, facts))
            .map(|p| spelled(&p))
    }
}

fn names(names: &[&str]) -> Vec<Option<String>> {
    names.iter().map(|n| Some(n.to_string())).collect()
}

fn around(current: Option<Start>, executable: Option<Start>) -> Surroundings {
    Surroundings {
        web_root: None,
        assets_web_root: None,
        current_dir: current,
        executable_dir: executable,
    }
}

fn start(id: usize, of: &[&str]) -> Option<Start> {
    Some(Start { id, names: names(of) })
}

#[test]
fn a_web_root_holds_a_tool() {
    let place = Place::start(4, 0);
    let mut disk = Disk { dirs: vec!["4", "4/whiteboard"], ..Disk::default() };
    assert!(disk.settle(|facts| is_dx_web_root(&place, facts)));
    let mut disk = Disk { dirs: vec!["4", "4/shader"], ..Disk::default() };
    assert!(disk.settle(|facts| is_dx_web_root(&place, facts)));
    assert_eq!(disk.asked, 2);
    let mut disk = Disk { dirs: vec!["4", "4/design"], ..Disk::default() };
    assert!(!disk.settle(|facts| is_dx_web_root(&place, facts)));
    let mut disk = Disk { dirs: vec!["4/shader"], ..Disk::default() };
    assert!(!disk.settle(|facts| is_dx_web_root(&place, facts)));
    assert_eq!(disk.asked, 1);
}

#[test]
fn the_override_comes_first() {
    let mut set = around(start(0, &["w", "home"]), None);
    set.web_root = Some("/srv/web".to_string());
    let mut disk = Disk {
        dirs: vec!["//srv/web", "//srv/web/shader", "0", "0/shader"],
        ..Disk::default()
    };
    assert_eq!(disk.web_root(&set), Some("//srv/web".to_string()));
    let mut disk = Disk { dirs: vec!["//srv/web", "0", "0/shader"], ..Disk::default() };
    assert_eq!(disk.web_root(&set), Some("0".to_string()));
}

#[test]
fn the_walk_goes_up_level_by_level() {
    let set = around(start(0, &["c", "b", "a"]), start(1, &["bin", "usr"]));
    let mut disk = Disk {
        dirs: vec!["0^/code/web", "0^/code/web/shader", "0^^", "0^^/shader", "1", "1/shader"],
        ..Disk::default()
    };
    assert_eq!(disk.web_root(&set), Some("0^/code/web".to_string()));
    let mut disk = Disk {
        dirs: vec!["0/web", "0/web/shader", "0/code/web", "0/code/web/shader"],
        ..Disk::default()
    };
    assert_eq!(disk.web_root(&set), Some("0/web".to_string()));
    let mut disk = Disk { dirs: vec!["1^/web", "1^/web/whiteboard"], ..Disk::default() };
    assert_eq!(disk.web_root(&set), Some("1^/web".to_string()));
    let mut disk = Disk { dirs: vec!["0^^^", "0^^^/shader"], ..Disk::default() };
    assert_eq!(disk.web_root(&set), None);
}

#[test]
fn the_fallback_comes_last() {
    let set = around(start(0, &["c"]), None);
    let fallback = "/G:\\Dx\\code\\web";
    let mut disk = Disk { dirs: vec![fallback, "/G:\\Dx\\code\\web/shader"], ..Disk::default() };
    assert_eq!(disk.web_root(&set), Some(fallback.to_string()));
    let mut disk = Disk {
        dirs: vec![fallback, "/G:\\Dx\\code\\web/shader", "0/web", "0/web/shader"],
        ..Disk::default()
    };
    assert_eq!(disk.web_root(&set), Some("0/web".to_string()));
    assert_eq!(Disk::default().web_root(&around(None, None)), None);
}

#[test]
fn a_search_asks_at_most_three_questions_for_each_candidate() {
    let set = around(start(0, &["c", "b"]), start(1, &["bin"]));
    let mut disk = Disk {
        dirs: vec!["0", "0/web", "0/code/web", "0^", "0^/web", "0^/code/web", "1", "1/web"],
        ..Disk::default()
    };
    assert_eq!(disk.web_root(&set), None);
    assert_eq!(disk.asked, 8 * 3 + 2);
}

#[test]
fn the_web_root_is_looked_for_once() {
    let mut memo = WebRootMemo::new();
    let set = around(start(0, &["c"]), None);
    let mut facts = Facts::new();
    let mut disk = Disk { dirs: vec!["0", "0/shader"], ..Disk::default() };
    let found = loop {
        match web_root(&mut memo, &set, &facts) {
            Answer::Known(found) => break found,
            Answer::Ask(question) => {
                assert!(memo.found.is_none());
                disk.tell(&question, &mut facts);
            }
        }
    };
    assert_eq!(found.map(|p| spelled(&p)), Some("0".to_string()));
    let elsewhere = around(None, None);
    match web_root(&mut memo, &elsewhere, &Facts::new()) {
        Answer::Known(again) => assert_eq!(again.map(|p| spelled(&p)), Some("0".to_string())),
        Answer::Ask(_) => panic!("remembered"),
    }
}

#[test]
fn a_missing_web_root_is_remembered_too() {
    let mut memo = WebRootMemo { found: Some(None) };
    let set = around(start(0, &["c"]), None);
    assert!(matches!(web_root(&mut memo, &set, &Facts::new()), Answer::Known(None)));
}

#[test]
fn the_exported_sites_are_found_below_the_way_up() {
    let set = around(start(0, &["c", "b"]), None);
    let mut disk = Disk {
        dirs: vec!["0^/assets/web", "0^/assets/web/#1"],
        files: vec!["0^/assets/web/#1/index.html"],
        listings: vec![("0^/assets/web", vec![Some("notes"), None])],
        ..Disk::default()
    };
    assert_eq!(disk.assets_root(&set), Some("0^/assets/web".to_string()));
    let mut disk = Disk {
        dirs: vec!["0/assets/web", "0/assets/web/design"],
        listings: vec![("0/assets/web", vec![])],
        ..Disk::default()
    };
    assert_eq!(disk.assets_root(&set), Some("0/assets/web".to_string()));
    let mut disk = Disk {
        dirs: vec!["0/assets/web", "0/assets/web/whiteboard"],
        listings: vec![("0/assets/web", vec![])],
        ..Disk::default()
    };
    assert_eq!(disk.assets_root(&set), Some("0/assets/web".to_string()));
    let mut disk = Disk { dirs: vec!["0/assets/web", "0/assets/web/design"], ..Disk::default() };
    assert_eq!(disk.assets_root(&set), None);
}

#[test]
fn an_assets_web_directory_on_the_way_up_is_itself_a_root() {
    let set = around(start(0, &["site", "web", "assets", "home"]), None);
    let mut disk = Disk { files: vec!["0^/index.html"], ..Disk::default() };
    assert_eq!(disk.assets_root(&set), Some("0^".to_string()));
    let mut disk = Disk {
        dirs: vec!["0^/#0"],
        files: vec!["0^/#0/index.html"],
        listings: vec![("0^", vec![Some("music")])],
        ..Disk::default()
    };
    assert_eq!(disk.assets_root(&set), Some("0^".to_string()));
    let other = around(start(0, &["site", "web", "static"]), None);
    let mut disk = Disk { files: vec!["0^/index.html"], ..Disk::default() };
    assert_eq!(disk.assets_root(&other), None);
    let plain = around(start(0, &["c"]), None);
    let mut disk = Disk { files: vec!["0/assets/web/index.html"], ..Disk::default() };
    assert_eq!(disk.assets_root(&plain), Some("0/assets/web".to_string()));
}

#[test]
fn the_assets_web_below_the_current_directory_is_preferred() {
    let set = around(start(0, &["c", "b"]), start(1, &["bin"]));
    let mut disk = Disk {
        dirs: vec![
            "0/assets/web",
            "0/assets/web/#0",
            "0/assets/web/assets/web",
            "0/assets/web/assets/web/#0",
        ],
        files: vec!["0/assets/web/#0/index.html", "0/assets/web/assets/web/#0/index.html"],
        listings: vec![
            ("0/assets/web", vec![Some("music")]),
            ("0/assets/web/assets/web", vec![Some("music")]),
        ],
        ..Disk::default()
    };
    assert_eq!(disk.assets_root(&set), Some("0/assets/web".to_string()));
    let mut disk = Disk {
        dirs: vec!["0/assets/web/assets/web", "0/assets/web/assets/web/design"],
        files: vec!["0/assets/web/index.html"],
        listings: vec![("0/assets/web/assets/web", vec![])],
        ..Disk::default()
    };
    assert_eq!(disk.assets_root(&set), Some("0/assets/web".to_string()));
    let mut disk = Disk {
        dirs: vec!["0/assets/web/assets/web", "0/assets/web/assets/web/design"],
        files: vec!["1/assets/web/index.html"],
        listings: vec![("0/assets/web/assets/web", vec![])],
        ..Disk::default()
    };
    assert_eq!(disk.assets_root(&set), Some("0/assets/web/assets/web".to_string()));
}

#[test]
fn the_assets_web_below_the_programs_directory_comes_next() {
    let set = around(start(0, &["c"]), start(1, &["bin"]));
    let mut disk = Disk {
        dirs: vec!["1/assets/web/assets/web", "1/assets/web/assets/web/design"],
        files: vec!["1/assets/web/index.html"],
        listings: vec![("1/assets/web/assets/web", vec![])],
        ..Disk::default()
    };
    assert_eq!(disk.assets_root(&set), Some("1/assets/web".to_string()));
    let mut disk = Disk {
        dirs: vec!["0/assets/web", "0/assets/web/design"],
        files: vec!["1/assets/web/index.html"],
        listings: vec![("0/assets/web", vec![])],
        ..Disk::default()
    };
    assert_eq!(disk.assets_root(&set), Some("0/assets/web".to_string()));
}

#[test]
fn the_nearest_ancestor_wins() {
    let set = around(start(0, &["d", "c", "b", "a"]), None);
    let mut disk = Disk {
        dirs: vec![
            "0^/assets/web",
            "0^^/assets/web",
            "0^^/assets/web/design",
            "0^^^/assets/web",
            "0^^^/assets/web/design",
        ],
        listings: vec![
            ("0^/assets/web", vec![]),
            ("0^^/assets/web", vec![]),
            ("0^^^/assets/web", vec![]),
        ],
        ..Disk::default()
    };
    assert_eq!(disk.assets_root(&set), Some("0^^/assets/web".to_string()));
}

#[test]
fn the_named_roots_of_exported_sites_need_only_be_directories() {
    let mut set = around(start(0, &["c"]), None);
    set.assets_web_root = Some("/srv".to_string());
    let mut disk = Disk {
        dirs: vec!["//srv", "0/assets/web", "0/assets/web/design"],
        listings: vec![("0/assets/web", vec![])],
        ..Disk::default()
    };
    assert_eq!(disk.assets_root(&set), Some("//srv".to_string()));
    assert_eq!(disk.asked, 1);
    let fallback = "/G:\\Dx\\code\\assets\\web";
    let mut disk = Disk { dirs: vec![fallback], ..Disk::default() };
    assert_eq!(disk.assets_root(&set), Some(fallback.to_string()));
}

#[test]
fn tool_ids_name_their_directories() {
    let expected = [
        ("3d", "3d"),
        ("design", "Design"),
        ("graphics", "Graphics"),
        ("presentations", "Presentations"),
        ("spreadsheets", "Spreadsheets"),
        ("video", "Video"),
        ("music", "Music"),
        ("whiteboard", "whiteboard"),
        ("shader", "shader"),
        ("dx-web", "dx-web"),
        ("Design", "Design"),
        ("", ""),
    ];
    for (id, dir) in expected {
        assert_eq!(project_dir_name(id), dir);
        assert!(project_dir_name(id).eq_ignore_ascii_case(id));
        assert_eq!(project_dir_name(dir), dir);
    }
}

fn with_assets() -> Surroundings {
    let mut set = around(start(0, &["c"]), None);
    set.assets_web_root = Some("a".to_string());
    set.web_root = Some("w".to_string());
    set
}

#[test]
fn an_exported_site_takes_precedence() {
    let mut disk = Disk {
        dirs: vec!["/a", "/w", "/w/shader", "/w/Design"],
        files: vec!["/a/Design/index.html", "/w/Design/.dx/www/output/index.html"],
        ..Disk::default()
    };
    assert_eq!(disk.site("design", &with_assets()), Some("/a/Design".to_string()));
}

#[test]
fn an_exported_site_is_found_in_any_case() {
    let mut disk = Disk {
        dirs: vec!["/a", "/a/#1", "/a/#2", "/a/#3"],
        files: vec!["/a/#0/index.html", "/a/#2/index.html", "/a/#3/index.html"],
        listings: vec![("/a", vec![Some("DESIGN"), Some("desigN"), Some("design"), Some("Design")])],
        ..Disk::default()
    };
    assert_eq!(disk.site("design", &with_assets()), Some("/a/#2".to_string()));
}

#[test]
fn a_project_gives_its_static_output() {
    let mut disk = Disk {
        dirs: vec!["/a", "/w", "/w/shader"],
        files: vec!["/w/shader/.dx/www/output/index.html"],
        ..Disk::default()
    };
    assert_eq!(
        disk.site("shader", &with_assets()),
        Some("/w/shader/.dx/www/output".to_string())
    );
    let mut disk = Disk {
        dirs: vec!["/w", "/w/shader", "/w/#1"],
        files: vec!["/w/#1/.dx/www/output/index.html"],
        listings: vec![("/w", vec![Some("VIDEO"), Some("video")])],
        ..Disk::default()
    };
    assert_eq!(
        disk.site("video", &with_assets()),
        Some("/w/#1/.dx/www/output".to_string())
    );
}

#[test]
fn a_site_needs_a_page() {
    let mut disk = Disk { dirs: vec!["/a", "/w", "/w/shader"], ..Disk::default() };
    assert_eq!(disk.site("shader", &with_assets()), None);
    let mut disk = Disk { dirs: vec!["/a", "/w", "/w/shader"], ..Disk::default() };
    assert_eq!(disk.site("music", &with_assets()), None);
    assert_eq!(Disk::default().site("music", &with_assets()), None);
}

#[test]
fn the_web_root_is_asked_for_only_without_an_exported_site() {
    let set = with_assets();
    let mut memo = WebRootMemo::new();
    let mut facts = Facts::new();
    let mut disk = Disk {
        dirs: vec!["/a", "/w", "/w/shader"],
        files: vec!["/a/shader/index.html"],
        ..Disk::default()
    };
    loop {
        match project_output_dir("shader", &mut memo, &set, &facts) {
            Answer::Known(found) => {
                assert_eq!(found.map(|p| spelled(&p)), Some("/a/shader".to_string()));
                break;
            }
            Answer::Ask(question) => disk.tell(&question, &mut facts),
        }
    }
    assert!(memo.found.is_none());
}

#[test]
fn facts_are_recorded_and_replaced() {
    let here = Place::bare("x");
    let mut facts = Facts::new();
    assert!(matches!(facts.is_dir(&here), Answer::Ask(Question::IsDir(_))));
    facts.record_dir(&here, false);
    facts.record_dir(&Place::bare("y"), true);
    assert!(matches!(facts.is_dir(&here), Answer::Known(false)));
    facts.record_dir(&here, true);
    assert!(matches!(facts.is_dir(&here), Answer::Known(true)));
    assert!(matches!(facts.is_file(&here), Answer::Ask(Question::IsFile(_))));
    assert!(matches!(facts.list(&here), Answer::Ask(Question::List(_))));
    facts.record_listing(&here, None);
    assert!(matches!(facts.list(&here), Answer::Known(None)));
    assert!(here.same(&here.copy()));
    assert!(!here.same(&here.join("")));
    let name = Some("n".to_string());
    assert!(here.entry(0, &name).same(&here.entry(0, &name)));
    assert!(!here.entry(0, &name).same(&here.entry(1, &name)));
    assert!(!here.entry(0, &name).same(&here.entry(0, &None)));
    assert!(!Place::start(0, 0).same(&Place::start(0, 1)));
    assert!(Place::start(0, 0).same(&Place::start(0, 0)));
    assert!(matches!(facts.extension(&here), Answer::Ask(Question::Extension(_))));
    facts.record_extension(&here, Some("x".to_string()));
    assert!(matches!(facts.extension(&here), Answer::Known(Some(_))));
}

/// Runs a request for an address; `port` is what starting a server comes to.
fn address(
    servers: &mut ProjectServers,
    memo: &mut WebRootMemo,
    tool: &str,
    disk: &mut Disk,
    port: Option<u16>,
) -> (Option<String>, bool) {
    let mut facts = Facts::new();
    loop {
        match local_preview_url(servers, tool, memo, &with_assets(), &facts) {
            PreviewStep::Done(url) => return (url, false),
            PreviewStep::Ask(question) => disk.tell(&question, &mut facts),
            PreviewStep::Start(_) => return (finish_preview_start(servers, tool, port), true),
        }
    }
}

#[test]
fn a_tool_is_served_once() {
    let mut servers = ProjectServers::new();
    let mut memo = WebRootMemo::new();
    let mut disk = Disk {
        dirs: vec!["/a"],
        files: vec!["/a/Music/index.html", "/a/Video/index.html"],
        ..Disk::default()
    };
    let url = Some("http://127.0.0.1:49152/".to_string());
    assert_eq!(address(&mut servers, &mut memo, "music", &mut disk, Some(49152)), (url.clone(), true));
    let mut empty = Disk::default();
    assert_eq!(address(&mut servers, &mut memo, "music", &mut empty, Some(1)), (url.clone(), false));
    assert_eq!(empty.asked, 0);
    assert_eq!(servers.port_of("music"), Some(49152));
    assert_eq!(servers.port_of("video"), None);
    let other = Some("http://127.0.0.1:80/".to_string());
    assert_eq!(address(&mut servers, &mut memo, "video", &mut disk, Some(80)), (other, true));
    assert_eq!(address(&mut servers, &mut memo, "music", &mut empty, None), (url, false));
}

#[test]
fn a_server_that_did_not_start_is_tried_again() {
    let mut servers = ProjectServers::new();
    let mut memo = WebRootMemo::new();
    let mut disk =
        Disk { dirs: vec!["/a"], files: vec!["/a/Music/index.html"], ..Disk::default() };
    assert_eq!(address(&mut servers, &mut memo, "music", &mut disk, None), (None, true));
    assert_eq!(
        address(&mut servers, &mut memo, "music", &mut disk, Some(9)),
        (Some("http://127.0.0.1:9/".to_string()), true)
    );
}

#[test]
fn a_tool_without_a_site_has_no_address() {
    let mut servers = ProjectServers::new();
    let mut memo = WebRootMemo::new();
    let mut disk = Disk::default();
    assert_eq!(address(&mut servers, &mut memo, "music", &mut disk, Some(9)), (None, false));
    assert_eq!(servers.port_of("music"), None);
}

#[test]
fn addresses_hold_the_port() {
    assert_eq!(url_for_port(0), "http://127.0.0.1:0/");
    assert_eq!(url_for_port(3737), "http://127.0.0.1:3737/");
    assert_eq!(url_for_port(65535), "http://127.0.0.1:65535/");
}

#[test]
fn the_tools_are_served_from_the_start_only_once() {
    let mut started = false;
    assert_eq!(
        ensure_dx_preview_server_running(&mut started),
        [
            "design",
            "graphics",
            "presentations",
            "spreadsheets",
            "video",
            "music",
            "whiteboard",
            "3d",
            "shader",
            "dx-web",
        ]
    );
    assert!(started);
    assert!(ensure_dx_preview_server_running(&mut started).is_empty());
    assert!(started);
}
