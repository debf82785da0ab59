//! The servers that have been started for the tools, and the addresses they are reached at.
use crate::facts::Answer;
use crate::facts::Facts;
use crate::facts::FactsView;
use crate::facts::Question;
use crate::facts::QuestionView;
use crate::facts::Verdict;
use crate::place::Place;
use crate::place::PlaceView;
use crate::projects;
use crate::roots::Surroundings;
use crate::roots::SurroundingsView;
use crate::roots::WebRootMemo;
use crate::text;
use vstd::hash_map::StringHashMap;
use vstd::prelude::*;

verus! {

/// The port on which each tool is served.
pub struct ProjectServers {
    ports: StringHashMap<u16>,
}

impl View for ProjectServers {
    type V = Map<Seq<char>, u16>;

    closed spec fn view(&self) -> Map<Seq<char>, u16> {
        self.ports@
    }
}

/// The address of a server on a port of this machine.
pub open spec fn preview_url(port: u16) -> Seq<char> {
    "http://127.0.0.1:"@ + text::decimal(port as nat) + "/"@
}

/// The address of a server on a port of this machine.
pub fn url_for_port(port: u16) -> (url: String)
    ensures
        url@ == preview_url(port),
{
    let mut url = "http://127.0.0.1:".to_owned();
    let digits = text::decimal_text(port);
    url.append(digits.as_str());
    url.append("/");
    url
}

impl ProjectServers {
    /// No tool is served.
    pub fn new() -> (servers: ProjectServers)
        ensures
            servers@ == Map::<Seq<char>, u16>::empty(),
    {
        ProjectServers { ports: StringHashMap::new() }
    }

    /// The port on which a tool is served.
    pub fn port_of(&self, tool_id: &str) -> (port: Option<u16>)
        ensures
            port == if self@.contains_key(tool_id@) {
                Some(self@[tool_id@])
            } else {
                None
            },
    {
        match self.ports.get(tool_id) {
            Some(port) => Some(*port),
            None => None,
        }
    }

    /// Enters the port on which a tool is served.
    pub fn insert(&mut self, tool_id: &str, port: u16)
        ensures
            final(self)@ == old(self)@.insert(tool_id@, port),
    {
        self.ports.insert(tool_id.to_owned(), port);
    }
}

/// What is to be done next for the address of a tool.
#[derive(Debug)]
pub enum PreviewStep {
    /// This is the address, or there is none.
    Done(Option<String>),
    /// Find this out.
    Ask(Question),
    /// Start a server for the site at this place, and say how that went to
    /// [`finish_preview_start`].
    Start(Place),
}

/// What is to be done next, over views.
pub enum PreviewStepView {
    Done(Option<Seq<char>>),
    Ask(QuestionView),
    Start(PlaceView),
}

impl DeepView for PreviewStep {
    type V = PreviewStepView;

    open spec fn deep_view(&self) -> PreviewStepView {
        match self {
            PreviewStep::Done(url) => PreviewStepView::Done(url.deep_view()),
            PreviewStep::Ask(question) => PreviewStepView::Ask(question.deep_view()),
            PreviewStep::Start(site) => PreviewStepView::Start(site@),
        }
    }
}

/// What is to be done next for the address of a tool: nothing if it is served already, else to
/// find its site and to start a server for it.
pub open spec fn preview_step(
    servers: Map<Seq<char>, u16>,
    tool: Seq<char>,
    memo: Option<Option<PlaceView>>,
    s: SurroundingsView,
    f: FactsView,
) -> PreviewStepView {
    if servers.contains_key(tool) {
        PreviewStepView::Done(Some(preview_url(servers[tool])))
    } else {
        match projects::output_dir(memo, f, s, tool) {
            Verdict::Ask(question) => PreviewStepView::Ask(question),
            Verdict::Known(None) => PreviewStepView::Done(None),
            Verdict::Known(Some(site)) => PreviewStepView::Start(site),
        }
    }
}

/// The servers once it is known on which port a new one listens, if it started.
pub open spec fn servers_after_start(
    servers: Map<Seq<char>, u16>,
    tool: Seq<char>,
    port: Option<u16>,
) -> Map<Seq<char>, u16> {
    match port {
        Some(port) => servers.insert(tool, port),
        None => servers,
    }
}

/// The address of a tool, or what is to be done to get it.
pub fn local_preview_url(
    servers: &ProjectServers,
    tool_id: &str,
    memo: &mut WebRootMemo,
    surroundings: &Surroundings,
    known: &Facts,
) -> (step: PreviewStep)
    ensures
        step.deep_view() == preview_step(servers@, tool_id@, old(memo)@, surroundings@, known@),
        final(memo)@ == if servers@.contains_key(tool_id@) {
            old(memo)@
        } else {
            projects::memo_after_output(old(memo)@, known@, surroundings@, tool_id@)
        },
{
    if let Some(port) = servers.port_of(tool_id) {
        return PreviewStep::Done(Some(url_for_port(port)));
    }
    match projects::project_output_dir(tool_id, memo, surroundings, known) {
        Answer::Ask(question) => PreviewStep::Ask(question),
        Answer::Known(None) => PreviewStep::Done(None),
        Answer::Known(Some(site)) => PreviewStep::Start(site),
    }
}

/// Enters a server that was started, and gives its address. One that did not start has none.
pub fn finish_preview_start(servers: &mut ProjectServers, tool_id: &str, port: Option<u16>) -> (url:
    Option<String>)
    ensures
        final(servers)@ == servers_after_start(old(servers)@, tool_id@, port),
        url.deep_view() == match port {
            Some(port) => Some(preview_url(port)),
            None => None,
        },
{
    match port {
        Some(port) => {
            servers.insert(tool_id, port);
            Some(url_for_port(port))
        },
        None => None,
    }
}

/// The tools that are served from the start.
pub open spec fn tools_served_from_start() -> Seq<Seq<char>> {
    seq![
        "design"@,
        "graphics"@,
        "presentations"@,
        "spreadsheets"@,
        "video"@,
        "music"@,
        "whiteboard"@,
        "3d"@,
        "shader"@,
        "dx-web"@,
    ]
}

/// The tools whose addresses are to be asked for now: all of them the first time, none later.
pub fn ensure_dx_preview_server_running(started: &mut bool) -> (ids: Vec<&'static str>)
    ensures
        *final(started),
        ids.deep_view() == if *old(started) {
            Seq::<Seq<char>>::empty()
        } else {
            tools_served_from_start()
        },
{
    let mut ids: Vec<&'static str> = Vec::new();
    if !*started {
        *started = true;
        ids.push("design");
        ids.push("graphics");
        ids.push("presentations");
        ids.push("spreadsheets");
        ids.push("video");
        ids.push("music");
        ids.push("whiteboard");
        ids.push("3d");
        ids.push("shader");
        ids.push("dx-web");
        assert(ids.deep_view() =~= tools_served_from_start());
    }
    ids
}

/// A tool is served once: after its server started, its address is given at once, whatever has
/// changed since, and it is the address given when the server started.
pub proof fn law_started_tool_is_served(
    servers: Map<Seq<char>, u16>,
    tool: Seq<char>,
    port: u16,
    memo: Option<Option<PlaceView>>,
    s: SurroundingsView,
    f: FactsView,
)
    ensures
        preview_step(servers_after_start(servers, tool, Some(port)), tool, memo, s, f)
            == PreviewStepView::Done(Some(preview_url(port))),
{
}

/// Starting a server for one tool changes nothing for another.
pub proof fn law_other_tools_are_not_touched(
    servers: Map<Seq<char>, u16>,
    tool: Seq<char>,
    other: Seq<char>,
    port: Option<u16>,
    memo: Option<Option<PlaceView>>,
    s: SurroundingsView,
    f: FactsView,
)
    requires
        tool != other,
    ensures
        preview_step(servers_after_start(servers, tool, port), other, memo, s, f) == preview_step(
            servers,
            other,
            memo,
            s,
            f,
        ),
{
}

/// A server that did not start leaves no trace: the next request tries again.
pub proof fn law_failed_start_is_tried_again(
    servers: Map<Seq<char>, u16>,
    tool: Seq<char>,
    memo: Option<Option<PlaceView>>,
    s: SurroundingsView,
    f: FactsView,
)
    ensures
        preview_step(servers_after_start(servers, tool, None), tool, memo, s, f) == preview_step(
            servers,
            tool,
            memo,
            s,
            f,
        ),
{
}

/// A server is started only for a site whose page is known to be there.
pub proof fn law_started_site_has_a_page(
    servers: Map<Seq<char>, u16>,
    tool: Seq<char>,
    memo: Option<Option<PlaceView>>,
    s: SurroundingsView,
    f: FactsView,
)
    ensures
        preview_step(servers, tool, memo, s, f) matches PreviewStepView::Start(site) ==> f.file(
            site.join("index.html"@),
        ) == Verdict::Known(true),
{
    projects::law_site_has_a_page(memo, f, s, tool);
}

/// Two ports never share an address.
pub proof fn law_addresses_tell_ports_apart(a: u16, b: u16)
    requires
        preview_url(a) == preview_url(b),
    ensures
        a == b,
{
    let front = "http://127.0.0.1:"@;
    let da = text::decimal(a as nat);
    let db = text::decimal(b as nat);
    reveal_strlit("/");
    let n = front.len() as int;
    assert(preview_url(a).len() == n + da.len() + 1);
    assert(preview_url(b).len() == n + db.len() + 1);
    assert(preview_url(a).subrange(n, n + da.len()) =~= da);
    assert(preview_url(b).subrange(n, n + db.len()) =~= db);
    text::law_decimal_reads_back(a as nat);
    text::law_decimal_reads_back(b as nat);
}

/// The address is that of this machine, with the port in decimal digits: they hold no other
/// character, no zero in front unless the port is zero, and their value is the port.
pub proof fn law_address_holds_the_port_in_digits(port: u16, digits: Seq<char>)
    requires
        preview_url(port) == "http://127.0.0.1:"@ + digits + "/"@,
    ensures
        preview_url(port) == "http://127.0.0.1:"@ + text::decimal(port as nat) + "/"@,
        digits.len() >= 1,
        forall|i: int| 0 <= i < digits.len() ==> '0' <= #[trigger] digits[i] <= '9',
        digits[0] == '0' ==> port == 0 && digits.len() == 1,
        text::decimal_value(digits) == port,
{
    let front = "http://127.0.0.1:"@;
    let own = text::decimal(port as nat);
    let n = front.len() as int;
    text::law_decimal_is_written_in_digits(port as nat);
    text::law_decimal_reads_back(port as nat);
    reveal_strlit("/");
    assert(preview_url(port).len() == n + own.len() + 1);
    assert((front + digits + "/"@).len() == n + digits.len() + 1);
    assert(preview_url(port).subrange(n, n + own.len()) =~= own);
    assert((front + digits + "/"@).subrange(n, n + digits.len()) =~= digits);
}

/// The address begins and ends as it should.
pub proof fn law_address_is_of_this_machine(port: u16)
    ensures
        "http://127.0.0.1:"@.is_prefix_of(preview_url(port)),
        preview_url(port).len() > "http://127.0.0.1:"@.len() + 1,
        preview_url(port).last() == '/',
{
    reveal_strlit("/");
    let front = "http://127.0.0.1:"@;
    text::law_decimal_is_written_in_digits(port as nat);
    assert(front =~= preview_url(port).subrange(0, front.len() as int));
}

/// What is done for an address. A tool that is served has the address of its port at once. For
/// another its site is looked for: a server is started for a site, and without one there is no
/// address.
pub proof fn law_address_of_a_tool(
    servers: Map<Seq<char>, u16>,
    tool: Seq<char>,
    memo: Option<Option<PlaceView>>,
    s: SurroundingsView,
    f: FactsView,
)
    ensures
        servers.contains_key(tool) ==> preview_step(servers, tool, memo, s, f)
            == PreviewStepView::Done(
            Some("http://127.0.0.1:"@ + text::decimal(servers[tool] as nat) + "/"@),
        ),
        !servers.contains_key(tool) ==> match projects::output_dir(memo, f, s, tool) {
            Verdict::Known(Some(site)) => preview_step(servers, tool, memo, s, f)
                == PreviewStepView::Start(site),
            Verdict::Known(None) => preview_step(servers, tool, memo, s, f)
                == PreviewStepView::Done(None),
            Verdict::Ask(question) => preview_step(servers, tool, memo, s, f)
                == PreviewStepView::Ask(question),
        },
{
}

/// A server that started is entered under its tool, with its port, and no other entry changes. One
/// that did not start changes nothing.
pub proof fn law_started_server_is_entered(
    servers: Map<Seq<char>, u16>,
    tool: Seq<char>,
    other: Seq<char>,
    port: u16,
)
    ensures
        servers_after_start(servers, tool, None) == servers,
        servers_after_start(servers, tool, Some(port)).contains_key(tool),
        servers_after_start(servers, tool, Some(port))[tool] == port,
        other != tool ==> servers_after_start(servers, tool, Some(port)).contains_key(other)
            == servers.contains_key(other) && servers_after_start(servers, tool, Some(port))[other]
            == servers[other],
{
}

/// The tools served from the start are these ten, in this order.
pub proof fn law_tools_served_from_start_are_ten()
    ensures
        tools_served_from_start().len() == 10,
        tools_served_from_start()[0] == "design"@,
        tools_served_from_start()[1] == "graphics"@,
        tools_served_from_start()[2] == "presentations"@,
        tools_served_from_start()[3] == "spreadsheets"@,
        tools_served_from_start()[4] == "video"@,
        tools_served_from_start()[5] == "music"@,
        tools_served_from_start()[6] == "whiteboard"@,
        tools_served_from_start()[7] == "3d"@,
        tools_served_from_start()[8] == "shader"@,
        tools_served_from_start()[9] == "dx-web"@,
{
}

/// The view of a step holds all of it.
pub proof fn law_view_holds_the_whole_step(url: String, question: Question, site: Place)
    ensures
        PreviewStep::Done(None).deep_view() == PreviewStepView::Done(None),
        PreviewStep::Done(Some(url)).deep_view() == PreviewStepView::Done(Some(url@)),
        PreviewStep::Ask(question).deep_view() == PreviewStepView::Ask(question.deep_view()),
        PreviewStep::Start(site).deep_view() == PreviewStepView::Start(site@),
{
}

} // verus!
