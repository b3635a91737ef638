//! One tab: its history, the load that is in flight, and its document.
//!
//! The tab decides and keeps state; it loads nothing itself. Each
//! operation that navigates says which load to abort and which to start,
//! and the outcome of a load comes back through [`Tab::check_tasks`].

use vstd::prelude::*;
use vstd::string::StringExecFns;
use crate::browser::network::file::FileStatus;
use crate::browser::network::http::{HttpLoader, HttpLoaderView};
use crate::browser::network::{
    description, dispatch, join_url, joined_url, same_text, url_parts, Body, BodyView, Error,
    ErrorView, Fetch, FetchView, LoadedResource, LoadedResourceView, MultiLoader, Status,
};
use crate::browser::widgets::markdown::events::md_events;
use crate::browser::widgets::markdown::tree::document;
use crate::browser::widgets::markdown::{fresh, MarkdownWidget, MarkdownWidgetView};
use crate::gemtext::{lemma_models_push, models, parse_spec, Block, BlockView, Options};
use crate::gemtext_widget::{GemtextWidget, GemtextWidgetView};
use crate::text::{
    chars_of, decimal, decimal_chars, escape_spaces, escaped_spaces, has_at, lines_of, rows,
    slice_of, split_lines, starts_with, string_of,
};

verus! {

/// The address of the page about this program.
pub const ABOUT_URL: &'static str = "about:egemi";

/// The address of the page about what changed.
pub const CHANGELOG_URL: &'static str = "about:changelog";

/// The page about this program.
pub const WELCOME: &'static str = "# egemi\n\
\n\
A small browser for line-oriented markup, markdown and plain text.\n\
\n\
## How to use it\n\
\n\
* Type an address into the location bar and press enter.\n\
* Follow a link by activating it.\n\
* Go back, go forward or reload with the buttons beside the location bar.\n\
\n\
## Addresses\n\
\n\
=> about:egemi This page\n\
=> about:changelog What changed\n\
\n\
> Pages are fetched over gemini, http, https and from local files.\n";

/// The page about what changed.
pub const CHANGELOG: &'static str = "# Changelog\n\
\n\
## Navigation\n\
\n\
* Going back and forward keeps a history for each tab.\n\
* A new navigation aborts the load that is still in flight.\n\
\n\
## Documents\n\
\n\
* Line-oriented markup, markdown and plain text are shown.\n\
* Other content is offered to an external browser.\n\
\n\
=> about:egemi Back to the start\n";

/// Where the status codes of HTTP are explained.
pub const STATUS_REFERENCE: &'static str =
    "https://developer.mozilla.org/en-US/docs/Web/HTTP/Reference/Status";

/// The mark before an address that goes to an external browser.
pub const EXTERNAL_MARK: &'static str = "browser+";

/// The document of a tab, by the kind of markup that it came from.
#[derive(Debug)]
pub enum Document {
    Gemtext(GemtextWidget),
    Markdown(MarkdownWidget),
}

/// What a [`Document`] stands for.
pub enum DocumentView {
    Gemtext(GemtextWidgetView),
    Markdown(MarkdownWidgetView),
}

impl View for Document {
    type V = DocumentView;

    open spec fn view(&self) -> DocumentView {
        match *self {
            Document::Gemtext(widget) => DocumentView::Gemtext(widget@),
            Document::Markdown(widget) => DocumentView::Markdown(widget@),
        }
    }
}

/// How a load ended.
#[derive(Debug, PartialEq, Eq)]
pub enum Completion {
    /// The loader gave a resource.
    Loaded(LoadedResource),
    /// The loader gave an error.
    Failed(Error),
    /// The load itself broke down, with a description.
    Crashed(String),
}

/// What a [`Completion`] stands for.
pub enum CompletionView {
    Loaded(LoadedResourceView),
    Failed(ErrorView),
    Crashed(Seq<char>),
}

impl View for Completion {
    type V = CompletionView;

    open spec fn view(&self) -> CompletionView {
        match *self {
            Completion::Loaded(resource) => CompletionView::Loaded(resource@),
            Completion::Failed(e) => CompletionView::Failed(e@),
            Completion::Crashed(text) => CompletionView::Crashed(text@),
        }
    }
}

/// The content that a tab shows for a load, before it is parsed.
#[derive(Debug, Clone, PartialEq, Eq)]
pub enum Page {
    /// Line-oriented markup.
    Gemtext(String),
    /// Text that is shown line by line as it is.
    Plain(String),
    Markdown(String),
    /// HTML, which is flattened to markdown outside this library.
    Html(String),
}

/// What a [`Page`] stands for.
pub enum PageView {
    Gemtext(Seq<char>),
    Plain(Seq<char>),
    Markdown(Seq<char>),
    Html(Seq<char>),
}

impl View for Page {
    type V = PageView;

    open spec fn view(&self) -> PageView {
        match *self {
            Page::Gemtext(text) => PageView::Gemtext(text@),
            Page::Plain(text) => PageView::Plain(text@),
            Page::Markdown(text) => PageView::Markdown(text@),
            Page::Html(text) => PageView::Html(text@),
        }
    }
}

/// A load to start.
#[derive(Debug, Clone, PartialEq, Eq)]
pub struct Load {
    /// The number under which the outcome is handed back.
    pub ticket: u64,
    /// The loader to run, or the error that ends the load at once.
    pub fetch: Fetch,
}

/// What a navigation asks of whoever runs the loads.
#[derive(Debug, Clone, PartialEq, Eq)]
pub struct Navigation {
    /// The load to abort: the one that was in flight.
    pub abort: Option<u64>,
    /// The load to start.
    pub start: Option<Load>,
}

/// What a [`Load`] stands for.
pub struct LoadView {
    pub ticket: u64,
    pub fetch: FetchView,
}

/// What a [`Navigation`] stands for.
pub struct NavigationView {
    pub abort: Option<u64>,
    pub start: Option<LoadView>,
}

impl View for Navigation {
    type V = NavigationView;

    open spec fn view(&self) -> NavigationView {
        NavigationView {
            abort: self.abort,
            start: match self.start {
                Some(load) => Some(LoadView { ticket: load.ticket, fetch: load.fetch@ }),
                None => None,
            },
        }
    }
}

/// What is left to do once a load has ended.
#[derive(Debug, Clone, PartialEq, Eq)]
pub enum Followup {
    Nothing,
    /// The HTML is to be flattened to markdown and handed to
    /// [`Tab::render_markdown`].
    FlattenHtml(String),
}

/// What a click on a link comes to.
#[derive(Debug, Clone, PartialEq, Eq)]
pub enum LinkAction {
    /// The address is handed to an external browser.
    OpenExternal(String),
    /// The tab navigates.
    Navigate(Navigation),
}

/// What the tab reports after it was shown.
#[derive(Debug, Clone, Copy, PartialEq, Eq)]
pub struct TabResponse {
    pub toggle_menu: bool,
}

/// A single tab, with its own history and location.
#[derive(Debug)]
pub struct Tab {
    location: String,
    history: Vec<String>,
    forward_history: Vec<String>,
    document: Option<Document>,
    loading: Option<u64>,
    loads: u64,
    loader: MultiLoader,
    errored: bool,
    scroll_to_top: bool,
    toggle_menu: bool,
}

/// Where a tab stands.
#[derive(Debug, Clone, Copy, PartialEq, Eq)]
pub enum State {
    /// Nothing is shown, and nothing is loaded.
    Idle,
    /// A load is in flight.
    Loading,
    /// The document that was asked for is shown.
    Loaded,
    /// A page is shown that stands for a failure.
    Errored,
}

/// What a [`Tab`] stands for.
pub struct TabView {
    /// What stands in the location bar.
    pub location: Seq<char>,
    /// The pages that were visited, the current one last.
    pub history: Seq<Seq<char>>,
    /// The pages that going back has left, the next one last.
    pub forward_history: Seq<Seq<char>>,
    pub document: Option<DocumentView>,
    /// The ticket of the load in flight.
    pub loading: Option<u64>,
    /// The ticket that was given out last.
    pub loads: u64,
    /// Whether the document stands for a failure.
    pub errored: bool,
    /// What the hypertext loader asks for and accepts.
    pub http: HttpLoaderView,
    pub scroll_to_top: bool,
    pub toggle_menu: bool,
}

impl View for Tab {
    type V = TabView;

    closed spec fn view(&self) -> TabView {
        TabView {
            location: self.location@,
            history: crate::text::texts(self.history@),
            forward_history: crate::text::texts(self.forward_history@),
            document: match self.document {
                Some(d) => Some(d@),
                None => None,
            },
            loading: self.loading,
            loads: self.loads,
            errored: self.errored,
            http: self.loader.http@,
            scroll_to_top: self.scroll_to_top,
            toggle_menu: self.toggle_menu,
        }
    }
}

/// The text of a page that is built in, if the address names one.
pub open spec fn builtin_text(url: Seq<char>) -> Option<Seq<char>> {
    if url == ABOUT_URL@ {
        Some(WELCOME@)
    } else if url == CHANGELOG_URL@ {
        Some(CHANGELOG@)
    } else {
        None
    }
}

/// The blocks that a text of line-oriented markup is shown as.
pub open spec fn gemtext_blocks(text: Seq<char>) -> Seq<BlockView> {
    match parse_spec(false, text) {
        Ok(blocks) => blocks,
        Err(e) => seq![
            BlockView::Heading { level: 1, text: "Gemtext Parse Error"@ },
            BlockView::Text(Seq::empty()),
            BlockView::Text(e),
        ],
    }
}

/// The blocks that a plain text is shown as: one for each line.
pub open spec fn plain_blocks(text: Seq<char>) -> Seq<BlockView> {
    lines_of(text).map_values(|line: Seq<char>| BlockView::Text(line))
}

/// A fresh document of line-oriented markup with the given blocks.
pub open spec fn gemtext_document(blocks: Seq<BlockView>) -> DocumentView {
    DocumentView::Gemtext(GemtextWidgetView { blocks, justify: false, link_clicked: None })
}

/// The ticket after `loads`.
pub open spec fn next_ticket(loads: u64) -> u64 {
    if loads == u64::MAX {
        0
    } else {
        (loads + 1) as u64
    }
}

/// The page for an HTTP status that is no success.
pub open spec fn http_status_text(code: u16) -> Seq<char> {
    "## HTTP "@ + decimal(code as nat) + "\n"@ + "\nSee:"@ + "\n=> "@ + STATUS_REFERENCE@
}

/// The page for a file status that is no success.
pub open spec fn file_status_text(status: FileStatus) -> Seq<char> {
    "## "@ + status.text()
}

/// The page for content that is no text, with a link that hands the
/// location to an external browser.
pub open spec fn unsupported_type_text(content_type: Seq<char>, location: Seq<char>) -> Seq<char> {
    "## Unsupported Content-Type\n\n"@ + "Content-Type: "@ + content_type + "\n"@
        + "is not yet supported.\n\n"@ + "=> "@ + EXTERNAL_MARK@ + escaped_spaces(location)
        + " Open in browser?"@
}

/// The page for an error. A response that is too big and a content type
/// that was not asked for have pages of their own; every other error is
/// shown by its description.
pub open spec fn error_text(e: ErrorView, location: Seq<char>) -> Seq<char> {
    match e {
        ErrorView::ResponseTooBig { .. } => "## Response too big\n\n"@ + description(e),
        ErrorView::UnrequestedContentType(m) => {
            "## Unrequested Content-Type\n\n```\nContent-Type: "@ + m.text + "\n```\n"@ + "=> "@
                + EXTERNAL_MARK@ + escaped_spaces(location) + " Open in web browser"@
        },
        _ => description(e),
    }
}

/// The text of a body: bytes are not shown.
pub open spec fn body_text(body: BodyView) -> Seq<char> {
    match body {
        BodyView::Bytes(_) => "binary data"@,
        BodyView::Text(text) => text,
    }
}

/// The page for a resource. A status that is no success is shown by
/// itself, except that of a directory that needs a slash, whose body says
/// what to do. Content that is no text is not shown. Text is shown by its
/// type; without a type it is plain.
pub open spec fn resource_page(resource: LoadedResourceView, location: Seq<char>) -> PageView {
    let status = resource.status;
    if !status.is_success() && status is HttpStatus {
        PageView::Gemtext(http_status_text(status->code))
    } else if !status.is_success() && !(status->0 is DirNeedsSlash) {
        PageView::Gemtext(file_status_text(status->0))
    } else {
        match resource.content_type {
            None => PageView::Plain(body_text(resource.body)),
            Some(content_type) => if content_type.type_ != "text"@ {
                PageView::Gemtext(unsupported_type_text(content_type.text, location))
            } else if content_type.essence == "text/gemini"@ {
                PageView::Gemtext(body_text(resource.body))
            } else if content_type.essence == "text/html"@ {
                PageView::Html(body_text(resource.body))
            } else if content_type.essence == "text/markdown"@ {
                PageView::Markdown(body_text(resource.body))
            } else {
                PageView::Plain(body_text(resource.body))
            },
        }
    }
}

/// Whether the end of a load is a failure: an error, a breakdown, a
/// status that is no success (but for the directory that needs a slash,
/// whose body says what to do), or content that is no text.
pub open spec fn failed(completion: CompletionView) -> bool {
    match completion {
        CompletionView::Loaded(resource) => {
            let status = resource.status;
            if !status.is_success() && !(status is FileStatus && status->0 is DirNeedsSlash) {
                true
            } else {
                resource.content_type matches Some(content_type) && content_type.type_ != "text"@
            }
        },
        CompletionView::Failed(_) => true,
        CompletionView::Crashed(_) => true,
    }
}

/// Where a tab stands.
pub open spec fn state_of(tab: TabView) -> State {
    if tab.loading is Some {
        State::Loading
    } else if tab.document is None {
        State::Idle
    } else if tab.errored {
        State::Errored
    } else {
        State::Loaded
    }
}

/// The page for the end of a load.
pub open spec fn page_for(completion: CompletionView, location: Seq<char>) -> PageView {
    match completion {
        CompletionView::Loaded(resource) => resource_page(resource, location),
        CompletionView::Failed(e) => PageView::Gemtext(error_text(e, location)),
        CompletionView::Crashed(text) => PageView::Gemtext(text),
    }
}

/// The tab once it shows a page. HTML is not shown before it is
/// flattened.
pub open spec fn showing(tab: TabView, page: PageView) -> TabView {
    match page {
        PageView::Gemtext(text) => TabView {
            document: Some(gemtext_document(gemtext_blocks(text))),
            scroll_to_top: true,
            ..tab
        },
        PageView::Plain(text) => TabView {
            document: Some(gemtext_document(plain_blocks(text))),
            scroll_to_top: true,
            ..tab
        },
        PageView::Markdown(text) => TabView {
            document: Some(DocumentView::Markdown(fresh(document(md_events(text, 0))))),
            ..tab
        },
        PageView::Html(_) => tab,
    }
}

/// The forward history once the tab goes to `url`: going where forward
/// leads uses that entry up, and going anywhere else drops them all.
pub open spec fn forward_after(forward: Seq<Seq<char>>, url: Seq<char>) -> Seq<Seq<char>> {
    if forward.len() > 0 && forward.last() == url {
        forward.drop_last()
    } else {
        Seq::empty()
    }
}

/// The tab once it loads `url`: the address joins the history and stands
/// in the location bar, and no earlier load is in flight any more. A
/// built-in page is shown at once; anything else is a new load.
pub open spec fn loading_url(tab: TabView, url: Seq<char>) -> TabView {
    let moved = TabView { history: tab.history.push(url), location: url, loading: None, ..tab };
    match builtin_text(url) {
        Some(text) => showing(TabView { errored: false, ..moved }, PageView::Gemtext(text)),
        None => TabView {
            loading: Some(next_ticket(tab.loads)),
            loads: next_ticket(tab.loads),
            ..moved
        },
    }
}

/// What loading `url` asks for: the load in flight is aborted, and a new
/// one starts unless the page is built in.
pub open spec fn load_request(tab: TabView, url: Seq<char>) -> NavigationView {
    NavigationView {
        abort: tab.loading,
        start: match builtin_text(url) {
            Some(_) => None,
            None => Some(
                LoadView { ticket: next_ticket(tab.loads), fetch: dispatch(url, url_parts(url)) },
            ),
        },
    }
}

/// The tab once it goes to `url`.
pub open spec fn going_to(tab: TabView, url: Seq<char>) -> TabView {
    loading_url(TabView { forward_history: forward_after(tab.forward_history, url), ..tab }, url)
}

/// Whether the tab can go back: the current page is not the only one.
pub open spec fn can_go_back(tab: TabView) -> bool {
    tab.history.len() > 1
}

/// The tab once it goes back: the current page moves to the forward
/// history, and the page before it is loaded anew.
pub open spec fn going_back(tab: TabView) -> TabView {
    if can_go_back(tab) {
        loading_url(
            TabView {
                history: tab.history.drop_last().drop_last(),
                forward_history: tab.forward_history.push(tab.history.last()),
                ..tab
            },
            tab.history[tab.history.len() - 2],
        )
    } else {
        tab
    }
}

/// The tab once it goes forward.
pub open spec fn going_forward(tab: TabView) -> TabView {
    if tab.forward_history.len() > 0 {
        loading_url(
            TabView { forward_history: tab.forward_history.drop_last(), ..tab },
            tab.forward_history.last(),
        )
    } else {
        tab
    }
}

/// The tab once it reloads: the current page is loaded anew, and the
/// forward history stays as it is.
pub open spec fn reloading(tab: TabView) -> TabView {
    if tab.history.len() > 0 {
        loading_url(TabView { history: tab.history.drop_last(), ..tab }, tab.history.last())
    } else {
        tab
    }
}

/// No navigation.
pub open spec fn no_request() -> NavigationView {
    NavigationView { abort: None, start: None }
}

/// The tab once the load with `ticket` has ended. The outcome of a load
/// that is not the one in flight changes nothing.
pub open spec fn completed(tab: TabView, ticket: u64, completion: CompletionView) -> TabView {
    if tab.loading == Some(ticket) {
        showing(
            TabView { loading: None, errored: failed(completion), ..tab },
            page_for(completion, tab.location),
        )
    } else {
        tab
    }
}

/// The address that a link leads to from `location`: the link resolved
/// against the location, or the link itself where that cannot be done.
pub open spec fn link_target(location: Seq<char>, url: Seq<char>) -> Seq<char> {
    match joined_url(location, url) {
        Some(joined) => joined,
        None => url,
    }
}

/// The text of a page that is built in, if the address names one.
pub fn builtin(url: &str) -> (r: Option<&'static str>)
    ensures
        match r {
            Some(text) => builtin_text(url@) == Some(text@),
            None => builtin_text(url@) is None,
        },
{
    if same_text(url, ABOUT_URL) {
        Some(WELCOME)
    } else if same_text(url, CHANGELOG_URL) {
        Some(CHANGELOG)
    } else {
        None
    }
}

/// Parses line-oriented markup for showing.
pub fn gemtext_blocks_of(text: &str) -> (blocks: Vec<Block>)
    ensures
        models(blocks@) == gemtext_blocks(text@),
{
    let parser = Options::default();
    match parser.parse(text) {
        Ok(blocks) => blocks,
        Err(e) => {
            let mut blocks: Vec<Block> = Vec::new();
            let heading = Block::Heading {
                level: 1,
                text: String::from_str("Gemtext Parse Error"),
            };
            let empty = Block::Text(String::new());
            let shown = Block::Text(e);
            proof {
                lemma_models_push(blocks@, heading);
                lemma_models_push(blocks@.push(heading), empty);
                lemma_models_push(blocks@.push(heading).push(empty), shown);
                assert(models(blocks@) =~= Seq::<BlockView>::empty());
            }
            blocks.push(heading);
            blocks.push(empty);
            blocks.push(shown);
            assert(models(blocks@) =~= gemtext_blocks(text@));
            blocks
        },
    }
}

/// Turns a plain text into one block for each line.
pub fn plain_blocks_of(text: &str) -> (blocks: Vec<Block>)
    ensures
        models(blocks@) == plain_blocks(text@),
{
    let chars = chars_of(text);
    let lines = split_lines(chars.as_slice());
    let mut blocks: Vec<Block> = Vec::new();
    let mut i: usize = 0;
    assert(models(blocks@) =~= plain_blocks(text@).take(0));
    while i < lines.len()
        invariant
            i <= lines.len(),
            rows(lines@) == lines_of(text@),
            models(blocks@) == plain_blocks(text@).take(i as int),
        decreases lines.len() - i,
    {
        let block = Block::Text(string_of(lines[i].as_slice()));
        proof {
            lemma_models_push(blocks@, block);
            assert(rows(lines@)[i as int] == lines[i as int]@);
            assert(plain_blocks(text@).take(i + 1) =~= plain_blocks(text@).take(i as int).push(
                block.model(),
            ));
        }
        blocks.push(block);
        i += 1;
    }
    assert(plain_blocks(text@).take(lines.len() as int) == plain_blocks(text@));
    blocks
}

/// The page for an HTTP status that is no success.
fn http_status_page(code: u16) -> (r: String)
    ensures
        r@ == http_status_text(code),
{
    let mut out = String::from_str("## HTTP ");
    let digits = decimal_chars(code as u64);
    out.append(string_of(digits.as_slice()).as_str());
    out.append("\n");
    out.append("\nSee:");
    out.append("\n=> ");
    out.append(STATUS_REFERENCE);
    out
}

/// The page for content that is no text.
fn unsupported_type_page(content_type: &str, location: &str) -> (r: String)
    ensures
        r@ == unsupported_type_text(content_type@, location@),
{
    let mut out = String::from_str("## Unsupported Content-Type\n\n");
    out.append("Content-Type: ");
    out.append(content_type);
    out.append("\n");
    out.append("is not yet supported.\n\n");
    out.append("=> ");
    out.append(EXTERNAL_MARK);
    out.append(escape_spaces(location).as_str());
    out.append(" Open in browser?");
    out
}

/// The page for an error.
pub fn error_page(err: &Error, location: &str) -> (r: String)
    ensures
        r@ == error_text(err@, location@),
{
    match err {
        Error::ResponseTooBig { .. } => {
            let mut out = String::from_str("## Response too big\n\n");
            out.append(err.to_text().as_str());
            out
        },
        Error::UnrequestedContentType(m) => {
            let mut out = String::from_str("## Unrequested Content-Type\n\n```\nContent-Type: ");
            out.append(m.text.as_str());
            out.append("\n```\n");
            out.append("=> ");
            out.append(EXTERNAL_MARK);
            out.append(escape_spaces(location).as_str());
            out.append(" Open in web browser");
            out
        },
        _ => err.to_text(),
    }
}

/// The text of a body.
fn text_of_body(body: Body) -> (r: String)
    ensures
        r@ == body_text(body@),
{
    match body {
        Body::Bytes(_) => String::from_str("binary data"),
        Body::Text(text) => text,
    }
}

/// The page for a resource.
pub fn page_of_resource(loaded: LoadedResource, location: &str) -> (r: Page)
    ensures
        r@ == resource_page(loaded@, location@),
{
    if !loaded.status.ok() {
        match loaded.status {
            Status::HttpStatus { code } => {
                return Page::Gemtext(http_status_page(code));
            },
            Status::FileStatus(FileStatus::DirNeedsSlash) => {},
            Status::FileStatus(status) => {
                let mut out = String::from_str("## ");
                out.append(status.to_text().as_str());
                return Page::Gemtext(out);
            },
        }
    }
    match loaded.content_type {
        None => Page::Plain(text_of_body(loaded.body)),
        Some(content_type) => {
            if !same_text(content_type.type_.as_str(), "text") {
                Page::Gemtext(unsupported_type_page(content_type.text.as_str(), location))
            } else if same_text(content_type.essence.as_str(), "text/gemini") {
                Page::Gemtext(text_of_body(loaded.body))
            } else if same_text(content_type.essence.as_str(), "text/html") {
                Page::Html(text_of_body(loaded.body))
            } else if same_text(content_type.essence.as_str(), "text/markdown") {
                Page::Markdown(text_of_body(loaded.body))
            } else {
                Page::Plain(text_of_body(loaded.body))
            }
        },
    }
}

/// Tells whether the end of a load is a failure.
pub fn is_failure(completion: &Completion) -> (r: bool)
    ensures
        r == failed(completion@),
{
    match completion {
        Completion::Loaded(loaded) => {
            if !loaded.status.ok() && !matches!(
                loaded.status,
                Status::FileStatus(FileStatus::DirNeedsSlash)
            ) {
                return true;
            }
            match &loaded.content_type {
                Some(content_type) => !same_text(content_type.type_.as_str(), "text"),
                None => false,
            }
        },
        Completion::Failed(_) => true,
        Completion::Crashed(_) => true,
    }
}

/// The page for the end of a load.
pub fn page_of(completion: Completion, location: &str) -> (r: Page)
    ensures
        r@ == page_for(completion@, location@),
{
    match completion {
        Completion::Loaded(loaded) => page_of_resource(loaded, location),
        Completion::Failed(err) => Page::Gemtext(error_page(&err, location)),
        Completion::Crashed(text) => Page::Gemtext(text),
    }
}

impl Default for Tab {
    fn default() -> (r: Self)
        ensures
            r@ == Tab::blank(),
    {
        let r = Tab {
            location: String::new(),
            history: Vec::new(),
            forward_history: Vec::new(),
            document: None,
            loading: None,
            loads: 0,
            loader: MultiLoader::default(),
            errored: false,
            scroll_to_top: false,
            toggle_menu: false,
        };
        assert(r@.history =~= Seq::<Seq<char>>::empty());
        assert(r@.forward_history =~= Seq::<Seq<char>>::empty());
        r
    }
}

impl Tab {
    /// A tab that has been nowhere.
    pub open spec fn blank() -> TabView {
        TabView {
            location: Seq::empty(),
            history: Seq::empty(),
            forward_history: Seq::empty(),
            document: None,
            loading: None,
            loads: 0,
            errored: false,
            http: HttpLoader::standard(),
            scroll_to_top: false,
            toggle_menu: false,
        }
    }

    /// A tab with the location and the histories of an earlier session.
    pub fn restore(location: String, history: Vec<String>, forward_history: Vec<String>) -> (r:
        Self)
        ensures
            r@ == (TabView {
                location: location@,
                history: crate::text::texts(history@),
                forward_history: crate::text::texts(forward_history@),
                ..Tab::blank()
            }),
    {
        Tab {
            location,
            history,
            forward_history,
            document: None,
            loading: None,
            loads: 0,
            loader: MultiLoader::default(),
            errored: false,
            scroll_to_top: false,
            toggle_menu: false,
        }
    }

    /// What stands in the location bar.
    pub fn location(&self) -> (r: &String)
        ensures
            r@ == self@.location,
    {
        &self.location
    }

    /// Replaces what stands in the location bar.
    pub fn set_location(&mut self, location: String)
        ensures
            final(self)@ == (TabView { location: location@, ..old(self)@ }),
    {
        self.location = location;
    }

    /// The pages that were visited, the current one last.
    pub fn history(&self) -> (r: &Vec<String>)
        ensures
            crate::text::texts(r@) == self@.history,
    {
        &self.history
    }

    /// The pages that going back has left, the next one last.
    pub fn forward_history(&self) -> (r: &Vec<String>)
        ensures
            crate::text::texts(r@) == self@.forward_history,
    {
        &self.forward_history
    }

    /// The document of the tab.
    pub fn document(&self) -> (r: &Option<Document>)
        ensures
            match *r {
                Some(d) => self@.document == Some(d@),
                None => self@.document is None,
            },
    {
        &self.document
    }

    /// Takes the document out of the tab, to show it; it is put back with
    /// [`Tab::put_document`].
    pub fn take_document(&mut self) -> (r: Option<Document>)
        ensures
            match r {
                Some(d) => old(self)@.document == Some(d@),
                None => old(self)@.document is None,
            },
            final(self)@ == (TabView { document: None, ..old(self)@ }),
    {
        self.document.take()
    }

    /// Puts a document into the tab.
    pub fn put_document(&mut self, document: Option<Document>)
        ensures
            final(self)@ == (TabView {
                document: match document {
                    Some(d) => Some(d@),
                    None => None,
                },
                ..old(self)@
            }),
    {
        self.document = document;
    }

    /// The loaders of the tab.
    pub fn loader(&self) -> (r: &MultiLoader)
        ensures
            r.http@ == self@.http,
    {
        &self.loader
    }

    /// Whether a load is in flight.
    pub fn is_loading(&self) -> (r: bool)
        ensures
            r == self@.loading is Some,
    {
        self.loading.is_some()
    }

    /// The ticket of the load in flight.
    pub fn loading(&self) -> (r: Option<u64>)
        ensures
            r == self@.loading,
    {
        self.loading
    }

    /// Tells whether the tab can go back.
    pub fn can_go_back(&self) -> (r: bool)
        ensures
            r == can_go_back(self@),
    {
        self.history.len() > 1
    }

    /// Tells whether the tab can go forward.
    pub fn can_go_forward(&self) -> (r: bool)
        ensures
            r == (self@.forward_history.len() > 0),
    {
        self.forward_history.len() > 0
    }

    /// Puts the current page back into the location bar, as when what was
    /// typed there is given up.
    pub fn reset_location(&mut self)
        ensures
            final(self)@ == (if old(self)@.history.len() > 0 {
                TabView { location: old(self)@.history.last(), ..old(self)@ }
            } else {
                old(self)@
            }),
    {
        if let Some(url) = self.history.last() {
            self.location = url.clone();
        }
    }

    /// Asks for the menu to be toggled when the tab is shown next.
    pub fn request_menu(&mut self)
        ensures
            final(self)@ == (TabView { toggle_menu: true, ..old(self)@ }),
    {
        self.toggle_menu = true;
    }

    /// Says what the tab has to report, and forgets it.
    pub fn show(&mut self) -> (r: TabResponse)
        ensures
            r.toggle_menu == old(self)@.toggle_menu,
            final(self)@ == (TabView { toggle_menu: false, ..old(self)@ }),
    {
        let toggle_menu = self.toggle_menu;
        self.toggle_menu = false;
        TabResponse { toggle_menu }
    }

    /// Says whether the view is to scroll to the top, and forgets it.
    pub fn take_scroll_to_top(&mut self) -> (r: bool)
        ensures
            r == old(self)@.scroll_to_top,
            final(self)@ == (TabView { scroll_to_top: false, ..old(self)@ }),
    {
        let scroll = self.scroll_to_top;
        self.scroll_to_top = false;
        scroll
    }

    /// The location with its spaces escaped.
    pub fn encoded_location(&self) -> (r: String)
        ensures
            r@ == escaped_spaces(self@.location),
    {
        escape_spaces(self.location.as_str())
    }

    /// Goes to an address that was typed or given: a fresh navigation,
    /// unless the address is the one that going forward would lead to.
    pub fn goto_url(&mut self, url: String) -> (r: Navigation)
        ensures
            final(self)@ == going_to(old(self)@, url@),
            r@ == load_request(old(self)@, url@),
    {
        let matches = match self.forward_history.last() {
            Some(next) => same_text(next.as_str(), url.as_str()),
            None => false,
        };
        proof {
            let forward = crate::text::texts(self.forward_history@);
            if forward.len() > 0 {
                assert(forward.last() == self.forward_history@.last()@);
            }
        }
        if matches {
            let ghost before = crate::text::texts(self.forward_history@);
            self.forward_history.pop();
            assert(crate::text::texts(self.forward_history@) =~= before.drop_last());
        } else {
            self.forward_history.clear();
            assert(crate::text::texts(self.forward_history@) =~= Seq::<Seq<char>>::empty());
        }
        self.load_url(url)
    }

    /// Loads an address and leaves the forward history as it is.
    fn load_url(&mut self, url: String) -> (r: Navigation)
        ensures
            final(self)@ == loading_url(old(self)@, url@),
            r@ == load_request(old(self)@, url@),
    {
        let abort = self.loading.take();
        let ghost before = crate::text::texts(self.history@);
        self.history.push(url.clone());
        assert(crate::text::texts(self.history@) =~= before.push(url@));
        self.location = url.clone();
        match builtin(url.as_str()) {
            Some(text) => {
                self.errored = false;
                self.set_gemtext(text);
                Navigation { abort, start: None }
            },
            None => {
                let ticket: u64 = if self.loads == u64::MAX {
                    0
                } else {
                    self.loads + 1
                };
                self.loads = ticket;
                self.loading = Some(ticket);
                let fetch = self.loader.fetch(url);
                Navigation { abort, start: Some(Load { ticket, fetch }) }
            },
        }
    }

    /// Follows a link of the document. An address behind the mark for
    /// external browsers is handed out; any other is resolved against the
    /// location and gone to.
    pub fn link_clicked(&mut self, url: String) -> (r: LinkAction)
        ensures
            match r {
                LinkAction::OpenExternal(rest) => {
                    &&& has_at(url@, 0, EXTERNAL_MARK@)
                    &&& rest@ == url@.subrange(EXTERNAL_MARK@.len() as int, url@.len() as int)
                    &&& final(self)@ == old(self)@
                },
                LinkAction::Navigate(navigation) => {
                    &&& !has_at(url@, 0, EXTERNAL_MARK@)
                    &&& final(self)@ == going_to(old(self)@, link_target(old(self)@.location, url@))
                    &&& navigation@ == load_request(
                        old(self)@,
                        link_target(old(self)@.location, url@),
                    )
                },
            },
    {
        let chars = chars_of(url.as_str());
        let mark = chars_of(EXTERNAL_MARK);
        if starts_with(chars.as_slice(), mark.as_slice()) {
            let rest = slice_of(chars.as_slice(), mark.len(), chars.len());
            return LinkAction::OpenExternal(string_of(rest.as_slice()));
        }
        match join_url(self.location.as_str(), url.as_str()) {
            Some(joined) => LinkAction::Navigate(self.goto_url(joined)),
            None => LinkAction::Navigate(self.goto_url(url)),
        }
    }

    /// Goes back one page. Nothing happens where the current page is the
    /// only one.
    pub fn go_back(&mut self) -> (r: Navigation)
        ensures
            final(self)@ == going_back(old(self)@),
            r@ == (if can_go_back(old(self)@) {
                load_request(old(self)@, old(self)@.history[old(self)@.history.len() - 2])
            } else {
                no_request()
            }),
    {
        if self.history.len() <= 1 {
            return Navigation { abort: None, start: None };
        }
        let ghost history = crate::text::texts(self.history@);
        let ghost forward = crate::text::texts(self.forward_history@);
        match self.history.pop() {
            Some(current) => {
                self.forward_history.push(current);
                assert(crate::text::texts(self.forward_history@) =~= forward.push(
                    history.last(),
                ));
            },
            None => {},
        }
        match self.history.pop() {
            Some(url) => {
                assert(crate::text::texts(self.history@) =~= history.drop_last().drop_last());
                assert(url@ == history[history.len() - 2]);
                self.load_url(url)
            },
            None => Navigation { abort: None, start: None },
        }
    }

    /// Goes forward one page. Nothing happens where going back has left
    /// none.
    pub fn go_forward(&mut self) -> (r: Navigation)
        ensures
            final(self)@ == going_forward(old(self)@),
            r@ == (if old(self)@.forward_history.len() > 0 {
                load_request(old(self)@, old(self)@.forward_history.last())
            } else {
                no_request()
            }),
    {
        let ghost forward = crate::text::texts(self.forward_history@);
        match self.forward_history.pop() {
            Some(next) => {
                assert(crate::text::texts(self.forward_history@) =~= forward.drop_last());
                assert(next@ == forward.last());
                self.load_url(next)
            },
            None => {
                assert(forward.len() == 0);
                Navigation { abort: None, start: None }
            },
        }
    }

    /// Loads the current page again. The histories stay as they are.
    pub fn reload(&mut self) -> (r: Navigation)
        ensures
            final(self)@ == reloading(old(self)@),
            r@ == (if old(self)@.history.len() > 0 {
                load_request(old(self)@, old(self)@.history.last())
            } else {
                no_request()
            }),
    {
        let ghost history = crate::text::texts(self.history@);
        match self.history.pop() {
            Some(url) => {
                assert(crate::text::texts(self.history@) =~= history.drop_last());
                assert(url@ == history.last());
                self.load_url(url)
            },
            None => {
                assert(history.len() == 0);
                Navigation { abort: None, start: None }
            },
        }
    }

    /// Shows a text of line-oriented markup.
    pub fn set_gemtext(&mut self, text: &str)
        ensures
            final(self)@ == showing(old(self)@, PageView::Gemtext(text@)),
    {
        let blocks = gemtext_blocks_of(text);
        let mut new_doc = GemtextWidget::default();
        new_doc.set_blocks(blocks);
        self.document = Some(Document::Gemtext(new_doc));
        self.scroll_to_top = true;
    }

    /// Shows a plain text, line by line.
    pub fn set_plaintext(&mut self, text: &str)
        ensures
            final(self)@ == showing(old(self)@, PageView::Plain(text@)),
    {
        let blocks = plain_blocks_of(text);
        let mut new_doc = GemtextWidget::default();
        new_doc.set_blocks(blocks);
        self.document = Some(Document::Gemtext(new_doc));
        self.scroll_to_top = true;
    }

    /// Shows a text of markdown.
    pub fn render_markdown(&mut self, body: &str)
        ensures
            final(self)@ == showing(old(self)@, PageView::Markdown(body@)),
    {
        let new_doc = MarkdownWidget::for_md(body);
        self.document = Some(Document::Markdown(new_doc));
    }

    /// Shows the page for an error.
    pub fn render_err(&mut self, err: Error)
        ensures
            final(self)@ == showing(
                TabView { errored: true, ..old(self)@ },
                PageView::Gemtext(error_text(err@, old(self)@.location)),
            ),
    {
        let text = error_page(&err, self.location.as_str());
        self.errored = true;
        self.set_gemtext(text.as_str());
    }

    /// Says where the tab stands.
    pub fn state(&self) -> (r: State)
        ensures
            r == state_of(self@),
    {
        if self.loading.is_some() {
            State::Loading
        } else if self.document.is_none() {
            State::Idle
        } else if self.errored {
            State::Errored
        } else {
            State::Loaded
        }
    }

    /// Takes in the end of the load with `ticket`. Only the load in
    /// flight counts: the end of any other changes nothing. HTML is
    /// handed back for flattening; everything else is shown.
    pub fn check_tasks(&mut self, ticket: u64, completion: Completion) -> (r: Followup)
        ensures
            final(self)@ == completed(old(self)@, ticket, completion@),
            match r {
                Followup::FlattenHtml(html) => old(self)@.loading == Some(ticket) && page_for(
                    completion@,
                    old(self)@.location,
                ) == PageView::Html(html@),
                Followup::Nothing => !(old(self)@.loading == Some(ticket) && page_for(
                    completion@,
                    old(self)@.location,
                ) is Html),
            },
    {
        match self.loading {
            Some(current) => {
                if current != ticket {
                    return Followup::Nothing;
                }
            },
            None => {
                return Followup::Nothing;
            },
        }
        self.loading = None;
        self.errored = is_failure(&completion);
        match page_of(completion, self.location.as_str()) {
            Page::Gemtext(text) => {
                self.set_gemtext(text.as_str());
                Followup::Nothing
            },
            Page::Plain(text) => {
                self.set_plaintext(text.as_str());
                Followup::Nothing
            },
            Page::Markdown(text) => {
                self.render_markdown(text.as_str());
                Followup::Nothing
            },
            Page::Html(html) => Followup::FlattenHtml(html),
        }
    }
}

/// What holds of every tab: where going forward leads somewhere, there
/// is a current page, and the load in flight has the ticket that was
/// given out last.
pub open spec fn coherent(tab: TabView) -> bool {
    &&& tab.forward_history.len() > 0 ==> tab.history.len() > 0
    &&& tab.loading matches Some(ticket) ==> ticket == tab.loads
}

/// A tab that has been nowhere is coherent.
pub proof fn lemma_blank_is_coherent()
    ensures
        coherent(Tab::blank()),
{
}

/// Going to an address keeps a tab coherent.
pub proof fn lemma_going_to_keeps_coherent(tab: TabView, url: Seq<char>)
    requires
        coherent(tab),
    ensures
        coherent(going_to(tab, url)),
{
}

/// Going back keeps a tab coherent.
pub proof fn lemma_going_back_keeps_coherent(tab: TabView)
    requires
        coherent(tab),
    ensures
        coherent(going_back(tab)),
{
}

/// Going forward keeps a tab coherent.
pub proof fn lemma_going_forward_keeps_coherent(tab: TabView)
    requires
        coherent(tab),
    ensures
        coherent(going_forward(tab)),
{
}

/// Reloading keeps a tab coherent.
pub proof fn lemma_reloading_keeps_coherent(tab: TabView)
    requires
        coherent(tab),
    ensures
        coherent(reloading(tab)),
{
}

/// The end of a load keeps a tab coherent.
pub proof fn lemma_completed_keeps_coherent(tab: TabView, ticket: u64, completion: CompletionView)
    requires
        coherent(tab),
    ensures
        coherent(completed(tab, ticket, completion)),
{
}

/// Going to an address puts it last in the history and into the location
/// bar, and leaves of the forward history at most what lay under that
/// address.
pub proof fn lemma_going_to_moves(tab: TabView, url: Seq<char>)
    ensures
        going_to(tab, url).history == tab.history.push(url),
        going_to(tab, url).location == url,
        going_to(tab, url).forward_history == forward_after(tab.forward_history, url),
        tab.forward_history.len() == 0 ==> going_to(tab, url).forward_history.len() == 0,
{
}

/// Going back from a page that was gone to leads to the page before it,
/// and leaves the page that was left as the next one forward.
pub proof fn lemma_back_undoes_going_to(tab: TabView, url: Seq<char>)
    requires
        tab.history.len() > 0,
    ensures
        going_back(going_to(tab, url)).history == tab.history,
        going_back(going_to(tab, url)).location == tab.history.last(),
        going_back(going_to(tab, url)).forward_history == forward_after(
            tab.forward_history,
            url,
        ).push(url),
{
    let there = going_to(tab, url);
    assert(there.history.drop_last() == tab.history);
    assert(there.history.drop_last().drop_last().push(tab.history.last()) == tab.history);
}

/// Going again to the page that going back has left uses up that entry
/// of the forward history: the histories are as after going there first.
pub proof fn lemma_redo_restores(tab: TabView, url: Seq<char>)
    requires
        tab.history.len() > 0,
    ensures
        going_to(going_back(going_to(tab, url)), url).history == going_to(tab, url).history,
        going_to(going_back(going_to(tab, url)), url).forward_history == going_to(
            tab,
            url,
        ).forward_history,
        going_to(going_back(going_to(tab, url)), url).location == url,
{
    lemma_back_undoes_going_to(tab, url);
    let forward = forward_after(tab.forward_history, url);
    assert(forward.push(url).drop_last() == forward);
}

/// Going forward after going back leads to the page that was left.
pub proof fn lemma_forward_undoes_back(tab: TabView)
    requires
        can_go_back(tab),
    ensures
        going_forward(going_back(tab)).history == tab.history,
        going_forward(going_back(tab)).forward_history == tab.forward_history,
        going_forward(going_back(tab)).location == tab.history.last(),
{
    let back = going_back(tab);
    assert(tab.forward_history.push(tab.history.last()).drop_last() == tab.forward_history);
    assert(tab.history.drop_last().drop_last().push(tab.history[tab.history.len() - 2]).push(
        tab.history.last(),
    ) == tab.history);
}

/// Every navigation asks to abort the load that was in flight, and at
/// most one load is in flight after it.
pub proof fn lemma_navigation_aborts_stale_load(tab: TabView, url: Seq<char>)
    ensures
        load_request(tab, url).abort == tab.loading,
        going_to(tab, url).loading == match load_request(tab, url).start {
            Some(load) => Some(load.ticket),
            None => None,
        },
{
}

/// Once a tab has navigated, the end of the load that was in flight
/// before changes nothing.
pub proof fn lemma_stale_load_is_ignored(
    tab: TabView,
    url: Seq<char>,
    stale: u64,
    completion: CompletionView,
)
    requires
        coherent(tab),
        tab.loading == Some(stale),
    ensures
        completed(going_to(tab, url), stale, completion) == going_to(tab, url),
        can_go_back(tab) ==> completed(going_back(tab), stale, completion) == going_back(tab),
        tab.forward_history.len() > 0 ==> completed(going_forward(tab), stale, completion)
            == going_forward(tab),
        tab.history.len() > 0 ==> completed(reloading(tab), stale, completion) == reloading(tab),
{
}

/// A navigation that starts a load leaves the tab loading, and the end
/// of that load leaves it showing a document, or waiting for HTML to be
/// flattened.
pub proof fn lemma_load_runs_its_course(tab: TabView, url: Seq<char>, completion: CompletionView)
    requires
        builtin_text(url) is None,
    ensures
        state_of(going_to(tab, url)) == State::Loading,
        ({
            let there = going_to(tab, url);
            let after = completed(there, there.loading->0, completion);
            if page_for(completion, url) is Html {
                after.document == tab.document
            } else if failed(completion) {
                state_of(after) == State::Errored
            } else {
                state_of(after) == State::Loaded
            }
        }),
{
}

/// A page that is built in is shown at once, with no load.
pub proof fn lemma_builtin_page_is_loaded_at_once(tab: TabView, url: Seq<char>)
    requires
        builtin_text(url) is Some,
    ensures
        state_of(going_to(tab, url)) == State::Loaded,
        load_request(tab, url).start is None,
{
}

/// Reloading leaves both histories and the location as they are, where
/// the location bar shows the current page.
pub proof fn lemma_reloading_keeps_histories(tab: TabView)
    ensures
        reloading(tab).history == tab.history,
        reloading(tab).forward_history == tab.forward_history,
        tab.history.len() > 0 ==> reloading(tab).location == tab.history.last(),
        tab.history.len() == 0 ==> reloading(tab) == tab,
{
    if tab.history.len() > 0 {
        assert(tab.history.drop_last().push(tab.history.last()) == tab.history);
    }
}

/// The end of a load sets a document at once, unless it brought HTML:
/// then the document is set when the flattened text is shown, and the
/// tab shows a document that stands for no failure.
pub proof fn lemma_every_load_ends_in_a_document(
    tab: TabView,
    ticket: u64,
    completion: CompletionView,
    flattened: Seq<char>,
)
    requires
        tab.loading == Some(ticket),
    ensures
        !(page_for(completion, tab.location) is Html) ==> completed(
            tab,
            ticket,
            completion,
        ).document is Some,
        page_for(completion, tab.location) is Html ==> showing(
            completed(tab, ticket, completion),
            PageView::Markdown(flattened),
        ).document == Some(DocumentView::Markdown(fresh(document(md_events(flattened, 0))))),
        page_for(completion, tab.location) is Html ==> state_of(
            showing(completed(tab, ticket, completion), PageView::Markdown(flattened)),
        ) == State::Loaded,
{
}

/// A load ends once: after its end no load is in flight, and a second end
/// changes nothing.
pub proof fn lemma_load_ends_once(
    tab: TabView,
    ticket: u64,
    first: CompletionView,
    second: CompletionView,
)
    requires
        tab.loading == Some(ticket),
    ensures
        completed(tab, ticket, first).loading is None,
        completed(completed(tab, ticket, first), ticket, second) == completed(tab, ticket, first),
{
}

} // verus!
