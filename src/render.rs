//! The HTML pages: the forms for adding a local post or a remote feed, and
//! the pages that confirm either.
use vstd::prelude::*;
use crate::paths::{path_text, starts_with, LocalFeedPath, Root};
use crate::syndicated::{texts, opt_text, Post, PostView};
use crate::state::{oldest_stamp, LocalEntry, LocalView, State, StateView};
use crate::timestamp::display_text;

verus! {

pub const HEADER: &'static str = "<!DOCTYPE HTML><style> * { color: #eee; background-color: #222 } </style>\n        <title>RRR</title>\n";
pub const FOOTER_OPEN: &'static str = "<footer>";
pub const FOOTER_CLOSE: &'static str = "</footer>";
pub const LOCAL_STYLE: &'static str = "<style>form { display: table; }p { display: table-row; }select { display: table-cell; }label { display: table-cell; text-align: right }input { display: table-cell; }</style>";
pub const REMOTE_STYLE: &'static str = "<style>form { display: table; }p { display: table-row; }label { display: table-cell; text-align: right }input { display: table-cell; }</style>";
pub const FORM_OPEN: &'static str = "<form>";
pub const FEED_URL_BEFORE: &'static str = "<p><label for='feed-url'>Feed URL</label><input name='feed-url' id='feed-url' size=128 value='";
pub const FEED_URL_AFTER: &'static str = "'></p><p><label for='submit'></label><input type='submit' id='submit' formmethod='post'></p></form>";
pub const TARGETS_OPEN: &'static str = "<p><label for='target'>Target file</label><select name='target'>";
pub const OPTION_OPEN: &'static str = "<option value='";
pub const OPTION_MIDDLE: &'static str = "' ";
pub const OPTION_SELECTED: &'static str = "selected";
pub const OPTION_LABEL: &'static str = ">";
pub const OPTION_CLOSE: &'static str = "</option>";
pub const TITLE_BEFORE: &'static str = "</select></p><p><label for='title'>Title</label><input name='title' id='title' size=128 value='";
pub const SUMMARY_BEFORE: &'static str = "'></p><p><label for='summary'>Summary</label><input name='summary' id='summary' size=128 value='";
pub const CONTENT_BEFORE: &'static str = "'></p><p><label for='content'>Content</label><textarea name='content' id='content' rows=5 cols=128>";
pub const LINK_1_BEFORE: &'static str = "</textarea></p><p><label for='link1'>Link</label><input type='url' id='link1' name='link' size=128 value='";
pub const LINK_2_BEFORE: &'static str = "'></p><p><label for='link2'>Link</label><input type='url' id='link2' name='link' size=128 value='";
pub const LOCAL_FORM_END: &'static str = "'></p><p><label for='submit'></label><input type='submit' id='submit' formmethod='post'></p></form>";
pub const LOCAL_SUCCESS: &'static str = "Successfully added local post";
pub const REMOTE_SUCCESS: &'static str = "Successfully added remote feed";

/// What performing a task gives back.
pub enum Output {
    Html(String),
}

impl Output {
    /// The text of the output.
    pub open spec fn text(self) -> Seq<char> {
        match self {
            Output::Html(s) => s@,
        }
    }

    /// Appends text to the output.
    pub fn write_str(&mut self, s: &str)
        ensures
            final(self).text() == old(self).text() + s@,
    {
        match self {
            Output::Html(out) => out.append(s),
        }
    }
}

/// A page's HTML: the common header, then the body.
pub open spec fn page_text(body: Seq<char>) -> Seq<char> {
    HEADER@ + body
}

/// The footer, which shows the data root.
pub open spec fn footer_text(root: Seq<char>) -> Seq<char> {
    FOOTER_OPEN@ + root + FOOTER_CLOSE@
}

/// Writes a page: the common header, then the body.
pub fn main_template(output: &mut String, body: &str)
    ensures
        final(output)@ == old(output)@ + page_text(body@),
{
    output.append(HEADER);
    output.append(body);
    assert(output@ =~= old(output)@ + page_text(body@));
}

/// Writes the footer.
pub fn footer(output: &mut String, root_display: &str)
    ensures
        final(output)@ == old(output)@ + footer_text(root_display@),
{
    output.append(FOOTER_OPEN);
    output.append(root_display);
    output.append(FOOTER_CLOSE);
    assert(output@ =~= old(output)@ + footer_text(root_display@));
}

/// A choice of local feed file in the form: the value sent back, and the
/// label shown.
pub struct Target {
    pub value: String,
    pub label: String,
}

/// The label of a local feed file: its path under the root where it lies
/// under the root, else its whole path.
pub open spec fn label_text(path: Seq<Seq<char>>, root: Seq<Seq<char>>) -> Seq<char> {
    if starts_with(path, root) {
        path_text(path.subrange(root.len() as int, path.len() as int))
    } else {
        path_text(path)
    }
}

impl Target {
    /// The choice for a local feed file: its whole path as the value, its
    /// path under the root as the label.
    pub fn for_path(path: &LocalFeedPath, root: &Root) -> (r: Target)
        ensures
            r.value@ == path_text(path@),
            r.label@ == label_text(path@, root@),
    {
        let cs = path.components();
        let rs = root.components();
        let label = if crate::paths::has_prefix(cs, rs) {
            let mut rel: Vec<String> = Vec::new();
            let mut i: usize = rs.len();
            while i < cs.len()
                invariant
                    rs@.len() <= i <= cs@.len(),
                    texts(rel@) == texts(cs@).subrange(rs@.len() as int, i as int),
                decreases cs@.len() - i,
            {
                let ghost prev = rel@;
                rel.push(cs[i].clone());
                assert(texts(rel@) =~= texts(prev).push(cs@[i as int]@));
                assert(texts(rel@) =~= texts(cs@).subrange(rs@.len() as int, i + 1));
                i = i + 1;
            }
            crate::paths::join_components(&rel)
        } else {
            path.display()
        };
        Target { value: path.display(), label }
    }
}

/// The values of a local add form being shown again.
pub struct LocalAddForm {
    pub target: String,
    pub title: String,
    pub summary: String,
    pub content: String,
    pub links: Vec<String>,
}

/// The value of a remote add form being shown again.
pub struct RemoteFeedAddForm {
    pub url: String,
}

/// An error message, where there is one.
pub open spec fn opt_message(previous: Option<Seq<char>>) -> Seq<char> {
    match previous {
        Some(m) => m,
        None => seq![],
    }
}

/// The body of the remote add form, with the URL shown and the error
/// message, if any, before the fields.
pub open spec fn remote_form_body(url: Seq<char>, message: Option<Seq<char>>, root: Seq<char>) -> Seq<char> {
    REMOTE_STYLE@ + FORM_OPEN@ + opt_message(message) + FEED_URL_BEFORE@ + url + FEED_URL_AFTER@ + footer_text(root)
}

/// Writes the page of the remote add form: empty, or with the URL that was
/// submitted and the message of why adding it failed.
pub fn remote_feed_add_form(output: &mut String, root_display: &str, previous: Option<(RemoteFeedAddForm, String)>)
    ensures
        final(output)@ == old(output)@ + page_text(
            match previous {
                Some((f, m)) => remote_form_body(f.url@, Some(m@), root_display@),
                None => remote_form_body(seq![], None, root_display@),
            },
        ),
{
    let mut body = String::new();
    body.append(REMOTE_STYLE);
    body.append(FORM_OPEN);
    let url = match previous {
        Some((f, m)) => {
            body.append(m.as_str());
            f.url
        },
        None => String::new(),
    };
    body.append(FEED_URL_BEFORE);
    body.append(url.as_str());
    body.append(FEED_URL_AFTER);
    footer(&mut body, root_display);
    main_template(output, body.as_str());
    assert(body@ =~= match previous {
        Some((f, m)) => remote_form_body(f.url@, Some(m@), root_display@),
        None => remote_form_body(seq![], None, root_display@),
    });
}

/// The option of one target, selected where its value is the one submitted.
pub open spec fn option_text(value: Seq<char>, label: Seq<char>, selected: bool) -> Seq<char> {
    OPTION_OPEN@ + value + OPTION_MIDDLE@ + (if selected { OPTION_SELECTED@ } else { seq![] }) + OPTION_LABEL@ + label
        + OPTION_CLOSE@
}

/// The options of the targets, in order.
pub open spec fn options_text(targets: Seq<(Seq<char>, Seq<char>)>, chosen: Option<Seq<char>>) -> Seq<char>
    decreases targets.len(),
{
    if targets.len() == 0 {
        seq![]
    } else {
        let (v, l) = targets.last();
        options_text(targets.drop_last(), chosen) + option_text(v, l, chosen == Some(v))
    }
}

/// The text of the `i`th link, or nothing.
pub open spec fn link_text(links: Seq<Seq<char>>, i: int) -> Seq<char> {
    if i < links.len() {
        links[i]
    } else {
        seq![]
    }
}

/// The values a local add form shows: its target, title, summary, content
/// and links, all empty for a fresh form.
pub struct LocalFormView {
    pub target: Option<Seq<char>>,
    pub title: Seq<char>,
    pub summary: Seq<char>,
    pub content: Seq<char>,
    pub links: Seq<Seq<char>>,
    pub message: Option<Seq<char>>,
}

/// The body of the local add form.
pub open spec fn local_form_body(targets: Seq<(Seq<char>, Seq<char>)>, f: LocalFormView, root: Seq<char>) -> Seq<char> {
    LOCAL_STYLE@ + FORM_OPEN@ + opt_message(f.message) + TARGETS_OPEN@ + options_text(targets, f.target) + TITLE_BEFORE@
        + f.title + SUMMARY_BEFORE@ + f.summary + CONTENT_BEFORE@ + f.content + LINK_1_BEFORE@ + link_text(f.links, 0)
        + LINK_2_BEFORE@ + link_text(f.links, 1) + LOCAL_FORM_END@ + footer_text(root)
}

/// The targets as pairs of value and label.
pub open spec fn target_texts(targets: Seq<Target>) -> Seq<(Seq<char>, Seq<char>)> {
    targets.map_values(|t: Target| (t.value@, t.label@))
}

/// What the local add form shows for an optional earlier submission.
pub open spec fn local_form_view(previous: Option<(LocalAddForm, String)>) -> LocalFormView {
    match previous {
        Some((f, m)) => LocalFormView {
            target: Some(f.target@),
            title: f.title@,
            summary: f.summary@,
            content: f.content@,
            links: texts(f.links@),
            message: Some(m@),
        },
        None => LocalFormView { target: None, title: seq![], summary: seq![], content: seq![], links: seq![], message: None },
    }
}

/// Writes the options of the targets.
fn push_options(out: &mut String, targets: &Vec<Target>, chosen: &Option<String>)
    ensures
        final(out)@ == old(out)@ + options_text(target_texts(targets@), crate::syndicated::opt_text(*chosen)),
{
    let ghost ts = target_texts(targets@);
    let ghost c = crate::syndicated::opt_text(*chosen);
    let mut i: usize = 0;
    proof {
        assert(ts.subrange(0, 0) =~= Seq::<(Seq<char>, Seq<char>)>::empty());
        assert(out@ =~= old(out)@ + options_text(ts.subrange(0, 0), c));
    }
    while i < targets.len()
        invariant
            ts == target_texts(targets@),
            c == crate::syndicated::opt_text(*chosen),
            i <= targets@.len(),
            out@ == old(out)@ + options_text(ts.subrange(0, i as int), c),
        decreases targets@.len() - i,
    {
        let t = &targets[i];
        let selected = match chosen {
            Some(v) => t.value.eq(v),
            None => false,
        };
        let ghost before = out@;
        out.append(OPTION_OPEN);
        out.append(t.value.as_str());
        out.append(OPTION_MIDDLE);
        if selected {
            out.append(OPTION_SELECTED);
        }
        out.append(OPTION_LABEL);
        out.append(t.label.as_str());
        out.append(OPTION_CLOSE);
        proof {
            assert(ts.subrange(0, i + 1).drop_last() =~= ts.subrange(0, i as int));
            assert(ts.subrange(0, i + 1).last() == (t.value@, t.label@));
            assert(selected == (c == Some(t.value@)));
            assert(out@ =~= before + option_text(t.value@, t.label@, selected));
        }
        i = i + 1;
    }
    assert(ts.subrange(0, i as int) =~= ts);
}

/// Writes the text of the `i`th link, if there is one.
fn push_link(out: &mut String, links: &Vec<String>, i: usize)
    ensures
        final(out)@ == old(out)@ + link_text(texts(links@), i as int),
{
    if i < links.len() {
        out.append(links[i].as_str());
    } else {
        assert(old(out)@ + link_text(texts(links@), i as int) =~= old(out)@);
    }
}

/// Writes the page of the local add form, offering each target: empty, or
/// with the values that were submitted and the message of why adding them
/// failed.
pub fn local_add_form(
    output: &mut String,
    targets: &Vec<Target>,
    root_display: &str,
    previous: Option<(LocalAddForm, String)>,
)
    ensures
        final(output)@ == old(output)@ + page_text(
            local_form_body(target_texts(targets@), local_form_view(previous), root_display@),
        ),
{
    let ghost v = local_form_view(previous);
    let (chosen, title, summary, content, links, message) = match previous {
        Some((f, m)) => (Some(f.target), f.title, f.summary, f.content, f.links, Some(m)),
        None => (None, String::new(), String::new(), String::new(), Vec::new(), None),
    };
    let mut body = String::new();
    body.append(LOCAL_STYLE);
    body.append(FORM_OPEN);
    match &message {
        Some(m) => body.append(m.as_str()),
        None => {},
    }
    body.append(TARGETS_OPEN);
    let ghost b1 = body@;
    push_options(&mut body, targets, &chosen);
    body.append(TITLE_BEFORE);
    body.append(title.as_str());
    body.append(SUMMARY_BEFORE);
    body.append(summary.as_str());
    body.append(CONTENT_BEFORE);
    body.append(content.as_str());
    body.append(LINK_1_BEFORE);
    push_link(&mut body, &links, 0);
    body.append(LINK_2_BEFORE);
    push_link(&mut body, &links, 1);
    body.append(LOCAL_FORM_END);
    footer(&mut body, root_display);
    proof {
        assert(crate::syndicated::opt_text(chosen) == v.target);
        assert(texts(links@) =~= v.links);
        assert(crate::syndicated::opt_text(message) == v.message);
        assert(b1 =~= LOCAL_STYLE@ + FORM_OPEN@ + opt_message(v.message) + TARGETS_OPEN@);
        assert(body@ =~= local_form_body(target_texts(targets@), v, root_display@));
    }
    main_template(output, body.as_str());
}

/// Writes the page that confirms a local post was added.
pub fn local_add_form_success(output: &mut String)
    ensures
        final(output)@ == old(output)@ + page_text(LOCAL_SUCCESS@),
{
    main_template(output, LOCAL_SUCCESS);
}

/// Writes the page that confirms a remote feed was added.
pub fn remote_feed_add_form_success(output: &mut String)
    ensures
        final(output)@ == old(output)@ + page_text(REMOTE_SUCCESS@),
{
    main_template(output, REMOTE_SUCCESS);
}

pub const CONTROL_OPEN: &'static str = "<form><button type='submit' title='Fresh as of ";
pub const CONTROL_LABEL: &'static str = " (taking oldest)'>";
pub const CONTROL_KEY: &'static str = "</button><input type='hidden' name='";
pub const CONTROL_CLOSE: &'static str = "'></form>";
pub const ADD_LINKS: &'static str = "<div><a href='/local-add'>Add local entry</a></div><div><a href='/remote-add'>Add remote feed</a></div>";
pub const LOCAL_LABEL: &'static str = "Refresh Local Posts";
pub const REMOTE_LABEL: &'static str = "Refresh Remote Posts";
pub const REMOTE_URLS_LABEL: &'static str = "Refresh Remote Feed List";
pub const DETAILS_OPEN: &'static str = "<details><summary>";
pub const DETAILS_SUMMARY_CLOSE: &'static str = "</summary>";
pub const DETAILS_CLOSE: &'static str = "</details>";
pub const LOCAL_SECTION: &'static str = "local posts";
pub const REMOTE_SECTION: &'static str = "remote posts";
pub const LOCAL_LETTER: &'static str = "L";
pub const REMOTE_LETTER: &'static str = "R";
pub const POST_NUMBER: &'static str = "#";
pub const H2_LINK_OPEN: &'static str = "<h2><a href=\"";
pub const H2_LINK_MIDDLE: &'static str = "\">";
pub const H2_LINK_CLOSE: &'static str = "</a></h2>";
pub const H2_OPEN: &'static str = "<h2>";
pub const H2_CLOSE: &'static str = "</h2>";
pub const H3_OPEN: &'static str = "<h3>";
pub const H3_CLOSE: &'static str = "</h3>";
pub const P_OPEN: &'static str = "<p>";
pub const P_CLOSE: &'static str = "</p>";
pub const LINK_OPEN: &'static str = "<a href=\"";
pub const LINK_MIDDLE: &'static str = "\">";
pub const LINK_CLOSE: &'static str = "</a>";

/// Which batch a refresh control refreshes.
#[derive(Clone, Copy, Debug, PartialEq, Eq, Structural)]
pub enum RefreshKind {
    Local,
    Remote,
    RemoteUrls,
}

/// Which kind of feed a section of posts comes from.
#[derive(Clone, Copy, Debug, PartialEq, Eq, Structural)]
pub enum SectionKind {
    Local,
    Remote,
}

/// A number in decimal, without leading zeros.
pub open spec fn decimal_text(n: nat) -> Seq<char>
    decreases n,
{
    if n < 10 {
        seq![('0' as u8 + n) as char]
    } else {
        decimal_text(n / 10) + seq![('0' as u8 + n % 10) as char]
    }
}

/// Appends a number in decimal.
fn push_decimal(out: &mut String, n: usize)
    ensures
        final(out)@ == old(out)@ + decimal_text(n as nat),
    decreases n,
{
    if n >= 10 {
        push_decimal(out, n / 10);
    }
    let d = n % 10;
    proof {
        reveal_strlit("0123456789");
    }
    let digit = "0123456789".substring_char(d, d + 1);
    assert(digit@ =~= seq![('0' as u8 + d) as char]);
    out.append(digit);
    assert(out@ =~= old(out)@ + decimal_text(n as nat));
}

/// One refresh control: a button titled with the stamp, and the hidden key
/// that asks for the refresh.
pub open spec fn control_text(kind: RefreshKind, stamp: Seq<char>) -> Seq<char> {
    let (label, key) = match kind {
        RefreshKind::Local => (LOCAL_LABEL@, crate::task::REFRESH_LOCAL_KEY@),
        RefreshKind::Remote => (REMOTE_LABEL@, crate::task::REFRESH_REMOTE_KEY@),
        RefreshKind::RemoteUrls => (REMOTE_URLS_LABEL@, crate::task::REFRESH_REMOTE_URLS_KEY@),
    };
    CONTROL_OPEN@ + stamp + CONTROL_LABEL@ + label + CONTROL_KEY@ + key + CONTROL_CLOSE@
}

/// Writes one refresh control.
fn push_control(out: &mut String, kind: RefreshKind, stamp: &str)
    ensures
        final(out)@ == old(out)@ + control_text(kind, stamp@),
{
    let (label, key) = match kind {
        RefreshKind::Local => (LOCAL_LABEL, crate::task::REFRESH_LOCAL_KEY),
        RefreshKind::Remote => (REMOTE_LABEL, crate::task::REFRESH_REMOTE_KEY),
        RefreshKind::RemoteUrls => (REMOTE_URLS_LABEL, crate::task::REFRESH_REMOTE_URLS_KEY),
    };
    out.append(CONTROL_OPEN);
    out.append(stamp);
    out.append(CONTROL_LABEL);
    out.append(label);
    out.append(CONTROL_KEY);
    out.append(key);
    out.append(CONTROL_CLOSE);
    assert(out@ =~= old(out)@ + control_text(kind, stamp@));
}

/// The title of a post: a heading, linked to the post's first link where it
/// has one.
pub open spec fn title_text(p: PostView) -> Seq<char> {
    match p.title {
        Some(t) => if p.links.len() > 0 {
            H2_LINK_OPEN@ + p.links[0] + H2_LINK_MIDDLE@ + t + H2_LINK_CLOSE@
        } else {
            H2_OPEN@ + t + H2_CLOSE@
        },
        None => seq![],
    }
}

/// The links of a post that its title does not already carry.
pub open spec fn other_links(p: PostView) -> Seq<Seq<char>> {
    if p.title is Some && p.links.len() > 0 {
        p.links.drop_first()
    } else {
        p.links
    }
}

/// Links, each numbered from one.
pub open spec fn links_text(ls: Seq<Seq<char>>) -> Seq<char>
    decreases ls.len(),
{
    if ls.len() == 0 {
        seq![]
    } else {
        links_text(ls.drop_last()) + LINK_OPEN@ + ls.last() + LINK_MIDDLE@ + decimal_text(ls.len()) + LINK_CLOSE@
    }
}

/// An optional part between its tags.
pub open spec fn tagged(open: Seq<char>, o: Option<Seq<char>>, close: Seq<char>) -> Seq<char> {
    match o {
        Some(t) => open + t + close,
        None => seq![],
    }
}

/// The `i`th post of a section.
pub open spec fn post_text(letter: Seq<char>, i: nat, p: PostView) -> Seq<char> {
    POST_NUMBER@ + letter + decimal_text(i) + title_text(p) + tagged(H3_OPEN@, p.summary, H3_CLOSE@) + tagged(
        P_OPEN@,
        p.content,
        P_CLOSE@,
    ) + links_text(other_links(p))
}

/// The posts of a section, numbered from zero.
pub open spec fn posts_text(letter: Seq<char>, ps: Seq<PostView>) -> Seq<char>
    decreases ps.len(),
{
    if ps.len() == 0 {
        seq![]
    } else {
        posts_text(letter, ps.drop_last()) + post_text(letter, (ps.len() - 1) as nat, ps.last())
    }
}

/// A section of posts, folded under its name.
pub open spec fn section_text(kind: SectionKind, ps: Seq<PostView>) -> Seq<char> {
    let (name, letter) = match kind {
        SectionKind::Local => (LOCAL_SECTION@, LOCAL_LETTER@),
        SectionKind::Remote => (REMOTE_SECTION@, REMOTE_LETTER@),
    };
    DETAILS_OPEN@ + name + DETAILS_SUMMARY_CLOSE@ + posts_text(letter, ps) + DETAILS_CLOSE@
}

/// The sections of the local batches, in order.
pub open spec fn local_sections_text(local: Seq<LocalView>) -> Seq<char>
    decreases local.len(),
{
    if local.len() == 0 {
        seq![]
    } else {
        local_sections_text(local.drop_last()) + section_text(SectionKind::Local, local.last().batch.posts)
    }
}

/// The body of the home page, where each stamp can be shown: the refresh
/// controls, the local sections, the remote section and the footer.
pub open spec fn home_body(s: StateView) -> Option<Seq<char>> {
    match (
        display_text(oldest_stamp(s.local)),
        display_text(s.remote_posts.fetched_at),
        display_text(s.remote_feeds.fetched_at),
    ) {
        (Some(a), Some(b), Some(c)) => Some(
            control_text(RefreshKind::Local, a) + control_text(RefreshKind::Remote, b) + control_text(
                RefreshKind::RemoteUrls,
                c,
            ) + ADD_LINKS@ + local_sections_text(s.local) + section_text(SectionKind::Remote, s.remote_posts.posts)
                + footer_text(path_text(s.root)),
        ),
        _ => None,
    }
}

/// Writes an optional part between its tags.
fn push_tagged(out: &mut String, open: &str, o: &Option<String>, close: &str)
    ensures
        final(out)@ == old(out)@ + tagged(open@, opt_text(*o), close@),
{
    match o {
        Some(t) => {
            out.append(open);
            out.append(t.as_str());
            out.append(close);
        },
        None => {},
    }
    assert(out@ =~= old(out)@ + tagged(open@, opt_text(*o), close@));
}

/// Writes the title of a post, and says how many of its links the title
/// carries.
fn push_title(out: &mut String, p: &Post) -> (first: usize)
    ensures
        final(out)@ == old(out)@ + title_text(p@),
        first as int == p@.links.len() - other_links(p@).len(),
        other_links(p@) == p@.links.subrange(first as int, p@.links.len() as int),
{
    let ghost v = p@;
    proof {
        if p.links@.len() > 0 {
            assert(v.links[0] == p.links@[0]@);
        }
    }
    match &p.title {
        Some(t) => {
            if p.links.len() > 0 {
                out.append(H2_LINK_OPEN);
                out.append(p.links[0].as_str());
                out.append(H2_LINK_MIDDLE);
                out.append(t.as_str());
                out.append(H2_LINK_CLOSE);
                assert(out@ =~= old(out)@ + title_text(v));
                assert(other_links(v) =~= v.links.subrange(1, v.links.len() as int));
                return 1;
            } else {
                out.append(H2_OPEN);
                out.append(t.as_str());
                out.append(H2_CLOSE);
            }
        },
        None => {},
    }
    assert(out@ =~= old(out)@ + title_text(v));
    assert(other_links(v) =~= v.links.subrange(0, v.links.len() as int));
    0
}

/// Writes the links from index `first` on, numbered from one.
fn push_links(out: &mut String, links: &Vec<String>, first: usize)
    requires
        first <= links@.len(),
    ensures
        final(out)@ == old(out)@ + links_text(texts(links@).subrange(first as int, links@.len() as int)),
{
    let ghost rest = texts(links@).subrange(first as int, links@.len() as int);
    proof {
        assert(rest.subrange(0, 0) =~= Seq::<Seq<char>>::empty());
        assert(out@ =~= old(out)@ + links_text(rest.subrange(0, 0)));
    }
    let mut j: usize = first;
    while j < links.len()
        invariant
            first <= j <= links@.len(),
            rest == texts(links@).subrange(first as int, links@.len() as int),
            out@ == old(out)@ + links_text(rest.subrange(0, j - first)),
        decreases links@.len() - j,
    {
        out.append(LINK_OPEN);
        out.append(links[j].as_str());
        out.append(LINK_MIDDLE);
        push_decimal(out, j - first + 1);
        out.append(LINK_CLOSE);
        proof {
            let sub = rest.subrange(0, j + 1 - first);
            assert(sub.drop_last() =~= rest.subrange(0, j - first));
            assert(sub.last() == links@[j as int]@);
            assert(out@ =~= old(out)@ + links_text(sub));
        }
        j = j + 1;
    }
    assert(rest.subrange(0, j - first) =~= rest);
}

/// Writes the `i`th post of a section.
fn push_post(out: &mut String, letter: &str, i: usize, p: &Post)
    ensures
        final(out)@ == old(out)@ + post_text(letter@, i as nat, p@),
{
    out.append(POST_NUMBER);
    out.append(letter);
    push_decimal(out, i);
    let first = push_title(out, p);
    push_tagged(out, H3_OPEN, &p.summary, H3_CLOSE);
    push_tagged(out, P_OPEN, &p.content, P_CLOSE);
    push_links(out, &p.links, first);
    assert(out@ =~= old(out)@ + post_text(letter@, i as nat, p@));
}

/// Writes a section of posts.
fn push_section(out: &mut String, kind: SectionKind, posts: &Vec<Post>)
    ensures
        final(out)@ == old(out)@ + section_text(kind, crate::syndicated::post_views(posts@)),
{
    let (name, letter) = match kind {
        SectionKind::Local => (LOCAL_SECTION, LOCAL_LETTER),
        SectionKind::Remote => (REMOTE_SECTION, REMOTE_LETTER),
    };
    let ghost ps = crate::syndicated::post_views(posts@);
    out.append(DETAILS_OPEN);
    out.append(name);
    out.append(DETAILS_SUMMARY_CLOSE);
    let ghost start = out@;
    let mut i: usize = 0;
    proof {
        assert(ps.subrange(0, 0) =~= Seq::<PostView>::empty());
        assert(out@ =~= start + posts_text(letter@, ps.subrange(0, 0)));
    }
    while i < posts.len()
        invariant
            ps == crate::syndicated::post_views(posts@),
            i <= posts@.len(),
            out@ == start + posts_text(letter@, ps.subrange(0, i as int)),
        decreases posts@.len() - i,
    {
        push_post(out, letter, i, &posts[i]);
        proof {
            let sub = ps.subrange(0, i + 1);
            assert(sub.drop_last() =~= ps.subrange(0, i as int));
            assert(sub.last() == posts@[i as int]@);
            assert(out@ =~= start + posts_text(letter@, sub));
        }
        i = i + 1;
    }
    out.append(DETAILS_CLOSE);
    assert(ps.subrange(0, i as int) =~= ps);
    assert(out@ =~= old(out)@ + section_text(kind, ps));
}

/// Writes the home page of the state: the refresh controls, each stamped
/// with when its batches were last refreshed (the oldest of the local
/// ones), then the posts of each local feed file and the remote posts.
/// Fails, writing nothing, where a stamp cannot be shown in RFC 3339.
pub fn home_page(output: &mut String, state: &State) -> (r: bool)
    requires
        state@.wf(),
    ensures
        r == (home_body(state@) is Some),
        r ==> final(output)@ == old(output)@ + page_text(home_body(state@).unwrap()),
        !r ==> final(output)@ == old(output)@,
{
    let ghost s = state@;
    let a = match state.oldest_local_fetch().display() {
        Some(a) => a,
        None => return false,
    };
    let b = match state.remote_posts().fetched_at.display() {
        Some(b) => b,
        None => return false,
    };
    let c = match state.remote_feeds().fetched_at.display() {
        Some(c) => c,
        None => return false,
    };
    let mut body = String::new();
    push_control(&mut body, RefreshKind::Local, a.as_str());
    push_control(&mut body, RefreshKind::Remote, b.as_str());
    push_control(&mut body, RefreshKind::RemoteUrls, c.as_str());
    body.append(ADD_LINKS);
    let ghost start = body@;
    let entries = state.local_entries();
    let mut i: usize = 0;
    proof {
        assert(s.local.subrange(0, 0) =~= Seq::<LocalView>::empty());
        assert(body@ =~= start + local_sections_text(s.local.subrange(0, 0)));
    }
    while i < entries.len()
        invariant
            s == state@,
            crate::state::local_views(entries@) == s.local,
            i <= entries@.len(),
            body@ == start + local_sections_text(s.local.subrange(0, i as int)),
        decreases entries@.len() - i,
    {
        push_section(&mut body, SectionKind::Local, &entries[i].posts.posts);
        proof {
            let sub = s.local.subrange(0, i + 1);
            assert(sub.drop_last() =~= s.local.subrange(0, i as int));
            assert(sub.last() == entries@[i as int]@);
            assert(body@ =~= start + local_sections_text(sub));
        }
        i = i + 1;
    }
    assert(s.local.subrange(0, i as int) =~= s.local);
    push_section(&mut body, SectionKind::Remote, &state.remote_posts().posts);
    let root = state.root_display();
    footer(&mut body, root.as_str());
    assert(body@ =~= home_body(s).unwrap());
    main_template(output, body.as_str());
    true
}

/// The text of an optional string, or the empty text.
pub open spec fn text_or_empty(o: Option<Seq<char>>) -> Seq<char> {
    match o {
        Some(t) => t,
        None => seq![],
    }
}

/// A copy of an optional string, or an empty string.
fn text_or_default(o: &Option<String>) -> (r: String)
    ensures
        r@ == text_or_empty(opt_text(*o)),
{
    match o {
        Some(t) => t.clone(),
        None => String::new(),
    }
}

impl LocalAddForm {
    /// The values to show again of a submitted local post: absent texts as
    /// empty ones.
    pub fn from_submitted(form: &crate::task::LocalAddForm) -> (r: LocalAddForm)
        ensures
            r.target@ == path_text(form.path@),
            r.title@ == text_or_empty(form.post@.title),
            r.summary@ == text_or_empty(form.post@.summary),
            r.content@ == text_or_empty(form.post@.content),
            texts(r.links@) == form.post@.links,
    {
        LocalAddForm {
            target: form.path.display(),
            title: text_or_default(&form.post.title),
            summary: text_or_default(&form.post.summary),
            content: text_or_default(&form.post.content),
            links: crate::syndicated::copy_texts(&form.post.links),
        }
    }
}

/// The targets of the local add form: one per local feed file of the state,
/// in order.
pub fn local_targets(state: &State) -> (r: Vec<Target>)
    ensures
        r@.len() == state@.local.len(),
        forall|i: int|
            0 <= i < r@.len() ==> (#[trigger] r@[i]).value@ == path_text(state@.local[i].path) && r@[i].label@
                == label_text(state@.local[i].path, state@.root),
{
    let entries = state.local_entries();
    let mut r: Vec<Target> = Vec::new();
    let mut i: usize = 0;
    while i < entries.len()
        invariant
            crate::state::local_views(entries@) == state@.local,
            i <= entries@.len(),
            r@.len() == i,
            forall|j: int|
                0 <= j < i ==> (#[trigger] r@[j]).value@ == path_text(state@.local[j].path) && r@[j].label@
                    == label_text(state@.local[j].path, state@.root),
        decreases entries@.len() - i,
    {
        assert(entries@[i as int]@ == state@.local[i as int]);
        r.push(Target::for_path(&entries[i].path, state.root()));
        i = i + 1;
    }
    r
}

} // verus!
