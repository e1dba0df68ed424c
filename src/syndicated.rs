//! Posts, and the reading of Atom and RSS documents into posts.
use vstd::prelude::*;
use atom_syndication::FixedDateTime;
use crate::timestamp::{Timestamp, UtcOffset};

verus! {

/// The texts of a vector of strings.
pub open spec fn texts(v: Seq<String>) -> Seq<Seq<char>> {
    v.map_values(|s: String| s@)
}

/// The text of an optional string.
pub open spec fn opt_text(o: Option<String>) -> Option<Seq<char>> {
    match o {
        Some(s) => Some(s@),
        None => None,
    }
}

/// One normalised entry or item of a feed.
#[derive(Clone, Debug)]
pub struct Post {
    pub title: Option<String>,
    pub summary: Option<String>,
    pub content: Option<String>,
    pub links: Vec<String>,
}

/// What a post says, as mathematical text.
pub struct PostView {
    pub title: Option<Seq<char>>,
    pub summary: Option<Seq<char>>,
    pub content: Option<Seq<char>>,
    pub links: Seq<Seq<char>>,
}

impl View for Post {
    type V = PostView;

    open spec fn view(&self) -> PostView {
        PostView {
            title: opt_text(self.title),
            summary: opt_text(self.summary),
            content: opt_text(self.content),
            links: texts(self.links@),
        }
    }
}

/// The views of a sequence of posts.
pub open spec fn post_views(v: Seq<Post>) -> Seq<PostView> {
    v.map_values(|p: Post| p@)
}

/// A copy of an optional string.
pub fn copy_text_opt(o: &Option<String>) -> (r: Option<String>)
    ensures
        opt_text(r) == opt_text(*o),
{
    match o {
        Some(s) => Some(s.clone()),
        None => None,
    }
}

/// A copy of a vector of strings.
pub fn copy_texts(v: &Vec<String>) -> (r: Vec<String>)
    ensures
        texts(r@) == texts(v@),
{
    let mut r: Vec<String> = Vec::new();
    let mut i: usize = 0;
    while i < v.len()
        invariant
            i <= v.len(),
            texts(r@) == texts(v@.subrange(0, i as int)),
        decreases v.len() - i,
    {
        let ghost prev = r@;
        r.push(v[i].clone());
        proof {
            assert(v@.subrange(0, i + 1) =~= v@.subrange(0, i as int).push(v@[i as int]));
            assert(texts(r@) =~= texts(prev).push(v@[i as int]@));
            assert(texts(v@.subrange(0, i + 1)) =~= texts(v@.subrange(0, i as int)).push(
                v@[i as int]@,
            ));
        }
        i = i + 1;
    }
    assert(v@.subrange(0, v.len() as int) =~= v@);
    r
}

impl Post {
    /// A copy of this post.
    pub fn duplicate(&self) -> (r: Post)
        ensures
            r@ == self@,
    {
        Post {
            title: copy_text_opt(&self.title),
            summary: copy_text_opt(&self.summary),
            content: copy_text_opt(&self.content),
            links: copy_texts(&self.links),
        }
    }
}

/// The fields of an Atom entry, as plain values: its id, title, summary,
/// content value, link targets and dates.
pub struct AtomEntry {
    pub id: String,
    pub title: String,
    pub summary: Option<String>,
    pub content: Option<String>,
    pub links: Vec<String>,
    pub updated: Timestamp,
    pub published: Option<Timestamp>,
}

pub struct AtomEntryView {
    pub id: Seq<char>,
    pub title: Seq<char>,
    pub summary: Option<Seq<char>>,
    pub content: Option<Seq<char>>,
    pub links: Seq<Seq<char>>,
    pub updated: Timestamp,
    pub published: Option<Timestamp>,
}

impl View for AtomEntry {
    type V = AtomEntryView;

    open spec fn view(&self) -> AtomEntryView {
        AtomEntryView {
            id: self.id@,
            title: self.title@,
            summary: opt_text(self.summary),
            content: opt_text(self.content),
            links: texts(self.links@),
            updated: self.updated,
            published: self.published,
        }
    }
}

/// The fields of an RSS item that a post keeps.
pub struct RssItem {
    pub title: Option<String>,
    pub description: Option<String>,
    pub content: Option<String>,
    pub link: Option<String>,
}

pub struct RssItemView {
    pub title: Option<Seq<char>>,
    pub description: Option<Seq<char>>,
    pub content: Option<Seq<char>>,
    pub link: Option<Seq<char>>,
}

impl View for RssItem {
    type V = RssItemView;

    open spec fn view(&self) -> RssItemView {
        RssItemView {
            title: opt_text(self.title),
            description: opt_text(self.description),
            content: opt_text(self.content),
            link: opt_text(self.link),
        }
    }
}

#[verifier::external_type_specification]
#[verifier::external_body]
pub struct ExFeed(atom_syndication::Feed);

/// The entries of an Atom feed, in order, as plain values.
pub uninterp spec fn feed_entries(f: atom_syndication::Feed) -> Seq<AtomEntryView>;

/// The text that the Atom writer writes for a feed.
pub uninterp spec fn feed_text(f: atom_syndication::Feed) -> Seq<char>;

/// The entries that the Atom reader finds in a text, in document order, or
/// `None` where the text is no Atom feed.
pub uninterp spec fn atom_entries(text: Seq<char>) -> Option<Seq<AtomEntryView>>;

/// Relies on `atom_syndication::Feed::read_from`: reads the text as an Atom
/// feed, which fails where it is no Atom.
#[verifier::external_body]
pub(crate) fn read_feed(text: &str) -> (r: Result<atom_syndication::Feed, atom_syndication::Error>)
    ensures
        match r {
            Ok(f) => atom_entries(text@) == Some(feed_entries(f)),
            Err(_) => atom_entries(text@) is None,
        },
{
    atom_syndication::Feed::read_from(text.as_bytes())
}

/// Relies on the public fields of `atom_syndication::Entry`, `Text`,
/// `Content` and `Link`, and on chrono's `timestamp`,
/// `timestamp_subsec_nanos` and `local_minus_utc`: each entry of the feed
/// with its id, title, summary, content value, link targets and dates.
#[verifier::external_body]
fn feed_entry_values(f: &atom_syndication::Feed) -> (r: Vec<AtomEntry>)
    ensures
        r@.map_values(|e: AtomEntry| e@) == feed_entries(*f),
{
    let plain = |t: &FixedDateTime| Timestamp {
        unix_seconds: t.timestamp(),
        nanosecond: t.timestamp_subsec_nanos(),
        offset: UtcOffset { seconds: t.offset().local_minus_utc() },
    };
    f.entries.iter().map(|e| AtomEntry {
        id: e.id.clone(),
        title: e.title.value.clone(),
        summary: e.summary.as_ref().map(|s| s.value.clone()),
        content: e.content.as_ref().and_then(|c| c.value.clone()),
        links: e.links.iter().map(|l| l.href.clone()).collect(),
        updated: plain(&e.updated),
        published: e.published.as_ref().map(plain),
    }).collect()
}

/// The entries of a text read as an Atom feed, or `None` where it is no Atom.
fn read_atom(text: &str) -> (r: Option<Vec<AtomEntry>>)
    ensures
        match r {
            Some(v) => atom_entries(text@) == Some(v@.map_values(|e: AtomEntry| e@)),
            None => atom_entries(text@) is None,
        },
{
    match read_feed(text) {
        Ok(f) => Some(feed_entry_values(&f)),
        Err(_) => None,
    }
}

/// The items that the RSS reader finds in a text, in document order, or
/// `None` where the text is no RSS channel.
pub uninterp spec fn rss_items(text: Seq<char>) -> Option<Seq<RssItemView>>;

/// Relies on `rss::Channel::read_from`: reads the text as an RSS channel and
/// hands out the title, description, content and link of each item, in
/// document order.
#[verifier::external_body]
fn read_rss(text: &str) -> (r: Option<Vec<RssItem>>)
    ensures
        match r {
            Some(v) => rss_items(text@) == Some(v@.map_values(|i: RssItem| i@)),
            None => rss_items(text@) is None,
        },
{
    rss::Channel::read_from(text.as_bytes()).ok().map(|c| c.items.into_iter().map(|i| RssItem {
        title: i.title,
        description: i.description,
        content: i.content,
        link: i.link,
    }).collect())
}

/// The post made of an Atom entry: its title is always present; its id and
/// dates are not kept.
pub open spec fn atom_post(e: AtomEntryView) -> PostView {
    PostView { title: Some(e.title), summary: e.summary, content: e.content, links: e.links }
}

/// The post made of an RSS item: its description is the summary, and its one
/// link, if any, the only link.
pub open spec fn rss_post(i: RssItemView) -> PostView {
    PostView {
        title: i.title,
        summary: i.description,
        content: i.content,
        links: match i.link {
            Some(l) => seq![l],
            None => seq![],
        },
    }
}

/// The posts of a feed text: those of its Atom entries where it is Atom,
/// else those of its RSS items where it is RSS, else none.
pub open spec fn feed_posts(text: Seq<char>) -> Seq<PostView> {
    match atom_entries(text) {
        Some(es) => es.map_values(|e: AtomEntryView| atom_post(e)),
        None => match rss_items(text) {
            Some(is) => is.map_values(|i: RssItemView| rss_post(i)),
            None => seq![],
        },
    }
}

/// Appends to `output` the posts of a feed text. Atom is tried first, then
/// RSS; a text that is neither adds nothing and is no error.
pub fn parse_items(text: &str, output: &mut Vec<Post>)
    ensures
        post_views(final(output)@) == post_views(old(output)@) + feed_posts(text@),
{
    let ghost start = post_views(output@);
    match read_atom(text) {
        Some(entries) => {
            let ghost es = entries@.map_values(|e: AtomEntry| e@);
            let mut i: usize = 0;
            while i < entries.len()
                invariant
                    i <= entries.len(),
                    es == entries@.map_values(|e: AtomEntry| e@),
                    post_views(output@) == start + es.subrange(0, i as int).map_values(
                        |e: AtomEntryView| atom_post(e),
                    ),
                decreases entries.len() - i,
            {
                let e = &entries[i];
                let p = Post {
                    title: Some(e.title.clone()),
                    summary: copy_text_opt(&e.summary),
                    content: copy_text_opt(&e.content),
                    links: copy_texts(&e.links),
                };
                let ghost prev = output@;
                output.push(p);
                proof {
                    assert(post_views(output@) =~= post_views(prev).push(p@));
                    assert(es.subrange(0, i + 1) =~= es.subrange(0, i as int).push(es[i as int]));
                    assert(es.subrange(0, i + 1).map_values(|e: AtomEntryView| atom_post(e))
                        =~= es.subrange(0, i as int).map_values(|e: AtomEntryView| atom_post(e)).push(
                        atom_post(es[i as int]),
                    ));
                }
                i = i + 1;
            }
            assert(es.subrange(0, i as int) =~= es);
        },
        None => {
            match read_rss(text) {
                Some(items) => {
                    let ghost is = items@.map_values(|i: RssItem| i@);
                    let mut i: usize = 0;
                    while i < items.len()
                        invariant
                            i <= items.len(),
                            is == items@.map_values(|i: RssItem| i@),
                            post_views(output@) == start + is.subrange(0, i as int).map_values(
                                |i: RssItemView| rss_post(i),
                            ),
                        decreases items.len() - i,
                    {
                        let it = &items[i];
                        let mut links: Vec<String> = Vec::new();
                        match &it.link {
                            Some(l) => links.push(l.clone()),
                            None => {},
                        }
                        let p = Post {
                            title: copy_text_opt(&it.title),
                            summary: copy_text_opt(&it.description),
                            content: copy_text_opt(&it.content),
                            links,
                        };
                        assert(texts(p.links@) =~= rss_post(it@).links);
                        let ghost prev = output@;
                        output.push(p);
                        proof {
                            assert(post_views(output@) =~= post_views(prev).push(p@));
                            assert(is.subrange(0, i + 1) =~= is.subrange(0, i as int).push(
                                is[i as int],
                            ));
                            assert(is.subrange(0, i + 1).map_values(|i: RssItemView| rss_post(i))
                                =~= is.subrange(0, i as int).map_values(
                                |i: RssItemView| rss_post(i),
                            ).push(rss_post(is[i as int])));
                        }
                        i = i + 1;
                    }
                    assert(is.subrange(0, i as int) =~= is);
                },
                None => {
                    assert(post_views(output@) =~= start + feed_posts(text@));
                },
            }
        },
    }
}

} // verus!
