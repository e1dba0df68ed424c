//! The aggregation state: the remote feed list, the remote posts, and one
//! batch of posts per local feed file, each stamped with its last refresh.
use vstd::prelude::*;
use crate::feeds::{lines_of, parse_feed_urls, parsed_prefix, all_urls, check_url, url_parse};
use crate::task::RemoteFeedAddForm;
use crate::paths::{starts_with, path_lt, path_components, lemma_path_lt_total, lemma_path_lt_transitive, BadPrefixError, LocalFeedPath, LocalFeedsDir, Root};
use crate::syndicated::{feed_posts, parse_items, post_views, texts, Post, PostView};
use crate::timestamp::{Timestamp, UtcOffset};
use crate::errors::PerformError;

verus! {

/// A batch of posts and when it was last refreshed.
pub struct Posts {
    pub posts: Vec<Post>,
    pub fetched_at: Timestamp,
}

pub struct BatchView {
    pub posts: Seq<PostView>,
    pub fetched_at: Timestamp,
}

impl View for Posts {
    type V = BatchView;

    open spec fn view(&self) -> BatchView {
        BatchView { posts: post_views(self.posts@), fetched_at: self.fetched_at }
    }
}

impl Posts {
    /// An empty batch that was never refreshed.
    pub fn empty() -> (r: Posts)
        ensures
            r@ == empty_batch(),
    {
        let r = Posts { posts: Vec::new(), fetched_at: Timestamp::epoch() };
        assert(r@.posts =~= Seq::<PostView>::empty());
        r
    }
}

/// An empty batch stamped with the epoch.
pub open spec fn empty_batch() -> BatchView {
    BatchView { posts: seq![], fetched_at: Timestamp::epoch_spec() }
}

/// The remote feed URLs and when their list was last read.
pub struct RemoteFeeds {
    pub feeds: Vec<String>,
    pub fetched_at: Timestamp,
}

pub struct RemoteFeedsView {
    pub feeds: Seq<Seq<char>>,
    pub fetched_at: Timestamp,
}

impl View for RemoteFeeds {
    type V = RemoteFeedsView;

    open spec fn view(&self) -> RemoteFeedsView {
        RemoteFeedsView { feeds: texts(self.feeds@), fetched_at: self.fetched_at }
    }
}

/// The batch of one local feed file.
pub struct LocalEntry {
    pub path: LocalFeedPath,
    pub posts: Posts,
}

pub struct LocalView {
    pub path: Seq<Seq<char>>,
    pub batch: BatchView,
}

impl View for LocalEntry {
    type V = LocalView;

    open spec fn view(&self) -> LocalView {
        LocalView { path: self.path@, batch: self.posts@ }
    }
}

pub open spec fn local_views(v: Seq<LocalEntry>) -> Seq<LocalView> {
    v.map_values(|e: LocalEntry| e@)
}

/// The index of the last entry with the given path, or -1.
pub open spec fn find_path(s: Seq<LocalView>, p: Seq<Seq<char>>) -> int
    decreases s.len(),
{
    if s.len() == 0 {
        -1
    } else if s.last().path == p {
        s.len() - 1
    } else {
        find_path(s.drop_last(), p)
    }
}

/// The entry for a path that a scan finds: the one it had, or a fresh empty
/// one.
pub open spec fn entry_for(old: Seq<LocalView>, p: Seq<Seq<char>>) -> LocalView {
    if find_path(old, p) >= 0 {
        old[find_path(old, p)]
    } else {
        LocalView { path: p, batch: empty_batch() }
    }
}

/// Where a new entry for path `p` goes among `acc`, searching from `i`:
/// before the first entry whose path comes after `p`, else at the end.
pub open spec fn insert_pos(acc: Seq<LocalView>, p: Seq<Seq<char>>, i: int) -> int
    decreases acc.len() - i,
{
    if i >= acc.len() {
        acc.len() as int
    } else if path_lt(p, acc[i].path) {
        i
    } else {
        insert_pos(acc, p, i + 1)
    }
}

/// The local entries after a scan that listed `paths`: one per distinct
/// path, kept in path order, each keeping the batch it had.
pub open spec fn rescanned(old: Seq<LocalView>, paths: Seq<Seq<Seq<char>>>) -> Seq<LocalView>
    decreases paths.len(),
{
    if paths.len() == 0 {
        seq![]
    } else {
        let acc = rescanned(old, paths.drop_last());
        if find_path(acc, paths.last()) >= 0 {
            acc
        } else {
            acc.insert(insert_pos(acc, paths.last(), 0), entry_for(old, paths.last()))
        }
    }
}

/// The posts of several feed texts, one after another.
pub open spec fn all_feed_posts(bodies: Seq<Seq<char>>) -> Seq<PostView>
    decreases bodies.len(),
{
    if bodies.len() == 0 {
        seq![]
    } else {
        all_feed_posts(bodies.drop_last()) + feed_posts(bodies.last())
    }
}

/// The earliest stamp of the local batches, kept from the left where two
/// are equal, or the latest representable instant where there is none.
pub open spec fn oldest_stamp(local: Seq<LocalView>) -> Timestamp
    decreases local.len(),
{
    if local.len() == 0 {
        Timestamp::max_value_spec()
    } else {
        let o = oldest_stamp(local.drop_last());
        if local.last().batch.fetched_at.instant() < o.instant() {
            local.last().batch.fetched_at
        } else {
            o
        }
    }
}

/// The whole state, as mathematical values.
pub struct StateView {
    pub root: Seq<Seq<char>>,
    pub remote_feeds: RemoteFeedsView,
    pub remote_posts: BatchView,
    pub local: Seq<LocalView>,
    pub local_dir: Seq<Seq<char>>,
    pub utc_offset: UtcOffset,
}

/// The state after the remote feed list was read from `text` at `now`.
pub open spec fn urls_refreshed(s: StateView, text: Seq<char>, now: Timestamp) -> StateView {
    StateView {
        remote_feeds: RemoteFeedsView { feeds: parsed_prefix(lines_of(text)), fetched_at: now },
        ..s
    }
}

/// The state after reading the remote feed list at `now` failed: the list is
/// cleared and stamped, as a refresh does before it reads.
pub open spec fn urls_unreadable(s: StateView, now: Timestamp) -> StateView {
    StateView { remote_feeds: RemoteFeedsView { feeds: seq![], fetched_at: now }, ..s }
}

/// The state after the remote posts were refreshed at `now` from the feed
/// texts fetched, in the order of the feed list.
pub open spec fn remote_posts_refreshed(s: StateView, bodies: Seq<Seq<char>>, now: Timestamp) -> StateView {
    StateView { remote_posts: BatchView { posts: all_feed_posts(bodies), fetched_at: now }, ..s }
}

/// The local entries after the first `files.len()` of them were reloaded at
/// `now` from the texts of their files.
pub open spec fn locals_reloaded(local: Seq<LocalView>, files: Seq<Seq<char>>, now: Timestamp) -> Seq<LocalView> {
    Seq::new(
        local.len(),
        |i: int|
            if i < files.len() {
                LocalView { path: local[i].path, batch: BatchView { posts: feed_posts(files[i]), fetched_at: now } }
            } else {
                local[i]
            },
    )
}

/// The state after the first `files.len()` local entries were reloaded.
pub open spec fn local_posts_refreshed(s: StateView, files: Seq<Seq<char>>, now: Timestamp) -> StateView {
    StateView { local: locals_reloaded(s.local, files, now), ..s }
}

/// The aggregation state. Exactly one exists while the application runs.
pub struct State {
    root: Root,
    remote_feeds: RemoteFeeds,
    remote_posts: Posts,
    local_posts: Vec<LocalEntry>,
    local_feeds_dir: LocalFeedsDir,
    utc_offset: UtcOffset,
}

impl View for State {
    type V = StateView;

    closed spec fn view(&self) -> StateView {
        StateView {
            root: self.root@,
            remote_feeds: self.remote_feeds@,
            remote_posts: self.remote_posts@,
            local: local_views(self.local_posts@),
            local_dir: self.local_feeds_dir@,
            utc_offset: self.utc_offset,
        }
    }
}

/// Whether no two entries share a path.
pub open spec fn distinct_paths(s: Seq<LocalView>) -> bool {
    forall|i: int, j: int| 0 <= i < s.len() && 0 <= j < s.len() && i != j ==> s[i].path != s[j].path
}

/// Whether the entries are in path order.
pub open spec fn sorted_paths(s: Seq<LocalView>) -> bool {
    forall|i: int, j: int| 0 <= i < j < s.len() ==> path_lt(s[i].path, s[j].path)
}

impl StateView {
    /// Every local path lies in the local feeds directory, once, in path
    /// order; every stamp is well formed.
    pub open spec fn wf(self) -> bool {
        &&& distinct_paths(self.local)
        &&& sorted_paths(self.local)
        &&& forall|i: int| 0 <= i < self.local.len() ==> starts_with(#[trigger] self.local[i].path, self.local_dir)
        &&& self.local_dir == self.root.push(crate::paths::LOCAL_FEEDS@)
        &&& self.utc_offset.wf()
        &&& self.remote_feeds.fetched_at.wf()
        &&& self.remote_posts.fetched_at.wf()
        &&& forall|i: int| 0 <= i < self.local.len() ==> (#[trigger] self.local[i]).batch.fetched_at.wf()
    }
}


/// The index of the last entry with the given path, or `None`.
fn find_entry(entries: &Vec<LocalEntry>, p: &LocalFeedPath) -> (r: Option<usize>)
    ensures
        match r {
            Some(k) => find_path(local_views(entries@), p@) == k,
            None => find_path(local_views(entries@), p@) == -1,
        },
{
    let mut k: usize = entries.len();
    assert(entries@.subrange(0, k as int) =~= entries@);
    while k > 0
        invariant
            k <= entries.len(),
            find_path(local_views(entries@), p@) == find_path(local_views(entries@.subrange(0, k as int)), p@),
        decreases k,
    {
        let ghost pre = local_views(entries@.subrange(0, k as int));
        assert(pre.drop_last() =~= local_views(entries@.subrange(0, k - 1)));
        if entries[k - 1].path.same_as(p) {
            return Some(k - 1);
        }
        k = k - 1;
    }
    None
}

/// A copy of a sequence of posts.
fn copy_posts(v: &Vec<Post>) -> (r: Vec<Post>)
    ensures
        post_views(r@) == post_views(v@),
{
    let mut r: Vec<Post> = Vec::new();
    let mut i: usize = 0;
    while i < v.len()
        invariant
            i <= v.len(),
            post_views(r@) == post_views(v@.subrange(0, i as int)),
        decreases v.len() - i,
    {
        let ghost prev = r@;
        r.push(v[i].duplicate());
        proof {
            assert(v@.subrange(0, i + 1) =~= v@.subrange(0, i as int).push(v@[i as int]));
            assert(post_views(r@) =~= post_views(prev).push(v@[i as int]@));
            assert(post_views(v@.subrange(0, i + 1)) =~= post_views(v@.subrange(0, i as int)).push(
                v@[i as int]@,
            ));
        }
        i = i + 1;
    }
    assert(v@.subrange(0, v.len() as int) =~= v@);
    r
}

impl State {
    /// A state over a root, with nothing loaded yet.
    pub fn new(root: Root, utc_offset: UtcOffset) -> (r: State)
        requires
            utc_offset.wf(),
        ensures
            r@.wf(),
            r@.root == root@,
            r@.remote_feeds == (RemoteFeedsView { feeds: seq![], fetched_at: Timestamp::epoch_spec() }),
            r@.remote_posts == empty_batch(),
            r@.local == Seq::<LocalView>::empty(),
            r@.utc_offset == utc_offset,
    {
        let local_feeds_dir = LocalFeedsDir::new(&root);
        let r = State {
            root,
            remote_feeds: RemoteFeeds { feeds: Vec::new(), fetched_at: Timestamp::epoch() },
            remote_posts: Posts::empty(),
            local_posts: Vec::new(),
            local_feeds_dir,
            utc_offset,
        };
        assert(r@.remote_feeds.feeds =~= Seq::<Seq<char>>::empty());
        assert(r@.local =~= Seq::<LocalView>::empty());
        r
    }

    /// The data root.
    pub fn root(&self) -> (r: &Root)
        ensures
            r@ == self@.root,
    {
        &self.root
    }

    /// The data root as text.
    pub fn root_display(&self) -> (r: String)
        ensures
            r@ == crate::paths::path_text(self@.root),
    {
        self.root.display()
    }

    /// The directory of the local feed files.
    pub fn local_feeds_dir(&self) -> (r: &LocalFeedsDir)
        ensures
            r@ == self@.local_dir,
    {
        &self.local_feeds_dir
    }

    /// The offset at which refreshes are stamped.
    pub fn utc_offset(&self) -> (r: UtcOffset)
        ensures
            r == self@.utc_offset,
    {
        self.utc_offset
    }

    /// The remote feed list.
    pub fn remote_feeds(&self) -> (r: &RemoteFeeds)
        ensures
            r@ == self@.remote_feeds,
    {
        &self.remote_feeds
    }

    /// The batch of remote posts.
    pub fn remote_posts(&self) -> (r: &Posts)
        ensures
            r@ == self@.remote_posts,
    {
        &self.remote_posts
    }

    /// The local entries, one per local feed file.
    pub fn local_entries(&self) -> (r: &Vec<LocalEntry>)
        ensures
            local_views(r@) == self@.local,
    {
        &self.local_posts
    }

    /// Reads the remote feed list from the text of its file, read at `now`.
    /// The list is stamped and cleared first; on a line that is no URL the
    /// URLs of the lines before it stay, and the parser's error comes back.
    pub fn refresh_remote_feed_urls(&mut self, text: &str, now: Timestamp) -> (r: Result<(), url::ParseError>)
        requires
            old(self)@.wf(),
            now.wf(),
        ensures
            final(self)@.wf(),
            final(self)@ == urls_refreshed(old(self)@, text@, now),
            r is Ok <==> all_urls(lines_of(text@)),
    {
        self.remote_feeds.fetched_at = now;
        let (feeds, res) = parse_feed_urls(text);
        self.remote_feeds.feeds = feeds;
        res
    }

    /// Records that reading the remote feed list at `now` failed: the list is
    /// cleared and stamped, so that the failure is not retried at once.
    pub fn remote_feed_urls_unreadable(&mut self, now: Timestamp)
        requires
            old(self)@.wf(),
            now.wf(),
        ensures
            final(self)@.wf(),
            final(self)@ == urls_unreadable(old(self)@, now),
    {
        self.remote_feeds.fetched_at = now;
        self.remote_feeds.feeds = Vec::new();
        assert(self@.remote_feeds.feeds =~= Seq::<Seq<char>>::empty());
    }

    /// Refreshes the remote posts at `now` from the feed texts that were
    /// fetched, in the order of the feed list. Where a fetch failed, `bodies`
    /// holds the texts fetched before it.
    pub fn refresh_remote_posts(&mut self, bodies: &Vec<String>, now: Timestamp)
        requires
            old(self)@.wf(),
            now.wf(),
        ensures
            final(self)@.wf(),
            final(self)@ == remote_posts_refreshed(old(self)@, texts(bodies@), now),
    {
        self.remote_posts.posts = Vec::new();
        self.remote_posts.fetched_at = now;
        let ghost bs = texts(bodies@);
        let mut i: usize = 0;
        proof {
            assert(self@.remote_posts.posts =~= Seq::<PostView>::empty());
            assert(bs.subrange(0, 0) =~= Seq::<Seq<char>>::empty());
            assert(self@ =~= remote_posts_refreshed(old(self)@, bs.subrange(0, 0), now));
        }
        while i < bodies.len()
            invariant
                bs == texts(bodies@),
                i <= bodies.len(),
                self@ == remote_posts_refreshed(old(self)@, bs.subrange(0, i as int), now),
            decreases bodies.len() - i,
        {
            proof {
                assert(bs.subrange(0, i + 1).drop_last() =~= bs.subrange(0, i as int));
            }
            parse_items(bodies[i].as_str(), &mut self.remote_posts.posts);
            i = i + 1;
        }
        assert(bs.subrange(0, i as int) =~= bs);
    }

    /// Rebuilds the set of local entries from a listing of the local feeds
    /// directory: one entry per distinct listed path, in path order, each
    /// keeping the batch it had, new ones empty. A listed path outside the
    /// directory fails the whole scan and changes nothing.
    pub fn rescan_local_paths(&mut self, listing: &Vec<String>) -> (r: Result<(), BadPrefixError>)
        requires
            old(self)@.wf(),
        ensures
            final(self)@.wf(),
            r is Ok <==> (forall|i: int| 0 <= i < listing@.len() ==> starts_with(
                #[trigger] path_components(listing@[i]@),
                old(self)@.local_dir,
            )),
            r is Ok ==> final(self)@ == (StateView {
                local: rescanned(old(self)@.local, texts(listing@).map_values(|t: Seq<char>| path_components(t))),
                ..old(self)@
            }),
            r is Err ==> final(self)@ == old(self)@,
    {
        let ghost ps = texts(listing@).map_values(|t: Seq<char>| path_components(t));
        let ghost old_local = self@.local;
        let mut fresh: Vec<LocalEntry> = Vec::new();
        let mut i: usize = 0;
        while i < listing.len()
            invariant
                self@ == old(self)@,
                self@.wf(),
                old_local == self@.local,
                ps == texts(listing@).map_values(|t: Seq<char>| path_components(t)),
                i <= listing.len(),
                local_views(fresh@) == rescanned(old_local, ps.subrange(0, i as int)),
                forall|j: int| 0 <= j < i ==> starts_with(#[trigger] path_components(listing@[j]@), self@.local_dir),
            decreases listing.len() - i,
        {
            proof {
                assert(ps.subrange(0, i + 1).drop_last() =~= ps.subrange(0, i as int));
                assert(ps[i as int] == path_components(listing@[i as int]@));
            }
            let p = match LocalFeedPath::from_text(listing[i].as_str(), &self.local_feeds_dir) {
                Ok(p) => p,
                Err(e) => return Err(e),
            };
            match find_entry(&fresh, &p) {
                Some(_) => {},
                None => {
                    let found = find_entry(&self.local_posts, &p);
                    proof {
                        lemma_find_path(old_local, p@);
                    }
                    let posts = match found {
                        Some(k) => Posts {
                            posts: copy_posts(&self.local_posts[k].posts.posts),
                            fetched_at: self.local_posts[k].posts.fetched_at,
                        },
                        None => Posts::empty(),
                    };
                    let ghost prev = fresh@;
                    let ghost acc = local_views(prev);
                    let mut j: usize = 0;
                    proof {
                        lemma_insert_pos_range(acc, p@, 0);
                    }
                    while j < fresh.len() && !p.precedes(&fresh[j].path)
                        invariant
                            fresh@ == prev,
                            acc == local_views(prev),
                            j <= fresh@.len(),
                            insert_pos(acc, p@, 0) == insert_pos(acc, p@, j as int),
                        decreases fresh@.len() - j,
                    {
                        assert(acc[j as int].path == fresh@[j as int].path@);
                        j = j + 1;
                    }
                    proof {
                        if j < fresh@.len() {
                            assert(acc[j as int].path == fresh@[j as int].path@);
                        }
                    }
                    let e = LocalEntry { path: p, posts };
                    let ghost ev = e@;
                    fresh.insert(j, e);
                    proof {
                        assert(local_views(fresh@) =~= acc.insert(j as int, ev));
                    }
                },
            }
            i = i + 1;
        }
        proof {
            assert(ps.subrange(0, i as int) =~= ps);
            lemma_rescanned_wf(old_local, ps, self@.local_dir);
            lemma_rescanned_stamps(old_local, ps);
            lemma_rescanned_sorted(old_local, ps);
        }
        self.local_posts = fresh;
        Ok(())
    }

    /// Reloads the first `files.len()` local entries at `now` from the texts
    /// of their files, in entry order. Where reading a file failed, `files`
    /// holds the texts read before it.
    pub fn refresh_local_posts(&mut self, files: &Vec<String>, now: Timestamp)
        requires
            old(self)@.wf(),
            now.wf(),
            files@.len() <= old(self)@.local.len(),
        ensures
            final(self)@.wf(),
            final(self)@ == local_posts_refreshed(old(self)@, texts(files@), now),
    {
        let ghost fs = texts(files@);
        let mut i: usize = 0;
        proof {
            assert(locals_reloaded(old(self)@.local, fs.subrange(0, 0), now) =~= old(self)@.local);
            assert(self@ =~= local_posts_refreshed(old(self)@, fs.subrange(0, 0), now));
        }
        while i < files.len()
            invariant
                fs == texts(files@),
                i <= files.len(),
                files@.len() <= self.local_posts@.len(),
                self@ == local_posts_refreshed(old(self)@, fs.subrange(0, i as int), now),
            decreases files.len() - i,
        {
            self.reload_entry(i, files[i].as_str(), now);
            proof {
                assert(self@.local =~= locals_reloaded(old(self)@.local, fs.subrange(0, i + 1), now));
            }
            i = i + 1;
        }
        proof {
            assert(fs.subrange(0, i as int) =~= fs);
            assert(self@.local =~= locals_reloaded(old(self)@.local, fs, now));
            lemma_reload_keeps_paths(old(self)@.local, fs, now);
            let s = self@.local;
            assert forall|i: int| 0 <= i < s.len() implies (#[trigger] s[i]).batch.fetched_at.wf() by {
                if i >= fs.len() {
                    assert(s[i] == old(self)@.local[i]);
                }
            }
        }
    }

    /// Refills the batch at index `k` from the text of its file, at `now`.
    fn reload_entry(&mut self, k: usize, text: &str, now: Timestamp)
        requires
            k < old(self).local_posts@.len(),
        ensures
            final(self)@ == (StateView {
                local: old(self)@.local.update(
                    k as int,
                    LocalView { path: old(self)@.local[k as int].path, batch: BatchView { posts: feed_posts(text@), fetched_at: now } },
                ),
                ..old(self)@
            }),
    {
        let mut entry = self.local_posts.remove(k);
        entry.posts.posts = Vec::new();
        entry.posts.fetched_at = now;
        parse_items(text, &mut entry.posts.posts);
        assert(post_views(entry.posts.posts@) =~= feed_posts(text@));
        self.local_posts.insert(k, entry);
        assert(local_views(self.local_posts@) =~= old(self)@.local.update(
            k as int,
            LocalView { path: old(self)@.local[k as int].path, batch: BatchView { posts: feed_posts(text@), fetched_at: now } },
        ));
    }

    /// Reloads the batch of one local feed file from its text, at `now`.
    pub fn reload_local_feed(&mut self, path: &LocalFeedPath, text: &str, now: Timestamp) -> (r: Result<(), PerformError>)
        requires
            old(self)@.wf(),
            now.wf(),
        ensures
            final(self)@.wf(),
            r is Ok <==> find_path(old(self)@.local, path@) >= 0,
            r is Err ==> (r matches Err(PerformError::MissingLocalFile)) && final(self)@ == old(self)@,
            r is Ok ==> final(self)@ == (StateView {
                local: old(self)@.local.update(
                    find_path(old(self)@.local, path@),
                    LocalView { path: path@, batch: BatchView { posts: feed_posts(text@), fetched_at: now } },
                ),
                ..old(self)@
            }),
    {
        match find_entry(&self.local_posts, path) {
            Some(k) => {
                proof {
                    lemma_find_path(self@.local, path@);
                }
                self.reload_entry(k, text, now);
                proof {
                    let s = self@.local;
                    let o = old(self)@.local;
                    assert forall|i: int| 0 <= i < s.len() implies starts_with(#[trigger] s[i].path, self@.local_dir) by {
                        assert(s[i].path == o[i].path);
                    }
                    assert forall|i: int| 0 <= i < s.len() implies (#[trigger] s[i]).batch.fetched_at.wf() by {
                        if i != k {
                            assert(s[i] == o[i]);
                        }
                    }
                    assert forall|i: int, j: int| 0 <= i < s.len() && 0 <= j < s.len() && i != j implies s[i].path != s[j].path by {
                        assert(s[i].path == o[i].path);
                        assert(s[j].path == o[j].path);
                    }
                }
                Ok(())
            },
            None => Err(PerformError::MissingLocalFile),
        }
    }

    /// The stamp of the least recently refreshed local batch, or the latest
    /// representable instant where there is none.
    pub fn oldest_local_fetch(&self) -> (r: Timestamp)
        requires
            self@.wf(),
        ensures
            r == oldest_stamp(self@.local),
            r.wf(),
    {
        let mut acc = Timestamp::max_value();
        let mut i: usize = 0;
        while i < self.local_posts.len()
            invariant
                i <= self@.local.len(),
                self@.wf(),
                self@.local.len() == self.local_posts@.len(),
                acc == oldest_stamp(self@.local.subrange(0, i as int)),
                acc.wf(),
            decreases self.local_posts@.len() - i,
        {
            let t = self.local_posts[i].posts.fetched_at;
            proof {
                assert(t == self@.local[i as int].batch.fetched_at);
                assert(self@.local.subrange(0, i + 1).drop_last() =~= self@.local.subrange(0, i as int));
            }
            if t.is_before(&acc) {
                acc = t;
            }
            i = i + 1;
        }
        assert(self@.local.subrange(0, i as int) =~= self@.local);
        acc
    }

    /// Whether the state has an entry for the path.
    pub fn has_local_feed(&self, path: &LocalFeedPath) -> (r: bool)
        ensures
            r == (find_path(self@.local, path@) >= 0),
    {
        find_entry(&self.local_posts, path).is_some()
    }
}

/// The URL of a submitted remote feed, to be written to the remote feeds
/// file, or the form back with the parser's error.
pub fn prepare_remote_feed(form: RemoteFeedAddForm) -> (r: Result<(RemoteFeedAddForm, String), (RemoteFeedAddForm, PerformError)>)
    ensures
        match r {
            Ok((f, u)) => f.url@ == form.url@ && url_parse(form.url@) == Some(u@),
            Err((f, e)) => f.url@ == form.url@ && url_parse(form.url@) is None && e is UrlParse,
        },
{
    match check_url(form.url.as_str()) {
        Ok(u) => Ok((form, u)),
        Err(e) => Err((form, PerformError::UrlParse(e))),
    }
}

/// What `find_path` finds: an entry with the path, and none after it.
pub proof fn lemma_find_path(s: Seq<LocalView>, p: Seq<Seq<char>>)
    ensures
        -1 <= find_path(s, p) < s.len(),
        find_path(s, p) >= 0 ==> s[find_path(s, p)].path == p,
        forall|i: int| find_path(s, p) < i < s.len() ==> s[i].path != p,
    decreases s.len(),
{
    if s.len() > 0 {
        lemma_find_path(s.drop_last(), p);
        if s.last().path != p {
            assert forall|i: int| find_path(s, p) < i < s.len() implies s[i].path != p by {
                if i < s.len() - 1 {
                    assert(s[i] == s.drop_last()[i]);
                }
            }
        }
    }
}

/// A scan's entries have distinct paths, each one of the listed paths and
/// each the entry the scan gives its path; every listed path has one.
pub proof fn lemma_rescanned_paths(old: Seq<LocalView>, paths: Seq<Seq<Seq<char>>>)
    ensures
        distinct_paths(rescanned(old, paths)),
        forall|i: int| 0 <= i < rescanned(old, paths).len() ==> paths.contains(#[trigger] rescanned(old, paths)[i].path),
        forall|i: int|
            0 <= i < rescanned(old, paths).len() ==> #[trigger] rescanned(old, paths)[i] == entry_for(
                old,
                rescanned(old, paths)[i].path,
            ),
        forall|i: int| 0 <= i < paths.len() ==> find_path(rescanned(old, paths), #[trigger] paths[i]) >= 0,
    decreases paths.len(),
{
    if paths.len() > 0 {
        let init = paths.drop_last();
        lemma_rescanned_paths(old, init);
        let acc = rescanned(old, init);
        let p = paths.last();
        lemma_find_path(acc, p);
        lemma_entry_for_path(old, p);
        let r = rescanned(old, paths);
        if find_path(acc, p) >= 0 {
            assert forall|i: int| 0 <= i < r.len() implies paths.contains(#[trigger] r[i].path) by {
                let j = choose|j: int| 0 <= j < init.len() && init[j] == acc[i].path;
                assert(paths[j] == init[j]);
            }
            assert forall|i: int| 0 <= i < paths.len() implies find_path(r, #[trigger] paths[i]) >= 0 by {
                if i < init.len() {
                    assert(init[i] == paths[i]);
                }
            }
        } else {
            let pos = insert_pos(acc, p, 0);
            lemma_insert_pos_range(acc, p, 0);
            acc.insert_ensures(pos, entry_for(old, p));
            assert forall|i: int| 0 <= i < acc.len() implies acc[i].path != p by {
                lemma_find_path_none(acc, p, i);
            }
            // each entry of r is an entry of acc or the new one
            assert forall|i: int| 0 <= i < r.len() implies (i < pos && r[i] == acc[i]) || (i == pos && r[i] == entry_for(
                old,
                p,
            )) || (i > pos && r[i] == acc[i - 1]) by {
                if i > pos {
                    assert(r[(i - 1) + 1] == acc[i - 1]);
                }
            }
            assert forall|i: int| 0 <= i < r.len() implies paths.contains(#[trigger] r[i].path) by {
                if i == pos {
                    assert(paths[paths.len() - 1] == p);
                } else {
                    let a = if i < pos { i } else { i - 1 };
                    let j = choose|j: int| 0 <= j < init.len() && init[j] == acc[a].path;
                    assert(paths[j] == init[j]);
                }
            }
            assert forall|i: int| 0 <= i < r.len() implies #[trigger] r[i] == entry_for(old, r[i].path) by {
                if i != pos {
                    let a = if i < pos { i } else { i - 1 };
                    assert(acc[a] == entry_for(old, acc[a].path));
                }
            }
            assert forall|i: int, j: int| 0 <= i < r.len() && 0 <= j < r.len() && i != j implies r[i].path != r[j].path by {
                let a = if i < pos { i } else { i - 1 };
                let b = if j < pos { j } else { j - 1 };
                if i != pos && j != pos {
                    assert(a != b);
                }
            }
            assert forall|i: int| 0 <= i < paths.len() implies find_path(r, #[trigger] paths[i]) >= 0 by {
                if i < init.len() {
                    assert(init[i] == paths[i]);
                    let k = find_path(acc, paths[i]);
                    lemma_find_path(acc, paths[i]);
                    let kk = if k < pos { k } else { k + 1 };
                    assert(r[kk] == acc[k]);
                    lemma_find_path_some(r, paths[i], kk);
                } else {
                    lemma_find_path_some(r, p, pos);
                }
            }
        }
    }
}

/// An entry with the path means that `find_path` finds one.
pub proof fn lemma_find_path_some(s: Seq<LocalView>, p: Seq<Seq<char>>, i: int)
    requires
        0 <= i < s.len(),
        s[i].path == p,
    ensures
        find_path(s, p) >= i,
    decreases s.len(),
{
    if s.last().path != p {
        assert(s.drop_last()[i] == s[i]);
        lemma_find_path_some(s.drop_last(), p, i);
    }
}

/// Where `find_path` finds nothing, no entry has the path.
pub proof fn lemma_find_path_none(s: Seq<LocalView>, p: Seq<Seq<char>>, i: int)
    requires
        0 <= i < s.len(),
        find_path(s, p) < 0,
    ensures
        s[i].path != p,
{
    if s[i].path == p {
        lemma_find_path_some(s, p, i);
    }
}

/// A scan's batches are ones the entries had, or fresh ones, so their stamps
/// stay well formed.
proof fn lemma_rescanned_stamps(old: Seq<LocalView>, paths: Seq<Seq<Seq<char>>>)
    requires
        forall|i: int| 0 <= i < old.len() ==> (#[trigger] old[i]).batch.fetched_at.wf(),
    ensures
        forall|i: int| 0 <= i < rescanned(old, paths).len() ==> (#[trigger] rescanned(old, paths)[i]).batch.fetched_at.wf(),
    decreases paths.len(),
{
    if paths.len() > 0 {
        lemma_rescanned_stamps(old, paths.drop_last());
        lemma_find_path(old, paths.last());
        let acc = rescanned(old, paths.drop_last());
        let r = rescanned(old, paths);
        let p = paths.last();
        if find_path(acc, p) < 0 {
            let pos = insert_pos(acc, p, 0);
            lemma_insert_pos_range(acc, p, 0);
            acc.insert_ensures(pos, entry_for(old, p));
            assert forall|i: int| 0 <= i < r.len() implies (#[trigger] r[i]).batch.fetched_at.wf() by {
                if i > pos {
                    assert(r[(i - 1) + 1] == acc[i - 1]);
                }
            }
        }
    }
}

/// A scan of paths inside the directory keeps the state well formed.
proof fn lemma_rescanned_wf(old: Seq<LocalView>, paths: Seq<Seq<Seq<char>>>, dir: Seq<Seq<char>>)
    requires
        forall|i: int| 0 <= i < paths.len() ==> starts_with(#[trigger] paths[i], dir),
    ensures
        distinct_paths(rescanned(old, paths)),
        forall|i: int| 0 <= i < rescanned(old, paths).len() ==> starts_with(#[trigger] rescanned(old, paths)[i].path, dir),
{
    lemma_rescanned_paths(old, paths);
    let r = rescanned(old, paths);
    assert forall|i: int| 0 <= i < r.len() implies starts_with(#[trigger] r[i].path, dir) by {
        assert(paths.contains(r[i].path));
    }
}

/// Reloading batches keeps the paths, so the state stays well formed.
proof fn lemma_reload_keeps_paths(local: Seq<LocalView>, files: Seq<Seq<char>>, now: Timestamp)
    ensures
        locals_reloaded(local, files, now).len() == local.len(),
        forall|i: int| 0 <= i < local.len() ==> (#[trigger] locals_reloaded(local, files, now)[i]).path == local[i].path,
{
}

/// A refresh never moves a batch's stamp back in time, as long as the clock
/// reading it is stamped with is no earlier than the stamp it had: this holds
/// of the remote feed list, of the remote posts, and of every local batch,
/// whether the refresh then succeeded or not. (A refresh that fails before it
/// starts leaves the state as it was.)
pub proof fn refresh_stamps_never_decrease(
    s: StateView,
    text: Seq<char>,
    bodies: Seq<Seq<char>>,
    files: Seq<Seq<char>>,
    now: Timestamp,
)
    ensures
        s.remote_feeds.fetched_at.instant() <= now.instant() ==> urls_refreshed(s, text, now).remote_feeds.fetched_at.instant()
            >= s.remote_feeds.fetched_at.instant(),
        s.remote_feeds.fetched_at.instant() <= now.instant() ==> urls_unreadable(s, now).remote_feeds.fetched_at.instant()
            >= s.remote_feeds.fetched_at.instant(),
        s.remote_posts.fetched_at.instant() <= now.instant() ==> remote_posts_refreshed(s, bodies, now).remote_posts.fetched_at.instant()
            >= s.remote_posts.fetched_at.instant(),
        forall|i: int|
            0 <= i < s.local.len() && s.local[i].batch.fetched_at.instant() <= now.instant() ==> (#[trigger] local_posts_refreshed(
                s,
                files,
                now,
            ).local[i]).batch.fetched_at.instant() >= s.local[i].batch.fetched_at.instant(),
{
}

/// A full local refresh, a scan of the directory and then a reload of the
/// files read, never moves the stamp of a local feed file back in time: for
/// every path that was there before and is there after, the new stamp is no
/// earlier than the old one, as long as the clock reading `now` is no
/// earlier than that old stamp. This holds whether all the files were read
/// or reading stopped early; a scan that fails changes nothing.
pub proof fn local_refresh_never_moves_stamps_back(
    old: Seq<LocalView>,
    paths: Seq<Seq<Seq<char>>>,
    files: Seq<Seq<char>>,
    now: Timestamp,
)
    requires
        distinct_paths(old),
    ensures
        forall|i: int, k: int|
            0 <= i < old.len() && 0 <= k < rescanned(old, paths).len() && #[trigger] locals_reloaded(
                rescanned(old, paths),
                files,
                now,
            )[k].path == #[trigger] old[i].path && old[i].batch.fetched_at.instant() <= now.instant()
                ==> locals_reloaded(rescanned(old, paths), files, now)[k].batch.fetched_at.instant()
                >= old[i].batch.fetched_at.instant(),
{
    let r = rescanned(old, paths);
    lemma_rescanned_paths(old, paths);
    assert forall|i: int, k: int|
        0 <= i < old.len() && 0 <= k < r.len() && #[trigger] locals_reloaded(r, files, now)[k].path == #[trigger] old[i].path
            && old[i].batch.fetched_at.instant() <= now.instant() implies locals_reloaded(r, files, now)[k].batch.fetched_at.instant()
        >= old[i].batch.fetched_at.instant() by {
        let p = old[i].path;
        assert(r[k] == entry_for(old, r[k].path));
        assert(r[k].path == p);
        lemma_find_path_some(old, p, i);
        lemma_find_path(old, p);
        assert(find_path(old, p) == i);
    }
}

/// The entry that a scan gives a path has that path.
proof fn lemma_entry_for_path(old: Seq<LocalView>, p: Seq<Seq<char>>)
    ensures
        entry_for(old, p).path == p,
{
    lemma_find_path(old, p);
}

/// The place found for a new path: every entry searched before it comes no
/// later than the path, and the entry at it comes after the path.
proof fn lemma_insert_pos_order(acc: Seq<LocalView>, p: Seq<Seq<char>>, i: int)
    requires
        0 <= i <= acc.len(),
    ensures
        forall|j: int| i <= j < insert_pos(acc, p, i) ==> !path_lt(p, #[trigger] acc[j].path),
        insert_pos(acc, p, i) < acc.len() ==> path_lt(p, acc[insert_pos(acc, p, i)].path),
    decreases acc.len() - i,
{
    if i < acc.len() && !path_lt(p, acc[i].path) {
        lemma_insert_pos_order(acc, p, i + 1);
    }
}

/// A scan's entries are in path order.
pub proof fn lemma_rescanned_sorted(old: Seq<LocalView>, paths: Seq<Seq<Seq<char>>>)
    ensures
        sorted_paths(rescanned(old, paths)),
    decreases paths.len(),
{
    if paths.len() > 0 {
        let init = paths.drop_last();
        lemma_rescanned_sorted(old, init);
        lemma_rescanned_paths(old, init);
        let acc = rescanned(old, init);
        let p = paths.last();
        let r = rescanned(old, paths);
        if find_path(acc, p) < 0 {
            let pos = insert_pos(acc, p, 0);
            lemma_insert_pos_range(acc, p, 0);
            lemma_insert_pos_order(acc, p, 0);
            lemma_entry_for_path(old, p);
            acc.insert_ensures(pos, entry_for(old, p));
            assert forall|j: int| 0 <= j < acc.len() implies acc[j].path != p by {
                lemma_find_path_none(acc, p, j);
            }
            assert forall|j: int| 0 <= j < pos implies path_lt(#[trigger] acc[j].path, p) by {
                lemma_path_lt_total(acc[j].path, p);
            }
            assert forall|j: int| pos <= j < acc.len() implies path_lt(p, #[trigger] acc[j].path) by {
                if j > pos {
                    lemma_path_lt_transitive(p, acc[pos].path, acc[j].path);
                }
            }
            assert forall|i: int, j: int| 0 <= i < j < r.len() implies path_lt(r[i].path, r[j].path) by {
                if j > pos {
                    assert(r[(j - 1) + 1] == acc[j - 1]);
                }
                if i > pos {
                    assert(r[(i - 1) + 1] == acc[i - 1]);
                }
            }
        }
    }
}

/// Where the search for a place starts, the place found is no earlier, and
/// within the entries or just after them.
proof fn lemma_insert_pos_range(acc: Seq<LocalView>, p: Seq<Seq<char>>, i: int)
    requires
        0 <= i <= acc.len(),
    ensures
        i <= insert_pos(acc, p, i) <= acc.len(),
    decreases acc.len() - i,
{
    if i < acc.len() && !path_lt(p, acc[i].path) {
        lemma_insert_pos_range(acc, p, i + 1);
    }
}

/// A scan's result depends on the earlier entries only through the entries
/// it gives the listed paths.
proof fn lemma_rescanned_congruent(x: Seq<LocalView>, y: Seq<LocalView>, paths: Seq<Seq<Seq<char>>>)
    requires
        forall|j: int| 0 <= j < paths.len() ==> entry_for(x, #[trigger] paths[j]) == entry_for(y, paths[j]),
    ensures
        rescanned(x, paths) == rescanned(y, paths),
    decreases paths.len(),
{
    if paths.len() > 0 {
        let init = paths.drop_last();
        assert forall|j: int| 0 <= j < init.len() implies entry_for(x, #[trigger] init[j]) == entry_for(y, init[j]) by {
            assert(init[j] == paths[j]);
        }
        lemma_rescanned_congruent(x, y, init);
        assert(entry_for(x, paths[paths.len() - 1]) == entry_for(y, paths[paths.len() - 1]));
    }
}

/// After a scan, each listed path's entry is the one the scan gave it.
proof fn lemma_rescanned_keeps_entries(old: Seq<LocalView>, paths: Seq<Seq<Seq<char>>>, p: Seq<Seq<char>>)
    requires
        paths.contains(p),
    ensures
        entry_for(rescanned(old, paths), p) == entry_for(old, p),
{
    let r = rescanned(old, paths);
    lemma_rescanned_paths(old, paths);
    let j = choose|j: int| 0 <= j < paths.len() && paths[j] == p;
    assert(find_path(r, paths[j]) >= 0);
    lemma_find_path(r, p);
    let k = find_path(r, p);
    assert(r[k] == entry_for(old, r[k].path));
}

/// Scanning twice with the same listing gives what one scan gives: the same
/// paths, in the same order, each with the batch the first scan left it. And
/// a scan keeps, unchanged, the batch of every path that it lists again.
pub proof fn rescan_is_idempotent(old: Seq<LocalView>, paths: Seq<Seq<Seq<char>>>)
    requires
        distinct_paths(old),
    ensures
        rescanned(rescanned(old, paths), paths) == rescanned(old, paths),
        forall|i: int| 0 <= i < old.len() && paths.contains(#[trigger] old[i].path) ==> rescanned(old, paths).contains(old[i]),
{
    let r = rescanned(old, paths);
    assert forall|j: int| 0 <= j < paths.len() implies entry_for(r, #[trigger] paths[j]) == entry_for(old, paths[j]) by {
        lemma_rescanned_keeps_entries(old, paths, paths[j]);
    }
    lemma_rescanned_congruent(r, old, paths);
    lemma_rescanned_paths(old, paths);
    assert forall|i: int| 0 <= i < old.len() && paths.contains(#[trigger] old[i].path) implies r.contains(old[i]) by {
        let p = old[i].path;
        lemma_find_path_some(old, p, i);
        lemma_find_path(old, p);
        assert(find_path(old, p) == i);
        let j = choose|j: int| 0 <= j < paths.len() && paths[j] == p;
        assert(find_path(r, paths[j]) >= 0);
        lemma_find_path(r, p);
        let k = find_path(r, p);
        assert(r[k] == entry_for(old, r[k].path));
    }
}

} // verus!
