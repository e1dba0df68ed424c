//! Appending a post to a local Atom feed: the entry's content-derived id,
//! its title, and the new text of the feed.
use vstd::prelude::*;
use atom_syndication::{Content, Entry, Feed, Link, Text};
use chrono::{DateTime, FixedOffset};
use meowhash::MeowHasher;
use crate::syndicated::{atom_entries, copy_text_opt, copy_texts, feed_entries, feed_text, opt_text, read_feed, texts, AtomEntryView, Post, PostView};
use crate::timestamp::Timestamp;
use crate::paths::utf8;

verus! {

/// The `n` low bytes of `x`, least significant first.
pub open spec fn le_bytes(x: nat, n: nat) -> Seq<u8>
    decreases n,
{
    if n == 0 {
        seq![]
    } else {
        seq![(x % 256) as u8] + le_bytes(x / 256, (n - 1) as nat)
    }
}

/// The UTF-8 bytes of an optional text; none where it is absent.
pub open spec fn opt_utf8(o: Option<Seq<char>>) -> Seq<u8> {
    match o {
        Some(s) => utf8(s),
        None => seq![],
    }
}

/// The UTF-8 bytes of several texts, one after another.
pub open spec fn all_utf8(ls: Seq<Seq<char>>) -> Seq<u8>
    decreases ls.len(),
{
    if ls.len() == 0 {
        seq![]
    } else {
        all_utf8(ls.drop_last()) + utf8(ls.last())
    }
}

/// What the id of an entry is derived from: the instant's seconds and
/// nanoseconds as little-endian two's complement, then the title, the
/// content, the summary and each link.
pub open spec fn hash_input_of(at: Timestamp, title: Seq<char>, post: PostView) -> Seq<u8> {
    le_bytes((at.unix_seconds as u64) as nat, 8) + le_bytes(at.nanosecond as nat, 4) + utf8(title) + opt_utf8(
        post.content,
    ) + opt_utf8(post.summary) + all_utf8(post.links)
}

/// Appends the `n` low bytes of `x`, least significant first.
fn push_le_bytes(out: &mut Vec<u8>, x: u64, n: usize)
    requires
        n <= 8,
    ensures
        final(out)@ == old(out)@ + le_bytes(x as nat, n as nat),
    decreases n,
{
    if n > 0 {
        out.push((x % 256) as u8);
        push_le_bytes(out, x / 256, n - 1);
        assert(out@ =~= old(out)@ + le_bytes(x as nat, n as nat));
    } else {
        assert(out@ =~= old(out)@ + le_bytes(x as nat, n as nat));
    }
}

/// Appends the UTF-8 bytes of a text.
fn push_utf8(out: &mut Vec<u8>, s: &str)
    ensures
        final(out)@ == old(out)@ + utf8(s@),
{
    let b = s.as_bytes();
    let mut i: usize = 0;
    while i < b.len()
        invariant
            b@ == utf8(s@),
            i <= b@.len(),
            out@ == old(out)@ + b@.subrange(0, i as int),
        decreases b@.len() - i,
    {
        out.push(b[i]);
        i = i + 1;
        assert(out@ =~= old(out)@ + b@.subrange(0, i as int));
    }
    assert(b@.subrange(0, b@.len() as int) =~= b@);
}

/// The bytes that an entry's id is the hash of.
pub fn hash_input(at: &Timestamp, title: &str, post: &Post) -> (r: Vec<u8>)
    ensures
        r@ == hash_input_of(*at, title@, post@),
{
    let mut r: Vec<u8> = Vec::new();
    push_le_bytes(&mut r, at.unix_seconds as u64, 8);
    push_le_bytes(&mut r, at.nanosecond as u64, 4);
    push_utf8(&mut r, title);
    match &post.content {
        Some(c) => push_utf8(&mut r, c.as_str()),
        None => {},
    }
    match &post.summary {
        Some(s) => push_utf8(&mut r, s.as_str()),
        None => {},
    }
    let ghost before_links = r@;
    let mut i: usize = 0;
    while i < post.links.len()
        invariant
            i <= post.links@.len(),
            r@ == before_links + all_utf8(texts(post.links@.subrange(0, i as int))),
        decreases post.links@.len() - i,
    {
        proof {
            assert(texts(post.links@.subrange(0, i + 1)).drop_last() =~= texts(post.links@.subrange(0, i as int)));
        }
        push_utf8(&mut r, post.links[i].as_str());
        i = i + 1;
        assert(r@ =~= before_links + all_utf8(texts(post.links@.subrange(0, i as int))));
    }
    assert(post.links@.subrange(0, post.links@.len() as int) =~= post.links@);
    assert(r@ =~= hash_input_of(*at, title@, post@));
    r
}

/// The 128-bit Meow hash of some bytes.
pub uninterp spec fn meow_hash(data: Seq<u8>) -> u128;

/// Relies on `meowhash::MeowHasher::hash` and `MeowHash::as_u128`: the hash
/// of the bytes, folded to 128 bits. The hasher absorbs its input as one
/// stream, so this is the hash of the parts fed one after another.
#[verifier::external_body]
fn meow_digest(data: &Vec<u8>) -> (r: u128)
    ensures
        r == meow_hash(data@),
{
    MeowHasher::hash(data.as_slice()).as_u128()
}

/// The upper-case hexadecimal digit of a value below sixteen.
pub open spec fn hex_char(d: nat) -> char {
    if d < 10 {
        ('0' as u8 + d) as char
    } else {
        ('A' as u8 + d - 10) as char
    }
}

/// A number in upper-case hexadecimal, without leading zeros.
pub open spec fn hex_text(n: nat) -> Seq<char>
    decreases n,
{
    if n < 16 {
        seq![hex_char(n)]
    } else {
        hex_text(n / 16) + seq![hex_char(n % 16)]
    }
}

/// Appends a number in upper-case hexadecimal, without leading zeros.
fn push_hex(out: &mut String, n: u128)
    ensures
        final(out)@ == old(out)@ + hex_text(n as nat),
    decreases n,
{
    if n >= 16 {
        push_hex(out, n / 16);
    }
    let d = (n % 16) as usize;
    proof {
        reveal_strlit("0123456789ABCDEF");
    }
    let digits = "0123456789ABCDEF";
    let digit = digits.substring_char(d, d + 1);
    assert(digit@ =~= seq![hex_char(d as nat)]);
    out.append(digit);
    assert(out@ =~= old(out)@ + hex_text(n as nat));
}

/// The id of an entry whose hash is `h`: `mh:` and the hash in upper-case
/// hexadecimal.
pub open spec fn entry_id_text(h: u128) -> Seq<char> {
    seq!['m', 'h', ':'] + hex_text(h as nat)
}

/// The id of an entry whose hash is `h`.
pub fn entry_id(h: u128) -> (r: String)
    ensures
        r@ == entry_id_text(h),
{
    proof {
        reveal_strlit("mh:");
    }
    let mut r = String::from_str("mh:");
    push_hex(&mut r, h);
    r
}

/// The RFC 3339 text that the date library writes for an instant at its
/// offset.
pub uninterp spec fn chrono_rfc3339(unix_seconds: int, nanosecond: int, offset_seconds: int) -> Seq<char>;

/// Relies on `chrono::DateTime::from_timestamp`, `FixedOffset::east_opt` and
/// `DateTime::to_rfc3339`. The instant and offset of a well-formed timestamp
/// lie in the ranges those accept.
#[verifier::external_body]
fn rfc3339_of(at: &Timestamp) -> (r: String)
    requires
        at.wf(),
    ensures
        r@ == chrono_rfc3339(at.unix_seconds as int, at.nanosecond as int, at.offset.seconds as int),
{
    let offset = FixedOffset::east_opt(at.offset.seconds).unwrap();
    DateTime::from_timestamp(at.unix_seconds, at.nanosecond).unwrap().with_timezone(&offset).to_rfc3339()
}

/// A new Atom entry, as plain values.
pub struct NewEntry {
    pub id: String,
    pub title: String,
    pub summary: Option<String>,
    pub content: Option<String>,
    pub links: Vec<String>,
    pub at: Timestamp,
}

/// The title of the entry for a post made at `at`: the post's own, else the
/// instant in RFC 3339.
pub open spec fn entry_title(post: PostView, at: Timestamp) -> Seq<char> {
    match post.title {
        Some(t) => t,
        None => chrono_rfc3339(at.unix_seconds as int, at.nanosecond as int, at.offset.seconds as int),
    }
}

/// The entry for a post made at `at`, its id derived from `hash`, the hash
/// of its contents.
pub fn entry_with_hash(post: &Post, at: Timestamp, title: String, hash: u128) -> (r: NewEntry)
    ensures
        r.id@ == entry_id_text(hash),
        r.title@ == title@,
        opt_text(r.summary) == post@.summary,
        opt_text(r.content) == post@.content,
        texts(r.links@) == post@.links,
        r.at == at,
{
    NewEntry {
        id: entry_id(hash),
        title,
        summary: copy_text_opt(&post.summary),
        content: copy_text_opt(&post.content),
        links: copy_texts(&post.links),
        at,
    }
}

/// The entry for a post made at `at`: its title the post's or the instant's,
/// its id `mh:` and the Meow hash of the instant and the post's texts, its
/// summary, content and links the post's.
pub fn new_entry(post: &Post, at: Timestamp) -> (r: NewEntry)
    requires
        at.wf(),
    ensures
        r.title@ == entry_title(post@, at),
        r.id@ == entry_id_text(meow_hash(hash_input_of(at, entry_title(post@, at), post@))),
        opt_text(r.summary) == post@.summary,
        opt_text(r.content) == post@.content,
        texts(r.links@) == post@.links,
        r.at == at,
{
    let title = match &post.title {
        Some(t) => t.clone(),
        None => rfc3339_of(&at),
    };
    let data = hash_input(&at, title.as_str(), post);
    let hash = meow_digest(&data);
    entry_with_hash(post, at, title, hash)
}

/// The Atom entry a new entry becomes: its dates both its instant.
pub open spec fn entry_view(e: NewEntry) -> AtomEntryView {
    AtomEntryView {
        id: e.id@,
        title: e.title@,
        summary: opt_text(e.summary),
        content: opt_text(e.content),
        links: texts(e.links@),
        updated: e.at,
        published: Some(e.at),
    }
}

/// Relies on `Vec::push` on the public `entries` of `atom_syndication::Feed`,
/// on `Entry::default`, `Content::default`, `Link::default`, `Text::plain`
/// and `From<String> for Text`, and on chrono's `DateTime::from_timestamp`
/// and `FixedOffset::east_opt`, whose ranges a well-formed timestamp keeps
/// to: the feed gains, after its entries, the entry with these values.
#[verifier::external_body]
fn push_entry(f: &mut Feed, e: &NewEntry)
    requires
        e.at.wf(),
    ensures
        feed_entries(*final(f)) == feed_entries(*old(f)).push(entry_view(*e)),
{
    let offset = FixedOffset::east_opt(e.at.offset.seconds).unwrap();
    let at = DateTime::from_timestamp(e.at.unix_seconds, e.at.nanosecond).unwrap().with_timezone(&offset);
    f.entries.push(Entry {
        id: e.id.clone(),
        title: e.title.clone().into(),
        updated: at,
        published: Some(at),
        summary: e.summary.clone().map(Text::plain),
        content: e.content.clone().map(|v| Content { value: Some(v), ..Content::default() }),
        links: e.links.iter().map(|h| Link { href: h.clone(), ..Link::default() }).collect(),
        ..Entry::default()
    });
}

/// Relies on `atom_syndication::Feed::write_to`, which fails only where its
/// writer does, and a `Vec` never does: the text of the feed.
#[verifier::external_body]
fn write_feed(f: &Feed) -> (r: String)
    ensures
        r@ == feed_text(*f),
{
    f.write_to(Vec::new()).map(|v| String::from_utf8_lossy(&v).into_owned()).unwrap_or_default()
}

/// The Atom entry for a post made at `at`.
pub open spec fn new_entry_view(post: PostView, at: Timestamp) -> AtomEntryView {
    AtomEntryView {
        id: entry_id_text(meow_hash(hash_input_of(at, entry_title(post, at), post))),
        title: entry_title(post, at),
        summary: post.summary,
        content: post.content,
        links: post.links,
        updated: at,
        published: Some(at),
    }
}

/// The text of a local feed after the post was appended at `at`: the text
/// the Atom writer writes for the feed read from `text` with the entry of
/// `new_entry` after all its entries. Fails, before anything is written,
/// exactly where the text is no Atom feed.
pub fn add_post(text: &str, post: &Post, at: Timestamp) -> (r: Result<String, atom_syndication::Error>)
    requires
        at.wf(),
    ensures
        r is Ok <==> atom_entries(text@) is Some,
        r matches Ok(t) ==> exists|f: Feed|
            feed_entries(f) == atom_entries(text@).unwrap().push(new_entry_view(post@, at)) && #[trigger] feed_text(f)
                == t@,
{
    let mut feed = match read_feed(text) {
        Ok(f) => f,
        Err(e) => return Err(e),
    };
    let e = new_entry(post, at);
    push_entry(&mut feed, &e);
    let t = write_feed(&feed);
    assert(entry_view(e) == new_entry_view(post@, at));
    Ok(t)
}

} // verus!
