//! The data root and the sandboxed directory of local feed files. A path is
//! held as the sequence of its components, the way the platform splits it.
use vstd::prelude::*;
use crate::syndicated::texts;

verus! {

/// The name of the directory, under the root, that holds the local feeds.
pub const LOCAL_FEEDS: &'static str = "local-feeds";

/// The name of the file, under the root, that lists the remote feeds.
pub const REMOTE_FEEDS: &'static str = "remote-feeds";

/// Whether the components `prefix` begin the components `path`.
pub open spec fn starts_with(path: Seq<Seq<char>>, prefix: Seq<Seq<char>>) -> bool {
    prefix.len() <= path.len() && path.subrange(0, prefix.len() as int) == prefix
}

/// The components into which the platform splits a path text.
pub uninterp spec fn path_components(text: Seq<char>) -> Seq<Seq<char>>;

/// Relies on `std::path::Path::components`: splits a path text into its
/// components (`/` for the root, `.` and `..` as written, each name as it
/// stands).
#[verifier::external_body]
fn split_path(text: &str) -> (r: Vec<String>)
    ensures
        texts(r@) == path_components(text@),
{
    std::path::Path::new(text).components().map(|c| c.as_os_str().to_string_lossy().into_owned()).collect()
}

/// The UTF-8 bytes of a text.
pub open spec fn utf8(s: Seq<char>) -> Seq<u8> {
    vstd::utf8::encode_utf8(s)
}

/// Whether the bytes `a` come before the bytes `b`: at the first byte where
/// they differ, or by being a proper prefix.
pub open spec fn bytes_lt(a: Seq<u8>, b: Seq<u8>) -> bool
    decreases a.len(),
{
    if a.len() == 0 {
        b.len() > 0
    } else if b.len() == 0 {
        false
    } else if a[0] != b[0] {
        a[0] < b[0]
    } else {
        bytes_lt(a.drop_first(), b.drop_first())
    }
}

/// Whether the path `a` comes before the path `b`: component by component,
/// each compared by its bytes, a proper prefix first.
pub open spec fn path_lt(a: Seq<Seq<char>>, b: Seq<Seq<char>>) -> bool
    decreases a.len(),
{
    if a.len() == 0 {
        b.len() > 0
    } else if b.len() == 0 {
        false
    } else if utf8(a[0]) != utf8(b[0]) {
        bytes_lt(utf8(a[0]), utf8(b[0]))
    } else {
        path_lt(a.drop_first(), b.drop_first())
    }
}

/// No byte string comes before itself.
pub proof fn lemma_bytes_lt_irreflexive(a: Seq<u8>)
    ensures
        !bytes_lt(a, a),
    decreases a.len(),
{
    if a.len() > 0 {
        lemma_bytes_lt_irreflexive(a.drop_first());
    }
}

/// The order of byte strings is transitive.
pub proof fn lemma_bytes_lt_transitive(a: Seq<u8>, b: Seq<u8>, c: Seq<u8>)
    requires
        bytes_lt(a, b),
        bytes_lt(b, c),
    ensures
        bytes_lt(a, c),
    decreases a.len(),
{
    if a.len() > 0 && b.len() > 0 && c.len() > 0 && a[0] == b[0] && b[0] == c[0] {
        lemma_bytes_lt_transitive(a.drop_first(), b.drop_first(), c.drop_first());
    }
}

/// Of two different byte strings, one comes before the other.
pub proof fn lemma_bytes_lt_total(a: Seq<u8>, b: Seq<u8>)
    requires
        a != b,
    ensures
        bytes_lt(a, b) || bytes_lt(b, a),
    decreases a.len(),
{
    if a.len() > 0 && b.len() > 0 && a[0] == b[0] {
        if a.drop_first() == b.drop_first() {
            assert(a =~= seq![a[0]] + a.drop_first());
            assert(b =~= seq![b[0]] + b.drop_first());
        }
        lemma_bytes_lt_total(a.drop_first(), b.drop_first());
    } else if a.len() == 0 && b.len() == 0 {
        assert(a =~= b);
    }
}

/// No path comes before itself.
pub proof fn lemma_path_lt_irreflexive(a: Seq<Seq<char>>)
    ensures
        !path_lt(a, a),
    decreases a.len(),
{
    if a.len() > 0 {
        lemma_path_lt_irreflexive(a.drop_first());
    }
}

/// The order of paths is transitive.
pub proof fn lemma_path_lt_transitive(a: Seq<Seq<char>>, b: Seq<Seq<char>>, c: Seq<Seq<char>>)
    requires
        path_lt(a, b),
        path_lt(b, c),
    ensures
        path_lt(a, c),
    decreases a.len(),
{
    if a.len() > 0 && b.len() > 0 && c.len() > 0 {
        let (x, y, z) = (utf8(a[0]), utf8(b[0]), utf8(c[0]));
        if x == y && y == z {
            lemma_path_lt_transitive(a.drop_first(), b.drop_first(), c.drop_first());
        } else if x == y {
            assert(bytes_lt(x, z));
        } else if y == z {
            assert(bytes_lt(x, z));
        } else {
            lemma_bytes_lt_transitive(x, y, z);
            if x == z {
                lemma_bytes_lt_irreflexive(x);
            }
        }
    }
}

/// Of two different paths, one comes before the other.
pub proof fn lemma_path_lt_total(a: Seq<Seq<char>>, b: Seq<Seq<char>>)
    requires
        a != b,
    ensures
        path_lt(a, b) || path_lt(b, a),
    decreases a.len(),
{
    if a.len() > 0 && b.len() > 0 {
        if utf8(a[0]) == utf8(b[0]) {
            vstd::utf8::encode_utf8_decode_utf8(a[0]);
            vstd::utf8::encode_utf8_decode_utf8(b[0]);
            assert(a[0] == b[0]);
            if a.drop_first() == b.drop_first() {
                assert(a =~= seq![a[0]] + a.drop_first());
                assert(b =~= seq![b[0]] + b.drop_first());
            }
            lemma_path_lt_total(a.drop_first(), b.drop_first());
        } else {
            lemma_bytes_lt_total(utf8(a[0]), utf8(b[0]));
        }
    } else if a.len() == 0 && b.len() == 0 {
        assert(a =~= b);
    }
}

/// Whether two byte strings are equal, and whether the first comes before
/// the second.
fn compare_bytes(a: &[u8], b: &[u8]) -> (r: (bool, bool))
    ensures
        r.0 == (a@ == b@),
        r.1 == bytes_lt(a@, b@),
{
    let n = if a.len() < b.len() {
        a.len()
    } else {
        b.len()
    };
    let mut i: usize = 0;
    assert(a@.subrange(0, a@.len() as int) =~= a@);
    assert(b@.subrange(0, b@.len() as int) =~= b@);
    while i < n
        invariant
            n <= a@.len(),
            n <= b@.len(),
            n == a@.len() || n == b@.len(),
            i <= n,
            a@.subrange(0, i as int) == b@.subrange(0, i as int),
            bytes_lt(a@, b@) == bytes_lt(a@.subrange(i as int, a@.len() as int), b@.subrange(i as int, b@.len() as int)),
        decreases n - i,
    {
        let ghost ra = a@.subrange(i as int, a@.len() as int);
        let ghost rb = b@.subrange(i as int, b@.len() as int);
        assert(ra[0] == a@[i as int]);
        assert(rb[0] == b@[i as int]);
        if a[i] != b[i] {
            assert(a@[i as int] != b@[i as int]);
            return (false, a[i] < b[i]);
        }
        assert(ra.drop_first() =~= a@.subrange(i + 1, a@.len() as int));
        assert(rb.drop_first() =~= b@.subrange(i + 1, b@.len() as int));
        assert(a@.subrange(0, i + 1) =~= a@.subrange(0, i as int).push(a@[i as int]));
        assert(b@.subrange(0, i + 1) =~= b@.subrange(0, i as int).push(b@[i as int]));
        i = i + 1;
    }
    let ghost ra = a@.subrange(i as int, a@.len() as int);
    let ghost rb = b@.subrange(i as int, b@.len() as int);
    if a.len() == b.len() {
        assert(a@ =~= a@.subrange(0, i as int));
        assert(b@ =~= b@.subrange(0, i as int));
        assert(ra.len() == 0 && rb.len() == 0);
        (true, false)
    } else {
        if a.len() < b.len() {
            assert(ra.len() == 0 && rb.len() > 0);
            assert(a@.len() != b@.len());
        } else {
            assert(rb.len() == 0 && ra.len() > 0);
        }
        (false, a.len() < b.len())
    }
}

/// Whether the components `a` come before the components `b`.
pub fn components_precede(a: &Vec<String>, b: &Vec<String>) -> (r: bool)
    ensures
        r == path_lt(texts(a@), texts(b@)),
{
    let ghost ta = texts(a@);
    let ghost tb = texts(b@);
    let n = if a.len() < b.len() {
        a.len()
    } else {
        b.len()
    };
    let mut i: usize = 0;
    assert(ta.subrange(0, ta.len() as int) =~= ta);
    assert(tb.subrange(0, tb.len() as int) =~= tb);
    while i < n
        invariant
            ta == texts(a@),
            tb == texts(b@),
            n <= a@.len(),
            n <= b@.len(),
            n == a@.len() || n == b@.len(),
            i <= n,
            path_lt(ta, tb) == path_lt(ta.subrange(i as int, ta.len() as int), tb.subrange(i as int, tb.len() as int)),
        decreases n - i,
    {
        let ghost ra = ta.subrange(i as int, ta.len() as int);
        let ghost rb = tb.subrange(i as int, tb.len() as int);
        assert(ra[0] == a@[i as int]@);
        assert(rb[0] == b@[i as int]@);
        let (same, before) = compare_bytes(a[i].as_str().as_bytes(), b[i].as_str().as_bytes());
        if !same {
            return before;
        }
        assert(ra.drop_first() =~= ta.subrange(i + 1, ta.len() as int));
        assert(rb.drop_first() =~= tb.subrange(i + 1, tb.len() as int));
        i = i + 1;
    }
    a.len() < b.len()
}

/// The text of a path: its components joined by `/`, with no separator
/// after the root component.
pub open spec fn path_text(cs: Seq<Seq<char>>) -> Seq<char>
    decreases cs.len(),
{
    if cs.len() == 0 {
        seq![]
    } else if cs.len() == 1 {
        cs[0]
    } else if cs[cs.len() - 2] == seq!['/'] {
        path_text(cs.drop_last()) + cs.last()
    } else {
        path_text(cs.drop_last()) + seq!['/'] + cs.last()
    }
}

/// Whether two component vectors are equal.
pub fn same_components(a: &Vec<String>, b: &Vec<String>) -> (r: bool)
    ensures
        r == (texts(a@) == texts(b@)),
{
    if a.len() != b.len() {
        assert(texts(a@).len() != texts(b@).len());
        return false;
    }
    let mut i: usize = 0;
    while i < a.len()
        invariant
            a.len() == b.len(),
            i <= a.len(),
            forall|j: int| 0 <= j < i ==> a@[j]@ == b@[j]@,
        decreases a.len() - i,
    {
        if a[i] != b[i] {
            assert(texts(a@)[i as int] != texts(b@)[i as int]);
            return false;
        }
        i = i + 1;
    }
    assert(texts(a@) =~= texts(b@));
    true
}

/// Whether the components `prefix` begin the components `path`.
pub fn has_prefix(path: &Vec<String>, prefix: &Vec<String>) -> (r: bool)
    ensures
        r == starts_with(texts(path@), texts(prefix@)),
{
    if prefix.len() > path.len() {
        return false;
    }
    let mut i: usize = 0;
    while i < prefix.len()
        invariant
            prefix.len() <= path.len(),
            i <= prefix.len(),
            forall|j: int| 0 <= j < i ==> path@[j]@ == prefix@[j]@,
        decreases prefix.len() - i,
    {
        if path[i] != prefix[i] {
            assert(texts(path@).subrange(0, prefix.len() as int)[i as int] != texts(prefix@)[i as int]);
            return false;
        }
        i = i + 1;
    }
    assert(texts(path@).subrange(0, prefix.len() as int) =~= texts(prefix@));
    true
}

/// Whether a component is the root component `/`.
fn is_root_component(c: &String) -> (r: bool)
    ensures
        r == (c@ == seq!['/']),
{
    let s = c.as_str();
    if s.unicode_len() == 1 {
        let ch = s.get_char(0);
        assert(ch == '/' ==> s@ =~= seq!['/']);
        ch == '/'
    } else {
        false
    }
}

/// The text of a component path.
pub fn join_components(cs: &Vec<String>) -> (r: String)
    ensures
        r@ == path_text(texts(cs@)),
{
    let mut r = String::new();
    let mut i: usize = 0;
    while i < cs.len()
        invariant
            i <= cs.len(),
            r@ == path_text(texts(cs@.subrange(0, i as int))),
        decreases cs.len() - i,
    {
        let ghost before = texts(cs@.subrange(0, i as int));
        proof {
            assert(texts(cs@.subrange(0, i + 1)).drop_last() =~= before);
            reveal_strlit("/");
            assert("/"@ =~= seq!['/']);
        }
        if i > 0 && !is_root_component(&cs[i - 1]) {
            r.append("/");
        }
        r.append(cs[i].as_str());
        i = i + 1;
        proof {
            let now = texts(cs@.subrange(0, i as int));
            assert(now.last() == cs@[i - 1]@);
            assert(now.drop_last() =~= before);
            if i > 1 {
                assert(now[now.len() - 2] == cs@[i - 2]@);
                assert(r@ =~= path_text(now));
            } else {
                assert(r@ =~= path_text(now));
            }
        }
    }
    assert(cs@.subrange(0, cs.len() as int) =~= cs@);
    r
}

/// The validated base directory of the application's data.
#[derive(Debug)]
pub struct Root {
    path: Vec<String>,
}

/// The root path does not name a directory.
#[derive(Debug)]
pub struct MustBeDirError();

impl View for Root {
    type V = Seq<Seq<char>>;

    closed spec fn view(&self) -> Seq<Seq<char>> {
        texts(self.path@)
    }
}

impl Root {
    /// A root at the given path, where the platform reported that it names a
    /// directory.
    pub fn try_new(path: Vec<String>, is_dir: bool) -> (r: Result<Root, MustBeDirError>)
        ensures
            r is Ok <==> is_dir,
            r matches Ok(root) ==> root@ == texts(path@),
    {
        if !is_dir {
            Err(MustBeDirError())
        } else {
            Ok(Root { path })
        }
    }

    /// The components of the root path.
    pub fn components(&self) -> (r: &Vec<String>)
        ensures
            texts(r@) == self@,
    {
        &self.path
    }

    /// The path of a file directly under the root.
    pub fn path_to(&self, file_name: &str) -> (r: Vec<String>)
        ensures
            texts(r@) == self@.push(file_name@),
    {
        let mut r = crate::syndicated::copy_texts(&self.path);
        let ghost prev = r@;
        r.push(String::from_str(file_name));
        assert(texts(r@) =~= texts(prev).push(file_name@));
        r
    }

    /// The root path as text.
    pub fn display(&self) -> (r: String)
        ensures
            r@ == path_text(self@),
    {
        join_components(&self.path)
    }
}

/// The directory, under the root, whose entries are the local feed files.
#[derive(Debug)]
pub struct LocalFeedsDir {
    path: Vec<String>,
}

impl View for LocalFeedsDir {
    type V = Seq<Seq<char>>;

    closed spec fn view(&self) -> Seq<Seq<char>> {
        texts(self.path@)
    }
}

impl LocalFeedsDir {
    /// The local feeds directory of a root.
    pub fn new(root: &Root) -> (r: LocalFeedsDir)
        ensures
            r@ == root@.push(LOCAL_FEEDS@),
    {
        LocalFeedsDir { path: root.path_to(LOCAL_FEEDS) }
    }

    /// The components of the directory's path.
    pub fn components(&self) -> (r: &Vec<String>)
        ensures
            texts(r@) == self@,
    {
        &self.path
    }
}

/// A path that lies inside the local feeds directory. The only way to make
/// one is `new`, which checks the prefix.
#[derive(Debug)]
pub struct LocalFeedPath {
    path: Vec<String>,
}

/// The path does not lie inside the local feeds directory.
#[derive(Debug)]
pub struct BadPrefixError();

impl BadPrefixError {
    /// The error's message.
    pub fn message(&self) -> (r: String)
        ensures
            r@ == BAD_PREFIX_MESSAGE@,
    {
        String::from_str(BAD_PREFIX_MESSAGE)
    }
}

pub const BAD_PREFIX_MESSAGE: &'static str = "Bad local path prefix";

impl View for LocalFeedPath {
    type V = Seq<Seq<char>>;

    closed spec fn view(&self) -> Seq<Seq<char>> {
        texts(self.path@)
    }
}

impl LocalFeedPath {
    /// The path, where it lies inside the directory. Whether the file exists
    /// does not matter.
    pub fn new(path: Vec<String>, local_feeds_dir: &LocalFeedsDir) -> (r: Result<LocalFeedPath, BadPrefixError>)
        ensures
            r is Ok <==> starts_with(texts(path@), local_feeds_dir@),
            r matches Ok(p) ==> p@ == texts(path@),
    {
        if has_prefix(&path, &local_feeds_dir.path) {
            Ok(LocalFeedPath { path })
        } else {
            Err(BadPrefixError())
        }
    }

    /// The path written as text, where it lies inside the directory.
    pub fn from_text(text: &str, local_feeds_dir: &LocalFeedsDir) -> (r: Result<LocalFeedPath, BadPrefixError>)
        ensures
            r is Ok <==> starts_with(path_components(text@), local_feeds_dir@),
            r matches Ok(p) ==> p@ == path_components(text@),
    {
        LocalFeedPath::new(split_path(text), local_feeds_dir)
    }

    /// The components of the path.
    pub fn components(&self) -> (r: &Vec<String>)
        ensures
            texts(r@) == self@,
    {
        &self.path
    }

    /// Whether this path comes before the other, in the order of paths.
    pub fn precedes(&self, other: &LocalFeedPath) -> (r: bool)
        ensures
            r == path_lt(self@, other@),
    {
        components_precede(&self.path, &other.path)
    }

    /// Whether two paths are the same.
    pub fn same_as(&self, other: &LocalFeedPath) -> (r: bool)
        ensures
            r == (self@ == other@),
    {
        same_components(&self.path, &other.path)
    }

    /// A copy of this path.
    pub fn duplicate(&self) -> (r: LocalFeedPath)
        ensures
            r@ == self@,
    {
        LocalFeedPath { path: crate::syndicated::copy_texts(&self.path) }
    }

    /// The path as text.
    pub fn display(&self) -> (r: String)
        ensures
            r@ == path_text(self@),
    {
        join_components(&self.path)
    }
}

} // verus!
