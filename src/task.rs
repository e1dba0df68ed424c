//! Decoding a request into one of the tasks the application performs.
use vstd::prelude::*;
use crate::paths::{path_components, starts_with, LocalFeedPath, BAD_PREFIX_MESSAGE};
use crate::state::{find_path, State};
use crate::syndicated::{opt_text, texts, Post, PostView};
use crate::render::RefreshKind;

verus! {

/// Query key that asks the home page to reload the local feeds.
pub const REFRESH_LOCAL_KEY: &'static str = "refresh-local";
/// Query key that asks the home page to refetch the remote feeds.
pub const REFRESH_REMOTE_KEY: &'static str = "refresh-remote";
/// Query key that asks the home page to reread the remote feed list.
pub const REFRESH_REMOTE_URLS_KEY: &'static str = "refresh-remote-urls";

/// The page for adding a local post.
pub const LOCAL_ADD: &'static str = "/local-add";
/// The page for adding a remote feed.
pub const REMOTE_ADD: &'static str = "/remote-add";
/// The home page.
pub const HOME: &'static str = "/";

/// Form field: the local feed file to add to.
pub const TARGET: &'static str = "target";
/// Form field: the post's title.
pub const TITLE: &'static str = "title";
/// Form field: the post's summary.
pub const SUMMARY: &'static str = "summary";
/// Form field: the post's content.
pub const CONTENT: &'static str = "content";
/// Form field: one of the post's links; it may repeat.
pub const LINK: &'static str = "link";
/// Form field: the URL of the remote feed to add.
pub const FEED_URL: &'static str = "feed-url";

/// Bits of the home page's refresh flags.
pub type Flags = u8;

pub const REFRESH_LOCAL: Flags = 1;
pub const REFRESH_REMOTE: Flags = 2;
pub const REFRESH_REMOTE_URLS: Flags = 4;

/// A request's method.
#[derive(Clone, Copy, Debug, PartialEq, Eq, Structural)]
pub enum Method {
    Get,
    Post,
    Other,
}

impl Method {
    /// The method's name, as the request wrote it.
    pub open spec fn name_text(self) -> Seq<char> {
        match self {
            Method::Get => seq!['G', 'E', 'T'],
            Method::Post => seq!['P', 'O', 'S', 'T'],
            Method::Other => seq!['?', '?', '?'],
        }
    }

    /// The method's name.
    pub fn name(&self) -> (r: String)
        ensures
            r@ == self.name_text(),
    {
        proof {
            reveal_strlit("GET");
            reveal_strlit("POST");
            reveal_strlit("???");
        }
        match self {
            Method::Get => String::from_str("GET"),
            Method::Post => String::from_str("POST"),
            Method::Other => String::from_str("???"),
        }
    }
}

/// A request, as the dispatcher sees it: the method, the path of the URL,
/// the query keys present, and, for a form submission, the form's fields in
/// order or the message of why they could not be read.
pub struct TaskSpec {
    pub method: Method,
    pub url_suffix: String,
    pub query_keys: Vec<String>,
    pub form: Result<Vec<(String, String)>, String>,
}

/// A submitted local post and the local feed file it goes to.
#[derive(Debug)]
pub struct LocalAddForm {
    pub path: LocalFeedPath,
    pub post: Post,
}

/// A submitted remote feed URL, as typed.
#[derive(Debug)]
pub struct RemoteFeedAddForm {
    pub url: String,
}

/// What a request asks for.
#[derive(Debug)]
pub enum Task {
    ShowHomePage(Flags),
    ShowLocalAddForm,
    SubmitLocalAddForm(LocalAddForm),
    ShowRemoteFeedAddForm,
    SubmitRemoteFeedAddForm(RemoteFeedAddForm),
}

/// Why a request could not be decoded.
#[derive(Debug)]
pub struct TaskError(pub String);

/// Whether a key is among the keys.
pub open spec fn has_key(keys: Seq<Seq<char>>, k: Seq<char>) -> bool {
    exists|i: int| 0 <= i < keys.len() && keys[i] == k
}

/// The refresh flags of the home page: one bit for each refresh key present.
pub open spec fn flags_of(keys: Seq<Seq<char>>) -> Flags {
    ((if has_key(keys, REFRESH_LOCAL_KEY@) { 1u8 } else { 0u8 }) + (if has_key(keys, REFRESH_REMOTE_KEY@) {
        2u8
    } else {
        0u8
    }) + (if has_key(keys, REFRESH_REMOTE_URLS_KEY@) { 4u8 } else { 0u8 })) as u8
}

/// Whether the text equals the literal.
fn is_text(s: &String, lit: &str) -> (r: bool)
    ensures
        r == (s@ == lit@),
{
    let other = String::from_str(lit);
    s.eq(&other)
}

/// Whether a key is among the keys.
fn contains_key(keys: &Vec<String>, k: &str) -> (r: bool)
    ensures
        r == has_key(texts(keys@), k@),
{
    let mut i: usize = 0;
    while i < keys.len()
        invariant
            i <= keys@.len(),
            forall|j: int| 0 <= j < i ==> keys@[j]@ != k@,
        decreases keys@.len() - i,
    {
        if is_text(&keys[i], k) {
            assert(texts(keys@)[i as int] == k@);
            return true;
        }
        i = i + 1;
    }
    assert forall|j: int| 0 <= j < keys@.len() implies texts(keys@)[j] != k@ by {
        assert(texts(keys@)[j] == keys@[j]@);
    }
    false
}

/// The refresh flags of the home page, from the query keys present.
pub fn home_flags(keys: &Vec<String>) -> (r: Flags)
    ensures
        r == flags_of(texts(keys@)),
{
    let mut flags: Flags = 0;
    if contains_key(keys, REFRESH_LOCAL_KEY) {
        flags = flags + REFRESH_LOCAL;
    }
    if contains_key(keys, REFRESH_REMOTE_KEY) {
        flags = flags + REFRESH_REMOTE;
    }
    if contains_key(keys, REFRESH_REMOTE_URLS_KEY) {
        flags = flags + REFRESH_REMOTE_URLS;
    }
    flags
}

/// Whether a flag's bit is set.
pub fn has_flag(flags: Flags, flag: Flags) -> (r: bool)
    ensures
        r == (flags & flag != 0),
{
    flags & flag != 0
}

/// The refreshes that refresh flags ask for, in the order they are done:
/// the local feeds, then the remote posts, then the remote feed list.
pub open spec fn refresh_plan(flags: Flags) -> Seq<RefreshKind> {
    (if flags & REFRESH_LOCAL != 0 { seq![RefreshKind::Local] } else { seq![] }) + (if flags & REFRESH_REMOTE != 0 {
        seq![RefreshKind::Remote]
    } else {
        seq![]
    }) + (if flags & REFRESH_REMOTE_URLS != 0 { seq![RefreshKind::RemoteUrls] } else { seq![] })
}

/// The refreshes that the home page's flags ask for, in order.
pub fn refreshes_for(flags: Flags) -> (r: Vec<RefreshKind>)
    ensures
        r@ == refresh_plan(flags),
{
    let mut r: Vec<RefreshKind> = Vec::new();
    if has_flag(flags, REFRESH_LOCAL) {
        r.push(RefreshKind::Local);
    }
    if has_flag(flags, REFRESH_REMOTE) {
        r.push(RefreshKind::Remote);
    }
    if has_flag(flags, REFRESH_REMOTE_URLS) {
        r.push(RefreshKind::RemoteUrls);
    }
    assert(r@ =~= refresh_plan(flags));
    r
}

/// The fields of a local add form.
pub struct LocalFields {
    pub target: Seq<char>,
    pub title: Option<Seq<char>>,
    pub summary: Option<Seq<char>>,
    pub content: Option<Seq<char>>,
    pub links: Seq<Seq<char>>,
}

/// The texts of form pairs.
pub open spec fn pair_texts(pairs: Seq<(String, String)>) -> Seq<(Seq<char>, Seq<char>)> {
    pairs.map_values(|p: (String, String)| (p.0@, p.1@))
}

/// The fields of a local add form, read in order: an empty value is not
/// given at all; a later value of a field replaces an earlier one, but links
/// collect; an unknown field fails, naming the first such pair.
pub open spec fn local_fields(pairs: Seq<(Seq<char>, Seq<char>)>) -> Result<LocalFields, (Seq<char>, Seq<char>)>
    decreases pairs.len(),
{
    if pairs.len() == 0 {
        Ok(LocalFields { target: seq![], title: None, summary: None, content: None, links: seq![] })
    } else {
        match local_fields(pairs.drop_last()) {
            Err(e) => Err(e),
            Ok(f) => {
                let (k, v) = pairs.last();
                if v.len() == 0 {
                    Ok(f)
                } else if k == TARGET@ {
                    Ok(LocalFields { target: v, ..f })
                } else if k == TITLE@ {
                    Ok(LocalFields { title: Some(v), ..f })
                } else if k == SUMMARY@ {
                    Ok(LocalFields { summary: Some(v), ..f })
                } else if k == CONTENT@ {
                    Ok(LocalFields { content: Some(v), ..f })
                } else if k == LINK@ {
                    Ok(LocalFields { links: f.links.push(v), ..f })
                } else {
                    Err((k, v))
                }
            },
        }
    }
}

/// The URL of a remote add form, read in order: an empty value is not given
/// at all, a later one replaces an earlier one, and an unknown field fails,
/// naming the first such pair.
pub open spec fn remote_url_field(pairs: Seq<(Seq<char>, Seq<char>)>) -> Result<Seq<char>, (Seq<char>, Seq<char>)>
    decreases pairs.len(),
{
    if pairs.len() == 0 {
        Ok(seq![])
    } else {
        match remote_url_field(pairs.drop_last()) {
            Err(e) => Err(e),
            Ok(u) => {
                let (k, v) = pairs.last();
                if v.len() == 0 {
                    Ok(u)
                } else if k == FEED_URL@ {
                    Ok(v)
                } else {
                    Err((k, v))
                }
            },
        }
    }
}

/// The message for a form pair that names no field.
pub open spec fn unhandled_pair_text(k: Seq<char>, v: Seq<char>) -> Seq<char> {
    UNHANDLED_PAIR@ + k + PAIR_SEPARATOR@ + v + PAIR_END@
}

pub const UNHANDLED_PAIR: &'static str = "Unhandled Form pair (";
pub const PAIR_SEPARATOR: &'static str = ", ";
pub const PAIR_END: &'static str = ")";
pub const NO_SUCH_LOCAL_FEED: &'static str = "Local file did not exist";

/// The error for a form pair that names no field.
fn unhandled_pair(k: &String, v: &String) -> (r: TaskError)
    ensures
        r.0@ == unhandled_pair_text(k@, v@),
{
    let mut m = String::from_str(UNHANDLED_PAIR);
    m.append(k.as_str());
    m.append(PAIR_SEPARATOR);
    m.append(v.as_str());
    m.append(PAIR_END);
    TaskError(m)
}

/// The post of the fields of a local add form.
pub open spec fn fields_post(f: LocalFields) -> PostView {
    PostView { title: f.title, summary: f.summary, content: f.content, links: f.links }
}

/// Decodes the fields of a local add form. The target must name a known
/// local feed file inside the local feeds directory.
pub fn decode_local_add_form(pairs: Vec<(String, String)>, state: &State) -> (r: Result<LocalAddForm, TaskError>)
    ensures
        local_decoded(pair_texts(pairs@), state@, r),
{
    let ghost ps = pair_texts(pairs@);
    let mut target = String::new();
    let mut title: Option<String> = None;
    let mut summary: Option<String> = None;
    let mut content: Option<String> = None;
    let mut links: Vec<String> = Vec::new();
    let mut i: usize = 0;
    proof {
        assert(ps.subrange(0, 0) =~= Seq::<(Seq<char>, Seq<char>)>::empty());
        assert(texts(links@) =~= Seq::<Seq<char>>::empty());
    }
    while i < pairs.len()
        invariant
            ps == pair_texts(pairs@),
            i <= pairs@.len(),
            local_fields(ps.subrange(0, i as int)) == Ok::<LocalFields, (Seq<char>, Seq<char>)>(
                LocalFields {
                    target: target@,
                    title: opt_text(title),
                    summary: opt_text(summary),
                    content: opt_text(content),
                    links: texts(links@),
                },
            ),
        decreases pairs@.len() - i,
    {
        proof {
            assert(ps.subrange(0, i + 1).drop_last() =~= ps.subrange(0, i as int));
            assert(ps.subrange(0, i + 1).last() == ps[i as int]);
        }
        let k = &pairs[i].0;
        let v = &pairs[i].1;
        if v.as_str().unicode_len() == 0 {
        } else if is_text(k, TARGET) {
            target = v.clone();
        } else if is_text(k, TITLE) {
            title = Some(v.clone());
        } else if is_text(k, SUMMARY) {
            summary = Some(v.clone());
        } else if is_text(k, CONTENT) {
            content = Some(v.clone());
        } else if is_text(k, LINK) {
            let ghost prev = links@;
            links.push(v.clone());
            assert(texts(links@) =~= texts(prev).push(v@));
        } else {
            let e = unhandled_pair(k, v);
            proof {
                lemma_local_fields_stop(ps, i as int + 1);
                assert(ps.subrange(0, ps.len() as int) =~= ps);
            }
            return Err(e);
        }
        i = i + 1;
    }
    proof {
        assert(ps.subrange(0, i as int) =~= ps);
    }
    let path = match LocalFeedPath::from_text(target.as_str(), state.local_feeds_dir()) {
        Ok(p) => p,
        Err(e) => return Err(TaskError(e.message())),
    };
    if !state.has_local_feed(&path) {
        proof {
            reveal_strlit("Local file did not exist");
        }
        return Err(TaskError(String::from_str(NO_SUCH_LOCAL_FEED)));
    }
    Ok(LocalAddForm { path, post: Post { title, summary, content, links } })
}

/// Once a pair fails, later pairs keep the failure.
proof fn lemma_local_fields_stop(ps: Seq<(Seq<char>, Seq<char>)>, k: int)
    requires
        0 < k <= ps.len(),
        local_fields(ps.subrange(0, k)) is Err,
    ensures
        local_fields(ps.subrange(0, ps.len() as int)) == local_fields(ps.subrange(0, k)),
    decreases ps.len() - k,
{
    if k < ps.len() {
        assert(ps.subrange(0, k + 1).drop_last() =~= ps.subrange(0, k));
        lemma_local_fields_stop(ps, k + 1);
    }
}

/// Once a pair fails, later pairs keep the failure.
proof fn lemma_remote_field_stop(ps: Seq<(Seq<char>, Seq<char>)>, k: int)
    requires
        0 < k <= ps.len(),
        remote_url_field(ps.subrange(0, k)) is Err,
    ensures
        remote_url_field(ps.subrange(0, ps.len() as int)) == remote_url_field(ps.subrange(0, k)),
    decreases ps.len() - k,
{
    if k < ps.len() {
        assert(ps.subrange(0, k + 1).drop_last() =~= ps.subrange(0, k));
        lemma_remote_field_stop(ps, k + 1);
    }
}

/// Decodes the fields of a remote add form.
pub fn decode_remote_feed_add_form(pairs: Vec<(String, String)>) -> (r: Result<RemoteFeedAddForm, TaskError>)
    ensures
        remote_decoded(pair_texts(pairs@), r),
{
    let ghost ps = pair_texts(pairs@);
    let mut url = String::new();
    let mut i: usize = 0;
    proof {
        assert(ps.subrange(0, 0) =~= Seq::<(Seq<char>, Seq<char>)>::empty());
    }
    while i < pairs.len()
        invariant
            ps == pair_texts(pairs@),
            i <= pairs@.len(),
            remote_url_field(ps.subrange(0, i as int)) == Ok::<Seq<char>, (Seq<char>, Seq<char>)>(url@),
        decreases pairs@.len() - i,
    {
        proof {
            assert(ps.subrange(0, i + 1).drop_last() =~= ps.subrange(0, i as int));
            assert(ps.subrange(0, i + 1).last() == ps[i as int]);
        }
        let k = &pairs[i].0;
        let v = &pairs[i].1;
        if v.as_str().unicode_len() == 0 {
        } else if is_text(k, FEED_URL) {
            url = v.clone();
        } else {
            let e = unhandled_pair(k, v);
            proof {
                lemma_remote_field_stop(ps, i as int + 1);
                assert(ps.subrange(0, ps.len() as int) =~= ps);
            }
            return Err(e);
        }
        i = i + 1;
    }
    proof {
        assert(ps.subrange(0, i as int) =~= ps);
    }
    Ok(RemoteFeedAddForm { url })
}

/// What `decode_local_add_form` promises of its result.
pub open spec fn local_decoded(pairs: Seq<(Seq<char>, Seq<char>)>, state: crate::state::StateView, r: Result<LocalAddForm, TaskError>) -> bool {
    match local_fields(pairs) {
        Err((k, v)) => r matches Err(e) && e.0@ == unhandled_pair_text(k, v),
        Ok(f) => {
            &&& r is Ok <==> (starts_with(path_components(f.target), state.local_dir) && find_path(
                state.local,
                path_components(f.target),
            ) >= 0)
            &&& r matches Ok(form) ==> form.path@ == path_components(f.target) && form.post@ == fields_post(f)
            &&& (r is Err && !starts_with(path_components(f.target), state.local_dir)) ==> (r matches Err(e) && e.0@
                == BAD_PREFIX_MESSAGE@)
            &&& (r is Err && starts_with(path_components(f.target), state.local_dir)) ==> (r matches Err(e) && e.0@
                == NO_SUCH_LOCAL_FEED@)
        },
    }
}

/// What `decode_remote_feed_add_form` promises of its result.
pub open spec fn remote_decoded(pairs: Seq<(Seq<char>, Seq<char>)>, r: Result<RemoteFeedAddForm, TaskError>) -> bool {
    match remote_url_field(pairs) {
        Err((k, v)) => r matches Err(e) && e.0@ == unhandled_pair_text(k, v),
        Ok(u) => r matches Ok(form) && form.url@ == u,
    }
}

/// The message for a method and path that name no task.
pub open spec fn no_task_text(method: Method, url: Seq<char>) -> Seq<char> {
    NO_TASK@ + method.name_text() + NO_TASK_URL@ + url
}

pub const NO_TASK: &'static str = "No known task for HTTP ";
pub const NO_TASK_URL: &'static str = " method at url ";

/// Decodes a request into a task: `GET /` shows the home page with the
/// refresh flags of the query keys present; `GET` of an add page shows its
/// form; `POST` to an add page submits the form's fields; anything else
/// names no task.
pub fn extract_task(spec: TaskSpec, state: &State) -> (r: Result<Task, TaskError>)
    ensures
        (spec.method == Method::Get && spec.url_suffix@ == HOME@) ==> (r matches Ok(Task::ShowHomePage(f)) && f
            == flags_of(texts(spec.query_keys@))),
        (spec.method == Method::Get && spec.url_suffix@ == LOCAL_ADD@) ==> (r matches Ok(Task::ShowLocalAddForm)),
        (spec.method == Method::Get && spec.url_suffix@ == REMOTE_ADD@) ==> (r matches Ok(
            Task::ShowRemoteFeedAddForm,
        )),
        (spec.method == Method::Post && spec.url_suffix@ == LOCAL_ADD@) ==> match spec.form {
            Err(m) => r matches Err(e) && e.0@ == m@,
            Ok(pairs) => match r {
                Ok(Task::SubmitLocalAddForm(form)) => local_decoded(pair_texts(pairs@), state@, Ok(form)),
                Err(e) => local_decoded(pair_texts(pairs@), state@, Err(e)),
                _ => false,
            },
        },
        (spec.method == Method::Post && spec.url_suffix@ == REMOTE_ADD@) ==> match spec.form {
            Err(m) => r matches Err(e) && e.0@ == m@,
            Ok(pairs) => match r {
                Ok(Task::SubmitRemoteFeedAddForm(form)) => remote_decoded(pair_texts(pairs@), Ok(form)),
                Err(e) => remote_decoded(pair_texts(pairs@), Err(e)),
                _ => false,
            },
        },
        !((spec.method == Method::Get && (spec.url_suffix@ == HOME@ || spec.url_suffix@ == LOCAL_ADD@
            || spec.url_suffix@ == REMOTE_ADD@)) || (spec.method == Method::Post && (spec.url_suffix@ == LOCAL_ADD@
            || spec.url_suffix@ == REMOTE_ADD@))) ==> (r matches Err(e) && e.0@ == no_task_text(
            spec.method,
            spec.url_suffix@,
        )),
{
    proof {
        reveal_strlit("/");
        reveal_strlit("/local-add");
        reveal_strlit("/remote-add");
        assert(HOME@.len() != LOCAL_ADD@.len() && HOME@.len() != REMOTE_ADD@.len());
        assert(LOCAL_ADD@.len() != REMOTE_ADD@.len());
    }
    let TaskSpec { method, url_suffix, query_keys, form } = spec;
    match method {
        Method::Get => {
            if is_text(&url_suffix, HOME) {
                return Ok(Task::ShowHomePage(home_flags(&query_keys)));
            } else if is_text(&url_suffix, LOCAL_ADD) {
                return Ok(Task::ShowLocalAddForm);
            } else if is_text(&url_suffix, REMOTE_ADD) {
                return Ok(Task::ShowRemoteFeedAddForm);
            }
        },
        Method::Post => {
            if is_text(&url_suffix, LOCAL_ADD) {
                return match form {
                    Err(m) => Err(TaskError(m)),
                    Ok(pairs) => match decode_local_add_form(pairs, state) {
                        Ok(f) => Ok(Task::SubmitLocalAddForm(f)),
                        Err(e) => Err(e),
                    },
                };
            } else if is_text(&url_suffix, REMOTE_ADD) {
                return match form {
                    Err(m) => Err(TaskError(m)),
                    Ok(pairs) => match decode_remote_feed_add_form(pairs) {
                        Ok(f) => Ok(Task::SubmitRemoteFeedAddForm(f)),
                        Err(e) => Err(e),
                    },
                };
            }
        },
        Method::Other => {},
    }
    let mut m = String::from_str(NO_TASK);
    let name = method.name();
    m.append(name.as_str());
    m.append(NO_TASK_URL);
    m.append(url_suffix.as_str());
    Err(TaskError(m))
}

} // verus!
