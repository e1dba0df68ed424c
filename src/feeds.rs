//! The list of remote feeds: a text file with one URL per line.
use vstd::prelude::*;
use crate::syndicated::texts;

verus! {

#[verifier::external_type_specification]
#[verifier::external_body]
pub struct ExUrlParseError(url::ParseError);

/// The serialisation of the URL that a text denotes, or `None` where the
/// text is no URL.
pub uninterp spec fn url_parse(text: Seq<char>) -> Option<Seq<char>>;

/// Relies on `url::Url::parse`, and on `String::from(Url)`, which hands out
/// the URL's serialisation.
#[verifier::external_body]
fn parse_url(text: &str) -> (r: Result<String, url::ParseError>)
    ensures
        match r {
            Ok(u) => url_parse(text@) == Some(u@),
            Err(_) => url_parse(text@) is None,
        },
{
    url::Url::parse(text).map(String::from)
}

/// The serialisation of the URL in a text, or the parser's error.
pub fn check_url(text: &str) -> (r: Result<String, url::ParseError>)
    ensures
        r is Ok <==> url_parse(text@) is Some,
        r matches Ok(u) ==> url_parse(text@) == Some(u@),
{
    parse_url(text)
}

/// The pieces of a text between its newlines: never empty, the last piece
/// being what follows the last newline.
pub open spec fn pieces(s: Seq<char>) -> Seq<Seq<char>>
    decreases s.len(),
{
    if s.len() == 0 {
        seq![seq![]]
    } else {
        let r = pieces(s.drop_last());
        if s.last() == '\n' {
            r.push(seq![])
        } else {
            r.update(r.len() - 1, r.last().push(s.last()))
        }
    }
}

/// A line ended by a newline loses one carriage return before it.
pub open spec fn strip_cr(l: Seq<char>) -> Seq<char> {
    if l.len() > 0 && l.last() == '\r' {
        l.drop_last()
    } else {
        l
    }
}

/// The lines of a text: each piece ended by a newline without its carriage
/// return, then the unended rest where it is not empty.
pub open spec fn lines_of(s: Seq<char>) -> Seq<Seq<char>> {
    let p = pieces(s);
    let ended = p.drop_last().map_values(|l: Seq<char>| strip_cr(l));
    if p.last().len() == 0 {
        ended
    } else {
        ended.push(p.last())
    }
}

proof fn lemma_pieces_nonempty(s: Seq<char>)
    ensures
        pieces(s).len() >= 1,
    decreases s.len(),
{
    if s.len() > 0 {
        lemma_pieces_nonempty(s.drop_last());
    }
}

/// How the pieces grow by one character: a newline starts a new piece, any
/// other character extends the last one.
proof fn lemma_pieces_step(s: Seq<char>, i: int)
    requires
        0 <= i < s.len(),
    ensures
        s[i] == '\n' ==> pieces(s.subrange(0, i + 1)) == pieces(s.subrange(0, i)).push(seq![]),
        s[i] != '\n' ==> pieces(s.subrange(0, i + 1)) == pieces(s.subrange(0, i)).update(
            pieces(s.subrange(0, i)).len() - 1,
            pieces(s.subrange(0, i)).last().push(s[i]),
        ),
{
    assert(s.subrange(0, i + 1).drop_last() =~= s.subrange(0, i));
}

/// A range of a text's characters, as a new string.
fn text_range(s: &str, from: usize, to: usize) -> (r: String)
    requires
        from <= to <= s@.len(),
    ensures
        r@ == s@.subrange(from as int, to as int),
{
    String::from_str(s.substring_char(from, to))
}

/// The lines of a text, split at each newline; a carriage return before a
/// newline is dropped, and a newline at the very end starts no empty line.
pub fn split_lines(s: &str) -> (r: Vec<String>)
    ensures
        texts(r@) == lines_of(s@),
{
    let n = s.unicode_len();
    let mut done: Vec<String> = Vec::new();
    let mut start: usize = 0;
    let mut i: usize = 0;
    proof {
        assert(s@.subrange(0, 0) =~= Seq::<char>::empty());
    }
    while i < n
        invariant
            n == s@.len(),
            start <= i <= n,
            ({
                let p = pieces(s@.subrange(0, i as int));
                &&& p.len() == done@.len() + 1
                &&& p.drop_last().map_values(|l: Seq<char>| strip_cr(l)) == texts(done@)
                &&& p.last() == s@.subrange(start as int, i as int)
            }),
        decreases n - i,
    {
        let c = s.get_char(i);
        proof {
            lemma_pieces_step(s@, i as int);
            lemma_pieces_nonempty(s@.subrange(0, i as int));
        }
        let ghost p0 = pieces(s@.subrange(0, i as int));
        if c == '\n' {
            let end = if i > start && s.get_char(i - 1) == '\r' {
                i - 1
            } else {
                i
            };
            let line = text_range(s, start, end);
            let ghost prev = done@;
            done.push(line);
            proof {
                assert(strip_cr(p0.last()) =~= line@);
                let p1 = pieces(s@.subrange(0, i + 1));
                assert(p1.drop_last() =~= p0);
                assert(texts(done@) =~= texts(prev).push(line@));
                assert(p1.drop_last().map_values(|l: Seq<char>| strip_cr(l)) =~= p0.drop_last().map_values(
                    |l: Seq<char>| strip_cr(l),
                ).push(strip_cr(p0.last())));
                assert(p1.last() =~= s@.subrange(i + 1, i + 1));
            }
            start = i + 1;
        } else {
            proof {
                let p1 = pieces(s@.subrange(0, i + 1));
                assert(p1.drop_last() =~= p0.drop_last());
                assert(p1.last() =~= s@.subrange(start as int, i + 1));
            }
        }
        i = i + 1;
    }
    proof {
        assert(s@.subrange(0, n as int) =~= s@);
    }
    if start < n {
        let rest = text_range(s, start, n);
        let ghost prev = done@;
        done.push(rest);
        assert(texts(done@) =~= texts(prev).push(rest@));
    }
    done
}

/// The URLs of the lines of a text, up to the first line that is no URL.
pub open spec fn parsed_prefix(lines: Seq<Seq<char>>) -> Seq<Seq<char>>
    decreases lines.len(),
{
    if lines.len() == 0 {
        seq![]
    } else {
        let init = parsed_prefix(lines.drop_last());
        if init.len() == lines.len() - 1 && url_parse(lines.last()) is Some {
            init.push(url_parse(lines.last()).unwrap())
        } else {
            init
        }
    }
}

/// Whether every line is a URL.
pub open spec fn all_urls(lines: Seq<Seq<char>>) -> bool {
    forall|i: int| 0 <= i < lines.len() ==> (#[trigger] url_parse(lines[i])) is Some
}

proof fn lemma_parsed_prefix_len(lines: Seq<Seq<char>>)
    ensures
        parsed_prefix(lines).len() <= lines.len(),
        parsed_prefix(lines).len() == lines.len() <==> all_urls(lines),
    decreases lines.len(),
{
    if lines.len() > 0 {
        lemma_parsed_prefix_len(lines.drop_last());
        let init = lines.drop_last();
        if all_urls(lines) {
            assert forall|i: int| 0 <= i < init.len() implies (#[trigger] url_parse(init[i])) is Some by {
                assert(init[i] == lines[i]);
            }
            assert(url_parse(lines[lines.len() - 1]) is Some);
        }
        if all_urls(init) && url_parse(lines.last()) is Some {
            assert forall|i: int| 0 <= i < lines.len() implies (#[trigger] url_parse(lines[i])) is Some by {
                if i < init.len() {
                    assert(init[i] == lines[i]);
                }
            }
        }
    }
}

/// The URLs of the lines of a text: all of them where every line is a URL,
/// else the parser's error on the first line that is not, together with the
/// URLs of the lines before it.
pub fn parse_feed_urls(text: &str) -> (r: (Vec<String>, Result<(), url::ParseError>))
    ensures
        texts(r.0@) == parsed_prefix(lines_of(text@)),
        r.1 is Ok <==> all_urls(lines_of(text@)),
{
    let lines = split_lines(text);
    let ghost ls = lines_of(text@);
    let mut urls: Vec<String> = Vec::new();
    let mut i: usize = 0;
    while i < lines.len()
        invariant
            ls == lines_of(text@),
            texts(lines@) == ls,
            i <= lines.len(),
            texts(urls@) == parsed_prefix(ls.subrange(0, i as int)),
            urls@.len() == i,
        decreases lines.len() - i,
    {
        proof {
            assert(ls.subrange(0, i + 1).drop_last() =~= ls.subrange(0, i as int));
        }
        match parse_url(lines[i].as_str()) {
            Ok(u) => {
                let ghost prev = urls@;
                urls.push(u);
                assert(texts(urls@) =~= texts(prev).push(u@));
            },
            Err(e) => {
                proof {
                    let pre = ls.subrange(0, i as int);
                    assert(ls[i as int] == lines@[i as int]@);
                    assert(url_parse(ls[i as int]) is None);
                    assert(ls.subrange(0, i + 1).last() == ls[i as int]);
                    assert(parsed_prefix(ls.subrange(0, i + 1)) == parsed_prefix(pre));
                    lemma_prefix_stops(ls, i as int + 1);
                    assert(parsed_prefix(ls.subrange(0, ls.len() as int)) == parsed_prefix(pre));
                    assert(ls.subrange(0, ls.len() as int) =~= ls);
                    assert(!all_urls(ls));
                }
                return (urls, Err(e));
            },
        }
        i = i + 1;
    }
    proof {
        assert(ls.subrange(0, i as int) =~= ls);
        lemma_parsed_prefix_len(ls);
    }
    (urls, Ok(()))
}

/// Once a line fails, later lines add nothing.
proof fn lemma_prefix_stops(ls: Seq<Seq<char>>, k: int)
    requires
        0 < k <= ls.len(),
        parsed_prefix(ls.subrange(0, k)).len() < k,
    ensures
        forall|j: int| k <= j <= ls.len() ==> parsed_prefix(#[trigger] ls.subrange(0, j)) == parsed_prefix(ls.subrange(0, k)),
    decreases ls.len() - k,
{
    if k < ls.len() {
        assert(ls.subrange(0, k + 1).drop_last() =~= ls.subrange(0, k));
        lemma_prefix_stops(ls, k + 1);
    }
}

/// What to write after a file whose last byte is `last` so that it ends
/// with the line `url`: a newline first where the file does not end with one.
pub open spec fn appended_line(last: Option<u8>, url: Seq<char>) -> Seq<char> {
    match last {
        Some(b) if b != 10u8 => seq!['\n'] + url + seq!['\n'],
        _ => url + seq!['\n'],
    }
}

/// The text to append to the remote feeds file, whose last byte is `last`
/// (`None` when it is empty), so that it ends with the line `url`.
pub fn remote_feed_append_text(last: Option<u8>, url: &str) -> (r: String)
    ensures
        r@ == appended_line(last, url@),
{
    proof {
        reveal_strlit("\n");
    }
    let mut r = String::new();
    match last {
        Some(b) => {
            if b != 10u8 {
                r.append("\n");
            }
        },
        None => {},
    }
    r.append(url);
    r.append("\n");
    assert(r@ =~= appended_line(last, url@));
    r
}

} // verus!
