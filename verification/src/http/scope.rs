//! The bookmark a request addresses.
use vstd::prelude::*;

use crate::config::Config;
use crate::http::auth::{AuthError, VerifiedSession};
use crate::text::{chars_of, has_prefix, starts_with};

verus! {

/// `s` split at every `sep`, as `str::split` does: one more piece than
/// there are separators.
pub open spec fn split_on(s: Seq<char>, sep: char) -> Seq<Seq<char>>
    decreases s.len(),
{
    if s.len() == 0 {
        seq![Seq::empty()]
    } else {
        let front = split_on(s.drop_last(), sep);
        if s.last() == sep {
            front.push(Seq::empty())
        } else {
            front.update(front.len() - 1, front.last().push(s.last()))
        }
    }
}

/// The value of the first `bookmark=` pair among the pieces of a query.
pub open spec fn bookmark_pair(pieces: Seq<Seq<char>>) -> Option<Seq<char>>
    decreases pieces.len(),
{
    if pieces.len() == 0 {
        None
    } else {
        match bookmark_pair(pieces.drop_last()) {
            Some(b) => Some(b),
            None => if has_prefix(pieces.last(), "bookmark="@) {
                Some(pieces.last().subrange("bookmark="@.len() as int, pieces.last().len() as int))
            } else {
                None
            },
        }
    }
}

/// The bookmark a request names: its `X-Bookmark` header, else the first
/// `bookmark=` pair of its query string.
pub open spec fn requested_bookmark(header: Option<Seq<char>>, query: Option<Seq<char>>) -> Option<
    Seq<char>,
> {
    match header {
        Some(h) => Some(h),
        None => match query {
            Some(q) => bookmark_pair(split_on(q, '&')),
            None => None,
        },
    }
}

proof fn lemma_split_len(s: Seq<char>, sep: char)
    ensures
        split_on(s, sep).len() >= 1,
    decreases s.len(),
{
    if s.len() > 0 {
        lemma_split_len(s.drop_last(), sep);
    }
}

/// The value of a query piece if it is a `bookmark=` pair.
fn bookmark_value(piece: &Vec<char>) -> (r: Option<String>)
    ensures
        match r {
            Some(v) => has_prefix(piece@, "bookmark="@) && v@ == piece@.subrange(
                "bookmark="@.len() as int,
                piece@.len() as int,
            ),
            None => !has_prefix(piece@, "bookmark="@),
        },
{
    let mut text = String::new();
    let mut i: usize = 0;
    while i < piece.len()
        invariant
            i <= piece@.len(),
            text@ == piece@.subrange(0, i as int),
        decreases piece@.len() - i,
    {
        text.push(piece[i]);
        proof {
            assert(piece@.subrange(0, i + 1) =~= piece@.subrange(0, i as int).push(piece@[i as int]));
        }
        i += 1;
    }
    proof {
        assert(piece@.subrange(0, piece@.len() as int) =~= piece@);
    }
    if !starts_with(text.as_str(), "bookmark=") {
        return None;
    }
    let prefix = chars_of("bookmark=");
    let mut value = String::new();
    let mut j: usize = prefix.len();
    proof {
        assert(piece@.subrange(prefix@.len() as int, prefix@.len() as int) =~= Seq::<char>::empty());
    }
    while j < piece.len()
        invariant
            prefix@ == "bookmark="@,
            prefix@.len() <= j <= piece@.len(),
            value@ == piece@.subrange(prefix@.len() as int, j as int),
        decreases piece@.len() - j,
    {
        value.push(piece[j]);
        proof {
            assert(piece@.subrange(prefix@.len() as int, j + 1) =~= piece@.subrange(
                prefix@.len() as int,
                j as int,
            ).push(piece@[j as int]));
        }
        j += 1;
    }
    Some(value)
}

/// The value of the first `bookmark=` pair of a query string.
pub fn query_bookmark(query: &str) -> (r: Option<String>)
    ensures
        match r {
            Some(v) => bookmark_pair(split_on(query@, '&')) == Some(v@),
            None => bookmark_pair(split_on(query@, '&')) is None,
        },
{
    let chars = chars_of(query);
    let mut piece: Vec<char> = Vec::new();
    let mut i: usize = 0;
    proof {
        assert(chars@.take(0) =~= Seq::<char>::empty());
        assert(split_on(chars@.take(0), '&').drop_last() =~= Seq::<Seq<char>>::empty());
        assert(piece@ =~= split_on(chars@.take(0), '&').last());
    }
    while i < chars.len()
        invariant
            i <= chars@.len(),
            chars@ == query@,
            split_on(chars@.take(i as int), '&').len() >= 1,
            piece@ == split_on(chars@.take(i as int), '&').last(),
            bookmark_pair(split_on(chars@.take(i as int), '&').drop_last()) is None,
        decreases chars@.len() - i,
    {
        let c = chars[i];
        let ghost before = split_on(chars@.take(i as int), '&');
        let ghost after = split_on(chars@.take(i + 1), '&');
        proof {
            assert(chars@.take(i + 1).drop_last() =~= chars@.take(i as int));
            assert(chars@.take(i + 1).last() == c);
        }
        if c == '&' {
            proof {
                assert(after == before.push(Seq::<char>::empty()));
                assert(after.drop_last() =~= before);
                assert(before.drop_last().push(before.last()) =~= before);
            }
            match bookmark_value(&piece) {
                Some(v) => {
                    proof {
                        assert(bookmark_pair(before) == Some(v@));
                        lemma_split_stable(query@, i + 1, query@.len() as int);
                        assert(query@.take(query@.len() as int) =~= query@);
                        let all = split_on(query@, '&');
                        assert(all.take(before.len() as int) == before);
                        lemma_bookmark_first(all, before.len() as int);
                    }
                    return Some(v);
                },
                None => {},
            }
            piece = Vec::new();
            proof {
                assert(piece@ =~= after.last());
                lemma_split_len(chars@.take(i + 1), '&');
            }
        } else {
            piece.push(c);
            proof {
                assert(after == before.update(before.len() - 1, before.last().push(c)));
                assert(after.drop_last() =~= before.drop_last());
                assert(piece@ =~= after.last());
            }
        }
        i += 1;
    }
    proof {
        assert(chars@.take(chars@.len() as int) =~= chars@);
        let pieces = split_on(query@, '&');
        assert(pieces.drop_last().push(pieces.last()) =~= pieces);
    }
    bookmark_value(&piece)
}

/// The completed pieces of a prefix of `q` stay the first pieces of every
/// longer prefix.
proof fn lemma_split_stable(q: Seq<char>, a: int, b: int)
    requires
        0 <= a <= b <= q.len(),
    ensures
        split_on(q.take(a), '&').len() <= split_on(q.take(b), '&').len(),
        split_on(q.take(b), '&').take(split_on(q.take(a), '&').len() - 1) == split_on(
            q.take(a),
            '&',
        ).drop_last(),
    decreases b - a,
{
    lemma_split_len(q.take(a), '&');
    let pa = split_on(q.take(a), '&');
    if b == a {
        assert(pa.take(pa.len() - 1) =~= pa.drop_last());
    } else {
        lemma_split_stable(q, a, b - 1);
        let pd = split_on(q.take(b - 1), '&');
        let pb = split_on(q.take(b), '&');
        lemma_split_len(q.take(b - 1), '&');
        assert(q.take(b).drop_last() =~= q.take(b - 1));
        assert(q.take(b).last() == q[b - 1]);
        if q[b - 1] == '&' {
            assert(pb == pd.push(Seq::<char>::empty()));
            assert(pb.take(pa.len() - 1) =~= pd.take(pa.len() - 1));
        } else {
            assert(pb == pd.update(pd.len() - 1, pd.last().push(q[b - 1])));
            assert(pb.take(pa.len() - 1) =~= pd.take(pa.len() - 1));
        }
    }
}

/// A `bookmark=` pair among the first `k` pieces is the first of all.
proof fn lemma_bookmark_first(p: Seq<Seq<char>>, k: int)
    requires
        0 <= k <= p.len(),
        bookmark_pair(p.take(k)) is Some,
    ensures
        bookmark_pair(p) == bookmark_pair(p.take(k)),
    decreases p.len(),
{
    if k == p.len() {
        assert(p.take(k) =~= p);
    } else {
        assert(p.drop_last().take(k) =~= p.take(k));
        lemma_bookmark_first(p.drop_last(), k);
    }
}

/// The bookmark a request addresses: the one it names, else the
/// project's active bookmark, else `main`.
pub fn resolve_bookmark(header: Option<&str>, query: Option<&str>, active: Option<String>) -> (r:
    String)
    ensures
        r@ == match requested_bookmark(
            match header {
                Some(h) => Some(h@),
                None => None,
            },
            match query {
                Some(q) => Some(q@),
                None => None,
            },
        ) {
            Some(b) => b,
            None => match active {
                Some(a) => a@,
                None => "main"@,
            },
        },
{
    match header {
        Some(h) => h.to_owned(),
        None => {
            let from_query = match query {
                Some(q) => query_bookmark(q),
                None => None,
            };
            match from_query {
                Some(b) => b,
                None => match active {
                    Some(a) => a,
                    None => "main".to_owned(),
                },
            }
        },
    }
}

/// The project a bookmark-scoped request may address: the one its
/// project token grants. A request without a verified session has no
/// authorization header; a host token does not grant bookmark-scoped
/// routes.
pub fn session_project(session: Option<&VerifiedSession>) -> (r: Result<String, AuthError>)
    ensures
        match session {
            None => r matches Err(e) && e is NoAuthHeader,
            Some(VerifiedSession::Host) => r matches Err(e) && e is InvalidToken,
            Some(VerifiedSession::Project { project_name }) => r matches Ok(p) && p@
                == project_name@,
        },
{
    match session {
        None => Err(AuthError::NoAuthHeader),
        Some(VerifiedSession::Host) => Err(AuthError::InvalidToken),
        Some(VerifiedSession::Project { project_name }) => Ok(project_name.clone()),
    }
}

/// The configuration of a request: the server's, with the project and
/// bookmark the request addresses.
pub fn scoped_config(base: &Config, project: String, bookmark: String) -> (r: Config)
    ensures
        r.data_dir@ == base.data_dir@,
        r.brain@ == base.brain@,
        r.service_url@ == base.service_url@,
        r.project@ == project@,
        r.bookmark@ == bookmark@,
{
    let mut config = base.clone();
    config.project = project;
    config.bookmark = bookmark;
    config
}

} // verus!
