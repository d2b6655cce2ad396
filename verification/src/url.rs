//! Assembly of an endpoint's URL from base, path and query parameters.
//!
//! The URL is the base followed by the path, closed by a `/`, followed by the
//! query string if there are parameters. Keys and values are written as they
//! are: nothing is percent-encoded.

use crate::config::Endpoint;
use crate::string_map::Pair;
use vstd::prelude::*;
use vstd::string::*;

verus! {

/// `text` closed by a path separator: unchanged when it already ends in `/`,
/// otherwise with one `/` appended.
pub open spec fn with_trailing_slash(text: Seq<char>) -> Seq<char> {
    if text.len() > 0 && text.last() == '/' {
        text
    } else {
        text.push('/')
    }
}

/// One parameter as it stands in a query string: `key=value`.
pub open spec fn pair_text(pair: Pair) -> Seq<char> {
    pair.0 + seq!['='] + pair.1
}

/// The parameters in order, each as `key=value`, with `&` between neighbours.
pub open spec fn joined(pairs: Seq<Pair>) -> Seq<char>
    decreases pairs.len(),
{
    if pairs.len() == 0 {
        Seq::empty()
    } else if pairs.len() == 1 {
        pair_text(pairs[0])
    } else {
        joined(pairs.drop_last()) + seq!['&'] + pair_text(pairs.last())
    }
}

/// The query string: empty without parameters, otherwise `?` and the joined
/// parameters.
pub open spec fn query(pairs: Seq<Pair>) -> Seq<char> {
    if pairs.len() == 0 {
        Seq::empty()
    } else {
        seq!['?'] + joined(pairs)
    }
}

/// The URL of a call: base and path, closed by `/`, then the query string.
pub open spec fn url_of(base: Seq<char>, path: Seq<char>, pairs: Seq<Pair>) -> Seq<char> {
    with_trailing_slash(base + path) + query(pairs)
}

/// The path part of every URL ends in `/`, and a text that already ends in `/`
/// is not given a second one.
pub proof fn lemma_path_is_closed(text: Seq<char>)
    ensures
        with_trailing_slash(text).last() == '/',
        text.len() > 0 && text.last() == '/' ==> with_trailing_slash(text) == text,
        with_trailing_slash(with_trailing_slash(text)) == with_trailing_slash(text),
{
}

/// Without parameters the URL is the closed path alone: no query string is
/// added, so a `?` occurs in the URL only if base or path hold one.
pub proof fn lemma_url_without_params(base: Seq<char>, path: Seq<char>)
    ensures
        url_of(base, path, Seq::empty()) == with_trailing_slash(base + path),
        !(base + path).contains('?') ==> !url_of(base, path, Seq::empty()).contains('?'),
{
    let closed = with_trailing_slash(base + path);
    assert(url_of(base, path, Seq::empty()) =~= closed);
    if !(base + path).contains('?') && closed.contains('?') {
        let at = choose|i: int| 0 <= i < closed.len() && closed[i] == '?';
        if at < (base + path).len() {
            assert((base + path)[at] == '?');
        }
    }
}

/// With one parameter the URL is the closed path followed by `?key=value`.
pub proof fn lemma_url_with_one_param(
    base: Seq<char>,
    path: Seq<char>,
    key: Seq<char>,
    value: Seq<char>,
)
    ensures
        url_of(base, path, seq![(key, value)]) == with_trailing_slash(base + path) + seq!['?'] + key
            + seq!['='] + value,
{
    let pairs = seq![(key, value)];
    assert(joined(pairs) == pair_text(pairs[0]));
    assert(url_of(base, path, pairs) =~= with_trailing_slash(base + path) + seq!['?'] + key
        + seq!['='] + value);
}

/// Adding a parameter behind at least one other appends `&key=value` to the URL.
pub proof fn lemma_url_with_one_more_param(
    base: Seq<char>,
    path: Seq<char>,
    pairs: Seq<Pair>,
    key: Seq<char>,
    value: Seq<char>,
)
    requires
        pairs.len() > 0,
    ensures
        url_of(base, path, pairs.push((key, value))) == url_of(base, path, pairs) + seq!['&'] + key
            + seq!['='] + value,
{
    let more = pairs.push((key, value));
    assert(more.drop_last() =~= pairs);
    assert(url_of(base, path, more) =~= url_of(base, path, pairs) + seq!['&'] + key + seq!['=']
        + value);
}

/// Appends a `/` to `text` unless it already ends in one.
pub fn close_path(text: &mut String)
    ensures
        final(text)@ == with_trailing_slash(old(text)@),
{
    let len: usize = text.as_str().unicode_len();
    let closed = len > 0 && text.as_str().get_char(len - 1) == '/';
    if !closed {
        proof {
            reveal_strlit("/");
        }
        text.append("/");
        assert(text@ =~= old(text)@.push('/'));
    }
}

/// Builds the URL of a call from the base, the path and the parameters in the
/// order given.
pub fn build_url(base_url: &String, path: &String, params: &Vec<(String, String)>) -> (url: String)
    ensures
        url@ == url_of(base_url@, path@, crate::string_map::pairs_of(params@)),
{
    let ghost pairs = crate::string_map::pairs_of(params@);
    let ghost head = with_trailing_slash(base_url@ + path@);
    let ghost mark = if params.len() > 0 {
        seq!['?']
    } else {
        Seq::<char>::empty()
    };
    let mut url = base_url.clone();
    url.append(path.as_str());
    close_path(&mut url);
    if params.len() > 0 {
        proof {
            reveal_strlit("?");
        }
        url.append("?");
    }
    let mut done: usize = 0;
    while done < params.len()
        invariant
            done <= params.len(),
            pairs == crate::string_map::pairs_of(params@),
            mark == if params.len() > 0 {
                seq!['?']
            } else {
                Seq::<char>::empty()
            },
            url@ == head + mark + joined(pairs.take(done as int)),
        decreases params.len() - done,
    {
        proof {
            reveal_strlit("&");
            reveal_strlit("=");
        }
        if done > 0 {
            url.append("&");
        }
        url.append(params[done].0.as_str());
        url.append("=");
        url.append(params[done].1.as_str());
        proof {
            let before = pairs.take(done as int);
            let after = pairs.take(done + 1);
            assert(after.drop_last() =~= before);
            assert(after.last() == pairs[done as int]);
            assert(pair_text(pairs[done as int]) == params[done as int].0@ + seq!['=']
                + params[done as int].1@);
            assert(url@ =~= head + mark + joined(after));
        }
        done += 1;
    }
    proof {
        assert(pairs.take(done as int) =~= pairs);
        assert(query(pairs) =~= mark + joined(pairs));
        assert(url@ =~= head + query(pairs));
    }
    url
}

impl Endpoint {
    /// The URL of this endpoint under `base`.
    pub open spec fn url(&self, base: Seq<char>) -> Seq<char> {
        url_of(base, self.path@, self.params@)
    }

    /// Builds the fully qualified URL of this endpoint under `base_url`.
    pub fn __prepare_endpoint(&self, base_url: &String) -> (url: String)
        ensures
            url@ == self.url(base_url@),
    {
        build_url(base_url, &self.path, self.params.entries())
    }
}

} // verus!
