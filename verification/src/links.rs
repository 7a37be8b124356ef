//! Links that the forum builds: the registration and password-reset links it
//! mails, the second-factor step of a sign-in, and the decoding of request
//! paths.
use vstd::prelude::*;

verus! {

broadcast use vstd::string::group_string_axioms;

/// The serialization of the URL `s`, or `None` where `url` cannot parse it.
pub uninterp spec fn parsed_url(s: Seq<char>) -> Option<Seq<char>>;

/// The serialization of `path` resolved against the URL `base`
/// (`Url::join`), or `None` where either step fails.
pub uninterp spec fn joined_url(base: Seq<char>, path: Seq<char>) -> Option<Seq<char>>;

/// The serialization of the URL `url` with the pair `key=value` added to
/// its query (`query_pairs_mut().append_pair`), or `None` where `url` does not
/// parse.
pub uninterp spec fn url_with_pair(url: Seq<char>, key: Seq<char>, value: Seq<char>) -> Option<
    Seq<char>,
>;

/// The path of the URL `url` (`Url::path`), or `None` where it does not parse.
pub uninterp spec fn url_path_of(url: Seq<char>) -> Option<Seq<char>>;

/// The query of the URL `url` (`Url::query`), `None` where it does not parse.
pub uninterp spec fn url_query_of(url: Seq<char>) -> Option<Option<Seq<char>>>;

/// `s` with its percent-escapes decoded as UTF-8, invalid sequences replaced
/// (`percent_decode_str(s).decode_utf8_lossy()`).
pub uninterp spec fn percent_decoded(s: Seq<char>) -> Seq<char>;

/// `Url::parse(s)`, serialized; which text comes out is left to `url`.
#[verifier::external_body]
fn url_parse(s: &str) -> (r: Option<String>)
    ensures
        match r {
            Some(u) => parsed_url(s@) == Some(u@),
            None => parsed_url(s@) is None,
        },
{
    url::Url::parse(s).ok().map(|u| u.to_string())
}

/// `Url::join` of `path` onto the URL `base`, serialized.
#[verifier::external_body]
fn url_join(base: &str, path: &str) -> (r: Option<String>)
    ensures
        match r {
            Some(u) => joined_url(base@, path@) == Some(u@),
            None => joined_url(base@, path@) is None,
        },
{
    let u = url::Url::parse(base).ok()?;
    u.join(path).ok().map(|j| j.to_string())
}

/// The URL `url` with `key=value` appended to its query, serialized.
#[verifier::external_body]
fn url_append_pair(url: &str, key: &str, value: &str) -> (r: Option<String>)
    ensures
        match r {
            Some(u) => url_with_pair(url@, key@, value@) == Some(u@),
            None => url_with_pair(url@, key@, value@) is None,
        },
{
    let mut u = url::Url::parse(url).ok()?;
    u.query_pairs_mut().append_pair(key, value);
    Some(u.to_string())
}

/// `Url::path` of the URL `url`.
#[verifier::external_body]
fn url_path(url: &str) -> (r: Option<String>)
    ensures
        match r {
            Some(p) => url_path_of(url@) == Some(p@),
            None => url_path_of(url@) is None,
        },
{
    url::Url::parse(url).ok().map(|u| u.path().to_string())
}

/// `Url::query` of the URL `url`.
#[verifier::external_body]
fn url_query(url: &str) -> (r: Option<Option<String>>)
    ensures
        match r {
            Some(Some(q)) => url_query_of(url@) == Some(Some(q@)),
            Some(None) => url_query_of(url@) == Some(None::<Seq<char>>),
            None => url_query_of(url@) is None,
        },
{
    url::Url::parse(url).ok().map(|u| u.query().map(|q| q.to_string()))
}

/// `percent_decode_str(s).decode_utf8_lossy()`.
#[verifier::external_body]
pub(crate) fn percent_decode(s: &str) -> (r: String)
    ensures
        r@ == percent_decoded(s@),
{
    percent_encoding::percent_decode_str(s).decode_utf8_lossy().to_string()
}

/// Why a mailed link cannot be built.
#[derive(PartialEq, Eq, Structural, Debug, Clone, Copy)]
pub enum LinkError {
    /// The site's domain setting is no URL.
    InvalidDomain,
    /// The page cannot be placed under the site's URL.
    JoinFailed,
}

/// `url` with the pairs `pairs` appended to its query in order.
pub open spec fn with_pairs(url: Option<Seq<char>>, pairs: Seq<(Seq<char>, Seq<char>)>) -> Option<
    Seq<char>,
>
    decreases pairs.len(),
{
    if pairs.len() == 0 {
        url
    } else {
        match with_pairs(url, pairs.drop_last()) {
            Some(u) => url_with_pair(u, pairs.last().0, pairs.last().1),
            None => None,
        }
    }
}

/// The link to `page` on the site at `domain` carrying `pairs` in its query.
pub open spec fn site_link_spec(domain: Seq<char>, page: Seq<char>, pairs: Seq<(Seq<char>, Seq<char>)>) -> Result<
    Seq<char>,
    LinkError,
> {
    match parsed_url(domain) {
        None => Err(LinkError::InvalidDomain),
        Some(base) => match joined_url(base, page) {
            None => Err(LinkError::JoinFailed),
            Some(u) => match with_pairs(Some(u), pairs) {
                Some(l) => Ok(l),
                None => Err(LinkError::JoinFailed),
            },
        },
    }
}

/// The query pairs made of the keys and values at the same positions.
pub open spec fn pairs_of(keys: Seq<&str>, values: Seq<&str>) -> Seq<(Seq<char>, Seq<char>)> {
    Seq::new(keys.len(), |i: int| (keys[i]@, values[i]@))
}

/// Appends the pairs of `keys` and `values` to the query of `url`.
fn append_pairs(url: String, keys: &Vec<&str>, values: &Vec<&str>) -> (r: Option<String>)
    requires
        keys@.len() == values@.len(),
    ensures
        ({
            let pairs = pairs_of(keys@, values@);
            match r {
                Some(s) => with_pairs(Some(url@), pairs) == Some(s@),
                None => with_pairs(Some(url@), pairs) is None,
            }
        }),
{
    let ghost pairs = pairs_of(keys@, values@);
    let ghost start = url@;
    let mut cur = url;
    let mut i: usize = 0;
    proof {
        assert(pairs.take(0) =~= Seq::<(Seq<char>, Seq<char>)>::empty());
    }
    while i < keys.len()
        invariant
            i <= keys@.len(),
            keys@.len() == values@.len(),
            pairs == pairs_of(keys@, values@),
            start == url@,
            with_pairs(Some(start), pairs.take(i as int)) == Some(cur@),
        decreases keys.len() - i,
    {
        proof {
            assert(pairs.take(i + 1).drop_last() =~= pairs.take(i as int));
            assert(pairs.take(i + 1).last() == (keys@[i as int]@, values@[i as int]@));
        }
        match url_append_pair(cur.as_str(), keys[i], values[i]) {
            Some(next) => {
                cur = next;
            },
            None => {
                proof {
                    let t = pairs.take(i + 1);
                    assert(t.len() > 0);
                    assert(t.drop_last() =~= pairs.take(i as int));
                    assert(with_pairs(Some(start), t.drop_last()) == Some(cur@));
                    assert(t.last() == (keys@[i as int]@, values@[i as int]@));
                    assert(url_with_pair(cur@, keys@[i as int]@, values@[i as int]@) is None);
                    assert(with_pairs(Some(start), t) is None);
                    lemma_with_pairs_none(start, pairs, i as int + 1);
                    assert(pairs.take(keys@.len() as int) =~= pairs);
                }
                return None;
            },
        }
        i = i + 1;
    }
    proof {
        assert(pairs.take(keys@.len() as int) =~= pairs);
    }
    Some(cur)
}

/// Once a step fails, appending more pairs cannot succeed.
proof fn lemma_with_pairs_none(start: Seq<char>, pairs: Seq<(Seq<char>, Seq<char>)>, k: int)
    requires
        0 <= k <= pairs.len(),
        with_pairs(Some(start), pairs.take(k)) is None,
    ensures
        with_pairs(Some(start), pairs) is None,
    decreases pairs.len() - k,
{
    if k < pairs.len() {
        assert(pairs.take(k + 1).drop_last() =~= pairs.take(k));
        lemma_with_pairs_none(start, pairs, k + 1);
    } else {
        assert(pairs.take(k) =~= pairs);
    }
}

/// The link to `page` on the site at `domain` with the query pairs given.
fn site_link(domain: &str, page: &str, keys: &Vec<&str>, values: &Vec<&str>) -> (r: Result<
    String,
    LinkError,
>)
    requires
        keys@.len() == values@.len(),
    ensures
        r matches Ok(s) ==> site_link_spec(
            domain@,
            page@,
            pairs_of(keys@, values@),
        ) == Ok::<Seq<char>, LinkError>(s@),
        r matches Err(e) ==> site_link_spec(
            domain@,
            page@,
            pairs_of(keys@, values@),
        ) == Err::<Seq<char>, LinkError>(e),
{
    let base = match url_parse(domain) {
        Some(b) => b,
        None => {
            return Err(LinkError::InvalidDomain);
        },
    };
    let joined = match url_join(base.as_str(), page) {
        Some(j) => j,
        None => {
            return Err(LinkError::JoinFailed);
        },
    };
    match append_pairs(joined, keys, values) {
        Some(l) => Ok(l),
        None => Err(LinkError::JoinFailed),
    }
}

/// The registration link mailed to `email`: `/register` on the site with the
/// code `token`, the address, and the invitation code where one was given.
pub fn register_link(domain: &str, token: &str, email: &str, invite_code: Option<&str>) -> (r: Result<
    String,
    LinkError,
>)
    ensures
        ({
            let base_pairs = seq![("token"@, token@), ("email"@, email@)];
            let pairs = match invite_code {
                Some(c) => base_pairs.push(("invite_code"@, c@)),
                None => base_pairs,
            };
            match r {
                Ok(s) => site_link_spec(domain@, "/register"@, pairs) == Ok::<Seq<char>, LinkError>(s@),
                Err(e) => site_link_spec(domain@, "/register"@, pairs) == Err::<Seq<char>, LinkError>(e),
            }
        }),
{
    let mut keys: Vec<&str> = vec!["token", "email"];
    let mut values: Vec<&str> = vec![token, email];
    if let Some(c) = invite_code {
        keys.push("invite_code");
        values.push(c);
    }
    let r = site_link(domain, "/register", &keys, &values);
    proof {
        let base_pairs = seq![("token"@, token@), ("email"@, email@)];
        let pairs = match invite_code {
            Some(c) => base_pairs.push(("invite_code"@, c@)),
            None => base_pairs,
        };
        assert(pairs_of(keys@, values@) =~= pairs);
    }
    r
}

/// The password-reset link mailed to `email`: `/reset-password` on the site
/// with the code `token` and the address.
pub fn reset_password_link(domain: &str, token: &str, email: &str) -> (r: Result<String, LinkError>)
    ensures
        ({
            let pairs = seq![("token"@, token@), ("email"@, email@)];
            match r {
                Ok(s) => site_link_spec(domain@, "/reset-password"@, pairs) == Ok::<
                    Seq<char>,
                    LinkError,
                >(s@),
                Err(e) => site_link_spec(domain@, "/reset-password"@, pairs) == Err::<
                    Seq<char>,
                    LinkError,
                >(e),
            }
        }),
{
    let keys: Vec<&str> = vec!["token", "email"];
    let values: Vec<&str> = vec![token, email];
    let r = site_link(domain, "/reset-password", &keys, &values);
    proof {
        let pairs = seq![("token"@, token@), ("email"@, email@)];
        assert(pairs_of(keys@, values@) =~= pairs);
    }
    r
}

/// Where a sign-in that needs a second factor goes next: the path and query
/// of `/login-totp-challenge` carrying the code `token`, the user name, and
/// the remember-me choice where one was made.
pub fn totp_challenge_redirect(token: &str, username: &str, remember_me: Option<&str>) -> (r: Option<
    String,
>)
    ensures
        ({
            let base_pairs = seq![("token"@, token@), ("username"@, username@)];
            let pairs = match remember_me {
                Some(m) => base_pairs.push(("remember_me"@, m@)),
                None => base_pairs,
            };
            match site_link_spec("http://localhost"@, "/login-totp-challenge"@, pairs) {
                Ok(l) => match (url_path_of(l), url_query_of(l)) {
                    (Some(p), Some(q)) => r matches Some(s) && s@ == p + "?"@ + match q {
                        Some(v) => v,
                        None => Seq::empty(),
                    },
                    _ => r is None,
                },
                Err(_) => r is None,
            }
        }),
{
    let mut keys: Vec<&str> = vec!["token", "username"];
    let mut values: Vec<&str> = vec![token, username];
    if let Some(m) = remember_me {
        keys.push("remember_me");
        values.push(m);
    }
    proof {
        let base_pairs = seq![("token"@, token@), ("username"@, username@)];
        let pairs = match remember_me {
            Some(m) => base_pairs.push(("remember_me"@, m@)),
            None => base_pairs,
        };
        assert(pairs_of(keys@, values@) =~= pairs);
        reveal_strlit("");
    }
    let link = match site_link("http://localhost", "/login-totp-challenge", &keys, &values) {
        Ok(l) => l,
        Err(_) => {
            return None;
        },
    };
    let path = match url_path(link.as_str()) {
        Some(p) => p,
        None => {
            return None;
        },
    };
    let query = match url_query(link.as_str()) {
        Some(q) => q,
        None => {
            return None;
        },
    };
    let mut out = path;
    out.append("?");
    match query {
        Some(q) => out.append(q.as_str()),
        None => out.append(""),
    }
    Some(out)
}

} // verus!
