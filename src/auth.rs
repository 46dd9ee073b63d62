//! Authentication of callers by bearer token against the configured user and
//! admin keys.
use vstd::prelude::*;
use vstd::string::*;

verus! {

/// What an authenticated caller may see.
#[derive(Clone, Copy, Debug, PartialEq, Eq, Structural)]
pub enum ApiKeyRole {
    User,
    Admin,
}

/// The authenticated identity attached to a request.
#[derive(Clone, Debug)]
pub struct ValidatedApiKey {
    pub key: String,
    pub role: ApiKeyRole,
}

/// The scheme that must open the `Authorization` header: `Bearer ` with a
/// single space, case-sensitive.
pub open spec fn bearer_prefix() -> Seq<char> {
    seq!['B', 'e', 'a', 'r', 'e', 'r', ' ']
}

/// The token of an `Authorization` header value, taken byte for byte after
/// the scheme; `None` where the scheme is missing.
pub open spec fn bearer_token(h: Seq<char>) -> Option<Seq<char>> {
    if h.len() >= 7 && h.subrange(0, 7) == bearer_prefix() {
        Some(h.subrange(7, h.len() as int))
    } else {
        None
    }
}

pub open spec fn key_views(keys: Seq<String>) -> Seq<Seq<char>> {
    keys.map_values(|k: String| k@)
}

/// The role of token `t`: admin keys are looked at first.
pub open spec fn role_of(admin_keys: Seq<String>, user_keys: Seq<String>, t: Seq<char>) -> Option<
    ApiKeyRole,
> {
    if key_views(admin_keys).contains(t) {
        Some(ApiKeyRole::Admin)
    } else if key_views(user_keys).contains(t) {
        Some(ApiKeyRole::User)
    } else {
        None
    }
}

/// The caller that a request with header value `header` authenticates as.
pub open spec fn caller_of(
    admin_keys: Seq<String>,
    user_keys: Seq<String>,
    header: Option<Seq<char>>,
) -> Option<(Seq<char>, ApiKeyRole)> {
    match header {
        None => None,
        Some(h) => match bearer_token(h) {
            None => None,
            Some(t) => match role_of(admin_keys, user_keys, t) {
                None => None,
                Some(role) => Some((t, role)),
            },
        },
    }
}

/// Whether `key` is one of `keys`, compared as raw strings.
fn is_listed(keys: &Vec<String>, key: &String) -> (r: bool)
    ensures
        r == key_views(keys@).contains(key@),
{
    let mut i: usize = 0;
    while i < keys.len()
        invariant
            0 <= i <= keys@.len(),
            forall|j: int| 0 <= j < i ==> #[trigger] keys@[j]@ != key@,
        decreases keys@.len() - i,
    {
        if keys[i] == *key {
            proof {
                assert(key_views(keys@)[i as int] == key@);
            }
            return true;
        }
        i = i + 1;
    }
    proof {
        if key_views(keys@).contains(key@) {
            let j = choose|j: int| 0 <= j < key_views(keys@).len() && key_views(keys@)[j] == key@;
            assert(keys@[j]@ == key@);
        }
    }
    false
}

/// The token after `Bearer ` in a header value, if the value opens so.
fn extract_bearer(h: &str) -> (r: Option<String>)
    ensures
        match bearer_token(h@) {
            None => r is None,
            Some(t) => r is Some && r->0@ == t,
        },
{
    let n = h.unicode_len();
    if n < 7 {
        return None;
    }
    let ok = h.get_char(0) == 'B' && h.get_char(1) == 'e' && h.get_char(2) == 'a' && h.get_char(3)
        == 'r' && h.get_char(4) == 'e' && h.get_char(5) == 'r' && h.get_char(6) == ' ';
    proof {
        if ok {
            assert(h@.subrange(0, 7) =~= bearer_prefix());
        } else {
            assert(h@.subrange(0, 7) != bearer_prefix()) by {
                if h@.subrange(0, 7) == bearer_prefix() {
                    assert(h@.subrange(0, 7)[0] == h@[0]);
                    assert(h@.subrange(0, 7)[1] == h@[1]);
                    assert(h@.subrange(0, 7)[2] == h@[2]);
                    assert(h@.subrange(0, 7)[3] == h@[3]);
                    assert(h@.subrange(0, 7)[4] == h@[4]);
                    assert(h@.subrange(0, 7)[5] == h@[5]);
                    assert(h@.subrange(0, 7)[6] == h@[6]);
                }
            }
        }
    }
    if !ok {
        return None;
    }
    let t = h.substring_char(7, n);
    Some(t.to_owned())
}

/// The characters that `char::is_whitespace` accepts: those of Unicode's
/// White_Space property.
pub open spec fn is_white(c: char) -> bool {
    ('\u{9}' <= c && c <= '\u{d}') || c == ' ' || c == '\u{85}' || c == '\u{a0}' || c
        == '\u{1680}' || ('\u{2000}' <= c && c <= '\u{200a}') || c == '\u{2028}' || c
        == '\u{2029}' || c == '\u{202f}' || c == '\u{205f}' || c == '\u{3000}'
}

pub open spec fn trim_start(s: Seq<char>) -> Seq<char>
    decreases s.len(),
{
    if s.len() > 0 && is_white(s[0]) {
        trim_start(s.drop_first())
    } else {
        s
    }
}

pub open spec fn trim_end(s: Seq<char>) -> Seq<char>
    decreases s.len(),
{
    if s.len() > 0 && is_white(s.last()) {
        trim_end(s.drop_last())
    } else {
        s
    }
}

/// `s` without its leading and trailing white space.
pub open spec fn trimmed(s: Seq<char>) -> Seq<char> {
    trim_end(trim_start(s))
}

/// Relies on str::trim: the slice without leading and trailing characters
/// of the White_Space property.
#[verifier::external_body]
fn trim_str(s: &str) -> (r: &str)
    ensures
        r@ == trimmed(s@),
{
    s.trim()
}

/// The pieces of `s` between commas (one piece where there is no comma).
pub open spec fn split_commas(s: Seq<char>) -> Seq<Seq<char>>
    decreases s.len(),
{
    if s.len() == 0 {
        seq![Seq::<char>::empty()]
    } else {
        let p = split_commas(s.drop_last());
        if s.last() == ',' {
            p.push(Seq::<char>::empty())
        } else {
            p.update(p.len() - 1, p.last().push(s.last()))
        }
    }
}

/// The trimmed pieces, empty ones left out.
pub open spec fn keys_of(pieces: Seq<Seq<char>>) -> Seq<Seq<char>>
    decreases pieces.len(),
{
    if pieces.len() == 0 {
        Seq::empty()
    } else {
        let r = keys_of(pieces.drop_last());
        let t = trimmed(pieces.last());
        if t.len() == 0 {
            r
        } else {
            r.push(t)
        }
    }
}

/// The keys of a comma-separated list: each entry trimmed of white space,
/// and empty entries ignored.
pub fn parse_key_list(raw: &str) -> (r: Vec<String>)
    ensures
        key_views(r@) == keys_of(split_commas(raw@)),
{
    let n = raw.unicode_len();
    let mut out: Vec<String> = Vec::new();
    let mut start: usize = 0;
    let mut i: usize = 0;
    proof {
        assert(raw@.take(0) =~= Seq::<char>::empty());
        assert(raw@.subrange(0, 0) =~= Seq::<char>::empty());
        assert(key_views(out@) =~= Seq::<Seq<char>>::empty());
        assert(split_commas(Seq::<char>::empty()).drop_last() =~= Seq::<Seq<char>>::empty());
    }
    while i < n
        invariant
            n == raw@.len(),
            0 <= start <= i <= n,
            split_commas(raw@.take(i as int)).len() >= 1,
            split_commas(raw@.take(i as int)).last() == raw@.subrange(start as int, i as int),
            key_views(out@) == keys_of(split_commas(raw@.take(i as int)).drop_last()),
        decreases n - i,
    {
        let c = raw.get_char(i);
        let ghost p = split_commas(raw@.take(i as int));
        proof {
            assert(raw@.take(i + 1).drop_last() =~= raw@.take(i as int));
            assert(raw@.take(i + 1).last() == c);
        }
        if c == ',' {
            let piece = raw.substring_char(start, i);
            let t = trim_str(piece);
            let ghost before = out@;
            if !t.is_empty() {
                out.push(t.to_owned());
                proof {
                    assert(key_views(out@) =~= key_views(before).push(t@));
                }
            }
            proof {
                let q = split_commas(raw@.take(i + 1));
                assert(q == p.push(Seq::<char>::empty()));
                assert(q.drop_last() =~= p);
                assert(p =~= p.drop_last().push(p.last()));
                assert(raw@.subrange(i + 1, i + 1) =~= Seq::<char>::empty());
            }
            start = i + 1;
        } else {
            proof {
                let q = split_commas(raw@.take(i + 1));
                assert(q == p.update(p.len() - 1, p.last().push(c)));
                assert(q.drop_last() =~= p.drop_last());
                assert(q.last() =~= raw@.subrange(start as int, i + 1));
            }
        }
        i = i + 1;
    }
    let piece = raw.substring_char(start, n);
    let t = trim_str(piece);
    let ghost p = split_commas(raw@.take(n as int));
    let ghost before = out@;
    if !t.is_empty() {
        out.push(t.to_owned());
        proof {
            assert(key_views(out@) =~= key_views(before).push(t@));
        }
    }
    proof {
        assert(raw@.take(n as int) =~= raw@);
        assert(p =~= p.drop_last().push(p.last()));
    }
    out
}

/// The configured keys, and the check of each request against them.
pub struct AuthMiddleware {
    pub api_keys: Vec<String>,
    pub admin_keys: Vec<String>,
}

impl AuthMiddleware {
    pub fn new(api_keys: Vec<String>, admin_keys: Vec<String>) -> (r: AuthMiddleware)
        ensures
            r.api_keys == api_keys,
            r.admin_keys == admin_keys,
    {
        AuthMiddleware { api_keys, admin_keys }
    }

    /// The caller that a request authenticates as, given its `Authorization`
    /// header value (`None` where the header is absent or not text): an admin
    /// where the token is an admin key, else a user where it is a user key,
    /// else nobody (the request is refused).
    pub fn authenticate(&self, header: Option<&str>) -> (r: Option<ValidatedApiKey>)
        ensures
            match caller_of(
                self.admin_keys@,
                self.api_keys@,
                match header {
                    Some(h) => Some(h@),
                    None => None,
                },
            ) {
                None => r is None,
                Some(c) => r is Some && r->0.key@ == c.0 && r->0.role == c.1,
            },
    {
        let h = match header {
            Some(h) => h,
            None => {
                return None;
            },
        };
        let token = match extract_bearer(h) {
            Some(t) => t,
            None => {
                return None;
            },
        };
        if is_listed(&self.admin_keys, &token) {
            Some(ValidatedApiKey { key: token, role: ApiKeyRole::Admin })
        } else if is_listed(&self.api_keys, &token) {
            Some(ValidatedApiKey { key: token, role: ApiKeyRole::User })
        } else {
            None
        }
    }

    /// The per-service copy of the keys for the service wrapping `service`.
    pub fn new_transform<S>(&self, service: S) -> (r: AuthMiddlewareService<S>)
        ensures
            r.service == service,
            r.auth.api_keys@ == self.api_keys@,
            r.auth.admin_keys@ == self.admin_keys@,
    {
        AuthMiddlewareService {
            service,
            auth: AuthMiddleware {
                api_keys: copy_keys(&self.api_keys),
                admin_keys: copy_keys(&self.admin_keys),
            },
        }
    }
}

fn copy_keys(keys: &Vec<String>) -> (r: Vec<String>)
    ensures
        r@ == keys@,
{
    let mut r: Vec<String> = Vec::new();
    let mut i: usize = 0;
    while i < keys.len()
        invariant
            0 <= i <= keys@.len(),
            r@ == keys@.subrange(0, i as int),
        decreases keys@.len() - i,
    {
        r.push(keys[i].clone());
        proof {
            assert(r@ =~= keys@.subrange(0, i + 1));
        }
        i = i + 1;
    }
    proof {
        assert(keys@.subrange(0, keys@.len() as int) =~= keys@);
    }
    r
}

/// An inner service guarded by the key check.
pub struct AuthMiddlewareService<S> {
    pub service: S,
    pub auth: AuthMiddleware,
}

} // verus!
