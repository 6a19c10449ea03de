//! Resolving a raw, user-typed URL-like line into a structured target:
//! scheme classification, host, port and path, in a fixed priority order.

use vstd::prelude::*;
use crate::errors::ClientError;
use crate::numbers::{
    all_digits, dec_digits, dec_val, lemma_dec_digits_val, parse_decimal, u64_to_decimal,
};
use crate::text::{
    contains_ci, find_ci, find_ci_from, find_ci_str, lemma_find_ci_from_props, lemma_find_ci_lower,
    lower_code, lower_seq, matches_ci_at, slash_host, slash_path, split_first_slash,
    to_ascii_lower, trim_seq, trim_str,
};

verus! {

/// How a target is reached: plaintext on the default port, encrypted on the
/// default port, or plaintext on an explicitly given port.
#[derive(Clone, Copy, Debug, PartialEq, Eq, Structural)]
pub enum Scheme {
    /// Plaintext transport, default port 80.
    Plain,
    /// Encrypted transport, default port 443.
    Encrypted,
    /// Plaintext transport on an explicit port parsed from the input.
    CustomPort(u16),
}

impl Scheme {
    /// The port this scheme connects to.
    pub open spec fn port_spec(self) -> u16 {
        match self {
            Scheme::Plain => 80,
            Scheme::Encrypted => 443,
            Scheme::CustomPort(p) => p,
        }
    }

    /// The port this scheme connects to.
    pub fn port_number(&self) -> (p: u16)
        ensures
            p == self.port_spec(),
    {
        match self {
            Scheme::Plain => 80,
            Scheme::Encrypted => 443,
            Scheme::CustomPort(p) => *p,
        }
    }

    /// Whether this scheme calls for an encrypted transport.
    pub fn uses_tls(&self) -> (r: bool)
        ensures
            r == (*self == Scheme::Encrypted),
    {
        match self {
            Scheme::Encrypted => true,
            _ => false,
        }
    }
}

/// Mathematical shape of a parsed target.
pub struct TargetModel {
    pub host: Seq<char>,
    pub path: Seq<char>,
    pub scheme: Scheme,
}

/// The structured result of parsing a raw URL-like string.  `host` holds no
/// `/`; `path` is what followed the first `/` after scheme and port
/// extraction, or empty.
#[derive(Clone, Debug)]
pub struct Target {
    pub host: String,
    pub path: String,
    pub scheme: Scheme,
}

impl View for Target {
    type V = TargetModel;

    open spec fn view(&self) -> TargetModel {
        TargetModel { host: self.host@, path: self.path@, scheme: self.scheme }
    }
}

/// The characters of `https`, the first scheme marker looked for.
pub open spec fn https_pat() -> Seq<char> {
    seq!['h', 't', 't', 'p', 's']
}

/// The characters of `http`, the second scheme marker looked for.
pub open spec fn http_pat() -> Seq<char> {
    seq!['h', 't', 't', 'p']
}

/// A single colon, the custom-port marker.
pub open spec fn colon_pat() -> Seq<char> {
    seq![':']
}

/// A single slash, the host/path separator.
pub open spec fn slash_pat() -> Seq<char> {
    seq!['/']
}

/// What parsing returns on a raw input line, applied to the trimmed input
/// with case-insensitive scheme detection, in this fixed priority order:
/// a `https` occurrence anywhere, else a `http` occurrence anywhere, else a
/// `:` (custom port), else plaintext with the whole input as host and path.
/// `None` is the unparseable case.
pub open spec fn parse_model(raw: Seq<char>) -> Option<TargetModel> {
    let t = trim_seq(raw);
    if contains_ci(t, https_pat()) {
        let i = find_ci(t, https_pat());
        if i + 8 <= t.len() {
            let rem = trim_seq(t.skip(i + 8));
            Some(
                TargetModel {
                    host: slash_host(rem),
                    path: slash_path(rem),
                    scheme: Scheme::Encrypted,
                },
            )
        } else {
            None
        }
    } else if contains_ci(t, http_pat()) {
        let i = find_ci(t, http_pat());
        if i + 7 <= t.len() {
            let rem = trim_seq(t.skip(i + 7));
            Some(
                TargetModel { host: slash_host(rem), path: slash_path(rem), scheme: Scheme::Plain },
            )
        } else {
            None
        }
    } else if contains_ci(t, colon_pat()) {
        let l = lower_seq(t);
        let j = find_ci(t, colon_pat());
        let left = trim_seq(l.take(j));
        let rest = l.skip(j + 1);
        let k = find_ci(rest, slash_pat());
        let port_str = if k >= 0 {
            rest.take(k)
        } else {
            rest
        };
        if port_str.len() > 0 && all_digits(port_str) && dec_val(port_str) <= 65535 {
            let path = if k >= 0 {
                rest.skip(k + 1)
            } else {
                slash_path(left)
            };
            Some(
                TargetModel {
                    host: slash_host(left),
                    path,
                    scheme: Scheme::CustomPort(dec_val(port_str) as u16),
                },
            )
        } else {
            None
        }
    } else {
        Some(TargetModel { host: slash_host(t), path: slash_path(t), scheme: Scheme::Plain })
    }
}

/// Parse a raw line into a [`Target`], or report `InvalidUrl`.
pub fn parse(raw: &str) -> (r: Result<Target, ClientError>)
    ensures
        parse_model(raw@) matches Some(m) ==> (r matches Ok(t) && t@ == m),
        parse_model(raw@) is None ==> r == Err::<Target, ClientError>(ClientError::InvalidUrl),
{
    proof {
        reveal_strlit("https");
        reveal_strlit("http");
        reveal_strlit(":");
        reveal_strlit("/");
        assert("https"@ =~= https_pat());
        assert("http"@ =~= http_pat());
        assert(":"@ =~= colon_pat());
        assert("/"@ =~= slash_pat());
    }
    let t = trim_str(raw);
    let n = t.unicode_len();
    let low = to_ascii_lower(t);
    let ghost ts = t@;
    if let Some(i) = find_ci_str(low.as_str(), "https") {
        proof {
            lemma_find_ci_lower(ts, https_pat(), 0);
            lemma_find_ci_from_props(ts, https_pat(), 0);
        }
        if n - i >= 8 {
            let rem = t.substring_char(i + 8, n);
            proof {
                assert(ts.subrange(i + 8 as int, n as int) =~= ts.skip(i + 8));
            }
            let rem2 = trim_str(rem);
            let (host, path) = split_first_slash(rem2);
            Ok(Target { host, path, scheme: Scheme::Encrypted })
        } else {
            Err(ClientError::InvalidUrl)
        }
    } else if let Some(i) = {
        proof {
            lemma_find_ci_lower(ts, https_pat(), 0);
        }
        find_ci_str(low.as_str(), "http")
    } {
        proof {
            lemma_find_ci_lower(ts, http_pat(), 0);
            lemma_find_ci_from_props(ts, http_pat(), 0);
        }
        if n - i >= 7 {
            let rem = t.substring_char(i + 7, n);
            proof {
                assert(ts.subrange(i + 7 as int, n as int) =~= ts.skip(i + 7));
            }
            let rem2 = trim_str(rem);
            let (host, path) = split_first_slash(rem2);
            Ok(Target { host, path, scheme: Scheme::Plain })
        } else {
            Err(ClientError::InvalidUrl)
        }
    } else if let Some(j) = {
        proof {
            lemma_find_ci_lower(ts, https_pat(), 0);
            lemma_find_ci_lower(ts, http_pat(), 0);
        }
        find_ci_str(low.as_str(), ":")
    } {
        proof {
            lemma_find_ci_lower(ts, colon_pat(), 0);
            lemma_find_ci_from_props(ts, colon_pat(), 0);
        }
        let left_raw = low.as_str().substring_char(0, j);
        proof {
            assert(lower_seq(ts).subrange(0, j as int) =~= lower_seq(ts).take(j as int));
        }
        let left = trim_str(left_raw);
        let rest = low.as_str().substring_char(j + 1, n);
        proof {
            assert(lower_seq(ts).subrange(j + 1 as int, n as int) =~= lower_seq(ts).skip(
                j + 1,
            ));
        }
        let rest_n = rest.unicode_len();
        let slash_at = find_ci_str(rest, "/");
        proof {
            lemma_find_ci_from_props(rest@, slash_pat(), 0);
        }
        let port_str = match slash_at {
            Some(k) => rest.substring_char(0, k),
            None => rest,
        };
        proof {
            if slash_at is Some {
                let k = slash_at->0 as int;
                assert(rest@.subrange(0, k) =~= rest@.take(k));
            }
        }
        match parse_decimal(port_str) {
            Some(v) if v <= 65535 => {
                let port = v as u16;
                let (lh, lp) = split_first_slash(left);
                let path = match slash_at {
                    Some(k) => {
                        proof {
                            assert(rest@.subrange(k + 1 as int, rest_n as int) =~= rest@.skip(
                                k + 1,
                            ));
                        }
                        rest.substring_char(k + 1, rest_n).to_owned()
                    },
                    None => lp,
                };
                Ok(Target { host: lh, path, scheme: Scheme::CustomPort(port) })
            },
            _ => Err(ClientError::InvalidUrl),
        }
    } else {
        proof {
            lemma_find_ci_lower(ts, https_pat(), 0);
            lemma_find_ci_lower(ts, http_pat(), 0);
            lemma_find_ci_lower(ts, colon_pat(), 0);
        }
        let (host, path) = split_first_slash(t);
        Ok(Target { host, path, scheme: Scheme::Plain })
    }
}

/// The `{host}:{port}` string handed to address resolution, with the port
/// taken from the scheme: 80 plain, 443 encrypted, or the explicit value.
pub open spec fn connection_string_model(m: TargetModel) -> Seq<char> {
    m.host + colon_pat() + dec_digits(m.scheme.port_spec() as nat)
}

impl Target {
    /// The `{host}:{port}` string handed to address resolution.
    pub fn connection_string(&self) -> (r: String)
        ensures
            r@ == connection_string_model(self@),
    {
        proof {
            reveal_strlit(":");
            assert(":"@ =~= colon_pat());
        }
        let mut s = self.host.clone();
        s.append(":");
        let port = self.scheme.port_number();
        let digits = u64_to_decimal(port as u64);
        s.append(digits.as_str());
        proof {
            assert(s@ =~= connection_string_model(self@));
        }
        s
    }
}

/// How a resolver reads a `{host}:{port}` string: host before the first
/// `:`, a decimal port after it; `None` when there is no colon or no valid
/// port number.
pub open spec fn split_host_port_model(s: Seq<char>) -> Option<(Seq<char>, u16)> {
    let j = find_ci(s, colon_pat());
    if j >= 0 {
        let port_str = s.skip(j + 1);
        if port_str.len() > 0 && all_digits(port_str) && dec_val(port_str) <= 65535 {
            Some((s.take(j), dec_val(port_str) as u16))
        } else {
            None
        }
    } else {
        None
    }
}

/// Split a connection string back into host and port the way a resolver
/// reads it.
pub fn split_host_port(s: &str) -> (r: Option<(String, u16)>)
    ensures
        split_host_port_model(s@) matches Some(hp) ==> (r matches Some(x) && x.0@ == hp.0 && x.1
            == hp.1),
        split_host_port_model(s@) is None ==> r is None,
{
    proof {
        reveal_strlit(":");
        assert(":"@ =~= colon_pat());
    }
    let n = s.unicode_len();
    match find_ci_str(s, ":") {
        Some(j) => {
            proof {
                lemma_find_ci_from_props(s@, colon_pat(), 0);
            }
            let host = s.substring_char(0, j);
            let port_str = s.substring_char(j + 1, n);
            proof {
                assert(s@.subrange(0, j as int) =~= s@.take(j as int));
                assert(s@.subrange(j + 1 as int, n as int) =~= s@.skip(j + 1));
            }
            match parse_decimal(port_str) {
                Some(v) if v <= 65535 => Some((host.to_owned(), v as u16)),
                _ => None,
            }
        },
        None => None,
    }
}

/// A character that case-folds to the colon code is the colon itself.
proof fn lemma_colon_code(c: char)
    requires
        lower_code(c) == 58,
    ensures
        c == ':',
{
    vstd::utf8::char_u32_cast(c, c as u32);
    vstd::utf8::char_u32_cast(':', ':' as u32);
}

/// Scheme detection for inputs whose trimmed form begins with `https://` in
/// any case: parsing succeeds, the scheme is `Encrypted`, and host and path
/// come only from what follows the marker, so the host excludes the scheme
/// prefix.
pub proof fn lemma_scheme_detection_https(raw: Seq<char>)
    requires
        matches_ci_at(trim_seq(raw), seq!['h', 't', 't', 'p', 's', ':', '/', '/'], 0),
    ensures
        parse_model(raw) matches Some(m) && m.scheme == Scheme::Encrypted && m.host == slash_host(
            trim_seq(trim_seq(raw).skip(8)),
        ) && m.path == slash_path(trim_seq(trim_seq(raw).skip(8))),
{
    let t = trim_seq(raw);
    assert(matches_ci_at(t, https_pat(), 0));
    assert(find_ci_from(t, https_pat(), 0) == 0);
}

/// Scheme detection for inputs whose trimmed form begins with `http://` in
/// any case and that contain no `https` marker anywhere: parsing succeeds,
/// the scheme is `Plain`, and the host excludes the scheme prefix.  (An
/// input such as `http://xhttpsy` holds `https` later in the line and is
/// classified as `Encrypted` by the containment rule, so it is left out
/// here.)
pub proof fn lemma_scheme_detection_http(raw: Seq<char>)
    requires
        matches_ci_at(trim_seq(raw), seq!['h', 't', 't', 'p', ':', '/', '/'], 0),
        !contains_ci(trim_seq(raw), https_pat()),
    ensures
        parse_model(raw) matches Some(m) && m.scheme == Scheme::Plain && m.host == slash_host(
            trim_seq(trim_seq(raw).skip(7)),
        ) && m.path == slash_path(trim_seq(trim_seq(raw).skip(7))),
{
    let t = trim_seq(raw);
    assert(matches_ci_at(t, http_pat(), 0));
    assert(find_ci_from(t, http_pat(), 0) == 0);
}

/// Round trip from a target to its connection string and back: a reader
/// that splits at the first `:` recovers exactly the host and the effective
/// port, for any nonempty host containing no `:`.
pub proof fn lemma_connection_string_round_trip(m: TargetModel)
    requires
        m.host.len() > 0,
        forall|i: int| 0 <= i < m.host.len() ==> m.host[i] != ':',
    ensures
        split_host_port_model(connection_string_model(m)) == Some((m.host, m.scheme.port_spec())),
{
    let s = connection_string_model(m);
    let hl = m.host.len() as int;
    let port = m.scheme.port_spec();
    lemma_dec_digits_val(port as nat);
    let digits = dec_digits(port as nat);
    assert(s[hl] == ':');
    assert(matches_ci_at(s, colon_pat(), hl));
    assert forall|i: int| 0 <= i < hl implies !matches_ci_at(s, colon_pat(), i) by {
        if matches_ci_at(s, colon_pat(), i) {
            assert(lower_code(s[i]) == lower_code(':'));
            lemma_colon_code(s[i]);
        }
    }
    lemma_find_ci_from_props(s, colon_pat(), 0);
    let j = find_ci(s, colon_pat());
    if j == -1 {
        assert(!matches_ci_at(s, colon_pat(), hl));
        assert(false);
    }
    if j < hl {
        assert(false);
    }
    if j > hl {
        assert(!matches_ci_at(s, colon_pat(), hl));
        assert(false);
    }
    assert(j == hl);
    let port_str = s.skip(hl + 1);
    assert(port_str =~= digits);
    assert(s.take(hl) =~= m.host);
    assert(dec_val(port_str) == port as nat);
}

} // verus!
