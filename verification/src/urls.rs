//! The connection-URL grammar: a URL names a protocol and an address,
//! and may carry a namespace and a database as trailing path segments
//! (`"<proto>://<addr>/<namespace>/<database>"`). A URL that names a
//! file-backed store is passed through whole. This module takes such a
//! URL apart into the pieces a connection is opened with.
use vstd::prelude::*;

use crate::split::{after_sep, before_sep, has_unique_sep, split_two};

verus! {

/// `pat` occurs in `s` starting at position `i`.
pub open spec fn contains_at(s: Seq<char>, pat: Seq<char>, i: int) -> bool {
    &&& 0 <= i
    &&& i + pat.len() <= s.len()
    &&& s.subrange(i, i + pat.len()) == pat
}

/// `pat` occurs somewhere in `s`.
pub open spec fn contains_seq(s: Seq<char>, pat: Seq<char>) -> bool {
    exists|i: int| contains_at(s, pat, i)
}

/// Position `i` of `s` holds a path slash.
pub open spec fn slash_at(s: Seq<char>, i: int) -> bool {
    0 <= i < s.len() && s[i] == '/'
}

/// No character of `s` is a path slash.
pub open spec fn no_slash(s: Seq<char>) -> bool {
    forall|i: int| 0 <= i < s.len() ==> s[i] != '/'
}

/// The position of the first path slash of `s`.
pub open spec fn first_slash(s: Seq<char>) -> int {
    choose|i: int| slash_at(s, i) && no_slash(s.subrange(0, i))
}

/// A slash with a slash-free prefix is the first slash.
proof fn lemma_first_slash(s: Seq<char>, i: int)
    requires
        slash_at(s, i),
        no_slash(s.subrange(0, i)),
    ensures
        first_slash(s) == i,
{
    let j = first_slash(s);
    assert(slash_at(s, j) && no_slash(s.subrange(0, j)));
    if j < i {
        assert(s.subrange(0, i)[j] == '/');
    }
    if i < j {
        assert(s.subrange(0, j)[i] == '/');
    }
}

/// The view of an optional owned string.
pub open spec fn opt_str_view(o: Option<String>) -> Option<Seq<char>> {
    match o {
        Some(s) => Some(s@),
        None => None,
    }
}

/// What taking a connection URL apart yields: the address to open (with
/// its protocol), and the namespace and database segments if the URL
/// carries them. A URL naming a file-backed store passes through whole;
/// one without a single protocol separator, or with too many trailing
/// segments, is rejected.
pub open spec fn spec_extract(u: Seq<char>) -> Result<
    (Seq<char>, Option<Seq<char>>, Option<Seq<char>>),
    Seq<char>,
> {
    if contains_seq(u, "rocksdb"@) {
        Ok((u, None, None))
    } else if !has_unique_sep(u) {
        Err("invalid url"@)
    } else {
        let proto = before_sep(u);
        let sep = seq![':', '/', '/'];
        let addr = after_sep(u);
        if no_slash(addr) {
            Ok((proto + sep + addr, None, None))
        } else {
            let p1 = first_slash(addr);
            let rest = addr.subrange(p1 + 1, addr.len() as int);
            if no_slash(rest) {
                Ok((proto + sep + addr.subrange(0, p1), Some(rest), None))
            } else {
                let p2 = p1 + 1 + first_slash(rest);
                let rest2 = addr.subrange(p2 + 1, addr.len() as int);
                if no_slash(rest2) {
                    Ok(
                        (
                            proto + sep + addr.subrange(0, p1),
                            Some(addr.subrange(p1 + 1, p2)),
                            Some(rest2),
                        ),
                    )
                } else {
                    Err("invalid address provided"@)
                }
            }
        }
    }
}

/// Whether `pat` occurs anywhere in `s`.
fn contains_str(s: &str, pat: &str) -> (r: bool)
    ensures
        r == contains_seq(s@, pat@),
{
    let n = s.unicode_len();
    let m = pat.unicode_len();
    if m > n {
        proof {
            assert(forall|i: int| !contains_at(s@, pat@, i));
        }
        return false;
    }
    if m == 0 {
        proof {
            assert(s@.subrange(0, 0) =~= pat@);
            assert(contains_at(s@, pat@, 0));
        }
        return true;
    }
    let mut i: usize = 0;
    while i <= n - m
        invariant
            1 <= m <= n,
            n == s@.len(),
            m == pat@.len(),
            i <= n - m + 1,
            forall|q: int| 0 <= q < i ==> !contains_at(s@, pat@, q),
        decreases n - m + 1 - i,
    {
        let mut j: usize = 0;
        let mut matched = true;
        while j < m
            invariant
                i + m <= n,
                n == s@.len(),
                m == pat@.len(),
                j <= m,
                matched ==> forall|q: int| 0 <= q < j ==> s@[i + q] == pat@[q],
                !matched ==> !contains_at(s@, pat@, i as int),
            decreases m - j,
        {
            if matched && s.get_char(i + j) != pat.get_char(j) {
                proof {
                    if contains_at(s@, pat@, i as int) {
                        assert(s@.subrange(i as int, i + pat@.len())[j as int] == pat@[j as int]);
                    }
                }
                matched = false;
            }
            j = j + 1;
        }
        if matched {
            proof {
                assert(s@.subrange(i as int, i + pat@.len()) =~= pat@);
                assert(contains_at(s@, pat@, i as int));
            }
            return true;
        }
        i = i + 1;
    }
    proof {
        assert(forall|q: int| q >= i ==> !contains_at(s@, pat@, q));
    }
    false
}

/// Finds the first occurrence of `c` in `s` at or after `from`.
fn find_char_from(s: &str, from: usize, c: char) -> (r: Option<usize>)
    requires
        from <= s@.len(),
    ensures
        match r {
            Some(i) => from <= i < s@.len() && s@[i as int] == c && forall|j: int|
                from <= j < i ==> s@[j] != c,
            None => forall|j: int| from <= j < s@.len() ==> s@[j] != c,
        },
{
    let n = s.unicode_len();
    let mut i: usize = from;
    while i < n
        invariant
            from <= i <= n,
            n == s@.len(),
            forall|j: int| from <= j < i ==> s@[j] != c,
        decreases n - i,
    {
        if s.get_char(i) == c {
            return Some(i);
        }
        i = i + 1;
    }
    None
}

/// Takes a connection URL apart into the address to open and the
/// optional namespace and database segments, per [`spec_extract`].
pub fn extract_connection_components(url: String) -> (r: Result<
    (String, Option<String>, Option<String>),
    String,
>)
    ensures
        match r {
            Ok(parts) => spec_extract(url@) == Ok::<_, Seq<char>>(
                (parts.0@, opt_str_view(parts.1), opt_str_view(parts.2)),
            ),
            Err(e) => spec_extract(url@) == Err::<
                (Seq<char>, Option<Seq<char>>, Option<Seq<char>>),
                _,
            >(e@),
        },
{
    if contains_str(url.as_str(), "rocksdb") {
        return Ok((url, None, None));
    }
    let (proto, addr) = match split_two(url.as_str()) {
        Some(parts) => parts,
        None => {
            return Err(String::from_str("invalid url"));
        },
    };
    proof {
        reveal_strlit("://");
        assert("://"@ =~= seq![':', '/', '/']);
    }
    let n = addr.unicode_len();
    let p1 = match find_char_from(addr, 0, '/') {
        None => {
            let mut out = String::from_str(proto);
            out.append("://");
            out.append(addr);
            return Ok((out, None, None));
        },
        Some(p1) => p1,
    };
    proof {
        lemma_first_slash(addr@, p1 as int);
    }
    let mut out = String::from_str(proto);
    out.append("://");
    out.append(addr.substring_char(0, p1));
    let ghost rest = addr@.subrange(p1 + 1, addr@.len() as int);
    let p2 = match find_char_from(addr, p1 + 1, '/') {
        None => {
            proof {
                assert(no_slash(rest));
            }
            let namespace = addr.substring_char(p1 + 1, n).to_owned();
            return Ok((out, Some(namespace), None));
        },
        Some(p2) => p2,
    };
    proof {
        assert(rest[p2 - p1 - 1] == '/');
        assert(no_slash(rest.subrange(0, p2 - p1 - 1))) by {
            assert(forall|j: int|
                0 <= j < p2 - p1 - 1 ==> rest[j] == addr@[#[trigger] (j + p1 + 1)]);
        }
        lemma_first_slash(rest, p2 - p1 - 1);
    }
    let ghost rest2 = addr@.subrange(p2 + 1, addr@.len() as int);
    match find_char_from(addr, p2 + 1, '/') {
        None => {
            proof {
                assert(no_slash(rest2));
            }
            let namespace = addr.substring_char(p1 + 1, p2).to_owned();
            let database = addr.substring_char(p2 + 1, n).to_owned();
            Ok((out, Some(namespace), Some(database)))
        },
        Some(p3) => {
            proof {
                assert(rest2[p3 - p2 - 1] == '/');
            }
            Err(String::from_str("invalid address provided"))
        },
    }
}

/// The decision inside opening a connection: the in-memory store is
/// opened under its own name, with no namespace or database to select;
/// any other URL is taken apart into address, namespace and database
/// first. What comes back is what the caller opens and then selects.
pub fn connection_plan(url: String) -> (r: Result<
    (String, Option<String>, Option<String>),
    String,
>)
    ensures
        url@ == "memory"@ ==> (r matches Ok(parts) && parts.0@ == url@ && parts.1 is None
            && parts.2 is None),
        url@ != "memory"@ ==> match r {
            Ok(parts) => spec_extract(url@) == Ok::<_, Seq<char>>(
                (parts.0@, opt_str_view(parts.1), opt_str_view(parts.2)),
            ),
            Err(e) => spec_extract(url@) == Err::<
                (Seq<char>, Option<Seq<char>>, Option<Seq<char>>),
                _,
            >(e@),
        },
{
    if crate::text::str_eq(url.as_str(), "memory") {
        return Ok((url, None, None));
    }
    extract_connection_components(url)
}

/// The uppercase form of one ASCII letter; other characters stand.
pub open spec fn to_upper_char(c: char) -> char {
    if c == 'a' {
        'A'
    } else if c == 'b' {
        'B'
    } else if c == 'c' {
        'C'
    } else if c == 'd' {
        'D'
    } else if c == 'e' {
        'E'
    } else if c == 'f' {
        'F'
    } else if c == 'g' {
        'G'
    } else if c == 'h' {
        'H'
    } else if c == 'i' {
        'I'
    } else if c == 'j' {
        'J'
    } else if c == 'k' {
        'K'
    } else if c == 'l' {
        'L'
    } else if c == 'm' {
        'M'
    } else if c == 'n' {
        'N'
    } else if c == 'o' {
        'O'
    } else if c == 'p' {
        'P'
    } else if c == 'q' {
        'Q'
    } else if c == 'r' {
        'R'
    } else if c == 's' {
        'S'
    } else if c == 't' {
        'T'
    } else if c == 'u' {
        'U'
    } else if c == 'v' {
        'V'
    } else if c == 'w' {
        'W'
    } else if c == 'x' {
        'X'
    } else if c == 'y' {
        'Y'
    } else if c == 'z' {
        'Z'
    } else {
        c
    }
}

/// `s` uppercased letter by letter.
pub open spec fn upper_ascii(s: Seq<char>) -> Seq<char> {
    s.map_values(|c: char| to_upper_char(c))
}

/// The transport a connection string selects.
#[derive(Debug, PartialEq, Eq, Structural)]
pub enum ConnectProtocol {
    WS,
    HTTP,
}

impl ConnectProtocol {
    /// Reads a protocol name, taking letter case as irrelevant: `"ws"`
    /// selects the websocket transport and `"http"` the HTTP one; any
    /// other name is rejected.
    pub fn from_string(protocol_type: String) -> (r: Result<Self, String>)
        ensures
            r is Ok <==> upper_ascii(protocol_type@) == "WS"@ || upper_ascii(protocol_type@)
                == "HTTP"@,
            upper_ascii(protocol_type@) == "WS"@ ==> r == Ok::<_, String>(ConnectProtocol::WS),
            upper_ascii(protocol_type@) == "HTTP"@ ==> r == Ok::<_, String>(ConnectProtocol::HTTP),
            r is Err ==> r->Err_0@ == "Invalid protocol: "@ + protocol_type@,
    {
        proof {
            reveal_strlit("WS");
            reveal_strlit("HTTP");
        }
        let n = protocol_type.as_str().unicode_len();
        if n == 2 {
            let c0 = protocol_type.as_str().get_char(0);
            let c1 = protocol_type.as_str().get_char(1);
            if (c0 == 'w' || c0 == 'W') && (c1 == 's' || c1 == 'S') {
                proof {
                    assert(upper_ascii(protocol_type@) =~= "WS"@);
                }
                return Ok(ConnectProtocol::WS);
            }
        }
        if n == 4 {
            let c0 = protocol_type.as_str().get_char(0);
            let c1 = protocol_type.as_str().get_char(1);
            let c2 = protocol_type.as_str().get_char(2);
            let c3 = protocol_type.as_str().get_char(3);
            if (c0 == 'h' || c0 == 'H') && (c1 == 't' || c1 == 'T') && (c2 == 't' || c2 == 'T') && (
            c3 == 'p' || c3 == 'P') {
                proof {
                    assert(upper_ascii(protocol_type@) =~= "HTTP"@);
                }
                return Ok(ConnectProtocol::HTTP);
            }
        }
        proof {
            let s = protocol_type@;
            if upper_ascii(s) == "WS"@ {
                assert(upper_ascii(s).len() == s.len());
                assert(s.len() == 2);
                assert(upper_ascii(s)[0] == to_upper_char(s[0]));
                assert(upper_ascii(s)[1] == to_upper_char(s[1]));
                assert(to_upper_char(s[0]) == 'W');
                assert(to_upper_char(s[1]) == 'S');
                assert(false);
            }
            if upper_ascii(s) == "HTTP"@ {
                assert(upper_ascii(s).len() == s.len());
                assert(s.len() == 4);
                assert(upper_ascii(s)[0] == to_upper_char(s[0]));
                assert(upper_ascii(s)[1] == to_upper_char(s[1]));
                assert(upper_ascii(s)[2] == to_upper_char(s[2]));
                assert(upper_ascii(s)[3] == to_upper_char(s[3]));
                assert(to_upper_char(s[0]) == 'H');
                assert(to_upper_char(s[1]) == 'T');
                assert(to_upper_char(s[2]) == 'T');
                assert(to_upper_char(s[3]) == 'P');
                assert(false);
            }
        }
        let mut msg = String::from_str("Invalid protocol: ");
        msg.append(protocol_type.as_str());
        Err(msg)
    }
}

} // verus!
