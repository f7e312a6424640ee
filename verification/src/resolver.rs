//! Path resolution: turning a repository URL (or an explicit override) plus a
//! hosting base directory into the project's local path.
//!
//! Two URL dialects are understood. A string that contains `@` and `:` and
//! does not start with `http` is read as SSH/SCP syntax
//! (`user@host:path/to/repo`): everything after the first `:` is the path.
//! Anything else must carry a `scheme://` prefix followed by a well-formed
//! authority — optional userinfo up to the last `@`, then a nonempty host,
//! then an optional `:port` of digits no greater than 65535; a bracketed IP
//! literal is not part of this dialect — and the path is what follows the
//! first `/` after the authority. In both dialects the path is split on `/`
//! with empty pieces discarded; a single trailing `.git` is then stripped
//! from each segment and segments left empty are dropped.

use vstd::prelude::*;

use crate::error::{PmError, ProjectError};
use crate::model::Config;
use crate::registry::{first_hosting_index, has_hosting, lemma_first_hosting_index};
use crate::strutil::{
    contains_char, ends_with, first_index_of, first_sep_index, index_after_last, join_path,
    joined_path, last_index_of, lemma_first_index_of, lemma_first_index_of_unique,
    lemma_last_index_of_unique, lemma_split_chunk, lemma_split_single, split_nonempty,
    split_str_nonempty, starts_with, views_of,
};

verus! {

/// A segment with one trailing `.git` suffix removed; other segments are
/// kept as they are.
pub open spec fn strip_git(seg: Seq<char>) -> Seq<char> {
    if ".git"@.is_suffix_of(seg) {
        seg.take(seg.len() - 4)
    } else {
        seg
    }
}

/// Each segment stripped of one trailing `.git`, segments left empty
/// dropped.
pub open spec fn clean_segments(segs: Seq<Seq<char>>) -> Seq<Seq<char>>
    decreases segs.len(),
{
    if segs.len() == 0 {
        seq![]
    } else {
        let rest = clean_segments(segs.drop_last());
        let s = strip_git(segs.last());
        if s.len() > 0 {
            rest.push(s)
        } else {
            rest
        }
    }
}

/// The SSH/SCP dialect test: an `@`, a `:`, and no `http` prefix.
pub open spec fn is_scp_like(url: Seq<char>) -> bool {
    url.contains('@') && url.contains(':') && !"http"@.is_prefix_of(url)
}

/// Every character is an ASCII digit.
pub open spec fn all_digits(s: Seq<char>) -> bool {
    forall|i: int| 0 <= i < s.len() ==> '0' <= #[trigger] s[i] && s[i] <= '9'
}

/// The number the digits spell, read left to right onto an accumulator.
pub open spec fn digits_value_from(s: Seq<char>, acc: int) -> int
    decreases s.len(),
{
    if s.len() == 0 {
        acc
    } else {
        digits_value_from(s.skip(1), 10 * acc + (s[0] as int - 48))
    }
}

/// A port part is digits spelling at most 65535; an empty port is allowed.
pub open spec fn valid_port(p: Seq<char>) -> bool {
    all_digits(p) && digits_value_from(p, 0) <= 65535
}

/// The host-and-port part of an authority: what follows the last `@`, the
/// userinfo before it being arbitrary.
pub open spec fn host_port_of(auth: Seq<char>) -> Seq<char> {
    auth.skip(last_index_of(auth, '@') + 1)
}

/// The authority is well formed: after any userinfo, a nonempty host, and a
/// valid port when a `:` introduces one.
pub open spec fn valid_authority(auth: Seq<char>) -> bool {
    let hp = host_port_of(auth);
    let k = first_index_of(hp, ':') as int;
    k >= 1 && (k < hp.len() ==> valid_port(hp.skip(k + 1)))
}

/// The authority of a standard URL: between `scheme://` and the first `/`
/// after it, or the string's end.
pub open spec fn authority_of(url: Seq<char>) -> Seq<char> {
    let rest = url.skip(first_index_of(url, ':') as int + 3);
    rest.take(first_index_of(rest, '/') as int)
}

/// The standard-URL dialect test: a nonempty scheme before the first `:`,
/// then `//`, then a well-formed authority.
pub open spec fn has_url_scheme(url: Seq<char>) -> bool {
    let c = first_index_of(url, ':') as int;
    1 <= c && c + 3 <= url.len() && url[c + 1] == '/' && url[c + 2] == '/' && valid_authority(
        authority_of(url),
    )
}

/// The raw path segments the URL yields under the dialect that applies:
/// everything after the first `:` for SCP syntax, everything after the
/// authority for standard URLs, split on `/` with empty pieces discarded.
pub open spec fn url_segments(url: Seq<char>) -> Seq<Seq<char>> {
    if is_scp_like(url) {
        split_nonempty(url.skip(first_index_of(url, ':') as int + 1), '/')
    } else {
        let rest = url.skip(first_index_of(url, ':') as int + 3);
        split_nonempty(rest.skip(first_index_of(rest, '/') as int), '/')
    }
}

/// The URL parses under one of the two dialects.
pub open spec fn url_parses(url: Seq<char>) -> bool {
    is_scp_like(url) || has_url_scheme(url)
}

/// The path computed for a parsed URL against a hosting base directory.
pub open spec fn resolved_path(base: Seq<char>, url: Seq<char>) -> Seq<char> {
    joined_path(base, clean_segments(url_segments(url)))
}

/// The canonical HTTPS repository URL over a host and two path segments.
pub open spec fn https_url(host: Seq<char>, a: Seq<char>, b: Seq<char>) -> Seq<char> {
    "https://"@ + host + seq!['/'] + a + seq!['/'] + b + ".git"@
}

/// The canonical SCP-style repository URL over a user, a host and two path
/// segments.
pub open spec fn scp_url(user: Seq<char>, host: Seq<char>, a: Seq<char>, b: Seq<char>) -> Seq<
    char,
> {
    user + seq!['@'] + host + seq![':'] + a + seq!['/'] + b + ".git"@
}

/// A segment equal to exactly `.git` is dropped; a segment ending in `.git`
/// has only that suffix stripped and is kept when anything remains.
pub proof fn lemma_git_suffix_stripping(seg: Seq<char>)
    ensures
        ".git"@.is_suffix_of(seg) ==> strip_git(seg) == seg.take(seg.len() - 4),
        seg == ".git"@ ==> clean_segments(seq![seg]) == Seq::<Seq<char>>::empty(),
        !".git"@.is_suffix_of(seg) ==> strip_git(seg) == seg,
{
    reveal_strlit(".git");
    if seg == ".git"@ {
        assert(".git"@.is_suffix_of(seg)) by {
            assert(seg.subrange(seg.len() - 4, seg.len() as int) =~= ".git"@);
        }
        assert(strip_git(seg) =~= Seq::<char>::empty());
        assert(seq![seg].drop_last() =~= Seq::<Seq<char>>::empty());
        assert(seq![seg].last() == seg);
        assert(clean_segments(Seq::<Seq<char>>::empty()) == Seq::<Seq<char>>::empty());
        assert(clean_segments(seq![seg]) == Seq::<Seq<char>>::empty());
    }
}

/// Cleaning the two raw segments `a` and `b.git` keeps `a` and strips `b`.
proof fn lemma_clean_two(a: Seq<char>, b: Seq<char>)
    requires
        a.len() > 0,
        !".git"@.is_suffix_of(a),
        b.len() > 0,
    ensures
        clean_segments(seq![a, b + ".git"@]) == seq![a, b],
{
    reveal_strlit(".git");
    let d = b + ".git"@;
    assert(".git"@.is_suffix_of(d)) by {
        assert(d.subrange(d.len() - 4, d.len() as int) =~= ".git"@);
    }
    assert(strip_git(d) =~= b);
    let two = seq![a, d];
    assert(two.drop_last() =~= seq![a]);
    assert(two.last() == d);
    assert(seq![a].drop_last() =~= Seq::<Seq<char>>::empty());
    assert(seq![a].last() == a);
    assert(strip_git(a) == a);
    assert(clean_segments(Seq::<Seq<char>>::empty()) == Seq::<Seq<char>>::empty());
    assert(clean_segments(seq![a]) =~= seq![a]);
    assert(clean_segments(two) =~= seq![a, b]);
}

/// Joining two segments appends each after one slash.
proof fn lemma_joined_two(base: Seq<char>, a: Seq<char>, b: Seq<char>)
    ensures
        joined_path(base, seq![a, b]) == base + seq!['/'] + a + seq!['/'] + b,
{
    let two = seq![a, b];
    assert(two.skip(1) =~= seq![b]);
    assert(seq![b].skip(1) =~= Seq::<Seq<char>>::empty());
    assert(joined_path(base, two) == joined_path(base + seq!['/'] + a, seq![b]));
    assert(joined_path(base + seq!['/'] + a, seq![b]) == joined_path(
        base + seq!['/'] + a + seq!['/'] + b,
        Seq::<Seq<char>>::empty(),
    ));
}

/// For every URL of the form `https://host/a/b.git` — host a plain nonempty
/// name, both segments nonempty and slash-free, `a` not itself
/// `.git`-suffixed — the resolver parses the URL into the raw segments `a`
/// and `b.git`, and the computed path is the base joined with `a` and `b` in
/// order.
pub proof fn lemma_https_url_resolves(
    base: Seq<char>,
    host: Seq<char>,
    a: Seq<char>,
    b: Seq<char>,
)
    requires
        host.len() > 0,
        !host.contains('/'),
        !host.contains('@'),
        !host.contains(':'),
        a.len() > 0,
        !a.contains('/'),
        !".git"@.is_suffix_of(a),
        b.len() > 0,
        !b.contains('/'),
    ensures
        url_parses(https_url(host, a, b)),
        url_segments(https_url(host, a, b)) == seq![a, b + ".git"@],
        resolved_path(base, https_url(host, a, b)) == base + seq!['/'] + a + seq!['/'] + b,
{
    reveal_strlit("https://");
    reveal_strlit("http");
    reveal_strlit(".git");
    let url = https_url(host, a, b);
    let d = b + ".git"@;
    assert forall|j: int| 0 <= j < 8 implies url[j] == "https://"@[j] by {}
    assert(url[5] == ':');
    assert forall|j: int| 0 <= j < 5 implies url[j] != ':' by {}
    lemma_first_index_of_unique(url, ':', 5);
    assert(url[6] == '/' && url[7] == '/');
    assert(url.len() >= 8);
    assert(!is_scp_like(url)) by {
        assert("http"@.is_prefix_of(url)) by {
            assert(url.subrange(0, 4) =~= "http"@);
        }
    }
    let rest = url.skip(8);
    assert(rest =~= host + seq!['/'] + a + seq!['/'] + d);
    assert forall|j: int| 0 <= j < host.len() implies rest[j] != '/' by {
        assert(rest[j] == host[j]);
        if host[j] == '/' {
            assert(host.contains('/'));
        }
    }
    assert(rest[host.len() as int] == '/');
    lemma_first_index_of_unique(rest, '/', host.len() as int);
    assert(valid_authority(authority_of(url))) by {
        assert(authority_of(url) =~= host);
        assert forall|j: int| -1 < j < host.len() implies host[j] != '@' by {
            if host[j] == '@' {
                assert(host.contains('@'));
            }
        }
        lemma_last_index_of_unique(host, '@', -1);
        assert(host_port_of(host) =~= host);
        assert forall|j: int| 0 <= j < host.len() implies host[j] != ':' by {
            if host[j] == ':' {
                assert(host.contains(':'));
            }
        }
        lemma_first_index_of_unique(host, ':', host.len() as int);
    }
    assert(has_url_scheme(url));
    let path = rest.skip(host.len() as int);
    assert(path =~= seq!['/'] + (a + seq!['/'] + d));
    assert(path[0] == '/');
    assert(path.skip(1) =~= a + seq!['/'] + d);
    assert(!d.contains('/')) by {
        if d.contains('/') {
            let j = choose|j: int| 0 <= j < d.len() && d[j] == '/';
            if j < b.len() {
                assert(b.contains('/'));
            } else {
                assert(d[j] == ".git"@[j - b.len()]);
            }
        }
    }
    lemma_split_chunk(a, d, '/');
    lemma_split_single(d, '/');
    assert(split_nonempty(path, '/') == split_nonempty(path.skip(1), '/'));
    assert(url_segments(url) == split_nonempty(path, '/')) by {
        assert(url.skip(first_index_of(url, ':') as int + 3) == rest);
        assert(first_index_of(rest, '/') == host.len());
    }
    assert(url_segments(url) =~= seq![a, d]);
    lemma_clean_two(a, b);
    lemma_joined_two(base, a, b);
}

/// For every SCP-style URL `user@host:a/b.git` — user and host free of
/// colons, no `http` prefix, both segments nonempty and slash-free, `a` not
/// itself `.git`-suffixed — the resolver parses the URL into the raw
/// segments `a` and `b.git`, and the computed path is the same one the
/// equivalent HTTPS-dialect URL yields: the base joined with `a` and `b`.
pub proof fn lemma_scp_url_resolves(
    base: Seq<char>,
    user: Seq<char>,
    host: Seq<char>,
    a: Seq<char>,
    b: Seq<char>,
)
    requires
        !user.contains(':'),
        host.len() > 0,
        !host.contains(':'),
        !host.contains('/'),
        !host.contains('@'),
        !"http"@.is_prefix_of(scp_url(user, host, a, b)),
        a.len() > 0,
        !a.contains('/'),
        !".git"@.is_suffix_of(a),
        b.len() > 0,
        !b.contains('/'),
    ensures
        url_parses(scp_url(user, host, a, b)),
        url_segments(scp_url(user, host, a, b)) == seq![a, b + ".git"@],
        resolved_path(base, scp_url(user, host, a, b)) == base + seq!['/'] + a + seq!['/'] + b,
        resolved_path(base, scp_url(user, host, a, b)) == resolved_path(
            base,
            https_url(host, a, b),
        ),
{
    reveal_strlit(".git");
    let url = scp_url(user, host, a, b);
    let d = b + ".git"@;
    let c = user.len() + 1 + host.len();
    assert(url[user.len() as int] == '@');
    assert(url.contains('@'));
    assert(url[c as int] == ':');
    assert(url.contains(':'));
    assert(is_scp_like(url));
    assert forall|j: int| 0 <= j < c implies url[j] != ':' by {
        if j < user.len() {
            assert(url[j] == user[j]);
            if user[j] == ':' {
                assert(user.contains(':'));
            }
        } else if j > user.len() {
            assert(url[j] == host[j - user.len() - 1]);
            if host[j - user.len() - 1] == ':' {
                assert(host.contains(':'));
            }
        }
    }
    lemma_first_index_of_unique(url, ':', c as int);
    let path = url.skip(c as int + 1);
    assert(path =~= a + seq!['/'] + d);
    assert(!d.contains('/')) by {
        if d.contains('/') {
            let j = choose|j: int| 0 <= j < d.len() && d[j] == '/';
            if j < b.len() {
                assert(b.contains('/'));
            } else {
                assert(d[j] == ".git"@[j - b.len()]);
            }
        }
    }
    lemma_split_chunk(a, d, '/');
    lemma_split_single(d, '/');
    assert(url_segments(url) =~= seq![a, d]);
    lemma_clean_two(a, b);
    lemma_joined_two(base, a, b);
    lemma_https_url_resolves(base, host, a, b);
}

/// Parse a repository URL into its raw path segments under the dual-dialect
/// grammar; `InvalidUrl` exactly when neither dialect applies.
/// The value a digit run spells can only grow as digits are appended.
proof fn lemma_digits_value_from_ge_acc(s: Seq<char>, acc: int)
    requires
        all_digits(s),
        acc >= 0,
    ensures
        digits_value_from(s, acc) >= acc,
    decreases s.len(),
{
    if s.len() != 0 {
        assert('0' <= s[0] <= '9');
        assert forall|i: int| 0 <= i < s.skip(1).len() implies '0' <= #[trigger] s.skip(1)[i]
            && s.skip(1)[i] <= '9' by {
            assert(s.skip(1)[i] == s[i + 1]);
        }
        lemma_digits_value_from_ge_acc(s.skip(1), 10 * acc + (s[0] as int - 48));
    }
}

/// Is the string a valid port: digits alone, spelling at most 65535?
fn is_valid_port(p: &str) -> (r: bool)
    ensures
        r == valid_port(p@),
{
    let n = p.unicode_len();
    proof {
        assert(p@.skip(0) =~= p@);
    }
    let mut i: usize = 0;
    let mut val: u32 = 0;
    while i < n
        invariant
            i <= n,
            n == p@.len(),
            forall|j: int| 0 <= j < i ==> '0' <= #[trigger] p@[j] && p@[j] <= '9',
            val <= 65535 ==> digits_value_from(p@.skip(i as int), val as int)
                == digits_value_from(p@, 0),
            val > 65535 ==> val == 70000 && !valid_port(p@),
        decreases n - i,
    {
        let ch = p.get_char(i);
        if ch < '0' || ch > '9' {
            assert(!all_digits(p@));
            return false;
        }
        let d: u32 = (ch as u32) - 48;
        proof {
            assert(p@.skip(i as int)[0] == p@[i as int]);
            assert(p@.skip(i as int).skip(1) =~= p@.skip(i + 1));
        }
        if val <= 65535 {
            let next = val * 10 + d;
            assert(digits_value_from(p@.skip(i + 1), next as int) == digits_value_from(p@, 0));
            if next > 65535 {
                proof {
                    if all_digits(p@) {
                        assert forall|j: int|
                            0 <= j < p@.skip(i + 1).len() implies '0' <= #[trigger] p@.skip(
                            i + 1,
                        )[j] && p@.skip(i + 1)[j] <= '9' by {
                            assert(p@.skip(i + 1)[j] == p@[j + i + 1]);
                        }
                        lemma_digits_value_from_ge_acc(p@.skip(i + 1), next as int);
                    }
                }
                val = 70000;
            } else {
                val = next;
            }
        }
        i = i + 1;
    }
    proof {
        if val <= 65535 {
            assert(p@.skip(n as int) =~= Seq::<char>::empty());
            assert(all_digits(p@));
        }
    }
    val <= 65535
}

/// Does the authority consist of optional userinfo, a nonempty host, and an
/// optional valid port?
fn check_authority(auth: &str) -> (r: bool)
    ensures
        r == valid_authority(auth@),
{
    let alen = auth.unicode_len();
    let at = index_after_last(auth, '@');
    let hp = auth.substring_char(at, alen);
    assert(hp@ =~= host_port_of(auth@));
    let k = first_sep_index(hp, ':');
    proof {
        lemma_first_index_of(hp@, ':');
    }
    if k == 0 {
        false
    } else if k < hp.unicode_len() {
        let port = hp.substring_char(k + 1, alen - at);
        assert(port@ =~= host_port_of(auth@).skip(k + 1));
        is_valid_port(port)
    } else {
        true
    }
}

pub fn parse_git_url(url: &str) -> (r: Result<Vec<String>, PmError>)
    ensures
        (r is Ok) == url_parses(url@),
        r matches Ok(v) ==> views_of(v@) == url_segments(url@),
        r matches Err(e) ==> e matches PmError::Project(ProjectError::InvalidUrl(_)),
{
    let len = url.unicode_len();
    let scp = contains_char(url, '@') && contains_char(url, ':') && !starts_with(url, "http");
    let c = first_sep_index(url, ':');
    proof {
        lemma_first_index_of(url@, ':');
    }
    if scp {
        assert(c < len) by {
            if c == len {
                assert(forall|j: int| 0 <= j < url@.len() ==> url@[j] != ':');
            }
        }
        let path = url.substring_char(c + 1, len);
        assert(path@ =~= url@.skip(c + 1));
        Ok(split_str_nonempty(path, '/'))
    } else if c == 0 || len - c < 3 {
        Err(PmError::Project(ProjectError::InvalidUrl(String::from_str(url))))
    } else if url.get_char(c + 1) != '/' || url.get_char(c + 2) != '/' {
        Err(PmError::Project(ProjectError::InvalidUrl(String::from_str(url))))
    } else {
        let rest = url.substring_char(c + 3, len);
        assert(rest@ =~= url@.skip(c + 3));
        let k = first_sep_index(rest, '/');
        proof {
            lemma_first_index_of(rest@, '/');
        }
        let auth = rest.substring_char(0, k);
        assert(auth@ =~= authority_of(url@));
        if !check_authority(auth) {
            return Err(PmError::Project(ProjectError::InvalidUrl(String::from_str(url))));
        }
        let path = rest.substring_char(k, len - (c + 3));
        assert(path@ =~= rest@.skip(k as int));
        Ok(split_str_nonempty(path, '/'))
    }
}

/// Strip one trailing `.git` from a segment.
fn strip_git_exec(seg: &str) -> (r: String)
    ensures
        r@ == strip_git(seg@),
{
    if ends_with(seg, ".git") {
        proof {
            reveal_strlit(".git");
        }
        let n = seg.unicode_len();
        String::from_str(seg.substring_char(0, n - 4))
    } else {
        String::from_str(seg)
    }
}

/// Strip `.git` suffixes and drop segments left empty.
fn clean_segments_exec(segs: &Vec<String>) -> (r: Vec<String>)
    ensures
        views_of(r@) == clean_segments(views_of(segs@)),
{
    let n = segs.len();
    let mut r: Vec<String> = Vec::new();
    assert(views_of(r@) =~= clean_segments(views_of(segs@).take(0)));
    let mut i: usize = 0;
    while i < n
        invariant
            i <= n,
            n == segs@.len(),
            views_of(r@) == clean_segments(views_of(segs@).take(i as int)),
        decreases n - i,
    {
        let s = strip_git_exec(segs[i].as_str());
        proof {
            let t = views_of(segs@).take(i + 1);
            assert(t.drop_last() =~= views_of(segs@).take(i as int));
            assert(t.last() == segs@[i as int]@);
        }
        if s.unicode_len() > 0 {
            r.push(s);
            assert(views_of(r@) =~= clean_segments(views_of(segs@).take(i + 1)));
        } else {
            assert(views_of(r@) =~= clean_segments(views_of(segs@).take(i + 1)));
        }
        i = i + 1;
    }
    assert(views_of(segs@).take(n as int) =~= views_of(segs@));
    r
}

/// Compute a project's local path.
///
/// A custom path wins outright and is returned verbatim. Otherwise the named
/// hosting profile must exist, a repository URL must be given, and the URL
/// must parse to at least one raw segment; the result is the hosting's base
/// path joined with the cleaned segments, in order. No expansion and no
/// filesystem access take place.
pub fn compute_project_path(
    config: &Config,
    hosting: &str,
    repo_url: Option<&str>,
    custom_path: Option<&str>,
    _is_worktree: bool,
) -> (r: Result<String, PmError>)
    ensures
        custom_path matches Some(p) ==> {
            &&& r matches Ok(s) && s@ == p@
        },
        custom_path is None && !has_hosting(config.hostings@, hosting@) ==> {
            &&& r matches Err(PmError::Project(ProjectError::HostingNotFound(n))) && n@ == hosting@
        },
        custom_path is None && has_hosting(config.hostings@, hosting@) && repo_url is None ==> {
            &&& r matches Err(PmError::Project(ProjectError::PathComputation(_)))
        },
        custom_path is None && has_hosting(config.hostings@, hosting@) ==> {
            &&& repo_url matches Some(u) ==> {
                &&& !url_parses(u@) ==> {
                    &&& r matches Err(PmError::Project(ProjectError::InvalidUrl(_)))
                }
                &&& url_parses(u@) && url_segments(u@).len() == 0 ==> {
                    &&& r matches Err(PmError::Project(ProjectError::InvalidUrl(_)))
                }
                &&& url_parses(u@) && url_segments(u@).len() > 0 ==> {
                    &&& r matches Ok(s) && s@ == resolved_path(
                        config.hostings@[first_hosting_index(
                            config.hostings@,
                            hosting@,
                        ) as int].1.base_path@,
                        u@,
                    )
                }
            }
        },
{
    if let Some(custom) = custom_path {
        return Ok(String::from_str(custom));
    }
    let hosting_config = match config.find_hosting(hosting) {
        Some(h) => h,
        None => {
            return Err(
                PmError::Project(ProjectError::HostingNotFound(String::from_str(hosting))),
            );
        },
    };
    let base_path = hosting_config.base_path.clone();
    if let Some(url) = repo_url {
        let path_segments = match parse_git_url(url) {
            Ok(v) => v,
            Err(e) => {
                return Err(e);
            },
        };
        if path_segments.is_empty() {
            return Err(
                PmError::Project(ProjectError::InvalidUrl(String::from_str("URL path is empty"))),
            );
        }
        let cleaned = clean_segments_exec(&path_segments);
        Ok(join_path(base_path.as_str(), &cleaned))
    } else {
        return Err(
            PmError::Project(
                ProjectError::PathComputation(
                    String::from_str("Cannot compute path without repository URL or custom path"),
                ),
            ),
        );
    }
}

} // verus!
