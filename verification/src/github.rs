//! GitHub repository references, the repository allow-list, branch names,
//! and the parts of GitHub API requests that do not touch the network.
use vstd::prelude::*;

use crate::error::{config_error, Error};
use crate::urls::{
    join_url, opt_view, parse_url, parts_view, push_url_segments, set_url_path, url_join,
    url_parse, url_with_path, url_with_segments, UrlParts, UrlPartsView,
};
use crate::text::{
    ascii_lower, chars_of, concat, occurs_at, concat3, contains, contains_chars, eq_ignore_ascii_case,
    eq_ignore_ascii_case_chars, eq_ignore_ascii_case_str, owned, split, split_chars, string_of,
    string_views, trim, trim_chars, views,
};

verus! {

/// The nonempty pieces of `xs`, in order.
pub open spec fn nonempty_pieces(xs: Seq<Seq<char>>) -> Seq<Seq<char>>
    decreases xs.len(),
{
    if xs.len() == 0 {
        Seq::<Seq<char>>::empty()
    } else {
        let r = nonempty_pieces(xs.drop_last());
        if xs.last().len() > 0 {
            r.push(xs.last())
        } else {
            r
        }
    }
}

/// The nonempty segments of a URL path, as `path_segments()` filtered of
/// empty segments gives them (none where the path does not start with `/`).
pub open spec fn path_segments_of(path: Seq<char>) -> Seq<Seq<char>> {
    if path.len() > 0 && path[0] == '/' {
        nonempty_pieces(split(path.drop_first(), '/'))
    } else {
        Seq::<Seq<char>>::empty()
    }
}

fn nonempty_only(xs: Vec<Vec<char>>) -> (r: Vec<Vec<char>>)
    ensures
        views(r@) == nonempty_pieces(views(xs@)),
{
    let n = xs.len();
    let mut r: Vec<Vec<char>> = Vec::new();
    assert(views(xs@).take(0) =~= Seq::<Seq<char>>::empty());
    assert(views(r@) =~= nonempty_pieces(views(xs@).take(0)));
    for i in 0..n
        invariant
            n == xs@.len(),
            views(r@) == nonempty_pieces(views(xs@).take(i as int)),
    {
        proof {
            assert(views(xs@).take(i + 1).drop_last() =~= views(xs@).take(i as int));
            assert(views(xs@).take(i + 1).last() == xs@[i as int]@);
        }
        if xs[i].len() > 0 {
            let ghost before = r@;
            let mut piece: Vec<char> = Vec::new();
            let m = xs[i].len();
            for k in 0..m
                invariant
                    m == xs@[i as int]@.len(),
                    i < n,
                    n == xs@.len(),
                    piece@ == xs@[i as int]@.take(k as int),
            {
                piece.push(xs[i][k]);
                proof {
                    assert(xs@[i as int]@.take(k + 1) =~= xs@[i as int]@.take(k as int).push(
                        xs@[i as int]@[k as int],
                    ));
                }
            }
            proof {
                assert(xs@[i as int]@.take(m as int) =~= xs@[i as int]@);
            }
            r.push(piece);
            proof {
                assert(views(r@) =~= views(before).push(xs@[i as int]@));
            }
        }
    }
    proof {
        assert(views(xs@).take(n as int) =~= views(xs@));
    }
    r
}

fn path_segments(path: &Vec<char>) -> (r: Vec<Vec<char>>)
    ensures
        views(r@) == path_segments_of(path@),
{
    if path.len() > 0 && path[0] == '/' {
        let mut rest: Vec<char> = Vec::new();
        let n = path.len();
        for i in 1..n
            invariant
                n == path@.len(),
                n > 0,
                rest@ == path@.subrange(1, i as int),
        {
            rest.push(path[i]);
            proof {
                assert(path@.subrange(1, i + 1) =~= path@.subrange(1, i as int).push(
                    path@[i as int],
                ));
            }
        }
        proof {
            assert(path@.subrange(1, n as int) =~= path@.drop_first());
        }
        let pieces = split_chars(&rest, '/');
        nonempty_only(pieces)
    } else {
        let r: Vec<Vec<char>> = Vec::new();
        assert(views(r@) =~= Seq::<Seq<char>>::empty());
        r
    }
}

// ---------------------------------------------------------------------------
// Repository references
// ---------------------------------------------------------------------------

/// A GitHub repository, by owner and name.
#[derive(Debug, Clone, PartialEq, Eq)]
pub struct Repository {
    pub owner: String,
    pub name: String,
}

/// A character allowed in a repository owner or name.
pub open spec fn component_char(c: char) -> bool {
    ('a' <= c && c <= 'z') || ('A' <= c && c <= 'Z') || ('0' <= c && c <= '9') || c == '-' || c
        == '_' || c == '.'
}

/// A valid repository owner or name: 1 to 100 characters from
/// `[A-Za-z0-9._-]`, and neither `.` nor `..`.
pub open spec fn valid_component_spec(s: Seq<char>) -> bool {
    &&& s.len() > 0
    &&& s != seq!['.']
    &&& s != seq!['.', '.']
    &&& s.len() <= 100
    &&& forall|i: int| 0 <= i < s.len() ==> component_char(#[trigger] s[i])
}

fn component_char_exec(c: char) -> (b: bool)
    ensures
        b == component_char(c),
{
    ('a' <= c && c <= 'z') || ('A' <= c && c <= 'Z') || ('0' <= c && c <= '9') || c == '-' || c
        == '_' || c == '.'
}

fn valid_component(s: &Vec<char>) -> (b: bool)
    ensures
        b == valid_component_spec(s@),
{
    let n = s.len();
    if n == 0 || n > 100 {
        return false;
    }
    if n == 1 && s[0] == '.' {
        assert(s@ =~= seq!['.']);
        return false;
    }
    if n == 2 && s[0] == '.' && s[1] == '.' {
        assert(s@ =~= seq!['.', '.']);
        return false;
    }
    assert(s@ != seq!['.']) by {
        if s@ == seq!['.'] {
            assert(s@[0] == '.');
        }
    }
    assert(s@ != seq!['.', '.']) by {
        if s@ == seq!['.', '.'] {
            assert(s@[0] == '.' && s@[1] == '.');
        }
    }
    for i in 0..n
        invariant
            n == s@.len(),
            forall|q: int| 0 <= q < i ==> component_char(#[trigger] s@[q]),
    {
        if !component_char_exec(s[i]) {
            return false;
        }
    }
    true
}

pub const REPOSITORY_FORMAT: &'static str = "repository must be https://github.com/{owner}/{repo}";

/// `name` without a trailing `.git`.
pub open spec fn strip_git(name: Seq<char>) -> Seq<char> {
    if name.len() >= 4 && name.subrange(name.len() - 4, name.len() as int) == seq![
        '.',
        'g',
        'i',
        't',
    ] {
        name.subrange(0, name.len() - 4)
    } else {
        name
    }
}

/// What a repository URL denotes: the owner and the name, or the message of
/// the error. The URL (trimmed) must be an `https` URL of host `github.com`
/// (in any case) with no user, password, query or fragment, a path that
/// does not end in `/`, and exactly two nonempty path segments, the second
/// of which may end in `.git`.
pub open spec fn repository_of(value: Seq<char>) -> Result<(Seq<char>, Seq<char>), Seq<char>> {
    repository_of_url(url_parse(trim(value)))
}

/// What a parsed repository URL denotes (see `repository_of`); `None` is a
/// URL that did not parse.
pub open spec fn repository_of_url(url: Option<UrlPartsView>) -> Result<
    (Seq<char>, Seq<char>),
    Seq<char>,
> {
    match url {
        None => Err(REPOSITORY_FORMAT@),
        Some((scheme, username, password, host, path, query, fragment, _)) => {
            if scheme != "https"@ || !(host matches Some(h) && eq_ignore_ascii_case(
                h,
                "github.com"@,
            )) || username.len() != 0 || password is Some || query is Some || fragment is Some {
                Err(REPOSITORY_FORMAT@)
            } else if path.len() > 0 && path.last() == '/' {
                Err(REPOSITORY_FORMAT@)
            } else {
                let segments = path_segments_of(path);
                if segments.len() != 2 {
                    Err(REPOSITORY_FORMAT@)
                } else if !valid_component_spec(segments[0]) || !valid_component_spec(
                    strip_git(segments[1]),
                ) {
                    Err("repository owner and name contain invalid characters"@)
                } else {
                    Ok((segments[0], strip_git(segments[1])))
                }
            }
        },
    }
}

fn strip_git_exec(name: &Vec<char>) -> (r: Vec<char>)
    ensures
        r@ == strip_git(name@),
{
    let n = name.len();
    if n >= 4 && name[n - 4] == '.' && name[n - 3] == 'g' && name[n - 2] == 'i' && name[n - 1]
        == 't' {
        let mut r: Vec<char> = Vec::new();
        for i in 0..n - 4
            invariant
                n == name@.len(),
                n >= 4,
                r@ == name@.take(i as int),
        {
            r.push(name[i]);
            proof {
                assert(name@.take(i + 1) =~= name@.take(i as int).push(name@[i as int]));
            }
        }
        assert(name@.subrange(n - 4, n as int) =~= seq!['.', 'g', 'i', 't']);
        assert(r@ =~= name@.subrange(0, n - 4));
        r
    } else {
        assert(!(name@.len() >= 4 && name@.subrange(name@.len() - 4, name@.len() as int)
            == seq!['.', 'g', 'i', 't'])) by {
            if name@.len() >= 4 && name@.subrange(name@.len() - 4, name@.len() as int) == seq![
                '.',
                'g',
                'i',
                't',
            ] {
                assert(name@.subrange(n - 4, n as int)[0] == name@[n - 4]);
                assert(name@.subrange(n - 4, n as int)[1] == name@[n - 3]);
                assert(name@.subrange(n - 4, n as int)[2] == name@[n - 2]);
                assert(name@.subrange(n - 4, n as int)[3] == name@[n - 1]);
            }
        }
        let mut r: Vec<char> = Vec::new();
        for i in 0..n
            invariant
                n == name@.len(),
                r@ == name@.take(i as int),
        {
            r.push(name[i]);
            proof {
                assert(name@.take(i + 1) =~= name@.take(i as int).push(name@[i as int]));
            }
        }
        assert(name@.take(n as int) =~= name@);
        r
    }
}

/// Reads a repository reference of the form
/// `https://github.com/{owner}/{repo}`.
pub fn parse_repository(value: &str) -> (r: Result<Repository, Error>)
    ensures
        match r {
            Ok(repo) => repository_of(value@) == Ok::<(Seq<char>, Seq<char>), Seq<char>>(
                (repo.owner@, repo.name@),
            ),
            Err(e) => e matches Error::Config(m) && repository_of(value@) == Err::<
                (Seq<char>, Seq<char>),
                Seq<char>,
            >(m@),
        },
{
    let trimmed = trim_chars(&chars_of(value));
    let trimmed = string_of(trimmed.as_slice());
    let url = parse_url(trimmed.as_str());
    repository_from_url(url)
}

pub open spec fn url_view(url: Option<UrlParts>) -> Option<UrlPartsView> {
    match url {
        Some(u) => Some(parts_view(u)),
        None => None,
    }
}

/// The repository that a parsed URL denotes; `None` is a URL that did not
/// parse.
pub fn repository_from_url(url: Option<UrlParts>) -> (r: Result<Repository, Error>)
    ensures
        match r {
            Ok(repo) => repository_of_url(url_view(url)) == Ok::<
                (Seq<char>, Seq<char>),
                Seq<char>,
            >((repo.owner@, repo.name@)),
            Err(e) => e matches Error::Config(m) && repository_of_url(url_view(url)) == Err::<
                (Seq<char>, Seq<char>),
                Seq<char>,
            >(m@),
        },
{
    let parts = match url {
        Some(p) => p,
        None => return Err(config_error(REPOSITORY_FORMAT)),
    };
    proof {
        reveal_strlit("github.com");
        reveal_strlit("https");
    }
    let host_ok = match &parts.host {
        Some(h) => eq_ignore_ascii_case_str(h.as_str(), "github.com"),
        None => false,
    };
    let scheme_ok = parts.scheme == owned("https");
    let password_none = parts.password.is_none();
    let query_none = parts.query.is_none();
    let fragment_none = parts.fragment.is_none();
    if !scheme_ok || !host_ok || !parts.username.as_str().is_empty() || !password_none || !query_none
        || !fragment_none {
        return Err(config_error(REPOSITORY_FORMAT));
    }
    let path = chars_of(parts.path.as_str());
    if path.len() > 0 && path[path.len() - 1] == '/' {
        return Err(config_error(REPOSITORY_FORMAT));
    }
    let segments = path_segments(&path);
    if segments.len() != 2 {
        return Err(config_error(REPOSITORY_FORMAT));
    }
    let owner = &segments[0];
    let name = strip_git_exec(&segments[1]);
    proof {
        assert(views(segments@)[0] == segments@[0]@);
        assert(views(segments@)[1] == segments@[1]@);
    }
    if !valid_component(owner) || !valid_component(&name) {
        return Err(config_error("repository owner and name contain invalid characters"));
    }
    Ok(Repository { owner: string_of(owner.as_slice()), name: string_of(name.as_slice()) })
}

/// The repositories that an allow-list names: `owner/repo` entries separated
/// by commas, each trimmed, empty entries skipped; or the message of the
/// error (an entry that is not exactly two valid components, or no entry).
pub open spec fn allowed_entries(value: Seq<char>) -> Seq<Seq<char>> {
    nonempty_pieces(split(value, ',').map_values(|p: Seq<char>| trim(p)))
}

pub open spec fn valid_entry(item: Seq<char>) -> bool {
    let parts = split(item, '/');
    parts.len() == 2 && valid_component_spec(parts[0]) && valid_component_spec(parts[1])
}

pub const ALLOWLIST_ENTRIES: &'static str = "LOOPTASK_GITHUB_ALLOWED_REPOSITORIES must contain exact owner/repo entries";

pub const ALLOWLIST_EMPTY: &'static str = "LOOPTASK_GITHUB_ALLOWED_REPOSITORIES must not be empty";

pub open spec fn allowlist_of(value: Seq<char>) -> Result<Seq<(Seq<char>, Seq<char>)>, Seq<char>> {
    let items = allowed_entries(value);
    if exists|i: int| 0 <= i < items.len() && !valid_entry(#[trigger] items[i]) {
        Err(ALLOWLIST_ENTRIES@)
    } else if items.len() == 0 {
        Err(ALLOWLIST_EMPTY@)
    } else {
        Ok(items.map_values(|it: Seq<char>| (split(it, '/')[0], split(it, '/')[1])))
    }
}

pub open spec fn repository_views(v: Seq<Repository>) -> Seq<(Seq<char>, Seq<char>)> {
    v.map_values(|r: Repository| (r.owner@, r.name@))
}

/// Reads the repository allow-list, a comma-separated list of exact
/// `owner/repo` entries.
pub fn parse_allowed_repositories(value: &str) -> (r: Result<Vec<Repository>, Error>)
    ensures
        match r {
            Ok(repos) => allowlist_of(value@) == Ok::<
                Seq<(Seq<char>, Seq<char>)>,
                Seq<char>,
            >(repository_views(repos@)),
            Err(e) => e matches Error::Config(m) && allowlist_of(value@) == Err::<
                Seq<(Seq<char>, Seq<char>)>,
                Seq<char>,
            >(m@),
        },
{
    let chars = chars_of(value);
    let pieces = split_chars(&chars, ',');
    let n = pieces.len();
    let mut trimmed: Vec<Vec<char>> = Vec::new();
    for i in 0..n
        invariant
            n == pieces@.len(),
            views(trimmed@) == views(pieces@).take(i as int).map_values(
                |p: Seq<char>| trim(p),
            ),
    {
        let ghost before = trimmed@;
        let t = trim_chars(&pieces[i]);
        trimmed.push(t);
        proof {
            assert(views(trimmed@) =~= views(before).push(trim(pieces@[i as int]@)));
            assert(views(pieces@).take(i + 1) =~= views(pieces@).take(i as int).push(
                pieces@[i as int]@,
            ));
            assert(views(trimmed@) =~= views(pieces@).take(i + 1).map_values(
                |p: Seq<char>| trim(p),
            ));
        }
    }
    proof {
        assert(views(pieces@).take(n as int) =~= views(pieces@));
        assert(views(pieces@) == split(value@, ','));
    }
    let items = nonempty_only(trimmed);
    let ghost spec_items = allowed_entries(value@);
    assert(views(items@) == spec_items);
    let m = items.len();
    let mut repos: Vec<Repository> = Vec::new();
    for i in 0..m
        invariant
            m == items@.len(),
            views(items@) == spec_items,
            spec_items == allowed_entries(value@),
            forall|q: int| 0 <= q < i ==> valid_entry(#[trigger] spec_items[q]),
            repository_views(repos@) == spec_items.take(i as int).map_values(
                |it: Seq<char>| (split(it, '/')[0], split(it, '/')[1]),
            ),
    {
        let parts = split_chars(&items[i], '/');
        proof {
            assert(spec_items[i as int] == items@[i as int]@);
        }
        if parts.len() != 2 || !valid_component(&parts[0]) || !valid_component(&parts[1]) {
            proof {
                if parts@.len() == 2 {
                    assert(views(parts@)[0] == parts@[0]@);
                    assert(views(parts@)[1] == parts@[1]@);
                }
                assert(!valid_entry(spec_items[i as int]));
            }
            return Err(config_error(ALLOWLIST_ENTRIES));
        }
        proof {
            assert(views(parts@)[0] == parts@[0]@);
            assert(views(parts@)[1] == parts@[1]@);
        }
        let ghost before = repos@;
        repos.push(
            Repository {
                owner: string_of(parts[0].as_slice()),
                name: string_of(parts[1].as_slice()),
            },
        );
        proof {
            assert(repository_views(repos@) =~= repository_views(before).push(
                (parts@[0]@, parts@[1]@),
            ));
            assert(spec_items.take(i + 1) =~= spec_items.take(i as int).push(
                spec_items[i as int],
            ));
            assert(repository_views(repos@) =~= spec_items.take(i + 1).map_values(
                |it: Seq<char>| (split(it, '/')[0], split(it, '/')[1]),
            ));
        }
    }
    proof {
        assert(spec_items.take(m as int) =~= spec_items);
    }
    if m == 0 {
        return Err(config_error(ALLOWLIST_EMPTY));
    }
    Ok(repos)
}

// ---------------------------------------------------------------------------
// Branch names
// ---------------------------------------------------------------------------

/// A character allowed in a branch name.
pub open spec fn branch_char(c: char) -> bool {
    component_char(c) || c == '/'
}

/// A branch name that the GitHub requests accept: 1 to 255 characters from
/// `[A-Za-z0-9/._-]`, not starting or ending with `/`, without `..` or `@{`.
pub open spec fn valid_branch_spec(s: Seq<char>) -> bool {
    &&& s.len() > 0
    &&& s.len() <= 255
    &&& s[0] != '/'
    &&& s.last() != '/'
    &&& !contains(s, seq!['.', '.'])
    &&& !contains(s, seq!['@', '{'])
    &&& forall|i: int| 0 <= i < s.len() ==> branch_char(#[trigger] s[i])
}

/// The characters of owner and repository names and of branch names, taken
/// one by one from ASCII: letters, digits, `-`, `_`, `.`, and for branches
/// also `/`.
pub open spec fn name_char_ascii(c: char, slash: bool) -> bool {
    ||| 'a' <= c <= 'z'
    ||| 'A' <= c <= 'Z'
    ||| '0' <= c <= '9'
    ||| c == '-'
    ||| c == '_'
    ||| c == '.'
    ||| (slash && c == '/')
}

/// Which texts are valid repository owners and names: exactly those of 1
/// to 100 characters, each an ASCII letter, digit, `-`, `_` or `.`, other
/// than `.` and `..` themselves. A `.` inside a name, as in `socket.io`, is
/// allowed.
pub proof fn law_valid_components(s: Seq<char>)
    ensures
        valid_component_spec(s) <==> (1 <= s.len() <= 100 && s != seq!['.'] && s != seq!['.', '.']
            && forall|i: int| 0 <= i < s.len() ==> #[trigger] name_char_ascii(s[i], false)),
{
    if valid_component_spec(s) {
        assert forall|i: int| 0 <= i < s.len() implies #[trigger] name_char_ascii(s[i], false) by {
            assert(component_char(s[i]));
        }
    }
    if forall|i: int| 0 <= i < s.len() ==> #[trigger] name_char_ascii(s[i], false) {
        assert forall|i: int| 0 <= i < s.len() implies #[trigger] component_char(s[i]) by {
            assert(name_char_ascii(s[i], false));
        }
    }
}

/// Which texts are valid branch names: exactly those of 1 to 255
/// characters, each an ASCII letter, digit, `/`, `-`, `_` or `.`, that do
/// not start or end with `/` and hold no `..` and no `@{`. A single `.`, as
/// in `release/1.2`, is allowed.
pub proof fn law_valid_branches(s: Seq<char>)
    ensures
        valid_branch_spec(s) <==> (1 <= s.len() <= 255 && s[0] != '/' && s[s.len() - 1] != '/'
            && (forall|i: int| 0 <= i < s.len() ==> #[trigger] name_char_ascii(s[i], true))
            && (forall|i: int| 0 <= i < s.len() - 1 ==> !(#[trigger] s[i] == '.' && s[i + 1] == '.'))
            && (forall|i: int| 0 <= i < s.len() - 1 ==> !(#[trigger] s[i] == '@' && s[i + 1] == '{'))),
{
    let dots = seq!['.', '.'];
    let at_brace = seq!['@', '{'];
    if forall|i: int| 0 <= i < s.len() ==> #[trigger] branch_char(s[i]) {
        assert forall|i: int| 0 <= i < s.len() implies #[trigger] name_char_ascii(s[i], true) by {
            assert(branch_char(s[i]));
        }
    }
    if forall|i: int| 0 <= i < s.len() ==> #[trigger] name_char_ascii(s[i], true) {
        assert forall|i: int| 0 <= i < s.len() implies #[trigger] branch_char(s[i]) by {
            assert(name_char_ascii(s[i], true));
        }
    }
    assert forall|i: int| 0 <= i < s.len() - 1 implies (occurs_at(s, dots, i) <==> (s[i] == '.'
        && s[i + 1] == '.')) by {
        if s[i] == '.' && s[i + 1] == '.' {
            assert(s.subrange(i, i + 2) =~= dots);
        }
        if occurs_at(s, dots, i) {
            assert(s.subrange(i, i + 2)[0] == s[i]);
            assert(s.subrange(i, i + 2)[1] == s[i + 1]);
        }
    }
    assert forall|i: int| 0 <= i < s.len() - 1 implies (occurs_at(s, at_brace, i) <==> (s[i]
        == '@' && s[i + 1] == '{')) by {
        if s[i] == '@' && s[i + 1] == '{' {
            assert(s.subrange(i, i + 2) =~= at_brace);
        }
        if occurs_at(s, at_brace, i) {
            assert(s.subrange(i, i + 2)[0] == s[i]);
            assert(s.subrange(i, i + 2)[1] == s[i + 1]);
        }
    }
    if contains(s, dots) {
        let i = choose|i: int| #[trigger] occurs_at(s, dots, i);
        assert(0 <= i < s.len() - 1);
    }
    if contains(s, at_brace) {
        let i = choose|i: int| #[trigger] occurs_at(s, at_brace, i);
        assert(0 <= i < s.len() - 1);
    }
    if (forall|i: int| 0 <= i < s.len() - 1 ==> !(#[trigger] s[i] == '.' && s[i + 1] == '.')) {
        if contains(s, dots) {
            let i = choose|i: int| #[trigger] occurs_at(s, dots, i);
            assert(s[i] == '.' && s[i + 1] == '.');
        }
    }
    if (forall|i: int| 0 <= i < s.len() - 1 ==> !(#[trigger] s[i] == '@' && s[i + 1] == '{')) {
        if contains(s, at_brace) {
            let i = choose|i: int| #[trigger] occurs_at(s, at_brace, i);
            assert(s[i] == '@' && s[i + 1] == '{');
        }
    }
    if !contains(s, dots) {
        assert forall|i: int| 0 <= i < s.len() - 1 implies !(#[trigger] s[i] == '.' && s[i + 1]
            == '.') by {
            if s[i] == '.' && s[i + 1] == '.' {
                assert(occurs_at(s, dots, i));
            }
        }
    }
    if !contains(s, at_brace) {
        assert forall|i: int| 0 <= i < s.len() - 1 implies !(#[trigger] s[i] == '@' && s[i + 1]
            == '{') by {
            if s[i] == '@' && s[i + 1] == '{' {
                assert(occurs_at(s, at_brace, i));
            }
        }
    }
}

pub fn valid_branch(value: &str) -> (b: bool)
    ensures
        b == valid_branch_spec(value@),
{
    let s = chars_of(value);
    let n = s.len();
    if n == 0 || n > 255 || s[0] == '/' || s[n - 1] == '/' {
        return false;
    }
    let dots = vec!['.', '.'];
    let at_brace = vec!['@', '{'];
    assert(dots@ =~= seq!['.', '.']);
    assert(at_brace@ =~= seq!['@', '{']);
    if contains_chars(&s, &dots) || contains_chars(&s, &at_brace) {
        return false;
    }
    for i in 0..n
        invariant
            n == s@.len(),
            s@ == value@,
            forall|q: int| 0 <= q < i ==> branch_char(#[trigger] s@[q]),
    {
        if !(component_char_exec(s[i]) || s[i] == '/') {
            return false;
        }
    }
    true
}

// ---------------------------------------------------------------------------
// The client's configuration and request preparation
// ---------------------------------------------------------------------------

/// A pull request on GitHub.
#[derive(Debug, Clone)]
pub struct PullRequest {
    pub number: i32,
    pub html_url: String,
}

/// Repository metadata as reported to clients.
#[derive(Debug, Clone)]
pub struct GitHubRepository {
    pub full_name: String,
    pub html_url: String,
    pub default_branch: String,
    pub private: bool,
    pub can_push: bool,
}

impl GitHubRepository {
    /// Repository metadata from GitHub's answer, in which `push_permission`
    /// is the `permissions.push` flag when the answer has one.
    pub fn from_metadata(
        full_name: String,
        html_url: String,
        default_branch: String,
        private: bool,
        push_permission: Option<bool>,
    ) -> (r: GitHubRepository)
        ensures
            r.full_name == full_name,
            r.html_url == html_url,
            r.default_branch == default_branch,
            r.private == private,
            r.can_push == (push_permission == Some(true)),
    {
        let can_push = match push_permission {
            Some(p) => p,
            None => false,
        };
        GitHubRepository { full_name, html_url, default_branch, private, can_push }
    }
}

pub const NOT_ALLOWED: &'static str = "repository is not allowed by LOOPTASK_GITHUB_ALLOWED_REPOSITORIES";

/// Whether `repo` is on the allow-list `allowed`, comparing owners and names
/// without regard to ASCII case.
pub open spec fn is_allowed(allowed: Seq<Repository>, repo: Repository) -> bool {
    exists|i: int|
        0 <= i < allowed.len() && eq_ignore_ascii_case(#[trigger] allowed[i].owner@, repo.owner@)
            && eq_ignore_ascii_case(allowed[i].name@, repo.name@)
}

/// A repository reference that is accepted names a valid owner and a
/// valid repository name.
pub proof fn law_parsed_repository_is_valid(value: Seq<char>)
    requires
        repository_of(value) is Ok,
    ensures
        valid_component_spec(repository_of(value)->Ok_0.0),
        valid_component_spec(repository_of(value)->Ok_0.1),
{
}

/// Every entry of an accepted allow-list names a valid owner and a valid
/// repository name, and an accepted allow-list is not empty.
pub proof fn law_allow_list_entries_are_valid(value: Seq<char>)
    requires
        allowlist_of(value) is Ok,
    ensures
        allowlist_of(value)->Ok_0.len() > 0,
        forall|i: int|
            0 <= i < allowlist_of(value)->Ok_0.len() ==> valid_component_spec(
                #[trigger] allowlist_of(value)->Ok_0[i].0,
            ) && valid_component_spec(allowlist_of(value)->Ok_0[i].1),
{
    let items = allowed_entries(value);
    assert forall|i: int| 0 <= i < items.len() implies valid_entry(#[trigger] items[i]) by {}
}

proof fn lemma_ascii_case_equivalence(a: Seq<char>, b: Seq<char>, c: Seq<char>)
    ensures
        eq_ignore_ascii_case(a, a),
        eq_ignore_ascii_case(a, b) ==> eq_ignore_ascii_case(b, a),
        eq_ignore_ascii_case(a, b) && eq_ignore_ascii_case(b, c) ==> eq_ignore_ascii_case(a, c),
{
    if eq_ignore_ascii_case(a, b) && eq_ignore_ascii_case(b, c) {
        assert forall|i: int| 0 <= i < a.len() implies ascii_lower(a[i]) == ascii_lower(c[i]) by {
            assert(ascii_lower(a[i]) == ascii_lower(b[i]));
            assert(ascii_lower(b[i]) == ascii_lower(c[i]));
        }
    }
}

/// Each repository on an allow-list is allowed.
pub proof fn law_listed_repositories_are_allowed(allowed: Seq<Repository>, i: int)
    requires
        0 <= i < allowed.len(),
    ensures
        is_allowed(allowed, allowed[i]),
{
    lemma_ascii_case_equivalence(allowed[i].owner@, allowed[i].owner@, allowed[i].owner@);
    lemma_ascii_case_equivalence(allowed[i].name@, allowed[i].name@, allowed[i].name@);
}

/// The allow-list does not see ASCII case: two references that differ
/// only in case are both allowed or both refused.
pub proof fn law_allow_list_ignores_case(allowed: Seq<Repository>, a: Repository, b: Repository)
    requires
        eq_ignore_ascii_case(a.owner@, b.owner@),
        eq_ignore_ascii_case(a.name@, b.name@),
    ensures
        is_allowed(allowed, a) == is_allowed(allowed, b),
{
    if is_allowed(allowed, a) {
        let i = choose|i: int|
            0 <= i < allowed.len() && eq_ignore_ascii_case(#[trigger] allowed[i].owner@, a.owner@)
                && eq_ignore_ascii_case(allowed[i].name@, a.name@);
        lemma_ascii_case_equivalence(allowed[i].owner@, a.owner@, b.owner@);
        lemma_ascii_case_equivalence(allowed[i].name@, a.name@, b.name@);
    }
    if is_allowed(allowed, b) {
        let i = choose|i: int|
            0 <= i < allowed.len() && eq_ignore_ascii_case(#[trigger] allowed[i].owner@, b.owner@)
                && eq_ignore_ascii_case(allowed[i].name@, b.name@);
        lemma_ascii_case_equivalence(a.owner@, b.owner@, b.owner@);
        lemma_ascii_case_equivalence(a.name@, b.name@, b.name@);
        lemma_ascii_case_equivalence(allowed[i].owner@, b.owner@, a.owner@);
        lemma_ascii_case_equivalence(allowed[i].name@, b.name@, a.name@);
    }
}

/// The settings with which the service talks to the GitHub API: the API
/// base URL (ending in `/`), the token, and the allow-list of repositories.
#[derive(Debug, Clone)]
pub struct GitHubClient {
    base: String,
    token: String,
    allowed_repositories: Vec<Repository>,
}

/// What the base URL given to `GitHubClient::new_with_allowed` becomes, or
/// the message of the error: the URL must parse and use `https`, unless its
/// host is `127.0.0.1` or `localhost`; its path gets a trailing `/`.
pub open spec fn client_base_of(base: Seq<char>) -> Result<Seq<char>, Seq<char>> {
    api_base_of(
        url_parse(base),
        match url_parse(base) {
            Some(u) => url_with_path(base, u.4 + seq!['/']),
            None => None,
        },
    )
}

/// The API base URL that a parsed URL gives (see `client_base_of`), where
/// `reslashed` is the URL with a `/` added to its path; `None` is a URL that
/// did not parse.
pub open spec fn api_base_of(url: Option<UrlPartsView>, reslashed: Option<Seq<char>>) -> Result<
    Seq<char>,
    Seq<char>,
> {
    match url {
        None => Err("invalid GitHub API base URL"@),
        Some((scheme, _, _, host, path, _, _, serialization)) => {
            if scheme != "https"@ && host != Some("127.0.0.1"@) && host != Some("localhost"@) {
                Err("GitHub API base must use HTTPS"@)
            } else if path.len() > 0 && path.last() == '/' {
                Ok(serialization)
            } else {
                match reslashed {
                    Some(s) => Ok(s),
                    None => Err("invalid GitHub API base URL"@),
                }
            }
        },
    }
}

/// The API base URL that a parsed URL gives, where `reslashed` is the URL
/// with a `/` added to its path.
pub fn api_base_from(url: Option<UrlParts>, reslashed: Option<String>) -> (r: Result<String, Error>)
    ensures
        match r {
            Ok(b) => api_base_of(url_view(url), opt_view(reslashed)) == Ok::<
                Seq<char>,
                Seq<char>,
            >(b@),
            Err(e) => e matches Error::Config(m) && api_base_of(
                url_view(url),
                opt_view(reslashed),
            ) == Err::<Seq<char>, Seq<char>>(m@),
        },
{
    let parts = match url {
        Some(p) => p,
        None => return Err(config_error("invalid GitHub API base URL")),
    };
    let local_ip = owned("127.0.0.1");
    let localhost = owned("localhost");
    let host_local = match &parts.host {
        Some(h) => *h == local_ip || *h == localhost,
        None => false,
    };
    if !(parts.scheme == owned("https")) && !host_local {
        return Err(config_error("GitHub API base must use HTTPS"));
    }
    let path = chars_of(parts.path.as_str());
    if path.len() > 0 && path[path.len() - 1] == '/' {
        Ok(parts.serialization)
    } else {
        match reslashed {
            Some(s) => Ok(s),
            None => Err(config_error("invalid GitHub API base URL")),
        }
    }
}

impl GitHubClient {
    pub closed spec fn base_view(&self) -> Seq<char> {
        self.base@
    }

    pub closed spec fn token_view(&self) -> Seq<char> {
        self.token@
    }

    pub closed spec fn allowed_view(&self) -> Seq<Repository> {
        self.allowed_repositories@
    }

    /// A client with an empty allow-list, which allows no repository.
    pub fn new(base: &str, token: String) -> (r: Result<GitHubClient, Error>)
        ensures
            match r {
                Ok(c) => client_base_of(base@) == Ok::<Seq<char>, Seq<char>>(c.base_view())
                    && c.token_view() == token@ && c.allowed_view().len() == 0,
                Err(e) => e matches Error::Config(m) && client_base_of(base@) == Err::<
                    Seq<char>,
                    Seq<char>,
                >(m@),
            },
    {
        GitHubClient::new_with_allowed(base, token, Vec::new())
    }

    pub fn new_with_allowed(base: &str, token: String, allowed_repositories: Vec<Repository>) -> (r:
        Result<GitHubClient, Error>)
        ensures
            match r {
                Ok(c) => client_base_of(base@) == Ok::<Seq<char>, Seq<char>>(c.base_view())
                    && c.token_view() == token@ && c.allowed_view() == allowed_repositories@,
                Err(e) => e matches Error::Config(m) && client_base_of(base@) == Err::<
                    Seq<char>,
                    Seq<char>,
                >(m@),
            },
    {
        let url = parse_url(base);
        let reslashed = match &url {
            Some(parts) => {
                let path = chars_of(parts.path.as_str());
                if path.len() > 0 && path[path.len() - 1] == '/' {
                    None
                } else {
                    let with_slash = concat(parts.path.as_str(), "/");
                    proof {
                        reveal_strlit("/");
                        assert(with_slash@ =~= parts.path@ + seq!['/']);
                    }
                    set_url_path(base, with_slash.as_str())
                }
            },
            None => None,
        };
        let base_url = api_base_from(url, reslashed)?;
        Ok(GitHubClient { base: base_url, token, allowed_repositories })
    }

    /// The API base URL, ending in `/`.
    pub fn base(&self) -> (r: &String)
        ensures
            r@ == self.base_view(),
    {
        &self.base
    }

    pub fn token(&self) -> (r: &String)
        ensures
            r@ == self.token_view(),
    {
        &self.token
    }

    pub fn allowed_repositories(&self) -> (r: &Vec<Repository>)
        ensures
            r@ == self.allowed_view(),
    {
        &self.allowed_repositories
    }

    /// Accepts exactly the repositories on the allow-list, comparing owner
    /// and name without regard to ASCII case; an empty list accepts none.
    pub fn ensure_repository_allowed(&self, repository: &Repository) -> (r: Result<(), Error>)
        ensures
            match r {
                Ok(()) => is_allowed(self.allowed_view(), *repository),
                Err(e) => e matches Error::Config(m) && m@ == NOT_ALLOWED@ && !is_allowed(
                    self.allowed_view(),
                    *repository,
                ),
            },
    {
        let owner = chars_of(repository.owner.as_str());
        let name = chars_of(repository.name.as_str());
        let n = self.allowed_repositories.len();
        for i in 0..n
            invariant
                n == self.allowed_repositories@.len(),
                owner@ == repository.owner@,
                name@ == repository.name@,
                forall|q: int|
                    0 <= q < i ==> !(eq_ignore_ascii_case(
                        #[trigger] self.allowed_repositories@[q].owner@,
                        repository.owner@,
                    ) && eq_ignore_ascii_case(
                        self.allowed_repositories@[q].name@,
                        repository.name@,
                    )),
        {
            let allowed = &self.allowed_repositories[i];
            let ao = chars_of(allowed.owner.as_str());
            let an = chars_of(allowed.name.as_str());
            if eq_ignore_ascii_case_chars(&ao, &owner) && eq_ignore_ascii_case_chars(&an, &name) {
                return Ok(());
            }
        }
        Err(config_error(NOT_ALLOWED))
    }

    /// Checks a request to open a pull request from `head` into `base`: the
    /// repository must be allowed and both branch names valid.
    pub fn check_pull_request(&self, repo: &Repository, head: &str, base: &str) -> (r: Result<
        (),
        Error,
    >)
        ensures
            match r {
                Ok(()) => is_allowed(self.allowed_view(), *repo) && valid_branch_spec(head@)
                    && valid_branch_spec(base@),
                Err(e) => e matches Error::Config(m) && if !is_allowed(
                    self.allowed_view(),
                    *repo,
                ) {
                    m@ == NOT_ALLOWED@
                } else {
                    !(valid_branch_spec(head@) && valid_branch_spec(base@)) && m@
                        == "invalid Git branch name"@
                },
            },
    {
        self.ensure_repository_allowed(repo)?;
        if !valid_branch(head) || !valid_branch(base) {
            return Err(config_error("invalid Git branch name"));
        }
        Ok(())
    }

    /// The API URL of a repository's metadata: the base URL joined with the
    /// repository's path. A join that fails is an internal error.
    pub fn repository_url(&self, repo: &Repository) -> (r: Result<String, Error>)
        ensures
            match url_join(self.base_view(), "repos/"@ + repo.owner@ + "/"@ + repo.name@) {
                Ok(u) => r matches Ok(s) && s@ == u,
                Err(m) => r matches Err(Error::Internal(t)) && t@ == m,
            },
    {
        let path = repository_path(repo);
        api_url_from(join_url(self.base.as_str(), path.as_str()))
    }

    /// The API URL of a repository's pull requests: the base URL joined
    /// with their path. A join that fails is an internal error.
    pub fn pulls_url(&self, repo: &Repository) -> (r: Result<String, Error>)
        ensures
            match url_join(
                self.base_view(),
                "repos/"@ + repo.owner@ + "/"@ + repo.name@ + "/pulls"@,
            ) {
                Ok(u) => r matches Ok(s) && s@ == u,
                Err(m) => r matches Err(Error::Internal(t)) && t@ == m,
            },
    {
        let path = pulls_path(repo);
        api_url_from(join_url(self.base.as_str(), path.as_str()))
    }

    /// The API URL of a branch of a repository: the branch name must be
    /// valid, and the branch's path segments are pushed onto the base URL.
    pub fn branch_url(&self, repo: &Repository, branch: &str) -> (r: Result<String, Error>)
        ensures
            if !valid_branch_spec(branch@) {
                r matches Err(Error::Config(m)) && m@ == INVALID_BRANCH@
            } else {
                match url_with_segments(
                    self.base_view(),
                    seq!["repos"@, repo.owner@, repo.name@, "branches"@, branch@],
                ) {
                    Ok(u) => r matches Ok(s) && s@ == u,
                    Err(None) => r matches Err(Error::Config(m)) && m@ == NO_PATH_SEGMENTS@,
                    Err(Some(m)) => r matches Err(Error::Internal(t)) && t@ == m,
                }
            },
    {
        if !valid_branch(branch) {
            return Err(config_error(INVALID_BRANCH));
        }
        let segments = branch_path_segments(repo, branch);
        branch_url_from(push_url_segments(self.base.as_str(), &segments))
    }

    /// The client that the service's settings describe, given the values of
    /// `GITHUB_TOKEN`, `LOOPTASK_GITHUB_ALLOWED_REPOSITORIES` and
    /// `GITHUB_API_BASE` (`None` where unset). The token is required; an
    /// unset allow-list reads as empty, which is refused; the base defaults
    /// to `https://api.github.com/`.
    pub fn from_values(token: Option<String>, allowed: Option<String>, base: Option<String>) -> (r:
        Result<GitHubClient, Error>)
        ensures
            match token {
                None => r matches Err(Error::Config(m)) && m@ == TOKEN_REQUIRED@,
                Some(t) => {
                    let text = match allowed {
                        Some(a) => a@,
                        None => Seq::<char>::empty(),
                    };
                    let b = match base {
                        Some(b) => b@,
                        None => DEFAULT_API_BASE@,
                    };
                    match allowlist_of(text) {
                        Err(m) => r matches Err(Error::Config(e)) && e@ == m,
                        Ok(list) => match client_base_of(b) {
                            Err(m) => r matches Err(Error::Config(e)) && e@ == m,
                            Ok(u) => r matches Ok(c) && c.base_view() == u && c.token_view() == t@
                                && repository_views(c.allowed_view()) == list,
                        },
                    }
                },
            },
    {
        let token = match token {
            Some(t) => t,
            None => return Err(config_error(TOKEN_REQUIRED)),
        };
        let text = match allowed {
            Some(a) => a,
            None => String::new(),
        };
        proof {
            assert(text@ == match allowed {
                Some(a) => a@,
                None => Seq::<char>::empty(),
            });
        }
        let allowed_repositories = parse_allowed_repositories(text.as_str())?;
        let base = match base {
            Some(b) => b,
            None => owned(DEFAULT_API_BASE),
        };
        GitHubClient::new_with_allowed(base.as_str(), token, allowed_repositories)
    }
}

/// An API URL, given what joining its path to the base URL gave: a join
/// that failed is an internal error.
pub fn api_url_from(joined: Result<String, String>) -> (r: Result<String, Error>)
    ensures
        match joined {
            Ok(u) => r matches Ok(s) && s@ == u@,
            Err(m) => r matches Err(Error::Internal(t)) && t@ == m@,
        },
{
    match joined {
        Ok(u) => Ok(u),
        Err(m) => Err(Error::Internal(m)),
    }
}

/// A branch's API URL, given what pushing its path segments onto the base
/// URL gave.
pub fn branch_url_from(pushed: Result<String, Option<String>>) -> (r: Result<String, Error>)
    ensures
        match pushed {
            Ok(u) => r matches Ok(s) && s@ == u@,
            Err(None) => r matches Err(Error::Config(m)) && m@ == NO_PATH_SEGMENTS@,
            Err(Some(m)) => r matches Err(Error::Internal(t)) && t@ == m@,
        },
{
    match pushed {
        Ok(u) => Ok(u),
        Err(None) => Err(config_error(NO_PATH_SEGMENTS)),
        Err(Some(m)) => Err(Error::Internal(m)),
    }
}

pub const INVALID_BRANCH: &'static str = "invalid Git branch name";

pub const NO_PATH_SEGMENTS: &'static str = "GitHub API base must support path segments";

pub const TOKEN_REQUIRED: &'static str = "GITHUB_TOKEN is required to create pull requests";

pub const DEFAULT_API_BASE: &'static str = "https://api.github.com/";

/// The error that a non-success answer of the GitHub API becomes, given
/// the answer's status line and body.
pub fn github_error(status: &str, body: &str) -> (e: Error)
    ensures
        e matches Error::Internal(m) && m@ == "GitHub API responded with "@ + status@ + ": "@ + body@,
{
    let head = concat3("GitHub API responded with ", status, ": ");
    Error::Internal(concat(head.as_str(), body))
}

/// The API path, relative to the base URL, of a repository.
pub fn repository_path(repo: &Repository) -> (r: String)
    ensures
        r@ == "repos/"@ + repo.owner@ + "/"@ + repo.name@,
{
    let head = concat3("repos/", repo.owner.as_str(), "/");
    concat(head.as_str(), repo.name.as_str())
}

/// The API path, relative to the base URL, of a repository's pull requests.
pub fn pulls_path(repo: &Repository) -> (r: String)
    ensures
        r@ == "repos/"@ + repo.owner@ + "/"@ + repo.name@ + "/pulls"@,
{
    let p = repository_path(repo);
    concat(p.as_str(), "/pulls")
}

/// The query that finds the open pull requests from `head` into `base`.
pub fn open_pull_request_query(repo: &Repository, head: &str, base: &str) -> (r: Vec<(String, String)>)
    ensures
        r@.len() == 3,
        r@[0].0@ == "state"@ && r@[0].1@ == "open"@,
        r@[1].0@ == "head"@ && r@[1].1@ == repo.owner@ + ":"@ + head@,
        r@[2].0@ == "base"@ && r@[2].1@ == base@,
{
    vec![
        (owned("state"), owned("open")),
        (owned("head"), concat3(repo.owner.as_str(), ":", head)),
        (owned("base"), owned(base)),
    ]
}

/// The path segments, below the base URL, of a branch of a repository.
pub fn branch_path_segments(repo: &Repository, branch: &str) -> (r: Vec<String>)
    ensures
        string_views(r@) == seq!["repos"@, repo.owner@, repo.name@, "branches"@, branch@],
{
    let r = vec![
        owned("repos"),
        repo.owner.clone(),
        repo.name.clone(),
        owned("branches"),
        owned(branch),
    ];
    assert(string_views(r@) =~= seq!["repos"@, repo.owner@, repo.name@, "branches"@, branch@]);
    r
}

/// The pull request to report when GitHub already lists open ones: the
/// first of them.
pub fn existing_pull_request(existing: Vec<PullRequest>) -> (r: Option<PullRequest>)
    ensures
        existing@.len() == 0 ==> r is None,
        existing@.len() > 0 ==> r == Some(existing@[0]),
{
    let mut existing = existing;
    if existing.len() == 0 {
        None
    } else {
        Some(existing.swap_remove(0))
    }
}

/// Whether the head commit reported for a branch is the expected one,
/// comparing the hashes without regard to ASCII case.
pub fn check_branch_sha(actual: &str, expected: &str) -> (r: Result<(), Error>)
    ensures
        match r {
            Ok(()) => eq_ignore_ascii_case(actual@, expected@),
            Err(e) => e matches Error::Config(m) && m@
                == "executor headSha does not match the GitHub branch head"@
                && !eq_ignore_ascii_case(actual@, expected@),
        },
{
    if !eq_ignore_ascii_case_str(actual, expected) {
        return Err(config_error("executor headSha does not match the GitHub branch head"));
    }
    Ok(())
}

/// How the service treats GitHub's answer to a repository metadata request.
#[derive(Debug, Clone, Copy, PartialEq, Eq, Structural)]
pub enum MetadataAnswer {
    /// 404: the repository is not accessible and is left out.
    Missing,
    /// Another non-success status: the request fails.
    Failed,
    /// A success status: the body holds the metadata.
    Found,
}

pub fn classify_metadata_status(status: u16) -> (r: MetadataAnswer)
    ensures
        r == (if status == 404 {
            MetadataAnswer::Missing
        } else if 200 <= status <= 299 {
            MetadataAnswer::Found
        } else {
            MetadataAnswer::Failed
        }),
{
    if status == 404 {
        MetadataAnswer::Missing
    } else if 200 <= status && status <= 299 {
        MetadataAnswer::Found
    } else {
        MetadataAnswer::Failed
    }
}

} // verus!
