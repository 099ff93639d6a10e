//! Character-level text operations used throughout the crate, each with a
//! specification over `Seq<char>`.
use vstd::prelude::*;

verus! {

/// The characters of `s`, in order.
pub fn chars_of(s: &str) -> (v: Vec<char>)
    ensures
        v@ == s@,
{
    let n = s.unicode_len();
    let mut v: Vec<char> = Vec::new();
    for i in 0..n
        invariant
            n == s@.len(),
            v@ == s@.take(i as int),
    {
        v.push(s.get_char(i));
        proof {
            assert(s@.take(i + 1) =~= s@.take(i as int).push(s@[i as int]));
        }
    }
    proof {
        assert(s@.take(n as int) =~= s@);
    }
    v
}

/// Builds a `String` holding exactly the characters of `v`
/// (std's `FromIterator<&char>` for `String`).
#[verifier::external_body]
pub(crate) fn string_of(v: &[char]) -> (s: String)
    ensures
        s@ == v@,
{
    String::from_iter(v.iter())
}

/// A `String` with the characters of a literal.
pub fn owned(s: &str) -> (r: String)
    ensures
        r@ == s@,
{
    s.to_owned()
}

/// The views of a sequence of character vectors.
pub open spec fn views(v: Seq<Vec<char>>) -> Seq<Seq<char>> {
    v.map_values(|x: Vec<char>| x@)
}

/// The views of a sequence of strings.
pub open spec fn string_views(v: Seq<String>) -> Seq<Seq<char>> {
    v.map_values(|x: String| x@)
}

// ---------------------------------------------------------------------------
// Whitespace and trimming
// ---------------------------------------------------------------------------

/// Unicode `White_Space`, the property that `char::is_whitespace` tests.
pub open spec fn is_white_space(c: char) -> bool {
    let u = c as u32;
    ||| 0x9 <= u <= 0xd
    ||| u == 0x20
    ||| u == 0x85
    ||| u == 0xa0
    ||| u == 0x1680
    ||| 0x2000 <= u <= 0x200a
    ||| u == 0x2028
    ||| u == 0x2029
    ||| u == 0x202f
    ||| u == 0x205f
    ||| u == 0x3000
}

pub fn is_white_space_char(c: char) -> (b: bool)
    ensures
        b == is_white_space(c),
{
    let u = c as u32;
    (0x9 <= u && u <= 0xd) || u == 0x20 || u == 0x85 || u == 0xa0 || u == 0x1680 || (0x2000 <= u
        && u <= 0x200a) || u == 0x2028 || u == 0x2029 || u == 0x202f || u == 0x205f || u == 0x3000
}

/// `s` without its leading whitespace.
pub open spec fn trim_start(s: Seq<char>) -> Seq<char>
    decreases s.len(),
{
    if s.len() > 0 && is_white_space(s[0]) {
        trim_start(s.drop_first())
    } else {
        s
    }
}

/// `s` without its trailing whitespace.
pub open spec fn trim_end(s: Seq<char>) -> Seq<char>
    decreases s.len(),
{
    if s.len() > 0 && is_white_space(s.last()) {
        trim_end(s.drop_last())
    } else {
        s
    }
}

/// `s` without leading and trailing whitespace, as `str::trim` gives it.
pub open spec fn trim(s: Seq<char>) -> Seq<char> {
    trim_end(trim_start(s))
}

/// The characters of `v` without leading and trailing whitespace.
pub fn trim_chars(v: &Vec<char>) -> (r: Vec<char>)
    ensures
        r@ == trim(v@),
{
    let n = v.len();
    let mut i: usize = 0;
    assert(v@.skip(0) =~= v@);
    while i < n && is_white_space_char(v[i])
        invariant
            n == v@.len(),
            i <= n,
            trim_start(v@) == trim_start(v@.skip(i as int)),
        decreases n - i,
    {
        proof {
            assert(v@.skip(i as int).drop_first() =~= v@.skip(i + 1));
        }
        i = i + 1;
    }
    assert(trim_start(v@) == v@.subrange(i as int, n as int)) by {
        assert(v@.skip(i as int) =~= v@.subrange(i as int, n as int));
    }
    let mut j: usize = n;
    while j > i && is_white_space_char(v[j - 1])
        invariant
            n == v@.len(),
            i <= j <= n,
            trim_end(v@.subrange(i as int, n as int)) == trim_end(v@.subrange(i as int, j as int)),
        decreases j - i,
    {
        proof {
            assert(v@.subrange(i as int, j as int).drop_last() =~= v@.subrange(
                i as int,
                j - 1,
            ));
        }
        j = j - 1;
    }
    let mut r: Vec<char> = Vec::new();
    let mut k: usize = i;
    while k < j
        invariant
            n == v@.len(),
            i <= k <= j <= n,
            r@ == v@.subrange(i as int, k as int),
        decreases j - k,
    {
        r.push(v[k]);
        proof {
            assert(v@.subrange(i as int, k + 1) =~= v@.subrange(i as int, k as int).push(
                v@[k as int],
            ));
        }
        k = k + 1;
    }
    r
}

/// The characters of `s` without leading and trailing whitespace.
pub fn trim_str(s: &str) -> (r: Vec<char>)
    ensures
        r@ == trim(s@),
{
    let v = chars_of(s);
    trim_chars(&v)
}

/// Whether `s` holds nothing but whitespace.
pub fn is_blank(s: &str) -> (b: bool)
    ensures
        b == (trim(s@).len() == 0),
{
    let t = trim_str(s);
    t.len() == 0
}

// ---------------------------------------------------------------------------
// Splitting and joining
// ---------------------------------------------------------------------------

/// The pieces of `s` between occurrences of `sep`, as `str::split(sep)`
/// yields them (an empty `s` gives one empty piece).
pub open spec fn split(s: Seq<char>, sep: char) -> Seq<Seq<char>>
    decreases s.len(),
{
    if s.len() == 0 {
        seq![Seq::<char>::empty()]
    } else {
        let r = split(s.drop_last(), sep);
        if s.last() == sep {
            r.push(Seq::<char>::empty())
        } else {
            r.update(r.len() - 1, r.last().push(s.last()))
        }
    }
}

pub proof fn lemma_split_nonempty(s: Seq<char>, sep: char)
    ensures
        split(s, sep).len() >= 1,
    decreases s.len(),
{
    if s.len() > 0 {
        lemma_split_nonempty(s.drop_last(), sep);
    }
}

/// A text without the separator is one piece.
pub proof fn lemma_split_without_sep(s: Seq<char>, sep: char)
    requires
        forall|i: int| 0 <= i < s.len() ==> s[i] != sep,
    ensures
        split(s, sep) == seq![s],
    decreases s.len(),
{
    if s.len() > 0 {
        lemma_split_without_sep(s.drop_last(), sep);
        assert(s.drop_last().push(s.last()) =~= s);
        assert(split(s, sep) =~= seq![s]);
    } else {
        assert(s =~= Seq::<char>::empty());
    }
}

/// The pieces of `v` between occurrences of `sep`.
pub fn split_chars(v: &Vec<char>, sep: char) -> (r: Vec<Vec<char>>)
    ensures
        views(r@) == split(v@, sep),
{
    let n = v.len();
    let mut pieces: Vec<Vec<char>> = Vec::new();
    let mut cur: Vec<char> = Vec::new();
    assert(v@.take(0) =~= Seq::<char>::empty());
    assert(views(pieces@).push(cur@) =~= split(v@.take(0), sep));
    for i in 0..n
        invariant
            n == v@.len(),
            views(pieces@).push(cur@) == split(v@.take(i as int), sep),
    {
        let c = v[i];
        proof {
            assert(v@.take(i + 1).drop_last() =~= v@.take(i as int));
            assert(v@.take(i + 1).last() == c);
        }
        if c == sep {
            let ghost old_pieces = pieces@;
            let done = cur;
            pieces.push(done);
            cur = Vec::new();
            proof {
                assert(views(pieces@) =~= views(old_pieces).push(done@));
                assert(views(pieces@).push(cur@) =~= split(v@.take(i + 1), sep));
            }
        } else {
            let ghost old_cur = cur@;
            cur.push(c);
            proof {
                let r = split(v@.take(i as int), sep);
                assert(views(pieces@).push(cur@) =~= r.update(r.len() - 1, r.last().push(c)));
            }
        }
    }
    let ghost before = pieces@;
    pieces.push(cur);
    proof {
        assert(v@.take(n as int) =~= v@);
        assert(views(pieces@) =~= views(before).push(cur@));
    }
    pieces
}

/// The pieces of `xs` joined with `sep` between each two of them, as
/// `join` on a slice of strings gives it.
pub open spec fn join(xs: Seq<Seq<char>>, sep: Seq<char>) -> Seq<char>
    decreases xs.len(),
{
    if xs.len() == 0 {
        Seq::<char>::empty()
    } else if xs.len() == 1 {
        xs[0]
    } else {
        join(xs.drop_last(), sep) + sep + xs.last()
    }
}

/// The strings of `xs` joined with `sep` between each two of them.
pub fn join_strings(xs: &Vec<String>, sep: &str) -> (r: String)
    ensures
        r@ == join(string_views(xs@), sep@),
{
    let n = xs.len();
    let mut out: Vec<char> = Vec::new();
    let sep_chars = chars_of(sep);
    for i in 0..n
        invariant
            n == xs@.len(),
            sep_chars@ == sep@,
            out@ == join(string_views(xs@.take(i as int)), sep@),
    {
        let piece = chars_of(xs[i].as_str());
        proof {
            assert(string_views(xs@.take(i + 1)).drop_last() =~= string_views(
                xs@.take(i as int),
            ));
            assert(string_views(xs@.take(i + 1)).last() == xs@[i as int]@);
        }
        if i > 0 {
            let ghost o = out@;
            append_chars(&mut out, &sep_chars);
            append_chars(&mut out, &piece);
            proof {
                assert(out@ =~= o + sep@ + xs@[i as int]@);
            }
        } else {
            append_chars(&mut out, &piece);
            proof {
                assert(string_views(xs@.take(1)) =~= seq![xs@[0]@]);
                assert(out@ =~= xs@[0]@);
            }
        }
    }
    proof {
        assert(xs@.take(n as int) =~= xs@);
    }
    string_of(out.as_slice())
}

/// Appends the characters of `extra` to `v`.
pub fn append_chars(v: &mut Vec<char>, extra: &Vec<char>)
    ensures
        final(v)@ == old(v)@ + extra@,
{
    let n = extra.len();
    for i in 0..n
        invariant
            n == extra@.len(),
            v@ == old(v)@ + extra@.take(i as int),
    {
        v.push(extra[i]);
        proof {
            assert(extra@.take(i + 1) =~= extra@.take(i as int).push(extra@[i as int]));
        }
    }
    proof {
        assert(extra@.take(n as int) =~= extra@);
    }
}

/// `a` followed by `b`.
pub fn concat(a: &str, b: &str) -> (r: String)
    ensures
        r@ == a@ + b@,
{
    let mut s = a.to_owned();
    s.append(b);
    s
}

/// `a`, `b` and `c` one after the other.
pub fn concat3(a: &str, b: &str, c: &str) -> (r: String)
    ensures
        r@ == a@ + b@ + c@,
{
    let mut s = a.to_owned();
    s.append(b);
    s.append(c);
    s
}

// ---------------------------------------------------------------------------
// Searching and replacing
// ---------------------------------------------------------------------------

/// Whether `t` occurs in `s` starting at position `i`.
pub open spec fn occurs_at(s: Seq<char>, t: Seq<char>, i: int) -> bool {
    0 <= i && i + t.len() <= s.len() && s.subrange(i, i + t.len()) == t
}

/// Whether `t` occurs anywhere in `s`.
pub open spec fn contains(s: Seq<char>, t: Seq<char>) -> bool {
    exists|i: int| #[trigger] occurs_at(s, t, i)
}

pub fn occurs_at_exec(s: &Vec<char>, t: &Vec<char>, i: usize) -> (b: bool)
    ensures
        b == occurs_at(s@, t@, i as int),
{
    if i > s.len() || t.len() > s.len() - i {
        return false;
    }
    let m = t.len();
    for k in 0..m
        invariant
            m == t@.len(),
            i + m <= s.len(),
            forall|q: int| 0 <= q < k ==> s@[i + q] == t@[q],
    {
        if s[i + k] != t[k] {
            proof {
                assert(s@.subrange(i as int, i + m)[k as int] != t@[k as int]);
            }
            return false;
        }
    }
    assert(s@.subrange(i as int, i + m) =~= t@);
    true
}

pub fn contains_chars(s: &Vec<char>, t: &Vec<char>) -> (b: bool)
    ensures
        b == contains(s@, t@),
{
    let n = s.len();
    let m = t.len();
    if m > n {
        assert forall|q: int| !#[trigger] occurs_at(s@, t@, q) by {}
        return false;
    }
    if m == 0 {
        assert(occurs_at(s@, t@, 0)) by {
            assert(s@.subrange(0, 0) =~= t@);
        }
        return true;
    }
    let limit = n - m + 1;
    for i in 0..limit
        invariant
            n == s@.len(),
            m == t@.len(),
            limit == n - m + 1,
            forall|q: int| 0 <= q < i ==> !occurs_at(s@, t@, q),
    {
        if occurs_at_exec(s, t, i) {
            return true;
        }
    }
    assert forall|q: int| !#[trigger] occurs_at(s@, t@, q) by {
        if 0 <= q && q < limit {
        }
    }
    false
}

/// Whether character `c` occurs in `s`.
pub open spec fn has_char(s: Seq<char>, c: char) -> bool {
    exists|i: int| 0 <= i < s.len() && s[i] == c
}

pub fn has_char_exec(s: &Vec<char>, c: char) -> (b: bool)
    ensures
        b == has_char(s@, c),
{
    let n = s.len();
    for i in 0..n
        invariant
            n == s@.len(),
            forall|q: int| 0 <= q < i ==> s@[q] != c,
    {
        if s[i] == c {
            return true;
        }
    }
    false
}

/// `s` with every non-overlapping occurrence of `p`, taken from the left,
/// replaced by `r`, as `str::replace` gives it: an empty pattern matches
/// before every character and at the end.
pub open spec fn replace(s: Seq<char>, p: Seq<char>, r: Seq<char>) -> Seq<char>
    decreases s.len(),
{
    if p.len() == 0 {
        if s.len() == 0 {
            r
        } else {
            r + seq![s[0]] + replace(s.drop_first(), p, r)
        }
    } else if s.len() == 0 {
        Seq::<char>::empty()
    } else if occurs_at(s, p, 0) {
        r + replace(s.skip(p.len() as int), p, r)
    } else {
        seq![s[0]] + replace(s.drop_first(), p, r)
    }
}

/// Replacing in a text whose first part holds no character that begins the
/// pattern leaves that part as it is.
pub proof fn lemma_replace_prefix_free(a: Seq<char>, b: Seq<char>, p: Seq<char>, r: Seq<char>)
    requires
        p.len() > 0,
        forall|i: int| 0 <= i < a.len() ==> a[i] != p[0],
    ensures
        replace(a + b, p, r) == a + replace(b, p, r),
    decreases a.len(),
{
    let s = a + b;
    if a.len() > 0 {
        assert(s[0] == a[0]);
        if occurs_at(s, p, 0) {
            assert(s.subrange(0, p.len() as int)[0] == s[0]);
        }
        assert(s.drop_first() =~= a.drop_first() + b);
        lemma_replace_prefix_free(a.drop_first(), b, p, r);
        assert(seq![s[0]] + (a.drop_first() + replace(b, p, r)) =~= a + replace(b, p, r));
    } else {
        assert(s =~= b);
        assert(a + replace(b, p, r) =~= replace(b, p, r));
    }
}

/// Replacing in a text that begins with the pattern.
pub proof fn lemma_replace_at_start(p: Seq<char>, b: Seq<char>, r: Seq<char>)
    requires
        p.len() > 0,
    ensures
        replace(p + b, p, r) == r + replace(b, p, r),
{
    let s = p + b;
    assert(s.subrange(0, p.len() as int) =~= p);
    assert(s.skip(p.len() as int) =~= b);
}

/// Replacing in a text that does not begin with the pattern keeps its first
/// character.
pub proof fn lemma_replace_not_at_start(s: Seq<char>, p: Seq<char>, r: Seq<char>)
    requires
        s.len() > 0,
        !occurs_at(s, p, 0),
    ensures
        replace(s, p, r) == seq![s[0]] + replace(s.drop_first(), p, r),
{
    if p.len() == 0 {
        assert(s.subrange(0, 0) =~= p);
    }
}

pub fn replace_chars(s: &Vec<char>, p: &Vec<char>, r: &Vec<char>) -> (out: Vec<char>)
    ensures
        out@ == replace(s@, p@, r@),
{
    let n = s.len();
    let mut out: Vec<char> = Vec::new();
    let mut i: usize = 0;
    assert(s@.skip(0) =~= s@);
    if p.len() == 0 {
        while i < n
            invariant
                n == s@.len(),
                p@.len() == 0,
                i <= n,
                out@ + replace(s@.skip(i as int), p@, r@) == replace(s@, p@, r@),
            decreases n - i,
        {
            let ghost t = s@.skip(i as int);
            let ghost o = out@;
            append_chars(&mut out, r);
            out.push(s[i]);
            i = i + 1;
            proof {
                assert(t.drop_first() =~= s@.skip(i as int));
                assert(o + replace(t, p@, r@) =~= out@ + replace(s@.skip(i as int), p@, r@));
            }
        }
        let ghost o = out@;
        append_chars(&mut out, r);
        proof {
            assert(s@.skip(n as int) =~= Seq::<char>::empty());
            assert(o + replace(s@.skip(n as int), p@, r@) =~= out@);
        }
        return out;
    }
    while i < n
        invariant
            n == s@.len(),
            p@.len() > 0,
            i <= n,
            out@ + replace(s@.skip(i as int), p@, r@) == replace(s@, p@, r@),
        decreases n - i,
    {
        let ghost t = s@.skip(i as int);
        if occurs_at_exec(s, p, i) {
            proof {
                assert(t.subrange(0, p@.len() as int) =~= s@.subrange(i as int, i + p@.len()));
                assert(occurs_at(t, p@, 0));
                assert(t.skip(p@.len() as int) =~= s@.skip(i + p@.len()));
            }
            let ghost o = out@;
            append_chars(&mut out, r);
            i = i + p.len();
            proof {
                assert(o + replace(t, p@, r@) =~= out@ + replace(s@.skip(i as int), p@, r@));
            }
        } else {
            proof {
                if occurs_at(t, p@, 0) {
                    assert(t.subrange(0, p@.len() as int) =~= s@.subrange(
                        i as int,
                        i + p@.len(),
                    ));
                }
                assert(t.drop_first() =~= s@.skip(i + 1));
            }
            let ghost o = out@;
            out.push(s[i]);
            i = i + 1;
            proof {
                assert(o + replace(t, p@, r@) =~= out@ + replace(s@.skip(i as int), p@, r@));
            }
        }
    }
    proof {
        assert(out@ + replace(s@.skip(n as int), p@, r@) =~= out@);
    }
    out
}

/// `s` with every occurrence of `p` replaced by `r`.
pub fn replace_str(s: &str, p: &str, r: &str) -> (out: String)
    ensures
        out@ == replace(s@, p@, r@),
{
    let sv = chars_of(s);
    let pv = chars_of(p);
    let rv = chars_of(r);
    let out = replace_chars(&sv, &pv, &rv);
    string_of(out.as_slice())
}

// ---------------------------------------------------------------------------
// ASCII case
// ---------------------------------------------------------------------------

/// `c` with an ASCII upper-case letter mapped to lower case.
pub open spec fn ascii_lower(c: char) -> char {
    if 'A' <= c && c <= 'Z' {
        ((c as u32) + 32) as char
    } else {
        c
    }
}

/// Equality up to ASCII case, as `str::eq_ignore_ascii_case` decides it.
pub open spec fn eq_ignore_ascii_case(a: Seq<char>, b: Seq<char>) -> bool {
    a.len() == b.len() && forall|i: int| 0 <= i < a.len() ==> ascii_lower(a[i]) == ascii_lower(b[i])
}

pub fn ascii_lower_char(c: char) -> (r: char)
    ensures
        r == ascii_lower(c),
{
    if 'A' <= c && c <= 'Z' {
        let b = (c as u8) + 32;
        b as char
    } else {
        c
    }
}

pub fn eq_ignore_ascii_case_chars(a: &Vec<char>, b: &Vec<char>) -> (r: bool)
    ensures
        r == eq_ignore_ascii_case(a@, b@),
{
    if a.len() != b.len() {
        return false;
    }
    let n = a.len();
    for i in 0..n
        invariant
            n == a@.len(),
            n == b@.len(),
            forall|q: int| 0 <= q < i ==> ascii_lower(a@[q]) == ascii_lower(b@[q]),
    {
        if ascii_lower_char(a[i]) != ascii_lower_char(b[i]) {
            return false;
        }
    }
    true
}

pub fn eq_ignore_ascii_case_str(a: &str, b: &str) -> (r: bool)
    ensures
        r == eq_ignore_ascii_case(a@, b@),
{
    let av = chars_of(a);
    let bv = chars_of(b);
    eq_ignore_ascii_case_chars(&av, &bv)
}

/// Whether the two strings hold the same characters.
pub fn str_equal(a: &str, b: &str) -> (r: bool)
    ensures
        r == (a@ == b@),
{
    let av = chars_of(a);
    let bv = chars_of(b);
    if av.len() != bv.len() {
        return false;
    }
    let n = av.len();
    for i in 0..n
        invariant
            n == av@.len(),
            n == bv@.len(),
            av@ == a@,
            bv@ == b@,
            forall|q: int| 0 <= q < i ==> av@[q] == bv@[q],
    {
        if av[i] != bv[i] {
            assert(av@[i as int] != bv@[i as int]);
            return false;
        }
    }
    assert(av@ =~= bv@);
    true
}

} // verus!
