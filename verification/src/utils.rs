use vstd::prelude::*;
use vstd::string::StringExecFns;
use crate::config::Config;
use crate::errors::Error;

verus! {

// ---------------------------------------------------------------------------
// Mapping strings
// ---------------------------------------------------------------------------

/// Index of the first occurrence of `c` in `s`, or `-1` if `c` is absent.
pub open spec fn spec_first_index(s: Seq<char>, c: char) -> int
    decreases s.len(),
{
    if s.len() == 0 {
        -1
    } else if s[0] == c {
        0
    } else {
        let rest = spec_first_index(s.skip(1), c);
        if rest < 0 {
            -1
        } else {
            rest + 1
        }
    }
}

proof fn lemma_first_index_at(s: Seq<char>, c: char, i: int)
    requires
        0 <= i < s.len(),
        s[i] == c,
        forall|j: int| 0 <= j < i ==> s[j] != c,
    ensures
        spec_first_index(s, c) == i,
    decreases i,
{
    if i > 0 {
        lemma_first_index_at(s.skip(1), c, i - 1);
    }
}

proof fn lemma_first_index_absent(s: Seq<char>, c: char)
    requires
        forall|j: int| 0 <= j < s.len() ==> s[j] != c,
    ensures
        spec_first_index(s, c) == -1,
    decreases s.len(),
{
    if s.len() > 0 {
        lemma_first_index_absent(s.skip(1), c);
    }
}

/// Splits a raw mapping at the first `:`: the text before it is the source,
/// everything after it -- embedded `:` included -- is the destination. A
/// mapping with no `:` is malformed.
pub fn split_mapping(mapping_raw: &str) -> (r: Result<(&str, &str), Error>)
    ensures
        ({
            let i = spec_first_index(mapping_raw@, ':');
            &&& (i >= 0 <==> r is Ok)
            &&& (r matches Ok(parts) ==> parts.0@ == mapping_raw@.take(i) && parts.1@
                == mapping_raw@.skip(i + 1))
            &&& (r matches Err(e) ==> e matches Error::FileMappingError(m) && m@ == mapping_raw@)
        }),
{
    let n = mapping_raw.unicode_len();
    for i in 0..n
        invariant
            n == mapping_raw@.len(),
            forall|j: int| 0 <= j < i ==> mapping_raw@[j] != ':',
    {
        if mapping_raw.get_char(i) == ':' {
            proof {
                lemma_first_index_at(mapping_raw@, ':', i as int);
            }
            let src = mapping_raw.substring_char(0, i);
            let dst = mapping_raw.substring_char(i + 1, n);
            proof {
                assert(src@ =~= mapping_raw@.take(i as int));
                assert(dst@ =~= mapping_raw@.skip(i + 1));
            }
            return Ok((src, dst));
        }
    }
    proof {
        lemma_first_index_absent(mapping_raw@, ':');
    }
    Err(Error::FileMappingError(String::from_str(mapping_raw)))
}

// ---------------------------------------------------------------------------
// Lexical path resolution
// ---------------------------------------------------------------------------

/// The segments of `s`, split on `/`. Splitting never loses text: empty
/// segments (leading, trailing, doubled separators) are kept.
pub open spec fn spec_split(s: Seq<char>) -> Seq<Seq<char>>
    decreases s.len(),
{
    if s.len() == 0 {
        seq![Seq::<char>::empty()]
    } else {
        let init = spec_split(s.drop_last());
        if s.last() == '/' {
            init.push(Seq::<char>::empty())
        } else {
            init.update(init.len() - 1, init.last().push(s.last()))
        }
    }
}

proof fn lemma_split_len(s: Seq<char>)
    ensures
        spec_split(s).len() >= 1,
    decreases s.len(),
{
    if s.len() > 0 {
        lemma_split_len(s.drop_last());
    }
}

/// Folds segments into a normalized component list: empty and `.` segments
/// are dropped, `..` pops the last accumulated component, and popping with
/// nothing accumulated -- resolving above the root -- fails.
pub open spec fn spec_normalize(parts: Seq<Seq<char>>) -> Option<Seq<Seq<char>>>
    decreases parts.len(),
{
    if parts.len() == 0 {
        Some(Seq::<Seq<char>>::empty())
    } else {
        match spec_normalize(parts.drop_last()) {
            None => None,
            Some(acc) => {
                let p = parts.last();
                if p.len() == 0 || p == "."@ {
                    Some(acc)
                } else if p == ".."@ {
                    if acc.len() == 0 {
                        None
                    } else {
                        Some(acc.drop_last())
                    }
                } else {
                    Some(acc.push(p))
                }
            },
        }
    }
}

/// Concatenation of components, each preceded by a `/`.
pub open spec fn spec_join_from(parts: Seq<Seq<char>>) -> Seq<char>
    decreases parts.len(),
{
    if parts.len() == 0 {
        Seq::<char>::empty()
    } else {
        spec_join_from(parts.drop_last()) + "/"@ + parts.last()
    }
}

/// The absolute path spelled by a component list; the empty list is the root.
pub open spec fn spec_join_abs(parts: Seq<Seq<char>>) -> Seq<char> {
    if parts.len() == 0 {
        "/"@
    } else {
        spec_join_from(parts)
    }
}

/// Whether `s` begins with the home-directory shorthand `~/`.
pub open spec fn has_home_prefix(s: Seq<char>) -> bool {
    s.len() >= 2 && s[0] == '~' && s[1] == '/'
}

/// `s` with the home shorthand substituted by the home directory.
pub open spec fn spec_expand_home(s: Seq<char>, home: Seq<char>) -> Seq<char> {
    home + "/"@ + s.skip(2)
}

/// Whether `s` is an absolute path.
pub open spec fn is_abs_path(s: Seq<char>) -> bool {
    s.len() > 0 && s[0] == '/'
}

/// The segments resolution folds over: a relative path is anchored at the
/// working directory's segments.
pub open spec fn spec_input_segments(s: Seq<char>, cwd: Seq<char>) -> Seq<Seq<char>> {
    if is_abs_path(s) {
        spec_split(s)
    } else {
        spec_split(cwd) + spec_split(s)
    }
}

/// Purely lexical resolution of a (home-expanded) path against a working
/// directory: split, normalize, rejoin. `None` when normalization pops above
/// the root. The filesystem is never consulted.
pub open spec fn spec_resolve(s: Seq<char>, cwd: Seq<char>) -> Option<Seq<char>> {
    match spec_normalize(spec_input_segments(s, cwd)) {
        None => None,
        Some(parts) => Some(spec_join_abs(parts)),
    }
}

/// Splits a string into its `/`-separated segments.
fn split_str(s: &str) -> (r: Vec<String>)
    ensures
        r.deep_view() == spec_split(s@),
{
    let n = s.unicode_len();
    let mut parts: Vec<String> = Vec::new();
    let mut cur = String::new();
    assert(parts.deep_view().push(cur@) =~= spec_split(s@.take(0)));
    for i in 0..n
        invariant
            n == s@.len(),
            parts.deep_view().push(cur@) =~= spec_split(s@.take(i as int)),
    {
        let ghost prev = parts.deep_view().push(cur@);
        proof {
            assert(s@.take(i + 1).drop_last() =~= s@.take(i as int));
            assert(s@.take(i + 1).last() == s@[i as int]);
        }
        let c = s.get_char(i);
        if c == '/' {
            parts.push(cur);
            cur = String::new();
            proof {
                assert(parts.deep_view() =~= prev);
                assert(parts.deep_view().push(cur@) =~= spec_split(s@.take(i + 1)));
            }
        } else {
            let piece = s.substring_char(i, i + 1);
            cur.append(piece);
            proof {
                assert(cur@ =~= prev.last().push(s@[i as int]));
                assert(parts.deep_view().push(cur@) =~= prev.update(
                    prev.len() - 1,
                    prev.last().push(s@[i as int]),
                ));
            }
        }
    }
    proof {
        assert(s@.take(n as int) =~= s@);
    }
    parts.push(cur);
    proof {
        assert(parts.deep_view() =~= spec_split(s@));
    }
    parts
}

/// Normalizes a segment list, dropping `.` and empty segments and resolving
/// `..`; `None` when a `..` pops above the root.
fn normalize_segments(segs: &Vec<String>) -> (r: Option<Vec<String>>)
    ensures
        match spec_normalize(segs.deep_view()) {
            None => r is None,
            Some(parts) => r matches Some(v) && v.deep_view() == parts,
        },
{
    let dot = String::from_str(".");
    let dotdot = String::from_str("..");
    let mut acc: Vec<String> = Vec::new();
    let n = segs.len();
    assert(acc.deep_view() =~= Seq::<Seq<char>>::empty());
    assert(segs.deep_view().take(0) =~= Seq::<Seq<char>>::empty());
    for i in 0..n
        invariant
            n == segs@.len(),
            dot@ == "."@,
            dotdot@ == ".."@,
            spec_normalize(segs.deep_view().take(i as int)) == Some(acc.deep_view()),
    {
        let ghost prefix = segs.deep_view().take(i as int);
        proof {
            assert(segs.deep_view().take(i + 1).drop_last() =~= prefix);
            assert(segs.deep_view().take(i + 1).last() == segs@[i as int]@);
        }
        let seg = &segs[i];
        if seg.as_str().is_empty() || *seg == dot {
            // dropped
        } else if *seg == dotdot {
            let popped = acc.pop();
            if popped.is_none() {
                proof {
                    assert(acc.deep_view().len() == 0);
                    assert(spec_normalize(segs.deep_view().take(i + 1)) is None);
                    lemma_normalize_none_extends(segs.deep_view(), i + 1);
                }
                return None;
            }
            proof {
                assert(acc.deep_view() =~= spec_normalize(prefix).unwrap().drop_last());
            }
        } else {
            let copy = seg.clone();
            acc.push(copy);
            proof {
                assert(acc.deep_view() =~= spec_normalize(prefix).unwrap().push(
                    segs@[i as int]@,
                ));
            }
        }
    }
    proof {
        assert(segs.deep_view().take(n as int) =~= segs.deep_view());
    }
    Some(acc)
}

/// Once normalization has failed on a prefix, it fails on the whole list.
proof fn lemma_normalize_none_extends(parts: Seq<Seq<char>>, i: int)
    requires
        0 <= i <= parts.len(),
        spec_normalize(parts.take(i)) is None,
    ensures
        spec_normalize(parts) is None,
    decreases parts.len() - i,
{
    if i < parts.len() {
        assert(parts.take(i + 1).drop_last() =~= parts.take(i));
        lemma_normalize_none_extends(parts, i + 1);
    } else {
        assert(parts.take(i) =~= parts);
    }
}

/// Spells the absolute path of a normalized component list.
fn join_segments_abs(segs: &Vec<String>) -> (r: String)
    ensures
        r@ == spec_join_abs(segs.deep_view()),
{
    let n = segs.len();
    if n == 0 {
        return String::from_str("/");
    }
    let mut out = String::new();
    assert(out@ =~= spec_join_from(segs.deep_view().take(0)));
    for i in 0..n
        invariant
            n == segs@.len(),
            out@ == spec_join_from(segs.deep_view().take(i as int)),
    {
        proof {
            assert(segs.deep_view().take(i + 1).drop_last() =~= segs.deep_view().take(i as int));
            assert(segs.deep_view().take(i + 1).last() == segs@[i as int]@);
        }
        out.append("/");
        out.append(segs[i].as_str());
    }
    proof {
        assert(segs.deep_view().take(n as int) =~= segs.deep_view());
    }
    out
}

/// Resolves a raw path to an absolute, normalized one, purely lexically: the
/// home shorthand is expanded (the home directory must be known then), a
/// relative path is anchored at `cwd`, `.` and empty segments are dropped and
/// `..` pops a component. The path need not exist; popping above the root is
/// an `InvalidPath` error.
pub fn absolute_path(path: &str, home: Option<&str>, cwd: &str) -> (r: Result<String, Error>)
    ensures
        has_home_prefix(path@) && home is None ==> r matches Err(Error::Unexpected(_)),
        !(has_home_prefix(path@) && home is None) ==> ({
            let s = if has_home_prefix(path@) {
                spec_expand_home(path@, home.unwrap()@)
            } else {
                path@
            };
            match spec_resolve(s, cwd@) {
                None => r matches Err(Error::InvalidPath(p)) && p@ == path@,
                Some(q) => r matches Ok(out) && out@ == q,
            }
        }),
{
    let n = path.unicode_len();
    let tilde = n >= 2 && path.get_char(0) == '~' && path.get_char(1) == '/';
    let expanded: String = if tilde {
        let h = match home {
            None => {
                return Err(
                    Error::Unexpected(String::from_str("the HOME environment variable is not set")),
                );
            },
            Some(h) => h,
        };
        let mut e = String::from_str(h);
        e.append("/");
        let rest = path.substring_char(2, n);
        e.append(rest);
        proof {
            assert(rest@ =~= path@.skip(2));
        }
        e
    } else {
        String::from_str(path)
    };
    let abs = !expanded.as_str().is_empty() && expanded.as_str().get_char(0) == '/';
    let segs: Vec<String> = if abs {
        split_str(expanded.as_str())
    } else {
        let mut v = split_str(cwd);
        let mut more = split_str(expanded.as_str());
        v.append(&mut more);
        proof {
            assert(v.deep_view() =~= spec_split(cwd@) + spec_split(expanded@));
        }
        v
    };
    assert(segs.deep_view() == spec_input_segments(expanded@, cwd@));
    match normalize_segments(&segs) {
        None => Err(Error::InvalidPath(String::from_str(path))),
        Some(parts) => Ok(join_segments_abs(&parts)),
    }
}

/// The home shorthand of `path` replaced by `home`, as the canonicalizing
/// collaborator needs it; `None` when the home directory is unknown but the
/// shorthand is present.
pub fn expand_home(path: &str, home: Option<&str>) -> (r: Option<String>)
    ensures
        !has_home_prefix(path@) ==> (r matches Some(s) && s@ == path@),
        has_home_prefix(path@) ==> match home {
            None => r is None,
            Some(h) => (r matches Some(s) && s@ == spec_expand_home(path@, h@)),
        },
{
    let n = path.unicode_len();
    let tilde = n >= 2 && path.get_char(0) == '~' && path.get_char(1) == '/';
    if !tilde {
        return Some(String::from_str(path));
    }
    match home {
        None => None,
        Some(h) => {
            let mut e = String::from_str(h);
            e.append("/");
            let rest = path.substring_char(2, n);
            e.append(rest);
            proof {
                assert(rest@ =~= path@.skip(2));
            }
            Some(e)
        },
    }
}

// ---------------------------------------------------------------------------
// Selection validation
// ---------------------------------------------------------------------------

/// The first selected name that is not a key of the configuration, if any.
pub fn find_invalid_keys<'items>(items: &'items Vec<String>, dict: &Config) -> (r: Option<
    &'items String,
>)
    ensures
        r is None <==> (forall|i: int|
            0 <= i < items@.len() ==> dict.spec_has_item(items@[i]@)),
        r matches Some(k) ==> exists|i: int|
            0 <= i < items@.len() && items@[i]@ == k@ && !dict.spec_has_item(k@) && (forall|j: int|
                0 <= j < i ==> dict.spec_has_item(items@[j]@)),
{
    let n = items.len();
    for i in 0..n
        invariant
            n == items@.len(),
            forall|j: int| 0 <= j < i ==> dict.spec_has_item(items@[j]@),
    {
        if dict.find_item(&items[i]).is_none() {
            return Some(&items[i]);
        }
    }
    None
}

// ---------------------------------------------------------------------------
// Joining path fragments
// ---------------------------------------------------------------------------

/// Concatenation of parts with a `/` between each two.
pub open spec fn spec_join_parts(parts: Seq<Seq<char>>) -> Seq<char>
    decreases parts.len(),
{
    if parts.len() == 0 {
        Seq::<char>::empty()
    } else if parts.len() == 1 {
        parts[0]
    } else {
        spec_join_parts(parts.drop_last()) + "/"@ + parts.last()
    }
}

/// Joins path fragments with `/` separators.
pub fn join_parts(parts: &Vec<String>) -> (r: String)
    ensures
        r@ == spec_join_parts(parts.deep_view()),
{
    let n = parts.len();
    if n == 0 {
        return String::new();
    }
    let mut out = parts[0].clone();
    assert(out@ =~= spec_join_parts(parts.deep_view().take(1)));
    for i in 1..n
        invariant
            n == parts@.len(),
            out@ == spec_join_parts(parts.deep_view().take(i as int)),
    {
        proof {
            assert(parts.deep_view().take(i + 1).drop_last() =~= parts.deep_view().take(i as int));
            assert(parts.deep_view().take(i + 1).last() == parts@[i as int]@);
        }
        out.append("/");
        out.append(parts[i].as_str());
    }
    proof {
        assert(parts.deep_view().take(n as int) =~= parts.deep_view());
    }
    out
}

// ---------------------------------------------------------------------------
// Laws of lexical resolution
// ---------------------------------------------------------------------------

/// A plain path component: nonempty, not a dot segment, and free of
/// separators.
pub open spec fn is_plain_seg(p: Seq<char>) -> bool {
    &&& p.len() > 0
    &&& p != "."@
    &&& p != ".."@
    &&& forall|i: int| 0 <= i < p.len() ==> p[i] != '/'
}

pub open spec fn all_plain(parts: Seq<Seq<char>>) -> bool {
    forall|i: int| 0 <= i < parts.len() ==> is_plain_seg(#[trigger] parts[i])
}

/// Splitting distributes over appending `/` and a separator-free segment.
proof fn lemma_split_append_seg(x: Seq<char>, y: Seq<char>)
    requires
        forall|i: int| 0 <= i < y.len() ==> y[i] != '/',
    ensures
        spec_split(x + seq!['/'] + y) == spec_split(x).push(y),
    decreases y.len(),
{
    lemma_split_len(x);
    if y.len() == 0 {
        let s = x + seq!['/'] + y;
        assert(s =~= x.push('/'));
        assert(s.drop_last() =~= x);
        assert(y =~= Seq::<char>::empty());
        assert(spec_split(s) =~= spec_split(x).push(y));
    } else {
        let y0 = y.drop_last();
        let c = y.last();
        let s = x + seq!['/'] + y;
        assert(s.drop_last() =~= x + seq!['/'] + y0);
        assert(s.last() == c);
        lemma_split_append_seg(x, y0);
        let init = spec_split(x).push(y0);
        assert(init.last() == y0);
        assert(init.update(init.len() - 1, y0.push(c)) =~= spec_split(x).push(y0.push(c)));
        assert(y0.push(c) =~= y);
    }
}

/// A separator-free string splits into itself alone.
proof fn lemma_split_plain(y: Seq<char>)
    requires
        forall|i: int| 0 <= i < y.len() ==> y[i] != '/',
    ensures
        spec_split(y) == seq![y],
    decreases y.len(),
{
    if y.len() == 0 {
        assert(y =~= Seq::<char>::empty());
        assert(spec_split(y) =~= seq![y]);
    } else {
        lemma_split_plain(y.drop_last());
        assert(spec_split(y.drop_last()) == seq![y.drop_last()]);
        assert(y.drop_last().push(y.last()) =~= y);
        assert(seq![y.drop_last()].update(0, y.drop_last().push(y.last())) =~= seq![y]);
    }
}

/// Splitting the absolute spelling of separator-free components recovers
/// them, after the leading empty segment of the leading `/`.
proof fn lemma_split_join_from(parts: Seq<Seq<char>>)
    requires
        forall|i: int, j: int|
            0 <= i < parts.len() && 0 <= j < parts[i].len() ==> parts[i][j] != '/',
    ensures
        spec_split(spec_join_from(parts)) == seq![Seq::<char>::empty()] + parts,
    decreases parts.len(),
{
    reveal_strlit("/");
    if parts.len() == 0 {
        assert(spec_split(spec_join_from(parts)) =~= seq![Seq::<char>::empty()] + parts);
    } else {
        let q = parts.drop_last();
        let p = parts.last();
        lemma_split_join_from(q);
        assert("/"@ =~= seq!['/']);
        assert(spec_join_from(parts) =~= spec_join_from(q) + seq!['/'] + p);
        lemma_split_append_seg(spec_join_from(q), p);
        assert((seq![Seq::<char>::empty()] + q).push(p) =~= seq![Seq::<char>::empty()] + parts);
    }
}

/// Plain components pass through normalization untouched; the leading empty
/// segment is dropped.
proof fn lemma_normalize_plain(parts: Seq<Seq<char>>)
    requires
        all_plain(parts),
    ensures
        spec_normalize(seq![Seq::<char>::empty()] + parts) == Some(parts),
    decreases parts.len(),
{
    let l = seq![Seq::<char>::empty()] + parts;
    if parts.len() == 0 {
        assert(l.drop_last() =~= Seq::<Seq<char>>::empty());
        assert(l.last().len() == 0);
        assert(spec_normalize(Seq::<Seq<char>>::empty()) == Some(Seq::<Seq<char>>::empty()));
        assert(spec_normalize(l) == Some(Seq::<Seq<char>>::empty()));
        assert(Seq::<Seq<char>>::empty() =~= parts);
    } else {
        let q = parts.drop_last();
        let p = parts.last();
        assert(is_plain_seg(p));
        lemma_normalize_plain(q);
        assert(l.drop_last() =~= seq![Seq::<char>::empty()] + q);
        assert(l.last() == p);
        assert(spec_normalize(l) == Some(q.push(p)));
        assert(q.push(p) =~= parts);
    }
}

/// Law: resolution is idempotent. A path that is already absolute and
/// normalized -- the absolute spelling of plain components -- resolves to
/// itself, whatever the working directory.
pub proof fn lemma_resolve_idempotent(parts: Seq<Seq<char>>, cwd: Seq<char>)
    requires
        all_plain(parts),
    ensures
        spec_resolve(spec_join_abs(parts), cwd) == Some(spec_join_abs(parts)),
{
    reveal_strlit("/");
    assert("/"@ =~= seq!['/']);
    if parts.len() == 0 {
        let p = spec_join_abs(parts);
        assert(p =~= seq!['/']);
        assert(is_abs_path(p));
        let e = Seq::<char>::empty();
        assert(p.drop_last() =~= e);
        assert(spec_split(e) == seq![e]);
        assert(spec_split(p) == seq![e].push(e));
        assert(seq![e].push(e) =~= seq![e, e]);
        let l1 = seq![e, e];
        assert(l1.drop_last() =~= seq![e]);
        assert(seq![e].drop_last() =~= Seq::<Seq<char>>::empty());
        assert(spec_normalize(Seq::<Seq<char>>::empty()) == Some(Seq::<Seq<char>>::empty()));
        assert(spec_normalize(seq![e]) == Some(Seq::<Seq<char>>::empty()));
        assert(spec_normalize(l1) == Some(Seq::<Seq<char>>::empty()));
        assert(spec_resolve(p, cwd) == Some(spec_join_abs(Seq::<Seq<char>>::empty())));
    } else {
        let p = spec_join_abs(parts);
        lemma_join_from_head(parts);
        assert(is_abs_path(p));
        lemma_split_join_from(parts);
        lemma_normalize_plain(parts);
        assert(spec_resolve(p, cwd) == Some(spec_join_abs(parts)));
    }
}

/// A nonempty absolute spelling starts with `/`.
proof fn lemma_join_from_head(parts: Seq<Seq<char>>)
    requires
        parts.len() > 0,
    ensures
        spec_join_from(parts).len() > 0,
        spec_join_from(parts)[0] == '/',
    decreases parts.len(),
{
    reveal_strlit("/");
    assert("/"@ =~= seq!['/']);
    if parts.len() == 1 {
        assert(spec_join_from(parts.drop_last()).len() == 0);
    } else {
        lemma_join_from_head(parts.drop_last());
    }
}

/// Normalization looks only at what was already folded: lists with equal
/// normalizations stay equal under a common suffix.
proof fn lemma_normalize_append(a: Seq<Seq<char>>, b: Seq<Seq<char>>, c: Seq<Seq<char>>)
    requires
        spec_normalize(a) == spec_normalize(b),
    ensures
        spec_normalize(a + c) == spec_normalize(b + c),
    decreases c.len(),
{
    if c.len() == 0 {
        assert(a + c =~= a);
        assert(b + c =~= b);
    } else {
        let c0 = c.drop_last();
        lemma_normalize_append(a, b, c0);
        assert((a + c).drop_last() =~= a + c0);
        assert((b + c).drop_last() =~= b + c0);
        assert((a + c).last() == c.last());
        assert((b + c).last() == c.last());
    }
}

/// A plain segment followed by `..` cancels out of normalization.
proof fn lemma_normalize_pop(ps: Seq<Seq<char>>, x: Seq<char>)
    requires
        is_plain_seg(x),
    ensures
        spec_normalize(ps + seq![x, ".."@]) == spec_normalize(ps),
{
    reveal_strlit(".");
    reveal_strlit("..");
    let l = ps + seq![x, ".."@];
    assert(l.drop_last() =~= ps.push(x));
    assert(ps.push(x).drop_last() =~= ps);
    assert(l.last() == ".."@);
    assert(ps.push(x).last() == x);
    assert(".."@.len() == 2);
    assert(".."@ != "."@);
    match spec_normalize(ps) {
        None => {
            assert(spec_normalize(ps.push(x)) is None);
        },
        Some(acc) => {
            assert(spec_normalize(ps.push(x)) == Some(acc.push(x)));
            assert(acc.push(x).drop_last() =~= acc);
        },
    }
}

/// Law: a `..` segment undoes the plain segment before it: `a/b/../c`
/// resolves exactly as `a/c` does, for any plain segments and working
/// directory.
pub proof fn lemma_resolve_parent_collapse(
    a: Seq<char>,
    b: Seq<char>,
    c: Seq<char>,
    cwd: Seq<char>,
)
    requires
        is_plain_seg(a),
        is_plain_seg(b),
        is_plain_seg(c),
    ensures
        spec_resolve(a + seq!['/'] + b + seq!['/'] + ".."@ + seq!['/'] + c, cwd) == spec_resolve(
            a + seq!['/'] + c,
            cwd,
        ),
{
    reveal_strlit(".");
    reveal_strlit("..");
    let dd = ".."@;
    let s1 = a + seq!['/'] + b + seq!['/'] + dd + seq!['/'] + c;
    let s2 = a + seq!['/'] + c;
    assert(s1[0] == a[0]);
    assert(s2[0] == a[0]);
    assert(!is_abs_path(s1));
    assert(!is_abs_path(s2));
    lemma_split_plain(a);
    lemma_split_append_seg(a, b);
    assert(spec_split(a + seq!['/'] + b) == seq![a].push(b));
    lemma_split_append_seg(a + seq!['/'] + b, dd);
    assert(a + seq!['/'] + b + seq!['/'] + dd =~= (a + seq!['/'] + b) + seq!['/'] + dd);
    lemma_split_append_seg(a + seq!['/'] + b + seq!['/'] + dd, c);
    assert(s1 =~= (a + seq!['/'] + b + seq!['/'] + dd) + seq!['/'] + c);
    assert(spec_split(s1) =~= seq![a, b, dd, c]);
    lemma_split_append_seg(a, c);
    assert(spec_split(s2) =~= seq![a, c]);
    let x = spec_split(cwd);
    lemma_normalize_pop(x + seq![a], b);
    assert((x + seq![a]) + seq![b, dd] =~= x + seq![a, b, dd]);
    lemma_normalize_append(x + seq![a, b, dd], x + seq![a], seq![c]);
    assert((x + seq![a, b, dd]) + seq![c] =~= x + seq![a, b, dd, c]);
    assert((x + seq![a]) + seq![c] =~= x + seq![a, c]);
    assert(x + spec_split(s1) =~= x + seq![a, b, dd, c]);
    assert(x + spec_split(s2) =~= x + seq![a, c]);
    assert(spec_normalize(spec_input_segments(s1, cwd)) == spec_normalize(
        spec_input_segments(s2, cwd),
    ));
}

/// Law: resolving one `..` above the root fails. Whenever normalization has
/// consumed everything down to the root, one more `..` is an error.
pub proof fn lemma_resolve_above_root(parts: Seq<Seq<char>>)
    requires
        spec_normalize(parts) == Some(Seq::<Seq<char>>::empty()),
    ensures
        spec_normalize(parts.push(".."@)) is None,
{
    reveal_strlit(".");
    reveal_strlit("..");
    assert(parts.push(".."@).drop_last() =~= parts);
    assert(".."@.len() == 2);
    assert(".."@ != "."@);
}


} // verus!
