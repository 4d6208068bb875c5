//! Paths as the file panels show them: a list of path components turned
//! into a display path and back, joining a name to a directory, the last
//! component of a path, and the start directory below a filesystem root.
use vstd::prelude::*;
use crate::text::{
    chars_of, string_from_chars, extend_chars, extend_str, ends_with, starts_with, has_prefix,
    has_suffix, split_on, split_chars, lemma_split_nonempty, trim_end_char, trim_end_chars,
};

verus! {

/// `c` separates path components (`/` or `\`).
pub open spec fn is_sep(c: char) -> bool {
    c == '/' || c == '\\'
}

/// The display path of a list of components: `/` for none; a first
/// component ending in `:` (a drive) is followed by `/`, any other is
/// preceded by `/`; each later component is added after a `/` unless the
/// path already ends in `/` or `\`.
pub open spec fn path_string(parts: Seq<Seq<char>>) -> Seq<char>
    decreases parts.len(),
{
    if parts.len() == 0 {
        "/"@
    } else if parts.len() == 1 {
        if ends_with(parts[0], ":"@) { parts[0] + "/"@ } else { "/"@ + parts[0] }
    } else {
        let prev = path_string(parts.drop_last());
        if ends_with(prev, "/"@) || ends_with(prev, "\\"@) {
            prev + parts.last()
        } else {
            prev + "/"@ + parts.last()
        }
    }
}

/// The text of each string of a slice.
pub open spec fn strings_view(v: Seq<String>) -> Seq<Seq<char>> {
    v.map_values(|s: String| s@)
}

/// The display path of a list of components.
pub fn build_path_string(parts: &[String]) -> (res: String)
    ensures
        res@ == path_string(strings_view(parts@)),
{
    let ghost ps = strings_view(parts@);
    if parts.len() == 0 {
        return "/".to_owned();
    }
    proof {
        reveal_strlit("/");
        reveal_strlit("\\");
        reveal_strlit(":");
    }
    let slash = chars_of("/");
    let backslash = chars_of("\\");
    let colon = chars_of(":");
    let first = chars_of(parts[0].as_str());
    let mut out: Vec<char> = Vec::new();
    if has_suffix(first.as_slice(), colon.as_slice()) {
        extend_chars(&mut out, first.as_slice());
        extend_chars(&mut out, slash.as_slice());
    } else {
        extend_chars(&mut out, slash.as_slice());
        extend_chars(&mut out, first.as_slice());
    }
    assert(ps.take(1).drop_last() =~= Seq::<Seq<char>>::empty());
    assert(out@ == path_string(ps.take(1)));
    let mut i: usize = 1;
    while i < parts.len()
        invariant
            1 <= i <= parts.len(),
            ps == strings_view(parts@),
            slash@ == "/"@,
            backslash@ == "\\"@,
            out@ == path_string(ps.take(i as int)),
        decreases parts.len() - i,
    {
        let p = chars_of(parts[i].as_str());
        if !has_suffix(out.as_slice(), slash.as_slice()) && !has_suffix(out.as_slice(), backslash.as_slice()) {
            extend_chars(&mut out, slash.as_slice());
        }
        extend_chars(&mut out, p.as_slice());
        assert(ps.take(i + 1).drop_last() =~= ps.take(i as int));
        i += 1;
    }
    assert(ps.take(parts@.len() as int) =~= ps);
    string_from_chars(out.as_slice())
}

/// The components of a path: the non-empty pieces between `/` and `\`.
pub open spec fn path_parts(s: Seq<char>) -> Seq<Seq<char>>
    decreases s.len(),
{
    if s.len() == 0 {
        Seq::empty()
    } else {
        let prev = path_parts(s.drop_last());
        let c = s.last();
        if is_sep(c) {
            prev
        } else if s.len() >= 2 && !is_sep(s[s.len() - 2]) && prev.len() > 0 {
            prev.update(prev.len() - 1, prev.last().push(c))
        } else {
            prev.push(seq![c])
        }
    }
}

/// Splits a path into its components.
pub fn split_path(path: &str) -> (res: Vec<String>)
    ensures
        strings_view(res@) == path_parts(path@),
{
    let cs = chars_of(path);
    let mut parts: Vec<String> = Vec::new();
    let mut cur: Vec<char> = Vec::new();
    let mut i: usize = 0;
    assert(cs@.take(0) =~= Seq::<char>::empty());
    while i < cs.len()
        invariant
            i <= cs.len(),
            cs@ == path@,
            cur@.len() == 0 ==> strings_view(parts@) == path_parts(cs@.take(i as int)),
            cur@.len() > 0 ==> strings_view(parts@).push(cur@) == path_parts(cs@.take(i as int)),
            cur@.len() > 0 ==> i > 0 && !is_sep(cs@[i - 1]),
            cur@.len() == 0 ==> (i == 0 || is_sep(cs@[i - 1])),
        decreases cs.len() - i,
    {
        let c = cs[i];
        let ghost prefix = cs@.take(i + 1);
        assert(prefix.drop_last() =~= cs@.take(i as int));
        if c == '/' || c == '\\' {
            if cur.len() > 0 {
                let piece = string_from_chars(cur.as_slice());
                let ghost before = strings_view(parts@);
                parts.push(piece);
                assert(strings_view(parts@) =~= before.push(cur@));
                cur = Vec::new();
            }
        } else {
            let ghost before = cur@;
            cur.push(c);
            proof {
                if before.len() > 0 {
                    assert(cur@ == before.push(c));
                    let pv = strings_view(parts@);
                    assert(path_parts(prefix) =~= pv.push(before).update(pv.len() as int, before.push(c)));
                    assert(pv.push(before).update(pv.len() as int, before.push(c)) =~= pv.push(cur@));
                } else {
                    assert(cur@ =~= seq![c]);
                }
            }
        }
        i += 1;
    }
    assert(cs@.take(cs@.len() as int) =~= cs@);
    if cur.len() > 0 {
        let piece = string_from_chars(cur.as_slice());
        let ghost before = strings_view(parts@);
        parts.push(piece);
        assert(strings_view(parts@) =~= before.push(cur@));
    }
    parts
}

/// A component that can stand in a path as it is: not empty, and without
/// `/` or `\`.
pub open spec fn plain_component(p: Seq<char>) -> bool {
    p.len() > 0 && forall|k: int| 0 <= k < p.len() ==> !is_sep(#[trigger] p[k])
}

/// Splitting the display path of plain components gives the components
/// back.
pub proof fn lemma_split_build_round_trip(parts: Seq<Seq<char>>)
    requires
        forall|k: int| 0 <= k < parts.len() ==> plain_component(#[trigger] parts[k]),
    ensures
        path_parts(path_string(parts)) == parts,
    decreases parts.len(),
{
    reveal_strlit("/");
    reveal_strlit("\\");
    reveal_strlit(":");
    if parts.len() == 0 {
        lemma_parts_of_separators("/"@);
    } else if parts.len() == 1 {
        let p = parts[0];
        if ends_with(p, ":"@) {
            lemma_parts_append_plain(Seq::empty(), p);
            lemma_parts_append_seps(p, "/"@);
            assert(path_parts(p) =~= seq![p]);
            assert(seq![p] =~= parts);
        } else {
            lemma_parts_of_separators("/"@);
            lemma_parts_append_plain("/"@, p);
            assert(parts =~= Seq::<Seq<char>>::empty().push(p));
        }
    } else {
        let prev = path_string(parts.drop_last());
        assert forall|k: int| 0 <= k < parts.drop_last().len() implies plain_component(#[trigger] parts.drop_last()[k]) by {
            assert(parts.drop_last()[k] == parts[k]);
        }
        lemma_split_build_round_trip(parts.drop_last());
        lemma_path_string_nonempty(parts.drop_last());
        let last = parts.last();
        assert(plain_component(last));
        if ends_with(prev, "/"@) || ends_with(prev, "\\"@) {
            assert(is_sep(prev.last())) by {
                assert(prev.skip(prev.len() - 1)[0] == prev.last());
            }
            lemma_parts_append_plain(prev, last);
        } else {
            lemma_parts_append_seps(prev, "/"@);
            lemma_parts_append_plain(prev + "/"@, last);
            assert(prev + "/"@ + last == (prev + "/"@) + last);
        }
        assert(parts.drop_last().push(last) =~= parts);
    }
}

/// A display path is never empty.
proof fn lemma_path_string_nonempty(parts: Seq<Seq<char>>)
    ensures
        path_string(parts).len() > 0,
    decreases parts.len(),
{
    reveal_strlit("/");
    if parts.len() > 1 {
        lemma_path_string_nonempty(parts.drop_last());
    }
}

/// A string of separators has no components.
proof fn lemma_parts_of_separators(s: Seq<char>)
    requires
        forall|k: int| 0 <= k < s.len() ==> is_sep(#[trigger] s[k]),
    ensures
        path_parts(s) == Seq::<Seq<char>>::empty(),
    decreases s.len(),
{
    if s.len() > 0 {
        lemma_parts_of_separators(s.drop_last());
    }
}

/// Separators appended to a path add no component.
proof fn lemma_parts_append_seps(s: Seq<char>, t: Seq<char>)
    requires
        forall|k: int| 0 <= k < t.len() ==> is_sep(#[trigger] t[k]),
    ensures
        path_parts(s + t) == path_parts(s),
    decreases t.len(),
{
    if t.len() > 0 {
        lemma_parts_append_seps(s, t.drop_last());
        assert((s + t).drop_last() =~= s + t.drop_last());
    } else {
        assert(s + t =~= s);
    }
}

/// A plain component appended after a separator (or at the start) becomes
/// one more component.
proof fn lemma_parts_append_plain(s: Seq<char>, p: Seq<char>)
    requires
        plain_component(p),
        s.len() == 0 || is_sep(s.last()),
    ensures
        path_parts(s + p) == path_parts(s).push(p),
    decreases p.len(),
{
    if p.len() == 1 {
        assert((s + p).drop_last() =~= s);
        assert(seq![p[0]] =~= p);
    } else {
        let q = p.drop_last();
        assert forall|k: int| 0 <= k < q.len() implies !is_sep(#[trigger] q[k]) by {
            assert(q[k] == p[k]);
        }
        lemma_parts_append_plain(s, q);
        assert((s + p).drop_last() =~= s + q);
        let n = (s + p).len();
        assert((s + p)[n - 2] == q.last());
        assert(path_parts(s).push(q).update(path_parts(s).len() as int, q.push(p.last())) =~= path_parts(s).push(p)) by {
            assert(q.push(p.last()) =~= p);
        }
    }
}

/// `name` inside directory `cwd`: joined with a `/` unless `cwd` already
/// ends in one.
pub open spec fn join_spec(cwd: Seq<char>, name: Seq<char>) -> Seq<char> {
    if ends_with(cwd, "/"@) { cwd + name } else { cwd + "/"@ + name }
}

/// Joins a name to a directory path.
pub fn join(cwd: &str, name: &str) -> (res: String)
    ensures
        res@ == join_spec(cwd@, name@),
{
    let c = chars_of(cwd);
    let slash = chars_of("/");
    let mut out = chars_of(cwd);
    if !has_suffix(c.as_slice(), slash.as_slice()) {
        extend_chars(&mut out, slash.as_slice());
    }
    extend_str(&mut out, name);
    string_from_chars(out.as_slice())
}

/// The last `/`-separated piece of a path.
pub open spec fn basename_spec(path: Seq<char>) -> Seq<char> {
    split_on(path, '/').last()
}

/// The last component of a path (everything after its last `/`).
pub fn basename(path: &str) -> (res: String)
    ensures
        res@ == basename_spec(path@),
{
    let cs = chars_of(path);
    let pieces = split_chars(cs.as_slice(), '/');
    proof { lemma_split_nonempty(cs@, '/'); }
    let last = pieces.len() - 1;
    string_from_chars(pieces[last].as_slice())
}

/// A directory path with a trailing `/`, ready to have a name appended.
pub open spec fn with_trailing_slash(p: Seq<char>) -> Seq<char> {
    if ends_with(p, "/"@) { p } else { p + "/"@ }
}

/// The part of a path after its last `/` or `\`.
pub open spec fn after_last_sep(s: Seq<char>) -> Seq<char>
    decreases s.len(),
{
    if s.len() == 0 {
        s
    } else if is_sep(s.last()) {
        Seq::empty()
    } else {
        after_last_sep(s.drop_last()).push(s.last())
    }
}

/// The title of a file opened in the viewer: the part of its path after
/// the last `/` or `\`, or the whole path when that part is empty.
pub open spec fn viewer_title_spec(path: Seq<char>) -> Seq<char> {
    if after_last_sep(path).len() > 0 { after_last_sep(path) } else { path }
}

/// The part of a path after its last `/` or `\`.
pub fn after_last_sep_chars(cs: &[char]) -> (res: Vec<char>)
    ensures
        res@ == after_last_sep(cs@),
{
    let mut tail: Vec<char> = Vec::new();
    let mut i: usize = 0;
    while i < cs.len()
        invariant
            i <= cs@.len(),
            tail@ == after_last_sep(cs@.take(i as int)),
        decreases cs.len() - i,
    {
        assert(cs@.take(i + 1).drop_last() =~= cs@.take(i as int));
        assert(cs@.take(i + 1).last() == cs@[i as int]);
        if cs[i] == '/' || cs[i] == '\\' {
            tail = Vec::new();
        } else {
            tail.push(cs[i]);
        }
        i += 1;
    }
    assert(cs@.take(cs@.len() as int) =~= cs@);
    tail
}

/// The title of a file opened in the viewer.
pub fn viewer_title(path: &str) -> (res: String)
    ensures
        res@ == viewer_title_spec(path@),
{
    let cs = chars_of(path);
    let tail = after_last_sep_chars(cs.as_slice());
    if tail.len() > 0 { string_from_chars(tail.as_slice()) } else { path.to_owned() }
}

/// Adds a trailing `/` to a directory path that lacks one.
pub fn dir_prefix(p: &str) -> (res: String)
    ensures
        res@ == with_trailing_slash(p@),
{
    let c = chars_of(p);
    let slash = chars_of("/");
    if has_suffix(c.as_slice(), slash.as_slice()) {
        p.to_owned()
    } else {
        let mut out = chars_of(p);
        extend_chars(&mut out, slash.as_slice());
        string_from_chars(out.as_slice())
    }
}

/// A registry key path without trailing slashes; the root stays `/`.
pub open spec fn normalize_key_path(p: Seq<char>) -> Seq<char> {
    if p == "/"@ { p } else { trim_end_char(p, '/') }
}

/// Normalizes a registry key path.
pub fn normalize_path(p: &str) -> (res: String)
    ensures
        res@ == normalize_key_path(p@),
{
    let c = chars_of(p);
    let root = chars_of("/");
    if crate::text::chars_eq(c.as_slice(), root.as_slice()) {
        return p.to_owned();
    }
    let t = trim_end_chars(c.as_slice(), '/');
    string_from_chars(t.as_slice())
}

/// `s` without its leading separators.
pub open spec fn trim_leading_seps(s: Seq<char>) -> Seq<char>
    decreases s.len(),
{
    if s.len() > 0 && is_sep(s[0]) { trim_leading_seps(s.drop_first()) } else { s }
}

/// `s` with every `\` turned into `/`.
pub open spec fn forward_slashes(s: Seq<char>) -> Seq<char> {
    s.map_values(|c: char| if c == '\\' { '/' } else { c })
}

/// The start directory of the local panel: the home directory below the
/// filesystem root, as a `/`-separated path that starts with `/`.
pub open spec fn start_path_spec(home: Seq<char>, root: Seq<char>) -> Seq<char> {
    let rel = if starts_with(home, root) { home.skip(root.len() as int) } else { home };
    "/"@ + forward_slashes(trim_leading_seps(rel))
}

/// The start directory of the local panel for a home directory and the
/// root of its filesystem.
pub fn start_path(home: &str, root: &str) -> (res: String)
    ensures
        res@ == start_path_spec(home@, root@),
{
    let h = chars_of(home);
    let r = chars_of(root);
    let mut i: usize = if has_prefix(h.as_slice(), r.as_slice()) { r.len() } else { 0 };
    let ghost rel = if starts_with(h@, r@) { h@.skip(r@.len() as int) } else { h@ };
    assert(h@.skip(i as int) =~= rel);
    while i < h.len() && (h[i] == '/' || h[i] == '\\')
        invariant
            i <= h.len(),
            trim_leading_seps(h@.skip(i as int)) == trim_leading_seps(rel),
        decreases h.len() - i,
    {
        assert(h@.skip(i as int).drop_first() =~= h@.skip(i + 1));
        i += 1;
    }
    let mut out = chars_of("/");
    let ghost head = out@;
    let ghost start = i as int;
    assert(trim_leading_seps(h@.skip(i as int)) == h@.skip(i as int));
    while i < h.len()
        invariant
            0 <= start <= i <= h.len(),
            out@ == head + forward_slashes(h@.subrange(start, i as int)),
        decreases h.len() - i,
    {
        let c = if h[i] == '\\' { '/' } else { h[i] };
        out.push(c);
        assert(forward_slashes(h@.subrange(start, i + 1)) =~= forward_slashes(h@.subrange(start, i as int)).push(c));
        i += 1;
    }
    assert(h@.subrange(start, h@.len() as int) =~= h@.skip(start));
    proof { reveal_strlit("/"); }
    string_from_chars(out.as_slice())
}

} // verus!
