//! Paths of the dotfiles: joining, home expansion and template rendering.

use vstd::prelude::*;
use crate::text::{
    lemma_replace_all_absent, occurs_at, push_range, push_replaced, replace_all, to_chars,
};

verus! {

/// `Path::join` on Unix: an absolute `rel` replaces `base`; otherwise `rel`
/// follows `base`, with a `/` between them unless `base` is empty or already
/// ends with one.
pub open spec fn path_join(base: Seq<char>, rel: Seq<char>) -> Seq<char> {
    if rel.len() > 0 && rel[0] == '/' {
        rel
    } else if base.len() > 0 && base.last() != '/' {
        base + seq!['/'] + rel
    } else {
        base + rel
    }
}

/// Joins `rel` onto `base` as `Path::join` does on Unix.
pub fn join_path(base: &str, rel: &str) -> (r: String)
    ensures
        r@ == path_join(base@, rel@),
{
    let b = to_chars(base);
    let r = to_chars(rel);
    let mut out = String::new();
    if r.len() > 0 && r[0] == '/' {
        push_range(&mut out, &r, 0, r.len());
        assert(out@ =~= path_join(base@, rel@));
        return out;
    }
    push_range(&mut out, &b, 0, b.len());
    if b.len() > 0 && b[b.len() - 1] != '/' {
        out.append("/");
        proof {
            reveal_strlit("/");
        }
    }
    push_range(&mut out, &r, 0, r.len());
    assert(out@ =~= path_join(base@, rel@));
    out
}

/// `s` without its leading `~/` prefixes, as `trim_start_matches("~/")`.
pub open spec fn strip_home_prefix(s: Seq<char>) -> Seq<char>
    decreases s.len(),
{
    if s.len() >= 2 && s[0] == '~' && s[1] == '/' {
        strip_home_prefix(s.skip(2))
    } else {
        s
    }
}

/// The path is `~` or starts with `~/`.
pub open spec fn names_home(path: Seq<char>) -> bool {
    path == seq!['~'] || (path.len() >= 2 && path[0] == '~' && path[1] == '/')
}

/// A dotfile target with a leading `~` resolved against the home directory:
/// `~` and `~/...` are joined onto `home`, after every leading `~/` is
/// removed; any other path stays as it is.
pub open spec fn spec_expand_home(path: Seq<char>, home: Option<Seq<char>>) -> Result<
    Seq<char>,
    Seq<char>,
> {
    if names_home(path) {
        match home {
            Some(h) => Ok(path_join(h, strip_home_prefix(path))),
            None => Err("HOME is not set"@),
        }
    } else {
        Ok(path)
    }
}

/// The characters of an optional string.
pub open spec fn opt_view(o: Option<&str>) -> Option<Seq<char>> {
    match o {
        Some(s) => Some(s@),
        None => None,
    }
}

/// Expands a leading `~` of `path` to `home`, the user's home directory
/// where it is known.
///
/// # Errors
///
/// `HOME is not set` when `path` names the home directory and `home` is
/// `None`.
pub fn expand_home(path: &str, home: Option<&str>) -> (r: Result<String, String>)
    ensures
        match spec_expand_home(path@, opt_view(home)) {
            Ok(p) => r is Ok && r->Ok_0@ == p,
            Err(e) => r is Err && r->Err_0@ == e,
        },
{
    let cs = to_chars(path);
    let n = cs.len();
    let is_home = (n == 1 && cs[0] == '~') || (n >= 2 && cs[0] == '~' && cs[1] == '/');
    assert(is_home == names_home(path@)) by {
        if n == 1 && cs@[0] == '~' {
            assert(path@ =~= seq!['~']);
        }
    }
    if !is_home {
        return Ok(path.to_owned());
    }
    let h = match home {
        Some(h) => h,
        None => return Err("HOME is not set".to_owned()),
    };
    let mut i: usize = 0;
    assert(cs@.skip(0) =~= cs@);
    while n - i >= 2 && cs[i] == '~' && cs[i + 1] == '/'
        invariant
            n == cs.len(),
            i <= n,
            strip_home_prefix(cs@) == strip_home_prefix(cs@.skip(i as int)),
        decreases n - i,
    {
        assert(cs@.skip(i as int).skip(2) =~= cs@.skip(i + 2));
        i += 2;
    }
    let mut rest = String::new();
    push_range(&mut rest, &cs, i, n);
    assert(rest@ =~= cs@.skip(i as int));
    Ok(join_path(h, rest.as_str()))
}

/// The marker that a template holds where the home directory goes.
pub open spec fn home_marker() -> Seq<char> {
    seq!['{', '{', 'H', 'O', 'M', 'E', '}', '}']
}

/// Returns `content` with every `{{HOME}}` replaced by `home`.
pub fn render_template(content: &str, home: &str) -> (r: String)
    ensures
        r@ == replace_all(content@, home_marker(), home@),
{
    let cs = to_chars(content);
    let marker = vec!['{', '{', 'H', 'O', 'M', 'E', '}', '}'];
    assert(marker@ =~= home_marker());
    let mut out = String::new();
    push_replaced(&mut out, &cs, &marker, home);
    assert(out@ =~= replace_all(content@, home_marker(), home@));
    out
}

/// A template without the `{{HOME}}` marker is copied unchanged.
pub proof fn lemma_template_without_marker(content: Seq<char>, home: Seq<char>)
    requires
        forall|i: int| !occurs_at(content, home_marker(), i),
    ensures
        replace_all(content, home_marker(), home) == content,
{
    lemma_replace_all_absent(content, home_marker(), home);
}

/// A `~/` target lies under the home directory: with `home` known and not
/// ending in `/`, and the rest `r` of the target neither starting with
/// another `~/` nor absolute, the target is `home/r`; without a home
/// directory it is refused.
pub proof fn lemma_expand_home_under_home(home: Seq<char>, r: Seq<char>)
    requires
        home.len() > 0,
        home.last() != '/',
        !(r.len() >= 2 && r[0] == '~' && r[1] == '/'),
        !(r.len() > 0 && r[0] == '/'),
    ensures
        spec_expand_home(seq!['~', '/'] + r, Some(home)) == Ok::<Seq<char>, Seq<char>>(
            home + seq!['/'] + r,
        ),
        spec_expand_home(seq!['~', '/'] + r, None) == Err::<Seq<char>, Seq<char>>(
            "HOME is not set"@,
        ),
{
    let p = seq!['~', '/'] + r;
    assert(p.skip(2) =~= r);
    assert(strip_home_prefix(p) == strip_home_prefix(r));
}

/// A target that does not start with `~` is kept as given, whether the
/// home directory is known or not.
pub proof fn lemma_expand_home_keeps_other_paths(path: Seq<char>, home: Option<Seq<char>>)
    requires
        path.len() == 0 || path[0] != '~',
    ensures
        spec_expand_home(path, home) == Ok::<Seq<char>, Seq<char>>(path),
{
}

/// A relative path joined onto a directory not ending in `/` lies inside
/// it; an absolute path replaces it.
pub proof fn lemma_join_path(base: Seq<char>, rel: Seq<char>)
    ensures
        rel.len() > 0 && rel[0] == '/' ==> path_join(base, rel) == rel,
        !(rel.len() > 0 && rel[0] == '/') && base.len() > 0 && base.last() != '/' ==> path_join(
            base,
            rel,
        ) == base + seq!['/'] + rel,
        !(rel.len() > 0 && rel[0] == '/') && (base.len() == 0 || base.last() == '/')
            ==> path_join(base, rel) == base + rel,
{
}

/// Text before the first `{` passes through a replacement of a pattern
/// that starts with `{` unchanged.
proof fn lemma_replace_skips_prefix(a: Seq<char>, rest: Seq<char>, rep: Seq<char>)
    requires
        forall|i: int| 0 <= i < a.len() ==> a[i] != '{',
    ensures
        replace_all(a + rest, home_marker(), rep) == a + replace_all(rest, home_marker(), rep),
    decreases a.len(),
{
    if a.len() > 0 {
        let w = a + rest;
        if w.len() >= home_marker().len() {
            assert(w.take(8)[0] == a[0]);
            assert(w.take(8) != home_marker());
        }
        assert(w.drop_first() =~= a.drop_first() + rest);
        lemma_replace_skips_prefix(a.drop_first(), rest, rep);
        assert(a =~= seq![a[0]] + a.drop_first());
        assert(replace_all(w, home_marker(), rep) =~= a + replace_all(rest, home_marker(), rep));
    } else {
        assert(a + rest =~= rest);
    }
}

/// A template with one `{{HOME}}` marker, and no other `{`, becomes the
/// text with the home directory in the marker's place.
pub proof fn lemma_template_with_marker(a: Seq<char>, b: Seq<char>, home: Seq<char>)
    requires
        forall|i: int| 0 <= i < a.len() ==> a[i] != '{',
        forall|i: int| 0 <= i < b.len() ==> b[i] != '{',
    ensures
        replace_all(a + home_marker() + b, home_marker(), home) == a + home + b,
{
    let m = home_marker();
    assert(a + m + b =~= a + (m + b));
    lemma_replace_skips_prefix(a, m + b, home);
    assert((m + b).take(8) =~= m);
    assert((m + b).skip(8) =~= b);
    assert forall|i: int| !occurs_at(b, m, i) by {
        if occurs_at(b, m, i) {
            assert(b.subrange(i, i + 8)[0] == b[i]);
        }
    }
    lemma_replace_all_absent(b, m, home);
    assert(a + (home + b) =~= a + home + b);
}

/// Repeated leading `~/` count once: `~/~/x` is `~/x`.
pub proof fn lemma_expand_home_repeated_prefix(p: Seq<char>, home: Option<Seq<char>>)
    requires
        p.len() >= 2 && p[0] == '~' && p[1] == '/',
    ensures
        spec_expand_home(seq!['~', '/'] + p, home) == spec_expand_home(p, home),
{
    let q = seq!['~', '/'] + p;
    assert(q.skip(2) =~= p);
    assert(strip_home_prefix(q) == strip_home_prefix(p));
}

} // verus!
