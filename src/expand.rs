//! Expanding argument tokens: variable references and a leading `~`, then
//! filesystem wildcards.

use vstd::prelude::*;

verus! {

/// A wildcard metacharacter.
pub open spec fn is_wild(c: char) -> bool {
    c == '*' || c == '?' || c == '['
}

/// Whether `s` holds a wildcard metacharacter.
pub open spec fn has_wild(s: Seq<char>) -> bool {
    exists|i: int| 0 <= i < s.len() && is_wild(s[i])
}

/// A token that shell expansion returns unchanged: it holds no `$` and does
/// not start with `~`.
pub open spec fn is_plain(s: Seq<char>) -> bool {
    !s.contains('$') && !(s.len() > 0 && s[0] == '~')
}

/// The entries that the matcher read without error, in its order.
pub open spec fn readable(es: Seq<Option<Seq<char>>>) -> Seq<Seq<char>>
    decreases es.len(),
{
    if es.len() == 0 {
        Seq::empty()
    } else {
        let r = readable(es.drop_last());
        match es.last() {
            Some(p) => r.push(p),
            None => r,
        }
    }
}

/// The arguments that one token becomes, given its expanded text and what
/// the matcher reported for it (`None`: not matched, or an invalid pattern).
/// Matches replace the token; without any, the expanded text stands alone.
pub open spec fn token_result(expanded: Seq<char>, found: Option<Seq<Option<Seq<char>>>>) -> Seq<
    Seq<char>,
> {
    match found {
        Some(es) => if readable(es).len() > 0 {
            readable(es)
        } else {
            seq![expanded]
        },
        None => seq![expanded],
    }
}

/// `out` is what `tok` may expand to, whatever the environment and the
/// filesystem held: its expansion `e` is `tok` itself when `tok` is plain,
/// and only an `e` with a wildcard is matched against the filesystem.
pub open spec fn expands_to(tok: Seq<char>, out: Seq<Seq<char>>) -> bool {
    exists|e: Seq<char>, f: Option<Seq<Option<Seq<char>>>>|
        {
            &&& out == token_result(e, f)
            &&& is_plain(tok) ==> e == tok
            &&& !has_wild(e) ==> f is None
        }
}

/// The sequences of `parts`, one after another.
pub open spec fn joined(parts: Seq<Seq<Seq<char>>>) -> Seq<Seq<char>>
    decreases parts.len(),
{
    if parts.len() == 0 {
        Seq::empty()
    } else {
        joined(parts.drop_last()) + parts.last()
    }
}

/// Relies on shellexpand::full: it replaces variable references and a
/// leading `~` from the environment, and hands back its input unchanged when
/// that holds no `$` and does not start with `~`. Its error (a variable that
/// cannot be looked up) becomes `None`.
#[verifier::external_body]
fn shell_expand(tok: &str) -> (r: Option<String>)
    ensures
        is_plain(tok@) ==> r is Some && r->0@ == tok@,
{
    shellexpand::full(tok).ok().map(|c| c.into_owned())
}

/// Relies on glob::glob: `None` for an invalid pattern, else each path that
/// the matcher enumerates, in its order, as a display string, or `None`
/// where reading that entry failed.
#[verifier::external_body]
fn glob_entries(pattern: &str) -> (r: Option<Vec<Option<String>>>) {
    glob::glob(pattern).ok().map(
        |paths| paths.map(|e| e.ok().map(|p| p.to_string_lossy().into_owned())).collect(),
    )
}

/// Relies on std::path::Path::is_dir: whether `p` names a directory.
#[verifier::external_body]
fn is_directory(p: &str) -> bool {
    std::path::Path::new(p).is_dir()
}

/// Whether `s` holds `*`, `?` or `[`.
pub fn has_wildcard(s: &str) -> (r: bool)
    ensures
        r == has_wild(s@),
{
    let cs = crate::text::chars_of(s);
    let mut i: usize = 0;
    while i < cs.len()
        invariant
            cs@ == s@,
            i <= cs.len(),
            forall|j: int| 0 <= j < i ==> !is_wild(s@[j]),
        decreases cs.len() - i,
    {
        let c = cs[i];
        if c == '*' || c == '?' || c == '[' {
            return true;
        }
        i = i + 1;
    }
    false
}

/// The arguments that a token expanded to `expanded` becomes, given what the
/// matcher reported for it.
pub fn select_expansion(expanded: String, found: Option<Vec<Option<String>>>) -> (r: Vec<String>)
    ensures
        r.deep_view() == token_result(expanded@, found.deep_view()),
{
    if let Some(es) = found {
        let ghost ev = es.deep_view();
        let mut out: Vec<String> = Vec::new();
        let mut i: usize = 0;
        while i < es.len()
            invariant
                ev == es.deep_view(),
                i <= es.len(),
                out.deep_view() == readable(ev.subrange(0, i as int)),
            decreases es.len() - i,
        {
            assert(ev.subrange(0, i + 1).drop_last() =~= ev.subrange(0, i as int));
            if let Some(p) = &es[i] {
                let ghost before = out.deep_view();
                out.push(p.clone());
                assert(out.deep_view() =~= before.push(p@));
            }
            i = i + 1;
        }
        assert(ev.subrange(0, es.len() as int) =~= ev);
        if out.len() > 0 {
            return out;
        }
    }
    let mut single: Vec<String> = Vec::new();
    single.push(expanded);
    assert(single.deep_view() =~= seq![expanded@]);
    single
}


/// Expands one token: variables and a leading `~` first (falling back to the
/// token itself where that fails), then, where the result holds a wildcard,
/// the filesystem matches of it.
pub fn expand_token(tok: &str) -> (r: Vec<String>)
    ensures
        expands_to(tok@, r.deep_view()),
        r.len() >= 1,
        is_plain(tok@) && !has_wild(tok@) ==> r.deep_view() == seq![tok@],
{
    let expanded = match shell_expand(tok) {
        Some(e) => e,
        None => String::from_str(tok),
    };
    let found = if has_wildcard(expanded.as_str()) {
        glob_entries(expanded.as_str())
    } else {
        None
    };
    let ghost e = expanded@;
    let ghost f = found.deep_view();
    let r = select_expansion(expanded, found);
    assert(r.deep_view() == token_result(e, f) && (is_plain(tok@) ==> e == tok@) && (!has_wild(e)
        ==> f is None));
    assert(r.deep_view().len() == r@.len());
    r
}

/// `out` is what the tokens `raw` may expand to: each token becomes a run
/// of arguments as `expands_to` allows, and the runs stand in token order.
pub open spec fn args_expand_to(raw: Seq<Seq<char>>, out: Seq<Seq<char>>) -> bool {
    exists|parts: Seq<Seq<Seq<char>>>|
        {
            &&& parts.len() == raw.len()
            &&& forall|i: int| 0 <= i < raw.len() ==> expands_to(raw[i], #[trigger] parts[i])
            &&& out == joined(parts)
        }
}

/// Expands each token in order and joins what they became.
pub fn expand_args(args: &Vec<String>) -> (r: Vec<String>)
    ensures
        args_expand_to(args.deep_view(), r.deep_view()),
{
    let mut out: Vec<String> = Vec::new();
    let ghost mut parts: Seq<Seq<Seq<char>>> = Seq::empty();
    let mut i: usize = 0;
    while i < args.len()
        invariant
            i <= args.len(),
            parts.len() == i,
            forall|j: int| 0 <= j < i ==> expands_to(args[j]@, #[trigger] parts[j]),
            out.deep_view() == joined(parts),
        decreases args.len() - i,
    {
        let mut part = expand_token(args[i].as_str());
        let ghost before = out.deep_view();
        let ghost pv = part.deep_view();
        out.append(&mut part);
        assert(out.deep_view() =~= before + pv);
        proof {
            let old_parts = parts;
            parts = parts.push(pv);
            assert(parts.drop_last() =~= old_parts);
        }
        i = i + 1;
    }
    assert(parts.len() == args.deep_view().len() && (forall|j: int|
        0 <= j < args.len() ==> expands_to(args.deep_view()[j], #[trigger] parts[j])) && out.deep_view()
        == joined(parts));
    out
}

/// The first candidate marked as a directory.
pub open spec fn first_dir(cands: Seq<(Seq<char>, bool)>) -> Option<Seq<char>>
    decreases cands.len(),
{
    if cands.len() == 0 {
        None
    } else if cands[0].1 {
        Some(cands[0].0)
    } else {
        first_dir(cands.drop_first())
    }
}

/// Where `cd` goes, given the expanded target and the matches of it, each
/// with whether it is a directory: the first directory, else the target.
pub open spec fn cd_target(expanded: Seq<char>, cands: Seq<(Seq<char>, bool)>) -> Seq<char> {
    match first_dir(cands) {
        Some(d) => d,
        None => expanded,
    }
}

/// The token `cd` expands: its argument, or `~` without one.
pub open spec fn cd_token(dir: Option<Seq<char>>) -> Seq<char> {
    match dir {
        Some(d) => d,
        None => seq!['~'],
    }
}

/// Picks the first candidate that is a directory, or `expanded` if none is.
pub fn choose_cd_target(expanded: String, cands: Vec<(String, bool)>) -> (r: String)
    ensures
        r@ == cd_target(expanded@, cands.deep_view()),
{
    let ghost cv = cands.deep_view();
    assert(cv.subrange(0, cv.len() as int) =~= cv);
    let mut i: usize = 0;
    while i < cands.len()
        invariant
            cv == cands.deep_view(),
            i <= cands.len(),
            first_dir(cv) == first_dir(cv.subrange(i as int, cv.len() as int)),
        decreases cands.len() - i,
    {
        assert(cv.subrange(i as int, cv.len() as int).drop_first() =~= cv.subrange(
            i + 1,
            cv.len() as int,
        ));
        if cands[i].1 {
            assert(cv[i as int].0 == cands[i as int].0@);
            return cands[i].0.clone();
        }
        i = i + 1;
    }
    expanded
}

/// `r` is where `cd` with argument `dir` may go, whatever the environment
/// and the filesystem held: the expansion `e` of its token is the token
/// itself when that is plain, and only an `e` with a wildcard is matched.
pub open spec fn cd_resolves_to(dir: Option<Seq<char>>, r: Seq<char>) -> bool {
    exists|e: Seq<char>, cands: Seq<(Seq<char>, bool)>|
        {
            &&& r == cd_target(e, cands)
            &&& is_plain(cd_token(dir)) ==> e == cd_token(dir)
            &&& !has_wild(e) ==> cands.len() == 0
        }
}

/// Resolves the target of `cd`: expands it (`~` when absent) and, where the
/// result holds a wildcard, takes the first match that is a directory.
pub fn resolve_cd(dir: Option<&str>) -> (r: String)
    ensures
        cd_resolves_to(dir.deep_view(), r@),
{
    let raw: &str = match dir {
        Some(d) => d,
        None => "~",
    };
    proof {
        reveal_strlit("~");
        assert(raw@ == cd_token(dir.deep_view()));
    }
    let expanded = match shell_expand(raw) {
        Some(e) => e,
        None => String::from_str(raw),
    };
    let mut cands: Vec<(String, bool)> = Vec::new();
    if has_wildcard(expanded.as_str()) {
        if let Some(es) = glob_entries(expanded.as_str()) {
            let mut i: usize = 0;
            while i < es.len()
                decreases es.len() - i,
            {
                if let Some(p) = &es[i] {
                    let d = is_directory(p.as_str());
                    cands.push((p.clone(), d));
                }
                i = i + 1;
            }
        }
    }
    let ghost e = expanded@;
    let ghost cv = cands.deep_view();
    let r = choose_cd_target(expanded, cands);
    assert(r@ == cd_target(e, cv) && (is_plain(cd_token(dir.deep_view())) ==> e == cd_token(
        dir.deep_view(),
    )) && (!has_wild(e) ==> cv.len() == 0));
    r
}

/// `cd` with an argument that needs no expansion and holds no wildcard goes
/// to exactly that path; `cd` alone goes to what `~` expands to.
pub proof fn lemma_cd_target(d: Seq<char>, t: Seq<char>)
    ensures
        is_plain(d) && !has_wild(d) && cd_resolves_to(Some(d), t) ==> t == d,
        cd_token(None) == seq!['~'],
{
    if is_plain(d) && !has_wild(d) && cd_resolves_to(Some(d), t) {
        let (e, cands) = choose|e: Seq<char>, cands: Seq<(Seq<char>, bool)>|
            {
                &&& t == cd_target(e, cands)
                &&& is_plain(cd_token(Some(d))) ==> e == cd_token(Some(d))
                &&& !has_wild(e) ==> cands.len() == 0
            };
        assert(e == d);
        assert(first_dir(cands) is None);
    }
}

} // verus!
