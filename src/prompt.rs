//! The prompt shown before each line: `user@host:dir$ `, with the home
//! directory at the start of `dir` shortened to `~`.

use vstd::prelude::*;

verus! {

/// Whether `s` starts with `prefix`.
pub open spec fn has_prefix(s: Seq<char>, prefix: Seq<char>) -> bool {
    prefix.len() <= s.len() && s.subrange(0, prefix.len() as int) == prefix
}

/// The working directory as shown: with `home` at its start replaced by `~`.
pub open spec fn shown_dir(cwd: Seq<char>, home: Option<Seq<char>>) -> Seq<char> {
    match home {
        Some(h) => if has_prefix(cwd, h) {
            seq!['~'] + cwd.subrange(h.len() as int, cwd.len() as int)
        } else {
            cwd
        },
        None => cwd,
    }
}

/// The prompt text for `user` on `host` in `cwd`.
pub open spec fn prompt_text(
    user: Seq<char>,
    host: Seq<char>,
    cwd: Seq<char>,
    home: Option<Seq<char>>,
) -> Seq<char> {
    user + seq!['@'] + host + seq![':'] + shown_dir(cwd, home) + seq!['$', ' ']
}

/// Whether `s` starts with `prefix`.
pub fn starts_with(s: &str, prefix: &str) -> (r: bool)
    ensures
        r == has_prefix(s@, prefix@),
{
    let cs = crate::text::chars_of(s);
    let ps = crate::text::chars_of(prefix);
    if ps.len() > cs.len() {
        return false;
    }
    let mut i: usize = 0;
    while i < ps.len()
        invariant
            cs@ == s@,
            ps@ == prefix@,
            ps.len() <= cs.len(),
            i <= ps.len(),
            cs@.subrange(0, i as int) == ps@.subrange(0, i as int),
        decreases ps.len() - i,
    {
        if cs[i] != ps[i] {
            assert(s@.subrange(0, prefix@.len() as int)[i as int] != prefix@[i as int]);
            return false;
        }
        assert(cs@.subrange(0, i + 1) =~= ps@.subrange(0, i + 1));
        i = i + 1;
    }
    assert(ps@.subrange(0, i as int) =~= ps@);
    true
}

/// The working directory as shown in the prompt.
pub fn display_dir(cwd: &str, home: Option<&str>) -> (r: String)
    ensures
        r@ == shown_dir(cwd@, home.deep_view()),
{
    if let Some(h) = home {
        if starts_with(cwd, h) {
            let n = cwd.unicode_len();
            let k = h.unicode_len();
            let mut r = String::from_str("~");
            r.append(cwd.substring_char(k, n));
            proof {
                reveal_strlit("~");
            }
            assert(r@ =~= seq!['~'] + cwd@.subrange(h@.len() as int, cwd@.len() as int));
            return r;
        }
    }
    String::from_str(cwd)
}

/// The prompt: `user@host:dir$ `.
pub fn format_prompt(user: &str, host: &str, cwd: &str, home: Option<&str>) -> (r: String)
    ensures
        r@ == prompt_text(user@, host@, cwd@, home.deep_view()),
{
    let dir = display_dir(cwd, home);
    let mut r = String::from_str(user);
    r.append("@");
    r.append(host);
    r.append(":");
    r.append(dir.as_str());
    r.append("$ ");
    proof {
        reveal_strlit("@");
        reveal_strlit(":");
        reveal_strlit("$ ");
    }
    assert(r@ =~= prompt_text(user@, host@, cwd@, home.deep_view()));
    r
}

} // verus!
