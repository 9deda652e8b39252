//! Slash-separated paths, held as text.

use vstd::prelude::*;

verus! {

/// Does the path start at the root of the file system?
pub open spec fn rooted(p: Seq<char>) -> bool {
    p.len() > 0 && p[0] == '/'
}

/// `tail` as seen from `base`: a path from the root stands for itself, any
/// other path is put behind `base` with one slash between the two.
pub open spec fn joined(base: Seq<char>, tail: Seq<char>) -> Seq<char> {
    if rooted(tail) {
        tail
    } else if base.len() > 0 && base.last() != '/' {
        base + seq!['/'] + tail
    } else {
        base + tail
    }
}

/// Does the path start at the root of the file system?
pub fn is_rooted(p: &str) -> (r: bool)
    ensures
        r == rooted(p@),
{
    p.unicode_len() > 0 && p.get_char(0) == '/'
}

/// `tail` as seen from `base`.
pub fn join_path(base: &str, tail: &str) -> (r: String)
    ensures
        r@ == joined(base@, tail@),
{
    if is_rooted(tail) {
        return tail.to_owned();
    }
    let n: usize = base.unicode_len();
    let mut r: String = base.to_owned();
    if n > 0 && base.get_char(n - 1) != '/' {
        proof {
            reveal_strlit("/");
            assert("/"@ =~= seq!['/']);
        }
        r.append("/");
    }
    r.append(tail);
    r
}

/// `p` with a leading `~/` replaced by the home directory, where one is known.
pub open spec fn home_expanded(p: Seq<char>, home: Option<Seq<char>>) -> Seq<char> {
    match home {
        Some(h) if p.len() >= 2 && p[0] == '~' && p[1] == '/' => joined(h, p.skip(2)),
        _ => p,
    }
}

/// `p` with a leading `~/` replaced by the home directory, where one is known.
pub fn expand(p: &str, home: Option<&str>) -> (r: String)
    ensures
        r@ == home_expanded(p@, match home {
            Some(h) => Some(h@),
            None => None,
        }),
{
    let n: usize = p.unicode_len();
    if n >= 2 && p.get_char(0) == '~' && p.get_char(1) == '/' {
        if let Some(h) = home {
            let rest: &str = p.substring_char(2, n);
            assert(rest@ =~= p@.skip(2));
            return join_path(h, rest);
        }
    }
    p.to_owned()
}

/// A path from the root stands for itself wherever it is seen from. Any other
/// path ends what it is joined to: it comes last, what it is joined to comes
/// first, and a slash, one more only where there was none, keeps the two apart.
pub proof fn law_joined_path(base: Seq<char>, tail: Seq<char>)
    ensures
        ({
            let path = joined(base, tail);
            &&& tail.len() > 0 && tail[0] == '/' ==> path == tail
            &&& tail.len() == 0 || tail[0] != '/' ==> {
                &&& base.len() <= path.len() <= base.len() + tail.len() + 1
                &&& path.take(base.len() as int) == base
                &&& path.skip(path.len() - tail.len()) == tail
                &&& base.len() == 0 ==> path == tail
                &&& base.len() > 0 ==> path.len() > tail.len() && path[path.len() - tail.len() - 1]
                    == '/'
                &&& base.len() > 0 && base[base.len() - 1] == '/' ==> path.len() == base.len()
                    + tail.len()
            }
        }),
{
    let path = joined(base, tail);
    if !(tail.len() > 0 && tail[0] == '/') {
        assert(path.take(base.len() as int) =~= base);
        assert(path.skip(path.len() - tail.len()) =~= tail);
        if base.len() == 0 {
            assert(path =~= tail);
        }
    }
}

/// It makes no difference whether the directory that a path is joined to is
/// written with a slash at its end.
pub proof fn law_joined_with_or_without_slash(base: Seq<char>, tail: Seq<char>)
    requires
        base.len() > 0,
        base[base.len() - 1] != '/',
    ensures
        joined(base.push('/'), tail) == joined(base, tail),
{
    assert(base.push('/') + tail =~= base + seq!['/'] + tail);
}

/// A path under `~/` is one under the home directory, where that is known. Any
/// other path is left as it is.
pub proof fn law_home_expanded(p: Seq<char>, home: Seq<char>)
    ensures
        home_expanded(seq!['~', '/'] + p, Some(home)) == joined(home, p),
        home_expanded(p, None) == p,
        p.len() < 2 || p[0] != '~' || p[1] != '/' ==> home_expanded(p, Some(home)) == p,
{
    assert((seq!['~', '/'] + p).skip(2) =~= p);
}

} // verus!
