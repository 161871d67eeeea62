//! Base-directory scope: a textual path model (join and parent) and the
//! ordered stack of base directories used to resolve relative sources.

use vstd::prelude::*;
use crate::text::{starts_with, starts_with_spec};

verus! {

/// Whether a source is an absolute URL rather than a path.
pub open spec fn is_url_spec(s: Seq<char>) -> bool {
    starts_with_spec(s, "http://"@) || starts_with_spec(s, "https://"@)
}

/// Whether a source is an absolute URL rather than a path.
pub fn is_url(s: &str) -> (r: bool)
    ensures
        r == is_url_spec(s@),
{
    starts_with(s, "http://") || starts_with(s, "https://")
}

/// Joining a relative path onto a base directory. A path that already starts
/// at the root replaces the base. The text is treated literally: no
/// normalisation of separators or dot segments is performed.
pub open spec fn join_path_spec(dir: Seq<char>, rel: Seq<char>) -> Seq<char> {
    if rel.len() > 0 && rel[0] == '/' {
        rel
    } else {
        dir + seq!['/'] + rel
    }
}

/// The index of the last separator in `s`, or -1 when there is none.
pub open spec fn last_slash(s: Seq<char>) -> int
    decreases s.len(),
{
    if s.len() == 0 {
        -1
    } else if s.last() == '/' {
        s.len() - 1
    } else {
        last_slash(s.drop_last())
    }
}

/// The parent directory of a path, in this library's literal path model:
/// the text before the last separator; the root for a top-level absolute
/// path; the empty directory for a bare file name; nothing for empty text
/// or the root itself.
pub open spec fn parent_of(p: Seq<char>) -> Option<Seq<char>> {
    let i = last_slash(p);
    if p.len() == 0 || (p.len() == 1 && p[0] == '/') {
        None
    } else if i == -1 {
        Some(Seq::empty())
    } else if i == 0 {
        Some(seq!['/'])
    } else {
        Some(p.subrange(0, i))
    }
}

pub proof fn lemma_last_slash_none(s: Seq<char>)
    requires
        forall|k: int| 0 <= k < s.len() ==> s[k] != '/',
    ensures
        last_slash(s) == -1,
    decreases s.len(),
{
    if s.len() > 0 {
        lemma_last_slash_none(s.drop_last());
    }
}

pub proof fn lemma_last_slash_at(s: Seq<char>, i: int)
    requires
        0 <= i < s.len(),
        s[i] == '/',
        forall|k: int| i < k < s.len() ==> s[k] != '/',
    ensures
        last_slash(s) == i,
    decreases s.len(),
{
    if i < s.len() - 1 {
        lemma_last_slash_at(s.drop_last(), i);
    }
}

/// Joins a relative path onto a base directory.
pub fn join_path(dir: &str, rel: &str) -> (r: String)
    ensures
        r@ == join_path_spec(dir@, rel@),
{
    let n = rel.unicode_len();
    if n > 0 && rel.get_char(0) == '/' {
        String::from_str(rel)
    } else {
        let r = String::from_str(dir).concat("/").concat(rel);
        proof {
            reveal_strlit("/");
            assert(r@ =~= dir@ + seq!['/'] + rel@);
        }
        r
    }
}

/// The parent directory of a path, in the library's literal path model.
pub fn parent_dir(p: &str) -> (r: Option<String>)
    ensures
        match r {
            Some(d) => parent_of(p@) == Some(d@),
            None => parent_of(p@) is None,
        },
{
    let n = p.unicode_len();
    if n == 0 {
        proof {
            assert(parent_of(p@) is None);
        }
        return None;
    }
    if n == 1 && p.get_char(0) == '/' {
        return None;
    }
    let mut j: usize = n;
    while j > 0 && p.get_char(j - 1) != '/'
        invariant
            j <= n,
            n == p@.len(),
            forall|k: int| j <= k < n ==> p@[k] != '/',
        decreases j,
    {
        j = j - 1;
    }
    if j == 0 {
        proof {
            lemma_last_slash_none(p@);
        }
        Some(String::new())
    } else {
        proof {
            lemma_last_slash_at(p@, j - 1);
        }
        if j == 1 {
            let r = String::from_str(p.substring_char(0, 1));
            proof {
                assert(p@.subrange(0, 1)[0] == p@[0]);
                assert(r@ =~= seq!['/']);
            }
            Some(r)
        } else {
            Some(String::from_str(p.substring_char(0, j - 1)))
        }
    }
}

/// The ordered stack of base directories; the top is the current resolution
/// base for relative sources.
pub struct DirectoryStack {
    pub dirs: Vec<String>,
}

impl View for DirectoryStack {
    type V = Seq<Seq<char>>;

    open spec fn view(&self) -> Seq<Seq<char>> {
        Seq::new(self.dirs@.len(), |i: int| self.dirs@[i]@)
    }
}

impl DirectoryStack {
    /// An empty stack.
    pub fn new() -> (r: DirectoryStack)
        ensures
            r@ == Seq::<Seq<char>>::empty(),
    {
        let r = DirectoryStack { dirs: Vec::new() };
        proof {
            assert(r@ =~= Seq::<Seq<char>>::empty());
        }
        r
    }

    /// The current base directory, if any.
    pub fn top(&self) -> (r: Option<String>)
        ensures
            match r {
                Some(d) => self@.len() > 0 && d@ == self@.last(),
                None => self@.len() == 0,
            },
    {
        if self.dirs.len() > 0 {
            Some(self.dirs[self.dirs.len() - 1].clone())
        } else {
            None
        }
    }

    /// Enters a new base directory scope.
    pub fn push(&mut self, dir: String)
        ensures
            final(self)@ == old(self)@.push(dir@),
    {
        self.dirs.push(dir);
        proof {
            assert(self@ =~= old(self)@.push(dir@));
        }
    }

    /// Leaves the current base directory scope, if one is open.
    pub fn pop(&mut self) -> (r: Option<String>)
        ensures
            old(self)@.len() > 0 ==> {
                &&& final(self)@ == old(self)@.drop_last()
                &&& match r {
                    Some(d) => d@ == old(self)@.last(),
                    None => false,
                }
            },
            old(self)@.len() == 0 ==> final(self)@ == old(self)@ && r is None,
    {
        if self.dirs.len() > 0 {
            let d = self.dirs.pop().unwrap();
            proof {
                assert(self@ =~= old(self)@.drop_last());
            }
            Some(d)
        } else {
            None
        }
    }

    /// The number of open scopes.
    pub fn len(&self) -> (r: usize)
        ensures
            r == self@.len(),
    {
        self.dirs.len()
    }
}

} // verus!
