//! File system paths as the release tool builds them: a root (such as `/`
//! or `C:\`, empty for a relative path) followed by named components.
use vstd::prelude::*;
use vstd::string::*;
use crate::text::{push_char, strings_view};

verus! {

/// A path: its root as written (with the separator that ends it, if any)
/// and its components.
pub struct FsPath {
    pub root: String,
    pub parts: Vec<String>,
}

impl View for FsPath {
    type V = (Seq<char>, Seq<Seq<char>>);

    open spec fn view(&self) -> (Seq<char>, Seq<Seq<char>>) {
        (self.root@, strings_view(self.parts@))
    }
}

/// The components joined by `sep`.
pub open spec fn join_with(parts: Seq<Seq<char>>, sep: char) -> Seq<char>
    decreases parts.len(),
{
    if parts.len() == 0 {
        Seq::<char>::empty()
    } else if parts.len() == 1 {
        parts[0]
    } else {
        join_with(parts.drop_last(), sep).push(sep) + parts.last()
    }
}

impl Clone for FsPath {
    fn clone(&self) -> (r: FsPath)
        ensures
            r@ == self@,
    {
        let parts = self.parts.clone();
        assert(parts@ =~= self.parts@);
        FsPath { root: self.root.clone(), parts }
    }
}

/// How a path is shown with the separator `sep`.
pub open spec fn display_path(p: (Seq<char>, Seq<Seq<char>>), sep: char) -> Seq<char> {
    p.0 + join_with(p.1, sep)
}

/// The path `p` with the components `names` appended.
pub open spec fn joined(p: (Seq<char>, Seq<Seq<char>>), names: Seq<Seq<char>>) -> (
    Seq<char>,
    Seq<Seq<char>>,
) {
    (p.0, p.1 + names)
}

impl FsPath {
    /// This path followed by the component `name` (`Path::join` with a
    /// relative name).
    pub fn join(&self, name: &str) -> (r: FsPath)
        ensures
            r@ == joined(self@, seq![name@]),
    {
        let mut parts = self.parts.clone();
        assert(parts@ =~= self.parts@);
        parts.push(String::from_str(name));
        let r = FsPath { root: self.root.clone(), parts };
        assert(r@.1 =~= self@.1 + seq![name@]);
        r
    }

    /// The path without its last component, or `None` where there is none
    /// (`Path::parent`).
    pub fn parent(&self) -> (r: Option<FsPath>)
        ensures
            self@.1.len() == 0 <==> r is None,
            r matches Some(q) ==> q@ == (self@.0, self@.1.drop_last()),
    {
        if self.parts.len() == 0 {
            None
        } else {
            let mut parts = self.parts.clone();
            assert(parts@ =~= self.parts@);
            parts.pop();
            let r = FsPath { root: self.root.clone(), parts };
            assert(r@.1 =~= self@.1.drop_last());
            Some(r)
        }
    }

    /// The path as text, its components separated by `sep`.
    pub fn display(&self, sep: char) -> (s: String)
        ensures
            s@ == display_path(self@, sep),
    {
        let mut s = self.root.clone();
        let mut i: usize = 0;
        while i < self.parts.len()
            invariant
                i <= self.parts@.len(),
                s@ == self.root@ + join_with(strings_view(self.parts@).take(i as int), sep),
            decreases self.parts.len() - i,
        {
            let ghost ps = strings_view(self.parts@);
            assert(ps.take(i + 1).drop_last() =~= ps.take(i as int));
            if i > 0 {
                push_char(&mut s, sep);
            }
            s.append(self.parts[i].as_str());
            i = i + 1;
            assert(s@ =~= self.root@ + join_with(ps.take(i as int), sep));
        }
        assert(strings_view(self.parts@).take(self.parts@.len() as int) =~= strings_view(
            self.parts@,
        ));
        s
    }
}

/// Joining a name shows as the path, the separator and the name; for a
/// path with no components yet, as the root and the name.
pub proof fn law_display_join(p: (Seq<char>, Seq<Seq<char>>), name: Seq<char>, sep: char)
    ensures
        p.1.len() > 0 ==> display_path(joined(p, seq![name]), sep) == display_path(p, sep) + seq![
            sep,
        ] + name,
        p.1.len() == 0 ==> display_path(joined(p, seq![name]), sep) == p.0 + name,
{
    let q = joined(p, seq![name]);
    assert(q.1.drop_last() =~= p.1);
    if p.1.len() == 0 {
        assert(q.1 =~= seq![name]);
    } else {
        assert(display_path(q, sep) =~= display_path(p, sep) + seq![sep] + name);
    }
}

} // verus!
