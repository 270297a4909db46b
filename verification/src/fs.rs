//! The in-memory filesystem snapshot: an immutable tree of files and
//! directories, and the pure path-resolution semantics over it.

use vstd::prelude::*;

verus! {

/// One node of a snapshot tree: either a file holding the MIME essence
/// guessed from its name and the file's full byte content, or a directory
/// holding its entries. A node is never mutated once a snapshot has been
/// published; directories are populated through [`FsNode::with_entry`]
/// while a snapshot is still being built.
pub enum FsNode {
    /// MIME essence string (such as `text/html`) and the file's bytes.
    File(String, Vec<u8>),
    /// Directory entries, looked up by name. A later insertion for the same
    /// name shadows an earlier one, so lookup takes the first match.
    Dir(Vec<(String, FsNode)>),
}

/// First-match lookup of `name` among directory entries.
pub open spec fn spec_lookup(entries: Seq<(String, FsNode)>, name: Seq<char>) -> Option<FsNode>
    decreases entries.len(),
{
    if entries.len() == 0 {
        None
    } else if entries[0].0@ == name {
        Some(entries[0].1)
    } else {
        spec_lookup(entries.drop_first(), name)
    }
}

/// The name a path segment asks for inside a directory: an empty segment
/// stands for `index.html`, any other segment for itself.
pub open spec fn seg_key(seg: Seq<char>) -> Seq<char> {
    if seg.len() == 0 {
        "index.html"@
    } else {
        seg
    }
}

/// Path resolution over a snapshot, one segment per recursion level.
///
/// A file resolves exactly when no segments remain, to its MIME essence and
/// bytes. A directory with no remaining segments never resolves; otherwise
/// the first segment (after `index.html` substitution) is looked up, a final
/// segment must name a file, and a non-final one recurses into whatever node
/// was found — recursing into a file with segments left over fails by the
/// file rule above.
pub open spec fn resolve(node: FsNode, segs: Seq<Seq<char>>) -> Option<(Seq<char>, Seq<u8>)>
    decreases segs.len(),
{
    match node {
        FsNode::File(mime, content) => {
            if segs.len() == 0 {
                Some((mime@, content@))
            } else {
                None
            }
        },
        FsNode::Dir(entries) => {
            if segs.len() == 0 {
                None
            } else {
                match spec_lookup(entries@, seg_key(segs[0])) {
                    None => None,
                    Some(child) => {
                        if segs.len() == 1 {
                            match child {
                                FsNode::File(mime, content) => Some((mime@, content@)),
                                FsNode::Dir(_) => None,
                            }
                        } else {
                            resolve(child, segs.drop_first())
                        }
                    },
                }
            }
        },
    }
}

/// The views of a sequence of owned path segments.
pub open spec fn segs_of(path: Seq<String>) -> Seq<Seq<char>> {
    path.map_values(|s: String| s@)
}

/// The MIME essence that the content-type table assigns to a file name,
/// from its extension alone: a fixed function of the name.
pub uninterp spec fn mime_of(name: Seq<char>) -> Seq<char>;

/// Relies on `mime_guess::MimeGuess::from_path` and
/// `mime::Mime::essence_str`: the guess (with `text/plain` as the fallback)
/// is read off a static extension table, so it depends on the name alone.
#[verifier::external_body]
fn guess_mime(name: &str) -> (r: String)
    ensures
        r@ == mime_of(name@),
{
    mime_guess::MimeGuess::from_path(name).first_or_text_plain().essence_str().to_owned()
}

/// String equality through the character views.
pub(crate) fn str_eq(a: &str, b: &str) -> (r: bool)
    ensures
        r == (a@ == b@),
{
    let oa = a.to_owned();
    let ob = b.to_owned();
    oa == ob
}

/// First-match linear search for `name` among directory entries.
fn lookup_entry<'a>(entries: &'a Vec<(String, FsNode)>, name: &str) -> (r: Option<&'a FsNode>)
    ensures
        r is Some <==> spec_lookup(entries@, name@) is Some,
        r matches Some(node) ==> spec_lookup(entries@, name@) == Some(*node),
{
    let n = entries.len();
    let mut j: usize = 0;
    proof {
        assert(entries@.skip(0) =~= entries@);
    }
    while j < n
        invariant
            j <= n,
            n == entries@.len(),
            spec_lookup(entries@, name@) == spec_lookup(entries@.skip(j as int), name@),
        decreases n - j,
    {
        let pair = &entries[j];
        if str_eq(pair.0.as_str(), name) {
            assert(entries@.skip(j as int)[0] == entries@[j as int]);
            return Some(&pair.1);
        }
        proof {
            assert(entries@.skip(j as int)[0] == entries@[j as int]);
            assert(entries@.skip(j as int).drop_first() =~= entries@.skip(j as int + 1));
        }
        j = j + 1;
    }
    proof {
        assert(entries@.skip(n as int).len() == 0);
    }
    None
}

impl FsNode {
    /// A file node holding `content`, with the MIME essence guessed from
    /// `name` (the file's name or path on the originating filesystem).
    pub fn file(name: &str, content: Vec<u8>) -> (n: FsNode)
        ensures
            n matches FsNode::File(mime, bytes) && mime@ == mime_of(name@) && bytes@ == content@,
    {
        FsNode::File(guess_mime(name), content)
    }

    /// A directory node with no entries yet.
    pub fn empty_dir() -> (n: FsNode)
        ensures
            n matches FsNode::Dir(entries) && entries@.len() == 0,
            forall|q: Seq<char>| spec_lookup(n->Dir_0@, q) is None,
    {
        FsNode::Dir(Vec::new())
    }

    /// This directory extended with one entry; an entry already present
    /// under the same name is shadowed, as one overwritten in a map.
    pub fn with_entry(self, name: String, node: FsNode) -> (r: FsNode)
        requires
            self is Dir,
        ensures
            r is Dir,
            forall|q: Seq<char>|
                #[trigger] spec_lookup(r->Dir_0@, q) == (if q == name@ {
                    Some(node)
                } else {
                    spec_lookup(self->Dir_0@, q)
                }),
    {
        match self {
            FsNode::Dir(mut entries) => {
                entries.insert(0, (name, node));
                proof {
                    let s = entries@;
                    assert(s[0] == (name, node));
                    assert(s.drop_first() =~= self->Dir_0@);
                    assert forall|q: Seq<char>|
                        #[trigger] spec_lookup(s, q) == (if q == name@ {
                            Some(node)
                        } else {
                            spec_lookup(self->Dir_0@, q)
                        }) by {
                        assert(s.len() > 0);
                    }
                }
                FsNode::Dir(entries)
            },
            FsNode::File(mime, content) => FsNode::File(mime, content),
        }
    }

    /// Whether this node is a directory.
    pub fn is_dir(&self) -> (r: bool)
        ensures
            r == (*self is Dir),
    {
        matches!(self, FsNode::Dir(_))
    }

    /// Whether this node is a file.
    pub fn is_file(&self) -> (r: bool)
        ensures
            r == (*self is File),
    {
        matches!(self, FsNode::File(..))
    }

    /// The entry under exactly `name` (no `index.html` substitution) of a
    /// directory; a file has no entries.
    pub fn entry<'a>(&'a self, name: &str) -> (r: Option<&'a FsNode>)
        ensures
            *self is Dir ==> {
                &&& r is Some <==> spec_lookup(self->Dir_0@, name@) is Some
                &&& (r matches Some(node) ==> spec_lookup(self->Dir_0@, name@) == Some(*node))
            },
            *self is File ==> r is None,
    {
        match self {
            FsNode::Dir(entries) => lookup_entry(entries, name),
            FsNode::File(..) => None,
        }
    }

    /// Resolves a request path, already split into segments, against this
    /// snapshot, returning the matched file's MIME essence and bytes.
    pub fn get<'a>(&'a self, path: &[String]) -> (r: Option<(&'a String, &'a Vec<u8>)>)
        ensures
            r is Some <==> resolve(*self, segs_of(path@)) is Some,
            r matches Some(p) ==> resolve(*self, segs_of(path@)) == Some((p.0@, p.1@)),
    {
        proof {
            assert(segs_of(path@).skip(0) =~= segs_of(path@));
        }
        self.get_at(path, 0)
    }

    /// Resolution of the segments from position `i` on against this node.
    fn get_at<'a>(&'a self, path: &[String], i: usize) -> (r: Option<(&'a String, &'a Vec<u8>)>)
        requires
            i <= path@.len(),
        ensures
            r is Some <==> resolve(*self, segs_of(path@).skip(i as int)) is Some,
            r matches Some(p) ==> resolve(*self, segs_of(path@).skip(i as int)) == Some(
                (p.0@, p.1@),
            ),
        decreases path@.len() - i,
    {
        let n = path.len();
        match self {
            FsNode::File(mime, content) => {
                if i == n {
                    Some((mime, content))
                } else {
                    None
                }
            },
            FsNode::Dir(entries) => {
                if i == n {
                    None
                } else {
                    let seg: &str = path[i].as_str();
                    let name: &str = if seg.is_empty() {
                        "index.html"
                    } else {
                        seg
                    };
                    proof {
                        assert(segs_of(path@).skip(i as int)[0] == path@[i as int]@);
                        assert(name@ == seg_key(segs_of(path@).skip(i as int)[0]));
                    }
                    match lookup_entry(entries, name) {
                        None => None,
                        Some(child) => {
                            if i + 1 == n {
                                match child {
                                    FsNode::File(mime, content) => Some((mime, content)),
                                    FsNode::Dir(_) => None,
                                }
                            } else {
                                proof {
                                    assert(segs_of(path@).skip(i as int).drop_first() =~= segs_of(
                                        path@,
                                    ).skip(i as int + 1));
                                }
                                child.get_at(path, i + 1)
                            }
                        },
                    }
                }
            },
        }
    }
}

/// Whether the segments name a file in the snapshot when followed literally
/// (no `index.html` substitution): every intermediate segment must reach a
/// directory entry, and the final segment a file.
pub open spec fn path_names_file(node: FsNode, segs: Seq<Seq<char>>) -> bool
    decreases segs.len(),
{
    &&& segs.len() > 0
    &&& node is Dir
    &&& match spec_lookup(node->Dir_0@, segs[0]) {
        None => false,
        Some(child) => if segs.len() == 1 {
            child is File
        } else {
            path_names_file(child, segs.drop_first())
        },
    }
}

/// Tree fidelity: a snapshot hands back exactly what it was built from.
/// Resolving a directory on one non-empty segment whose entry is a file
/// yields precisely the MIME essence and the bytes that file node holds —
/// no transformation, no other file's content.
pub proof fn lemma_tree_fidelity(tree: FsNode, seg: Seq<char>)
    requires
        tree is Dir,
        seg.len() > 0,
        spec_lookup(tree->Dir_0@, seg) matches Some(child) && child is File,
    ensures
        ({
            let child = spec_lookup(tree->Dir_0@, seg)->Some_0;
            resolve(tree, seq![seg]) == Some((child->File_0@, child->File_1@))
        }),
{
    assert(seq![seg][0] == seg);
}

/// Index substitution: resolving a directory against the single empty
/// segment looks up `index.html`. It yields that file's MIME essence and
/// bytes when the directory holds such a file, and fails when it holds no
/// entry of that name (or a subdirectory of that name).
pub proof fn lemma_index_substitution(tree: FsNode)
    requires
        tree is Dir,
    ensures
        ({
            let r = resolve(tree, seq![Seq::<char>::empty()]);
            match spec_lookup(tree->Dir_0@, "index.html"@) {
                Some(FsNode::File(mime, content)) => r == Some((mime@, content@)),
                Some(FsNode::Dir(_)) => r is None,
                None => r is None,
            }
        }),
{
    let segs = seq![Seq::<char>::empty()];
    assert(segs[0].len() == 0);
    assert(seg_key(segs[0]) == "index.html"@);
}

/// Depth handling: a path of non-empty segments resolves exactly when the
/// same segments, followed literally through the snapshot, reach a file —
/// a missing intermediate directory or a missing or mistyped final entry
/// fails, and a partial match is never reported as success.
pub proof fn lemma_depth_handling(node: FsNode, segs: Seq<Seq<char>>)
    requires
        segs.len() > 0,
        forall|k: int| 0 <= k < segs.len() ==> segs[k].len() > 0,
    ensures
        resolve(node, segs) is Some <==> path_names_file(node, segs),
    decreases segs.len(),
{
    match node {
        FsNode::File(..) => {},
        FsNode::Dir(entries) => {
            assert(seg_key(segs[0]) == segs[0]);
            match spec_lookup(entries@, segs[0]) {
                None => {},
                Some(child) => {
                    if segs.len() > 1 {
                        assert(forall|k: int|
                            0 <= k < segs.drop_first().len() ==> segs.drop_first()[k].len() > 0);
                        lemma_depth_handling(child, segs.drop_first());
                    }
                },
            }
        },
    }
}

/// Type mismatch: a final segment whose directory entry is itself a
/// directory does not resolve — a directory never stands in for a file.
pub proof fn lemma_type_mismatch(tree: FsNode, seg: Seq<char>)
    requires
        tree is Dir,
        spec_lookup(tree->Dir_0@, seg_key(seg)) matches Some(child) && child is Dir,
    ensures
        resolve(tree, seq![seg]) is None,
{
    assert(seq![seg][0] == seg);
}

/// File-as-directory rejection: once a file is matched with segments still
/// remaining, resolution fails — a file has no sub-paths.
pub proof fn lemma_file_as_directory_rejection(tree: FsNode, segs: Seq<Seq<char>>)
    requires
        tree is Dir,
        segs.len() >= 2,
        spec_lookup(tree->Dir_0@, seg_key(segs[0])) matches Some(child) && child is File,
    ensures
        resolve(tree, segs) is None,
{
    let child = spec_lookup(tree->Dir_0@, seg_key(segs[0]))->Some_0;
    assert(segs.drop_first().len() > 0);
    assert(resolve(child, segs.drop_first()) is None);
}

} // verus!

