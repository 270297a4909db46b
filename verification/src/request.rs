//! The request handler: splitting an HTTP request path into segments and
//! answering one lookup against the active snapshot.

use vstd::prelude::*;

use crate::fs::{resolve, segs_of, FsNode};

verus! {

/// The pieces of `s` split on `'/'`: always at least one piece, with an
/// empty piece for each leading, trailing or doubled slash.
pub open spec fn split_slash(s: Seq<char>) -> Seq<Seq<char>>
    decreases s.len(),
{
    if s.len() == 0 {
        seq![Seq::<char>::empty()]
    } else if s.last() == '/' {
        split_slash(s.drop_last()).push(Seq::<char>::empty())
    } else {
        let prior = split_slash(s.drop_last());
        prior.update(prior.len() - 1, prior.last().push(s.last()))
    }
}

/// Splitting yields one piece more than there are slashes; in particular it
/// never yields an empty sequence of pieces.
pub proof fn lemma_split_slash_len(s: Seq<char>)
    ensures
        split_slash(s).len() >= 1,
    decreases s.len(),
{
    if s.len() > 0 {
        lemma_split_slash_len(s.drop_last());
    }
}

/// The segments a request path stands for: its pieces between slashes, with
/// the piece before the first slash dropped — a path `/a/b` yields
/// `["a", "b"]`, and the bare path `/` yields one empty segment.
pub open spec fn request_segments(path: Seq<char>) -> Seq<Seq<char>> {
    split_slash(path).drop_first()
}

/// Splits a request path into the segments that resolution consumes,
/// following the convention of [`request_segments`].
pub fn split_request_path(path: &str) -> (segs: Vec<String>)
    ensures
        segs_of(segs@) == request_segments(path@),
{
    let n = path.unicode_len();
    let mut pieces: Vec<String> = Vec::new();
    let mut start: usize = 0;
    let mut i: usize = 0;
    proof {
        assert(path@.take(0).len() == 0);
        assert(segs_of(pieces@) =~= split_slash(path@.take(0)).drop_last());
        assert(split_slash(path@.take(0)).last() =~= path@.subrange(0, 0));
    }
    while i < n
        invariant
            start <= i <= n,
            n == path@.len(),
            segs_of(pieces@) == split_slash(path@.take(i as int)).drop_last(),
            split_slash(path@.take(i as int)).last() == path@.subrange(start as int, i as int),
        decreases n - i,
    {
        proof {
            lemma_split_slash_len(path@.take(i as int));
            assert(path@.take(i as int + 1).drop_last() =~= path@.take(i as int));
            assert(path@.take(i as int + 1).last() == path@[i as int]);
        }
        let c = path.get_char(i);
        if c == '/' {
            let piece = path.substring_char(start, i).to_owned();
            let ghost pre = pieces@;
            pieces.push(piece);
            proof {
                let prior = split_slash(path@.take(i as int));
                let stepped = split_slash(path@.take(i as int + 1));
                assert(stepped == prior.push(Seq::<char>::empty()));
                assert(piece@ == prior.last());
                assert(segs_of(pre).len() == pre.len());
                assert(pre.len() + 1 == prior.len());
                assert forall|k: int| 0 <= k < pieces@.len() implies segs_of(pieces@)[k]
                    == prior[k] by {
                    assert(segs_of(pieces@)[k] == pieces@[k]@);
                    if k < pre.len() {
                        assert(pieces@[k] == pre[k]);
                        assert(segs_of(pre)[k] == pre[k]@);
                        assert(segs_of(pre)[k] == prior.drop_last()[k]);
                        assert(prior.drop_last()[k] == prior[k]);
                    } else {
                        assert(pieces@[k] == piece);
                        assert(prior[k] == prior.last());
                    }
                }
                assert(segs_of(pieces@) =~= stepped.drop_last());
                assert(stepped.last() =~= path@.subrange(i as int + 1, i as int + 1));
            }
            start = i + 1;
        } else {
            proof {
                let prior = split_slash(path@.take(i as int));
                let stepped = split_slash(path@.take(i as int + 1));
                assert(stepped == prior.update(prior.len() - 1, prior.last().push(path@[i as int])));
                assert(stepped.drop_last() =~= prior.drop_last());
                assert(stepped.last() =~= path@.subrange(start as int, i as int + 1));
            }
        }
        i = i + 1;
    }
    let last_piece = path.substring_char(start, n).to_owned();
    let ghost pre = pieces@;
    pieces.push(last_piece);
    proof {
        assert(path@.take(n as int) =~= path@);
        lemma_split_slash_len(path@);
        let full = split_slash(path@);
        assert(last_piece@ == full.last());
        assert(segs_of(pre).len() == pre.len());
        assert(pre.len() + 1 == full.len());
        assert forall|k: int| 0 <= k < pieces@.len() implies segs_of(pieces@)[k] == full[k] by {
            assert(segs_of(pieces@)[k] == pieces@[k]@);
            if k < pre.len() {
                assert(pieces@[k] == pre[k]);
                assert(segs_of(pre)[k] == pre[k]@);
                assert(segs_of(pre)[k] == full.drop_last()[k]);
                assert(full.drop_last()[k] == full[k]);
            } else {
                assert(pieces@[k] == last_piece);
                assert(full[k] == full.last());
            }
        }
        assert(segs_of(pieces@) =~= full);
    }
    let ghost whole = pieces@;
    pieces.remove(0);
    proof {
        assert(segs_of(whole).len() == whole.len());
        assert forall|k: int| 0 <= k < pieces@.len() implies segs_of(pieces@)[k] == split_slash(
            path@,
        ).drop_first()[k] by {
            assert(segs_of(pieces@)[k] == pieces@[k]@);
            assert(pieces@[k] == whole[k + 1]);
            assert(segs_of(whole)[k + 1] == whole[k + 1]@);
            assert(segs_of(whole)[k + 1] == split_slash(path@)[k + 1]);
        }
        assert(segs_of(pieces@) =~= split_slash(path@).drop_first());
    }
    pieces
}

/// The one observable outcome of a request: the resolved payload with its
/// MIME essence, or a not-found answer.
pub enum Reply {
    Content(String, Vec<u8>),
    NotFound,
}

/// What a request for `path` must be answered with, given the snapshot it
/// was accepted under.
pub open spec fn spec_reply(tree: FsNode, path: Seq<char>) -> Option<(Seq<char>, Seq<u8>)> {
    resolve(tree, request_segments(path))
}

/// Answers one request against one snapshot: the path is split on slashes
/// with its leading piece dropped, resolved, and the outcome is the matched
/// file's MIME essence and bytes, or not-found. The reply is a pure function
/// of the single snapshot handle the request holds — no I/O, no other state.
pub fn handle_request(tree: &FsNode, path: &str) -> (r: Reply)
    ensures
        match spec_reply(*tree, path@) {
            Some(payload) => r matches Reply::Content(mime, body) && mime@ == payload.0 && body@
                == payload.1,
            None => r is NotFound,
        },
{
    let segs = split_request_path(path);
    match tree.get(segs.as_slice()) {
        Some((mime, body)) => Reply::Content(mime.clone(), vstd::slice::slice_to_vec(
            body.as_slice(),
        )),
        None => Reply::NotFound,
    }
}

} // verus!
