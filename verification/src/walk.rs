//! Enumeration of candidate chart files from a model of a directory tree.
//!
//! The filesystem itself is outside this library: a caller probes it and
//! hands over an [`FsNode`] describing what it found under a root path. The
//! verified walk then yields every file in depth-first order, or the first
//! path that names neither a file nor a directory.

use vstd::prelude::*;

verus! {

/// What a root path turned out to be: a plain file, a directory with its
/// entries in reading order, or something that is neither (a missing path, a
/// broken link, a special device). Every node carries its full path.
pub enum FsNode {
    File(String),
    Dir(String, Vec<FsNode>),
    Other(String),
}

/// The files under `n` in depth-first order, or the path of the first entry
/// that is neither a file nor a directory.
pub open spec fn walk(n: FsNode) -> Result<Seq<Seq<char>>, Seq<char>>
    decreases n,
{
    match n {
        FsNode::File(p) => Ok(seq![p@]),
        FsNode::Dir(_, cs) => walk_all(cs@),
        FsNode::Other(p) => Err(p@),
    }
}

/// The concatenated walk of a sequence of sibling nodes; an error in an
/// earlier sibling wins over one in a later sibling.
pub open spec fn walk_all(cs: Seq<FsNode>) -> Result<Seq<Seq<char>>, Seq<char>>
    decreases cs,
{
    if cs.len() == 0 {
        Ok(Seq::empty())
    } else {
        match walk_all(cs.drop_last()) {
            Err(p) => Err(p),
            Ok(init) => match walk(cs.last()) {
                Err(p) => Err(p),
                Ok(rest) => Ok(init + rest),
            },
        }
    }
}

/// The message that enumeration reports for a path that names neither a file
/// nor a directory.
pub open spec fn invalid_path_msg(p: Seq<char>) -> Seq<char> {
    "invalid file type, path: "@ + p
}

/// Once a prefix of the siblings has failed, the walk of all of them fails
/// with the same path.
proof fn lemma_walk_all_err_extends(cs: Seq<FsNode>, i: int)
    requires
        0 <= i <= cs.len(),
        walk_all(cs.subrange(0, i)) is Err,
    ensures
        walk_all(cs) == walk_all(cs.subrange(0, i)),
    decreases cs.len() - i,
{
    if i == cs.len() {
        assert(cs.subrange(0, i) =~= cs);
    } else {
        assert(cs.subrange(0, i + 1).drop_last() =~= cs.subrange(0, i));
        assert(walk_all(cs.subrange(0, i + 1)) == walk_all(cs.subrange(0, i)));
        lemma_walk_all_err_extends(cs, i + 1);
    }
}

/// Appends to `res` every file under `node`, depth-first; on the first entry
/// that is neither file nor directory it stops and reports that entry's path.
pub fn append_file_lists(node: &FsNode, res: &mut Vec<String>) -> (r: Result<(), String>)
    ensures
        match walk(*node) {
            Ok(files) => r == Ok::<(), String>(()) && final(res).deep_view() == old(
                res,
            ).deep_view() + files,
            Err(p) => r matches Err(m) && m@ == invalid_path_msg(p),
        },
    decreases *node,
{
    match node {
        FsNode::File(p) => {
            let ghost old_dv = res.deep_view();
            res.push(p.clone());
            proof {
                assert(res.deep_view() =~= old_dv + seq![p@]);
            }
            Ok(())
        },
        FsNode::Dir(_, cs) => {
            let n = cs.len();
            let mut i: usize = 0;
            proof {
                assert(cs@.subrange(0, 0) =~= Seq::<FsNode>::empty());
                assert(res.deep_view() =~= old(res).deep_view() + walk_all(
                    cs@.subrange(0, 0),
                )->Ok_0);
            }
            #[verifier::loop_isolation(false)]
            while i < n
                invariant
                    n == cs@.len(),
                    i <= n,
                    walk_all(cs@.subrange(0, i as int)) is Ok,
                    res.deep_view() == old(res).deep_view() + walk_all(
                        cs@.subrange(0, i as int),
                    )->Ok_0,
                decreases n - i,
            {
                let ghost pre = cs@.subrange(0, i as int);
                proof {
                    assert(decreases_to!(*node => *cs));
                    assert(decreases_to!(*cs => cs@));
                    assert(decreases_to!(cs@ => cs@[i as int]));
                    assert(decreases_to!(*node => cs@[i as int]));
                }
                let sub = append_file_lists(&cs[i], res);
                proof {
                    assert(cs@.subrange(0, i as int + 1).drop_last() =~= pre);
                    assert(cs@.subrange(0, i as int + 1).last() == cs@[i as int]);
                }
                match sub {
                    Ok(()) => {
                        proof {
                            assert(walk_all(cs@.subrange(0, i as int + 1)) is Ok);
                            assert(res.deep_view() =~= old(res).deep_view() + walk_all(
                                cs@.subrange(0, i as int + 1),
                            )->Ok_0);
                        }
                    },
                    Err(m) => {
                        proof {
                            assert(walk(cs@[i as int]) is Err);
                            assert(walk_all(cs@.subrange(0, i as int + 1)) == walk(
                                cs@[i as int],
                            ));
                            lemma_walk_all_err_extends(cs@, i as int + 1);
                            assert(walk(*node) == walk_all(cs@));
                        }
                        return Err(m);
                    },
                }
                i += 1;
            }
            proof {
                assert(cs@.subrange(0, n as int) =~= cs@);
            }
            Ok(())
        },
        FsNode::Other(p) => {
            let msg: String = String::from_str("invalid file type, path: ").concat(p.as_str());
            proof {
                assert(msg@ == invalid_path_msg(p@));
            }
            Err(msg)
        },
    }
}

/// The list of every file under `node`, depth-first, or the path of the
/// first entry that is neither a file nor a directory.
pub fn get_file_lists(node: &FsNode) -> (r: Result<Vec<String>, String>)
    ensures
        match walk(*node) {
            Ok(files) => r matches Ok(v) && v.deep_view() == files,
            Err(p) => r matches Err(m) && m@ == invalid_path_msg(p),
        },
{
    let mut v: Vec<String> = Vec::new();
    proof {
        assert(v.deep_view() =~= Seq::<Seq<char>>::empty());
    }
    match append_file_lists(node, &mut v) {
        Ok(()) => {
            proof {
                if walk(*node) is Ok {
                    assert(v.deep_view() =~= walk(*node)->Ok_0);
                }
            }
            Ok(v)
        },
        Err(m) => Err(m),
    }
}

} // verus!
