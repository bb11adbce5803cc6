//! Grouping students by fingerprint, keeping the fingerprints that two or
//! more students share.
use vstd::prelude::*;

verus! {

/// The students, by position, whose fingerprint is `f`, among the first `n`,
/// in increasing order. A student without a fingerprint has `None`.
pub open spec fn sharers_upto(fps: Seq<Option<u64>>, f: u64, n: int) -> Seq<usize>
    decreases n,
{
    if n <= 0 {
        Seq::empty()
    } else if fps[n - 1] == Some(f) {
        sharers_upto(fps, f, n - 1).push((n - 1) as usize)
    } else {
        sharers_upto(fps, f, n - 1)
    }
}

/// All students whose fingerprint is `f`, in increasing order.
pub open spec fn sharers(fps: Seq<Option<u64>>, f: u64) -> Seq<usize> {
    sharers_upto(fps, f, fps.len() as int)
}

/// Two distinct students have fingerprint `f`.
pub open spec fn shared(fps: Seq<Option<u64>>, f: u64) -> bool {
    exists|i: int, j: int|
        0 <= i < fps.len() && 0 <= j < fps.len() && i != j && #[trigger] fps[i] == Some(f)
            && #[trigger] fps[j] == Some(f)
}

/// Student `i` shares its fingerprint with another student.
pub open spec fn colliding(fps: Seq<Option<u64>>, i: int) -> bool {
    fps[i] is Some && shared(fps, fps[i]->0)
}

/// A fingerprint shared by two or more students, with all of them.
#[derive(Debug, Clone)]
pub struct CollisionGroup {
    pub fingerprint: u64,
    pub students: Vec<usize>,
}

proof fn lemma_sharers_upto(fps: Seq<Option<u64>>, f: u64, n: int)
    requires
        0 <= n <= fps.len(),
        fps.len() <= usize::MAX,
    ensures
        forall|k: int|
            0 <= k < sharers_upto(fps, f, n).len() ==> 0 <= #[trigger] sharers_upto(fps, f, n)[k]
                < n && fps[sharers_upto(fps, f, n)[k] as int] == Some(f),
        forall|k1: int, k2: int|
            0 <= k1 < k2 < sharers_upto(fps, f, n).len() ==> #[trigger] sharers_upto(fps, f, n)[k1]
                < #[trigger] sharers_upto(fps, f, n)[k2],
        forall|j: int|
            0 <= j < n && #[trigger] fps[j] == Some(f) ==> sharers_upto(fps, f, n).contains(
                j as usize,
            ),
    decreases n,
{
    if n > 0 {
        lemma_sharers_upto(fps, f, n - 1);
        let prev = sharers_upto(fps, f, n - 1);
        if fps[n - 1] == Some(f) {
            let cur = prev.push((n - 1) as usize);
            assert forall|j: int| 0 <= j < n && #[trigger] fps[j] == Some(f) implies cur.contains(
                j as usize,
            ) by {
                if j < n - 1 {
                    let k = choose|k: int| 0 <= k < prev.len() && prev[k] == j as usize;
                    assert(cur[k] == j as usize);
                } else {
                    assert(cur[prev.len() as int] == j as usize);
                }
            }
        }
    }
}

/// Facts on `sharers`: its members are exactly the students with fingerprint
/// `f`, each once, and there are two or more of them exactly when `f` is shared.
pub proof fn lemma_sharers(fps: Seq<Option<u64>>, f: u64)
    requires
        fps.len() <= usize::MAX,
    ensures
        forall|k: int|
            0 <= k < sharers(fps, f).len() ==> 0 <= #[trigger] sharers(fps, f)[k] < fps.len()
                && fps[sharers(fps, f)[k] as int] == Some(f),
        forall|k1: int, k2: int|
            0 <= k1 < k2 < sharers(fps, f).len() ==> #[trigger] sharers(fps, f)[k1]
                < #[trigger] sharers(fps, f)[k2],
        forall|j: int|
            0 <= j < fps.len() && #[trigger] fps[j] == Some(f) ==> sharers(fps, f).contains(
                j as usize,
            ),
        sharers(fps, f).len() >= 2 <==> shared(fps, f),
{
    let s = sharers(fps, f);
    lemma_sharers_upto(fps, f, fps.len() as int);
    if s.len() >= 2 {
        assert(s[0] < s[1]);
        assert(fps[s[0] as int] == Some(f) && fps[s[1] as int] == Some(f));
    }
    if shared(fps, f) {
        let (i, j) = choose|i: int, j: int|
            0 <= i < fps.len() && 0 <= j < fps.len() && i != j && #[trigger] fps[i] == Some(f)
                && #[trigger] fps[j] == Some(f);
        assert(s.contains(i as usize));
        assert(s.contains(j as usize));
        let ki = choose|k: int| 0 <= k < s.len() && s[k] == i as usize;
        let kj = choose|k: int| 0 <= k < s.len() && s[k] == j as usize;
        assert(ki != kj);
    }
}

/// The students, among the first `upto`, whose fingerprint is `f`, in increasing order.
pub fn sharers_of(fps: &Vec<Option<u64>>, f: u64, upto: usize) -> (r: Vec<usize>)
    requires
        upto <= fps@.len(),
    ensures
        r@ == sharers_upto(fps@, f, upto as int),
{
    let mut r: Vec<usize> = Vec::new();
    let mut j: usize = 0;
    while j < upto
        invariant
            j <= upto <= fps@.len(),
            r@ == sharers_upto(fps@, f, j as int),
        decreases upto - j,
    {
        if fps[j] == Some(f) {
            r.push(j);
        }
        j = j + 1;
    }
    r
}

/// `groups` is exactly the collision set of `fps`: each fingerprint shared by
/// two or more students appears once, with every student that has it (in
/// increasing order), and no other fingerprint appears.
pub open spec fn exact_groups(fps: Seq<Option<u64>>, groups: Seq<CollisionGroup>) -> bool {
    &&& forall|k: int|
        0 <= k < groups.len() ==> (#[trigger] groups[k]).students@ == sharers(fps, groups[k].fingerprint)
            && shared(fps, groups[k].fingerprint)
    &&& forall|f: u64| shared(fps, f) <==> exists|k: int|
        0 <= k < groups.len() && (#[trigger] groups[k]).fingerprint == f
    &&& forall|k1: int, k2: int|
        0 <= k1 < k2 < groups.len() ==> (#[trigger] groups[k1]).fingerprint != (#[trigger] groups[k2]).fingerprint
}

/// The groups as a set of (fingerprint, students) pairs, order aside.
pub open spec fn group_set(groups: Seq<CollisionGroup>) -> Set<(u64, Seq<usize>)> {
    Set::new(|p: (u64, Seq<usize>)| exists|k: int|
        0 <= k < groups.len() && (#[trigger] groups[k]).fingerprint == p.0 && groups[k].students@ == p.1)
}

/// The collision set is determined by the fingerprints: two results that are
/// exact for the same fingerprints hold the same groups.
pub proof fn lemma_groups_determined(
    fps: Seq<Option<u64>>,
    g1: Seq<CollisionGroup>,
    g2: Seq<CollisionGroup>,
)
    requires
        exact_groups(fps, g1),
        exact_groups(fps, g2),
    ensures
        group_set(g1) == group_set(g2),
{
    assert forall|p: (u64, Seq<usize>)| group_set(g1).contains(p) implies group_set(g2).contains(p) by {
        let k = choose|k: int| 0 <= k < g1.len() && (#[trigger] g1[k]).fingerprint == p.0 && g1[k].students@ == p.1;
        assert(shared(fps, g1[k].fingerprint));
        let k2 = choose|k2: int| 0 <= k2 < g2.len() && (#[trigger] g2[k2]).fingerprint == p.0;
        assert(g2[k2].students@ == p.1);
    }
    assert forall|p: (u64, Seq<usize>)| group_set(g2).contains(p) implies group_set(g1).contains(p) by {
        let k = choose|k: int| 0 <= k < g2.len() && (#[trigger] g2[k]).fingerprint == p.0 && g2[k].students@ == p.1;
        assert(shared(fps, g2[k].fingerprint));
        let k1 = choose|k1: int| 0 <= k1 < g1.len() && (#[trigger] g1[k1]).fingerprint == p.0;
        assert(g1[k1].students@ == p.1);
    }
    assert(group_set(g1) =~= group_set(g2));
}

/// The fingerprints shared by two or more students, each once, with every
/// student that has it (in increasing order). A fingerprint that one student
/// alone has is left out.
pub fn collision_groups(fps: &Vec<Option<u64>>) -> (r: Vec<CollisionGroup>)
    ensures
        exact_groups(fps@, r@),
{
    let n = fps.len();
    let mut groups: Vec<CollisionGroup> = Vec::new();
    let mut i: usize = 0;
    while i < n
        invariant
            n == fps@.len(),
            i <= n,
            forall|k: int|
                0 <= k < groups@.len() ==> (#[trigger] groups@[k]).students@ == sharers(
                    fps@,
                    groups@[k].fingerprint,
                ) && shared(fps@, groups@[k].fingerprint) && sharers_upto(
                    fps@,
                    groups@[k].fingerprint,
                    i as int,
                ).len() > 0,
            forall|f: u64|
                shared(fps@, f) && #[trigger] sharers_upto(fps@, f, i as int).len() > 0
                    ==> exists|k: int| 0 <= k < groups@.len() && (#[trigger] groups@[k]).fingerprint == f,
            forall|k1: int, k2: int|
                0 <= k1 < k2 < groups@.len() ==> (#[trigger] groups@[k1]).fingerprint
                    != (#[trigger] groups@[k2]).fingerprint,
        decreases n - i,
    {
        proof {
            assert forall|f: u64| #[trigger] sharers_upto(fps@, f, i as int).len() > 0 implies sharers_upto(
                fps@,
                f,
                i + 1,
            ).len() > 0 by {}
        }
        if let Some(f) = fps[i] {
            let before = sharers_of(fps, f, i);
            if before.len() == 0 {
                let members = sharers_of(fps, f, n);
                proof {
                    lemma_sharers(fps@, f);
                    assert(sharers_upto(fps@, f, i + 1).len() > 0);
                }
                if members.len() >= 2 {
                    let ghost old_groups = groups@;
                    groups.push(CollisionGroup { fingerprint: f, students: members });
                    proof {
                        assert(groups@[old_groups.len() as int].fingerprint == f);
                        assert forall|k1: int, k2: int|
                            0 <= k1 < k2 < groups@.len() implies (#[trigger] groups@[k1]).fingerprint
                                != (#[trigger] groups@[k2]).fingerprint by {
                            if k2 == old_groups.len() {
                                assert(old_groups[k1] == groups@[k1]);
                            }
                        }
                        assert forall|g: u64|
                            shared(fps@, g) && #[trigger] sharers_upto(fps@, g, i + 1).len() > 0
                                implies exists|k: int|
                                0 <= k < groups@.len() && (#[trigger] groups@[k]).fingerprint == g by {
                            if g == f {
                                assert(groups@[old_groups.len() as int].fingerprint == g);
                            } else {
                                assert(sharers_upto(fps@, g, i + 1) == sharers_upto(fps@, g, i as int));
                                let k = choose|k: int|
                                    0 <= k < old_groups.len() && (#[trigger] old_groups[k]).fingerprint == g;
                                assert(groups@[k] == old_groups[k]);
                            }
                        }
                    }
                } else {
                    proof {
                        assert forall|g: u64|
                            shared(fps@, g) && #[trigger] sharers_upto(fps@, g, i + 1).len() > 0
                                implies exists|k: int|
                                0 <= k < groups@.len() && (#[trigger] groups@[k]).fingerprint == g by {
                            assert(sharers_upto(fps@, g, i + 1) == sharers_upto(fps@, g, i as int));
                        }
                    }
                }
            } else {
                proof {
                    assert forall|g: u64|
                        shared(fps@, g) && #[trigger] sharers_upto(fps@, g, i + 1).len() > 0
                            implies exists|k: int|
                            0 <= k < groups@.len() && (#[trigger] groups@[k]).fingerprint == g by {
                        assert(sharers_upto(fps@, g, i as int).len() > 0);
                    }
                }
            }
        } else {
            proof {
                assert forall|g: u64|
                    shared(fps@, g) && #[trigger] sharers_upto(fps@, g, i + 1).len() > 0
                        implies exists|k: int|
                        0 <= k < groups@.len() && (#[trigger] groups@[k]).fingerprint == g by {
                    assert(sharers_upto(fps@, g, i + 1) == sharers_upto(fps@, g, i as int));
                }
            }
        }
        i = i + 1;
    }
    proof {
        assert forall|f: u64| shared(fps@, f) implies exists|k: int|
            0 <= k < groups@.len() && (#[trigger] groups@[k]).fingerprint == f by {
            lemma_sharers(fps@, f);
            assert(sharers_upto(fps@, f, n as int).len() > 0);
        }
    }
    groups
}

/// For each student, whether another student has the same fingerprint.
pub fn collision_flags(fps: &Vec<Option<u64>>) -> (r: Vec<bool>)
    ensures
        r@.len() == fps@.len(),
        forall|i: int| 0 <= i < fps@.len() ==> r@[i] == colliding(fps@, i),
{
    let n = fps.len();
    let mut r: Vec<bool> = Vec::new();
    let mut i: usize = 0;
    while i < n
        invariant
            n == fps@.len(),
            i <= n,
            r@.len() == i,
            forall|j: int| 0 <= j < i ==> r@[j] == colliding(fps@, j),
        decreases n - i,
    {
        let flag = match fps[i] {
            Some(f) => {
                let members = sharers_of(fps, f, n);
                proof {
                    lemma_sharers(fps@, f);
                }
                members.len() >= 2
            },
            None => false,
        };
        r.push(flag);
        i = i + 1;
    }
    r
}

} // verus!
