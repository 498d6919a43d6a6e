//! Breadth-first search over a map of file sets.

use vstd::prelude::*;
use crate::file_set::FileSet;
use crate::string_map::StringMap;
use crate::text::{lemma_texts_push, texts};
use super::dependency_graph::{edges_of, is_chain, neighbours, reachable, reaches, Edges};

verus! {

/// Every file of `from` reaches itself.
pub proof fn lemma_reaches_start(edges: Edges, from: Set<Seq<char>>, file: Seq<char>)
    requires
        from.contains(file),
    ensures
        reaches(edges, from, file),
{
    let chain = seq![file];
    assert(is_chain(edges, chain));
    assert(chain.len() > 0 && from.contains(chain[0]) && chain.last() == file);
}

/// What is reached reaches its neighbours.
pub proof fn lemma_reaches_step(
    edges: Edges,
    from: Set<Seq<char>>,
    file: Seq<char>,
    next: Seq<char>,
)
    requires
        reaches(edges, from, file),
        neighbours(edges, file).contains(next),
    ensures
        reaches(edges, from, next),
{
    let chain = choose|chain: Seq<Seq<char>>|
        chain.len() > 0 && from.contains(chain[0]) && chain.last() == file && #[trigger] is_chain(
            edges,
            chain,
        );
    let longer = chain.push(next);
    assert forall|i: int| 0 <= i < longer.len() - 1 implies neighbours(edges, longer[i]).contains(
        #[trigger] longer[i + 1],
    ) by {
        if i < chain.len() - 1 {
            assert(longer[i] == chain[i]);
            assert(longer[i + 1] == chain[i + 1]);
        }
    }
    assert(is_chain(edges, longer));
    assert(longer.len() > 0 && from.contains(longer[0]) && longer.last() == next);
}

/// A set that holds `from` and the neighbours of each of its members holds
/// the end of every chain that starts in `from`.
pub proof fn lemma_closed_holds_chain(
    edges: Edges,
    from: Set<Seq<char>>,
    closed: Set<Seq<char>>,
    chain: Seq<Seq<char>>,
)
    requires
        forall|s: Seq<char>| from.contains(s) ==> closed.contains(s),
        forall|v: Seq<char>, w: Seq<char>|
            closed.contains(v) && neighbours(edges, v).contains(w) ==> closed.contains(w),
        chain.len() > 0,
        from.contains(chain[0]),
        is_chain(edges, chain),
    ensures
        closed.contains(chain.last()),
    decreases chain.len(),
{
    if chain.len() > 1 {
        let shorter = chain.drop_last();
        assert forall|i: int| 0 <= i < shorter.len() - 1 implies neighbours(
            edges,
            shorter[i],
        ).contains(#[trigger] shorter[i + 1]) by {
            assert(shorter[i] == chain[i]);
            assert(shorter[i + 1] == chain[i + 1]);
        }
        lemma_closed_holds_chain(edges, from, closed, shorter);
        let k = chain.len() - 2;
        assert(shorter.last() == chain[k]);
        assert(neighbours(edges, chain[k]).contains(chain[k + 1]));
    }
}

/// A set of reached files that holds `from` and is closed under the edges is
/// all that `from` reaches.
pub proof fn lemma_closed_is_reachable(edges: Edges, from: Set<Seq<char>>, closed: Set<Seq<char>>)
    requires
        forall|s: Seq<char>| from.contains(s) ==> closed.contains(s),
        forall|v: Seq<char>, w: Seq<char>|
            closed.contains(v) && neighbours(edges, v).contains(w) ==> closed.contains(w),
        forall|v: Seq<char>| closed.contains(v) ==> reaches(edges, from, v),
    ensures
        closed == reachable(edges, from),
{
    assert forall|v: Seq<char>| reaches(edges, from, v) implies closed.contains(v) by {
        let chain = choose|chain: Seq<Seq<char>>|
            chain.len() > 0 && from.contains(chain[0]) && chain.last() == v && #[trigger] is_chain(
                edges,
                chain,
            );
        lemma_closed_holds_chain(edges, from, closed, chain);
    }
    assert(closed =~= reachable(edges, from));
}

/// `file` waits in the queue at or behind `head`.
pub open spec fn is_pending(queue: Seq<Seq<char>>, head: int, file: Seq<char>) -> bool {
    exists|i: int| head <= i < queue.len() && #[trigger] queue[i] == file
}

/// All that `start` reaches along the edges of `map`, `start` included, each
/// file once, in the order in which a breadth-first search meets them.
pub fn reach(map: &StringMap<FileSet>, start: &FileSet) -> (visited: FileSet)
    ensures
        visited@ == reachable(edges_of(*map), start@),
{
    let ghost edges = edges_of(*map);
    let ghost from = start@;
    let mut visited = FileSet::new();
    let mut queue: Vec<String> = start.to_vec();
    let mut head: usize = 0;
    proof {
        use_type_invariant(map);
        map.lemma_len();
        assert forall|i: int| 0 <= i < queue.len() implies reaches(
            edges,
            from,
            #[trigger] texts(queue@)[i],
        ) by {
            assert(start.order()[i] == texts(queue@)[i]);
            assert(start@.contains(start.order()[i]));
            lemma_reaches_start(edges, from, texts(queue@)[i]);
        }
        assert forall|s: Seq<char>| from.contains(s) implies is_pending(texts(queue@), 0, s) by {
            let i = choose|i: int| 0 <= i < start.order().len() && start.order()[i] == s;
            assert(texts(queue@)[i] == s);
        }
    }
    while head < queue.len()
        invariant
            head <= queue.len(),
            edges == edges_of(*map),
            from == start@,
            map.inv(),
            map@.dom().finite(),
            forall|v: Seq<char>| visited@.contains(v) ==> reaches(edges, from, v),
            forall|i: int| 0 <= i < queue.len() ==> reaches(edges, from, #[trigger] texts(queue@)[i]),
            forall|s: Seq<char>|
                from.contains(s) ==> visited@.contains(s) || is_pending(
                    texts(queue@),
                    head as int,
                    s,
                ),
            forall|v: Seq<char>, w: Seq<char>|
                visited@.contains(v) && neighbours(edges, v).contains(w) ==> visited@.contains(w)
                    || is_pending(texts(queue@), head as int, w),
        decreases map@.dom().difference(visited@).len(), queue.len() - head,
    {
        let file = queue[head].clone();
        let ghost waiting = texts(queue@);
        let ghost seen = visited@;
        let ghost old_head = head as int;
        proof {
            assert(waiting[old_head] == file@);
        }
        head = head + 1;
        if visited.contains(file.as_str()) {
            proof {
                assert forall|w: Seq<char>| is_pending(waiting, old_head, w) implies seen.contains(w)
                    || is_pending(waiting, head as int, w) by {
                    let i = choose|i: int| old_head <= i < waiting.len() && #[trigger] waiting[i] == w;
                    if i != old_head {
                        assert(waiting[i] == w);
                    }
                }
            }
        } else {
            visited.insert(file.clone());
            proof {
                assert forall|w: Seq<char>|
                    is_pending(waiting, old_head, w) implies visited@.contains(w) || is_pending(
                    waiting,
                    head as int,
                    w,
                ) by {
                    let i = choose|i: int| old_head <= i < waiting.len() && #[trigger] waiting[i] == w;
                    if i != old_head {
                        assert(waiting[i] == w);
                    }
                }
                if map@.contains_key(file@) {
                    assert(map@.dom().difference(visited@) =~= map@.dom().difference(seen).remove(
                        file@,
                    ));
                    assert(map@.dom().difference(seen).contains(file@));
                } else {
                    assert(map@.dom().difference(visited@) =~= map@.dom().difference(seen));
                }
            }
            match map.get(file.as_str()) {
                Some(next) => {
                    let count = next.len();
                    let mut j: usize = 0;
                    while j < count
                        invariant
                            j <= count,
                            count == next.order().len(),
                            head <= queue.len(),
                            waiting.len() <= queue.len(),
                            next@ == neighbours(edges, file@),
                            reaches(edges, from, file@),
                            forall|i: int|
                                0 <= i < waiting.len() ==> #[trigger] texts(queue@)[i] == waiting[i],
                            forall|i: int|
                                0 <= i < queue.len() ==> reaches(
                                    edges,
                                    from,
                                    #[trigger] texts(queue@)[i],
                                ),
                            forall|i: int|
                                0 <= i < j ==> visited@.contains(#[trigger] next.order()[i])
                                    || is_pending(texts(queue@), head as int, next.order()[i]),
                        decreases count - j,
                    {
                        let candidate = next.get(j);
                        let ghost before = texts(queue@);
                        if !visited.contains(candidate.as_str()) {
                            proof {
                                lemma_texts_push(queue@, *candidate);
                                assert(next@.contains(next.order()[j as int]));
                                lemma_reaches_step(edges, from, file@, candidate@);
                            }
                            queue.push(candidate.clone());
                            proof {
                                assert(texts(queue@)[before.len() as int] == candidate@);
                            }
                        }
                        proof {
                            assert forall|i: int| 0 <= i < j + 1 implies visited@.contains(
                                #[trigger] next.order()[i],
                            ) || is_pending(texts(queue@), head as int, next.order()[i]) by {
                                if i < j {
                                    if !visited@.contains(next.order()[i]) {
                                        let k = choose|k: int|
                                            head <= k < before.len() && #[trigger] before[k]
                                                == next.order()[i];
                                        assert(texts(queue@)[k] == next.order()[i]);
                                    }
                                } else if !visited@.contains(candidate@) {
                                    assert(texts(queue@)[before.len() as int] == candidate@);
                                }
                            }
                        }
                        j = j + 1;
                    }
                    proof {
                        assert forall|w: Seq<char>| neighbours(edges, file@).contains(
                            w,
                        ) implies visited@.contains(w) || is_pending(
                            texts(queue@),
                            head as int,
                            w,
                        ) by {
                            let i = choose|i: int|
                                0 <= i < next.order().len() && next.order()[i] == w;
                            assert(visited@.contains(next.order()[i]) || is_pending(
                                texts(queue@),
                                head as int,
                                next.order()[i],
                            ));
                        }
                    }
                },
                None => {},
            }
            proof {
                let now = texts(queue@);
                assert forall|w: Seq<char>| is_pending(waiting, head as int, w) implies is_pending(
                    now,
                    head as int,
                    w,
                ) by {
                    let i = choose|i: int| head <= i < waiting.len() && #[trigger] waiting[i] == w;
                    assert(now[i] == w);
                }
            }
        }
    }
    proof {
        assert forall|w: Seq<char>| !is_pending(texts(queue@), head as int, w) by {}
        lemma_closed_is_reachable(edges, from, visited@);
    }
    visited
}

/// The members of `set` that are not in `excluded`, in the order of `set`.
pub fn without(set: &FileSet, excluded: &FileSet) -> (rest: FileSet)
    ensures
        rest@ == set@.difference(excluded@),
{
    let mut rest = FileSet::new();
    let count = set.len();
    let mut i: usize = 0;
    while i < count
        invariant
            i <= count,
            count == set.order().len(),
            forall|p: Seq<char>|
                rest@.contains(p) <==> set.order().take(i as int).contains(p) && !excluded@.contains(
                    p,
                ),
        decreases count - i,
    {
        let ghost earlier = set.order().take(i as int);
        let ghost now = set.order().take(i + 1);
        let ghost kept = rest@;
        let member = set.get(i);
        if !excluded.contains(member.as_str()) {
            rest.insert(member.clone());
        }
        proof {
            assert(now =~= earlier.push(member@));
            assert forall|p: Seq<char>| now.contains(p) <==> earlier.contains(p) || p == member@ by {
                if earlier.contains(p) {
                    let k = choose|k: int| 0 <= k < earlier.len() && earlier[k] == p;
                    assert(now[k] == p);
                }
                if p == member@ {
                    assert(now[i as int] == p);
                }
            }
        }
        i = i + 1;
    }
    proof {
        assert(set.order().take(i as int) =~= set.order());
        assert(rest@ =~= set@.difference(excluded@));
    }
    rest
}

} // verus!
