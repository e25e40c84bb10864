//! Nodes and the registry that holds them by title.

use vstd::prelude::*;
use crate::ast::{NodeName, Step, StepModel, step_models};
use crate::table::Table;

verus! {

/// A named, independently addressable block of script.
#[derive(Debug)]
pub struct Node {
    pub title: NodeName,
    /// Header lines other than the title.
    pub extra: Table<String>,
    pub steps: Vec<Step>,
    /// Whether a conversation has ever been started at or moved to this
    /// node.
    pub visited: bool,
}

pub ghost struct NodeModel {
    pub title: Seq<char>,
    pub extra: Map<Seq<char>, Seq<char>>,
    pub steps: Seq<StepModel>,
    pub visited: bool,
}

/// Header metadata as a map from key to value.
pub open spec fn extra_model(extra: Table<String>) -> Map<Seq<char>, Seq<char>> {
    Map::new(|k: Seq<char>| extra.has(k), |k: Seq<char>| extra.at(k)@)
}

impl View for Node {
    type V = NodeModel;

    open spec fn view(&self) -> NodeModel {
        NodeModel {
            title: self.title@,
            extra: extra_model(self.extra),
            steps: step_models(self.steps@),
            visited: self.visited,
        }
    }
}

/// What a list of nodes stands for.
pub open spec fn node_models(nodes: Seq<Node>) -> Seq<NodeModel> {
    Seq::new(nodes.len(), |i: int| nodes[i]@)
}

/// The nodes with the node called `name` marked as visited, if there is
/// one.
pub open spec fn visit(nodes: Map<Seq<char>, NodeModel>, name: Seq<char>) -> Map<
    Seq<char>,
    NodeModel,
> {
    if nodes.contains_key(name) {
        nodes.insert(name, NodeModel { visited: true, ..nodes[name] })
    } else {
        nodes
    }
}

/// A collection of nodes, each held under its title.
#[derive(Debug)]
pub struct Nodes(pub Table<Node>);

impl Nodes {
    /// Every node is held under its own title, and no title twice.
    pub open spec fn wf(&self) -> bool {
        &&& self.0.wf()
        &&& self.0.names().len() == self.0.items().len()
        &&& forall|i: int|
            0 <= i < self.0.names().len() ==> (#[trigger] self.0.items()[i]).title@
                == self.0.names()[i]
    }

    /// Whether a node of this title is held.
    pub open spec fn has(&self, title: Seq<char>) -> bool {
        self.0.has(title)
    }

    /// The node of this title.
    pub open spec fn at(&self, title: Seq<char>) -> NodeModel {
        self.0.at(title)@
    }

    /// The nodes as a map from title to node.
    pub open spec fn model(&self) -> Map<Seq<char>, NodeModel> {
        Map::new(|k: Seq<char>| self.has(k), |k: Seq<char>| self.at(k))
    }

    /// For each title held, whether its node was visited.
    pub open spec fn visited(&self) -> Map<Seq<char>, bool> {
        Map::new(|k: Seq<char>| self.0.has(k), |k: Seq<char>| self.0.at(k).visited)
    }

    pub fn new() -> (nodes: Nodes)
        ensures
            nodes.wf(),
            nodes.model() == Map::<Seq<char>, NodeModel>::empty(),
    {
        let t: Table<Node> = Table::new();
        proof {
            t.lemma_len();
        }
        assert forall|k: Seq<char>| !t.has(k) by {
            assert(!t.map().contains_key(k));
        }
        let nodes = Nodes(t);
        assert(nodes.model() =~= Map::<Seq<char>, NodeModel>::empty());
        nodes
    }

    /// The node called `name`, if there is one.
    pub fn get(&self, name: &NodeName) -> (r: Option<&Node>)
        requires
            self.wf(),
        ensures
            r is Some <==> self.model().contains_key(name@),
            r matches Some(node) ==> node@ == self.model()[name@] && node.title@ == name@,
    {
        match self.0.position(&name.0) {
            Some(i) => {
                proof {
                    self.0.lemma_slot(i as int);
                }
                Some(self.0.item_at(i))
            },
            None => None,
        }
    }

    /// Adds `node` under its title, in place of a node of that title held
    /// before.
    pub fn insert(&mut self, node: Node)
        requires
            old(self).wf(),
        ensures
            final(self).wf(),
            final(self).model() == old(self).model().insert(node.title@, node@),
    {
        let name = node.title.0.clone();
        let ghost before = self.0;
        self.0.insert(name, node);
        proof {
            self.0.lemma_len();
            assert forall|i: int| 0 <= i < self.0.names().len() implies (
            #[trigger] self.0.items()[i]).title@ == self.0.names()[i] by {
                self.0.lemma_slot(i);
                let k = self.0.names()[i];
                assert(self.0.map().contains_key(k));
                assert(self.0.map()[k] == self.0.items()[i]);
                if k != node.title@ {
                    assert(before.map().contains_key(k));
                    let j = before.slot(k);
                    before.lemma_slot(j);
                }
            }
            assert forall|k: Seq<char>| self.has(k) == (k == node.title@ || old(self).has(k)) by {
                assert(self.0.map().contains_key(k) == (k == node.title@
                    || before.map().contains_key(k)));
            }
            assert(self.0.map().contains_key(node.title@));
            assert(self.0.map()[node.title@] == node);
            assert(self.0.at(node.title@) == node);
            assert forall|k: Seq<char>| k != node.title@ && old(self).has(k) implies self.at(k)
                == old(self).at(k) by {
                assert(self.0.map()[k] == before.map()[k]);
            }
            assert(self.model() =~= old(self).model().insert(node.title@, node@));
        }
    }

    /// Marks the node called `name` as visited; without such a node nothing
    /// changes.
    pub fn mark_visited(&mut self, name: &NodeName)
        requires
            old(self).wf(),
        ensures
            final(self).wf(),
            final(self).model() == visit(old(self).model(), name@),
    {
        match self.0.position(&name.0) {
            Some(i) => {
                let ghost before = self.0;
                let node = self.0.item_mut(i);
                node.visited = true;
                proof {
                    assert forall|k: Seq<char>| self.has(k) == old(self).has(k) by {
                        if before.has(k) {
                            let j = before.slot(k);
                            assert(self.0.names()[j] == k);
                        }
                        if self.0.has(k) {
                            let j = self.0.slot(k);
                            assert(before.names()[j] == k);
                        }
                    }
                    assert forall|k: Seq<char>| old(self).has(k) implies self.at(k) == (if k
                        == name@ {
                        NodeModel { visited: true, ..old(self).at(k) }
                    } else {
                        old(self).at(k)
                    }) by {
                        let j = before.slot(k);
                        before.lemma_slot(j);
                        assert(self.0.names()[j] == k);
                        self.0.lemma_slot(j);
                        before.lemma_slot(i as int);
                    }
                    assert(self.model() =~= visit(old(self).model(), name@));
                }
            },
            None => {
                assert(self.model() =~= visit(old(self).model(), name@));
            },
        }
    }
}

} // verus!
