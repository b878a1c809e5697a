//! The resolver: folds an ordered list of builder sources into one builder
//! by left-biased merge — earlier sources win — and finalizes the result.

use vstd::prelude::*;
use vstd::pervasive::arbitrary;
use crate::config::Config;
use crate::node::{Node, NodeModel, node_model};
use crate::semantics::{combine_node, lemma_combine_schema, node_built, node_missing, node_schema};
use crate::strings::strings_view;

verus! {

pub open spec fn nodes_model(ss: Seq<Node>) -> Seq<NodeModel> {
    ss.map_values(|n: Node| node_model(n))
}

/// The left fold of the sources under merge; the first source is the most
/// preferred.
pub open spec fn fold_nodes(ss: Seq<NodeModel>) -> NodeModel
    decreases ss.len(),
{
    if ss.len() == 0 {
        arbitrary()
    } else if ss.len() == 1 {
        ss[0]
    } else {
        combine_node(fold_nodes(ss.drop_last()), ss.last())
    }
}

/// Folds the sources, first listed wins, and finalizes the merged builder.
pub fn resolve(sources: Vec<Node>) -> (r: Result<Config, Vec<String>>)
    requires
        sources@.len() > 0,
        forall|i: int|
            0 <= i < sources@.len() ==> node_schema(#[trigger] sources@[i]@) == node_schema(
                sources@[0]@,
            ),
    ensures
        ({
            let folded = fold_nodes(nodes_model(sources@));
            &&& node_missing(folded).len() == 0 ==> (r matches Result::Ok(c) && c@ == node_built(
                folded,
            ))
            &&& node_missing(folded).len() > 0 ==> (r matches Result::Err(e) && strings_view(e@)
                == node_missing(folded))
        }),
{
    let ghost orig = sources@;
    let ghost oms = nodes_model(orig);
    let mut rest = sources;
    let n_total = rest.len();
    proof {
        assert(orig.len() == n_total);
    }
    let acc0 = rest.remove(0);
    let mut acc = acc0;
    proof {
        assert(rest@ =~= orig.subrange(1, orig.len() as int));
        assert(oms.subrange(0, 1) =~= seq![oms[0]]);
        assert(fold_nodes(oms.subrange(0, 1)) == oms[0]);
    }
    let mut k: usize = 1;
    while rest.len() > 0
        invariant
            1 <= k <= orig.len() == oms.len(),
            orig.len() <= usize::MAX,
            oms == nodes_model(orig),
            rest@ =~= orig.subrange(k as int, orig.len() as int),
            acc@ == fold_nodes(oms.subrange(0, k as int)),
            node_schema(acc@) == node_schema(oms[0]),
            forall|i: int|
                0 <= i < orig.len() ==> node_schema(#[trigger] orig[i]@) == node_schema(orig[0]@),
        decreases orig.len() - k,
    {
        let next = rest.remove(0);
        proof {
            assert(orig.subrange(k as int, orig.len() as int)[0] == orig[k as int]);
            assert(next@ == oms[k as int]);
            assert(node_schema(next@) == node_schema(oms[0]));
        }
        let ghost accm = acc@;
        acc = acc.combine(next);
        proof {
            lemma_combine_schema(accm, oms[k as int]);
            assert(oms.subrange(0, k + 1 as int).drop_last() =~= oms.subrange(0, k as int));
            assert(oms.subrange(0, k + 1 as int).last() == oms[k as int]);
            assert(rest@ =~= orig.subrange(k + 1 as int, orig.len() as int));
        }
        k = k + 1;
    }
    proof {
        assert(oms.subrange(0, oms.len() as int) =~= oms);
    }
    acc.try_build()
}

} // verus!
