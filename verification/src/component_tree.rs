//! The resolved component tree: every node wraps one component and the
//! children that its type's component list dictates, sharing one read-only
//! handle to the type registry.

use vstd::prelude::*;

use std::sync::Arc;

use crate::errors::{IdfError, IdfErrorV};
use crate::structs::{component_default_v, Component, ComponentV, Type};
use crate::types::{SpecialTypes, Types};
use crate::utils::bytes_eq;

verus! {

/// The abstract value of a tree node.
pub struct NodeV {
    pub component: ComponentV,
    pub children: Seq<NodeV>,
}

/// The first binding of a key in a sequence of abstract entries.
pub open spec fn entries_lookup<T>(s: Seq<(Seq<u8>, T)>, key: Seq<u8>) -> Option<T>
    decreases s.len(),
{
    if s.len() == 0 {
        None
    } else if s.first().0 == key {
        Some(s.first().1)
    } else {
        entries_lookup(s.drop_first(), key)
    }
}

/// What resolving one component against the registry yields: its node, with
/// one child per component of its type, resolved the same way.  A type name
/// the registry does not hold is a referential-integrity failure; a type
/// chain that reaches itself is a cyclic-reference failure.  `chain` holds
/// the type names currently being expanded.
pub open spec fn resolve_component(
    types: Seq<(Seq<u8>, crate::structs::TypeV)>,
    c: ComponentV,
    chain: Seq<Seq<u8>>,
) -> Result<NodeV, IdfErrorV>
    decreases types.len() - chain.len(), 0int, 0int,
{
    match entries_lookup(types, c.type_ref) {
        None => Err(IdfErrorV::UnknownType { type_ref: c.type_ref }),
        Some(t) => {
            if chain.contains(c.type_ref) || chain.len() >= types.len() {
                Err(IdfErrorV::CyclicType { type_ref: c.type_ref })
            } else {
                match resolve_children(types, t.components, chain.push(c.type_ref)) {
                    Err(e) => Err(e),
                    Ok(kids) => Ok(NodeV { component: c, children: kids }),
                }
            }
        },
    }
}

/// The components of one type, each resolved in order.
pub open spec fn resolve_children(
    types: Seq<(Seq<u8>, crate::structs::TypeV)>,
    comps: Seq<ComponentV>,
    chain: Seq<Seq<u8>>,
) -> Result<Seq<NodeV>, IdfErrorV>
    decreases types.len() - chain.len(), 1int, comps.len(),
{
    if !(0 <= types.len() - chain.len()) {
        Err(IdfErrorV::CyclicType { type_ref: Seq::<u8>::empty() })
    } else if comps.len() == 0 {
        Ok(Seq::empty())
    } else {
        match resolve_component(types, comps.first(), chain) {
            Err(e) => Err(e),
            Ok(n) => match resolve_children(types, comps.drop_first(), chain) {
                Err(e) => Err(e),
                Ok(rest) => Ok(seq![n] + rest),
            },
        }
    }
}

/// The whole tree: a synthetic root wrapping a default component, with one
/// subtree per top-level component, in the order the entries are given
/// (callers hand them over in ascending key order).
pub open spec fn resolve_tree(
    types: Seq<(Seq<u8>, crate::structs::TypeV)>,
    components: Seq<(Seq<u8>, ComponentV)>,
) -> Result<NodeV, IdfErrorV>
    decreases components.len(),
{
    if components.len() == 0 {
        Ok(NodeV { component: component_default_v(), children: Seq::empty() })
    } else {
        match resolve_tree(types, components.drop_last()) {
            Err(e) => Err(e),
            Ok(root) => match resolve_component(types, components.last().1, Seq::empty()) {
                Err(e) => Err(e),
                Ok(n) => Ok(NodeV { children: root.children.push(n), ..root }),
            },
        }
    }
}

/// A node in the resolved tree: its component, its resolved children, and a
/// shared read-only handle to the type registry.
pub struct ComponentTreeNode {
    pub children: Vec<Box<ComponentTreeNode>>,
    pub component: Component,
    pub types: Arc<Types>,
}

/// The abstract value of a node and its subtree.
pub open spec fn node_view(n: ComponentTreeNode) -> NodeV
    decreases n, n.children@.len() + 1,
{
    NodeV { component: n.component@, children: children_views(n, 0) }
}

/// The abstract values of a node's children from position `k` on.
pub open spec fn children_views(n: ComponentTreeNode, k: int) -> Seq<NodeV>
    decreases n, n.children@.len() - k,
{
    if 0 <= k < n.children@.len() {
        seq![node_view(*n.children@[k])] + children_views(n, k + 1)
    } else {
        Seq::empty()
    }
}

/// A node's abstract children are its children's abstract values, in order.
pub proof fn lemma_node_view(n: ComponentTreeNode)
    ensures
        node_view(n).children.len() == n.children@.len(),
        forall|i: int|
            0 <= i < n.children@.len() ==> node_view(n).children[i] == node_view(
                *(#[trigger] n.children@[i]),
            ),
        node_view(n).component == n.component@,
{
    lemma_children_views(n, 0);
    assert forall|i: int| 0 <= i < n.children@.len() implies node_view(n).children[i] == node_view(
        *(#[trigger] n.children@[i]),
    ) by {
        assert(children_views(n, 0)[i] == node_view(*n.children@[0 + i]));
    }
}

proof fn lemma_children_views(n: ComponentTreeNode, k: int)
    requires
        0 <= k <= n.children@.len(),
    ensures
        children_views(n, k).len() == n.children@.len() - k,
        forall|j: int|
            0 <= j < n.children@.len() - k ==> children_views(n, k)[j] == node_view(
                *(#[trigger] n.children@[k + j]),
            ),
    decreases n.children@.len() - k,
{
    if k < n.children@.len() {
        lemma_children_views(n, k + 1);
        let whole = children_views(n, k);
        let rest = children_views(n, k + 1);
        assert(whole == seq![node_view(*n.children@[k])] + rest);
        assert forall|j: int| 0 <= j < n.children@.len() - k implies whole[j] == node_view(
            *(#[trigger] n.children@[k + j]),
        ) by {
            if j == 0 {
                assert(whole[0] == node_view(*n.children@[k]));
            } else {
                assert(whole[j] == rest[j - 1]);
                assert(rest[j - 1] == node_view(*n.children@[k + 1 + (j - 1)]));
            }
        }
    }
}

/// Every node of the subtree shares the same well-formed registry, holds a
/// well-formed component, and names a type the registry holds.
pub open spec fn node_wf(n: ComponentTreeNode, ts: Types) -> bool
    decreases n,
{
    &&& *n.types == ts
    &&& ts.wf()
    &&& n.component.wf()
    &&& ts.as_map().contains_key(n.component.type_ref@)
    &&& forall|i: int| 0 <= i < n.children@.len() ==> node_wf(*(#[trigger] n.children@[i]), ts)
}

impl ComponentTreeNode {
    pub open spec fn wf(self) -> bool {
        node_wf(self, *self.types)
    }
}

/// The root of a resolved tree.
pub struct ComponentTree(pub ComponentTreeNode);

impl ComponentTree {
    pub open spec fn wf(self) -> bool {
        self.0.wf()
    }

    /// The root node.
    pub fn root(&self) -> (r: &ComponentTreeNode)
        ensures
            r == self.0,
    {
        &self.0
    }

    /// Resolves the flat registries into a tree, exactly as [`resolve_tree`]
    /// on the component entries in ascending key order says — the order a
    /// key-sorted registry iterates, which fixes the sibling order that
    /// point/id pairing depends on.  A component whose type name is unknown,
    /// or whose type chain reaches itself, fails the resolution.
    pub fn from_types_and_components(
        types: Arc<Types>,
        components: &crate::bytemap::ByteMap<Component>,
    ) -> (r: Result<ComponentTree, IdfError>)
        requires
            (*types).wf(),
            components.wf(),
            forall|i: int|
                0 <= i < components.entries@.len() ==> (#[trigger] components.entries@[i]).1.wf(),
        ensures
            match resolve_tree(
                crate::bytemap::entries_view((*types).0.entries@),
                crate::bytemap::sort_entries(crate::bytemap::entries_view(components.entries@)),
            ) {
                Ok(v) => r matches Ok(t) && node_view(t.0) == v && t.wf() && *t.0.types == *types,
                Err(e) => r matches Err(err) && err@ == e,
            },
    {
        let ghost tv = crate::bytemap::entries_view((*types).0.entries@);
        let sorted = sorted_components(components);
        let ghost cv = crate::bytemap::sort_entries(
            crate::bytemap::entries_view(components.entries@),
        );
        proof {
            assert(crate::bytemap::entries_view(sorted@) == cv);
        }
        let mut root = ComponentTreeNode {
            children: Vec::new(),
            component: Component::default(),
            types: Arc::clone(&types),
        };
        proof {
            lemma_node_view(root);
            assert(node_view(root).children =~= Seq::<NodeV>::empty());
            assert(node_view(root) == (NodeV {
                component: component_default_v(),
                children: Seq::<NodeV>::empty(),
            }));
        }
        let n = sorted.len();
        let mut i: usize = 0;
        while i < n
            invariant
                0 <= i <= n,
                n == sorted@.len(),
                (*types).wf(),
                forall|j: int| 0 <= j < sorted@.len() ==> (#[trigger] sorted@[j]).1.wf(),
                tv == crate::bytemap::entries_view((*types).0.entries@),
                cv == crate::bytemap::entries_view(sorted@),
                *root.types == *types,
                root.component@ == component_default_v(),
                root.component.wf(),
                resolve_tree(tv, cv.take(i as int)) == Ok::<NodeV, IdfErrorV>(node_view(root)),
                root.wf(),
            decreases n - i,
        {
            let chain: Vec<Vec<u8>> = Vec::new();
            proof {
                assert(cv.take(i + 1 as int).drop_last() =~= cv.take(i as int));
                assert(cv.take(i + 1 as int).last() == cv[i as int]);
                assert(chain@.map_values(|k: Vec<u8>| k@) =~= Seq::<Seq<u8>>::empty());
            }
            match Self::node_from_component(&types, &sorted[i].1, &chain) {
                Ok(node) => {
                    let ghost old_root = root;
                    root.children.push(Box::new(node));
                    proof {
                        lemma_node_view(old_root);
                        lemma_node_view(root);
                        let lhs = node_view(root).children;
                        let rhs = node_view(old_root).children.push(node_view(node));
                        assert(root.children@ == old_root.children@.push(Box::new(node)));
                        assert(lhs.len() == rhs.len());
                        assert forall|j: int| 0 <= j < lhs.len() implies lhs[j] == rhs[j] by {
                            if j < old_root.children@.len() {
                                assert(root.children@[j] == old_root.children@[j]);
                            } else {
                                assert(*root.children@[j] == node);
                            }
                        }
                        assert(lhs =~= rhs);
                        assert(node_view(root) == (NodeV {
                            component: node_view(old_root).component,
                            children: rhs,
                        }));
                    }
                },
                Err(e) => {
                    proof {
                        lemma_resolve_tree_err(tv, cv, i as int, e@);
                    }
                    return Err(e);
                },
            }
            i = i + 1;
        }
        proof {
            assert(cv.take(n as int) =~= cv);
        }
        Ok(ComponentTree(root))
    }

    /// Resolves one component, exactly as [`resolve_component`] says.
    fn node_from_component(
        types: &Arc<Types>,
        component: &Component,
        chain: &Vec<Vec<u8>>,
    ) -> (r: Result<ComponentTreeNode, IdfError>)
        requires
            (**types).wf(),
            component.wf(),
        ensures
            match resolve_component(
                crate::bytemap::entries_view((**types).0.entries@),
                component@,
                chain@.map_values(|k: Vec<u8>| k@),
            ) {
                Ok(v) => r matches Ok(node) && node_view(node) == v && node.wf() && *node.types
                    == **types,
                Err(e) => r matches Err(err) && err@ == e,
            },
        decreases (**types).0.entries@.len() - chain@.len(),
    {
        let ghost tv = crate::bytemap::entries_view((**types).0.entries@);
        let ghost chv = chain@.map_values(|k: Vec<u8>| k@);
        proof {
            lemma_entries_lookup_map(
                (**types).0.entries@,
                component.type_ref@,
            );
        }
        let t: &Type = match (*types).get(component.type_ref.as_slice()) {
            Some(t) => t,
            None => {
                return Err(
                    IdfError::UnknownType {
                        type_ref: vstd::slice::slice_to_vec(component.type_ref.as_slice()),
                    },
                );
            },
        };
        let mut on_chain = false;
        let cn = chain.len();
        let mut ci: usize = 0;
        while ci < cn
            invariant
                0 <= ci <= cn,
                cn == chain@.len(),
                chv == chain@.map_values(|k: Vec<u8>| k@),
                on_chain == exists|j: int| 0 <= j < ci && chv[j] == component.type_ref@,
            decreases cn - ci,
        {
            proof {
                assert(chv[ci as int] == chain@[ci as int]@);
            }
            if bytes_eq(chain[ci].as_slice(), component.type_ref.as_slice()) {
                on_chain = true;
            }
            ci = ci + 1;
        }
        proof {
            assert(on_chain == chv.contains(component.type_ref@));
        }
        if on_chain || chain.len() >= (*types).0.len() {
            return Err(
                IdfError::CyclicType {
                    type_ref: vstd::slice::slice_to_vec(component.type_ref.as_slice()),
                },
            );
        }
        let mut chain2: Vec<Vec<u8>> = Vec::new();
        let mut ci2: usize = 0;
        while ci2 < cn
            invariant
                0 <= ci2 <= cn,
                cn == chain@.len(),
                chv == chain@.map_values(|k: Vec<u8>| k@),
                chain2@.map_values(|k: Vec<u8>| k@) =~= chv.take(ci2 as int),
            decreases cn - ci2,
        {
            chain2.push(vstd::slice::slice_to_vec(chain[ci2].as_slice()));
            proof {
                assert(chain2@.map_values(|k: Vec<u8>| k@) =~= chv.take(ci2 + 1 as int));
            }
            ci2 = ci2 + 1;
        }
        chain2.push(vstd::slice::slice_to_vec(component.type_ref.as_slice()));
        proof {
            assert(chv.take(cn as int) =~= chv);
            assert(chain2@.map_values(|k: Vec<u8>| k@) =~= chv.push(component.type_ref@));
        }
        let ghost chv2 = chv.push(component.type_ref@);
        let mut children: Vec<Box<ComponentTreeNode>> = Vec::new();
        let ghost comps = t@.components;
        let kn = t.components.len();
        let mut k: usize = 0;
        proof {
            assert((*types).as_map()[component.type_ref@]@ == entries_lookup(
                tv,
                component.type_ref@,
            ).unwrap());
            assert(comps =~= entries_lookup(tv, component.type_ref@).unwrap().components);
        }
        while k < kn
            invariant
                0 <= k <= kn,
                kn == t.components@.len(),
                (**types).wf(),
                t.wf(),
                tv == crate::bytemap::entries_view((**types).0.entries@),
                comps == t@.components,
                chain2@.map_values(|q: Vec<u8>| q@) == chv2,
                chv2.len() <= tv.len(),
                children@.len() == k,
                forall|j: int|
                    0 <= j < k ==> node_wf(*(#[trigger] children@[j]), **types) && *(
                    children@[j]).types == **types,
                forall|j: int|
                    0 <= j < k ==> (#[trigger] resolve_component(tv, comps[j], chv2)) == Ok::<
                        NodeV,
                        IdfErrorV,
                    >(node_view(*children@[j])),
            decreases kn - k,
        {
            proof {
                assert(t@.components[k as int] == t.components@[k as int]@);
            }
            match Self::node_from_component(types, &t.components[k], &chain2) {
                Ok(node) => {
                    children.push(Box::new(node));
                    proof {
                        assert(children@.map_values(|c: Box<ComponentTreeNode>| node_view(*c))
                            =~= children@.map_values(
                            |c: Box<ComponentTreeNode>| node_view(*c),
                        ));
                    }
                },
                Err(e) => {
                    proof {
                        lemma_resolve_children_err(tv, comps, chv2, k as int, e@);
                    }
                    return Err(e);
                },
            }
            k = k + 1;
        }
        proof {
            lemma_resolve_children_ok(
                tv,
                comps,
                chv2,
                children@.map_values(|c: Box<ComponentTreeNode>| node_view(*c)),
            );
        }
        let node = ComponentTreeNode {
            children,
            component: copy_component(component),
            types: Arc::clone(types),
        };
        proof {
            lemma_node_view(node);
            assert(node_view(node).children =~= children@.map_values(
                |c: Box<ComponentTreeNode>| node_view(*c),
            ));
            assert(node_view(node) == (NodeV {
                component: component@,
                children: resolve_children(tv, comps, chv2)->Ok_0,
            }));
            assert(node.wf());
        }
        Ok(node)
    }
}

/// The first position whose key is strictly greater than the given key, or
/// the length when none is.
fn insertion_index(out: &Vec<(Vec<u8>, Component)>, key: &[u8]) -> (idx: usize)
    ensures
        0 <= idx <= out@.len(),
        forall|j: int|
            0 <= j < idx ==> !crate::bytemap::lex_less(
                key@,
                (#[trigger] crate::bytemap::entries_view(out@)[j]).0,
            ),
        idx < out@.len() ==> crate::bytemap::lex_less(
            key@,
            crate::bytemap::entries_view(out@)[idx as int].0,
        ),
{
    let ghost ov = crate::bytemap::entries_view(out@);
    let n = out.len();
    let mut i: usize = 0;
    while i < n
        invariant
            0 <= i <= n,
            n == out@.len(),
            ov == crate::bytemap::entries_view(out@),
            forall|j: int| 0 <= j < i ==> !crate::bytemap::lex_less(key@, (#[trigger] ov[j]).0),
        decreases n - i,
    {
        proof {
            assert(ov[i as int].0 == out@[i as int].0@);
        }
        if crate::bytemap::lex_less_bytes(key, out[i].0.as_slice()) {
            return i;
        }
        i = i + 1;
    }
    i
}

/// The component entries copied into ascending key order.
fn sorted_components(components: &crate::bytemap::ByteMap<Component>) -> (r: Vec<
    (Vec<u8>, Component),
>)
    requires
        components.wf(),
        forall|i: int|
            0 <= i < components.entries@.len() ==> (#[trigger] components.entries@[i]).1.wf(),
    ensures
        crate::bytemap::entries_view(r@) == crate::bytemap::sort_entries(
            crate::bytemap::entries_view(components.entries@),
        ),
        forall|j: int| 0 <= j < r@.len() ==> (#[trigger] r@[j]).1.wf(),
{
    let ghost cv = crate::bytemap::entries_view(components.entries@);
    let mut out: Vec<(Vec<u8>, Component)> = Vec::new();
    let n = components.entries.len();
    let mut i: usize = 0;
    proof {
        assert(crate::bytemap::entries_view(out@) =~= crate::bytemap::sort_entries(
            cv.take(0),
        ));
    }
    while i < n
        invariant
            0 <= i <= n,
            n == components.entries@.len(),
            forall|j: int|
                0 <= j < components.entries@.len() ==> (#[trigger] components.entries@[j]).1.wf(),
            cv == crate::bytemap::entries_view(components.entries@),
            crate::bytemap::entries_view(out@) == crate::bytemap::sort_entries(cv.take(i as int)),
            forall|j: int| 0 <= j < out@.len() ==> (#[trigger] out@[j]).1.wf(),
        decreases n - i,
    {
        let key = vstd::slice::slice_to_vec(components.entries[i].0.as_slice());
        let val = copy_component(&components.entries[i].1);
        let ghost ov = crate::bytemap::entries_view(out@);
        let ghost e = (key@, val@);
        let idx = insertion_index(&out, key.as_slice());
        out.insert(idx, (key, val));
        proof {
            crate::bytemap::lemma_insert_sorted_at(ov, e, idx as int);
            assert(crate::bytemap::entries_view(out@) =~= ov.take(idx as int) + seq![e] + ov.skip(
                idx as int,
            ));
            assert(crate::bytemap::entries_view(out@) =~= crate::bytemap::insert_sorted(ov, e));
            assert(cv.take(i + 1 as int).drop_last() =~= cv.take(i as int));
            assert(cv.take(i + 1 as int).last() == cv[i as int]);
            assert(e == cv[i as int]);
        }
        i = i + 1;
    }
    proof {
        assert(cv.take(n as int) =~= cv);
    }
    out
}

/// When the components before position `i` resolve and the one at `i` fails,
/// the whole tree resolution fails with that error.
proof fn lemma_resolve_tree_err(
    types: Seq<(Seq<u8>, crate::structs::TypeV)>,
    components: Seq<(Seq<u8>, ComponentV)>,
    i: int,
    e: IdfErrorV,
)
    requires
        0 <= i < components.len(),
        resolve_tree(types, components.take(i)) is Ok,
        resolve_component(types, components[i].1, Seq::empty()) == Err::<NodeV, IdfErrorV>(e),
    ensures
        resolve_tree(types, components) == Err::<NodeV, IdfErrorV>(e),
    decreases components.len(),
{
    if components.len() == i + 1 {
        assert(components.drop_last() =~= components.take(i));
        assert(components.last() == components[i]);
    } else {
        assert(components.drop_last().take(i) =~= components.take(i));
        lemma_resolve_tree_err(types, components.drop_last(), i, e);
    }
}

/// When every component of a list resolves, the list resolves to exactly
/// those nodes.
proof fn lemma_resolve_children_ok(
    types: Seq<(Seq<u8>, crate::structs::TypeV)>,
    comps: Seq<ComponentV>,
    chain: Seq<Seq<u8>>,
    nodes: Seq<NodeV>,
)
    requires
        chain.len() <= types.len(),
        nodes.len() == comps.len(),
        forall|j: int|
            0 <= j < comps.len() ==> resolve_component(types, comps[j], chain) == Ok::<
                NodeV,
                IdfErrorV,
            >(#[trigger] nodes[j]),
    ensures
        resolve_children(types, comps, chain) == Ok::<Seq<NodeV>, IdfErrorV>(nodes),
    decreases comps.len(),
{
    if comps.len() == 0 {
        assert(nodes =~= Seq::<NodeV>::empty());
    } else {
        assert(forall|j: int|
            0 <= j < comps.drop_first().len() ==> comps.drop_first()[j] == comps[j + 1]
                && nodes.drop_first()[j] == nodes[j + 1]);
        lemma_resolve_children_ok(types, comps.drop_first(), chain, nodes.drop_first());
        assert(nodes =~= seq![nodes.first()] + nodes.drop_first());
    }
}

/// When one component of a list fails and the ones before it resolve, the
/// list fails with that component's error.
proof fn lemma_resolve_children_err(
    types: Seq<(Seq<u8>, crate::structs::TypeV)>,
    comps: Seq<ComponentV>,
    chain: Seq<Seq<u8>>,
    k: int,
    e: IdfErrorV,
)
    requires
        chain.len() <= types.len(),
        0 <= k < comps.len(),
        forall|j: int| 0 <= j < k ==> (#[trigger] resolve_component(types, comps[j], chain)) is Ok,
        resolve_component(types, comps[k], chain) == Err::<NodeV, IdfErrorV>(e),
    ensures
        resolve_children(types, comps, chain) == Err::<Seq<NodeV>, IdfErrorV>(e),
    decreases comps.len(),
{
    if k == 0 {
        assert(comps.first() == comps[0]);
        assert(resolve_component(types, comps.first(), chain) == Err::<NodeV, IdfErrorV>(e));
    } else {
        assert(comps.first() == comps[0]);
        assert(resolve_component(types, comps.first(), chain) is Ok);
        assert(forall|j: int|
            0 <= j < comps.drop_first().len() ==> comps.drop_first()[j] == comps[j + 1]);
        lemma_resolve_children_err(types, comps.drop_first(), chain, k - 1, e);
    }
}

/// With no entry holding the key, the lookup yields nothing.
pub proof fn lemma_entries_lookup_none<T>(s: Seq<(Seq<u8>, T)>, key: Seq<u8>)
    requires
        forall|i: int| 0 <= i < s.len() ==> (#[trigger] s[i]).0 != key,
    ensures
        entries_lookup(s, key) is None,
    decreases s.len(),
{
    if s.len() > 0 {
        assert(forall|i: int|
            0 <= i < s.drop_first().len() ==> (#[trigger] s.drop_first()[i]) == s[i + 1]);
        lemma_entries_lookup_none(s.drop_first(), key);
    }
}

/// With distinct keys, the lookup yields exactly the matching entry's value.
pub proof fn lemma_entries_lookup_at<T>(s: Seq<(Seq<u8>, T)>, key: Seq<u8>, i: int)
    requires
        forall|p: int, q: int| 0 <= p < q < s.len() ==> (#[trigger] s[p]).0 != (#[trigger] s[q]).0,
        0 <= i < s.len(),
        s[i].0 == key,
    ensures
        entries_lookup(s, key) == Some(s[i].1),
    decreases s.len(),
{
    if i == 0 {
    } else {
        assert(s.first().0 != key);
        assert(forall|p: int|
            0 <= p < s.drop_first().len() ==> (#[trigger] s.drop_first()[p]) == s[p + 1]);
        lemma_entries_lookup_at(s.drop_first(), key, i - 1);
    }
}

/// Looking a key up in a well-formed entry sequence agrees with the mapping.
pub proof fn lemma_entries_lookup_map(s: Seq<(Vec<u8>, Type)>, key: Seq<u8>)
    requires
        forall|i: int, j: int| 0 <= i < j < s.len() ==> (#[trigger] s[i]).0@ != (#[trigger] s[j]).0@,
    ensures
        crate::bytemap::map_of(s).contains_key(key) <==> entries_lookup(
            crate::bytemap::entries_view(s),
            key,
        ) is Some,
        crate::bytemap::map_of(s).contains_key(key) ==> entries_lookup(
            crate::bytemap::entries_view(s),
            key,
        ) == Some(crate::bytemap::map_of(s)[key]@),
{
    let sv = crate::bytemap::entries_view(s);
    assert(forall|i: int| 0 <= i < s.len() ==> (#[trigger] sv[i]) == (s[i].0@, s[i].1@));
    if exists|i: int| 0 <= i < s.len() && (#[trigger] s[i]).0@ == key {
        let i = choose|i: int| 0 <= i < s.len() && (#[trigger] s[i]).0@ == key;
        crate::bytemap::lemma_map_of_get(s, key, i);
        lemma_entries_lookup_at(sv, key, i);
    } else {
        crate::bytemap::lemma_map_of_no_key(s, key);
        assert(forall|i: int| 0 <= i < sv.len() ==> (#[trigger] sv[i]).0 != key);
        lemma_entries_lookup_none(sv, key);
    }
}

/// A copy of a component, byte for byte.
fn copy_component(c: &Component) -> (r: Component)
    requires
        c.wf(),
    ensures
        r@ == c@,
        r.wf(),
{
    let mut location: Vec<crate::structs::Location> = Vec::new();
    let n = c.location.len();
    let mut i: usize = 0;
    while i < n
        invariant
            0 <= i <= n,
            n == c.location@.len(),
            location@.map_values(|l: crate::structs::Location| l@) =~= c.location@.map_values(
                |l: crate::structs::Location| l@,
            ).take(i as int),
        decreases n - i,
    {
        location.push(copy_location(&c.location[i]));
        proof {
            assert(location@.map_values(|l: crate::structs::Location| l@) =~= c.location@.map_values(
                |l: crate::structs::Location| l@,
            ).take(i + 1 as int));
        }
        i = i + 1;
    }
    let mut locations: Vec<crate::structs::Locations> = Vec::new();
    let m = c.locations.len();
    let mut j: usize = 0;
    while j < m
        invariant
            0 <= j <= m,
            m == c.locations@.len(),
            locations@.map_values(|l: crate::structs::Locations| l@) =~= c.locations@.map_values(
                |l: crate::structs::Locations| l@,
            ).take(j as int),
        decreases m - j,
    {
        let src = &c.locations[j];
        locations.push(
            crate::structs::Locations {
                n_elements: src.n_elements,
                name: vstd::slice::slice_to_vec(src.name.as_slice()),
                name_count_start: src.name_count_start,
                start_translation: src.start_translation,
                end_translation: src.end_translation,
                start_rotation: src.start_rotation,
                end_rotation: src.end_rotation,
            },
        );
        proof {
            assert(locations@.map_values(|l: crate::structs::Locations| l@)
                =~= c.locations@.map_values(|l: crate::structs::Locations| l@).take(j + 1 as int));
        }
        j = j + 1;
    }
    let r = Component {
        type_ref: vstd::slice::slice_to_vec(c.type_ref.as_slice()),
        location,
        locations,
        other_attributes: copy_bytemap(&c.other_attributes),
    };
    proof {
        assert(c.location@.map_values(|l: crate::structs::Location| l@).take(n as int)
            =~= c.location@.map_values(|l: crate::structs::Location| l@));
        assert(c.locations@.map_values(|l: crate::structs::Locations| l@).take(m as int)
            =~= c.locations@.map_values(|l: crate::structs::Locations| l@));
    }
    r
}

/// A copy of a location, byte for byte.
fn copy_location(l: &crate::structs::Location) -> (r: crate::structs::Location)
    ensures
        r@ == l@,
{
    let mut translation: Vec<crate::structs::Translation> = Vec::new();
    let n = l.translation.len();
    let mut i: usize = 0;
    while i < n
        invariant
            0 <= i <= n,
            n == l.translation@.len(),
            translation@ =~= l.translation@.take(i as int),
        decreases n - i,
    {
        translation.push(l.translation[i]);
        proof {
            assert(translation@ =~= l.translation@.take(i + 1 as int));
        }
        i = i + 1;
    }
    let mut rotation: Vec<crate::structs::Rotation> = Vec::new();
    let m = l.rotation.len();
    let mut j: usize = 0;
    while j < m
        invariant
            0 <= j <= m,
            m == l.rotation@.len(),
            rotation@ =~= l.rotation@.take(j as int),
        decreases m - j,
    {
        rotation.push(l.rotation[j]);
        proof {
            assert(rotation@ =~= l.rotation@.take(j + 1 as int));
        }
        j = j + 1;
    }
    proof {
        assert(l.translation@.take(n as int) =~= l.translation@);
        assert(l.rotation@.take(m as int) =~= l.rotation@);
    }
    crate::structs::Location {
        name: vstd::slice::slice_to_vec(l.name.as_slice()),
        translation,
        rotation,
    }
}

/// A copy of a catch-all attribute mapping, byte for byte.
fn copy_bytemap(m: &crate::bytemap::ByteMap<Vec<u8>>) -> (r: crate::bytemap::ByteMap<Vec<u8>>)
    ensures
        r.entries@.map_values(|e: (Vec<u8>, Vec<u8>)| (e.0@, e.1@)) =~= m.entries@.map_values(
            |e: (Vec<u8>, Vec<u8>)| (e.0@, e.1@),
        ),
        r.as_map().map_values(|v: Vec<u8>| v@) =~= m.as_map().map_values(|v: Vec<u8>| v@),
        m.wf() ==> r.wf(),
{
    let mut entries: Vec<(Vec<u8>, Vec<u8>)> = Vec::new();
    let n = m.entries.len();
    let mut i: usize = 0;
    while i < n
        invariant
            0 <= i <= n,
            n == m.entries@.len(),
            entries@.len() == i,
            forall|j: int|
                0 <= j < i ==> (#[trigger] entries@[j]).0@ == m.entries@[j].0@ && entries@[j].1@
                    == m.entries@[j].1@,
        decreases n - i,
    {
        entries.push(
            (
                vstd::slice::slice_to_vec(m.entries[i].0.as_slice()),
                vstd::slice::slice_to_vec(m.entries[i].1.as_slice()),
            ),
        );
        i = i + 1;
    }
    let r = crate::bytemap::ByteMap { entries };
    proof {
        lemma_map_of_views(r.entries@, m.entries@);
    }
    r
}

/// Two entry sequences with the same abstract entries denote mappings with
/// the same abstract values.
proof fn lemma_map_of_views(a: Seq<(Vec<u8>, Vec<u8>)>, b: Seq<(Vec<u8>, Vec<u8>)>)
    requires
        a.len() == b.len(),
        forall|j: int|
            0 <= j < a.len() ==> (#[trigger] a[j]).0@ == b[j].0@ && a[j].1@ == b[j].1@,
    ensures
        crate::bytemap::map_of(a).map_values(|v: Vec<u8>| v@) =~= crate::bytemap::map_of(
            b,
        ).map_values(|v: Vec<u8>| v@),
    decreases a.len(),
{
    if a.len() > 0 {
        assert(forall|j: int|
            0 <= j < a.drop_last().len() ==> ((#[trigger] a.drop_last()[j]).0@ == b.drop_last()[j].0@
                && a.drop_last()[j].1@ == b.drop_last()[j].1@));
        lemma_map_of_views(a.drop_last(), b.drop_last());
        assert(a.last().0@ == b.last().0@ && a.last().1@ == b.last().1@);
        assert(crate::bytemap::map_of(a).map_values(|v: Vec<u8>| v@) =~= crate::bytemap::map_of(
            a.drop_last(),
        ).map_values(|v: Vec<u8>| v@).insert(a.last().0@, a.last().1@));
        assert(crate::bytemap::map_of(b).map_values(|v: Vec<u8>| v@) =~= crate::bytemap::map_of(
            b.drop_last(),
        ).map_values(|v: Vec<u8>| v@).insert(b.last().0@, b.last().1@));
    }
}

/// Every component reachable from a resolved subtree names a type the
/// registry holds: resolution either fails or establishes referential
/// integrity everywhere.
pub proof fn lemma_resolution_integrity(
    types: Seq<(Seq<u8>, crate::structs::TypeV)>,
    c: ComponentV,
    chain: Seq<Seq<u8>>,
    v: NodeV,
    m: NodeV,
)
    requires
        resolve_component(types, c, chain) == Ok::<NodeV, IdfErrorV>(v),
        node_in_tree(m, v),
    ensures
        entries_lookup(types, m.component.type_ref) is Some,
    decreases v,
{
    reveal_with_fuel(node_in_tree, 2);
    if m == v {
    } else {
        let t = entries_lookup(types, c.type_ref)->Some_0;
        let kids = resolve_children(types, t.components, chain.push(c.type_ref))->Ok_0;
        let i = choose|i: int| 0 <= i < v.children.len() && node_in_tree(m, #[trigger] v.children[i]);
        lemma_resolve_children_member(types, t.components, chain.push(c.type_ref), kids, i);
        lemma_resolution_integrity(
            types,
            t.components[i],
            chain.push(c.type_ref),
            v.children[i],
            m,
        );
    }
}

/// Whether a node occurs in a subtree.
pub open spec fn node_in_tree(m: NodeV, v: NodeV) -> bool
    decreases v,
{
    m == v || exists|i: int| 0 <= i < v.children.len() && node_in_tree(m, #[trigger] v.children[i])
}

/// Each child of a resolved list comes from resolving the component at its
/// position.
proof fn lemma_resolve_children_member(
    types: Seq<(Seq<u8>, crate::structs::TypeV)>,
    comps: Seq<ComponentV>,
    chain: Seq<Seq<u8>>,
    kids: Seq<NodeV>,
    i: int,
)
    requires
        resolve_children(types, comps, chain) == Ok::<Seq<NodeV>, IdfErrorV>(kids),
        0 <= i < kids.len(),
    ensures
        kids.len() == comps.len(),
        resolve_component(types, comps[i], chain) == Ok::<NodeV, IdfErrorV>(kids[i]),
    decreases comps.len(),
{
    if comps.len() > 0 {
        let n = resolve_component(types, comps.first(), chain)->Ok_0;
        let rest = resolve_children(types, comps.drop_first(), chain)->Ok_0;
        if i == 0 {
            lemma_resolve_children_len(types, comps.drop_first(), chain, rest);
        } else {
            lemma_resolve_children_member(types, comps.drop_first(), chain, rest, i - 1);
        }
    }
}

proof fn lemma_resolve_children_len(
    types: Seq<(Seq<u8>, crate::structs::TypeV)>,
    comps: Seq<ComponentV>,
    chain: Seq<Seq<u8>>,
    kids: Seq<NodeV>,
)
    requires
        resolve_children(types, comps, chain) == Ok::<Seq<NodeV>, IdfErrorV>(kids),
    ensures
        kids.len() == comps.len(),
    decreases comps.len(),
{
    if comps.len() > 0 {
        let rest = resolve_children(types, comps.drop_first(), chain)->Ok_0;
        lemma_resolve_children_len(types, comps.drop_first(), chain, rest);
    }
}

/// The tree's shape follows the types: a resolved node has exactly one child
/// per component of its type, each resolving that component.
pub proof fn lemma_resolution_shape(
    types: Seq<(Seq<u8>, crate::structs::TypeV)>,
    c: ComponentV,
    chain: Seq<Seq<u8>>,
    v: NodeV,
    m: NodeV,
)
    requires
        resolve_component(types, c, chain) == Ok::<NodeV, IdfErrorV>(v),
        node_in_tree(m, v),
    ensures
        m.children.len() == entries_lookup(
            types,
            m.component.type_ref,
        ).unwrap().components.len(),
    decreases v,
{
    reveal_with_fuel(node_in_tree, 2);
    let t = entries_lookup(types, c.type_ref)->Some_0;
    let kids = resolve_children(types, t.components, chain.push(c.type_ref))->Ok_0;
    if m == v {
        lemma_resolve_children_len(types, t.components, chain.push(c.type_ref), kids);
    } else {
        let i = choose|i: int| 0 <= i < v.children.len() && node_in_tree(m, #[trigger] v.children[i]);
        lemma_resolve_children_member(types, t.components, chain.push(c.type_ref), kids, i);
        lemma_resolution_shape(
            types,
            t.components[i],
            chain.push(c.type_ref),
            v.children[i],
            m,
        );
    }
}

/// Each subtree of a resolved tree's root resolves the top-level component
/// at its position.
pub proof fn lemma_resolve_tree_children(
    types: Seq<(Seq<u8>, crate::structs::TypeV)>,
    components: Seq<(Seq<u8>, ComponentV)>,
    root: NodeV,
)
    requires
        resolve_tree(types, components) == Ok::<NodeV, IdfErrorV>(root),
    ensures
        root.children.len() == components.len(),
        forall|i: int|
            0 <= i < components.len() ==> resolve_component(
                types,
                (#[trigger] components[i]).1,
                Seq::empty(),
            ) == Ok::<NodeV, IdfErrorV>(root.children[i]),
    decreases components.len(),
{
    if components.len() > 0 {
        let prev = resolve_tree(types, components.drop_last())->Ok_0;
        lemma_resolve_tree_children(types, components.drop_last(), prev);
        assert(forall|i: int|
            0 <= i < components.len() - 1 ==> components.drop_last()[i] == components[i]);
    }
}

/// Round-trip registry integrity over the whole resolved tree: every
/// component reachable from it, the synthetic root aside, names a type the
/// registry holds — or resolution must have failed.
pub proof fn lemma_tree_integrity(
    types: Seq<(Seq<u8>, crate::structs::TypeV)>,
    components: Seq<(Seq<u8>, ComponentV)>,
    root: NodeV,
    i: int,
    m: NodeV,
)
    requires
        resolve_tree(types, components) == Ok::<NodeV, IdfErrorV>(root),
        0 <= i < root.children.len(),
        node_in_tree(m, root.children[i]),
    ensures
        entries_lookup(types, m.component.type_ref) is Some,
{
    lemma_resolve_tree_children(types, components, root);
    lemma_resolution_integrity(types, components[i].1, Seq::empty(), root.children[i], m);
}

/// Tree shape over the whole resolved tree: every non-root node has exactly
/// one child per component of its type.
pub proof fn lemma_tree_shape(
    types: Seq<(Seq<u8>, crate::structs::TypeV)>,
    components: Seq<(Seq<u8>, ComponentV)>,
    root: NodeV,
    i: int,
    m: NodeV,
)
    requires
        resolve_tree(types, components) == Ok::<NodeV, IdfErrorV>(root),
        0 <= i < root.children.len(),
        node_in_tree(m, root.children[i]),
    ensures
        m.children.len() == entries_lookup(
            types,
            m.component.type_ref,
        ).unwrap().components.len(),
{
    lemma_resolve_tree_children(types, components, root);
    lemma_resolution_shape(types, components[i].1, Seq::empty(), root.children[i], m);
}

impl ComponentTreeNode {
    /// The classification of this node's type.
    pub fn get_special_type(&self) -> (r: &SpecialTypes)
        requires
            self.wf(),
        ensures
            *r == (*self.types).as_map()[self.component.type_ref@]@.special_type,
    {
        let t = match self.types.get(self.component.type_ref.as_slice()) {
            Some(t) => t,
            None => {
                proof {
                    assert(false);
                }
                unreached()
            },
        };
        &t.special_type
    }

    /// This node's full type record, looked up in the shared registry.
    pub fn get_type(&self) -> (r: &Type)
        requires
            self.wf(),
        ensures
            *r == (*self.types).as_map()[self.component.type_ref@],
    {
        match self.types.get(self.component.type_ref.as_slice()) {
            Some(t) => t,
            None => {
                proof {
                    assert(false);
                }
                unreached()
            },
        }
    }

    /// The first direct child whose type name matches.
    pub fn get_child_by_name(&self, name: &[u8]) -> (r: Option<&ComponentTreeNode>)
        ensures
            match r {
                Some(c) => exists|i: int|
                    0 <= i < self.children@.len() && *(#[trigger] self.children@[i]) == *c
                        && c.component.type_ref@ == name@ && (forall|j: int|
                        0 <= j < i ==> (#[trigger] self.children@[j]).component.type_ref@ != name@),
                None => forall|i: int|
                    0 <= i < self.children@.len() ==> (
                    #[trigger] self.children@[i]).component.type_ref@ != name@,
            },
    {
        let n = self.children.len();
        let mut i: usize = 0;
        while i < n
            invariant
                0 <= i <= n,
                n == self.children@.len(),
                forall|j: int|
                    0 <= j < i ==> (#[trigger] self.children@[j]).component.type_ref@ != name@,
            decreases n - i,
        {
            if bytes_eq(self.children[i].component.type_ref.as_slice(), name) {
                return Some(&self.children[i]);
            }
            i = i + 1;
        }
        None
    }
}

/// A structurally filtered subtree: a node whose abstract value fails the
/// predicate is cut off with its whole subtree; an included node keeps
/// exactly those of its children that pass, transitively.
pub open spec fn filter_tree(v: NodeV, pred: spec_fn(NodeV) -> bool) -> Option<NodeV>
    decreases v, 1int, 0int,
{
    if !pred(v) {
        None
    } else {
        Some(NodeV { component: v.component, children: filter_kids(v.children, 0, pred) })
    }
}

/// The filtered children from position `i` on.
pub open spec fn filter_kids(kids: Seq<NodeV>, i: int, pred: spec_fn(NodeV) -> bool) -> Seq<NodeV>
    decreases kids, 0int, (if i < kids.len() { kids.len() - i } else { 0int }),
{
    if i < 0 || i >= kids.len() {
        Seq::empty()
    } else {
        match filter_tree(kids[i], pred) {
            Some(u) => seq![u] + filter_kids(kids, i + 1, pred),
            None => filter_kids(kids, i + 1, pred),
        }
    }
}

/// The predicate a filter closure computes, read off its postcondition.
pub open spec fn pred_of<F: Fn(&ComponentTreeNode) -> bool>(f: F) -> spec_fn(NodeV) -> bool {
    |nv: NodeV| exists|m: ComponentTreeNode| node_view(m) == nv && call_ensures(f, (&m,), true)
}

/// A filter predicate that ignores everything but the node's abstract value.
pub open spec fn view_deterministic<F: Fn(&ComponentTreeNode) -> bool>(f: F) -> bool {
    forall|a: &ComponentTreeNode, b: &ComponentTreeNode, x: bool, y: bool|
        call_ensures(f, (a,), x) && call_ensures(f, (b,), y) && node_view(*a) == node_view(*b)
            ==> x == y
}

/// Filtering with a predicate that holds everywhere returns the identical
/// tree.
pub proof fn lemma_filter_true(v: NodeV, pred: spec_fn(NodeV) -> bool)
    requires
        forall|m: NodeV| #[trigger] pred(m),
    ensures
        filter_tree(v, pred) == Some(v),
    decreases v, 1int, 0int,
{
    lemma_filter_kids_true(v.children, 0, pred);
    assert(filter_kids(v.children, 0, pred) =~= v.children.skip(0));
    assert(v.children.skip(0) =~= v.children);
}

proof fn lemma_filter_kids_true(kids: Seq<NodeV>, i: int, pred: spec_fn(NodeV) -> bool)
    requires
        forall|m: NodeV| #[trigger] pred(m),
        0 <= i <= kids.len(),
    ensures
        filter_kids(kids, i, pred) =~= kids.skip(i),
    decreases kids, 0int, kids.len() - i,
{
    if i < kids.len() {
        lemma_filter_true(kids[i], pred);
        lemma_filter_kids_true(kids, i + 1, pred);
        assert(kids.skip(i) =~= seq![kids[i]] + kids.skip(i + 1));
    }
}

/// Filtering with a predicate that fails at the root returns no tree.
pub proof fn lemma_filter_false(v: NodeV, pred: spec_fn(NodeV) -> bool)
    requires
        !pred(v),
    ensures
        filter_tree(v, pred) is None,
{
}

/// Filtering is idempotent for predicates that judge a node by its component
/// alone: filtering an already-filtered tree with the same predicate yields
/// the identical result.
pub proof fn lemma_filter_idempotent(v: NodeV, pred: spec_fn(NodeV) -> bool)
    requires
        forall|a: NodeV, b: NodeV| a.component == b.component ==> #[trigger] pred(a) == #[trigger] pred(b),
        filter_tree(v, pred) is Some,
    ensures
        filter_tree(filter_tree(v, pred)->Some_0, pred) == filter_tree(v, pred),
    decreases v, 1int, 0int,
{
    let u = filter_tree(v, pred)->Some_0;
    assert(pred(v));
    assert(pred(u) == pred(v));
    lemma_filter_kids_stable(v.children, 0, pred);
    lemma_filter_kids_fixed(u.children, 0, pred);
    assert(filter_kids(u.children, 0, pred) =~= u.children);
}

/// Every node of a filtered child list filters to itself.
proof fn lemma_filter_kids_stable(kids: Seq<NodeV>, i: int, pred: spec_fn(NodeV) -> bool)
    requires
        forall|a: NodeV, b: NodeV| a.component == b.component ==> #[trigger] pred(a) == #[trigger] pred(b),
        0 <= i <= kids.len(),
    ensures
        forall|j: int|
            0 <= j < filter_kids(kids, i, pred).len() ==> filter_tree(
                #[trigger] filter_kids(kids, i, pred)[j],
                pred,
            ) == Some(filter_kids(kids, i, pred)[j]),
    decreases kids, 0int, kids.len() - i,
{
    if i < kids.len() {
        lemma_filter_kids_stable(kids, i + 1, pred);
        match filter_tree(kids[i], pred) {
            Some(u) => {
                lemma_filter_idempotent(kids[i], pred);
                assert(forall|j: int|
                    1 <= j < filter_kids(kids, i, pred).len() ==> filter_kids(kids, i, pred)[j]
                        == filter_kids(kids, i + 1, pred)[j - 1]);
            },
            None => {},
        }
    }
}

/// A child list whose nodes all filter to themselves filters to itself.
proof fn lemma_filter_kids_fixed(out: Seq<NodeV>, i: int, pred: spec_fn(NodeV) -> bool)
    requires
        0 <= i <= out.len(),
        forall|j: int|
            0 <= j < out.len() ==> filter_tree(#[trigger] out[j], pred) == Some(out[j]),
    ensures
        filter_kids(out, i, pred) =~= out.skip(i),
    decreases out.len() - i,
{
    if i < out.len() {
        lemma_filter_kids_fixed(out, i + 1, pred);
        assert(out.skip(i) =~= seq![out[i]] + out.skip(i + 1));
    }
}

impl ComponentTreeNode {
    /// A filtered copy of this subtree: the filter function is applied top
    /// down, a rejected node cutting its whole subtree off, exactly as
    /// [`filter_tree`] says with the predicate the closure computes.  The
    /// closure must be callable on any node and must judge a node by its
    /// abstract value alone.
    pub fn filtered_component_tree<F: Fn(&ComponentTreeNode) -> bool>(&self, filter_function: F) -> (r:
        Option<Box<ComponentTreeNode>>)
        requires
            self.wf(),
            forall|m: &ComponentTreeNode| #[trigger] call_requires(filter_function, (m,)),
            view_deterministic(filter_function),
        ensures
            match filter_tree(node_view(*self), pred_of(filter_function)) {
                Some(u) => r matches Some(b) && node_view(*b) == u && b.wf() && *b.types
                    == *self.types,
                None => r is None,
            },
    {
        self.filtered_by(&filter_function)
    }

    /// The recursive filter, sharing one reference to the closure.
    fn filtered_by<F: Fn(&ComponentTreeNode) -> bool>(&self, filter_function: &F) -> (r: Option<
        Box<ComponentTreeNode>,
    >)
        requires
            self.wf(),
            forall|m: &ComponentTreeNode| #[trigger] call_requires(*filter_function, (m,)),
            view_deterministic(*filter_function),
        ensures
            match filter_tree(node_view(*self), pred_of(*filter_function)) {
                Some(u) => r matches Some(b) && node_view(*b) == u && b.wf() && *b.types
                    == *self.types,
                None => r is None,
            },
        decreases *self, 1int,
    {
        let ghost pred = pred_of(*filter_function);
        proof {
            lemma_node_view(*self);
        }
        let keep = filter_function(self);
        proof {
            if keep {
                assert(pred(node_view(*self))) by {
                    assert(node_view(*self) == node_view(*self) && call_ensures(
                        *filter_function,
                        (self,),
                        true,
                    ));
                }
            } else {
                assert(!pred(node_view(*self))) by {
                    if pred(node_view(*self)) {
                        let m = choose|m: ComponentTreeNode|
                            node_view(m) == node_view(*self) && call_ensures(
                                *filter_function,
                                (&m,),
                                true,
                            );
                        assert(false);
                    }
                }
            }
        }
        if !keep {
            return None;
        }
        let mut children: Vec<Box<ComponentTreeNode>> = Vec::new();
        let ghost kids = node_view(*self).children;
        let n = self.children.len();
        let mut i: usize = 0;
        while i < n
            invariant
                0 <= i <= n,
                n == self.children@.len(),
                self.wf(),
                forall|m: &ComponentTreeNode| #[trigger] call_requires(*filter_function, (m,)),
                view_deterministic(*filter_function),
                pred == pred_of(*filter_function),
                kids == node_view(*self).children,
                kids.len() == n,
                forall|q: int|
                    0 <= q < n ==> kids[q] == node_view(*(#[trigger] self.children@[q])),
                children@.map_values(|c: Box<ComponentTreeNode>| node_view(*c)) + filter_kids(
                    kids,
                    i as int,
                    pred,
                ) =~= filter_kids(kids, 0, pred),
                forall|q: int|
                    0 <= q < children@.len() ==> (#[trigger] children@[q]).wf() && *(
                    children@[q]).types == *self.types,
            decreases n - i,
        {
            proof {
                assert(node_wf(*self.children@[i as int], *self.types));
            }
            match self.children[i].filtered_by(filter_function) {
                Some(c) => {
                    let ghost prev = children@;
                    children.push(c);
                    proof {
                        assert(children@.map_values(|c: Box<ComponentTreeNode>| node_view(*c))
                            =~= prev.map_values(|c: Box<ComponentTreeNode>| node_view(*c)).push(
                            filter_tree(kids[i as int], pred)->Some_0,
                        ));
                        assert(filter_kids(kids, i as int, pred) =~= seq![
                            filter_tree(kids[i as int], pred)->Some_0,
                        ] + filter_kids(kids, i + 1 as int, pred));
                        assert(children@.map_values(|c: Box<ComponentTreeNode>| node_view(*c))
                            + filter_kids(kids, i + 1 as int, pred) =~= filter_kids(kids, 0, pred));
                    }
                },
                None => {
                    proof {
                        assert(filter_kids(kids, i as int, pred) =~= filter_kids(
                            kids,
                            i + 1 as int,
                            pred,
                        ));
                    }
                },
            }
            i = i + 1;
        }
        let node = ComponentTreeNode {
            children,
            component: copy_component(&self.component),
            types: Arc::clone(&self.types),
        };
        proof {
            lemma_node_view(node);
            assert(filter_kids(kids, n as int, pred) =~= Seq::<NodeV>::empty());
            assert(node_view(node).children =~= node.children@.map_values(
                |c: Box<ComponentTreeNode>| node_view(*c),
            ));
            assert(node_view(node).children =~= filter_kids(kids, 0, pred));
            assert(node_view(node) == filter_tree(node_view(*self), pred)->Some_0);
            assert(node.wf());
        }
        Some(Box::new(node))
    }
}

} // verus!
