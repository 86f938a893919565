//! The main instrument-definition value: the type registry, the resolved
//! component tree, and the named id lists.

use vstd::prelude::*;

use std::sync::Arc;

use crate::bytemap::{entries_view, ByteMap};
use crate::component_tree::{node_view, resolve_tree, ComponentTree, NodeV};
use crate::errors::{IdfError, IdfErrorV};
use crate::idlists::{IDList, IDListV};
use crate::structs::TypeV;
use crate::types::Types;
use crate::xml_parser::{ingest, ingest_run, initial_parse_state};
use crate::xml_parser::reader::xml_events;

verus! {

/// What parsing a whole text yields: the type registry entries, the resolved
/// tree, and the id-list entries — or the first error of ingestion or
/// resolution.  The top-level components join the tree in ascending key
/// order, the order a key-sorted registry iterates.
pub open spec fn spec_from_str(text: Seq<char>) -> Result<
    (Seq<(Seq<u8>, TypeV)>, NodeV, Seq<(Seq<u8>, IDListV)>),
    IdfErrorV,
> {
    match ingest_run(initial_parse_state(), xml_events(text)) {
        Err(e) => Err(e),
        Ok(st) => match resolve_tree(st.types, crate::bytemap::sort_entries(st.components)) {
            Err(e) => Err(e),
            Ok(root) => Ok((st.types, root, st.id_lists)),
        },
    }
}

/// A parsed instrument definition.
pub struct DetectorDefinition {
    /// The shared type registry.
    pub types: Arc<Types>,
    /// The resolved component tree.
    pub component_tree: ComponentTree,
    /// The named id lists, in the order the file introduced them.
    pub id_lists: ByteMap<IDList>,
}

impl DetectorDefinition {
    pub open spec fn wf(self) -> bool {
        &&& (*self.types).wf()
        &&& self.component_tree.wf()
        &&& *self.component_tree.0.types == *self.types
        &&& self.id_lists.wf()
    }

    /// Parses an instrument definition from markup text, exactly as
    /// [`spec_from_str`] says: the file is ingested into flat registries in
    /// one pass and the registries are resolved into the tree.
    pub fn from_str(text: &str) -> (r: Result<DetectorDefinition, IdfError>)
        ensures
            match spec_from_str(text@) {
                Ok((tv, root, ids)) => r matches Ok(d) && d.wf() && entries_view(
                    (*d.types).0.entries@,
                ) == tv && node_view(d.component_tree.0) == root && entries_view(
                    d.id_lists.entries@,
                ) == ids,
                Err(e) => r matches Err(err) && err@ == e,
            },
    {
        let st = match ingest(text) {
            Ok(st) => st,
            Err(e) => {
                return Err(e);
            },
        };
        let types = Arc::new(st.types);
        let component_tree = match ComponentTree::from_types_and_components(
            Arc::clone(&types),
            &st.components,
        ) {
            Ok(t) => t,
            Err(e) => {
                return Err(e);
            },
        };
        Ok(DetectorDefinition { types, component_tree, id_lists: st.id_lists })
    }
}

} // verus!
