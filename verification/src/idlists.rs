//! Named lists of detector ids.
//!
//! The contents of an id list come from an auxiliary sub-parser that is a
//! collaborator of this crate, not part of it; the ingester only recognises
//! the `idlist` tag, names the list, and keys the registry by that name.

use vstd::prelude::*;

use crate::structs::Response;
use crate::utils::{ascii_bytes, bytes_eq, str_bytes};
use crate::xml_parser::try_match_bytes_start::find_attr;

verus! {

/// A named, ordered list of detector ids.
#[derive(Debug, Clone)]
pub struct IDList {
    pub name: Vec<u8>,
    pub ids: Vec<u32>,
}

pub struct IDListV {
    pub name: Seq<u8>,
    pub ids: Seq<u32>,
}

impl View for IDList {
    type V = IDListV;

    open spec fn view(&self) -> IDListV {
        IDListV { name: self.name@, ids: self.ids@ }
    }
}

impl Default for IDList {
    fn default() -> (r: IDList)
        ensures
            r@.name == Seq::<u8>::empty(),
            r@.ids == Seq::<u32>::empty(),
    {
        IDList { name: Vec::new(), ids: Vec::new() }
    }
}

pub open spec fn idlist_default_v() -> IDListV {
    IDListV { name: Seq::<u8>::empty(), ids: Seq::<u32>::empty() }
}

pub open spec fn opt_idlist_view(o: Option<IDList>) -> Option<IDListV> {
    match o {
        Some(l) => Some(l@),
        None => None,
    }
}

/// What probing a tag against an id list does: an `idlist` tag opens the
/// record and its `name` attribute names it; the ids themselves come from the
/// auxiliary sub-parser.
pub open spec fn idlist_match_tag(
    cur: Option<IDListV>,
    name: Seq<u8>,
    attrs: Seq<(Seq<u8>, Seq<u8>)>,
) -> (Option<IDListV>, bool) {
    if name == ascii_bytes("idlist") {
        let base = match cur {
            Some(l) => l,
            None => idlist_default_v(),
        };
        match find_attr(attrs, ascii_bytes("name")) {
            Some(v) => (Some(IDListV { name: v, ..base }), true),
            None => (Some(base), true),
        }
    } else {
        (cur, false)
    }
}

impl IDList {
    /// Probes one tag against an in-progress id list, exactly as
    /// [`idlist_match_tag`] says.
    pub fn try_match_bytes_start(
        self_option: &mut Option<IDList>,
        name: &[u8],
        attrs: &Vec<(Vec<u8>, Vec<u8>)>,
    ) -> (r: Response)
        ensures
            ({
                let (newopt, found) = idlist_match_tag(
                    opt_idlist_view(*old(self_option)),
                    name@,
                    crate::xml_parser::reader::attr_pairs_view(attrs@),
                );
                opt_idlist_view(*final(self_option)) == newopt && r.match_found == found
            }),
    {
        proof {
            reveal_strlit("idlist");
            reveal_strlit("name");
        }
        if !bytes_eq(name, str_bytes("idlist")) {
            return Response { match_found: false };
        }
        let mut l = match self_option.take() {
            Some(l) => l,
            None => IDList::default(),
        };
        match find_attr_owned(attrs, str_bytes("name")) {
            Some(v) => {
                l.name = v;
            },
            None => {},
        }
        *self_option = Some(l);
        Response { match_found: true }
    }
}

/// Looks the first attribute with the given key up, returning its value.
fn find_attr_owned(attrs: &Vec<(Vec<u8>, Vec<u8>)>, key: &[u8]) -> (r: Option<Vec<u8>>)
    ensures
        match r {
            Some(v) => find_attr(crate::xml_parser::reader::attr_pairs_view(attrs@), key@) == Some(
                v@,
            ),
            None => find_attr(crate::xml_parser::reader::attr_pairs_view(attrs@), key@) is None,
        },
{
    crate::xml_parser::try_match_bytes_start::find_attr_exec(attrs, key)
}

} // verus!
