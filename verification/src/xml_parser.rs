//! Schema-directed ingestion: a single streaming walk over the file's tag
//! events, probing each tag against the known record kinds in a fixed order
//! and building the three flat registries (types, top-level components, id
//! lists).  No transform arithmetic happens here.

pub mod reader;
pub mod try_match_attribute;
pub mod try_match_bytes_start;

use vstd::prelude::*;

use crate::bytemap::{entries_insert, entries_view, lemma_entries_insert_view, view_insert, ByteMap};
use crate::errors::{IdfError, IdfErrorV};
use crate::idlists::{idlist_match_tag, opt_idlist_view, IDList, IDListV};
use crate::structs::{
    component_default_v, default_type_v, Component, ComponentV, Hexahedron, Location, LocationV,
    Locations, LocationsV, Rotation, Type, TypeV,
};
use crate::types::Types;
use crate::utils::ascii_bytes;
use crate::xml_parser::reader::{
    next_raw_event, reader_events, start_tag_attrs, start_tag_name, xml_events, xml_reader,
    RawEvent, TagEvent,
};
use crate::xml_parser::try_match_attribute::{opt_type_view, suffix_bytes};
use crate::xml_parser::try_match_bytes_start::{
    component_match_tag, hexahedron_match_tag, location_match_tag, locations_match_tag,
    opt_component_view, opt_location_view, opt_locations_view, rotation_match_tag, type_match_tag,
};

verus! {

/// The abstract state of the ingester: the three registries built so far,
/// as ordered entry sequences, and the records still open.
pub struct ParseStateV {
    pub components: Seq<(Seq<u8>, ComponentV)>,
    pub types: Seq<(Seq<u8>, TypeV)>,
    pub id_lists: Seq<(Seq<u8>, IDListV)>,
    pub current_component: Option<ComponentV>,
    pub current_type: Option<TypeV>,
    pub current_hexahedron: Option<Hexahedron>,
    pub current_id_list: Option<IDListV>,
}

/// Before any event: empty registries but for the root's implicit type, and
/// nothing open.
pub open spec fn initial_parse_state() -> ParseStateV {
    ParseStateV {
        components: Seq::empty(),
        types: seq![(Seq::<u8>::empty(), default_type_v())],
        id_lists: Seq::empty(),
        current_component: None,
        current_type: None,
        current_hexahedron: None,
        current_id_list: None,
    }
}

/// A just-matched location attached to the open component (opening one if
/// need be); a location without a name takes the component's type name.
pub open spec fn attach_location(st: ParseStateV, loc: LocationV) -> ParseStateV {
    let c = match st.current_component {
        Some(c) => c,
        None => component_default_v(),
    };
    let named = if loc.name.len() == 0 {
        LocationV { name: c.type_ref, ..loc }
    } else {
        loc
    };
    ParseStateV {
        current_component: Some(ComponentV { location: c.location.push(named), ..c }),
        ..st
    }
}

/// A just-matched rotation attached to the open component's most recent
/// location, creating component and location as needed.
pub open spec fn attach_rotation(st: ParseStateV, rot: Rotation) -> ParseStateV {
    let c = match st.current_component {
        Some(c) => c,
        None => component_default_v(),
    };
    let c2 = if c.location.len() == 0 {
        ComponentV {
            location: seq![
                LocationV {
                    name: Seq::<u8>::empty(),
                    translation: Seq::empty(),
                    rotation: seq![rot],
                },
            ],
            ..c
        }
    } else {
        let last = c.location.last();
        ComponentV {
            location: c.location.update(
                c.location.len() - 1,
                LocationV { rotation: last.rotation.push(rot), ..last },
            ),
            ..c
        }
    };
    ParseStateV { current_component: Some(c2), ..st }
}

/// A just-matched bulk record attached to the open component.
pub open spec fn attach_locations(st: ParseStateV, ls: LocationsV) -> ParseStateV {
    let c = match st.current_component {
        Some(c) => c,
        None => component_default_v(),
    };
    ParseStateV {
        current_component: Some(ComponentV { locations: c.locations.push(ls), ..c }),
        ..st
    }
}

/// One start tag: probed as component, type, hexahedron, id list, location
/// and rotation, in that order, the first match deciding.  The hexahedron and
/// rotation probes leave their open-record side effects behind even on a
/// miss, exactly as the matchers say.
pub open spec fn ingest_start(
    st: ParseStateV,
    name: Seq<u8>,
    attrs: Seq<(Seq<u8>, Seq<u8>)>,
) -> Result<ParseStateV, IdfErrorV> {
    match component_match_tag(st.current_component, name, attrs) {
        Err(e) => Err(e),
        Ok((cc, c_found)) => {
            let st1 = ParseStateV { current_component: cc, ..st };
            if c_found {
                Ok(st1)
            } else {
                let (ct, t_found) = type_match_tag(st1.current_type, name, attrs);
                let st2 = ParseStateV { current_type: ct, ..st1 };
                if t_found {
                    Ok(st2)
                } else {
                    match hexahedron_match_tag(st2.current_hexahedron, name, attrs) {
                        Err(e) => Err(e),
                        Ok((ch, h_found)) => {
                            let st3 = ParseStateV { current_hexahedron: ch, ..st2 };
                            if h_found {
                                Ok(st3)
                            } else {
                                let (ci, i_found) = idlist_match_tag(
                                    st3.current_id_list,
                                    name,
                                    attrs,
                                );
                                let st4 = ParseStateV { current_id_list: ci, ..st3 };
                                if i_found {
                                    Ok(st4)
                                } else {
                                    match location_match_tag(None, name, attrs) {
                                        Err(e) => Err(e),
                                        Ok((Some(loc), _)) => Ok(attach_location(st4, loc)),
                                        Ok((None, _)) => match rotation_match_tag(
                                            None,
                                            name,
                                            attrs,
                                        ) {
                                            Err(e) => Err(e),
                                            Ok((Some(rot), _)) => Ok(attach_rotation(st4, rot)),
                                            Ok((None, _)) => Ok(st4),
                                        },
                                    }
                                }
                            }
                        }
                    }
                }
            }
        },
    }
}

/// One self-closing tag: a matched `type` commits at once (one that opened no
/// record is an error), then the id list, location, rotation and bulk
/// `locations` probes run, and last the hexahedron probe with its open-record
/// side effect.
pub open spec fn ingest_empty(
    st: ParseStateV,
    name: Seq<u8>,
    attrs: Seq<(Seq<u8>, Seq<u8>)>,
) -> Result<ParseStateV, IdfErrorV> {
    let (ct, t_found) = type_match_tag(st.current_type, name, attrs);
    let commit = if t_found {
        match ct {
            Some(t) => Ok(
                ParseStateV {
                    types: view_insert(st.types, t.name, t),
                    current_type: None,
                    ..st
                },
            ),
            None => Err(
                IdfErrorV::MissingAttribute {
                    tag: ascii_bytes("type"),
                    attribute: ascii_bytes("name"),
                },
            ),
        }
    } else {
        Ok(ParseStateV { current_type: ct, ..st })
    };
    match commit {
        Err(e) => Err(e),
        Ok(st1) => {
            let (ci, i_found) = idlist_match_tag(st1.current_id_list, name, attrs);
            let st2 = ParseStateV { current_id_list: ci, ..st1 };
            if i_found {
                Ok(st2)
            } else {
                match location_match_tag(None, name, attrs) {
                    Err(e) => Err(e),
                    Ok((Some(loc), _)) => Ok(attach_location(st2, loc)),
                    Ok((None, _)) => match rotation_match_tag(None, name, attrs) {
                        Err(e) => Err(e),
                        Ok((Some(rot), _)) => Ok(attach_rotation(st2, rot)),
                        Ok((None, _)) => match locations_match_tag(None, name, attrs) {
                            Err(e) => Err(e),
                            Ok((Some(ls), _)) => Ok(attach_locations(st2, ls)),
                            Ok((None, _)) => match hexahedron_match_tag(
                                st2.current_hexahedron,
                                name,
                                attrs,
                            ) {
                                Err(e) => Err(e),
                                Ok((ch, _)) => Ok(
                                    ParseStateV { current_hexahedron: ch, ..st2 },
                                ),
                            },
                        },
                    },
                }
            }
        },
    }
}

/// One end tag: a closing `component` joins the open type when one is open,
/// else the top-level component map; closing `type`, `hexahedron` and
/// `idlist` commit their records; any other end tag does nothing.
pub open spec fn ingest_end(st: ParseStateV, name: Seq<u8>) -> ParseStateV {
    if name == ascii_bytes("component") {
        match st.current_component {
            None => st,
            Some(c) => match st.current_type {
                Some(t) => ParseStateV {
                    current_type: Some(TypeV { components: t.components.push(c), ..t }),
                    current_component: None,
                    ..st
                },
                None => ParseStateV {
                    components: view_insert(st.components, c.type_ref, c),
                    current_component: None,
                    ..st
                },
            },
        }
    } else if name == ascii_bytes("type") {
        match st.current_type {
            Some(t) => ParseStateV {
                types: view_insert(st.types, t.name, t),
                current_type: None,
                ..st
            },
            None => st,
        }
    } else if name == ascii_bytes("hexahedron") {
        match st.current_hexahedron {
            Some(h) => {
                let t = match st.current_type {
                    Some(t) => t,
                    None => default_type_v(),
                };
                ParseStateV {
                    current_type: Some(TypeV { hexahedron: Some(h), ..t }),
                    current_hexahedron: None,
                    ..st
                }
            },
            None => st,
        }
    } else if name == ascii_bytes("idlist") {
        match st.current_id_list {
            Some(l) => ParseStateV {
                id_lists: view_insert(st.id_lists, l.name, l),
                current_id_list: None,
                ..st
            },
            None => st,
        }
    } else {
        st
    }
}

/// One event of the stream; a tokenizer failure is fatal with its position.
pub open spec fn ingest_step(st: ParseStateV, ev: TagEvent) -> Result<ParseStateV, IdfErrorV> {
    match ev {
        TagEvent::Start { name, attrs } => ingest_start(st, name, attrs),
        TagEvent::Empty { name, attrs } => ingest_empty(st, name, attrs),
        TagEvent::End { name } => Ok(ingest_end(st, name)),
        TagEvent::Other => Ok(st),
        TagEvent::Failed { position, message } => Err(IdfErrorV::Stream { position, message }),
    }
}

/// The whole single-pass ingestion: events folded in order, the first error
/// ending the parse.
pub open spec fn ingest_run(st: ParseStateV, evs: Seq<TagEvent>) -> Result<ParseStateV, IdfErrorV>
    decreases evs.len(),
{
    if evs.len() == 0 {
        Ok(st)
    } else {
        match ingest_step(st, evs.first()) {
            Err(e) => Err(e),
            Ok(st1) => ingest_run(st1, evs.drop_first()),
        }
    }
}

/// The ingester's working state.
pub struct IngestState {
    pub components: ByteMap<Component>,
    pub types: Types,
    pub id_lists: ByteMap<IDList>,
    pub current_component: Option<Component>,
    pub current_type: Option<Type>,
    pub current_hexahedron: Option<Hexahedron>,
    pub current_id_list: Option<IDList>,
}

impl IngestState {
    pub open spec fn wf(self) -> bool {
        &&& self.components.wf()
        &&& forall|i: int|
            0 <= i < self.components.entries@.len() ==> (#[trigger] self.components.entries@[i]).1.wf()
        &&& self.types.wf()
        &&& self.id_lists.wf()
        &&& match self.current_component {
            Some(c) => c.wf(),
            None => true,
        }
        &&& match self.current_type {
            Some(t) => t.wf(),
            None => true,
        }
    }

    pub open spec fn view_state(self) -> ParseStateV {
        ParseStateV {
            components: entries_view(self.components.entries@),
            types: entries_view(self.types.0.entries@),
            id_lists: entries_view(self.id_lists.entries@),
            current_component: opt_component_view(self.current_component),
            current_type: opt_type_view(self.current_type),
            current_hexahedron: self.current_hexahedron,
            current_id_list: opt_idlist_view(self.current_id_list),
        }
    }

    pub fn new() -> (r: IngestState)
        ensures
            r.wf(),
            r.view_state() == initial_parse_state(),
    {
        let r = IngestState {
            components: ByteMap::new(),
            types: Types::default(),
            id_lists: ByteMap::new(),
            current_component: None,
            current_type: None,
            current_hexahedron: None,
            current_id_list: None,
        };
        proof {
            assert(entries_view(r.components.entries@) =~= Seq::<(Seq<u8>, ComponentV)>::empty());
            assert(entries_view(r.id_lists.entries@) =~= Seq::<(Seq<u8>, IDListV)>::empty());
            assert(entries_view(r.types.0.entries@) =~= seq![
                (Seq::<u8>::empty(), default_type_v()),
            ]);
            assert(r.view_state() == initial_parse_state());
        }
        r
    }
}

/// Handles one start tag, exactly as [`ingest_start`] says.
fn handle_start(st: &mut IngestState, name: &[u8], attrs: &Vec<(Vec<u8>, Vec<u8>)>) -> (r: Result<
    (),
    IdfError,
>)
    requires
        old(st).wf(),
    ensures
        match ingest_start(
            old(st).view_state(),
            name@,
            crate::xml_parser::reader::attr_pairs_view(attrs@),
        ) {
            Ok(v) => r is Ok && final(st).view_state() == v && final(st).wf(),
            Err(e) => r matches Err(err) && err@ == e,
        },
{
    match Component::try_match_bytes_start(&mut st.current_component, name, attrs) {
        Err(e) => {
            return Err(e);
        },
        Ok(resp) => {
            if resp.match_found {
                return Ok(());
            }
        },
    }
    let resp = Type::try_match_bytes_start(&mut st.current_type, name, attrs);
    if resp.match_found {
        return Ok(());
    }
    match Hexahedron::try_match_bytes_start(&mut st.current_hexahedron, name, attrs) {
        Err(e) => {
            return Err(e);
        },
        Ok(resp) => {
            if resp.match_found {
                return Ok(());
            }
        },
    }
    let resp = IDList::try_match_bytes_start(&mut st.current_id_list, name, attrs);
    if resp.match_found {
        return Ok(());
    }
    let mut location: Option<Location> = None;
    match Location::try_match_bytes_start(&mut location, name, attrs) {
        Err(e) => {
            return Err(e);
        },
        Ok(_) => {},
    }
    match location {
        Some(loc) => {
            attach_location_exec(st, loc);
            return Ok(());
        },
        None => {},
    }
    let mut rotation: Option<Rotation> = None;
    match Rotation::try_match_bytes_start(&mut rotation, name, attrs) {
        Err(e) => {
            return Err(e);
        },
        Ok(_) => {},
    }
    match rotation {
        Some(rot) => {
            attach_rotation_exec(st, rot);
        },
        None => {},
    }
    Ok(())
}

/// Attaches a matched location to the open component, naming it after the
/// component's type when it has no name of its own.
fn attach_location_exec(st: &mut IngestState, loc: Location)
    requires
        old(st).wf(),
    ensures
        final(st).wf(),
        final(st).view_state() == attach_location(old(st).view_state(), loc@),
{
    let mut c = match st.current_component.take() {
        Some(c) => c,
        None => Component::default(),
    };
    let mut loc = loc;
    if loc.name.is_empty() {
        proof {
            assert(loc.name@ =~= Seq::<u8>::empty());
        }
        loc.name = vstd::slice::slice_to_vec(c.type_ref.as_slice());
    }
    c.location.push(loc);
    st.current_component = Some(c);
    proof {
        assert(final(st).view_state().current_component == attach_location(
            old(st).view_state(),
            loc@,
        ).current_component) by {
            assert(c@.location =~= match old(st).view_state().current_component {
                Some(cv) => cv,
                None => component_default_v(),
            }.location.push(loc@));
        }
    }
}

/// Attaches a matched rotation to the open component's most recent location.
fn attach_rotation_exec(st: &mut IngestState, rot: Rotation)
    requires
        old(st).wf(),
    ensures
        final(st).wf(),
        final(st).view_state() == attach_rotation(old(st).view_state(), rot),
{
    let mut c = match st.current_component.take() {
        Some(c) => c,
        None => Component::default(),
    };
    c.push_rotation(rot);
    st.current_component = Some(c);
    proof {
        let prev = match old(st).view_state().current_component {
            Some(cv) => cv,
            None => component_default_v(),
        };
        let expect = attach_rotation(old(st).view_state(), rot);
        assert(c@.location =~= match expect.current_component {
            Some(cv) => cv,
            None => component_default_v(),
        }.location);
        assert(Some(c@) == expect.current_component);
    }
}

/// Handles one self-closing tag, exactly as [`ingest_empty`] says.
fn handle_empty(st: &mut IngestState, name: &[u8], attrs: &Vec<(Vec<u8>, Vec<u8>)>) -> (r: Result<
    (),
    IdfError,
>)
    requires
        old(st).wf(),
    ensures
        match ingest_empty(
            old(st).view_state(),
            name@,
            crate::xml_parser::reader::attr_pairs_view(attrs@),
        ) {
            Ok(v) => r is Ok && final(st).view_state() == v && final(st).wf(),
            Err(e) => r matches Err(err) && err@ == e,
        },
{
    proof {
        reveal_strlit("type");
        reveal_strlit("name");
    }
    let resp = Type::try_match_bytes_start(&mut st.current_type, name, attrs);
    if resp.match_found {
        match st.current_type.take() {
            Some(t) => {
                let key = vstd::slice::slice_to_vec(t.name.as_slice());
                proof {
                    lemma_entries_insert_view(st.types.0.entries@, key, t);
                }
                st.types.insert(key, t);
            },
            None => {
                return Err(
                    IdfError::MissingAttribute {
                        tag: vstd::slice::slice_to_vec(crate::utils::str_bytes("type")),
                        attribute: vstd::slice::slice_to_vec(crate::utils::str_bytes("name")),
                    },
                );
            },
        }
    }
    let resp = IDList::try_match_bytes_start(&mut st.current_id_list, name, attrs);
    if resp.match_found {
        return Ok(());
    }
    let mut location: Option<Location> = None;
    match Location::try_match_bytes_start(&mut location, name, attrs) {
        Err(e) => {
            return Err(e);
        },
        Ok(_) => {},
    }
    match location {
        Some(loc) => {
            attach_location_exec(st, loc);
            return Ok(());
        },
        None => {},
    }
    let mut rotation: Option<Rotation> = None;
    match Rotation::try_match_bytes_start(&mut rotation, name, attrs) {
        Err(e) => {
            return Err(e);
        },
        Ok(_) => {},
    }
    match rotation {
        Some(rot) => {
            attach_rotation_exec(st, rot);
            return Ok(());
        },
        None => {},
    }
    let mut locations: Option<Locations> = None;
    match Locations::try_match_bytes_start(&mut locations, name, attrs) {
        Err(e) => {
            return Err(e);
        },
        Ok(_) => {},
    }
    match locations {
        Some(ls) => {
            let mut c = match st.current_component.take() {
                Some(c) => c,
                None => Component::default(),
            };
            c.locations.push(ls);
            st.current_component = Some(c);
            proof {
                let expect = attach_locations(
                    ingest_empty_mid(old(st).view_state(), name@, crate::xml_parser::reader::attr_pairs_view(attrs@)),
                    ls@,
                );
                assert(c@.locations =~= match expect.current_component {
                    Some(cv) => cv,
                    None => component_default_v(),
                }.locations);
            }
            return Ok(());
        },
        None => {},
    }
    match Hexahedron::try_match_bytes_start(&mut st.current_hexahedron, name, attrs) {
        Err(e) => {
            return Err(e);
        },
        Ok(_) => {},
    }
    Ok(())
}

/// The state after the `type` and id-list probes of a self-closing tag, when
/// neither ended the parse.
pub open spec fn ingest_empty_mid(
    st: ParseStateV,
    name: Seq<u8>,
    attrs: Seq<(Seq<u8>, Seq<u8>)>,
) -> ParseStateV {
    let (ct, t_found) = type_match_tag(st.current_type, name, attrs);
    let st1 = if t_found {
        match ct {
            Some(t) => ParseStateV {
                types: view_insert(st.types, t.name, t),
                current_type: None,
                ..st
            },
            None => st,
        }
    } else {
        ParseStateV { current_type: ct, ..st }
    };
    let (ci, _) = idlist_match_tag(st1.current_id_list, name, attrs);
    ParseStateV { current_id_list: ci, ..st1 }
}

/// Handles one end tag, exactly as [`ingest_end`] says.
fn handle_end(st: &mut IngestState, name: &[u8])
    requires
        old(st).wf(),
    ensures
        final(st).wf(),
        final(st).view_state() == ingest_end(old(st).view_state(), name@),
{
    proof {
        reveal_strlit("component");
        reveal_strlit("type");
        reveal_strlit("hexahedron");
        reveal_strlit("idlist");
    }
    if crate::utils::bytes_eq(name, crate::utils::str_bytes("component")) {
        match st.current_component.take() {
            Some(c) => match st.current_type.take() {
                Some(mut t) => {
                    t.components.push(c);
                    st.current_type = Some(t);
                    proof {
                        let expect = ingest_end(old(st).view_state(), name@);
                        assert(t@.components =~= match expect.current_type {
                            Some(tv) => tv,
                            None => default_type_v(),
                        }.components);
                    }
                },
                None => {
                    let key = vstd::slice::slice_to_vec(c.type_ref.as_slice());
                    proof {
                        lemma_entries_insert_view(st.components.entries@, key, c);
                    }
                    st.components.insert(key, c);
                    proof {
                        lemma_entries_wf_after_insert(old(st).components.entries@, key, c);
                    }
                },
            },
            None => {},
        }
    } else if crate::utils::bytes_eq(name, crate::utils::str_bytes("type")) {
        match st.current_type.take() {
            Some(t) => {
                let key = vstd::slice::slice_to_vec(t.name.as_slice());
                proof {
                    lemma_entries_insert_view(st.types.0.entries@, key, t);
                }
                st.types.insert(key, t);
            },
            None => {},
        }
    } else if crate::utils::bytes_eq(name, crate::utils::str_bytes("hexahedron")) {
        match st.current_hexahedron.take() {
            Some(h) => {
                let mut t = match st.current_type.take() {
                    Some(t) => t,
                    None => Type::default(),
                };
                t.hexahedron = Some(h);
                st.current_type = Some(t);
            },
            None => {},
        }
    } else if crate::utils::bytes_eq(name, crate::utils::str_bytes("idlist")) {
        match st.current_id_list.take() {
            Some(l) => {
                let key = vstd::slice::slice_to_vec(l.name.as_slice());
                proof {
                    lemma_entries_insert_view(st.id_lists.entries@, key, l);
                }
                st.id_lists.insert(key, l);
            },
            None => {},
        }
    }
}

/// Replacing or appending a well-formed entry keeps every entry well-formed.
proof fn lemma_entries_wf_after_insert(s: Seq<(Vec<u8>, Component)>, key: Vec<u8>, value: Component)
    requires
        forall|i: int| 0 <= i < s.len() ==> (#[trigger] s[i]).1.wf(),
        value.wf(),
    ensures
        forall|i: int|
            0 <= i < entries_insert(s, key, value).len() ==> (#[trigger] entries_insert(
                s,
                key,
                value,
            )[i]).1.wf(),
{
}

/// Ingests the whole text into the flat registries, exactly as folding
/// [`ingest_step`] over the text's events says.
pub fn ingest(text: &str) -> (r: Result<IngestState, IdfError>)
    ensures
        match ingest_run(initial_parse_state(), xml_events(text@)) {
            Ok(v) => r matches Ok(st) && st.view_state() == v && st.wf(),
            Err(e) => r matches Err(err) && err@ == e,
        },
{
    let mut r = xml_reader(text);
    let mut st = IngestState::new();
    loop
        invariant
            st.wf(),
            ingest_run(initial_parse_state(), xml_events(text@)) == ingest_run(
                st.view_state(),
                reader_events(r),
            ),
        decreases reader_events(r).len(),
    {
        let ghost evs = reader_events(r);
        let ev = next_raw_event(&mut r);
        match ev {
            RawEvent::Eof => {
                return Ok(st);
            },
            RawEvent::Failed { position, message } => {
                proof {
                    assert(evs.len() > 0);
                    assert(evs.first() == (TagEvent::Failed { position, message: message@ }));
                }
                return Err(IdfError::Stream { position, message });
            },
            RawEvent::Other => {
                proof {
                    assert(evs.len() > 0);
                    assert(evs.first() is Other);
                }
            },
            RawEvent::End(n) => {
                proof {
                    assert(evs.len() > 0);
                    assert(evs.first() == (TagEvent::End { name: n@ }));
                }
                handle_end(&mut st, n.as_slice());
            },
            RawEvent::Start(b) => {
                let name = start_tag_name(&b);
                let attrs = start_tag_attrs(&b);
                proof {
                    assert(evs.len() > 0);
                    assert(evs.first() == (TagEvent::Start {
                        name: name@,
                        attrs: crate::xml_parser::reader::attr_pairs_view(attrs@),
                    }));
                }
                match handle_start(&mut st, name.as_slice(), &attrs) {
                    Ok(_) => {},
                    Err(e) => {
                        return Err(e);
                    },
                }
            },
            RawEvent::Empty(b) => {
                let name = start_tag_name(&b);
                let attrs = start_tag_attrs(&b);
                proof {
                    assert(evs.len() > 0);
                    assert(evs.first() == (TagEvent::Empty {
                        name: name@,
                        attrs: crate::xml_parser::reader::attr_pairs_view(attrs@),
                    }));
                }
                match handle_empty(&mut st, name.as_slice(), &attrs) {
                    Ok(_) => {},
                    Err(e) => {
                        return Err(e);
                    },
                }
            },
        }
    }
}

} // verus!
