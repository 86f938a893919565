//! The special-type classification and the type registry.

use vstd::prelude::*;

use crate::bytemap::ByteMap;
use crate::structs::default_type_v;
use crate::structs::Type;
use crate::utils::{ascii_bytes, bytes_eq, str_bytes};

verus! {

/// The closed classification that drives geometry generation.  A tag value
/// outside this vocabulary is not an error: it degrades to [`Plain`], because
/// the format's vocabulary is open-ended in practice.
///
/// [`Plain`]: SpecialTypes::Plain
#[derive(Debug, Clone, Copy, PartialEq, Eq, Structural)]
pub enum SpecialTypes {
    /// No special classification: an ordinary container.
    Plain,
    /// A detector part that contributes one point per placement.
    Detector,
    /// A monitor.
    Monitor,
    /// A bulk detector that synthesises a rectangular pixel grid.
    RectangularDetector,
    /// A bulk detector with irregular geometry.
    StructuredDetector,
    /// The source.
    Source,
    /// The sample position.
    SamplePos,
    /// The chopper position.
    ChopperPos,
}

/// The classification a textual tag value denotes; anything unrecognised is
/// [`SpecialTypes::Plain`].
pub open spec fn special_type_of(s: Seq<u8>) -> SpecialTypes {
    if s == ascii_bytes("Detector") || s == ascii_bytes("detector") {
        SpecialTypes::Detector
    } else if s == ascii_bytes("Monitor") || s == ascii_bytes("monitor") {
        SpecialTypes::Monitor
    } else if s == ascii_bytes("RectangularDetector") || s == ascii_bytes("rectangularDetector")
        || s == ascii_bytes("rectangulardetector") || s == ascii_bytes("rectangular_detector") {
        SpecialTypes::RectangularDetector
    } else if s == ascii_bytes("StructuredDetector") || s == ascii_bytes("structuredDetector")
        || s == ascii_bytes("structureddetector") || s == ascii_bytes("structured_detector") {
        SpecialTypes::StructuredDetector
    } else if s == ascii_bytes("Source") || s == ascii_bytes("source") {
        SpecialTypes::Source
    } else if s == ascii_bytes("SamplePos") || s == ascii_bytes("samplePos") {
        SpecialTypes::SamplePos
    } else if s == ascii_bytes("ChopperPos") || s == ascii_bytes("chopperPos") {
        SpecialTypes::ChopperPos
    } else {
        SpecialTypes::Plain
    }
}

impl SpecialTypes {
    /// Reads a classification from tag text, leniently: the unrecognised
    /// degrade to [`SpecialTypes::Plain`], never to an error.
    pub fn parse(value: &[u8]) -> (t: SpecialTypes)
        ensures
            t == special_type_of(value@),
    {
        proof {
            reveal_strlit("Detector");
            reveal_strlit("detector");
            reveal_strlit("Monitor");
            reveal_strlit("monitor");
            reveal_strlit("RectangularDetector");
            reveal_strlit("rectangularDetector");
            reveal_strlit("rectangulardetector");
            reveal_strlit("rectangular_detector");
            reveal_strlit("StructuredDetector");
            reveal_strlit("structuredDetector");
            reveal_strlit("structureddetector");
            reveal_strlit("structured_detector");
            reveal_strlit("Source");
            reveal_strlit("source");
            reveal_strlit("SamplePos");
            reveal_strlit("samplePos");
            reveal_strlit("ChopperPos");
            reveal_strlit("chopperPos");
        }
        if bytes_eq(value, str_bytes("Detector")) || bytes_eq(value, str_bytes("detector")) {
            SpecialTypes::Detector
        } else if bytes_eq(value, str_bytes("Monitor")) || bytes_eq(value, str_bytes("monitor")) {
            SpecialTypes::Monitor
        } else if bytes_eq(value, str_bytes("RectangularDetector")) || bytes_eq(
            value,
            str_bytes("rectangularDetector"),
        ) || bytes_eq(value, str_bytes("rectangulardetector")) || bytes_eq(
            value,
            str_bytes("rectangular_detector"),
        ) {
            SpecialTypes::RectangularDetector
        } else if bytes_eq(value, str_bytes("StructuredDetector")) || bytes_eq(
            value,
            str_bytes("structuredDetector"),
        ) || bytes_eq(value, str_bytes("structureddetector")) || bytes_eq(
            value,
            str_bytes("structured_detector"),
        ) {
            SpecialTypes::StructuredDetector
        } else if bytes_eq(value, str_bytes("Source")) || bytes_eq(value, str_bytes("source")) {
            SpecialTypes::Source
        } else if bytes_eq(value, str_bytes("SamplePos")) || bytes_eq(
            value,
            str_bytes("samplePos"),
        ) {
            SpecialTypes::SamplePos
        } else if bytes_eq(value, str_bytes("ChopperPos")) || bytes_eq(
            value,
            str_bytes("chopperPos"),
        ) {
            SpecialTypes::ChopperPos
        } else {
            SpecialTypes::Plain
        }
    }
}

impl Default for SpecialTypes {
    fn default() -> (t: SpecialTypes)
        ensures
            t == SpecialTypes::Plain,
    {
        SpecialTypes::Plain
    }
}

/// The registry of the types a file defines, keyed by name.  It always holds
/// an entry for the empty name: the implicit type of the synthetic root.
#[derive(Debug, Clone)]
pub struct Types(pub ByteMap<Type>);

impl Types {
    pub open spec fn wf(self) -> bool {
        &&& self.0.wf()
        &&& self.as_map().contains_key(Seq::<u8>::empty())
        &&& forall|k: Seq<u8>|
            self.as_map().contains_key(k) ==> (#[trigger] self.as_map()[k]).wf()
    }

    pub open spec fn as_map(self) -> Map<Seq<u8>, Type> {
        self.0.as_map()
    }

    pub fn get(&self, name: &[u8]) -> (r: Option<&Type>)
        requires
            self.wf(),
        ensures
            match r {
                Some(t) => self.as_map().contains_key(name@) && *t == self.as_map()[name@],
                None => !self.as_map().contains_key(name@),
            },
    {
        self.0.get(name)
    }

    pub fn contains_key(&self, name: &[u8]) -> (r: bool)
        requires
            self.wf(),
        ensures
            r == self.as_map().contains_key(name@),
    {
        self.0.contains_key(name)
    }

    pub fn insert(&mut self, name: Vec<u8>, value: Type)
        requires
            old(self).wf(),
            value.wf(),
        ensures
            final(self).wf(),
            final(self).as_map() == old(self).as_map().insert(name@, value),
            final(self).0.entries@ == crate::bytemap::entries_insert(
                old(self).0.entries@,
                name,
                value,
            ),
    {
        self.0.insert(name, value);
        proof {
            assert(final(self).as_map().contains_key(Seq::<u8>::empty()));
        }
    }
}

impl Default for Types {
    /// A fresh registry holding only the root's implicit empty-name type.
    fn default() -> (r: Types)
        ensures
            r.wf(),
            r.0.entries@.len() == 1,
            r.0.entries@[0].0@ == Seq::<u8>::empty(),
            r.0.entries@[0].1@ == default_type_v(),
            r.as_map().dom() =~= Set::<Seq<u8>>::empty().insert(Seq::<u8>::empty()),
            r.as_map()[Seq::<u8>::empty()]@ == default_type_v(),
    {
        let mut m: ByteMap<Type> = ByteMap::new();
        m.insert(Vec::new(), Type::default());
        Types(m)
    }
}

} // verus!
