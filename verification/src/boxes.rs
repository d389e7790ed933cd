//! The box data model: four-character type codes, per-box headers,
//! parsed nodes with their payload classification, and decoder keys,
//! together with the ghost mirrors that the parser's contracts use.

use vstd::prelude::*;

use crate::strings::{lossy_str, push_lossy};
use vstd::string::StringSliceAdditionalSpecFns;

verus! {

/// A four-character box type code.
#[derive(Clone, Copy, Debug, Hash)]
pub struct FourCC(pub [u8; 4]);

impl PartialEq for FourCC {
    fn eq(&self, other: &FourCC) -> (r: bool) {
        let r = self.0[0] == other.0[0] && self.0[1] == other.0[1] && self.0[2] == other.0[2]
            && self.0[3] == other.0[3];
        proof {
            if r {
                assert(self.0@ =~= other.0@);
            }
        }
        r
    }
}

impl Eq for FourCC {}

impl vstd::std_specs::cmp::PartialEqSpecImpl for FourCC {
    open spec fn obeys_eq_spec() -> bool {
        true
    }

    open spec fn eq_spec(&self, other: &FourCC) -> bool {
        self.0@ == other.0@
    }
}

impl FourCC {
    /// Builds a code from a string of exactly four bytes.
    pub fn from_str(s: &str) -> (r: Option<FourCC>)
        ensures
            match r {
                Some(f) => s.spec_bytes().len() == 4 && f.0@ == s.spec_bytes(),
                None => s.spec_bytes().len() != 4,
            },
    {
        let b = s.as_bytes();
        if b.len() == 4 {
            let f = FourCC([b[0], b[1], b[2], b[3]]);
            proof {
                assert(f.0@ =~= s.spec_bytes());
            }
            Some(f)
        } else {
            None
        }
    }

    /// Renders the code with printable ASCII bytes kept and every other
    /// byte shown as a dot.
    pub fn as_str_lossy(&self) -> (r: String)
        ensures
            r@ == lossy_str(self.0@),
    {
        let mut s = String::new();
        push_lossy(&mut s, self.0[0]);
        push_lossy(&mut s, self.0[1]);
        push_lossy(&mut s, self.0[2]);
        push_lossy(&mut s, self.0[3]);
        proof {
            assert(s@ =~= lossy_str(self.0@));
        }
        s
    }

    /// Whether this is the generic `uuid` box type code.
    pub fn is_uuid(&self) -> (r: bool)
        ensures
            r == is_uuid_code(*self),
    {
        let r = self.0[0] == 117 && self.0[1] == 117 && self.0[2] == 105 && self.0[3] == 100;
        proof {
            if r {
                assert(self.0@ =~= uuid_code_bytes());
            }
        }
        r
    }
}

/// The four bytes of the ASCII code `uuid`.
pub open spec fn uuid_code_bytes() -> Seq<u8> {
    seq![117u8, 117u8, 105u8, 100u8]
}

pub open spec fn is_uuid_code(t: FourCC) -> bool {
    t.0@ == uuid_code_bytes()
}

/// Per-box metadata read from one box header.
///
/// `size` is the total box size including the header; `0` is a sentinel
/// meaning the box extends to the end of the enclosing range.
#[derive(Clone, Debug)]
pub struct BoxHeader {
    pub size: u64,
    pub typ: FourCC,
    pub uuid: Option<[u8; 16]>,
    pub header_size: u64,
    pub start: u64,
}

/// The payload classification of one parsed box.
#[derive(Debug)]
pub enum NodeKind {
    Container(Vec<BoxRef>),
    FullBox { version: u8, flags: u32, data_offset: u64, data_len: u64 },
    Leaf { data_offset: u64, data_len: u64 },
    Unknown { data_offset: u64, data_len: u64 },
}

/// One parsed box: its header and its classified payload.
#[derive(Debug)]
pub struct BoxRef {
    pub hdr: BoxHeader,
    pub kind: NodeKind,
}

/// Identity of a box type for decoder lookup: a four-character code, or
/// the 16-byte UUID of a `uuid` box.
#[derive(Clone, Debug, Hash)]
pub enum BoxKey {
    FourCC(FourCC),
    Uuid([u8; 16]),
}

fn bytes16_eq(a: &[u8; 16], b: &[u8; 16]) -> (r: bool)
    ensures
        r == (a@ == b@),
{
    let mut i: usize = 0;
    while i < 16
        invariant
            i <= 16,
            forall|j: int| 0 <= j < i ==> a@[j] == b@[j],
        decreases 16 - i,
    {
        if a[i] != b[i] {
            return false;
        }
        i = i + 1;
    }
    proof {
        assert(a@ =~= b@);
    }
    true
}

impl PartialEq for BoxKey {
    fn eq(&self, other: &BoxKey) -> (r: bool) {
        match (self, other) {
            (BoxKey::FourCC(a), BoxKey::FourCC(b)) => a.eq(b),
            (BoxKey::Uuid(a), BoxKey::Uuid(b)) => bytes16_eq(a, b),
            _ => false,
        }
    }
}

impl Eq for BoxKey {}

impl vstd::std_specs::cmp::PartialEqSpecImpl for BoxKey {
    open spec fn obeys_eq_spec() -> bool {
        true
    }

    open spec fn eq_spec(&self, other: &BoxKey) -> bool {
        box_key_eq(*self, *other)
    }
}

/// Equality of decoder keys: same kind, same bytes.
pub open spec fn box_key_eq(a: BoxKey, b: BoxKey) -> bool {
    match (a, b) {
        (BoxKey::FourCC(x), BoxKey::FourCC(y)) => x.0@ == y.0@,
        (BoxKey::Uuid(x), BoxKey::Uuid(y)) => x@ == y@,
        _ => false,
    }
}

/// Ghost mirror of a parsed box, with children as a sequence.
pub struct BoxS {
    pub hdr: BoxHeader,
    pub kind: KindS,
}

/// Ghost mirror of a box's payload classification.
pub enum KindS {
    Container { children: Seq<BoxS> },
    FullBox { version: u8, flags: u32, data_offset: u64, data_len: u64 },
    Leaf { data_offset: u64, data_len: u64 },
    Unknown { data_offset: u64, data_len: u64 },
}

/// The ghost mirror of one parsed box.
pub open spec fn view_box(b: BoxRef) -> BoxS
    decreases b,
{
    BoxS {
        hdr: b.hdr,
        kind: match b.kind {
            NodeKind::Container(kids) => KindS::Container { children: view_boxes(kids@) },
            NodeKind::FullBox { version, flags, data_offset, data_len } => KindS::FullBox {
                version,
                flags,
                data_offset,
                data_len,
            },
            NodeKind::Leaf { data_offset, data_len } => KindS::Leaf { data_offset, data_len },
            NodeKind::Unknown { data_offset, data_len } => KindS::Unknown {
                data_offset,
                data_len,
            },
        },
    }
}

/// The ghost mirror of a sequence of parsed boxes.
pub open spec fn view_boxes(s: Seq<BoxRef>) -> Seq<BoxS>
    decreases s,
{
    if s.len() == 0 {
        Seq::empty()
    } else {
        seq![view_box(s[0])] + view_boxes(s.drop_first())
    }
}

pub proof fn lemma_view_boxes(s: Seq<BoxRef>)
    ensures
        view_boxes(s).len() == s.len(),
        forall|i: int| 0 <= i < s.len() ==> view_boxes(s)[i] == view_box(s[i]),
    decreases s,
{
    if s.len() > 0 {
        lemma_view_boxes(s.drop_first());
    }
}

pub proof fn lemma_view_boxes_push(s: Seq<BoxRef>, b: BoxRef)
    ensures
        view_boxes(s.push(b)) == view_boxes(s) + seq![view_box(b)],
    decreases s,
{
    let sb = s.push(b);
    if s.len() == 0 {
        assert(sb[0] == b);
        assert(sb.drop_first() =~= Seq::<BoxRef>::empty());
        assert(view_boxes(sb.drop_first()) =~= Seq::<BoxS>::empty());
        assert(view_boxes(sb) =~= seq![view_box(b)] + view_boxes(sb.drop_first()));
        assert(view_boxes(s) =~= Seq::<BoxS>::empty());
        assert(view_boxes(sb) =~= view_boxes(s) + seq![view_box(b)]);
    } else {
        assert(sb[0] == s[0]);
        assert(sb.drop_first() =~= s.drop_first().push(b));
        lemma_view_boxes_push(s.drop_first(), b);
        assert(view_boxes(sb) =~= seq![view_box(s[0])] + view_boxes(s.drop_first().push(b)));
        assert(view_boxes(s) =~= seq![view_box(s[0])] + view_boxes(s.drop_first()));
        assert(view_boxes(sb) =~= view_boxes(s) + seq![view_box(b)]);
    }
}

} // verus!
