//! The display tree: one node per parsed box carrying its geometry,
//! classification and decoded value, built by walking the byte buffer
//! once and decoding through a registry.

use vstd::prelude::*;

use crate::boxes::{is_uuid_code, BoxKey, BoxRef, BoxS, KindS, NodeKind};
use crate::boxes::{view_box, view_boxes};
use crate::known_boxes::{spec_full_name, spec_known_box, KnownBox};
use crate::parser::{parse_children, spec_parse_children, ParseError};
use crate::registry::{default_registry, render_structured, spec_default_lookup, spec_lookup};
use crate::registry::{view_structured, BoxDecoder, BoxValue, BuiltinDecoder, Registry};
use crate::registry::{structured_text, DecodedS, StructuredData, StructuredS};
use crate::strings::{dec_str, hex_str, lossy_str, push_dec_u64, push_hex_u64};
use crate::util::{hex_dump, hex_dump_str};

verus! {

/// A display node of the box tree.
///
/// It carries the box's geometry, its type code and classification as
/// text, the decoded payload when decoding was requested and a decoder
/// was registered, and the child nodes of a container.
#[derive(Debug)]
pub struct BoxNode {
    /// Absolute byte offset of this box.
    pub offset: u64,
    /// Total size of this box including header and payload.
    pub size: u64,
    /// Size of just the box header.
    pub header_size: u64,
    /// Absolute offset where payload data starts (None for containers).
    pub payload_offset: Option<u64>,
    /// Size of payload data (None for containers).
    pub payload_size: Option<u64>,
    /// Four-character box type code, rendered ASCII-lossy.
    pub typ: String,
    /// UUID for UUID boxes, as 32 hex digits.
    pub uuid: Option<String>,
    /// Version field for versioned box types.
    pub version: Option<u8>,
    /// Flags field for versioned box types.
    pub flags: Option<u32>,
    /// Box classification: container, full, leaf or unknown.
    pub kind: String,
    /// Human-readable box type name.
    pub full_name: String,
    /// Decoded box content, when requested and available.
    pub decoded: Option<String>,
    /// Structured data, when requested and a structured decoder ran.
    pub structured_data: Option<StructuredData>,
    /// Child boxes of a container.
    pub children: Option<Vec<BoxNode>>,
}

/// A sum clipped to the largest 64-bit value.
pub open spec fn sat_add64(a: u64, b: u64) -> u64 {
    if a + b > u64::MAX {
        u64::MAX
    } else {
        (a + b) as u64
    }
}

fn sat_add64_exec(a: u64, b: u64) -> (r: u64)
    ensures
        r == sat_add64(a, b),
{
    if a > u64::MAX - b {
        u64::MAX
    } else {
        a + b
    }
}

/// The decoder key of a parsed box: the UUID for a `uuid` box that
/// carries one, else the four-character code.
pub open spec fn spec_box_key(b: BoxS) -> Option<BoxKey> {
    if is_uuid_code(b.hdr.typ) {
        match b.hdr.uuid {
            Some(u) => Some(BoxKey::Uuid(u)),
            None => None,
        }
    } else {
        Some(BoxKey::FourCC(b.hdr.typ))
    }
}

/// The decoder key and payload window of a parsed box: the recorded
/// window of a versioned box; the bytes after the header for a leaf or
/// unknown box of non-zero declared size and non-empty payload; none
/// for a container.
pub open spec fn spec_payload_region(b: BoxS) -> Option<(BoxKey, u64, u64)> {
    match spec_box_key(b) {
        None => None,
        Some(key) => match b.kind {
            KindS::FullBox { data_offset, data_len, .. } => Some((key, data_offset, data_len)),
            KindS::Container { .. } => None,
            KindS::Leaf { .. } | KindS::Unknown { .. } => {
                if b.hdr.size == 0 {
                    None
                } else {
                    let off = sat_add64(b.hdr.start, b.hdr.header_size);
                    let len: u64 = if b.hdr.size >= b.hdr.header_size {
                        (b.hdr.size - b.hdr.header_size) as u64
                    } else {
                        0u64
                    };
                    if len == 0 {
                        None
                    } else {
                        Some((key, off, len))
                    }
                }
            },
        },
    }
}

/// The payload window alone.
pub open spec fn spec_payload_geometry(b: BoxS) -> Option<(u64, u64)> {
    match b.kind {
        KindS::FullBox { data_offset, data_len, .. } => Some((data_offset, data_len)),
        KindS::Container { .. } => None,
        KindS::Leaf { .. } | KindS::Unknown { .. } => {
            if b.hdr.size == 0 {
                None
            } else {
                let off = sat_add64(b.hdr.start, b.hdr.header_size);
                let len: u64 = if b.hdr.size >= b.hdr.header_size {
                    (b.hdr.size - b.hdr.header_size) as u64
                } else {
                    0u64
                };
                if len == 0 {
                    None
                } else {
                    Some((off, len))
                }
            }
        },
    }
}

/// The decoder key and payload window of one parsed box, if it has a
/// decodable payload.
pub fn payload_region(b: &BoxRef) -> (r: Option<(BoxKey, u64, u64)>)
    ensures
        r == spec_payload_region(view_box(*b)),
{
    let key: BoxKey = if b.hdr.typ.is_uuid() {
        match b.hdr.uuid {
            Some(u) => BoxKey::Uuid(u),
            None => {
                return None;
            },
        }
    } else {
        BoxKey::FourCC(b.hdr.typ)
    };
    match &b.kind {
        NodeKind::FullBox { data_offset, data_len, .. } => Some((key, *data_offset, *data_len)),
        NodeKind::Container(_) => None,
        NodeKind::Leaf { .. } | NodeKind::Unknown { .. } => {
            if b.hdr.size == 0 {
                return None;
            }
            let off = sat_add64_exec(b.hdr.start, b.hdr.header_size);
            let len: u64 = if b.hdr.size >= b.hdr.header_size {
                b.hdr.size - b.hdr.header_size
            } else {
                0
            };
            if len == 0 {
                None
            } else {
                Some((key, off, len))
            }
        },
    }
}

/// The payload window of one parsed box, if it has one.
pub fn payload_geometry(b: &BoxRef) -> (r: Option<(u64, u64)>)
    ensures
        r == spec_payload_geometry(view_box(*b)),
{
    match &b.kind {
        NodeKind::FullBox { data_offset, data_len, .. } => Some((*data_offset, *data_len)),
        NodeKind::Container(_) => None,
        NodeKind::Leaf { .. } | NodeKind::Unknown { .. } => {
            if b.hdr.size == 0 {
                return None;
            }
            let off = sat_add64_exec(b.hdr.start, b.hdr.header_size);
            let len: u64 = if b.hdr.size >= b.hdr.header_size {
                b.hdr.size - b.hdr.header_size
            } else {
                0
            };
            if len == 0 {
                None
            } else {
                Some((off, len))
            }
        },
    }
}

/// The version and flags handed to a decoder: those split off a
/// versioned box, nothing otherwise.
pub open spec fn spec_version_flags(b: BoxS) -> (Option<u8>, Option<u32>) {
    match b.kind {
        KindS::FullBox { version, flags, .. } => (Some(version), Some(flags)),
        _ => (None, None),
    }
}

/// The payload bytes that a decoder is handed: the window clipped to
/// the data that is actually present.
pub open spec fn spec_payload_window(data: Seq<u8>, off: u64, len: u64) -> Seq<u8> {
    let lo = if off as int <= data.len() {
        off as int
    } else {
        data.len() as int
    };
    let hi = if off + len <= data.len() {
        off as int + len as int
    } else {
        data.len() as int
    };
    if hi < lo {
        Seq::empty()
    } else {
        data.subrange(lo, hi)
    }
}

/// What `decode_value` yields for one box: the decoded text and the
/// structured value, if any.
pub open spec fn spec_decode_value<D: BoxDecoder>(
    data: Seq<u8>,
    b: BoxS,
    regv: Seq<(BoxKey, D)>,
) -> (Option<Seq<char>>, Option<StructuredS>) {
    match spec_payload_region(b) {
        None => (None, None),
        Some((key, off, len)) => {
            if len == 0 {
                (None, None)
            } else {
                let window = spec_payload_window(data, off, len);
                let (v, f) = spec_version_flags(b);
                match spec_lookup(regv, key) {
                    None => (None, None),
                    Some(d) => match d.spec_decode(window, b.hdr, v, f) {
                        Ok(DecodedS::Text(t)) => (Some(t), None),
                        Ok(DecodedS::Bytes(bs)) => (
                            Some(dec_str(bs.len()) + " bytes"@),
                            None,
                        ),
                        Ok(DecodedS::Structured(sd)) => (
                            Some("structured: "@ + structured_text(sd)),
                            Some(sd),
                        ),
                        Err(e) => (Some("[decode error: "@ + "short payload"@ + "]"@), None),
                    },
                }
            }
        },
    }
}

/// Decodes the payload of one box through the registry, returning the
/// decoded text and any structured value.
pub fn decode_value<D: BoxDecoder>(data: &[u8], b: &BoxRef, reg: &Registry<D>) -> (r: (
    Option<String>,
    Option<StructuredData>,
))
    ensures
        ({
            let (dt, ds) = spec_decode_value(data@, view_box(*b), reg.spec_entries());
            &&& (match r.0 {
                Some(s) => dt == Some(s@),
                None => dt is None,
            })
            &&& (match r.1 {
                Some(d) => ds == Some(view_structured(d)),
                None => ds is None,
            })
        }),
{
    let region = payload_region(b);
    let (key, off, len) = match region {
        Some(t) => t,
        None => {
            return (None, None);
        },
    };
    if len == 0 {
        return (None, None);
    }
    let dlen: u64 = data.len() as u64;
    let lo: usize = if off <= dlen {
        off as usize
    } else {
        data.len()
    };
    let hi: usize = if off <= dlen && len <= dlen - off {
        (off + len) as usize
    } else {
        data.len()
    };
    let window = vstd::slice::slice_subrange(data, lo, hi);
    proof {
        assert(window@ =~= spec_payload_window(data@, off, len));
    }
    let (version, flags): (Option<u8>, Option<u32>) = match &b.kind {
        NodeKind::FullBox { version, flags, .. } => (Some(*version), Some(*flags)),
        _ => (None, None),
    };
    match reg.decode(&key, window, &b.hdr, version, flags) {
        None => (None, None),
        Some(res) => match res {
            Ok(BoxValue::Text(s)) => (Some(s), None),
            Ok(BoxValue::Bytes(bytes)) => {
                let mut s = String::new();
                push_dec_u64(&mut s, bytes.len() as u64);
                s.append(" bytes");
                proof {
                    assert(s@ =~= dec_str(bytes@.len()) + " bytes"@);
                }
                (Some(s), None)
            },
            Ok(BoxValue::Structured(d)) => {
                let mut s = String::new();
                s.append("structured: ");
                let body = render_structured(&d);
                s.append(body.as_str());
                proof {
                    assert(s@ =~= "structured: "@ + structured_text(view_structured(d)));
                }
                (Some(s), Some(d))
            },
            Err(e) => {
                let mut s = String::new();
                s.append("[decode error: ");
                let m = e.message();
                s.append(m.as_str());
                s.append("]");
                proof {
                    assert(s@ =~= "[decode error: "@ + "short payload"@ + "]"@);
                }
                (Some(s), None)
            },
        },
    }
}


/// A byte sequence as lowercase hex pairs.
pub open spec fn bytes_hex(s: Seq<u8>) -> Seq<char>
    decreases s.len(),
{
    if s.len() == 0 {
        Seq::empty()
    } else {
        hex_str(s[0] as nat, 2) + bytes_hex(s.drop_first())
    }
}

proof fn lemma_bytes_hex_snoc(s: Seq<u8>, x: u8)
    ensures
        bytes_hex(s.push(x)) == bytes_hex(s) + hex_str(x as nat, 2),
    decreases s.len(),
{
    let sb = s.push(x);
    if s.len() == 0 {
        assert(sb[0] == x);
        assert(sb.drop_first() =~= Seq::<u8>::empty());
        assert(bytes_hex(Seq::<u8>::empty()) =~= Seq::<char>::empty());
        assert(bytes_hex(sb) =~= bytes_hex(s) + hex_str(x as nat, 2));
    } else {
        assert(sb[0] == s[0]);
        assert(sb.drop_first() =~= s.drop_first().push(x));
        lemma_bytes_hex_snoc(s.drop_first(), x);
        assert(bytes_hex(sb) =~= bytes_hex(s) + hex_str(x as nat, 2));
    }
}

fn uuid_hex_string(u: &[u8; 16]) -> (r: String)
    ensures
        r@ == bytes_hex(u@),
{
    let mut s = String::new();
    let mut i: usize = 0;
    proof {
        assert(u@.take(0) =~= Seq::<u8>::empty());
        assert(bytes_hex(u@.take(0)) =~= Seq::<char>::empty());
        assert(s@ =~= bytes_hex(u@.take(0)));
    }
    while i < 16
        invariant
            i <= 16,
            s@ == bytes_hex(u@.take(i as int)),
        decreases 16 - i,
    {
        push_hex_u64(&mut s, u[i] as u64, 2);
        proof {
            assert(u@.take(i as int).push(u@[i as int]) =~= u@.take(i + 1));
            lemma_bytes_hex_snoc(u@.take(i as int), u@[i as int]);
            assert(s@ =~= bytes_hex(u@.take(i + 1)));
        }
        i = i + 1;
    }
    proof {
        assert(u@.take(16) =~= u@);
    }
    s
}

/// The classification word of a parsed box's kind.
pub open spec fn kind_text(k: KindS) -> Seq<char> {
    match k {
        KindS::Container { .. } => "container"@,
        KindS::FullBox { .. } => "full"@,
        KindS::Leaf { .. } => "leaf"@,
        KindS::Unknown { .. } => "unknown"@,
    }
}

/// The display node built from one parsed box: its geometry, its type
/// and classification as text, its decoded value when decoding was
/// requested, and one matching display node per child.
pub open spec fn node_matches<D: BoxDecoder>(
    data: Seq<u8>,
    b: BoxS,
    decode: bool,
    regv: Seq<(BoxKey, D)>,
    n: BoxNode,
) -> bool
    decreases b,
{
    &&& n.offset == b.hdr.start
    &&& n.size == b.hdr.size
    &&& n.header_size == b.hdr.header_size
    &&& Some((n.payload_offset, n.payload_size)) == (match spec_payload_geometry(b) {
        Some((off, len)) => Some((Some(off), Some(len))),
        None => Some((None::<u64>, None::<u64>)),
    })
    &&& n.typ@ == lossy_str(b.hdr.typ.0@)
    &&& (match (n.uuid, b.hdr.uuid) {
        (Some(s), Some(u)) => s@ == bytes_hex(u@),
        (None, None) => true,
        _ => false,
    })
    &&& (n.version, n.flags) == (match b.kind {
        KindS::FullBox { version, flags, .. } => (Some(version), Some(flags)),
        _ => (None::<u8>, None::<u32>),
    })
    &&& n.kind@ == kind_text(b.kind)
    &&& n.full_name@ == spec_full_name(spec_known_box(b.hdr.typ))
    &&& ({
        let (dt, ds) = if decode {
            spec_decode_value(data, b, regv)
        } else {
            (None, None)
        };
        &&& (match n.decoded {
            Some(s) => dt == Some(s@),
            None => dt is None,
        })
        &&& (match n.structured_data {
            Some(d) => ds == Some(view_structured(d)),
            None => ds is None,
        })
    })
    &&& (match b.kind {
        KindS::Container { children } => {
            &&& n.children is Some
            &&& n.children->Some_0@.len() == children.len()
            &&& (forall|i: int|
                0 <= i < children.len() ==> node_matches(
                    data,
                    children[i],
                    decode,
                    regv,
                    #[trigger] n.children->Some_0@[i],
                ))
        },
        _ => n.children is None,
    })
}

/// Builds the display node for one parsed box, and recursively for its
/// children.
pub fn build_box<D: BoxDecoder>(data: &[u8], b: &BoxRef, decode: bool, reg: &Registry<D>) -> (n:
    BoxNode)
    ensures
        node_matches(data@, view_box(*b), decode, reg.spec_entries(), n),
    decreases b,
{
    let uuid_str: Option<String> = match &b.hdr.uuid {
        Some(u) => Some(uuid_hex_string(u)),
        None => None,
    };
    let kb = KnownBox::from(b.hdr.typ);
    let full_name_str = kb.full_name();
    let mut full_name = String::new();
    full_name.append(full_name_str);
    proof {
        assert(full_name@ =~= spec_full_name(spec_known_box(b.hdr.typ)));
    }
    let (payload_offset, payload_size): (Option<u64>, Option<u64>) = match payload_geometry(b) {
        Some((off, len)) => (Some(off), Some(len)),
        None => (None, None),
    };
    let (version, flags): (Option<u8>, Option<u32>) = match &b.kind {
        NodeKind::FullBox { version, flags, .. } => (Some(*version), Some(*flags)),
        _ => (None, None),
    };
    let mut kind = String::new();
    match &b.kind {
        NodeKind::Container(_) => kind.append("container"),
        NodeKind::FullBox { .. } => kind.append("full"),
        NodeKind::Leaf { .. } => kind.append("leaf"),
        NodeKind::Unknown { .. } => kind.append("unknown"),
    }
    proof {
        assert(kind@ =~= kind_text(view_box(*b).kind));
    }
    let children: Option<Vec<BoxNode>> = match &b.kind {
        NodeKind::Container(kids) => {
            let mut out: Vec<BoxNode> = Vec::new();
            let mut i: usize = 0;
            proof {
                assert(decreases_to!(*b => *kids));
            }
            while i < kids.len()
                invariant
                    decreases_to!(*b => *kids),
                    i <= kids@.len(),
                    out@.len() == i,
                    forall|j: int|
                        0 <= j < i ==> node_matches(
                            data@,
                            view_box(kids@[j]),
                            decode,
                            reg.spec_entries(),
                            #[trigger] out@[j],
                        ),
                decreases kids@.len() - i,
            {
                proof {
                    assert(decreases_to!(*kids => kids[i as int]));
                }
                let child = build_box(data, &kids[i], decode, reg);
                out.push(child);
                i = i + 1;
            }
            Some(out)
        },
        _ => None,
    };
    let (decoded, structured_data): (Option<String>, Option<StructuredData>) = if decode {
        decode_value(data, b, reg)
    } else {
        (None, None)
    };
    let n = BoxNode {
        offset: b.hdr.start,
        size: b.hdr.size,
        header_size: b.hdr.header_size,
        payload_offset,
        payload_size,
        typ: b.hdr.typ.as_str_lossy(),
        uuid: uuid_str,
        version,
        flags,
        kind,
        full_name,
        decoded,
        structured_data,
        children,
    };
    proof {
        let bS = view_box(*b);
        match b.kind {
            NodeKind::Container(ref kids) => {
                crate::boxes::lemma_view_boxes(kids@);
                assert(bS.kind->Container_children.len() == kids@.len());
                assert(forall|i: int|
                    0 <= i < kids@.len() ==> #[trigger] bS.kind->Container_children[i] == view_box(
                        kids@[i],
                    ));
            },
            _ => {},
        }
    }
    n
}


/// A registry entry sequence that behaves as the default registry.
pub open spec fn is_default_registry(regv: Seq<(BoxKey, BuiltinDecoder)>) -> bool {
    forall|k: BoxKey| #![trigger spec_lookup(regv, k)] spec_lookup(regv, k) == spec_default_lookup(k)
}

/// Every display node matches its parsed box.
pub open spec fn nodes_match<D: BoxDecoder>(
    data: Seq<u8>,
    parsed: Seq<BoxS>,
    decode: bool,
    regv: Seq<(BoxKey, D)>,
    out: Seq<BoxNode>,
) -> bool {
    &&& out.len() == parsed.len()
    &&& (forall|i: int|
        0 <= i < parsed.len() ==> node_matches(data, parsed[i], decode, regv, #[trigger] out[i]))
}

/// Parses the whole byte buffer and returns the display tree of its
/// top-level boxes, decoding through the given registry.
///
/// When `decode` is set, each box whose key the registry holds
/// carries its decoded text and, for the table boxes, its structured
/// value. Parsing fails exactly when the box walk fails: on a
/// truncated header or an invalid size; a failed payload decode only
/// marks that one box.
pub fn get_boxes_with<D: BoxDecoder>(data: &[u8], decode: bool, reg: &Registry<D>) -> (r: Result<
    Vec<BoxNode>,
    ParseError,
>)
    ensures
        match r {
            Ok(out) => {
                &&& spec_parse_children(data@, 0, data@.len() as int) is Ok
                &&& nodes_match(
                    data@,
                    spec_parse_children(data@, 0, data@.len() as int)->Ok_0,
                    decode,
                    reg.spec_entries(),
                    out@,
                )
            },
            Err(e) => spec_parse_children(data@, 0, data@.len() as int) == Err::<
                Seq<BoxS>,
                ParseError,
            >(e),
        },
{
    let boxes = match parse_children(data, 0, data.len()) {
        Ok(b) => b,
        Err(e) => {
            return Err(e);
        },
    };
    let ghost parsed = view_boxes(boxes@);
    proof {
        crate::boxes::lemma_view_boxes(boxes@);
    }
    let mut out: Vec<BoxNode> = Vec::new();
    let mut i: usize = 0;
    while i < boxes.len()
        invariant
            parsed == view_boxes(boxes@),
            parsed.len() == boxes@.len(),
            forall|j: int| 0 <= j < boxes@.len() ==> #[trigger] parsed[j] == view_box(boxes@[j]),
            i <= boxes@.len(),
            out@.len() == i,
            forall|j: int|
                0 <= j < i ==> node_matches(
                    data@,
                    parsed[j],
                    decode,
                    reg.spec_entries(),
                    #[trigger] out@[j],
                ),
        decreases boxes@.len() - i,
    {
        let n = build_box(data, &boxes[i], decode, reg);
        out.push(n);
        i = i + 1;
    }
    proof {
        assert(nodes_match(data@, parsed, decode, reg.spec_entries(), out@));
    }
    Ok(out)
}

/// Parses the whole byte buffer and returns the display tree of its
/// top-level boxes, decoding through the default registry.
pub fn get_boxes(data: &[u8], decode: bool) -> (r: Result<Vec<BoxNode>, ParseError>)
    ensures
        match r {
            Ok(out) => {
                &&& spec_parse_children(data@, 0, data@.len() as int) is Ok
                &&& exists|regv: Seq<(BoxKey, BuiltinDecoder)>|
                    is_default_registry(regv) && nodes_match(
                        data@,
                        spec_parse_children(data@, 0, data@.len() as int)->Ok_0,
                        decode,
                        regv,
                        out@,
                    )
            },
            Err(e) => spec_parse_children(data@, 0, data@.len() as int) == Err::<
                Seq<BoxS>,
                ParseError,
            >(e),
        },
{
    let reg = default_registry();
    let r = get_boxes_with(data, decode, &reg);
    proof {
        assert(is_default_registry(reg.spec_entries()));
    }
    r
}

/// Result of a hex dump over a byte range.
pub struct HexDump {
    /// Starting offset of the dumped data.
    pub offset: u64,
    /// Actual number of bytes that were read and dumped.
    pub length: u64,
    /// Formatted hex dump with addresses and an ASCII column.
    pub hex: String,
}

/// Hex-dumps a byte range of the data.
///
/// Never reads past the end: when `offset + max_len` goes beyond the
/// data, the returned length is the number of bytes actually
/// available from `offset`.
pub fn hex_range(data: &[u8], offset: u64, max_len: u64) -> (r: HexDump)
    ensures
        r.offset == offset,
        r.length == (if data@.len() < offset {
            0u64
        } else if data@.len() - offset < max_len {
            (data@.len() - offset) as u64
        } else {
            max_len
        }),
        r.hex@ == hex_dump_str(
            data@.subrange(
                (if offset as int <= data@.len() {
                    offset as int
                } else {
                    data@.len() as int
                }),
                (if offset as int <= data@.len() {
                    offset + r.length
                } else {
                    data@.len() as int
                }),
            ),
            offset as int,
        ),
{
    let dlen: u64 = data.len() as u64;
    let available: u64 = if dlen >= offset {
        dlen - offset
    } else {
        0
    };
    let to_read: u64 = if available < max_len {
        available
    } else {
        max_len
    };
    if to_read == 0 {
        let r = HexDump { offset, length: 0, hex: String::new() };
        proof {
            let lo = if offset as int <= data@.len() {
                offset as int
            } else {
                data@.len() as int
            };
            assert(data@.subrange(lo, lo) =~= Seq::<u8>::empty());
        }
        return r;
    }
    let a = offset as usize;
    let b = (offset + to_read) as usize;
    let window = vstd::slice::slice_subrange(data, a, b);
    let hex = hex_dump(window, offset);
    HexDump { offset, length: to_read, hex }
}


/// The position of the first child with the given type text.
pub open spec fn spec_find_child(ch: Seq<BoxNode>, name: Seq<char>) -> Option<int>
    decreases ch.len(),
{
    if ch.len() == 0 {
        None
    } else if ch[0].typ@ == name {
        Some(0)
    } else {
        match spec_find_child(ch.drop_first(), name) {
            Some(i) => Some(i + 1),
            None => None,
        }
    }
}

/// The children of a node, an empty sequence for a childless one.
pub open spec fn spec_children(n: BoxNode) -> Seq<BoxNode> {
    match n.children {
        Some(c) => c@,
        None => Seq::empty(),
    }
}

/// Finds the first child of `parent` whose type text is `typ`.
#[verifier::loop_isolation(false)]
pub fn find_child<'a>(parent: &'a BoxNode, typ: &str) -> (r: Option<&'a BoxNode>)
    ensures
        match spec_find_child(spec_children(*parent), typ@) {
            Some(i) => r is Some && *r->Some_0 == spec_children(*parent)[i],
            None => r is None,
        },
{
    let kids = match &parent.children {
        Some(c) => c,
        None => {
            return None;
        },
    };
    let ghost ch = spec_children(*parent);
    let n = kids.len();
    let mut i: usize = 0;
    proof {
        assert(ch.skip(0) =~= ch);
    }
    while i < n
        invariant
            n == ch.len(),
            ch == kids@,
            i <= n,
            (match spec_find_child(ch.skip(i as int), typ@) {
                Some(j) => spec_find_child(ch, typ@) == Some(i + j),
                None => spec_find_child(ch, typ@) is None,
            }),
        decreases n - i,
    {
        proof {
            assert(ch.skip(i as int)[0] == ch[i as int]);
            assert(ch.skip(i as int).drop_first() =~= ch.skip(i as int + 1));
        }
        if crate::strings::str_eq(kids[i].typ.as_str(), typ) {
            return Some(&kids[i]);
        }
        i = i + 1;
    }
    proof {
        assert(ch.skip(n as int) =~= Seq::<BoxNode>::empty());
    }
    None
}

} // verus!
