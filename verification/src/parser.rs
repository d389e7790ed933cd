//! The box header reader and the box tree builder, each verified
//! against an exact specification-level parser, together with the
//! structural laws of a successful parse: sibling adjacency, extents
//! inside the enclosing range, and payload windows that end at each
//! box's declared extent.

use vstd::prelude::*;

use crate::boxes::{is_uuid_code, BoxHeader, BoxRef, BoxS, FourCC, KindS, NodeKind};
use crate::boxes::{lemma_view_boxes_push, view_box, view_boxes};
use crate::bytes::{be_u24_at, be_u32_at, be_u64_at, read_u24_at, read_u32_at, read_u64_at};
use crate::known_boxes::{spec_is_container, spec_is_full_box, spec_known_box, KnownBox};

verus! {

/// An error that ends parsing of a box and of its ancestry.
///
/// `Truncated` is reported when the data ends before a field that is
/// needed; `InvalidSize` when a box declares a non-zero size smaller
/// than its own header width, or an extent past the enclosing range.
#[derive(Clone, Copy, Debug, PartialEq, Eq, Structural)]
pub enum ParseError {
    Truncated,
    InvalidSize,
}

/// The sixteen bytes at offset `i` of `s`, as an array.
#[verifier::opaque]
pub open spec fn bytes16_at(s: Seq<u8>, i: int) -> [u8; 16] {
    [
        s[i],
        s[i + 1],
        s[i + 2],
        s[i + 3],
        s[i + 4],
        s[i + 5],
        s[i + 6],
        s[i + 7],
        s[i + 8],
        s[i + 9],
        s[i + 10],
        s[i + 11],
        s[i + 12],
        s[i + 13],
        s[i + 14],
        s[i + 15],
    ]
}

/// The header read at offset `pos` of `data`, exactly as
/// `read_box_header` returns it.
///
/// A 32-bit size of `1` announces a 64-bit size; the `uuid` type code
/// announces a 16-byte UUID; a non-zero size below the header width is
/// an `InvalidSize` error; reading past the end of the data is
/// `Truncated`.
pub open spec fn spec_read_header(data: Seq<u8>, pos: int) -> Result<BoxHeader, ParseError> {
    if pos < 0 || pos + 8 > data.len() {
        Err(ParseError::Truncated)
    } else {
        let size32 = be_u32_at(data, pos);
        let typ = FourCC([data[pos + 4], data[pos + 5], data[pos + 6], data[pos + 7]]);
        let large = size32 == 1;
        if large && pos + 16 > data.len() {
            Err(ParseError::Truncated)
        } else {
            let size: u64 = if large {
                be_u64_at(data, pos + 8)
            } else {
                size32 as u64
            };
            let upos = pos + 8 + if large { 8int } else { 0int };
            if is_uuid_code(typ) && upos + 16 > data.len() {
                Err(ParseError::Truncated)
            } else {
                let uuid = if is_uuid_code(typ) {
                    Some(bytes16_at(data, upos))
                } else {
                    None
                };
                let header_size: u64 = (8 + if large { 8int } else { 0int } + if is_uuid_code(typ) {
                    16int
                } else {
                    0int
                }) as u64;
                if size != 0 && size < header_size {
                    Err(ParseError::InvalidSize)
                } else {
                    Ok(BoxHeader { size, typ, uuid, header_size, start: pos as u64 })
                }
            }
        }
    }
}

/// Reads exactly one box header at offset `pos` of `data`.
///
/// The header width is 8 bytes, plus 8 when the 32-bit size field held
/// the large-size sentinel `1`, plus 16 when the type is `uuid`. A box
/// whose non-zero size is below that width yields `InvalidSize`; a
/// size of zero is the valid to-end-of-parent sentinel, resolved by the
/// caller.
pub fn read_box_header(data: &[u8], pos: usize) -> (r: Result<BoxHeader, ParseError>)
    ensures
        match r {
            Ok(h) => spec_read_header(data@, pos as int) == Ok::<BoxHeader, ParseError>(h),
            Err(e) => spec_read_header(data@, pos as int) == Err::<BoxHeader, ParseError>(e),
        },
        match r {
            Ok(h) => {
                &&& h.start == pos
                &&& (h.header_size == 8 || h.header_size == 16 || h.header_size == 24
                    || h.header_size == 32)
                &&& h.header_size as int == 8 + (if be_u32_at(data@, pos as int) == 1 {
                    8int
                } else {
                    0int
                }) + (if is_uuid_code(h.typ) {
                    16int
                } else {
                    0int
                })
                &&& pos + h.header_size <= data@.len()
                &&& (h.size != 0 ==> h.size >= h.header_size)
                &&& (h.uuid is Some <==> is_uuid_code(h.typ))
            },
            Err(e) => true,
        },
{
    if data.len() < 8 || pos > data.len() - 8 {
        return Err(ParseError::Truncated);
    }
    let size32 = read_u32_at(data, pos);
    let typ = FourCC([data[pos + 4], data[pos + 5], data[pos + 6], data[pos + 7]]);
    let large = size32 == 1;
    if large && (data.len() < 16 || pos > data.len() - 16) {
        return Err(ParseError::Truncated);
    }
    let size: u64 = if large {
        read_u64_at(data, pos + 8)
    } else {
        size32 as u64
    };
    let upos = if large {
        pos + 16
    } else {
        pos + 8
    };
    let has_uuid = typ.is_uuid();
    if has_uuid && (data.len() < 16 || upos > data.len() - 16) {
        return Err(ParseError::Truncated);
    }
    proof {
        reveal(bytes16_at);
    }
    let uuid: Option<[u8; 16]> = if has_uuid {
        Some(
            [
                data[upos],
                data[upos + 1],
                data[upos + 2],
                data[upos + 3],
                data[upos + 4],
                data[upos + 5],
                data[upos + 6],
                data[upos + 7],
                data[upos + 8],
                data[upos + 9],
                data[upos + 10],
                data[upos + 11],
                data[upos + 12],
                data[upos + 13],
                data[upos + 14],
                data[upos + 15],
            ],
        )
    } else {
        None
    };
    let header_size: u64 = if large && has_uuid {
        32
    } else if large {
        16
    } else if has_uuid {
        24
    } else {
        8
    };
    if size != 0 && size < header_size {
        return Err(ParseError::InvalidSize);
    }
    Ok(BoxHeader { size, typ, uuid, header_size, start: pos as u64 })
}

/// The end of a box's extent: `start + size`, or the enclosing range's
/// end for the to-end-of-parent sentinel `size == 0`.
pub open spec fn spec_box_end(h: BoxHeader, cursor: int, parent_end: int) -> int {
    if h.size == 0 {
        parent_end
    } else {
        cursor + h.size as int
    }
}

/// The sibling run parsed from `[cursor, end)` of `data`, exactly as
/// `parse_children` returns it.
///
/// Each box is read, classified through the known-box table, and given
/// its extent; containers are parsed recursively over their content
/// range; versioned boxes give up their leading version and flags
/// bytes; the cursor then jumps to the box's end for the next sibling.
/// A box whose extent would pass `end` is an `InvalidSize` error: the
/// walk never proceeds past the enclosing range.
pub open spec fn spec_parse_children(data: Seq<u8>, cursor: int, end: int) -> Result<
    Seq<BoxS>,
    ParseError,
>
    decreases end - cursor,
{
    if cursor >= end {
        Ok(Seq::empty())
    } else {
        match spec_read_header(data, cursor) {
            Err(e) => Err(e),
            Ok(h) => {
                let box_end = spec_box_end(h, cursor, end);
                if box_end > end {
                    Err(ParseError::InvalidSize)
                } else {
                    let content_start = cursor + h.header_size as int;
                    let kb = spec_known_box(h.typ);
                    if spec_is_container(kb) {
                        let cs = if content_start > box_end {
                            box_end
                        } else {
                            content_start
                        };
                        match spec_parse_children(data, cs, box_end) {
                            Err(e) => Err(e),
                            Ok(children) => {
                                let node = BoxS { hdr: h, kind: KindS::Container { children } };
                                match spec_parse_children(data, box_end, end) {
                                    Err(e) => Err(e),
                                    Ok(rest) => Ok(seq![node] + rest),
                                }
                            },
                        }
                    } else if spec_is_full_box(kb) {
                        if content_start + 4 > data.len() {
                            Err(ParseError::Truncated)
                        } else {
                            let data_offset = content_start + 4;
                            let data_len = if box_end >= data_offset {
                                box_end - data_offset
                            } else {
                                0int
                            };
                            let node = BoxS {
                                hdr: h,
                                kind: KindS::FullBox {
                                    version: data[content_start],
                                    flags: be_u24_at(data, content_start + 1),
                                    data_offset: data_offset as u64,
                                    data_len: data_len as u64,
                                },
                            };
                            match spec_parse_children(data, box_end, end) {
                                Err(e) => Err(e),
                                Ok(rest) => Ok(seq![node] + rest),
                            }
                        }
                    } else {
                        let data_offset = content_start;
                        let data_len = if box_end >= data_offset {
                            box_end - data_offset
                        } else {
                            0int
                        };
                        let node = BoxS {
                            hdr: h,
                            kind: if is_uuid_code(h.typ) {
                                KindS::Unknown {
                                    data_offset: data_offset as u64,
                                    data_len: data_len as u64,
                                }
                            } else {
                                KindS::Leaf {
                                    data_offset: data_offset as u64,
                                    data_len: data_len as u64,
                                }
                            },
                        };
                        match spec_parse_children(data, box_end, end) {
                            Err(e) => Err(e),
                            Ok(rest) => Ok(seq![node] + rest),
                        }
                    }
                }
            },
        }
    }
}

/// Reads, classifies and builds the one box that begins at `cur`,
/// returning it together with the cursor position of its end.
fn parse_one_box(data: &[u8], cur: usize, parent_end: usize) -> (r: Result<
    (BoxRef, usize),
    ParseError,
>)
    requires
        cur < parent_end,
        parent_end <= data@.len(),
    ensures
        match r {
            Ok((node, next)) => {
                &&& cur < next <= parent_end
                &&& spec_parse_children(data@, cur as int, parent_end as int) == (
                match spec_parse_children(data@, next as int, parent_end as int) {
                    Ok(rest) => Ok::<Seq<BoxS>, ParseError>(seq![view_box(node)] + rest),
                    Err(e) => Err::<Seq<BoxS>, ParseError>(e),
                })
            },
            Err(e) => spec_parse_children(data@, cur as int, parent_end as int) == Err::<
                Seq<BoxS>,
                ParseError,
            >(e),
        },
    decreases parent_end - cur, 0int,
{
    let h = match read_box_header(data, cur) {
        Ok(h) => h,
        Err(e) => {
            return Err(e);
        },
    };
    let box_end: usize = if h.size == 0 {
        parent_end
    } else {
        if h.size > (parent_end - cur) as u64 {
            return Err(ParseError::InvalidSize);
        }
        cur + h.size as usize
    };
    proof {
        assert(box_end as int == spec_box_end(h, cur as int, parent_end as int));
        assert(cur < box_end <= parent_end);
    }
    let dlen: usize = data.len();
    proof {
        assert(cur + h.header_size <= dlen);
    }
    let content_start: usize = cur + h.header_size as usize;
    let kb = KnownBox::from(h.typ);
    if kb.is_container() {
        let cs: usize = if content_start > box_end {
            box_end
        } else {
            content_start
        };
        let children = match parse_children(data, cs, box_end) {
            Ok(c) => c,
            Err(e) => {
                return Err(e);
            },
        };
        let node = BoxRef { hdr: h, kind: NodeKind::Container(children) };
        proof {
            assert(view_box(node) == BoxS {
                hdr: h,
                kind: KindS::Container { children: view_boxes(node.kind->Container_0@) },
            });
        }
        Ok((node, box_end))
    } else if kb.is_full_box() {
        if data.len() - content_start < 4 {
            return Err(ParseError::Truncated);
        }
        let version = data[content_start];
        let flags = read_u24_at(data, content_start + 1);
        let data_offset = content_start + 4;
        let data_len: u64 = if box_end >= data_offset {
            (box_end - data_offset) as u64
        } else {
            0
        };
        let node = BoxRef {
            hdr: h,
            kind: NodeKind::FullBox { version, flags, data_offset: data_offset as u64, data_len },
        };
        Ok((node, box_end))
    } else {
        let data_offset = content_start;
        let data_len: u64 = if box_end >= data_offset {
            (box_end - data_offset) as u64
        } else {
            0
        };
        let node = if h.typ.is_uuid() {
            BoxRef { hdr: h, kind: NodeKind::Unknown { data_offset: data_offset as u64, data_len } }
        } else {
            BoxRef { hdr: h, kind: NodeKind::Leaf { data_offset: data_offset as u64, data_len } }
        };
        Ok((node, box_end))
    }
}

/// Builds the run of sibling boxes that fills `[cursor, parent_end)`.
///
/// Containers are walked recursively; versioned boxes have their
/// version byte and 24-bit flags split off; every other box becomes a
/// leaf, or an unknown node for the generic `uuid` type. After each
/// box the cursor jumps to the box's declared end, so a box's extent is
/// always size-field driven, never inferred from its content.
pub fn parse_children(data: &[u8], cursor: usize, parent_end: usize) -> (r: Result<
    Vec<BoxRef>,
    ParseError,
>)
    requires
        parent_end <= data@.len(),
    ensures
        match r {
            Ok(nodes) => spec_parse_children(data@, cursor as int, parent_end as int) == Ok::<
                Seq<BoxS>,
                ParseError,
            >(view_boxes(nodes@)),
            Err(e) => spec_parse_children(data@, cursor as int, parent_end as int) == Err::<
                Seq<BoxS>,
                ParseError,
            >(e),
        },
    decreases parent_end - cursor, 1int,
{
    let ghost orig = spec_parse_children(data@, cursor as int, parent_end as int);
    let mut kids: Vec<BoxRef> = Vec::new();
    let mut cur: usize = cursor;
    proof {
        if orig is Ok {
            assert(view_boxes(Seq::<BoxRef>::empty()) + orig->Ok_0 =~= orig->Ok_0);
        }
    }
    while cur < parent_end
        invariant
            parent_end <= data@.len(),
            cursor <= cur,
            orig == spec_parse_children(data@, cursor as int, parent_end as int),
            orig == (match spec_parse_children(data@, cur as int, parent_end as int) {
                Ok(rest) => Ok::<Seq<BoxS>, ParseError>(view_boxes(kids@) + rest),
                Err(e) => Err::<Seq<BoxS>, ParseError>(e),
            }),
        decreases parent_end - cur,
    {
        let (node, next) = match parse_one_box(data, cur, parent_end) {
            Ok(p) => p,
            Err(e) => {
                return Err(e);
            },
        };
        proof {
            let rest_spec = spec_parse_children(data@, next as int, parent_end as int);
            lemma_view_boxes_push(kids@, node);
            if rest_spec is Ok {
                assert((view_boxes(kids@) + seq![view_box(node)]) + rest_spec->Ok_0 =~= view_boxes(
                    kids@,
                ) + (seq![view_box(node)] + rest_spec->Ok_0));
            }
        }
        kids.push(node);
        cur = next;
    }
    proof {
        assert(spec_parse_children(data@, cur as int, parent_end as int) == Ok::<
            Seq<BoxS>,
            ParseError,
        >(Seq::<BoxS>::empty()));
        assert(view_boxes(kids@) + Seq::<BoxS>::empty() =~= view_boxes(kids@));
    }
    Ok(kids)
}


/// The boxes that a successful parse of `[cursor, end)` yields.
pub open spec fn parsed_nodes(data: Seq<u8>, cursor: int, end: int) -> Seq<BoxS> {
    spec_parse_children(data, cursor, end)->Ok_0
}

/// The box's extent lies inside `[lo, hi]` and is never empty.
pub open spec fn box_within(b: BoxS, lo: int, hi: int) -> bool {
    &&& lo <= b.hdr.start as int
    &&& (b.hdr.start as int) < extent_end(b, hi)
    &&& extent_end(b, hi) <= hi
}

/// The end of a parsed box's extent: `start + size` for a non-zero
/// size, the parent's end for the to-end-of-parent sentinel.
pub open spec fn extent_end(b: BoxS, parent_end: int) -> int {
    if b.hdr.size == 0 {
        parent_end
    } else {
        b.hdr.start as int + b.hdr.size as int
    }
}

/// A sibling run is laid out in file order: the first box starts at the
/// cursor, each later box starts exactly where the previous one ended,
/// and only the last box may use the to-end-of-parent size sentinel.
pub open spec fn siblings_adjacent(nodes: Seq<BoxS>, cursor: int, end: int) -> bool {
    &&& (nodes.len() > 0 ==> nodes[0].hdr.start as int == cursor)
    &&& (forall|i: int| #![trigger nodes[i]] 0 <= i < nodes.len() ==> box_within(nodes[i], cursor, end))
    &&& (forall|i: int|
        #![trigger nodes[i]]
        0 < i < nodes.len() ==> nodes[i - 1].hdr.size != 0 && nodes[i].hdr.start as int
            == extent_end(nodes[i - 1], end))
}

/// The payload window recorded on a parsed box agrees with its header:
/// the window begins right after the header (and after the four
/// version-and-flags bytes of a versioned box) and runs to the box's
/// extent end; a container's children are the parse of exactly that
/// window.
pub open spec fn payload_window_ok(data: Seq<u8>, b: BoxS, parent_end: int) -> bool {
    let e = extent_end(b, parent_end);
    match b.kind {
        KindS::Container { children } => {
            let content_start = b.hdr.start as int + b.hdr.header_size as int;
            let cs = if content_start > e {
                e
            } else {
                content_start
            };
            spec_parse_children(data, cs, e) == Ok::<Seq<BoxS>, ParseError>(children)
        },
        KindS::FullBox { version, flags, data_offset, data_len } => {
            &&& data_offset as int == b.hdr.start as int + b.hdr.header_size as int + 4
            &&& (data_offset as int <= e ==> data_offset as int + data_len as int == e)
            &&& (data_offset as int > e ==> data_len == 0)
        },
        KindS::Leaf { data_offset, data_len } => {
            &&& data_offset as int == b.hdr.start as int + b.hdr.header_size as int
            &&& (data_offset as int <= e ==> data_offset as int + data_len as int == e)
            &&& (data_offset as int > e ==> data_len == 0)
        },
        KindS::Unknown { data_offset, data_len } => {
            &&& data_offset as int == b.hdr.start as int + b.hdr.header_size as int
            &&& (data_offset as int <= e ==> data_offset as int + data_len as int == e)
            &&& (data_offset as int > e ==> data_len == 0)
        },
    }
}

/// Every successful parse yields siblings in file order, each box's
/// extent inside the parsed range, and on every box a payload window
/// that ends exactly at `start + size` (or at the parent's end for the
/// zero-size sentinel).
#[verifier::rlimit(80)]
pub proof fn lemma_parse_children_wf(data: Seq<u8>, cursor: int, end: int)
    requires
        0 <= cursor,
        end <= u64::MAX,
        data.len() <= u64::MAX,
        spec_parse_children(data, cursor, end) is Ok,
    ensures
        siblings_adjacent(parsed_nodes(data, cursor, end), cursor, end),
        forall|i: int|
            #![trigger parsed_nodes(data, cursor, end)[i]]
            0 <= i < parsed_nodes(data, cursor, end).len() ==> payload_window_ok(
                data,
                parsed_nodes(data, cursor, end)[i],
                end,
            ),
    decreases end - cursor,
{
    let nodes = parsed_nodes(data, cursor, end);
    if cursor >= end {
    } else {
        let h = spec_read_header(data, cursor)->Ok_0;
        let box_end = spec_box_end(h, cursor, end);
        let rest = parsed_nodes(data, box_end, end);
        lemma_parse_children_wf(data, box_end, end);
        assert(nodes[0].hdr == h);
        assert(forall|j: int| 0 <= j < rest.len() ==> nodes[j + 1] == rest[j]);
        if rest.len() > 0 {
            assert(h.size != 0);
        }
        assert(box_within(nodes[0], cursor, end));
        let content_start = cursor + h.header_size as int;
        assert(content_start <= data.len());
        let kb = spec_known_box(h.typ);
        assert(extent_end(nodes[0], end) == box_end);
        if spec_is_container(kb) {
            let cs = if content_start > box_end {
                box_end
            } else {
                content_start
            };
            assert(spec_parse_children(data, cs, box_end) is Ok);
            assert(payload_window_ok(data, nodes[0], end));
        } else if spec_is_full_box(kb) {
            assert(payload_window_ok(data, nodes[0], end));
        } else {
            assert(payload_window_ok(data, nodes[0], end));
        }
        assert forall|i: int| 0 < i < nodes.len() implies box_within(nodes[i], cursor, end)
            && payload_window_ok(data, nodes[i], end) && nodes[i - 1].hdr.size != 0
            && nodes[i].hdr.start as int == extent_end(nodes[i - 1], end) by {
            assert(nodes[i] == rest[i - 1]);
            assert(box_within(rest[i - 1], box_end, end));
            if i > 1 {
                assert(nodes[i - 1] == rest[i - 2]);
            }
        }
    }
}

/// Sibling boxes never overlap: a later sibling starts at or after the
/// point where any earlier sibling's extent ends, so the extents of a
/// container's children fit inside the parent range without overlap.
pub proof fn lemma_siblings_disjoint(nodes: Seq<BoxS>, cursor: int, end: int, i: int, j: int)
    requires
        siblings_adjacent(nodes, cursor, end),
        0 <= i < j < nodes.len(),
    ensures
        extent_end(nodes[i], end) <= nodes[j].hdr.start as int,
    decreases j - i,
{
    if j == i + 1 {
    } else {
        lemma_siblings_disjoint(nodes, cursor, end, i + 1, j);
    }
}


/// A parsed box is well formed throughout its subtree: its payload
/// window agrees with its header, and a container's children lie in
/// file order inside its content range, each of them well formed in
/// turn.
pub open spec fn tree_wf(data: Seq<u8>, b: BoxS, parent_end: int) -> bool
    decreases b,
{
    &&& payload_window_ok(data, b, parent_end)
    &&& (match b.kind {
        KindS::Container { children } => {
            let e = extent_end(b, parent_end);
            let content_start = b.hdr.start as int + b.hdr.header_size as int;
            let cs = if content_start > e {
                e
            } else {
                content_start
            };
            &&& siblings_adjacent(children, cs, e)
            &&& (forall|i: int|
                0 <= i < children.len() ==> tree_wf(data, #[trigger] children[i], e))
        },
        _ => true,
    })
}

/// The whole parsed tree is well formed: at every nesting level the
/// walk stays inside the enclosing range, siblings are adjacent and
/// never overlap, and every payload window ends at its box's extent.
pub proof fn lemma_parse_tree_wf(data: Seq<u8>, cursor: int, end: int)
    requires
        0 <= cursor,
        end <= u64::MAX,
        data.len() <= u64::MAX,
        spec_parse_children(data, cursor, end) is Ok,
    ensures
        siblings_adjacent(parsed_nodes(data, cursor, end), cursor, end),
        forall|i: int|
            #![trigger parsed_nodes(data, cursor, end)[i]]
            0 <= i < parsed_nodes(data, cursor, end).len() ==> tree_wf(
                data,
                parsed_nodes(data, cursor, end)[i],
                end,
            ),
    decreases end - cursor, 1int,
{
    lemma_parse_children_wf(data, cursor, end);
    let nodes = parsed_nodes(data, cursor, end);
    assert forall|i: int| 0 <= i < nodes.len() implies tree_wf(data, #[trigger] nodes[i], end) by {
        lemma_box_tree_wf(data, cursor, end, i);
    }
}

proof fn lemma_box_tree_wf(data: Seq<u8>, cursor: int, end: int, i: int)
    requires
        0 <= cursor,
        end <= u64::MAX,
        data.len() <= u64::MAX,
        spec_parse_children(data, cursor, end) is Ok,
        0 <= i < parsed_nodes(data, cursor, end).len(),
    ensures
        tree_wf(data, parsed_nodes(data, cursor, end)[i], end),
    decreases end - cursor, 0int, i,
{
    lemma_parse_children_wf(data, cursor, end);
    let nodes = parsed_nodes(data, cursor, end);
    let h = spec_read_header(data, cursor)->Ok_0;
    let box_end = spec_box_end(h, cursor, end);
    if i == 0 {
        let b = nodes[0];
        match b.kind {
            KindS::Container { children } => {
                let e = extent_end(b, end);
                let content_start = b.hdr.start as int + b.hdr.header_size as int;
                let cs = if content_start > e {
                    e
                } else {
                    content_start
                };
                assert(e == box_end);
                assert(spec_parse_children(data, cs, e) == Ok::<Seq<BoxS>, ParseError>(children));
                assert(cs >= cursor);
                assert(cursor < e);
                lemma_parse_tree_wf(data, cs, e);
                assert(parsed_nodes(data, cs, e) == children);
                assert(tree_wf(data, b, end));
            },
            _ => {
                assert(tree_wf(data, b, end));
            },
        }
    } else {
        assert(nodes[i] == parsed_nodes(data, box_end, end)[i - 1]);
        lemma_box_tree_wf(data, box_end, end, i - 1);
    }
}

} // verus!

verus! {

/// The total of the boxes' extents.
pub open spec fn extents_sum(nodes: Seq<BoxS>, parent_end: int) -> int
    decreases nodes.len(),
{
    if nodes.len() == 0 {
        0
    } else {
        extents_sum(nodes.drop_last(), parent_end) + (extent_end(nodes.last(), parent_end)
            - nodes.last().hdr.start)
    }
}

/// The extents of a sibling run sum to no more than the enclosing
/// range: adjacent boxes cover `[cursor, extent_end(last))` exactly
/// once, and that interval lies inside `[cursor, end)`.
pub proof fn lemma_extents_sum_bounded(nodes: Seq<BoxS>, cursor: int, end: int)
    requires
        cursor <= end,
        siblings_adjacent(nodes, cursor, end),
    ensures
        extents_sum(nodes, end) <= end - cursor,
        nodes.len() > 0 ==> extents_sum(nodes, end) == extent_end(nodes.last(), end) - cursor,
    decreases nodes.len(),
{
    if nodes.len() > 0 {
        let front = nodes.drop_last();
        assert forall|i: int| #![trigger front[i]] 0 <= i < front.len() implies box_within(
            front[i],
            cursor,
            end,
        ) && (0 < i ==> front[i - 1].hdr.size != 0 && front[i].hdr.start as int == extent_end(
            front[i - 1],
            end,
        )) by {
            assert(front[i] == nodes[i]);
            if 0 < i {
                assert(front[i - 1] == nodes[i - 1]);
            }
        }
        assert(siblings_adjacent(front, cursor, end));
        lemma_extents_sum_bounded(front, cursor, end);
        assert(nodes[nodes.len() - 1] == nodes.last());
        assert(box_within(nodes[nodes.len() - 1], cursor, end));
        if front.len() > 0 {
            assert(nodes[nodes.len() - 2] == front.last());
            assert(nodes.last().hdr.start as int == extent_end(front.last(), end));
        } else {
            assert(nodes[0].hdr.start as int == cursor);
        }
    }
}

} // verus!
