//! The box classification table: a total function from a type code to
//! a typed view, with every unlisted code mapping to `Unknown`, and
//! the container / versioned-box predicates the tree builder consults.

use vstd::prelude::*;

use crate::boxes::FourCC;
use crate::bytes::be_u32_at;

verus! {

/// Typed view over the common MP4 / ISOBMFF box types.
///
/// Any code not in this list becomes `KnownBox::Unknown(code)`.
#[derive(Clone, Copy, Debug, PartialEq, Eq, Hash)]
pub enum KnownBox {
    Ftyp,
    Moov,
    Mdat,
    Free,
    Skip,
    Wide,
    Meta,
    Pssh,
    Sidx,
    Ssix,
    Prft,
    Styp,
    Emsg,
    Mfra,
    Mfro,
    Mvhd,
    Trak,
    Mvex,
    Udta,
    Tkhd,
    Edts,
    Mdia,
    Tref,
    Iprp,
    Meco,
    Elst,
    Mdhd,
    Hdlr,
    Minf,
    Vmhd,
    Smhd,
    Hmhd,
    Nmhd,
    Dinf,
    Stbl,
    Dref,
    Stsd,
    Stts,
    Ctts,
    Stsc,
    Stsz,
    Stz2,
    Stco,
    Co64,
    Stss,
    Stsh,
    Padb,
    Stdp,
    Sdtp,
    Sgpd,
    Sbgp,
    Subs,
    Mehd,
    Trex,
    Moof,
    Mfhd,
    Traf,
    Tfhd,
    Tfdt,
    Trun,
    Tfra,
    Iloc,
    Iinf,
    Infe,
    Iref,
    Ipco,
    Ipma,
    Ipci,
    Ispe,
    Pixi,
    AuxC,
    Clap,
    Colr,
    Hvcc,
    Avcc,
    Pitm,
    Sinf,
    Schm,
    Schi,
    Tenc,
    Saio,
    Saiz,
    Senc,
    Frma,
    Avc1,
    Avc2,
    Avc3,
    Avc4,
    Hev1,
    Hvc1,
    Vvc1,
    Mp4v,
    Vp08,
    Vp09,
    Av01,
    Mp4a,
    Ac3,
    Ec3,
    Opus,
    Samr,
    Sawb,
    Alac,
    Flac,
    Pasp,
    Cslg,
    Cprt,
    Gama,
    Fiel,
    Tapt,
    Uuid,
    Unknown(FourCC),
}

/// A type code packed as one big-endian 32-bit value.
pub open spec fn code_val(cc: FourCC) -> u32 {
    be_u32_at(cc.0@, 0)
}

/// The classification of a type code: a total function, with every
/// unlisted code mapping to `Unknown`.
#[verifier::opaque]
pub open spec fn spec_known_box(cc: FourCC) -> KnownBox {
    let v = code_val(cc);
    if v == 0x66747970 { KnownBox::Ftyp  // ftyp
    } else if v == 0x6d6f6f76 { KnownBox::Moov  // moov
    } else if v == 0x6d646174 { KnownBox::Mdat  // mdat
    } else if v == 0x66726565 { KnownBox::Free  // free
    } else if v == 0x736b6970 { KnownBox::Skip  // skip
    } else if v == 0x77696465 { KnownBox::Wide  // wide
    } else if v == 0x6d657461 { KnownBox::Meta  // meta
    } else if v == 0x70737368 { KnownBox::Pssh  // pssh
    } else if v == 0x73696478 { KnownBox::Sidx  // sidx
    } else if v == 0x73736978 { KnownBox::Ssix  // ssix
    } else if v == 0x70726674 { KnownBox::Prft  // prft
    } else if v == 0x73747970 { KnownBox::Styp  // styp
    } else if v == 0x656d7367 { KnownBox::Emsg  // emsg
    } else if v == 0x6d667261 { KnownBox::Mfra  // mfra
    } else if v == 0x6d66726f { KnownBox::Mfro  // mfro
    } else if v == 0x6d766864 { KnownBox::Mvhd  // mvhd
    } else if v == 0x7472616b { KnownBox::Trak  // trak
    } else if v == 0x6d766578 { KnownBox::Mvex  // mvex
    } else if v == 0x75647461 { KnownBox::Udta  // udta
    } else if v == 0x746b6864 { KnownBox::Tkhd  // tkhd
    } else if v == 0x65647473 { KnownBox::Edts  // edts
    } else if v == 0x6d646961 { KnownBox::Mdia  // mdia
    } else if v == 0x74726566 { KnownBox::Tref  // tref
    } else if v == 0x69707270 { KnownBox::Iprp  // iprp
    } else if v == 0x6d65636f { KnownBox::Meco  // meco
    } else if v == 0x656c7374 { KnownBox::Elst  // elst
    } else if v == 0x6d646864 { KnownBox::Mdhd  // mdhd
    } else if v == 0x68646c72 { KnownBox::Hdlr  // hdlr
    } else if v == 0x6d696e66 { KnownBox::Minf  // minf
    } else if v == 0x766d6864 { KnownBox::Vmhd  // vmhd
    } else if v == 0x736d6864 { KnownBox::Smhd  // smhd
    } else if v == 0x686d6864 { KnownBox::Hmhd  // hmhd
    } else if v == 0x6e6d6864 { KnownBox::Nmhd  // nmhd
    } else if v == 0x64696e66 { KnownBox::Dinf  // dinf
    } else if v == 0x7374626c { KnownBox::Stbl  // stbl
    } else if v == 0x64726566 { KnownBox::Dref  // dref
    } else if v == 0x73747364 { KnownBox::Stsd  // stsd
    } else if v == 0x73747473 { KnownBox::Stts  // stts
    } else if v == 0x63747473 { KnownBox::Ctts  // ctts
    } else if v == 0x73747363 { KnownBox::Stsc  // stsc
    } else if v == 0x7374737a { KnownBox::Stsz  // stsz
    } else if v == 0x73747a32 { KnownBox::Stz2  // stz2
    } else if v == 0x7374636f { KnownBox::Stco  // stco
    } else if v == 0x636f3634 { KnownBox::Co64  // co64
    } else if v == 0x73747373 { KnownBox::Stss  // stss
    } else if v == 0x73747368 { KnownBox::Stsh  // stsh
    } else if v == 0x70616462 { KnownBox::Padb  // padb
    } else if v == 0x73746470 { KnownBox::Stdp  // stdp
    } else if v == 0x73647470 { KnownBox::Sdtp  // sdtp
    } else if v == 0x73677064 { KnownBox::Sgpd  // sgpd
    } else if v == 0x73626770 { KnownBox::Sbgp  // sbgp
    } else if v == 0x73756273 { KnownBox::Subs  // subs
    } else if v == 0x6d656864 { KnownBox::Mehd  // mehd
    } else if v == 0x74726578 { KnownBox::Trex  // trex
    } else if v == 0x6d6f6f66 { KnownBox::Moof  // moof
    } else if v == 0x6d666864 { KnownBox::Mfhd  // mfhd
    } else if v == 0x74726166 { KnownBox::Traf  // traf
    } else if v == 0x74666864 { KnownBox::Tfhd  // tfhd
    } else if v == 0x74666474 { KnownBox::Tfdt  // tfdt
    } else if v == 0x7472756e { KnownBox::Trun  // trun
    } else if v == 0x74667261 { KnownBox::Tfra  // tfra
    } else if v == 0x696c6f63 { KnownBox::Iloc  // iloc
    } else if v == 0x69696e66 { KnownBox::Iinf  // iinf
    } else if v == 0x696e6665 { KnownBox::Infe  // infe
    } else if v == 0x69726566 { KnownBox::Iref  // iref
    } else if v == 0x6970636f { KnownBox::Ipco  // ipco
    } else if v == 0x69706d61 { KnownBox::Ipma  // ipma
    } else if v == 0x69706369 { KnownBox::Ipci  // ipci
    } else if v == 0x69737065 { KnownBox::Ispe  // ispe
    } else if v == 0x70697869 { KnownBox::Pixi  // pixi
    } else if v == 0x61757843 { KnownBox::AuxC  // auxC
    } else if v == 0x636c6170 { KnownBox::Clap  // clap
    } else if v == 0x636f6c72 { KnownBox::Colr  // colr
    } else if v == 0x68766343 { KnownBox::Hvcc  // hvcC
    } else if v == 0x61766343 { KnownBox::Avcc  // avcC
    } else if v == 0x7069746d { KnownBox::Pitm  // pitm
    } else if v == 0x73696e66 { KnownBox::Sinf  // sinf
    } else if v == 0x7363686d { KnownBox::Schm  // schm
    } else if v == 0x73636869 { KnownBox::Schi  // schi
    } else if v == 0x74656e63 { KnownBox::Tenc  // tenc
    } else if v == 0x7361696f { KnownBox::Saio  // saio
    } else if v == 0x7361697a { KnownBox::Saiz  // saiz
    } else if v == 0x73656e63 { KnownBox::Senc  // senc
    } else if v == 0x66726d61 { KnownBox::Frma  // frma
    } else if v == 0x61766331 { KnownBox::Avc1  // avc1
    } else if v == 0x61766332 { KnownBox::Avc2  // avc2
    } else if v == 0x61766333 { KnownBox::Avc3  // avc3
    } else if v == 0x61766334 { KnownBox::Avc4  // avc4
    } else if v == 0x68657631 { KnownBox::Hev1  // hev1
    } else if v == 0x68766331 { KnownBox::Hvc1  // hvc1
    } else if v == 0x76766331 { KnownBox::Vvc1  // vvc1
    } else if v == 0x6d703476 { KnownBox::Mp4v  // mp4v
    } else if v == 0x76703038 { KnownBox::Vp08  // vp08
    } else if v == 0x76703039 { KnownBox::Vp09  // vp09
    } else if v == 0x61763031 { KnownBox::Av01  // av01
    } else if v == 0x6d703461 { KnownBox::Mp4a  // mp4a
    } else if v == 0x61632d33 { KnownBox::Ac3  // ac-3
    } else if v == 0x65632d33 { KnownBox::Ec3  // ec-3
    } else if v == 0x6f707573 { KnownBox::Opus  // opus
    } else if v == 0x73616d72 { KnownBox::Samr  // samr
    } else if v == 0x73617762 { KnownBox::Sawb  // sawb
    } else if v == 0x616c6163 { KnownBox::Alac  // alac
    } else if v == 0x666c6163 { KnownBox::Flac  // flac
    } else if v == 0x70617370 { KnownBox::Pasp  // pasp
    } else if v == 0x63736c67 { KnownBox::Cslg  // cslg
    } else if v == 0x63707274 { KnownBox::Cprt  // cprt
    } else if v == 0x67616d61 { KnownBox::Gama  // gama
    } else if v == 0x6669656c { KnownBox::Fiel  // fiel
    } else if v == 0x74617074 { KnownBox::Tapt  // tapt
    } else if v == 0x75756964 { KnownBox::Uuid  // uuid
    } else { KnownBox::Unknown(cc) }
}

impl From<FourCC> for KnownBox {
    fn from(cc: FourCC) -> (r: KnownBox) {
        proof {
            reveal(spec_known_box);
        }
        let v: u32 = (cc.0[0] as u32) * 0x1000000 + (cc.0[1] as u32) * 0x10000 + (cc.0[2] as u32)
            * 0x100 + (cc.0[3] as u32);
        if v == 0x66747970 { KnownBox::Ftyp
        } else if v == 0x6d6f6f76 { KnownBox::Moov
        } else if v == 0x6d646174 { KnownBox::Mdat
        } else if v == 0x66726565 { KnownBox::Free
        } else if v == 0x736b6970 { KnownBox::Skip
        } else if v == 0x77696465 { KnownBox::Wide
        } else if v == 0x6d657461 { KnownBox::Meta
        } else if v == 0x70737368 { KnownBox::Pssh
        } else if v == 0x73696478 { KnownBox::Sidx
        } else if v == 0x73736978 { KnownBox::Ssix
        } else if v == 0x70726674 { KnownBox::Prft
        } else if v == 0x73747970 { KnownBox::Styp
        } else if v == 0x656d7367 { KnownBox::Emsg
        } else if v == 0x6d667261 { KnownBox::Mfra
        } else if v == 0x6d66726f { KnownBox::Mfro
        } else if v == 0x6d766864 { KnownBox::Mvhd
        } else if v == 0x7472616b { KnownBox::Trak
        } else if v == 0x6d766578 { KnownBox::Mvex
        } else if v == 0x75647461 { KnownBox::Udta
        } else if v == 0x746b6864 { KnownBox::Tkhd
        } else if v == 0x65647473 { KnownBox::Edts
        } else if v == 0x6d646961 { KnownBox::Mdia
        } else if v == 0x74726566 { KnownBox::Tref
        } else if v == 0x69707270 { KnownBox::Iprp
        } else if v == 0x6d65636f { KnownBox::Meco
        } else if v == 0x656c7374 { KnownBox::Elst
        } else if v == 0x6d646864 { KnownBox::Mdhd
        } else if v == 0x68646c72 { KnownBox::Hdlr
        } else if v == 0x6d696e66 { KnownBox::Minf
        } else if v == 0x766d6864 { KnownBox::Vmhd
        } else if v == 0x736d6864 { KnownBox::Smhd
        } else if v == 0x686d6864 { KnownBox::Hmhd
        } else if v == 0x6e6d6864 { KnownBox::Nmhd
        } else if v == 0x64696e66 { KnownBox::Dinf
        } else if v == 0x7374626c { KnownBox::Stbl
        } else if v == 0x64726566 { KnownBox::Dref
        } else if v == 0x73747364 { KnownBox::Stsd
        } else if v == 0x73747473 { KnownBox::Stts
        } else if v == 0x63747473 { KnownBox::Ctts
        } else if v == 0x73747363 { KnownBox::Stsc
        } else if v == 0x7374737a { KnownBox::Stsz
        } else if v == 0x73747a32 { KnownBox::Stz2
        } else if v == 0x7374636f { KnownBox::Stco
        } else if v == 0x636f3634 { KnownBox::Co64
        } else if v == 0x73747373 { KnownBox::Stss
        } else if v == 0x73747368 { KnownBox::Stsh
        } else if v == 0x70616462 { KnownBox::Padb
        } else if v == 0x73746470 { KnownBox::Stdp
        } else if v == 0x73647470 { KnownBox::Sdtp
        } else if v == 0x73677064 { KnownBox::Sgpd
        } else if v == 0x73626770 { KnownBox::Sbgp
        } else if v == 0x73756273 { KnownBox::Subs
        } else if v == 0x6d656864 { KnownBox::Mehd
        } else if v == 0x74726578 { KnownBox::Trex
        } else if v == 0x6d6f6f66 { KnownBox::Moof
        } else if v == 0x6d666864 { KnownBox::Mfhd
        } else if v == 0x74726166 { KnownBox::Traf
        } else if v == 0x74666864 { KnownBox::Tfhd
        } else if v == 0x74666474 { KnownBox::Tfdt
        } else if v == 0x7472756e { KnownBox::Trun
        } else if v == 0x74667261 { KnownBox::Tfra
        } else if v == 0x696c6f63 { KnownBox::Iloc
        } else if v == 0x69696e66 { KnownBox::Iinf
        } else if v == 0x696e6665 { KnownBox::Infe
        } else if v == 0x69726566 { KnownBox::Iref
        } else if v == 0x6970636f { KnownBox::Ipco
        } else if v == 0x69706d61 { KnownBox::Ipma
        } else if v == 0x69706369 { KnownBox::Ipci
        } else if v == 0x69737065 { KnownBox::Ispe
        } else if v == 0x70697869 { KnownBox::Pixi
        } else if v == 0x61757843 { KnownBox::AuxC
        } else if v == 0x636c6170 { KnownBox::Clap
        } else if v == 0x636f6c72 { KnownBox::Colr
        } else if v == 0x68766343 { KnownBox::Hvcc
        } else if v == 0x61766343 { KnownBox::Avcc
        } else if v == 0x7069746d { KnownBox::Pitm
        } else if v == 0x73696e66 { KnownBox::Sinf
        } else if v == 0x7363686d { KnownBox::Schm
        } else if v == 0x73636869 { KnownBox::Schi
        } else if v == 0x74656e63 { KnownBox::Tenc
        } else if v == 0x7361696f { KnownBox::Saio
        } else if v == 0x7361697a { KnownBox::Saiz
        } else if v == 0x73656e63 { KnownBox::Senc
        } else if v == 0x66726d61 { KnownBox::Frma
        } else if v == 0x61766331 { KnownBox::Avc1
        } else if v == 0x61766332 { KnownBox::Avc2
        } else if v == 0x61766333 { KnownBox::Avc3
        } else if v == 0x61766334 { KnownBox::Avc4
        } else if v == 0x68657631 { KnownBox::Hev1
        } else if v == 0x68766331 { KnownBox::Hvc1
        } else if v == 0x76766331 { KnownBox::Vvc1
        } else if v == 0x6d703476 { KnownBox::Mp4v
        } else if v == 0x76703038 { KnownBox::Vp08
        } else if v == 0x76703039 { KnownBox::Vp09
        } else if v == 0x61763031 { KnownBox::Av01
        } else if v == 0x6d703461 { KnownBox::Mp4a
        } else if v == 0x61632d33 { KnownBox::Ac3
        } else if v == 0x65632d33 { KnownBox::Ec3
        } else if v == 0x6f707573 { KnownBox::Opus
        } else if v == 0x73616d72 { KnownBox::Samr
        } else if v == 0x73617762 { KnownBox::Sawb
        } else if v == 0x616c6163 { KnownBox::Alac
        } else if v == 0x666c6163 { KnownBox::Flac
        } else if v == 0x70617370 { KnownBox::Pasp
        } else if v == 0x63736c67 { KnownBox::Cslg
        } else if v == 0x63707274 { KnownBox::Cprt
        } else if v == 0x67616d61 { KnownBox::Gama
        } else if v == 0x6669656c { KnownBox::Fiel
        } else if v == 0x74617074 { KnownBox::Tapt
        } else if v == 0x75756964 { KnownBox::Uuid
        } else { KnownBox::Unknown(cc) }
    }
}

impl vstd::std_specs::convert::FromSpecImpl<FourCC> for KnownBox {
    open spec fn obeys_from_spec() -> bool {
        true
    }

    open spec fn from_spec(cc: FourCC) -> KnownBox {
        spec_known_box(cc)
    }
}

/// Whether boxes of this type hold child boxes.
pub open spec fn spec_is_container(kb: KnownBox) -> bool {
    match kb {
        KnownBox::Moov
            | KnownBox::Trak
            | KnownBox::Mdia
            | KnownBox::Minf
            | KnownBox::Stbl
            | KnownBox::Edts
            | KnownBox::Udta
            | KnownBox::Meta
            | KnownBox::Moof
            | KnownBox::Mvex
            | KnownBox::Mfra
            | KnownBox::Meco
            | KnownBox::Traf
            | KnownBox::Sinf
            | KnownBox::Iprp
            | KnownBox::Iref
            | KnownBox::Ipco
            | KnownBox::Ipma => true,
        _ => false,
    }
}

/// Whether boxes of this type carry a version byte and 24-bit flags.
pub open spec fn spec_is_full_box(kb: KnownBox) -> bool {
    match kb {
        KnownBox::Mvhd
            | KnownBox::Tkhd
            | KnownBox::Mdhd
            | KnownBox::Hdlr
            | KnownBox::Vmhd
            | KnownBox::Smhd
            | KnownBox::Nmhd
            | KnownBox::Dref
            | KnownBox::Stts
            | KnownBox::Ctts
            | KnownBox::Stsc
            | KnownBox::Stsz
            | KnownBox::Stz2
            | KnownBox::Stco
            | KnownBox::Co64
            | KnownBox::Stss
            | KnownBox::Stsh
            | KnownBox::Padb
            | KnownBox::Stdp
            | KnownBox::Stsd
            | KnownBox::Sdtp
            | KnownBox::Sgpd
            | KnownBox::Sbgp
            | KnownBox::Subs
            | KnownBox::Elst
            | KnownBox::Sidx
            | KnownBox::Mehd
            | KnownBox::Trex
            | KnownBox::Mfhd
            | KnownBox::Tfhd
            | KnownBox::Tfdt
            | KnownBox::Trun
            | KnownBox::Tfra
            | KnownBox::Iloc
            | KnownBox::Iinf
            | KnownBox::Infe
            | KnownBox::Pitm
            | KnownBox::Pssh
            | KnownBox::Schi
            | KnownBox::Saio
            | KnownBox::Saiz => true,
        _ => false,
    }
}

impl KnownBox {
    /// Returns true if this box type is a container (it can have children).
    pub fn is_container(&self) -> (r: bool)
        ensures
            r == spec_is_container(*self),
    {
        match self {
            KnownBox::Moov
            | KnownBox::Trak
            | KnownBox::Mdia
            | KnownBox::Minf
            | KnownBox::Stbl
            | KnownBox::Edts
            | KnownBox::Udta
            | KnownBox::Meta
            | KnownBox::Moof
            | KnownBox::Mvex
            | KnownBox::Mfra
            | KnownBox::Meco
            | KnownBox::Traf
            | KnownBox::Sinf
            | KnownBox::Iprp
            | KnownBox::Iref
            | KnownBox::Ipco
            | KnownBox::Ipma => true,
            _ => false,
        }
    }

    /// Returns true if this box type is a FullBox (it has version and flags).
    pub fn is_full_box(&self) -> (r: bool)
        ensures
            r == spec_is_full_box(*self),
    {
        match self {
            KnownBox::Mvhd
            | KnownBox::Tkhd
            | KnownBox::Mdhd
            | KnownBox::Hdlr
            | KnownBox::Vmhd
            | KnownBox::Smhd
            | KnownBox::Nmhd
            | KnownBox::Dref
            | KnownBox::Stts
            | KnownBox::Ctts
            | KnownBox::Stsc
            | KnownBox::Stsz
            | KnownBox::Stz2
            | KnownBox::Stco
            | KnownBox::Co64
            | KnownBox::Stss
            | KnownBox::Stsh
            | KnownBox::Padb
            | KnownBox::Stdp
            | KnownBox::Stsd
            | KnownBox::Sdtp
            | KnownBox::Sgpd
            | KnownBox::Sbgp
            | KnownBox::Subs
            | KnownBox::Elst
            | KnownBox::Sidx
            | KnownBox::Mehd
            | KnownBox::Trex
            | KnownBox::Mfhd
            | KnownBox::Tfhd
            | KnownBox::Tfdt
            | KnownBox::Trun
            | KnownBox::Tfra
            | KnownBox::Iloc
            | KnownBox::Iinf
            | KnownBox::Infe
            | KnownBox::Pitm
            | KnownBox::Pssh
            | KnownBox::Schi
            | KnownBox::Saio
            | KnownBox::Saiz => true,
            _ => false,
        }
    }

    /// A human-readable name for the box type.
    pub fn full_name(&self) -> (r: &'static str)
        ensures
            r@ == spec_full_name(*self),
    {
        match self {
            KnownBox::Ftyp => "File Type Box",
            KnownBox::Moov => "Movie Box",
            KnownBox::Mdat => "Media Data Box",
            KnownBox::Free => "Free Space Box",
            KnownBox::Skip => "Skip Box",
            KnownBox::Wide => "Wide Placeholder Box",
            KnownBox::Meta => "Metadata Box",
            KnownBox::Pssh => "Protection System Specific Header",
            KnownBox::Sidx => "Segment Index Box",
            KnownBox::Ssix => "Subsegment Index Box",
            KnownBox::Prft => "Producer Reference Time",
            KnownBox::Styp => "Segment Type Box",
            KnownBox::Emsg => "Event Message Box",
            KnownBox::Mfra => "Movie Fragment Random Access Box",
            KnownBox::Mfro => "Movie Fragment Random Access Offset Box",
            KnownBox::Mvhd => "Movie Header Box",
            KnownBox::Trak => "Track Box",
            KnownBox::Mvex => "Movie Extends Box",
            KnownBox::Udta => "User Data Box",
            KnownBox::Tkhd => "Track Header Box",
            KnownBox::Edts => "Edit Box",
            KnownBox::Mdia => "Media Box",
            KnownBox::Tref => "Track Reference Box",
            KnownBox::Iprp => "Item Properties Box",
            KnownBox::Meco => "Additional Metadata Container Box",
            KnownBox::Elst => "Edit List Box",
            KnownBox::Mdhd => "Media Header Box",
            KnownBox::Hdlr => "Handler Reference Box",
            KnownBox::Minf => "Media Information Box",
            KnownBox::Vmhd => "Video Media Header Box",
            KnownBox::Smhd => "Sound Media Header Box",
            KnownBox::Hmhd => "Hint Media Header Box",
            KnownBox::Nmhd => "Null Media Header Box",
            KnownBox::Dinf => "Data Information Box",
            KnownBox::Stbl => "Sample Table Box",
            KnownBox::Dref => "Data Reference Box",
            KnownBox::Stsd => "Sample Description Box",
            KnownBox::Stts => "Decoding Time-to-Sample Box",
            KnownBox::Ctts => "Composition Time-to-Sample Box",
            KnownBox::Stsc => "Sample-to-Chunk Box",
            KnownBox::Stsz => "Sample Size Box",
            KnownBox::Stz2 => "Compact Sample Size Box",
            KnownBox::Stco => "Chunk Offset Box",
            KnownBox::Co64 => "Chunk Offset (64-bit) Box",
            KnownBox::Stss => "Sync Sample Box",
            KnownBox::Stsh => "Shadow Sync Sample Box",
            KnownBox::Padb => "Padding Bits Box",
            KnownBox::Stdp => "Sample Degradation Priority Box",
            KnownBox::Sdtp => "Sample Dependency Flags Box",
            KnownBox::Sgpd => "Sample Group Description Box",
            KnownBox::Sbgp => "Sample-to-Group Box",
            KnownBox::Subs => "Sub-Sample Information Box",
            KnownBox::Mehd => "Movie Extends Header Box",
            KnownBox::Trex => "Track Extends Box",
            KnownBox::Moof => "Movie Fragment Box",
            KnownBox::Mfhd => "Movie Fragment Header Box",
            KnownBox::Traf => "Track Fragment Box",
            KnownBox::Tfhd => "Track Fragment Header Box",
            KnownBox::Tfdt => "Track Fragment Decode Time Box",
            KnownBox::Trun => "Track Fragment Run Box",
            KnownBox::Tfra => "Track Fragment Random Access Box",
            KnownBox::Iloc => "Item Location Box",
            KnownBox::Iinf => "Item Information Box",
            KnownBox::Infe => "Item Info Entry Box",
            KnownBox::Iref => "Item Reference Box",
            KnownBox::Ipco => "Item Property Container Box",
            KnownBox::Ipma => "Item Property Association Box",
            KnownBox::Ipci => "Item Property Container Info Box",
            KnownBox::Ispe => "Image Spatial Extents Property",
            KnownBox::Pixi => "Pixel Information Property",
            KnownBox::AuxC => "Auxiliary Type Property",
            KnownBox::Clap => "Clean Aperture Box",
            KnownBox::Colr => "Colour Information Box",
            KnownBox::Hvcc => "HEVC Decoder Configuration Box",
            KnownBox::Avcc => "AVC Decoder Configuration Box",
            KnownBox::Pitm => "Primary Item Box",
            KnownBox::Sinf => "Protection Scheme Information Box",
            KnownBox::Schm => "Scheme Type Box",
            KnownBox::Schi => "Scheme Information Box",
            KnownBox::Tenc => "Track Encryption Box",
            KnownBox::Saio => "Sample Auxiliary Information Offsets Box",
            KnownBox::Saiz => "Sample Auxiliary Information Sizes Box",
            KnownBox::Senc => "Sample Encryption Box",
            KnownBox::Frma => "Original Format Box",
            KnownBox::Avc1 => "AVC Video Sample Entry",
            KnownBox::Avc2 => "AVC2 Video Sample Entry",
            KnownBox::Avc3 => "AVC3 Video Sample Entry",
            KnownBox::Avc4 => "AVC4 Video Sample Entry",
            KnownBox::Hev1 => "HEVC Video Sample Entry (hev1)",
            KnownBox::Hvc1 => "HEVC Video Sample Entry (hvc1)",
            KnownBox::Vvc1 => "VVC Video Sample Entry",
            KnownBox::Mp4v => "MPEG-4 Visual Sample Entry",
            KnownBox::Vp08 => "VP8 Video Sample Entry",
            KnownBox::Vp09 => "VP9 Video Sample Entry",
            KnownBox::Av01 => "AV1 Video Sample Entry",
            KnownBox::Mp4a => "MPEG-4 Audio Sample Entry",
            KnownBox::Ac3 => "AC-3 Audio Sample Entry",
            KnownBox::Ec3 => "Enhanced AC-3 Audio Sample Entry",
            KnownBox::Opus => "Opus Audio Sample Entry",
            KnownBox::Samr => "AMR-NB Audio Sample Entry",
            KnownBox::Sawb => "AMR-WB Audio Sample Entry",
            KnownBox::Alac => "Apple Lossless Sample Entry",
            KnownBox::Flac => "FLAC Audio Sample Entry",
            KnownBox::Pasp => "Pixel Aspect Ratio Box",
            KnownBox::Cslg => "Composition Shift Least Greatest Box",
            KnownBox::Cprt => "Copyright Box",
            KnownBox::Gama => "Gamma Box",
            KnownBox::Fiel => "Field Handling Box",
            KnownBox::Tapt => "Track Aperture Mode Dimensions Box",
            KnownBox::Uuid => "UUID Box",
            KnownBox::Unknown(_) => "Unknown Box",
        }
    }
}

/// The human-readable name of each box type.
pub open spec fn spec_full_name(kb: KnownBox) -> Seq<char> {
    match kb {
        KnownBox::Ftyp => "File Type Box"@,
        KnownBox::Moov => "Movie Box"@,
        KnownBox::Mdat => "Media Data Box"@,
        KnownBox::Free => "Free Space Box"@,
        KnownBox::Skip => "Skip Box"@,
        KnownBox::Wide => "Wide Placeholder Box"@,
        KnownBox::Meta => "Metadata Box"@,
        KnownBox::Pssh => "Protection System Specific Header"@,
        KnownBox::Sidx => "Segment Index Box"@,
        KnownBox::Ssix => "Subsegment Index Box"@,
        KnownBox::Prft => "Producer Reference Time"@,
        KnownBox::Styp => "Segment Type Box"@,
        KnownBox::Emsg => "Event Message Box"@,
        KnownBox::Mfra => "Movie Fragment Random Access Box"@,
        KnownBox::Mfro => "Movie Fragment Random Access Offset Box"@,
        KnownBox::Mvhd => "Movie Header Box"@,
        KnownBox::Trak => "Track Box"@,
        KnownBox::Mvex => "Movie Extends Box"@,
        KnownBox::Udta => "User Data Box"@,
        KnownBox::Tkhd => "Track Header Box"@,
        KnownBox::Edts => "Edit Box"@,
        KnownBox::Mdia => "Media Box"@,
        KnownBox::Tref => "Track Reference Box"@,
        KnownBox::Iprp => "Item Properties Box"@,
        KnownBox::Meco => "Additional Metadata Container Box"@,
        KnownBox::Elst => "Edit List Box"@,
        KnownBox::Mdhd => "Media Header Box"@,
        KnownBox::Hdlr => "Handler Reference Box"@,
        KnownBox::Minf => "Media Information Box"@,
        KnownBox::Vmhd => "Video Media Header Box"@,
        KnownBox::Smhd => "Sound Media Header Box"@,
        KnownBox::Hmhd => "Hint Media Header Box"@,
        KnownBox::Nmhd => "Null Media Header Box"@,
        KnownBox::Dinf => "Data Information Box"@,
        KnownBox::Stbl => "Sample Table Box"@,
        KnownBox::Dref => "Data Reference Box"@,
        KnownBox::Stsd => "Sample Description Box"@,
        KnownBox::Stts => "Decoding Time-to-Sample Box"@,
        KnownBox::Ctts => "Composition Time-to-Sample Box"@,
        KnownBox::Stsc => "Sample-to-Chunk Box"@,
        KnownBox::Stsz => "Sample Size Box"@,
        KnownBox::Stz2 => "Compact Sample Size Box"@,
        KnownBox::Stco => "Chunk Offset Box"@,
        KnownBox::Co64 => "Chunk Offset (64-bit) Box"@,
        KnownBox::Stss => "Sync Sample Box"@,
        KnownBox::Stsh => "Shadow Sync Sample Box"@,
        KnownBox::Padb => "Padding Bits Box"@,
        KnownBox::Stdp => "Sample Degradation Priority Box"@,
        KnownBox::Sdtp => "Sample Dependency Flags Box"@,
        KnownBox::Sgpd => "Sample Group Description Box"@,
        KnownBox::Sbgp => "Sample-to-Group Box"@,
        KnownBox::Subs => "Sub-Sample Information Box"@,
        KnownBox::Mehd => "Movie Extends Header Box"@,
        KnownBox::Trex => "Track Extends Box"@,
        KnownBox::Moof => "Movie Fragment Box"@,
        KnownBox::Mfhd => "Movie Fragment Header Box"@,
        KnownBox::Traf => "Track Fragment Box"@,
        KnownBox::Tfhd => "Track Fragment Header Box"@,
        KnownBox::Tfdt => "Track Fragment Decode Time Box"@,
        KnownBox::Trun => "Track Fragment Run Box"@,
        KnownBox::Tfra => "Track Fragment Random Access Box"@,
        KnownBox::Iloc => "Item Location Box"@,
        KnownBox::Iinf => "Item Information Box"@,
        KnownBox::Infe => "Item Info Entry Box"@,
        KnownBox::Iref => "Item Reference Box"@,
        KnownBox::Ipco => "Item Property Container Box"@,
        KnownBox::Ipma => "Item Property Association Box"@,
        KnownBox::Ipci => "Item Property Container Info Box"@,
        KnownBox::Ispe => "Image Spatial Extents Property"@,
        KnownBox::Pixi => "Pixel Information Property"@,
        KnownBox::AuxC => "Auxiliary Type Property"@,
        KnownBox::Clap => "Clean Aperture Box"@,
        KnownBox::Colr => "Colour Information Box"@,
        KnownBox::Hvcc => "HEVC Decoder Configuration Box"@,
        KnownBox::Avcc => "AVC Decoder Configuration Box"@,
        KnownBox::Pitm => "Primary Item Box"@,
        KnownBox::Sinf => "Protection Scheme Information Box"@,
        KnownBox::Schm => "Scheme Type Box"@,
        KnownBox::Schi => "Scheme Information Box"@,
        KnownBox::Tenc => "Track Encryption Box"@,
        KnownBox::Saio => "Sample Auxiliary Information Offsets Box"@,
        KnownBox::Saiz => "Sample Auxiliary Information Sizes Box"@,
        KnownBox::Senc => "Sample Encryption Box"@,
        KnownBox::Frma => "Original Format Box"@,
        KnownBox::Avc1 => "AVC Video Sample Entry"@,
        KnownBox::Avc2 => "AVC2 Video Sample Entry"@,
        KnownBox::Avc3 => "AVC3 Video Sample Entry"@,
        KnownBox::Avc4 => "AVC4 Video Sample Entry"@,
        KnownBox::Hev1 => "HEVC Video Sample Entry (hev1)"@,
        KnownBox::Hvc1 => "HEVC Video Sample Entry (hvc1)"@,
        KnownBox::Vvc1 => "VVC Video Sample Entry"@,
        KnownBox::Mp4v => "MPEG-4 Visual Sample Entry"@,
        KnownBox::Vp08 => "VP8 Video Sample Entry"@,
        KnownBox::Vp09 => "VP9 Video Sample Entry"@,
        KnownBox::Av01 => "AV1 Video Sample Entry"@,
        KnownBox::Mp4a => "MPEG-4 Audio Sample Entry"@,
        KnownBox::Ac3 => "AC-3 Audio Sample Entry"@,
        KnownBox::Ec3 => "Enhanced AC-3 Audio Sample Entry"@,
        KnownBox::Opus => "Opus Audio Sample Entry"@,
        KnownBox::Samr => "AMR-NB Audio Sample Entry"@,
        KnownBox::Sawb => "AMR-WB Audio Sample Entry"@,
        KnownBox::Alac => "Apple Lossless Sample Entry"@,
        KnownBox::Flac => "FLAC Audio Sample Entry"@,
        KnownBox::Pasp => "Pixel Aspect Ratio Box"@,
        KnownBox::Cslg => "Composition Shift Least Greatest Box"@,
        KnownBox::Cprt => "Copyright Box"@,
        KnownBox::Gama => "Gamma Box"@,
        KnownBox::Fiel => "Field Handling Box"@,
        KnownBox::Tapt => "Track Aperture Mode Dimensions Box"@,
        KnownBox::Uuid => "UUID Box"@,
        KnownBox::Unknown(_) => "Unknown Box"@,
    }
}

} // verus!
