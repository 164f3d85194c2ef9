//! Laws of the codec: well-formedness of messages, and the round-trip and
//! stability lemmas relating the encode and decode models.

use vstd::prelude::*;
use crate::align::{aligned_size_spec, lemma_aligned_size_props};
use crate::codes::{cmd_canonical, cmd_code_spec, nla_canonical, nla_code_spec};
use crate::error::DeError;
use crate::genlhdr::{attr_raw_size, attr_wire, attrs_wire, dec_attr, dec_attrs, dec_genl,
    genl_wire, lemma_payload_wire_aligned, models_of, payload_bytes, payload_wire, AttrModel,
    GenlHdr, GenlModel, NlAttrHdr, NlAttrPayload};
use crate::wire::{lemma_padded_aligned, lemma_u16_round_trip, u16_le};

verus! {

/// An attribute whose declared length is exactly its own wire length and
/// whose type survives the trip through its wire integer. The constructor's
/// default declared length gives this whenever the payload is a blob.
pub open spec fn attr_wf(a: NlAttrHdr) -> bool {
    &&& nla_canonical(a.nla_type)
    &&& a.nla_len as int == attr_wire(a).len()
}

/// A message whose command survives the trip through its wire byte and whose
/// attributes are all well formed.
pub open spec fn genl_wf(h: GenlHdr) -> bool {
    &&& cmd_canonical(h.cmd)
    &&& forall|i: int| 0 <= i < h.attrs@.len() ==> attr_wf(#[trigger] h.attrs@[i])
}

/// What decoding gives back for each encoded attribute: the stored length
/// and type verbatim, and the payload's wire image — padding included — as
/// the payload bytes.
pub open spec fn decoded_models(s: Seq<NlAttrHdr>) -> Seq<AttrModel> {
    Seq::new(
        s.len(),
        |i: int|
            AttrModel {
                len: s[i].nla_len,
                typ: s[i].nla_type,
                payload: payload_wire(s[i].payload),
            },
    )
}

/// An attribute's wire image is its 4 header bytes plus its payload image.
pub proof fn lemma_attr_wire_len(a: NlAttrHdr)
    ensures
        attr_wire(a).len() == 4 + payload_wire(a.payload).len(),
{
}

/// Decoding the front of a stream that starts with a well-formed attribute's
/// wire image yields that attribute's model and consumes exactly its image.
pub proof fn lemma_attr_decode(a: NlAttrHdr, rest: Seq<u8>)
    requires
        attr_wf(a),
    ensures
        dec_attr(attr_wire(a) + rest) == Ok::<(AttrModel, int), DeError>(
            (
                AttrModel { len: a.nla_len, typ: a.nla_type, payload: payload_wire(a.payload) },
                a.nla_len as int,
            ),
        ),
{
    let w = attr_wire(a) + rest;
    lemma_attr_wire_len(a);
    assert(w[0] == u16_le(a.nla_len)[0]);
    assert(w[1] == u16_le(a.nla_len)[1]);
    assert(w[2] == u16_le(nla_code_spec(a.nla_type))[0]);
    assert(w[3] == u16_le(nla_code_spec(a.nla_type))[1]);
    lemma_u16_round_trip(a.nla_len);
    lemma_u16_round_trip(nla_code_spec(a.nla_type));
    assert(w.subrange(4, a.nla_len as int) =~= payload_wire(a.payload));
    let got = dec_attr(w);
    assert(got matches Ok(p) && p.0 =~= AttrModel {
        len: a.nla_len,
        typ: a.nla_type,
        payload: payload_wire(a.payload),
    } && p.1 == a.nla_len as int);
}

/// Decoding a run of well-formed attribute images followed by any trailing
/// bytes yields all the attributes in order and then whatever the trailing
/// bytes alone decode to.
pub proof fn lemma_attrs_decode_prefix(s: Seq<NlAttrHdr>, tail: Seq<u8>)
    requires
        forall|i: int| 0 <= i < s.len() ==> attr_wf(#[trigger] s[i]),
    ensures
        dec_attrs(attrs_wire(s) + tail) == (match dec_attrs(tail) {
            Ok(ms) => Ok::<Seq<AttrModel>, DeError>(decoded_models(s) + ms),
            Err(e) => Err::<Seq<AttrModel>, DeError>(e),
        }),
    decreases s.len(),
{
    if s.len() == 0 {
        assert(attrs_wire(s) + tail =~= tail);
        assert(decoded_models(s) =~= Seq::<AttrModel>::empty());
        if let Ok(ms) = dec_attrs(tail) {
            assert(decoded_models(s) + ms =~= ms);
        }
    } else {
        let a = s[0];
        let s1 = s.subrange(1, s.len() as int);
        let rest = attrs_wire(s1) + tail;
        let w = attrs_wire(s) + tail;
        assert(attrs_wire(s) == attr_wire(a) + attrs_wire(s1));
        assert(w =~= attr_wire(a) + rest);
        lemma_attr_wire_len(a);
        lemma_attr_decode(a, rest);
        let m0 = AttrModel { len: a.nla_len, typ: a.nla_type, payload: payload_wire(a.payload) };
        assert(w.len() > 0);
        assert(w.subrange(a.nla_len as int, w.len() as int) =~= rest);
        assert(forall|i: int| 0 <= i < s1.len() ==> attr_wf(#[trigger] s1[i]));
        lemma_attrs_decode_prefix(s1, tail);
        assert(decoded_models(s) =~= seq![m0] + decoded_models(s1));
        match dec_attrs(tail) {
            Ok(ms) => {
                assert(seq![m0] + (decoded_models(s1) + ms) =~= decoded_models(s) + ms);
            },
            Err(_) => {},
        }
    }
}

/// Round trip: decoding the wire image of a well-formed message reproduces
/// its command, version and reserved field exactly, and every attribute's
/// declared length and type exactly; each decoded payload is the original
/// payload's wire image, padding included.
pub proof fn lemma_round_trip(h: GenlHdr)
    requires
        genl_wf(h),
    ensures
        dec_genl(genl_wire(h)) == Ok::<GenlModel, DeError>(
            GenlModel {
                cmd: h.cmd,
                version: h.version,
                reserved: h.reserved,
                attrs: decoded_models(h.attrs@),
            },
        ),
{
    let w = genl_wire(h);
    assert(w.len() >= 4);
    assert(w[0] == cmd_code_spec(h.cmd));
    assert(w[1] == h.version);
    assert(w[2] == u16_le(h.reserved)[0]);
    assert(w[3] == u16_le(h.reserved)[1]);
    lemma_u16_round_trip(h.reserved);
    assert(w.subrange(4, w.len() as int) =~= attrs_wire(h.attrs@) + Seq::<u8>::empty());
    lemma_attrs_decode_prefix(h.attrs@, Seq::empty());
    assert(dec_attrs(Seq::<u8>::empty()) == Ok::<Seq<AttrModel>, DeError>(Seq::empty()));
    assert(decoded_models(h.attrs@) + Seq::<AttrModel>::empty() =~= decoded_models(h.attrs@));
    let got = dec_genl(w);
    assert(got matches Ok(m) && m =~= GenlModel {
        cmd: h.cmd,
        version: h.version,
        reserved: h.reserved,
        attrs: decoded_models(h.attrs@),
    });
}

/// A payload whose stored bytes are already 4-byte aligned encodes to
/// exactly those bytes.
pub proof fn lemma_payload_reencode(p: NlAttrPayload)
    requires
        payload_bytes(p).len() % 4 == 0,
    ensures
        payload_wire(p) == payload_bytes(p),
{
    match p {
        NlAttrPayload::Bin(v) => {
            lemma_padded_aligned(v@);
        },
        NlAttrPayload::Parsed(_) => {},
    }
}

/// Two attribute runs with equal wire images element by element have equal
/// wire images as runs.
pub proof fn lemma_attrs_wire_elementwise(s1: Seq<NlAttrHdr>, s2: Seq<NlAttrHdr>)
    requires
        s1.len() == s2.len(),
        forall|i: int| 0 <= i < s1.len() ==> attr_wire(#[trigger] s1[i]) == attr_wire(s2[i]),
    ensures
        attrs_wire(s1) == attrs_wire(s2),
    decreases s1.len(),
{
    if s1.len() != 0 {
        let t1 = s1.subrange(1, s1.len() as int);
        let t2 = s2.subrange(1, s2.len() as int);
        assert(forall|i: int| 0 <= i < t1.len() ==> attr_wire(#[trigger] t1[i]) == attr_wire(
            t2[i],
        ));
        lemma_attrs_wire_elementwise(t1, t2);
    }
}

/// Encode, decode, encode again is byte-stable: any message that carries the
/// decoded form of a well-formed message's wire image encodes to the very
/// same bytes. Decode itself is not byte-preserving — the padding becomes
/// part of each decoded payload — but what it returns re-encodes verbatim.
pub proof fn lemma_reencode_stable(h: GenlHdr, g: GenlHdr)
    requires
        genl_wf(h),
        dec_genl(genl_wire(h)) == Ok::<GenlModel, DeError>(g.model()),
    ensures
        genl_wire(g) == genl_wire(h),
{
    lemma_round_trip(h);
    let hs = h.attrs@;
    let gs = g.attrs@;
    assert(models_of(gs) == decoded_models(hs));
    assert(models_of(gs).len() == gs.len());
    assert(gs.len() == hs.len());
    assert forall|i: int| 0 <= i < gs.len() implies attr_wire(#[trigger] gs[i]) == attr_wire(
        hs[i],
    ) by {
        assert(models_of(gs)[i] == gs[i].model());
        assert(decoded_models(hs)[i] == AttrModel {
            len: hs[i].nla_len,
            typ: hs[i].nla_type,
            payload: payload_wire(hs[i].payload),
        });
        assert(gs[i].nla_len == hs[i].nla_len);
        assert(gs[i].nla_type == hs[i].nla_type);
        assert(payload_bytes(gs[i].payload) == payload_wire(hs[i].payload));
        lemma_payload_wire_aligned(hs[i].payload);
        lemma_payload_reencode(gs[i].payload);
    }
    lemma_attrs_wire_elementwise(gs, hs);
    assert(genl_wire(g) =~= genl_wire(h));
}

/// A well-formed message's wire image followed by 1 to 3 stray bytes — a
/// partial attribute — fails to decode, with `Truncated`, whatever the
/// stray bytes hold.
pub proof fn lemma_trailing_bytes_truncated(h: GenlHdr, tail: Seq<u8>)
    requires
        genl_wf(h),
        0 < tail.len() < 4,
    ensures
        dec_genl(genl_wire(h) + tail) == Err::<GenlModel, DeError>(DeError::Truncated),
{
    let w = genl_wire(h) + tail;
    assert(w.len() >= 4);
    assert(w.subrange(4, w.len() as int) =~= attrs_wire(h.attrs@) + tail);
    assert(dec_attrs(tail) == Err::<Seq<AttrModel>, DeError>(DeError::Truncated));
    lemma_attrs_decode_prefix(h.attrs@, tail);
}

/// An attribute over a blob whose declared length is the attribute's own
/// aligned size — what the constructor stores when no length is supplied and
/// that size fits 16 bits — is well formed, so the round-trip laws apply to
/// it.
pub proof fn lemma_default_len_bin_attr_wf(a: NlAttrHdr)
    requires
        a.payload matches NlAttrPayload::Bin(_),
        nla_canonical(a.nla_type),
        a.nla_len as int == aligned_size_spec(attr_raw_size(a)),
    ensures
        attr_wf(a),
{
    if let NlAttrPayload::Bin(v) = a.payload {
        let raw = v@.len() as int;
        lemma_attr_wire_len(a);
        lemma_aligned_size_props(raw);
        lemma_aligned_size_props(4 + raw);
        assert((4 + raw) % 4 == raw % 4) by (nonlinear_arith);
        assert(aligned_size_spec(4 + raw) == 4 + aligned_size_spec(raw));
    }
}

/// The wire image of a `Bin` payload of length `L` is exactly
/// `aligned_size_spec(L)` bytes: the blob itself, then zeros.
pub proof fn lemma_bin_encoding(p: NlAttrPayload)
    ensures
        p matches NlAttrPayload::Bin(v) ==> {
            &&& payload_wire(p).len() == aligned_size_spec(v@.len() as int)
            &&& payload_wire(p).subrange(0, v@.len() as int) == v@
            &&& forall|j: int|
                v@.len() <= j < payload_wire(p).len() ==> payload_wire(p)[j] == 0
        },
{
    if let NlAttrPayload::Bin(v) = p {
        lemma_aligned_size_props(v@.len() as int);
        assert(payload_wire(p).subrange(0, v@.len() as int) =~= v@);
    }
}

} // verus!
