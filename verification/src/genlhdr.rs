//! The message and attribute codecs. A message is a command/version/reserved
//! header followed by an ordered run of Type-Length-Value attributes, each
//! zero-padded to a 4-byte boundary. The wire image of every value is given
//! by the `*_wire` spec functions; decoding is given by the `dec_*` spec
//! functions over the raw bytes; the executable codecs are proved to agree
//! with both.

use vstd::prelude::*;
use crate::align::{aligned_size, aligned_size_spec, lemma_aligned_size_props};
use crate::codes::{cmd_code_spec, cmd_of_code_spec, nla_code_spec, nla_of_code_spec, GenlCmds,
    NlaType};
use crate::error::{DeError, SerError};
use crate::state::{NlDeState, NlSerState};
use crate::wire::{padded, u16_le, u16_of};

verus! {

/// Generic-family message: fixed header fields and the attribute list.
/// `reserved` is zero on construction and carried verbatim through decode.
#[derive(Debug)]
pub struct GenlHdr {
    pub cmd: GenlCmds,
    pub version: u8,
    pub reserved: u16,
    pub attrs: Vec<NlAttrHdr>,
}

/// One attribute: declared length, type, payload. `nla_len` is what is
/// written on the wire, never recomputed at encode time; the constructor
/// defaults it to the attribute's aligned size.
#[derive(Debug)]
pub struct NlAttrHdr {
    pub nla_len: u16,
    pub nla_type: NlaType,
    pub payload: NlAttrPayload,
}

/// Attribute payload: a raw byte blob, or a hand-built nested attribute
/// list. Decoding always produces `Bin`; `parse_nested` reinterprets a blob
/// as a nested list on request.
#[derive(Debug)]
pub enum NlAttrPayload {
    Bin(Vec<u8>),
    Parsed(Vec<NlAttrHdr>),
}

// ---------------------------------------------------------------------------
// Raw (unpadded) sizes.
// ---------------------------------------------------------------------------

/// Logical content length of a payload: the exact blob length, or the sum of
/// the children's raw sizes.
pub open spec fn payload_raw_size(p: NlAttrPayload) -> int
    decreases p,
{
    match p {
        NlAttrPayload::Bin(v) => v@.len() as int,
        NlAttrPayload::Parsed(attrs) => attrs_raw_size(attrs@),
    }
}

/// Sum of the raw sizes of a run of attributes.
pub open spec fn attrs_raw_size(s: Seq<NlAttrHdr>) -> int
    decreases s,
{
    if s.len() == 0 {
        0
    } else {
        attr_raw_size(s[0]) + attrs_raw_size(s.subrange(1, s.len() as int))
    }
}

/// Raw size of one attribute: 4 fixed header bytes plus its payload.
pub open spec fn attr_raw_size(a: NlAttrHdr) -> int
    decreases a,
{
    4 + payload_raw_size(a.payload)
}

/// Raw size of a message: 4 fixed header bytes plus the attributes' raw
/// sizes. Used for capacity planning; the fixed fields are never padded.
pub open spec fn genl_raw_size(h: GenlHdr) -> int {
    4 + attrs_raw_size(h.attrs@)
}

pub proof fn lemma_payload_raw_size_nonneg(p: NlAttrPayload)
    ensures
        payload_raw_size(p) >= 0,
    decreases p,
{
    match p {
        NlAttrPayload::Bin(_) => {},
        NlAttrPayload::Parsed(attrs) => {
            lemma_attrs_raw_size_nonneg(attrs@);
        },
    }
}

pub proof fn lemma_attrs_raw_size_nonneg(s: Seq<NlAttrHdr>)
    ensures
        attrs_raw_size(s) >= 0,
    decreases s,
{
    if s.len() != 0 {
        lemma_payload_raw_size_nonneg(s[0].payload);
        lemma_attrs_raw_size_nonneg(s.subrange(1, s.len() as int));
        assert(attrs_raw_size(s) == attr_raw_size(s[0]) + attrs_raw_size(
            s.subrange(1, s.len() as int),
        ));
        assert(attr_raw_size(s[0]) == 4 + payload_raw_size(s[0].payload));
    }
}

// ---------------------------------------------------------------------------
// The wire model: the exact bytes every value encodes to.
// ---------------------------------------------------------------------------

/// Wire image of a payload: the blob followed by its zero padding, or the
/// children's wire images in order (each child pads itself; nothing pads the
/// list as a whole).
pub open spec fn payload_wire(p: NlAttrPayload) -> Seq<u8>
    decreases p,
{
    match p {
        NlAttrPayload::Bin(v) => padded(v@),
        NlAttrPayload::Parsed(attrs) => attrs_wire(attrs@),
    }
}

/// Wire image of a run of attributes, in order.
pub open spec fn attrs_wire(s: Seq<NlAttrHdr>) -> Seq<u8>
    decreases s,
{
    if s.len() == 0 {
        Seq::empty()
    } else {
        attr_wire(s[0]) + attrs_wire(s.subrange(1, s.len() as int))
    }
}

/// Wire image of one attribute: declared length, type, payload image.
pub open spec fn attr_wire(a: NlAttrHdr) -> Seq<u8>
    decreases a,
{
    u16_le(a.nla_len) + u16_le(nla_code_spec(a.nla_type)) + payload_wire(a.payload)
}

/// Wire image of a message: command byte, version byte, reserved field,
/// attribute images in list order.
pub open spec fn genl_wire(h: GenlHdr) -> Seq<u8> {
    seq![cmd_code_spec(h.cmd), h.version] + u16_le(h.reserved) + attrs_wire(h.attrs@)
}

/// Every payload wire image is a multiple of 4 bytes long.
pub proof fn lemma_payload_wire_aligned(p: NlAttrPayload)
    ensures
        payload_wire(p).len() % 4 == 0,
    decreases p,
{
    match p {
        NlAttrPayload::Bin(v) => {
            lemma_aligned_size_props(v@.len() as int);
        },
        NlAttrPayload::Parsed(attrs) => {
            lemma_attrs_wire_aligned(attrs@);
        },
    }
}

/// The wire image of a run of attributes is a multiple of 4 bytes long.
pub proof fn lemma_attrs_wire_aligned(s: Seq<NlAttrHdr>)
    ensures
        attrs_wire(s).len() % 4 == 0,
    decreases s,
{
    if s.len() != 0 {
        lemma_payload_wire_aligned(s[0].payload);
        lemma_attrs_wire_aligned(s.subrange(1, s.len() as int));
        assert(attrs_wire(s) == attr_wire(s[0]) + attrs_wire(s.subrange(1, s.len() as int)));
        assert(attr_wire(s[0]) == u16_le(s[0].nla_len) + u16_le(nla_code_spec(s[0].nla_type))
            + payload_wire(s[0].payload));
    }
}

// ---------------------------------------------------------------------------
// The decode model: what any byte sequence decodes to.
// ---------------------------------------------------------------------------

/// Decoded form of one attribute: the declared length and type read from the
/// wire, and the payload bytes inside the declared-length window (padding
/// included).
#[verifier::ext_equal]
pub ghost struct AttrModel {
    pub len: u16,
    pub typ: NlaType,
    pub payload: Seq<u8>,
}

/// Decoded form of a message.
#[verifier::ext_equal]
pub ghost struct GenlModel {
    pub cmd: GenlCmds,
    pub version: u8,
    pub reserved: u16,
    pub attrs: Seq<AttrModel>,
}

/// Bytes a payload stores: the blob itself, or the nested list's wire image.
pub open spec fn payload_bytes(p: NlAttrPayload) -> Seq<u8> {
    match p {
        NlAttrPayload::Bin(v) => v@,
        NlAttrPayload::Parsed(attrs) => attrs_wire(attrs@),
    }
}

impl NlAttrHdr {
    /// Decoded-model view of this attribute.
    pub open spec fn model(&self) -> AttrModel {
        AttrModel { len: self.nla_len, typ: self.nla_type, payload: payload_bytes(self.payload) }
    }
}

/// Decoded-model views of a run of attributes.
pub open spec fn models_of(s: Seq<NlAttrHdr>) -> Seq<AttrModel> {
    s.map_values(|a: NlAttrHdr| a.model())
}

impl GenlHdr {
    /// Decoded-model view of this message.
    pub open spec fn model(&self) -> GenlModel {
        GenlModel {
            cmd: self.cmd,
            version: self.version,
            reserved: self.reserved,
            attrs: models_of(self.attrs@),
        }
    }
}

/// What decoding one attribute from the front of `bytes` yields: the model
/// and the number of bytes consumed, or the error. Fewer than 4 bytes is a
/// partial attribute; a declared length under 4 cannot hold its own header;
/// a declared length past the end of the input overruns it. The payload
/// window is the declared length minus the 4 header bytes, read exactly.
pub open spec fn dec_attr(bytes: Seq<u8>) -> Result<(AttrModel, int), DeError> {
    if bytes.len() < 4 {
        Err(DeError::Truncated)
    } else {
        let len = u16_of(bytes[0], bytes[1]);
        let typ = nla_of_code_spec(u16_of(bytes[2], bytes[3]));
        if len < 4 {
            Err(DeError::LengthMismatch)
        } else if bytes.len() < len {
            Err(DeError::Underrun)
        } else {
            Ok((AttrModel { len, typ, payload: bytes.subrange(4, len as int) }, len as int))
        }
    }
}

/// What decoding attributes until `bytes` is exhausted yields: all of them
/// in order, or the first error.
pub open spec fn dec_attrs(bytes: Seq<u8>) -> Result<Seq<AttrModel>, DeError>
    decreases bytes.len(),
{
    if bytes.len() == 0 {
        Ok(Seq::empty())
    } else {
        match dec_attr(bytes) {
            Ok(p) => match dec_attrs(bytes.subrange(p.1, bytes.len() as int)) {
                Ok(rest) => Ok(seq![p.0] + rest),
                Err(e) => Err(e),
            },
            Err(e) => Err(e),
        }
    }
}

/// What decoding a whole message yields: the three fixed fields, then
/// attributes until the input is exhausted.
pub open spec fn dec_genl(bytes: Seq<u8>) -> Result<GenlModel, DeError> {
    if bytes.len() < 4 {
        Err(DeError::Truncated)
    } else {
        match dec_attrs(bytes.subrange(4, bytes.len() as int)) {
            Ok(attrs) => Ok(
                GenlModel {
                    cmd: cmd_of_code_spec(bytes[0]),
                    version: bytes[1],
                    reserved: u16_of(bytes[2], bytes[3]),
                    attrs,
                },
            ),
            Err(e) => Err(e),
        }
    }
}

// ---------------------------------------------------------------------------
// Executable encoding.
// ---------------------------------------------------------------------------

/// Encode a run of attributes in order, appending each attribute's wire
/// image to the sink.
pub fn serialize_attr_list(attrs: &Vec<NlAttrHdr>, state: &mut NlSerState) -> (r: Result<
    (),
    SerError,
>)
    ensures
        r is Ok,
        final(state)@ == old(state)@ + attrs_wire(attrs@),
    decreases attrs@,
{
    let ghost base = state@;
    let ghost s = attrs@;
    let n = attrs.len();
    proof {
        assert(s.subrange(0, n as int) =~= s);
    }
    let mut i: usize = 0;
    while i < n
        invariant
            i <= n,
            n == s.len(),
            s == attrs@,
            base + attrs_wire(s) == state@ + attrs_wire(s.subrange(i as int, n as int)),
        decreases n - i,
    {
        proof {
            let suffix = s.subrange(i as int, n as int);
            assert(suffix.len() != 0);
            assert(suffix[0] == s[i as int]);
            assert(suffix.subrange(1, suffix.len() as int) =~= s.subrange(
                i as int + 1,
                n as int,
            ));
            assert(attrs_wire(suffix) == attr_wire(s[i as int]) + attrs_wire(
                s.subrange(i as int + 1, n as int),
            ));
        }
        let ghost before = state@;
        proof {
            assert(decreases_to!(attrs@ => attrs@[i as int]));
        }
        match attrs[i].serialize(state) {
            Ok(()) => {},
            Err(e) => {
                return Err(e);
            },
        }
        proof {
            assert(base + attrs_wire(s) == before + (attr_wire(s[i as int]) + attrs_wire(
                s.subrange(i as int + 1, n as int),
            )));
            assert(before + (attr_wire(s[i as int]) + attrs_wire(
                s.subrange(i as int + 1, n as int),
            )) =~= (before + attr_wire(s[i as int])) + attrs_wire(
                s.subrange(i as int + 1, n as int),
            ));
        }
        i = i + 1;
    }
    proof {
        assert(s.subrange(n as int, n as int) =~= Seq::<NlAttrHdr>::empty());
        assert(state@ + attrs_wire(s.subrange(n as int, n as int)) =~= state@);
        assert(base + attrs_wire(attrs@) =~= state@ + Seq::<u8>::empty() + attrs_wire(
            s.subrange(n as int, n as int),
        ));
    }
    Ok(())
}

impl NlAttrPayload {
    /// Encode this payload: the blob plus its zero padding, or each child in
    /// order.
    pub fn serialize(&self, state: &mut NlSerState) -> (r: Result<(), SerError>)
        ensures
            r is Ok,
            final(state)@ == old(state)@ + payload_wire(*self),
        decreases *self,
    {
        match self {
            NlAttrPayload::Bin(v) => {
                state.put_bytes_padded(v);
                Ok(())
            },
            NlAttrPayload::Parsed(attrs) => serialize_attr_list(attrs, state),
        }
    }
}

impl NlAttrHdr {
    /// Encode this attribute: declared length and type as stored (nothing is
    /// recomputed), then the payload.
    pub fn serialize(&self, state: &mut NlSerState) -> (r: Result<(), SerError>)
        ensures
            r is Ok,
            final(state)@ == old(state)@ + attr_wire(*self),
        decreases *self,
    {
        let ghost base = state@;
        state.put_u16(self.nla_len);
        state.put_u16(self.nla_type.code());
        let r = self.payload.serialize(state);
        proof {
            assert(state@ =~= base + attr_wire(*self));
        }
        r
    }
}

// ---------------------------------------------------------------------------
// Sizes and constructors.
// ---------------------------------------------------------------------------

/// Sum of the raw sizes of the attributes in `attrs`.
pub fn attrs_size(attrs: &Vec<NlAttrHdr>) -> (r: usize)
    requires
        attrs_raw_size(attrs@) <= usize::MAX,
    ensures
        r as int == attrs_raw_size(attrs@),
    decreases attrs@,
{
    let ghost s = attrs@;
    proof {
        assert(s.subrange(0, s.len() as int) =~= s);
    }
    let n = attrs.len();
    let mut total: usize = 0;
    let mut i: usize = 0;
    while i < n
        invariant
            i <= n,
            n == s.len(),
            s == attrs@,
            attrs_raw_size(s) <= usize::MAX,
            total as int + attrs_raw_size(s.subrange(i as int, n as int)) == attrs_raw_size(s),
        decreases n - i,
    {
        proof {
            let suffix = s.subrange(i as int, n as int);
            assert(suffix[0] == s[i as int]);
            assert(suffix.subrange(1, suffix.len() as int) =~= s.subrange(
                i as int + 1,
                n as int,
            ));
            assert(attrs_raw_size(suffix) == attr_raw_size(s[i as int]) + attrs_raw_size(
                s.subrange(i as int + 1, n as int),
            ));
            assert(attr_raw_size(s[i as int]) == 4 + payload_raw_size(s[i as int].payload));
            lemma_payload_raw_size_nonneg(s[i as int].payload);
            lemma_attrs_raw_size_nonneg(s.subrange(i as int + 1, n as int));
            assert(decreases_to!(attrs@ => attrs@[i as int]));
        }
        let sz = attrs[i].size();
        total = total + sz;
        i = i + 1;
    }
    proof {
        assert(s.subrange(n as int, n as int) =~= Seq::<NlAttrHdr>::empty());
    }
    total
}

impl NlAttrPayload {
    /// Logical content length: the blob's exact byte count as last set
    /// (independent of any padding written on the wire), or the sum of the
    /// children's raw sizes.
    pub fn size(&self) -> (r: usize)
        requires
            payload_raw_size(*self) <= usize::MAX,
        ensures
            r as int == payload_raw_size(*self),
        decreases *self,
    {
        match self {
            NlAttrPayload::Bin(v) => v.len(),
            NlAttrPayload::Parsed(attrs) => attrs_size(attrs),
        }
    }
}

impl NlAttrHdr {
    /// Raw size: the 4 fixed header bytes plus the payload's raw size.
    pub fn size(&self) -> (r: usize)
        requires
            attr_raw_size(*self) <= usize::MAX,
        ensures
            r as int == attr_raw_size(*self),
        decreases *self,
    {
        proof {
            lemma_payload_raw_size_nonneg(self.payload);
        }
        4 + self.payload.size()
    }

    /// Aligned size: the raw size rounded up to the next 4-byte boundary.
    pub fn asize(&self) -> (r: usize)
        requires
            attr_raw_size(*self) + 3 <= usize::MAX,
        ensures
            r as int == aligned_size_spec(attr_raw_size(*self)),
    {
        proof {
            lemma_payload_raw_size_nonneg(self.payload);
        }
        aligned_size(self.size())
    }

    /// Build an attribute. The declared length defaults to the attribute's
    /// own aligned size (truncated to 16 bits); a caller may override it,
    /// deliberately inconsistent lengths included, and whatever is stored is
    /// what encoding writes.
    pub fn new(nla_len: Option<u16>, nla_type: NlaType, payload: NlAttrPayload) -> (r: NlAttrHdr)
        requires
            payload_raw_size(payload) + 7 <= usize::MAX,
        ensures
            r.nla_type == nla_type,
            r.payload == payload,
            match nla_len {
                Some(l) => r.nla_len == l,
                None => r.nla_len as int == aligned_size_spec(4 + payload_raw_size(payload))
                    % 0x10000,
            },
    {
        proof {
            lemma_payload_raw_size_nonneg(payload);
        }
        let mut nla = NlAttrHdr { nla_len: 0, nla_type, payload };
        let a = nla.asize();
        nla.nla_len = match nla_len {
            Some(l) => l,
            None => (a % 0x10000) as u16,
        };
        nla
    }
}

impl Default for NlAttrHdr {
    /// Empty attribute: zero declared length, unspecified type, empty blob.
    fn default() -> (r: NlAttrHdr)
        ensures
            r.nla_len == 0,
            r.nla_type == NlaType::AttrUnspec,
            r.payload matches NlAttrPayload::Bin(v) && v@ == Seq::<u8>::empty(),
    {
        NlAttrHdr { nla_len: 0, nla_type: NlaType::AttrUnspec, payload: NlAttrPayload::Bin(Vec::new()) }
    }
}

impl Default for NlAttrPayload {
    /// Empty blob.
    fn default() -> (r: NlAttrPayload)
        ensures
            r matches NlAttrPayload::Bin(v) && v@ == Seq::<u8>::empty(),
    {
        NlAttrPayload::Bin(Vec::new())
    }
}

impl GenlHdr {
    /// Build a message. `reserved` is always zero here and is not
    /// application-settable through this constructor.
    pub fn new(cmd: GenlCmds, version: u8, attrs: Vec<NlAttrHdr>) -> (r: GenlHdr)
        ensures
            r.cmd == cmd,
            r.version == version,
            r.reserved == 0,
            r.attrs@ == attrs@,
    {
        GenlHdr { cmd, version, reserved: 0, attrs }
    }

    /// Raw size: the 4 fixed header bytes plus the attributes' raw sizes.
    /// The fixed fields are never padded; only attributes pad themselves.
    pub fn size(&self) -> (r: usize)
        requires
            genl_raw_size(*self) <= usize::MAX,
        ensures
            r as int == genl_raw_size(*self),
    {
        proof {
            lemma_attrs_raw_size_nonneg(self.attrs@);
        }
        4 + attrs_size(&self.attrs)
    }

    /// Raw size rounded up to the next 4-byte boundary.
    pub fn asize(&self) -> (r: usize)
        requires
            genl_raw_size(*self) + 3 <= usize::MAX,
        ensures
            r as int == aligned_size_spec(genl_raw_size(*self)),
    {
        proof {
            lemma_attrs_raw_size_nonneg(self.attrs@);
        }
        aligned_size(self.size())
    }
}

impl Default for GenlHdr {
    /// Empty message: unspecified command, zero version, no attributes.
    fn default() -> (r: GenlHdr)
        ensures
            r.cmd == GenlCmds::CmdUnspec,
            r.version == 0,
            r.reserved == 0,
            r.attrs@ == Seq::<NlAttrHdr>::empty(),
    {
        GenlHdr { cmd: GenlCmds::CmdUnspec, version: 0, reserved: 0, attrs: Vec::new() }
    }
}

impl GenlHdr {
    /// Encode this message: the three fixed fields, then every attribute in
    /// list order. Always succeeds on the in-memory sink; a failure of a
    /// nested encode would be propagated unchanged.
    pub fn serialize(&self, state: &mut NlSerState) -> (r: Result<(), SerError>)
        ensures
            r is Ok,
            final(state)@ == old(state)@ + genl_wire(*self),
    {
        let ghost base = state@;
        state.put_u8(self.cmd.code());
        state.put_u8(self.version);
        state.put_u16(self.reserved);
        let r = serialize_attr_list(&self.attrs, state);
        proof {
            assert(state@ =~= base + genl_wire(*self));
        }
        r
    }
}

// ---------------------------------------------------------------------------
// Executable decoding.
// ---------------------------------------------------------------------------

impl NlAttrPayload {
    /// Decode a payload bounded to `budget` bytes: always a `Bin` holding
    /// exactly those bytes (no nested reinterpretation happens here), or
    /// `Underrun` when fewer than `budget` bytes remain.
    pub fn deserialize(state: &mut NlDeState, budget: usize) -> (r: Result<NlAttrPayload, DeError>)
        requires
            old(state).wf(),
        ensures
            final(state).bytes() == old(state).bytes(),
            final(state).wf(),
            old(state).remaining().len() >= budget ==> {
                &&& r matches Ok(p) && p matches NlAttrPayload::Bin(v) && v@ == old(
                    state,
                ).remaining().subrange(0, budget as int)
                &&& final(state).pos() == old(state).pos() + budget
            },
            old(state).remaining().len() < budget ==> {
                &&& r == Err::<NlAttrPayload, DeError>(DeError::Underrun)
                &&& final(state).pos() == old(state).pos()
            },
    {
        match state.take_bytes(budget) {
            Some(v) => Ok(NlAttrPayload::Bin(v)),
            None => Err(DeError::Underrun),
        }
    }
}

impl NlAttrHdr {
    /// Decode one attribute from the cursor: declared length, type, then the
    /// payload bounded to the declared length minus the 4 header bytes. The
    /// result and the bytes consumed are exactly what `dec_attr` gives on the
    /// unread input.
    pub fn deserialize(state: &mut NlDeState) -> (r: Result<NlAttrHdr, DeError>)
        requires
            old(state).wf(),
        ensures
            final(state).bytes() == old(state).bytes(),
            final(state).wf(),
            match r {
                Ok(a) => {
                    &&& dec_attr(old(state).remaining()) matches Ok(p) && a.model() == p.0
                        && final(state).pos() == old(state).pos() + p.1
                    &&& a.payload matches NlAttrPayload::Bin(_)
                },
                Err(e) => dec_attr(old(state).remaining()) == Err::<(AttrModel, int), DeError>(e),
            },
    {
        let ghost rem = old(state).remaining();
        let len = match state.take_u16() {
            Some(x) => x,
            None => {
                return Err(DeError::Truncated);
            },
        };
        let ghost rem2 = state.remaining();
        proof {
            assert(rem2 =~= rem.subrange(2, rem.len() as int));
        }
        let typ = match state.take_u16() {
            Some(x) => x,
            None => {
                return Err(DeError::Truncated);
            },
        };
        let ghost rem4 = state.remaining();
        proof {
            assert(rem4 =~= rem.subrange(4, rem.len() as int));
            assert(rem2[0] == rem[2]);
            assert(rem2[1] == rem[3]);
        }
        if len < 4 {
            return Err(DeError::LengthMismatch);
        }
        let budget = (len - 4) as usize;
        match NlAttrPayload::deserialize(state, budget) {
            Ok(p) => {
                proof {
                    assert(rem4.len() >= budget);
                    assert(rem4.subrange(0, budget as int) =~= rem.subrange(4, len as int));
                }
                let a = NlAttrHdr { nla_len: len, nla_type: NlaType::from_code(typ), payload: p };
                proof {
                    let m = AttrModel {
                        len,
                        typ: nla_of_code_spec(u16_of(rem[2], rem[3])),
                        payload: rem.subrange(4, len as int),
                    };
                    assert(dec_attr(rem) == Ok::<(AttrModel, int), DeError>((m, len as int)));
                    assert(a.model() =~= m);
                }
                Ok(a)
            },
            Err(e) => {
                proof {
                    assert(rem4.len() < budget);
                    assert(rem.len() < len);
                }
                Err(e)
            },
        }
    }
}

/// Decode attributes from the cursor until the input is exhausted: all of
/// them in order, or the first error. A partial attribute at the end of the
/// input fails with `Truncated`; every decoded payload is a `Bin`.
pub fn deserialize_attr_list(state: &mut NlDeState) -> (r: Result<Vec<NlAttrHdr>, DeError>)
    requires
        old(state).wf(),
    ensures
        final(state).bytes() == old(state).bytes(),
        final(state).wf(),
        match r {
            Ok(v) => {
                &&& dec_attrs(old(state).remaining()) == Ok::<Seq<AttrModel>, DeError>(
                    models_of(v@),
                )
                &&& final(state).pos() == final(state).bytes().len()
                &&& forall|i: int|
                    0 <= i < v@.len() ==> (#[trigger] v@[i]).payload matches NlAttrPayload::Bin(_)
            },
            Err(e) => dec_attrs(old(state).remaining()) == Err::<Seq<AttrModel>, DeError>(e),
        },
{
    let ghost rem0 = old(state).remaining();
    let mut out: Vec<NlAttrHdr> = Vec::new();
    proof {
        assert(models_of(out@) =~= Seq::<AttrModel>::empty());
    }
    loop
        invariant
            state.wf(),
            state.bytes() == old(state).bytes(),
            rem0 == old(state).remaining(),
            dec_attrs(rem0) == (match dec_attrs(state.remaining()) {
                Ok(rest) => Ok::<Seq<AttrModel>, DeError>(models_of(out@) + rest),
                Err(e) => Err::<Seq<AttrModel>, DeError>(e),
            }),
            forall|i: int|
                0 <= i < out@.len() ==> (#[trigger] out@[i]).payload matches NlAttrPayload::Bin(_),
        decreases state.bytes().len() - state.pos(),
    {
        if state.position() >= state.len() {
            proof {
                assert(state.remaining() =~= Seq::<u8>::empty());
                assert(dec_attrs(state.remaining()) == Ok::<Seq<AttrModel>, DeError>(
                    Seq::empty(),
                ));
                assert(models_of(out@) + Seq::<AttrModel>::empty() =~= models_of(out@));
            }
            return Ok(out);
        }
        let ghost cur = state.remaining();
        match NlAttrHdr::deserialize(state) {
            Ok(a) => {
                proof {
                    let p = dec_attr(cur)->Ok_0;
                    assert(cur.len() > 0);
                    assert(state.remaining() =~= cur.subrange(p.1, cur.len() as int));
                    assert(dec_attrs(cur) == (match dec_attrs(state.remaining()) {
                        Ok(rest) => Ok::<Seq<AttrModel>, DeError>(seq![p.0] + rest),
                        Err(e) => Err::<Seq<AttrModel>, DeError>(e),
                    }));
                    assert(models_of(out@.push(a)) =~= models_of(out@) + seq![a.model()]);
                }
                let ghost prev = out@;
                out.push(a);
                proof {
                    if let Ok(rest) = dec_attrs(state.remaining()) {
                        assert((models_of(prev) + seq![a.model()]) + rest =~= models_of(prev) + (
                        seq![a.model()] + rest));
                    }
                }
            },
            Err(e) => {
                proof {
                    assert(cur.len() > 0);
                    assert(dec_attrs(cur) == Err::<Seq<AttrModel>, DeError>(e));
                }
                return Err(e);
            },
        }
    }
}

impl GenlHdr {
    /// Decode a message from the cursor: command, version, reserved, then
    /// attributes until the input is exhausted. The result is exactly what
    /// `dec_genl` gives on the unread input; on success the whole input has
    /// been consumed and every attribute's payload is a `Bin`.
    pub fn deserialize(state: &mut NlDeState) -> (r: Result<GenlHdr, DeError>)
        requires
            old(state).wf(),
        ensures
            final(state).bytes() == old(state).bytes(),
            final(state).wf(),
            match r {
                Ok(g) => {
                    &&& dec_genl(old(state).remaining()) == Ok::<GenlModel, DeError>(g.model())
                    &&& final(state).pos() == final(state).bytes().len()
                    &&& forall|i: int|
                        0 <= i < g.attrs@.len() ==> (
                        #[trigger] g.attrs@[i]).payload matches NlAttrPayload::Bin(_)
                },
                Err(e) => dec_genl(old(state).remaining()) == Err::<GenlModel, DeError>(e),
            },
    {
        let ghost rem = old(state).remaining();
        let cmd = match state.take_u8() {
            Some(x) => x,
            None => {
                return Err(DeError::Truncated);
            },
        };
        let ghost rem1 = state.remaining();
        proof {
            assert(rem1 =~= rem.subrange(1, rem.len() as int));
        }
        let version = match state.take_u8() {
            Some(x) => x,
            None => {
                return Err(DeError::Truncated);
            },
        };
        let ghost rem2 = state.remaining();
        proof {
            assert(rem2 =~= rem.subrange(2, rem.len() as int));
            assert(rem1[0] == rem[1]);
        }
        let reserved = match state.take_u16() {
            Some(x) => x,
            None => {
                return Err(DeError::Truncated);
            },
        };
        let ghost rem4 = state.remaining();
        proof {
            assert(rem4 =~= rem.subrange(4, rem.len() as int));
            assert(rem2[0] == rem[2]);
            assert(rem2[1] == rem[3]);
        }
        match deserialize_attr_list(state) {
            Ok(attrs) => {
                let g = GenlHdr { cmd: GenlCmds::from_code(cmd), version, reserved, attrs };
                proof {
                    let m = GenlModel {
                        cmd: cmd_of_code_spec(rem[0]),
                        version: rem[1],
                        reserved: u16_of(rem[2], rem[3]),
                        attrs: models_of(g.attrs@),
                    };
                    assert(dec_genl(rem) == Ok::<GenlModel, DeError>(m));
                    assert(g.model() =~= m);
                }
                Ok(g)
            },
            Err(e) => Err(e),
        }
    }
}

// ---------------------------------------------------------------------------
// Structural equality, recursing through the payload tree.
// ---------------------------------------------------------------------------

/// What `==` means on payloads: same variant, equal blob bytes or equal
/// children element by element.
pub open spec fn payload_eq_spec(p: NlAttrPayload, q: NlAttrPayload) -> bool
    decreases p,
{
    match (p, q) {
        (NlAttrPayload::Bin(a), NlAttrPayload::Bin(b)) => a@ == b@,
        (NlAttrPayload::Parsed(a), NlAttrPayload::Parsed(b)) => attrs_eq_spec(a@, b@),
        _ => false,
    }
}

/// What `==` means on attribute runs: equal length and equal attributes
/// element by element.
pub open spec fn attrs_eq_spec(s1: Seq<NlAttrHdr>, s2: Seq<NlAttrHdr>) -> bool
    decreases s1,
{
    s1.len() == s2.len() && (forall|i: int|
        0 <= i < s1.len() ==> attr_eq_spec(#[trigger] s1[i], s2[i]))
}

/// What `==` means on attributes: equal declared length, type and payload.
pub open spec fn attr_eq_spec(a: NlAttrHdr, b: NlAttrHdr) -> bool
    decreases a,
{
    a.nla_len == b.nla_len && a.nla_type == b.nla_type && payload_eq_spec(a.payload, b.payload)
}

/// What `==` means on messages: all four fields equal.
pub open spec fn genl_eq_spec(g: GenlHdr, h: GenlHdr) -> bool {
    g.cmd == h.cmd && g.version == h.version && g.reserved == h.reserved && attrs_eq_spec(
        g.attrs@,
        h.attrs@,
    )
}

/// Compare two payloads; the recursion into nested lists carries its own
/// termination measure, which the `PartialEq` impls cannot.
fn payload_eq(p: &NlAttrPayload, q: &NlAttrPayload) -> (r: bool)
    ensures
        r == payload_eq_spec(*p, *q),
    decreases *p,
{
    match (p, q) {
        (NlAttrPayload::Bin(a), NlAttrPayload::Bin(b)) => {
            let r = a == b;
            proof {
                if r {
                    assert(a@ =~= b@);
                }
            }
            r
        },
        (NlAttrPayload::Parsed(a), NlAttrPayload::Parsed(b)) => attrs_eq(a, b),
        _ => {
            proof {
                assert(!payload_eq_spec(*p, *q));
            }
            false
        },
    }
}

/// Compare two attribute runs element by element.
fn attrs_eq(v1: &Vec<NlAttrHdr>, v2: &Vec<NlAttrHdr>) -> (r: bool)
    ensures
        r == attrs_eq_spec(v1@, v2@),
    decreases v1@,
{
    if v1.len() != v2.len() {
        return false;
    }
    let n = v1.len();
    let mut i: usize = 0;
    while i < n
        invariant
            i <= n,
            n == v1@.len(),
            n == v2@.len(),
            forall|k: int| 0 <= k < i ==> attr_eq_spec(#[trigger] v1@[k], v2@[k]),
        decreases n - i,
    {
        proof {
            assert(decreases_to!(v1@ => v1@[i as int]));
        }
        if !attr_eq(&v1[i], &v2[i]) {
            return false;
        }
        i = i + 1;
    }
    true
}

/// Compare two attributes field by field.
fn attr_eq(a: &NlAttrHdr, b: &NlAttrHdr) -> (r: bool)
    ensures
        r == attr_eq_spec(*a, *b),
    decreases *a,
{
    a.nla_len == b.nla_len && a.nla_type == b.nla_type && payload_eq(&a.payload, &b.payload)
}

impl PartialEq for NlAttrPayload {
    fn eq(&self, other: &Self) -> (r: bool) {
        payload_eq(self, other)
    }
}

impl vstd::std_specs::cmp::PartialEqSpecImpl for NlAttrPayload {
    open spec fn obeys_eq_spec() -> bool {
        true
    }

    open spec fn eq_spec(&self, other: &Self) -> bool {
        payload_eq_spec(*self, *other)
    }
}

impl PartialEq for NlAttrHdr {
    fn eq(&self, other: &Self) -> (r: bool) {
        attr_eq(self, other)
    }
}

impl vstd::std_specs::cmp::PartialEqSpecImpl for NlAttrHdr {
    open spec fn obeys_eq_spec() -> bool {
        true
    }

    open spec fn eq_spec(&self, other: &Self) -> bool {
        attr_eq_spec(*self, *other)
    }
}

impl PartialEq for GenlHdr {
    fn eq(&self, other: &Self) -> (r: bool) {
        self.cmd == other.cmd && self.version == other.version && self.reserved == other.reserved
            && attrs_eq(&self.attrs, &other.attrs)
    }
}

impl vstd::std_specs::cmp::PartialEqSpecImpl for GenlHdr {
    open spec fn obeys_eq_spec() -> bool {
        true
    }

    open spec fn eq_spec(&self, other: &Self) -> bool {
        genl_eq_spec(*self, *other)
    }
}

impl NlAttrPayload {
    /// Reinterpret this payload as a nested attribute list: a `Parsed` list
    /// is handed back as it stands, and a `Bin` blob's bytes are re-fed
    /// through the attribute decode loop. Decoding never nests on its own;
    /// callers opt in per attribute type by calling this.
    pub fn parse_nested(self) -> (r: Result<Vec<NlAttrHdr>, DeError>)
        ensures
            match self {
                NlAttrPayload::Parsed(attrs) => r matches Ok(v) && v@ == attrs@,
                NlAttrPayload::Bin(bytes) => match dec_attrs(bytes@) {
                    Ok(ms) => r matches Ok(v) && models_of(v@) == ms && (forall|i: int|
                        0 <= i < v@.len() ==> (
                        #[trigger] v@[i]).payload matches NlAttrPayload::Bin(_)),
                    Err(e) => r == Err::<Vec<NlAttrHdr>, DeError>(e),
                },
            },
    {
        match self {
            NlAttrPayload::Parsed(attrs) => Ok(attrs),
            NlAttrPayload::Bin(bytes) => {
                let mut st = NlDeState::new(bytes.as_slice());
                proof {
                    assert(st.remaining() =~= bytes@);
                }
                deserialize_attr_list(&mut st)
            },
        }
    }
}

} // verus!
