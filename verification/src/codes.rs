//! Command and attribute-type code enumerations. Unrecognized wire integers
//! round-trip through an explicit variant carrying the raw value, so codes the
//! kernel adds later still decode.

use vstd::prelude::*;

verus! {

/// Generic-family command codes. `CmdUnspec` is the wire value 0,
/// `CmdGetops` the conventional wire value 3; every other wire value is kept
/// verbatim in `CmdUnrecognized`.
#[derive(Debug, Clone, Copy, PartialEq, Eq, Structural)]
pub enum GenlCmds {
    CmdUnspec,
    CmdGetops,
    CmdUnrecognized(u8),
}

/// Attribute type codes. `AttrUnspec` is the wire value 0, `AttrFamilyId`
/// the wire value 1; every other wire value is kept verbatim in
/// `AttrUnrecognized`.
#[derive(Debug, Clone, Copy, PartialEq, Eq, Structural)]
pub enum NlaType {
    AttrUnspec,
    AttrFamilyId,
    AttrUnrecognized(u16),
}

/// Wire byte of a command.
pub open spec fn cmd_code_spec(c: GenlCmds) -> u8 {
    match c {
        GenlCmds::CmdUnspec => 0,
        GenlCmds::CmdGetops => 3,
        GenlCmds::CmdUnrecognized(x) => x,
    }
}

/// Command decoded from a wire byte.
pub open spec fn cmd_of_code_spec(x: u8) -> GenlCmds {
    if x == 0 {
        GenlCmds::CmdUnspec
    } else if x == 3 {
        GenlCmds::CmdGetops
    } else {
        GenlCmds::CmdUnrecognized(x)
    }
}

/// A command is canonical when re-decoding its wire byte gives it back:
/// every named variant is, and `CmdUnrecognized(x)` is unless `x` collides
/// with a named variant's code.
pub open spec fn cmd_canonical(c: GenlCmds) -> bool {
    cmd_of_code_spec(cmd_code_spec(c)) == c
}

/// Wire integer of an attribute type.
pub open spec fn nla_code_spec(t: NlaType) -> u16 {
    match t {
        NlaType::AttrUnspec => 0,
        NlaType::AttrFamilyId => 1,
        NlaType::AttrUnrecognized(x) => x,
    }
}

/// Attribute type decoded from a wire integer.
pub open spec fn nla_of_code_spec(x: u16) -> NlaType {
    if x == 0 {
        NlaType::AttrUnspec
    } else if x == 1 {
        NlaType::AttrFamilyId
    } else {
        NlaType::AttrUnrecognized(x)
    }
}

/// An attribute type is canonical when re-decoding its wire integer gives it
/// back.
pub open spec fn nla_canonical(t: NlaType) -> bool {
    nla_of_code_spec(nla_code_spec(t)) == t
}

impl GenlCmds {
    /// Wire byte of this command.
    pub fn code(&self) -> (r: u8)
        ensures
            r == cmd_code_spec(*self),
    {
        match self {
            GenlCmds::CmdUnspec => 0,
            GenlCmds::CmdGetops => 3,
            GenlCmds::CmdUnrecognized(x) => *x,
        }
    }

    /// Command carried by a wire byte; an unrecognized byte is kept verbatim.
    pub fn from_code(x: u8) -> (r: GenlCmds)
        ensures
            r == cmd_of_code_spec(x),
    {
        if x == 0 {
            GenlCmds::CmdUnspec
        } else if x == 3 {
            GenlCmds::CmdGetops
        } else {
            GenlCmds::CmdUnrecognized(x)
        }
    }
}

impl NlaType {
    /// Wire integer of this attribute type.
    pub fn code(&self) -> (r: u16)
        ensures
            r == nla_code_spec(*self),
    {
        match self {
            NlaType::AttrUnspec => 0,
            NlaType::AttrFamilyId => 1,
            NlaType::AttrUnrecognized(x) => *x,
        }
    }

    /// Attribute type carried by a wire integer; an unrecognized integer is
    /// kept verbatim.
    pub fn from_code(x: u16) -> (r: NlaType)
        ensures
            r == nla_of_code_spec(x),
    {
        if x == 0 {
            NlaType::AttrUnspec
        } else if x == 1 {
            NlaType::AttrFamilyId
        } else {
            NlaType::AttrUnrecognized(x)
        }
    }
}

} // verus!
