use vstd::prelude::*;

use crate::bytes::{be32, be32_at, get_bytes32, get_u32, lemma_be_roundtrip, push_bytes32, push_u32};
use crate::error::{message, BlockError};
use crate::bytes::byte_len;
use crate::types::{law_var_uint_roundtrip, lemma_var_uint_lengths, parse_var_uint, var_uint_bytes, Grams, UInt256, GRAMS_MAX};

verus! {

/// Tag of the action that sends a message.
pub const ACTION_SEND_MSG: u32 = 0x0ec3c86d;

/// Tag of the action that sets new code.
pub const ACTION_SET_CODE: u32 = 0xad4de08e;

/// Tag of the action that reserves a part of the balance.
pub const ACTION_RESERVE: u32 = 0x36e6b809;

/// Tag of the action that changes a library.
pub const ACTION_CHANGE_LIB: u32 = 0x26fa1dd4;

/// Tag of the action that pays a copyleft reward.
pub const ACTION_COPYLEFT: u32 = 0x24486f7a;

/// An output action of a smart contract. The cells it refers to (the message, the code, the
/// dictionary of other currencies, the library code) are known by their representation hashes.
#[derive(Clone, Copy, Debug, PartialEq, Eq)]
pub enum OutAction {
    /// Send the message in the referred cell.
    SendMsg { mode: u8, out_msg: UInt256 },
    /// Set the code in the referred cell.
    SetCode { new_code: UInt256 },
    /// Reserve nanograms, and the other currencies of the referred dictionary if any.
    ReserveCurrency { mode: u8, grams: Grams, other: Option<UInt256> },
    /// Change a library: by the hash of its code when the low bit of the mode is clear, else by
    /// the referred code cell.
    ChangeLibrary { mode: u8, code: Option<UInt256>, hash: Option<UInt256> },
    /// Pay a copyleft reward to an address.
    CopyLeft { license: u8, address: UInt256 },
    /// No action.
    NoAction,
}

/// An output action with hashes and amounts as plain values.
pub enum OutActionModel {
    SendMsg { mode: u8, out_msg: Seq<u8> },
    SetCode { new_code: Seq<u8> },
    ReserveCurrency { mode: u8, grams: nat, other: Option<Seq<u8>> },
    ChangeLibrary { mode: u8, code: Option<Seq<u8>>, hash: Option<Seq<u8>> },
    CopyLeft { license: u8, address: Seq<u8> },
    NoAction,
}

/// The bytes of an optional hash.
pub open spec fn opt_hash(h: Option<UInt256>) -> Option<Seq<u8>> {
    match h {
        Some(v) => Some(v@),
        None => None,
    }
}

impl View for OutAction {
    type V = OutActionModel;

    open spec fn view(&self) -> OutActionModel {
        match *self {
            OutAction::SendMsg { mode, out_msg } => OutActionModel::SendMsg { mode, out_msg: out_msg@ },
            OutAction::SetCode { new_code } => OutActionModel::SetCode { new_code: new_code@ },
            OutAction::ReserveCurrency { mode, grams, other } => OutActionModel::ReserveCurrency {
                mode,
                grams: grams@,
                other: opt_hash(other),
            },
            OutAction::ChangeLibrary { mode, code, hash } => OutActionModel::ChangeLibrary {
                mode,
                code: opt_hash(code),
                hash: opt_hash(hash),
            },
            OutAction::CopyLeft { license, address } => OutActionModel::CopyLeft { license, address: address@ },
            OutAction::NoAction => OutActionModel::NoAction,
        }
    }
}

impl Default for OutAction {
    fn default() -> (r: Self)
        ensures
            r@ == OutActionModel::NoAction,
    {
        OutAction::NoAction
    }
}

/// The stored form of an action: its data bytes and the hashes of the cells it refers to.
#[derive(Clone, Debug, PartialEq, Eq)]
pub struct OutActionCell {
    pub data: Vec<u8>,
    pub refs: Vec<UInt256>,
}

/// The hashes of referred cells as bytes.
pub open spec fn ref_hashes(refs: Seq<UInt256>) -> Seq<Seq<u8>> {
    refs.map_values(|h: UInt256| h@)
}

/// The action that stored data and referred cells read as, or `None` when they do not read:
/// a tag, then per tag the mode byte and the referred message; the referred code; the mode byte,
/// the nanograms (at most 15 bytes), and a byte 0 or 1 that says whether a dictionary of other
/// currencies is referred; the mode byte and, as its low bit is clear or set, a 32-byte hash or
/// a referred code cell; the license byte and a 32-byte address. What follows is not read.
pub open spec fn parse_out_action(data: Seq<u8>, refs: Seq<Seq<u8>>) -> Option<OutActionModel> {
    if data.len() < 4 {
        None
    } else {
        let tag = be32_at(data, 0);
        if tag == ACTION_SEND_MSG {
            if data.len() >= 5 && refs.len() >= 1 {
                Some(OutActionModel::SendMsg { mode: data[4], out_msg: refs[0] })
            } else {
                None
            }
        } else if tag == ACTION_SET_CODE {
            if refs.len() >= 1 {
                Some(OutActionModel::SetCode { new_code: refs[0] })
            } else {
                None
            }
        } else if tag == ACTION_RESERVE {
            if data.len() < 5 {
                None
            } else {
                match parse_var_uint(data, 5, 15) {
                    Some((g, p)) => if p < data.len() && data[p] == 0 {
                        Some(OutActionModel::ReserveCurrency { mode: data[4], grams: g, other: None })
                    } else if p < data.len() && data[p] == 1 && refs.len() >= 1 {
                        Some(OutActionModel::ReserveCurrency { mode: data[4], grams: g, other: Some(refs[0]) })
                    } else {
                        None
                    },
                    None => None,
                }
            }
        } else if tag == ACTION_CHANGE_LIB {
            if data.len() < 5 {
                None
            } else if data[4] & 1 == 0 {
                if data.len() >= 37 {
                    Some(OutActionModel::ChangeLibrary { mode: data[4], code: None, hash: Some(data.subrange(5, 37)) })
                } else {
                    None
                }
            } else if refs.len() >= 1 {
                Some(OutActionModel::ChangeLibrary { mode: data[4], code: Some(refs[0]), hash: None })
            } else {
                None
            }
        } else if tag == ACTION_COPYLEFT {
            if data.len() >= 37 {
                Some(OutActionModel::CopyLeft { license: data[4], address: data.subrange(5, 37) })
            } else {
                None
            }
        } else {
            None
        }
    }
}

/// The tag is none of the five action tags.
pub open spec fn unknown_action_tag(tag: u32) -> bool {
    tag != ACTION_SEND_MSG && tag != ACTION_SET_CODE && tag != ACTION_RESERVE && tag != ACTION_CHANGE_LIB
        && tag != ACTION_COPYLEFT
}


/// The stored data of an action, in the layout that `parse_out_action` reads.
pub open spec fn out_action_data(m: OutActionModel) -> Seq<u8> {
    match m {
        OutActionModel::SendMsg { mode, .. } => be32(ACTION_SEND_MSG) + seq![mode],
        OutActionModel::SetCode { .. } => be32(ACTION_SET_CODE),
        OutActionModel::ReserveCurrency { mode, grams, other } => be32(ACTION_RESERVE) + seq![mode]
            + var_uint_bytes(grams) + seq![if other is Some { 1u8 } else { 0u8 }],
        OutActionModel::ChangeLibrary { mode, hash, .. } => be32(ACTION_CHANGE_LIB) + seq![mode] + match hash {
            Some(h) => h,
            None => Seq::empty(),
        },
        OutActionModel::CopyLeft { license, address } => be32(ACTION_COPYLEFT) + seq![license] + address,
        OutActionModel::NoAction => Seq::empty(),
    }
}

/// The hashes of the cells that a stored action refers to.
pub open spec fn out_action_refs(m: OutActionModel) -> Seq<Seq<u8>> {
    match m {
        OutActionModel::SendMsg { out_msg, .. } => seq![out_msg],
        OutActionModel::SetCode { new_code } => seq![new_code],
        OutActionModel::ReserveCurrency { other, .. } => match other {
            Some(o) => seq![o],
            None => Seq::empty(),
        },
        OutActionModel::ChangeLibrary { code, .. } => match code {
            Some(c) => seq![c],
            None => Seq::empty(),
        },
        _ => Seq::empty(),
    }
}

/// An action that reads back as itself once stored: not the empty action, hashes of 32 bytes,
/// an amount within the nanogram limit, and a library change that gives the hash exactly when
/// the low bit of its mode is clear and the code exactly when it is set.
pub open spec fn action_well_formed(m: OutActionModel) -> bool {
    match m {
        OutActionModel::SendMsg { out_msg, .. } => out_msg.len() == 32,
        OutActionModel::SetCode { new_code } => new_code.len() == 32,
        OutActionModel::ReserveCurrency { grams, other, .. } => grams <= GRAMS_MAX && match other {
            Some(o) => o.len() == 32,
            None => true,
        },
        OutActionModel::ChangeLibrary { mode, code, hash } => if mode & 1 == 0 {
            code is None && (hash matches Some(h) && h.len() == 32)
        } else {
            hash is None && (code matches Some(c) && c.len() == 32)
        },
        OutActionModel::CopyLeft { address, .. } => address.len() == 32,
        OutActionModel::NoAction => false,
    }
}

/// Storing a well-formed action and reading it back gives the action back.
pub proof fn law_out_action_roundtrip(m: OutActionModel)
    requires
        action_well_formed(m),
    ensures
        parse_out_action(out_action_data(m), out_action_refs(m)) == Some(m),
{
    let d = out_action_data(m);
    let tag = be32_at(d, 0);
    match m {
        OutActionModel::SendMsg { mode, .. } => {
            lemma_be_roundtrip(Seq::empty(), seq![mode], 0, ACTION_SEND_MSG, 0);
            assert(d =~= Seq::<u8>::empty() + be32(ACTION_SEND_MSG) + seq![mode]);
        },
        OutActionModel::SetCode { .. } => {
            lemma_be_roundtrip(Seq::empty(), Seq::empty(), 0, ACTION_SET_CODE, 0);
            assert(d =~= Seq::<u8>::empty() + be32(ACTION_SET_CODE) + Seq::<u8>::empty());
        },
        OutActionModel::ReserveCurrency { mode, grams, other } => {
            let flag: Seq<u8> = seq![if other is Some { 1u8 } else { 0u8 }];
            lemma_be_roundtrip(Seq::empty(), seq![mode] + var_uint_bytes(grams) + flag, 0, ACTION_RESERVE, 0);
            assert(d =~= Seq::<u8>::empty() + be32(ACTION_RESERVE) + (seq![mode] + var_uint_bytes(grams) + flag));
            lemma_var_uint_lengths(grams);
            law_var_uint_roundtrip(grams, 15, be32(ACTION_RESERVE) + seq![mode], flag);
            assert(d =~= be32(ACTION_RESERVE) + seq![mode] + var_uint_bytes(grams) + flag);
            assert(d[4] == mode);
            assert(d[(6 + byte_len(grams)) as int] == flag[0]);
        },
        OutActionModel::ChangeLibrary { mode, code, hash } => {
            let rest: Seq<u8> = match hash {
                Some(h) => h,
                None => Seq::empty(),
            };
            lemma_be_roundtrip(Seq::empty(), seq![mode] + rest, 0, ACTION_CHANGE_LIB, 0);
            assert(d =~= Seq::<u8>::empty() + be32(ACTION_CHANGE_LIB) + (seq![mode] + rest));
            assert(d[4] == mode);
            assert(d.subrange(5, 5 + rest.len() as int) =~= rest);
        },
        OutActionModel::CopyLeft { license, address } => {
            lemma_be_roundtrip(Seq::empty(), seq![license] + address, 0, ACTION_COPYLEFT, 0);
            assert(d =~= Seq::<u8>::empty() + be32(ACTION_COPYLEFT) + (seq![license] + address));
            assert(d[4] == license);
            assert(d.subrange(5, 37) =~= address);
        },
        OutActionModel::NoAction => {},
    }
}

impl OutAction {
    /// Reads a stored action. Fails, changing nothing, when the data does not read: with
    /// `InvalidArg` when it is shorter than a tag, and with `InvalidConstructorTag` carrying the
    /// tag when the tag is unknown.
    pub fn read_from(&mut self, cell: &OutActionCell) -> (r: Result<(), BlockError>)
        ensures
            r is Ok <==> parse_out_action(cell.data@, ref_hashes(cell.refs@)) is Some,
            r is Ok ==> Some(final(self)@) == parse_out_action(cell.data@, ref_hashes(cell.refs@)),
            r is Err ==> *final(self) == *old(self),
            cell.data@.len() < 4 ==> r matches Err(BlockError::InvalidArg(_)),
            cell.data@.len() >= 4 && unknown_action_tag(be32_at(cell.data@, 0)) ==> (r matches Err(
                BlockError::InvalidConstructorTag { t, .. },
            ) && t == be32_at(cell.data@, 0)),
    {
        let data = cell.data.as_slice();
        let refs = &cell.refs;
        let ghost hs = ref_hashes(refs@);
        if data.len() < 4 {
            return Err(BlockError::InvalidArg(message("cell can't be shorter than 32 bits")));
        }
        let tag = get_u32(data, 0);
        if tag == ACTION_SEND_MSG {
            if data.len() < 5 || refs.len() < 1 {
                return Err(BlockError::InvalidData(message("cell underflow")));
            }
            *self = OutAction::SendMsg { mode: data[4], out_msg: refs[0] };
        } else if tag == ACTION_SET_CODE {
            if refs.len() < 1 {
                return Err(BlockError::InvalidData(message("cell underflow")));
            }
            *self = OutAction::SetCode { new_code: refs[0] };
        } else if tag == ACTION_RESERVE {
            if data.len() < 5 {
                return Err(BlockError::InvalidData(message("cell underflow")));
            }
            let mode = data[4];
            let mut grams = Grams::zero();
            let mut pos: usize = 5;
            grams.read_from(data, &mut pos)?;
            if pos >= data.len() {
                return Err(BlockError::InvalidData(message("cell underflow")));
            }
            let flag = data[pos];
            if flag == 0 {
                *self = OutAction::ReserveCurrency { mode, grams, other: None };
            } else if flag == 1 && refs.len() >= 1 {
                *self = OutAction::ReserveCurrency { mode, grams, other: Some(refs[0]) };
            } else {
                return Err(BlockError::InvalidData(message("bad dictionary of other currencies")));
            }
        } else if tag == ACTION_CHANGE_LIB {
            if data.len() < 5 {
                return Err(BlockError::InvalidData(message("cell underflow")));
            }
            let mode = data[4];
            if mode & 1 == 0 {
                if data.len() < 37 {
                    return Err(BlockError::InvalidData(message("cell underflow")));
                }
                let hash = UInt256::with_array(get_bytes32(data, 5));
                *self = OutAction::ChangeLibrary { mode, code: None, hash: Some(hash) };
            } else {
                if refs.len() < 1 {
                    return Err(BlockError::InvalidData(message("cell underflow")));
                }
                *self = OutAction::ChangeLibrary { mode, code: Some(refs[0]), hash: None };
            }
        } else if tag == ACTION_COPYLEFT {
            if data.len() < 37 {
                return Err(BlockError::InvalidData(message("cell underflow")));
            }
            let address = UInt256::with_array(get_bytes32(data, 5));
            *self = OutAction::CopyLeft { license: data[4], address };
        } else {
            return Err(BlockError::InvalidConstructorTag { t: tag, s: message("OutAction") });
        }
        Ok(())
    }

    /// The stored form of the action. The empty action cannot be stored.
    pub fn write_to(&self) -> (r: Result<OutActionCell, BlockError>)
        ensures
            r is Ok <==> !(*self is NoAction),
            r is Err ==> r->Err_0 is InvalidOperation,
            r is Ok ==> r->Ok_0.data@ == out_action_data(self@),
            r is Ok ==> ref_hashes(r->Ok_0.refs@) == out_action_refs(self@),
    {
        let mut data: Vec<u8> = Vec::new();
        let mut refs: Vec<UInt256> = Vec::new();
        match *self {
            OutAction::SendMsg { mode, out_msg } => {
                push_u32(&mut data, ACTION_SEND_MSG);
                data.push(mode);
                refs.push(out_msg);
            },
            OutAction::SetCode { new_code } => {
                push_u32(&mut data, ACTION_SET_CODE);
                refs.push(new_code);
            },
            OutAction::ReserveCurrency { mode, grams, other } => {
                push_u32(&mut data, ACTION_RESERVE);
                data.push(mode);
                grams.write_to(&mut data);
                match other {
                    Some(o) => {
                        data.push(1);
                        refs.push(o);
                    },
                    None => {
                        data.push(0);
                    },
                }
            },
            OutAction::ChangeLibrary { mode, code, hash } => {
                push_u32(&mut data, ACTION_CHANGE_LIB);
                data.push(mode);
                if let Some(h) = hash {
                    push_bytes32(&mut data, h.as_array());
                }
                if let Some(c) = code {
                    refs.push(c);
                }
            },
            OutAction::CopyLeft { license, address } => {
                push_u32(&mut data, ACTION_COPYLEFT);
                data.push(license);
                push_bytes32(&mut data, address.as_array());
            },
            OutAction::NoAction => {
                return Err(BlockError::InvalidOperation(message("self is None")));
            },
        }
        assert(data@ =~= out_action_data(self@));
        assert(ref_hashes(refs@) =~= out_action_refs(self@));
        Ok(OutActionCell { data, refs })
    }
}

} // verus!
