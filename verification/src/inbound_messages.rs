use vstd::prelude::*;

use crate::error::{message, BlockError};
use crate::messages::{AddSub, CurrencyCollection};
use crate::types::{Grams, GRAMS_MAX};

verus! {

/// Augmentation of the inbound message descriptions: fees collected and value imported.
#[derive(Debug, PartialEq, Eq)]
pub struct ImportFees {
    pub fees_collected: Grams,
    pub value_imported: CurrencyCollection,
}

impl ImportFees {
    /// The given fees collected, no value imported.
    pub fn with_grams(grams: u64) -> (r: Self)
        ensures
            r.fees_collected@ == grams,
            r.value_imported.grams@ == 0,
            r.value_imported.other@ == Map::<u32, nat>::empty(),
    {
        ImportFees { fees_collected: Grams::from_u64(grams), value_imported: CurrencyCollection::new() }
    }
}

/// The fee fields of an internal message: the value it carries, its IHR fee and its
/// forwarding fee.
#[derive(Debug, PartialEq, Eq)]
pub struct IntMsgFees {
    pub value: CurrencyCollection,
    pub ihr_fee: Grams,
    pub fwd_fee: Grams,
}

/// An inbound message description, holding as plain values what its augmentation reads: the
/// fee fields of its message (`None` when the message is not internal) and, for a message that
/// arrived in an envelope, the forwarding fee left in the envelope with the description's own
/// forwarding or transit fee.
#[derive(Debug, PartialEq, Eq)]
pub enum InMsg {
    /// No description.
    NoMsg,
    /// Inbound external message.
    External { msg: Option<IntMsgFees> },
    /// Internal message delivered by IHR.
    IHR { msg: Option<IntMsgFees> },
    /// Internal message routed immediately.
    Immediate { msg: Option<IntMsgFees> },
    /// Internal message with its destination in this block.
    Final { msg: Option<IntMsgFees>, fwd_fee_remaining: Grams, fwd_fee: Grams },
    /// Transit internal message.
    Transit { msg: Option<IntMsgFees>, fwd_fee_remaining: Grams, transit_fee: Grams },
    /// Discarded internal message with its destination in this block.
    DiscardedFinal { msg: Option<IntMsgFees> },
    /// Discarded transit internal message.
    DiscardedTransit { msg: Option<IntMsgFees> },
}

/// The fees collected, the nanograms imported and the other currencies imported for an
/// inbound message description, or `None` when it has none: an empty description, a final
/// message whose envelope fee differs from its own, a transit message whose envelope holds less
/// than the transit fee, or nanograms imported above the limit. A message that is not internal
/// imports and collects nothing.
pub open spec fn in_msg_aug(m: InMsg) -> Option<(nat, nat, Map<u32, nat>)> {
    let nothing = Some((0nat, 0nat, Map::<u32, nat>::empty()));
    match m {
        InMsg::NoMsg => None,
        InMsg::External { .. } => nothing,
        InMsg::IHR { msg } => match msg {
            Some(h) => if h.value.grams@ + h.ihr_fee@ <= GRAMS_MAX {
                Some((h.ihr_fee@, h.value.grams@ + h.ihr_fee@, h.value.other@))
            } else {
                None
            },
            None => nothing,
        },
        InMsg::Immediate { msg } => match msg {
            Some(h) => Some((h.fwd_fee@, 0nat, Map::<u32, nat>::empty())),
            None => nothing,
        },
        InMsg::Final { msg, fwd_fee_remaining, fwd_fee } => match msg {
            Some(h) => if fwd_fee_remaining@ != fwd_fee@ {
                None
            } else if h.value.grams@ + fwd_fee_remaining@ + h.ihr_fee@ <= GRAMS_MAX {
                Some((fwd_fee_remaining@, h.value.grams@ + fwd_fee_remaining@ + h.ihr_fee@, h.value.other@))
            } else {
                None
            },
            None => nothing,
        },
        InMsg::Transit { msg, fwd_fee_remaining, transit_fee } => match msg {
            Some(h) => if fwd_fee_remaining@ < transit_fee@ {
                None
            } else if h.value.grams@ + h.ihr_fee@ + fwd_fee_remaining@ <= GRAMS_MAX {
                Some((transit_fee@, h.value.grams@ + h.ihr_fee@ + fwd_fee_remaining@, h.value.other@))
            } else {
                None
            },
            None => nothing,
        },
        InMsg::DiscardedFinal { msg } | InMsg::DiscardedTransit { msg } => match msg {
            Some(h) => Some((h.fwd_fee@, h.fwd_fee@, Map::<u32, nat>::empty())),
            None => nothing,
        },
    }
}

/// What each kind of inbound message collects and imports, for an internal message with fee
/// fields `h` (value `v`, IHR fee `i`, forwarding fee `f`):
/// - an external one: nothing;
/// - by IHR: collects `i`, imports `v` and `i`;
/// - routed immediately: collects `f`, imports nothing;
/// - final, with `e` left in its envelope: collects `e` (which must equal its own fee), imports
///   `v`, `e` and `i`;
/// - in transit, with `e` left in its envelope and transit fee `t`: collects `t` (which `e` must
///   cover), imports `v`, `i` and `e`;
/// - discarded, final or in transit: collects `f` and imports `f` nanograms.
/// The other currencies imported are those of `v` where `v` is imported, and none otherwise; a
/// message that is not internal collects and imports nothing, and the empty description none.
/// Every import of nanograms must fit in `GRAMS_MAX`.
pub proof fn law_in_msg_aug(m: InMsg)
    ensures
        m is NoMsg ==> in_msg_aug(m) is None,
        m is External ==> in_msg_aug(m) == Some((0nat, 0nat, Map::<u32, nat>::empty())),
        m matches InMsg::IHR { msg: Some(h) } ==> in_msg_aug(m) == if h.value.grams@ + h.ihr_fee@ <= GRAMS_MAX {
            Some((h.ihr_fee@, h.value.grams@ + h.ihr_fee@, h.value.other@))
        } else {
            None
        },
        m matches InMsg::Immediate { msg: Some(h) } ==> in_msg_aug(m) == Some((h.fwd_fee@, 0nat, Map::<u32, nat>::empty())),
        m matches InMsg::Final { msg: Some(h), fwd_fee_remaining: e, fwd_fee: f } ==> in_msg_aug(m) == if e@ == f@
            && h.value.grams@ + e@ + h.ihr_fee@ <= GRAMS_MAX {
            Some((e@, h.value.grams@ + e@ + h.ihr_fee@, h.value.other@))
        } else {
            None
        },
        m matches InMsg::Transit { msg: Some(h), fwd_fee_remaining: e, transit_fee: t } ==> in_msg_aug(m) == if t@ <= e@
            && h.value.grams@ + h.ihr_fee@ + e@ <= GRAMS_MAX {
            Some((t@, h.value.grams@ + h.ihr_fee@ + e@, h.value.other@))
        } else {
            None
        },
        m matches InMsg::DiscardedFinal { msg: Some(h) } ==> in_msg_aug(m) == Some(
            (h.fwd_fee@, h.fwd_fee@, Map::<u32, nat>::empty()),
        ),
        m matches InMsg::DiscardedTransit { msg: Some(h) } ==> in_msg_aug(m) == Some(
            (h.fwd_fee@, h.fwd_fee@, Map::<u32, nat>::empty()),
        ),
        !(m is NoMsg) && msg_fees(m) is None ==> in_msg_aug(m) == Some((0nat, 0nat, Map::<u32, nat>::empty())),
{
}

/// For a description that did collect something, a discarded message collects as much as it
/// imports, and what any other one imports covers its value's nanograms and its IHR fee.
pub proof fn law_in_msg_aug_collected_and_imported(m: InMsg)
    ensures
        (m is DiscardedFinal || m is DiscardedTransit) ==> (in_msg_aug(m) matches Some(a) ==> a.0 == a.1),
        (m is IHR || m is Final || m is Transit) ==> (msg_fees(m) matches Some(h) ==> (in_msg_aug(m) matches Some(a)
            ==> a.1 >= h.value.grams@ + h.ihr_fee@ && a.2 == h.value.other@)),
{
}

/// The fee fields of a description's message, `None` when it has no internal message.
pub open spec fn msg_fees(m: InMsg) -> Option<IntMsgFees> {
    match m {
        InMsg::NoMsg => None,
        InMsg::External { msg } => msg,
        InMsg::IHR { msg } => msg,
        InMsg::Immediate { msg } => msg,
        InMsg::Final { msg, .. } => msg,
        InMsg::Transit { msg, .. } => msg,
        InMsg::DiscardedFinal { msg } => msg,
        InMsg::DiscardedTransit { msg } => msg,
    }
}

impl InMsg {
    /// The fees collected and the value imported by this inbound message.
    pub fn aug(&self) -> (r: Result<ImportFees, BlockError>)
        ensures
            r is Ok <==> in_msg_aug(*self) is Some,
            r matches Ok(f) ==> in_msg_aug(*self) == Some(
                (f.fees_collected@, f.value_imported.grams@, f.value_imported.other@),
            ),
    {
        let h = match self {
            InMsg::NoMsg => {
                return Err(BlockError::Other(message("wrong InMsg type")));
            },
            InMsg::External { msg } | InMsg::IHR { msg } | InMsg::Immediate { msg } | InMsg::Final { msg, .. }
            | InMsg::Transit { msg, .. } | InMsg::DiscardedFinal { msg } | InMsg::DiscardedTransit { msg } => {
                match msg {
                    Some(h) => h,
                    None => {
                        return Ok(ImportFees::with_grams(0));
                    },
                }
            },
        };
        let mut fees = ImportFees::with_grams(0);
        match self {
            InMsg::NoMsg | InMsg::External { .. } => {},
            InMsg::IHR { .. } => {
                fees.fees_collected = h.ihr_fee;
                fees.value_imported = h.value.clone();
                fees.value_imported.grams.add(&h.ihr_fee)?;
            },
            InMsg::Immediate { .. } => {
                fees.fees_collected = h.fwd_fee;
            },
            InMsg::Final { fwd_fee_remaining, fwd_fee, .. } => {
                if fwd_fee_remaining.as_u128() != fwd_fee.as_u128() {
                    return Err(BlockError::Other(message("fwd_fee_remaining not equal to fwd_fee")));
                }
                fees.fees_collected = *fwd_fee_remaining;
                fees.value_imported = h.value.clone();
                fees.value_imported.grams.add(fwd_fee_remaining)?;
                fees.value_imported.grams.add(&h.ihr_fee)?;
            },
            InMsg::Transit { fwd_fee_remaining, transit_fee, .. } => {
                if fwd_fee_remaining.as_u128() < transit_fee.as_u128() {
                    return Err(BlockError::Other(message("fwd_fee_remaining less than transit_fee")));
                }
                fees.fees_collected = *transit_fee;
                fees.value_imported = h.value.clone();
                fees.value_imported.grams.add(&h.ihr_fee)?;
                fees.value_imported.grams.add(fwd_fee_remaining)?;
            },
            InMsg::DiscardedFinal { .. } | InMsg::DiscardedTransit { .. } => {
                fees.fees_collected = h.fwd_fee;
                fees.value_imported.grams = h.fwd_fee;
            },
        }
        Ok(fees)
    }
}

} // verus!
