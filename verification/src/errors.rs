//! Error kinds of the execution layer.
//!
//! Compression failures and revert reasons are ordinary per-call results the
//! caller branches on; capability violations (an unsupported mode, an
//! out-of-order terminal call) are excluded by preconditions and abort at
//! run time when an unverified caller ignores them.

use vstd::prelude::*;

verus! {

/// A dependency bytecode requested for compression was never recognized as
/// known by the end of transaction execution. Recoverable: the caller may
/// retry without compression or discard the transaction.
#[derive(Clone, Copy, PartialEq, Eq, Structural, Debug)]
pub enum BytecodeCompressionError {
    BytecodeCompressionFailed,
}

/// The interpreter stopped abnormally. Surfaced in the execution result,
/// never thrown as a fatal error.
#[derive(Clone, Copy, PartialEq, Eq, Structural, Debug)]
pub enum Halt {
    ValidationFailed,
    BootloaderOutOfGas,
    TooBigGasLimit,
    UnexpectedVmBehavior,
    TracerCustom,
}

/// Structured reason of an intentional revert, or the opaque degradation
/// when the revert payload could not be decoded.
#[derive(Clone, PartialEq, Eq, Debug)]
pub enum VmRevertReason {
    /// A decoded error string, from the standard error selector.
    General { msg: Vec<u8> },
    /// A revert payload that carries no data at all.
    InnerTxError,
    /// The payload could not be decoded into a structured reason: the raw
    /// selector and data are kept rather than losing the failure entirely.
    Unknown { function_selector: Vec<u8>, data: Vec<u8> },
}

/// Either an intentional revert of the transaction's own logic or an
/// abnormal interpreter stop; the two are kept distinct.
#[derive(Clone, PartialEq, Eq, Debug)]
pub enum TxRevertReason {
    TxReverted(VmRevertReason),
    Halted(Halt),
}

/// First byte of the standard error selector.
pub const ERROR_SELECTOR_0: u8 = 0x08;
/// Second byte of the standard error selector.
pub const ERROR_SELECTOR_1: u8 = 0xc3;
/// Third byte of the standard error selector.
pub const ERROR_SELECTOR_2: u8 = 0x79;
/// Fourth byte of the standard error selector.
pub const ERROR_SELECTOR_3: u8 = 0xa0;

/// Does the payload start with the standard error selector?
pub open spec fn has_error_selector(raw: Seq<u8>) -> bool {
    raw.len() >= 4 && raw[0] == ERROR_SELECTOR_0 && raw[1] == ERROR_SELECTOR_1
        && raw[2] == ERROR_SELECTOR_2 && raw[3] == ERROR_SELECTOR_3
}

/// A payload decodes into a structured reason when it carries the error
/// selector, a 32-byte offset word equal to 32, a 32-byte length word whose
/// high bytes are zero, and at least that many message bytes after it.
pub open spec fn is_well_formed_error(raw: Seq<u8>) -> bool {
    &&& has_error_selector(raw)
    &&& raw.len() >= 68
    &&& forall|i: int| 4 <= i < 35 ==> raw[i] == 0u8
    &&& raw[35] == 32u8
    &&& forall|i: int| 36 <= i < 64 ==> raw[i] == 0u8
    &&& 68 + decoded_msg_len(raw) <= raw.len()
}

/// The message length carried by the 32-byte length word (last four bytes,
/// big endian), once its high bytes are known to be zero.
pub open spec fn decoded_msg_len(raw: Seq<u8>) -> int {
    (raw[64] as int) * 0x1000000 + (raw[65] as int) * 0x10000 + (raw[66] as int) * 0x100
        + (raw[67] as int)
}

/// The decoded message bytes of a well-formed error payload.
pub open spec fn decoded_msg(raw: Seq<u8>) -> Seq<u8> {
    raw.subrange(68, 68 + decoded_msg_len(raw))
}

/// View of a revert reason as a spec value over byte sequences.
pub ghost struct RevertReasonV {
    pub kind: RevertKind,
    pub msg: Seq<u8>,
    pub function_selector: Seq<u8>,
    pub data: Seq<u8>,
}

/// Which variant a [`VmRevertReason`] is.
#[derive(Clone, Copy, PartialEq, Eq, Structural, Debug)]
pub enum RevertKind {
    General,
    InnerTxError,
    Unknown,
}

impl View for VmRevertReason {
    type V = RevertReasonV;

    open spec fn view(&self) -> RevertReasonV {
        match self {
            VmRevertReason::General { msg } => RevertReasonV {
                kind: RevertKind::General,
                msg: msg@,
                function_selector: Seq::empty(),
                data: Seq::empty(),
            },
            VmRevertReason::InnerTxError => RevertReasonV {
                kind: RevertKind::InnerTxError,
                msg: Seq::empty(),
                function_selector: Seq::empty(),
                data: Seq::empty(),
            },
            VmRevertReason::Unknown { function_selector, data } => RevertReasonV {
                kind: RevertKind::Unknown,
                msg: Seq::empty(),
                function_selector: function_selector@,
                data: data@,
            },
        }
    }
}

/// What a revert payload decodes to: the structured message when it is a
/// well-formed error encoding, the empty-payload marker, or the opaque
/// degradation.
pub open spec fn revert_reason_of(raw: Seq<u8>) -> RevertReasonV {
    if raw.len() == 0 {
        RevertReasonV {
            kind: RevertKind::InnerTxError,
            msg: Seq::empty(),
            function_selector: Seq::empty(),
            data: Seq::empty(),
        }
    } else if is_well_formed_error(raw) {
        RevertReasonV {
            kind: RevertKind::General,
            msg: decoded_msg(raw),
            function_selector: Seq::empty(),
            data: Seq::empty(),
        }
    } else {
        RevertReasonV {
            kind: RevertKind::Unknown,
            msg: Seq::empty(),
            function_selector: raw.take(if raw.len() < 4 { raw.len() as int } else { 4 }),
            data: raw,
        }
    }
}

/// Decodes a revert payload into a structured reason, degrading to the
/// opaque representation when the payload does not parse.
pub fn parse_revert_reason(raw: &Vec<u8>) -> (r: VmRevertReason)
    ensures
        r@ == revert_reason_of(raw@),
{
    if raw.len() == 0 {
        return VmRevertReason::InnerTxError;
    }
    if well_formed_error(raw) {
        let len = msg_len(raw);
        let rlen = raw.len();
        let mut msg: Vec<u8> = Vec::new();
        let mut i: usize = 0;
        while i < len
            invariant
                i <= len,
                rlen == raw@.len(),
                rlen >= 68 + len,
                msg@ == raw@.subrange(68, 68 + i as int),
            decreases len - i,
        {
            msg.push(raw[68 + i]);
            proof {
                assert(msg@ =~= raw@.subrange(68, 68 + i + 1));
            }
            i = i + 1;
        }
        proof {
            assert(decoded_msg(raw@) =~= msg@);
        }
        VmRevertReason::General { msg }
    } else {
        let take = if raw.len() < 4 { raw.len() } else { 4 };
        let mut selector: Vec<u8> = Vec::new();
        let mut i: usize = 0;
        while i < take
            invariant
                i <= take,
                take <= raw@.len(),
                selector@ == raw@.take(i as int),
            decreases take - i,
        {
            selector.push(raw[i]);
            proof {
                assert(selector@ =~= raw@.take(i + 1));
            }
            i = i + 1;
        }
        let mut data: Vec<u8> = Vec::new();
        let mut j: usize = 0;
        while j < raw.len()
            invariant
                j <= raw@.len(),
                data@ == raw@.take(j as int),
            decreases raw@.len() - j,
        {
            data.push(raw[j]);
            proof {
                assert(data@ =~= raw@.take(j + 1));
            }
            j = j + 1;
        }
        proof {
            assert(raw@.take(raw@.len() as int) =~= raw@);
        }
        VmRevertReason::Unknown { function_selector: selector, data }
    }
}

/// Runtime check matching [`is_well_formed_error`].
fn well_formed_error(raw: &Vec<u8>) -> (ok: bool)
    requires
        raw@.len() > 0,
    ensures
        ok == is_well_formed_error(raw@),
{
    if raw.len() < 68 {
        return false;
    }
    if !(raw[0] == ERROR_SELECTOR_0 && raw[1] == ERROR_SELECTOR_1 && raw[2] == ERROR_SELECTOR_2
        && raw[3] == ERROR_SELECTOR_3) {
        return false;
    }
    let mut i: usize = 4;
    while i < 35
        invariant
            4 <= i <= 35,
            raw@.len() >= 68,
            forall|k: int| 4 <= k < i ==> raw@[k] == 0u8,
        decreases 35 - i,
    {
        if raw[i] != 0 {
            return false;
        }
        i = i + 1;
    }
    if raw[35] != 32 {
        return false;
    }
    let mut j: usize = 36;
    while j < 64
        invariant
            36 <= j <= 64,
            raw@.len() >= 68,
            forall|k: int| 36 <= k < j ==> raw@[k] == 0u8,
        decreases 64 - j,
    {
        if raw[j] != 0 {
            return false;
        }
        j = j + 1;
    }
    let len = msg_len(raw);
    len <= raw.len() - 68
}

/// The message length of a payload with at least 68 bytes.
fn msg_len(raw: &Vec<u8>) -> (len: usize)
    requires
        raw@.len() >= 68,
    ensures
        len == decoded_msg_len(raw@),
{
    (raw[64] as usize) * 0x1000000 + (raw[65] as usize) * 0x10000 + (raw[66] as usize) * 0x100
        + (raw[67] as usize)
}

} // verus!
