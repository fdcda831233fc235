//! Environmental-information syscalls of the RISC-V service interpreter.
//!
//! The interpreter hands each `ecall` to [`SyscallEnvironment::ecall`], which decides,
//! from the syscall code and the argument registers, what the machine must do:
//! which bytes to store where, what to put in register A0, and whether the call
//! is handled at all.  Performing those memory and register operations is left to
//! the caller, which owns the machine.
use vstd::prelude::*;
use vstd::bytes::*;
use vstd::utf8::*;
use crate::digest::{hex_bytes, hex_encode_bytes, lemma_hex_chars_len};
use crate::text::copy_bytes;

verus! {

/// The syscalls of this environment.
#[derive(Debug, Clone, Copy, PartialEq, Eq, Structural)]
pub enum Syscode {
    Address,
    CycleLimit,
    CyclePrice,
    CycleUsed,
    IsInit,
    Origin,
    Caller,
    BlockHeight,
    Extra,
    Timestamp,
    EmitEvent,
    TxHash,
    TxNonce,
}

/// The numeric code of each syscall, as the calling convention assigns them.
#[derive(Debug, Clone, Copy, PartialEq, Eq, Structural)]
pub struct SyscodeTable {
    pub address: u64,
    pub cycle_limit: u64,
    pub cycle_price: u64,
    pub cycle_used: u64,
    pub is_init: u64,
    pub origin: u64,
    pub caller: u64,
    pub block_height: u64,
    pub extra: u64,
    pub timestamp: u64,
    pub emit_event: u64,
    pub tx_hash: u64,
    pub tx_nonce: u64,
}

/// Which syscall `code` selects; codes are matched in this order, the first match wins.
pub open spec fn classify(t: SyscodeTable, code: u64) -> Option<Syscode> {
    if code == t.address {
        Some(Syscode::Address)
    } else if code == t.cycle_limit {
        Some(Syscode::CycleLimit)
    } else if code == t.cycle_price {
        Some(Syscode::CyclePrice)
    } else if code == t.cycle_used {
        Some(Syscode::CycleUsed)
    } else if code == t.is_init {
        Some(Syscode::IsInit)
    } else if code == t.origin {
        Some(Syscode::Origin)
    } else if code == t.caller {
        Some(Syscode::Caller)
    } else if code == t.block_height {
        Some(Syscode::BlockHeight)
    } else if code == t.extra {
        Some(Syscode::Extra)
    } else if code == t.timestamp {
        Some(Syscode::Timestamp)
    } else if code == t.emit_event {
        Some(Syscode::EmitEvent)
    } else if code == t.tx_hash {
        Some(Syscode::TxHash)
    } else if code == t.tx_nonce {
        Some(Syscode::TxNonce)
    } else {
        None
    }
}

impl SyscodeTable {
    pub fn classify(&self, code: u64) -> (r: Option<Syscode>)
        ensures
            r == classify(*self, code),
    {
        if code == self.address {
            Some(Syscode::Address)
        } else if code == self.cycle_limit {
            Some(Syscode::CycleLimit)
        } else if code == self.cycle_price {
            Some(Syscode::CyclePrice)
        } else if code == self.cycle_used {
            Some(Syscode::CycleUsed)
        } else if code == self.is_init {
            Some(Syscode::IsInit)
        } else if code == self.origin {
            Some(Syscode::Origin)
        } else if code == self.caller {
            Some(Syscode::Caller)
        } else if code == self.block_height {
            Some(Syscode::BlockHeight)
        } else if code == self.extra {
            Some(Syscode::Extra)
        } else if code == self.timestamp {
            Some(Syscode::Timestamp)
        } else if code == self.emit_event {
            Some(Syscode::EmitEvent)
        } else if code == self.tx_hash {
            Some(Syscode::TxHash)
        } else if code == self.tx_nonce {
            Some(Syscode::TxNonce)
        } else {
            None
        }
    }
}

/// What the service context exposes to the interpreter.
pub struct ServiceContext {
    pub cycles_limit: u64,
    pub cycles_price: u64,
    pub cycles_used: u64,
    /// Address of the caller (20 bytes).
    pub caller: Vec<u8>,
    pub extra: Option<Vec<u8>>,
    pub current_height: u64,
    pub timestamp: u64,
    /// Hash of the running transaction, if any.
    pub tx_hash: Option<Vec<u8>>,
    /// Nonce of the running transaction, if any.
    pub nonce: Option<Vec<u8>>,
}

/// Parameters of the running contract.
pub struct InterpreterParams {
    /// Address of the contract (20 bytes).
    pub address: Vec<u8>,
    pub is_init: bool,
}

pub struct SyscallEnvironment {
    pub context: ServiceContext,
    pub iparams: InterpreterParams,
}

/// A write of `bytes` into guest memory at `addr`.
pub struct MemoryStore {
    pub addr: u64,
    pub bytes: Vec<u8>,
}

/// What the machine must do for one `ecall`.
pub enum EcallAction {
    /// Not a syscall of this environment: the interpreter answers `Ok(false)`.
    Unhandled,
    /// A null pointer was passed: the interpreter answers with an invalid-ecall error for `code`.
    Invalid { code: u64 },
    /// Perform `stores` in order (a failing store ends the call with its error),
    /// then set A0 to `a0` and answer `Ok(true)`.
    Reply { stores: Vec<MemoryStore>, a0: u64 },
    /// Read `len` bytes at `ptr` (a failing read ends the call with its error) and
    /// hand them to [`emit_event_reply`].
    ReadEvent { ptr: u64, len: u64 },
}

/// The mathematical content of an [`EcallAction`].
pub enum EcallPlan {
    Unhandled,
    Invalid(u64),
    Reply(Seq<(u64, Seq<u8>)>, u64),
    ReadEvent(u64, u64),
}

pub open spec fn stores_view(s: Seq<MemoryStore>) -> Seq<(u64, Seq<u8>)> {
    s.map_values(|m: MemoryStore| (m.addr, m.bytes@))
}

impl EcallAction {
    pub open spec fn view(&self) -> EcallPlan {
        match self {
            EcallAction::Unhandled => EcallPlan::Unhandled,
            EcallAction::Invalid { code } => EcallPlan::Invalid(*code),
            EcallAction::Reply { stores, a0 } => EcallPlan::Reply(stores_view(stores@), *a0),
            EcallAction::ReadEvent { ptr, len } => EcallPlan::ReadEvent(*ptr, *len),
        }
    }
}

pub open spec fn opt_view(o: Option<Vec<u8>>) -> Option<Seq<u8>> {
    match o {
        Some(v) => Some(v@),
        None => None,
    }
}

/// A reply that stores the hex text of `value` at `ptr` when there is a value,
/// and answers 1 in A0 when there is none.
pub open spec fn hex_or_missing(ptr: u64, value: Option<Seq<u8>>) -> EcallPlan {
    match value {
        Some(v) => EcallPlan::Reply(seq![(ptr, hex_bytes(v))], 0),
        None => EcallPlan::Reply(Seq::empty(), 1),
    }
}

/// The `ecall` decision: what the machine must do for syscall `kind` (with raw
/// `code`) given argument registers A0 = `a0` and A1 = `a1`.
pub open spec fn ecall_plan(env: &SyscallEnvironment, kind: Option<Syscode>, code: u64, a0: u64, a1: u64) -> EcallPlan {
    let ctx = &env.context;
    match kind {
        None => EcallPlan::Unhandled,
        Some(Syscode::Address) => if a0 == 0 {
            EcallPlan::Invalid(code)
        } else {
            EcallPlan::Reply(seq![(a0, hex_bytes(env.iparams.address@))], 0)
        },
        Some(Syscode::CycleLimit) => EcallPlan::Reply(Seq::empty(), ctx.cycles_limit),
        Some(Syscode::CyclePrice) => EcallPlan::Reply(Seq::empty(), ctx.cycles_price),
        Some(Syscode::CycleUsed) => EcallPlan::Reply(Seq::empty(), ctx.cycles_used),
        Some(Syscode::IsInit) => EcallPlan::Reply(Seq::empty(), if env.iparams.is_init { 1 } else { 0 }),
        Some(Syscode::Origin) => if a0 == 0 {
            EcallPlan::Invalid(code)
        } else {
            EcallPlan::Reply(seq![(a0, hex_bytes(ctx.caller@))], 0)
        },
        Some(Syscode::Caller) => if a0 == 0 {
            EcallPlan::Invalid(code)
        } else {
            match opt_view(ctx.extra) {
                Some(e) => EcallPlan::Reply(seq![(a0, e)], 0),
                None => EcallPlan::Reply(seq![(a0, hex_bytes(ctx.caller@))], 0),
            }
        },
        Some(Syscode::BlockHeight) => EcallPlan::Reply(Seq::empty(), ctx.current_height),
        Some(Syscode::Extra) => match opt_view(ctx.extra) {
            Some(e) => {
                let first: Seq<(u64, Seq<u8>)> = if a0 != 0 { seq![(a0, e)] } else { Seq::empty() };
                let second: Seq<(u64, Seq<u8>)> = if a1 != 0 {
                    seq![(a1, spec_u64_to_le_bytes(e.len() as u64))]
                } else {
                    Seq::empty()
                };
                EcallPlan::Reply(first + second, 0)
            },
            None => EcallPlan::Reply(Seq::empty(), 1),
        },
        Some(Syscode::Timestamp) => EcallPlan::Reply(Seq::empty(), ctx.timestamp),
        Some(Syscode::EmitEvent) => EcallPlan::ReadEvent(a0, a1),
        Some(Syscode::TxHash) => if a0 == 0 {
            EcallPlan::Invalid(code)
        } else {
            hex_or_missing(a0, opt_view(ctx.tx_hash))
        },
        Some(Syscode::TxNonce) => if a0 == 0 {
            EcallPlan::Invalid(code)
        } else {
            hex_or_missing(a0, opt_view(ctx.nonce))
        },
    }
}

/// What the interpreter does with the bytes of an emitted event.
pub struct EventReply {
    /// The event message to emit on the service context, if the bytes are UTF-8.
    pub message: Option<String>,
    /// The value for register A0.
    pub a0: u64,
}

/// `String::from_utf8`: the text of `bytes` when they are valid UTF-8.
#[verifier::external_body]
fn utf8_string(bytes: Vec<u8>) -> (r: Option<String>)
    ensures
        r is Some <==> valid_utf8(bytes@),
        r matches Some(s) ==> s@ == decode_utf8(bytes@),
{
    String::from_utf8(bytes).ok()
}

/// The second half of the emit-event syscall: valid UTF-8 is emitted and answered
/// with 0 in A0; anything else is answered with 1 and emits nothing.
pub fn emit_event_reply(bytes: Vec<u8>) -> (r: EventReply)
    ensures
        valid_utf8(bytes@) ==> (r.a0 == 0 && (r.message matches Some(m) && m@ == decode_utf8(bytes@))),
        !valid_utf8(bytes@) ==> (r.a0 == 1 && r.message is None),
{
    match utf8_string(bytes) {
        Some(msg) => EventReply { message: Some(msg), a0: 0 },
        None => EventReply { message: None, a0: 1 },
    }
}

fn single_store(addr: u64, bytes: Vec<u8>) -> (r: Vec<MemoryStore>)
    ensures
        stores_view(r@) == seq![(addr, bytes@)],
{
    let mut v: Vec<MemoryStore> = Vec::new();
    v.push(MemoryStore { addr, bytes });
    assert(stores_view(v@) =~= seq![(addr, bytes@)]);
    v
}

fn no_store() -> (r: Vec<MemoryStore>)
    ensures
        stores_view(r@) == Seq::<(u64, Seq<u8>)>::empty(),
{
    let v: Vec<MemoryStore> = Vec::new();
    assert(stores_view(v@) =~= Seq::<(u64, Seq<u8>)>::empty());
    v
}

fn hex_reply(ptr: u64, value: &Option<Vec<u8>>) -> (r: EcallAction)
    ensures
        r@ == hex_or_missing(ptr, opt_view(*value)),
{
    match value {
        Some(v) => EcallAction::Reply { stores: single_store(ptr, hex_encode_bytes(v.as_slice())), a0: 0 },
        None => EcallAction::Reply { stores: no_store(), a0: 1 },
    }
}

impl SyscallEnvironment {
    pub fn new(context: ServiceContext, iparams: InterpreterParams) -> (r: Self)
        ensures
            r.context == context,
            r.iparams == iparams,
    {
        SyscallEnvironment { context, iparams }
    }

    /// Decides what the machine must do for syscall `code`, with A0 = `a0` and A1 = `a1`.
    pub fn ecall(&self, codes: &SyscodeTable, code: u64, a0: u64, a1: u64) -> (r: EcallAction)
        ensures
            r@ == ecall_plan(self, classify(*codes, code), code, a0, a1),
    {
        let kind = codes.classify(code);
        let ctx = &self.context;
        match kind {
            None => EcallAction::Unhandled,
            Some(Syscode::Address) => {
                if a0 == 0 {
                    return EcallAction::Invalid { code };
                }
                let hex = hex_encode_bytes(self.iparams.address.as_slice());
                EcallAction::Reply { stores: single_store(a0, hex), a0: 0 }
            },
            Some(Syscode::CycleLimit) => EcallAction::Reply { stores: no_store(), a0: ctx.cycles_limit },
            Some(Syscode::CyclePrice) => EcallAction::Reply { stores: no_store(), a0: ctx.cycles_price },
            Some(Syscode::CycleUsed) => EcallAction::Reply { stores: no_store(), a0: ctx.cycles_used },
            Some(Syscode::IsInit) => {
                let is_init: u64 = if self.iparams.is_init { 1 } else { 0 };
                EcallAction::Reply { stores: no_store(), a0: is_init }
            },
            Some(Syscode::Origin) => {
                if a0 == 0 {
                    return EcallAction::Invalid { code };
                }
                let hex = hex_encode_bytes(ctx.caller.as_slice());
                EcallAction::Reply { stores: single_store(a0, hex), a0: 0 }
            },
            Some(Syscode::Caller) => {
                if a0 == 0 {
                    return EcallAction::Invalid { code };
                }
                let caller = match &ctx.extra {
                    Some(e) => copy_bytes(e),
                    None => hex_encode_bytes(ctx.caller.as_slice()),
                };
                EcallAction::Reply { stores: single_store(a0, caller), a0: 0 }
            },
            Some(Syscode::BlockHeight) => EcallAction::Reply { stores: no_store(), a0: ctx.current_height },
            Some(Syscode::Extra) => {
                match &ctx.extra {
                    Some(extra) => {
                        let mut stores: Vec<MemoryStore> = Vec::new();
                        if a0 != 0 {
                            stores.push(MemoryStore { addr: a0, bytes: copy_bytes(extra) });
                        }
                        if a1 != 0 {
                            let len_bytes = u64_to_le_bytes(extra.len() as u64);
                            stores.push(MemoryStore { addr: a1, bytes: len_bytes });
                        }
                        proof {
                            let e = extra@;
                            let first: Seq<(u64, Seq<u8>)> = if a0 != 0 { seq![(a0, e)] } else { Seq::empty() };
                            let second: Seq<(u64, Seq<u8>)> = if a1 != 0 {
                                seq![(a1, spec_u64_to_le_bytes(e.len() as u64))]
                            } else {
                                Seq::empty()
                            };
                            assert(stores_view(stores@) =~= first + second);
                        }
                        EcallAction::Reply { stores, a0: 0 }
                    },
                    None => EcallAction::Reply { stores: no_store(), a0: 1 },
                }
            },
            Some(Syscode::Timestamp) => EcallAction::Reply { stores: no_store(), a0: ctx.timestamp },
            Some(Syscode::EmitEvent) => EcallAction::ReadEvent { ptr: a0, len: a1 },
            Some(Syscode::TxHash) => {
                if a0 == 0 {
                    return EcallAction::Invalid { code };
                }
                hex_reply(a0, &ctx.tx_hash)
            },
            Some(Syscode::TxNonce) => {
                if a0 == 0 {
                    return EcallAction::Invalid { code };
                }
                hex_reply(a0, &ctx.nonce)
            },
        }
    }
}

/// Hashes, nonces and addresses reach the contract as hex text: with a non-null
/// pointer, the transaction hash and the transaction nonce are each stored as the
/// hex text of their bytes (two characters per byte), or answered with 1 in A0 when
/// absent; the contract's address and the caller's (origin) likewise, always present.
pub proof fn lemma_ids_stored_as_hex(env: &SyscallEnvironment, code: u64, a0: u64, a1: u64)
    requires
        a0 != 0,
    ensures
        ecall_plan(env, Some(Syscode::TxNonce), code, a0, a1) == (match opt_view(env.context.nonce) {
            Some(n) => EcallPlan::Reply(seq![(a0, hex_bytes(n))], 0),
            None => EcallPlan::Reply(Seq::empty(), 1),
        }),
        ecall_plan(env, Some(Syscode::TxHash), code, a0, a1) == (match opt_view(env.context.tx_hash) {
            Some(h) => EcallPlan::Reply(seq![(a0, hex_bytes(h))], 0),
            None => EcallPlan::Reply(Seq::empty(), 1),
        }),
        ecall_plan(env, Some(Syscode::Address), code, a0, a1)
            == EcallPlan::Reply(seq![(a0, hex_bytes(env.iparams.address@))], 0),
        ecall_plan(env, Some(Syscode::Origin), code, a0, a1)
            == EcallPlan::Reply(seq![(a0, hex_bytes(env.context.caller@))], 0),
        forall|b: Seq<u8>| #[trigger] hex_bytes(b).len() == 2 * b.len(),
{
    assert forall|b: Seq<u8>| #[trigger] hex_bytes(b).len() == 2 * b.len() by {
        lemma_hex_chars_len(b);
    }
}

} // verus!
