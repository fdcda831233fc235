use muta_network::syscall::{
    emit_event_reply, EcallAction, InterpreterParams, ServiceContext, SyscallEnvironment, Syscode,
    SyscodeTable,
};

fn table() -> SyscodeTable {
    SyscodeTable {
        address: 3000,
        cycle_limit: 3001,
        cycle_price: 3002,
        cycle_used: 3003,
        is_init: 3004,
        origin: 3005,
        caller: 3006,
        block_height: 3007,
        extra: 3008,
        timestamp: 3009,
        emit_event: 3010,
        tx_hash: 3011,
        tx_nonce: 3012,
    }
}

fn env(extra: Option<Vec<u8>>, tx_hash: Option<Vec<u8>>) -> SyscallEnvironment {
    let context = ServiceContext {
        cycles_limit: 1_000_000,
        cycles_price: 7,
        cycles_used: 42,
        caller: vec![0xab; 20],
        extra,
        current_height: 99,
        timestamp: 1_600_000_000,
        tx_hash,
        nonce: None,
    };
    let iparams = InterpreterParams { address: vec![0x01, 0x02], is_init: true };
    SyscallEnvironment::new(context, iparams)
}

fn reply(action: EcallAction) -> (Vec<(u64, Vec<u8>)>, u64) {
    match action {
        EcallAction::Reply { stores, a0 } => {
            (stores.into_iter().map(|s| (s.addr, s.bytes)).collect(), a0)
        }
        _ => panic!("expected a reply"),
    }
}

#[test]
fn classify_follows_the_table() {
    let t = table();
    assert_eq!(t.classify(3000), Some(Syscode::Address));
    assert_eq!(t.classify(3010), Some(Syscode::EmitEvent));
    assert_eq!(t.classify(3012), Some(Syscode::TxNonce));
    assert_eq!(t.classify(17), None);
}

#[test]
fn classify_takes_the_first_matching_code() {
    let mut t = table();
    t.timestamp = t.cycle_limit;
    assert_eq!(t.classify(3001), Some(Syscode::CycleLimit));
}

#[test]
fn unknown_syscall_is_unhandled() {
    let e = env(None, None);
    assert!(matches!(e.ecall(&table(), 1, 0, 0), EcallAction::Unhandled));
}

#[test]
fn numeric_syscalls_answer_in_a0() {
    let e = env(None, None);
    let t = table();
    assert_eq!(reply(e.ecall(&t, 3001, 0, 0)), (vec![], 1_000_000));
    assert_eq!(reply(e.ecall(&t, 3002, 0, 0)), (vec![], 7));
    assert_eq!(reply(e.ecall(&t, 3003, 0, 0)), (vec![], 42));
    assert_eq!(reply(e.ecall(&t, 3004, 0, 0)), (vec![], 1));
    assert_eq!(reply(e.ecall(&t, 3007, 0, 0)), (vec![], 99));
    assert_eq!(reply(e.ecall(&t, 3009, 0, 0)), (vec![], 1_600_000_000));
}

#[test]
fn address_is_stored_as_hex_text() {
    let e = env(None, None);
    assert_eq!(reply(e.ecall(&table(), 3000, 0x800, 0)), (vec![(0x800, b"0102".to_vec())], 0));
}

#[test]
fn null_pointers_are_invalid_ecalls() {
    let e = env(None, None);
    let t = table();
    for code in [3000u64, 3005, 3006, 3011, 3012] {
        match e.ecall(&t, code, 0, 0) {
            EcallAction::Invalid { code: c } => assert_eq!(c, code),
            _ => panic!("expected an invalid ecall"),
        }
    }
}

#[test]
fn origin_is_the_caller_in_hex() {
    let e = env(None, None);
    let (stores, a0) = reply(e.ecall(&table(), 3005, 0x900, 0));
    assert_eq!(a0, 0);
    assert_eq!(stores, vec![(0x900, "ab".repeat(20).into_bytes())]);
}

#[test]
fn caller_prefers_the_extra_bytes() {
    let e = env(Some(b"sub".to_vec()), None);
    assert_eq!(reply(e.ecall(&table(), 3006, 0x900, 0)), (vec![(0x900, b"sub".to_vec())], 0));
    let e = env(None, None);
    let (stores, _) = reply(e.ecall(&table(), 3006, 0x900, 0));
    assert_eq!(stores, vec![(0x900, "ab".repeat(20).into_bytes())]);
}

#[test]
fn extra_stores_data_and_length() {
    let e = env(Some(vec![9, 8, 7]), None);
    let t = table();
    assert_eq!(
        reply(e.ecall(&t, 3008, 0x10, 0x20)),
        (vec![(0x10, vec![9, 8, 7]), (0x20, vec![3, 0, 0, 0, 0, 0, 0, 0])], 0)
    );
    assert_eq!(reply(e.ecall(&t, 3008, 0, 0x20)), (vec![(0x20, vec![3, 0, 0, 0, 0, 0, 0, 0])], 0));
    assert_eq!(reply(e.ecall(&t, 3008, 0x10, 0)), (vec![(0x10, vec![9, 8, 7])], 0));
    let none = env(None, None);
    assert_eq!(reply(none.ecall(&t, 3008, 0x10, 0x20)), (vec![], 1));
}

#[test]
fn tx_hash_and_nonce_answer_one_when_missing() {
    let e = env(None, Some(vec![0xde, 0xad]));
    let t = table();
    assert_eq!(reply(e.ecall(&t, 3011, 0x40, 0)), (vec![(0x40, b"dead".to_vec())], 0));
    assert_eq!(reply(e.ecall(&t, 3012, 0x40, 0)), (vec![], 1));
}

#[test]
fn emit_event_reads_the_message() {
    let e = env(None, None);
    match e.ecall(&table(), 3010, 0x100, 5) {
        EcallAction::ReadEvent { ptr, len } => assert_eq!((ptr, len), (0x100, 5)),
        _ => panic!("expected a read"),
    }
}

#[test]
fn emitted_events_must_be_utf8() {
    let ok = emit_event_reply(b"hello".to_vec());
    assert_eq!(ok.a0, 0);
    assert_eq!(ok.message.as_deref(), Some("hello"));
    let bad = emit_event_reply(vec![0xff, 0xfe]);
    assert_eq!(bad.a0, 1);
    assert_eq!(bad.message, None);
}
