use algo_codec::{
    Address, AppCallFields, AssetTransferFields, Header, MicroAlgos, MultisigSignature,
    MultisigSubsig, OnCompletion, PaymentFields, PublicKey, Signature, SignedTx, StateSchema,
    Transaction, TxFields,
};

fn sample_header() -> Header {
    let mut sender = [0u8; 32];
    sender[5] = 42;
    Header {
        sender: Address(sender),
        fee: MicroAlgos(1000),
        first_valid: 100,
        last_valid: 1100,
        note: vec![0xde, 0xad],
        genesis_id: "net-v1".to_owned(),
        genesis_hash: [3u8; 32],
        group: [0u8; 32],
        lease: [0u8; 32],
        rekey_to: Address([0u8; 32]),
    }
}

fn sample_payment() -> Transaction {
    let mut rcv = [0u8; 32];
    rcv[0] = 1;
    Transaction {
        header: sample_header(),
        fields: TxFields::Payment(PaymentFields {
            receiver: Address(rcv),
            amount: MicroAlgos(555),
            close_remainder_to: None,
        }),
    }
}

#[test]
fn transaction_encoding_is_deterministic() {
    // Two independently constructed, semantically identical transactions
    // encode to byte-identical output.
    let t1 = sample_payment();
    let t2 = sample_payment();
    assert_eq!(t1.encode(), t2.encode());
}

#[test]
fn payment_round_trip() {
    // Decoding then re-encoding a previously encoded transaction record
    // reproduces the original bytes exactly.
    let t = sample_payment();
    let bytes = t.encode();
    let back = Transaction::decode(&bytes).expect("canonical bytes decode");
    assert_eq!(back.encode(), bytes);
    assert!(back == t);
}

#[test]
fn app_call_round_trip() {
    let t = Transaction {
        header: sample_header(),
        fields: TxFields::AppCall(AppCallFields {
            application_id: 77,
            on_completion: OnCompletion::OptInOC,
            application_args: vec![vec![1, 2], vec![3]],
            accounts: vec![Address([9u8; 32])],
            foreign_apps: vec![5, 6],
            foreign_assets: vec![],
            local_state_schema: StateSchema { num_uint: 1, num_byte_slice: 0 },
            global_state_schema: StateSchema { num_uint: 0, num_byte_slice: 0 },
            approval_program: vec![0x20],
            clear_state_program: vec![0x21],
            extra_program_pages: 0,
        }),
    };
    let bytes = t.encode();
    let back = Transaction::decode(&bytes).expect("canonical bytes decode");
    assert_eq!(back.encode(), bytes);
    assert!(back == t);
}

#[test]
fn asset_transfer_round_trip() {
    let t = Transaction {
        header: sample_header(),
        fields: TxFields::AssetTransfer(AssetTransferFields {
            transfer_asset: 31337,
            asset_amount: 12,
            asset_sender: Address([0u8; 32]),
            asset_receiver: Address([8u8; 32]),
            asset_close_to: Address([0u8; 32]),
        }),
    };
    let bytes = t.encode();
    let back = Transaction::decode(&bytes).expect("canonical bytes decode");
    assert_eq!(back.encode(), bytes);
    assert!(back == t);
}

#[test]
fn transaction_decode_rejects_garbage() {
    let garbage: Vec<u8> = vec![7, 7, 7];
    assert!(Transaction::decode(&garbage).is_err());
}

#[test]
fn transaction_type_tag_is_present() {
    // The discriminator tag "type" appears in the encoding even when every
    // variant field holds its default.
    let t = Transaction {
        header: sample_header(),
        fields: TxFields::Payment(PaymentFields {
            receiver: Address([0u8; 32]),
            amount: MicroAlgos(0),
            close_remainder_to: None,
        }),
    };
    let bytes = t.encode();
    let needle = b"type";
    let found = bytes.windows(4).any(|w| w == needle);
    assert!(found);
}

#[test]
fn signed_transaction_encoding_is_deterministic() {
    let make = || SignedTx {
        sig: Signature([0u8; 64]),
        msig: Some(MultisigSignature {
            version: 1,
            threshold: 1,
            subsigs: vec![MultisigSubsig { key: PublicKey([4u8; 32]), sig: Some(Signature([5u8; 64])) }],
        }),
        lsig: None,
        tx: sample_payment(),
        auth_addr: Address([0u8; 32]),
    };
    let s1 = make();
    let s2 = make();
    assert_eq!(s1.encode(), s2.encode());
    // the zero signature sentinel is omitted; the msig and txn tags appear
    let bytes = s1.encode();
    assert!(bytes.windows(4).any(|w| w == b"msig"));
    assert!(bytes.windows(3).any(|w| w == b"txn"));
    assert!(!bytes.windows(4).any(|w| w == b"sgnr"));
}
