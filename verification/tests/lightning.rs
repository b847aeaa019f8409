use mostro::lightning::invoice::decode_invoice;
use mostro::lightning::{
    invoice_update, payment_update, preimage_matches, InvoiceState, LnError, LndConfig,
    LndConnector, PaymentStatus, SendPaymentOutcome,
};

// A well-formed, signed 10-millisatoshi invoice.
const INVOICE_10_MSAT: &str = "lnbc100p1psj9jhxdqud3jxktt5w46x7unfv9kz6mn0v3jsnp4q0d3p2sfluzdx45tqcsh2pu5qc7lgq0xs578ngs6s0s68ua4h7cvspp5q6rmq35js88zp5dvwrv9m459tnk2zunwj5jalqtyxqulh0l5gflssp5nf55ny5gcrfl30xuhzj3nphgj27rstekmr9fw3ny5989s300gyus9qyysgqcqpcrzjqw2sxwe993h5pcm4dxzpvttgza8zhkqxpgffcrf5v25nwpr3cmfg7z54kuqq8rgqqqqqqqq2qqqqq9qq9qrzjqd0ylaqclj9424x9m8h2vcukcgnm6s56xfgu3j78zyqzhgs4hlpzvznlugqq9vsqqqqqqqlgqqqqqeqq9qrzjqwldmj9dha74df76zhx6l9we0vjdquygcdt3kssupehe64g6yyp5yz5rhuqqwccqqyqqqqlgqqqqjcqq9qrzjqf9e58aguqr0rcun0ajlvmzq3ek63cw2w282gv3z5uupmuwvgjtq2z55qsqqg6qqqyqqqrtnqqqzq3cqygrzjqvphmsywntrrhqjcraumvc4y6r8v4z5v593trte429v4hredj7ms5z52usqq9ngqqqqqqqlgqqqqqqgq9qrzjq2v0vp62g49p7569ev48cmulecsxe59lvaw3wlxm7r982zxa9zzj7z5l0cqqxusqqyqqqqlgqqqqqzsqygarl9fh38s0gyuxjjgux34w75dnc6xp2l35j7es3jd4ugt3lu0xzre26yg5m7ke54n2d5sym4xcmxtl8238xxvw5h5h5j5r6drg6k6zcqj0fcwg";

fn config() -> LndConfig {
    LndConfig {
        host: String::from("127.0.0.1"),
        port: 10009,
        tls_path: String::from("tls.cert"),
        macaroon_path: String::from("admin.macaroon"),
        cltv_delta: 144,
    }
}

fn to_hex(bytes: &[u8]) -> String {
    let digits = b"0123456789abcdef";
    let mut out = String::new();
    for b in bytes {
        out.push(digits[(b >> 4) as usize] as char);
        out.push(digits[(b & 0x0f) as usize] as char);
    }
    out
}

#[test]
fn create_hold_invoice_hashes_its_preimage() {
    let mut connector = LndConnector::new(config());
    let (request, preimage, hash) = connector
        .create_hold_invoice("escrow for order 42", 7000)
        .expect("creating the first hold invoice must succeed");

    assert_eq!(preimage.len(), 32);
    assert_eq!(hash.len(), 32);
    assert!(preimage_matches(&preimage, &hash));
    assert_eq!(request.hash, hash);
    assert_eq!(request.memo, "escrow for order 42");
    assert_eq!(request.value, 7000);
    assert_eq!(request.cltv_expiry, 144);
}

#[test]
fn fresh_preimages_give_fresh_hashes() {
    let mut connector = LndConnector::new(config());
    let (_, p1, h1) = connector.create_hold_invoice("a", 1).expect("first create");
    let (_, p2, h2) = connector.create_hold_invoice("b", 2).expect("second create");
    assert_ne!(p1, p2, "preimages must be drawn fresh");
    assert_ne!(h1, h2);
}

#[test]
fn sha256_digest_matches_a_known_vector() {
    let abc = vec![0x61, 0x62, 0x63];
    let digest =
        mostro::hex::hex_decode("ba7816bf8f01cfea414140de5dae2223b00361a396177a9cb410ff61f20015ad")
            .expect("digest hex must decode");
    assert!(preimage_matches(&abc, &digest));
    let wrong =
        mostro::hex::hex_decode("ba7816bf8f01cfea414140de5dae2223b00361a396177a9cb410ff61f20015ae")
            .expect("hex must decode");
    assert!(!preimage_matches(&abc, &wrong));
    assert!(!preimage_matches(&abc, &abc), "a digest never echoes its input here");
}

#[test]
fn settle_accepts_exactly_the_matching_preimage() {
    let mut connector = LndConnector::new(config());
    let (_, preimage, _hash) = connector.create_hold_invoice("escrow", 7000).expect("create");

    let mut wrong = preimage.clone();
    wrong[0] ^= 0xff;
    assert_eq!(
        connector.settle_hold_invoice(&to_hex(&wrong)),
        Err(LnError::NodeError),
        "a preimage with another digest names no invoice"
    );

    let settled = connector
        .settle_hold_invoice(&to_hex(&preimage))
        .expect("the matching preimage must settle");
    assert_eq!(settled, preimage);
}

#[test]
fn settle_and_cancel_are_terminal_and_exclusive() {
    let mut connector = LndConnector::new(config());
    let (_, preimage, hash) = connector.create_hold_invoice("escrow", 7000).expect("create");
    let preimage_hex = to_hex(&preimage);
    let hash_hex = to_hex(&hash);

    assert!(connector.settle_hold_invoice(&preimage_hex).is_ok());
    assert_eq!(connector.settle_hold_invoice(&preimage_hex), Err(LnError::NodeError));
    assert_eq!(connector.cancel_hold_invoice(&hash_hex), Err(LnError::NodeError));

    let (_, p2, h2) = connector.create_hold_invoice("escrow two", 100).expect("create");
    assert!(connector.cancel_hold_invoice(&to_hex(&h2)).is_ok());
    assert_eq!(connector.cancel_hold_invoice(&to_hex(&h2)), Err(LnError::NodeError));
    assert_eq!(connector.settle_hold_invoice(&to_hex(&p2)), Err(LnError::NodeError));
}

#[test]
fn node_events_move_the_record_until_a_terminal_state() {
    let mut connector = LndConnector::new(config());
    let (_, preimage, hash) = connector.create_hold_invoice("escrow", 7000).expect("create");

    let accepted = invoice_update(&hash, 3).expect("state 3 is accepted");
    assert!(connector.record_invoice_update(&accepted), "an open invoice can be accepted");
    assert!(connector.settle_hold_invoice(&to_hex(&preimage)).is_ok());

    let reopened = invoice_update(&hash, 0).expect("state 0 is open");
    assert!(
        !connector.record_invoice_update(&reopened),
        "no event reopens a settled invoice"
    );
    let unknown_hash = vec![7u8; 32];
    let stray = invoice_update(&unknown_hash, 1).expect("state 1 is settled");
    assert!(!connector.record_invoice_update(&stray), "an unknown hash moves nothing");
}

#[test]
fn malformed_hex_is_rejected_up_front() {
    let mut connector = LndConnector::new(config());
    assert_eq!(connector.settle_hold_invoice("zz"), Err(LnError::InvalidPreimage));
    assert_eq!(connector.settle_hold_invoice("abc"), Err(LnError::InvalidPreimage));
    assert_eq!(connector.cancel_hold_invoice("0g"), Err(LnError::InvalidHash));
}

#[test]
fn decode_invoice_extracts_hash_and_amount() {
    let decoded = decode_invoice(INVOICE_10_MSAT).expect("the invoice is well-formed");
    assert_eq!(decoded.payment_hash.len(), 32);
    assert_eq!(decoded.amount_msat, Some(10));

    assert!(matches!(decode_invoice("junk"), Err(LnError::DecodeError)));
    assert!(matches!(decode_invoice(""), Err(LnError::DecodeError)));
}

#[test]
fn send_payment_aborts_the_second_attempt() {
    let mut connector = LndConnector::new(config());

    match connector.send_payment(INVOICE_10_MSAT, 9999) {
        SendPaymentOutcome::Attempt(request) => {
            assert_eq!(request.payment_request, INVOICE_10_MSAT);
            assert_eq!(request.timeout_seconds, 60);
            assert_eq!(request.amt, None, "the invoice's own amount wins");
        },
        _ => panic!("the first attempt must go out"),
    }

    assert!(matches!(
        connector.send_payment(INVOICE_10_MSAT, 9999),
        SendPaymentOutcome::AlreadyTracked
    ));
}

#[test]
fn send_payment_rejects_an_undecodable_invoice() {
    let mut connector = LndConnector::new(config());
    assert!(matches!(
        connector.send_payment("lnbc1notaninvoice", 5),
        SendPaymentOutcome::DecodeFailed
    ));
    assert!(matches!(
        connector.send_payment(INVOICE_10_MSAT, 5),
        SendPaymentOutcome::Attempt(_)
    ), "a failed decode must not poison later attempts");
}

#[test]
fn update_events_follow_the_node_numbering() {
    let hash = vec![9u8; 32];
    let open = invoice_update(&hash, 0).expect("state 0 is open");
    assert_eq!(open.hash, hash);
    assert!(matches!(open.state, InvoiceState::Open));
    assert!(matches!(invoice_update(&hash, 1).expect("settled").state, InvoiceState::Settled));
    assert!(matches!(invoice_update(&hash, 2).expect("canceled").state, InvoiceState::Canceled));
    assert!(matches!(invoice_update(&hash, 3).expect("accepted").state, InvoiceState::Accepted));
    assert!(invoice_update(&hash, 7).is_none());

    assert!(matches!(payment_update(0).expect("unknown").status, PaymentStatus::Unknown));
    assert!(matches!(payment_update(1).expect("in flight").status, PaymentStatus::InFlight));
    assert!(matches!(payment_update(2).expect("succeeded").status, PaymentStatus::Succeeded));
    assert!(matches!(payment_update(3).expect("failed").status, PaymentStatus::Failed));
    assert!(payment_update(-1).is_none());
}
