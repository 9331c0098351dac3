//! S1AP encoding and decoding.

use bytes::Bytes;
use midn_core::ap::{
    decode_pdu_wrapper, encode_pdu_wrapper, write_ie_container, PDU_CHOICE_INITIATING_MESSAGE,
    PDU_CHOICE_SUCCESSFUL_OUTCOME,
};
use midn_core::per::PerWriter;
use midn_core::s1ap::ie_ids as ie;
use midn_core::s1ap::{
    decode_s1ap_pdu, encode_s1ap_pdu, DownlinkNasTransport, ErabSetupItem, ErabToSetup, InitialContextSetupRequest,
    InitialContextSetupResponse, InitialUeMessage, S1apCause, S1apMessage, UplinkNasTransport,
};

#[test]
fn codec_initial_ue_message_round_trip() {
    let msg = InitialUeMessage {
        enb_ue_s1ap_id: 0x0001_0001,
        nas_pdu: Bytes::from_static(&[0x07, 0x41, 0x00]),
        tai: [0x00, 0x01, 0x02, 0x00, 0x01],
        eutran_cgi: [0x00, 0x01, 0x02, 0x10, 0x20, 0x30, 0x40],
        rrc_cause: 3,
    };

    let bytes = encode_s1ap_pdu(&S1apMessage::InitialUeMessage(msg.clone())).unwrap();
    let decoded = decode_s1ap_pdu(&bytes).unwrap();

    match decoded {
        S1apMessage::InitialUeMessage(d) => {
            assert_eq!(d.enb_ue_s1ap_id, msg.enb_ue_s1ap_id);
            assert_eq!(d.nas_pdu, msg.nas_pdu);
            assert_eq!(d.tai, msg.tai);
            assert_eq!(d.eutran_cgi, msg.eutran_cgi);
            assert_eq!(d.rrc_cause, msg.rrc_cause);
        }
        other => panic!("wrong variant decoded: {other:?}"),
    }
}

#[test]
fn codec_uplink_nas_transport_round_trip() {
    let msg = UplinkNasTransport {
        mme_ue_s1ap_id: 0xCAFEBABE,
        enb_ue_s1ap_id: 0x0001_0002,
        nas_pdu: Bytes::from_static(&[0x07, 0x53, 0x08, 0xA5, 0x42, 0x11, 0xD5, 0xE3, 0xBA, 0x50, 0xBF]),
        tai: [1, 2, 3, 4, 5],
        eutran_cgi: [9, 8, 7, 6, 5, 4, 3],
    };

    let bytes = encode_s1ap_pdu(&S1apMessage::UplinkNasTransport(msg.clone())).unwrap();
    let decoded = decode_s1ap_pdu(&bytes).unwrap();

    match decoded {
        S1apMessage::UplinkNasTransport(d) => {
            assert_eq!(d.mme_ue_s1ap_id, msg.mme_ue_s1ap_id);
            assert_eq!(d.enb_ue_s1ap_id, msg.enb_ue_s1ap_id);
            assert_eq!(d.nas_pdu, msg.nas_pdu);
            assert_eq!(d.tai, msg.tai);
            assert_eq!(d.eutran_cgi, msg.eutran_cgi);
        }
        other => panic!("wrong variant decoded: {other:?}"),
    }
}

#[test]
fn codec_downlink_nas_transport_round_trip() {
    let msg = DownlinkNasTransport {
        mme_ue_s1ap_id: 42,
        enb_ue_s1ap_id: 7,
        nas_pdu: Bytes::from_static(&[0x07, 0x5D, 0x24, 0x70]),
    };

    let bytes = encode_s1ap_pdu(&S1apMessage::DownlinkNasTransport(msg.clone())).unwrap();
    let decoded = decode_s1ap_pdu(&bytes).unwrap();

    match decoded {
        S1apMessage::DownlinkNasTransport(d) => {
            assert_eq!(d.mme_ue_s1ap_id, msg.mme_ue_s1ap_id);
            assert_eq!(d.enb_ue_s1ap_id, msg.enb_ue_s1ap_id);
            assert_eq!(d.nas_pdu, msg.nas_pdu);
        }
        other => panic!("wrong variant decoded: {other:?}"),
    }
}

#[test]
fn codec_initial_context_setup_request_round_trip() {
    let msg = InitialContextSetupRequest {
        mme_ue_s1ap_id: 0xCAFEBABE,
        enb_ue_s1ap_id: 7,
        e_rabs: vec![ErabToSetup {
            erab_id: 5,
            qci: 9,
            gtp_teid: [0x00, 0x02, 0x00, 0x01],
            transport_layer_addr: [10, 0, 0, 1],
        }],
        nas_pdu: Some(Bytes::from_static(&[0x07, 0x42, 0x01, 0x02])),
        ue_ambr: (50_000_000, 50_000_000),
        security_key: [0x5Au8; 32],
    };

    let bytes = encode_s1ap_pdu(&S1apMessage::InitialContextSetupRequest(msg.clone())).unwrap();
    let decoded = decode_s1ap_pdu(&bytes).unwrap();

    match decoded {
        S1apMessage::InitialContextSetupRequest(d) => {
            assert_eq!(d.mme_ue_s1ap_id, msg.mme_ue_s1ap_id);
            assert_eq!(d.enb_ue_s1ap_id, msg.enb_ue_s1ap_id);
            assert_eq!(d.e_rabs.len(), 1);
            assert_eq!(d.e_rabs[0].erab_id, msg.e_rabs[0].erab_id);
            assert_eq!(d.e_rabs[0].qci, msg.e_rabs[0].qci);
            assert_eq!(d.e_rabs[0].gtp_teid, msg.e_rabs[0].gtp_teid);
            assert_eq!(d.e_rabs[0].transport_layer_addr, msg.e_rabs[0].transport_layer_addr);
            assert_eq!(d.nas_pdu, msg.nas_pdu);
            assert_eq!(d.ue_ambr, msg.ue_ambr);
            assert_eq!(d.security_key, msg.security_key);
        }
        other => panic!("wrong variant decoded: {other:?}"),
    }
}

#[test]
fn initial_context_setup_request_round_trip_no_erabs_no_nas_pdu() {
    let msg = InitialContextSetupRequest {
        mme_ue_s1ap_id: 1,
        enb_ue_s1ap_id: 1,
        e_rabs: vec![],
        nas_pdu: None,
        ue_ambr: (1_000, 1_000),
        security_key: [0u8; 32],
    };

    let bytes = encode_s1ap_pdu(&S1apMessage::InitialContextSetupRequest(msg.clone())).unwrap();
    let decoded = decode_s1ap_pdu(&bytes).unwrap();

    match decoded {
        S1apMessage::InitialContextSetupRequest(d) => {
            assert!(d.e_rabs.is_empty());
            assert!(d.nas_pdu.is_none());
            assert_eq!(d.ue_ambr, msg.ue_ambr);
        }
        other => panic!("wrong variant decoded: {other:?}"),
    }
}

#[test]
fn codec_initial_context_setup_response_round_trip() {
    let msg = InitialContextSetupResponse {
        mme_ue_s1ap_id: 42,
        enb_ue_s1ap_id: 7,
        e_rabs_setup: vec![ErabSetupItem {
            e_rab_id: 5,
            transport_layer_addr: [172, 16, 0, 5],
            gtp_teid: [0xAA, 0xBB, 0xCC, 0xDD],
        }],
        e_rabs_failed: vec![],
    };

    let bytes = encode_s1ap_pdu(&S1apMessage::InitialContextSetupResponse(msg.clone())).unwrap();
    let decoded = decode_s1ap_pdu(&bytes).unwrap();

    match decoded {
        S1apMessage::InitialContextSetupResponse(d) => {
            assert_eq!(d.mme_ue_s1ap_id, msg.mme_ue_s1ap_id);
            assert_eq!(d.enb_ue_s1ap_id, msg.enb_ue_s1ap_id);
            assert_eq!(d.e_rabs_setup.len(), 1);
            assert_eq!(d.e_rabs_setup[0].e_rab_id, msg.e_rabs_setup[0].e_rab_id);
            assert_eq!(d.e_rabs_setup[0].transport_layer_addr, msg.e_rabs_setup[0].transport_layer_addr);
            assert_eq!(d.e_rabs_setup[0].gtp_teid, msg.e_rabs_setup[0].gtp_teid);
            assert!(d.e_rabs_failed.is_empty());
        }
        other => panic!("wrong variant decoded: {other:?}"),
    }
}

#[test]
fn initial_context_setup_response_round_trip_with_failed_erab() {
    let msg = InitialContextSetupResponse {
        mme_ue_s1ap_id: 42,
        enb_ue_s1ap_id: 7,
        e_rabs_setup: vec![],
        e_rabs_failed: vec![6],
    };

    let bytes = encode_s1ap_pdu(&S1apMessage::InitialContextSetupResponse(msg.clone())).unwrap();
    let decoded = decode_s1ap_pdu(&bytes).unwrap();

    match decoded {
        S1apMessage::InitialContextSetupResponse(d) => {
            assert!(d.e_rabs_setup.is_empty());
            assert_eq!(d.e_rabs_failed, vec![6]);
        }
        other => panic!("wrong variant decoded: {other:?}"),
    }
}

#[test]
fn codec_initial_context_setup_request_and_response_share_procedure_code_but_not_choice() {
    let req = InitialContextSetupRequest {
        mme_ue_s1ap_id: 1,
        enb_ue_s1ap_id: 1,
        e_rabs: vec![],
        nas_pdu: None,
        ue_ambr: (1, 1),
        security_key: [0u8; 32],
    };
    let resp = InitialContextSetupResponse {
        mme_ue_s1ap_id: 1,
        enb_ue_s1ap_id: 1,
        e_rabs_setup: vec![],
        e_rabs_failed: vec![],
    };

    let req_bytes = encode_s1ap_pdu(&S1apMessage::InitialContextSetupRequest(req)).unwrap();
    let resp_bytes = encode_s1ap_pdu(&S1apMessage::InitialContextSetupResponse(resp)).unwrap();

    let (req_choice, req_proc, ..) = decode_pdu_wrapper(&req_bytes).unwrap();
    let (resp_choice, resp_proc, ..) = decode_pdu_wrapper(&resp_bytes).unwrap();

    assert_eq!(req_proc, ie::PROC_INITIAL_CONTEXT_SETUP);
    assert_eq!(resp_proc, ie::PROC_INITIAL_CONTEXT_SETUP);
    assert_ne!(req_choice, resp_choice, "Request/Response must differ in PDU choice, not procedure code");
    assert_eq!(req_choice, PDU_CHOICE_INITIATING_MESSAGE);
    assert_eq!(resp_choice, PDU_CHOICE_SUCCESSFUL_OUTCOME);

    // Decoding each other's bytes with the right dispatcher must land
    // on the right variant — proof `decode_s1ap_pdu` is actually
    // branching on choice, not just procedure code.
    assert!(matches!(
        decode_s1ap_pdu(&req_bytes).unwrap(),
        S1apMessage::InitialContextSetupRequest(_)
    ));
    assert!(matches!(
        decode_s1ap_pdu(&resp_bytes).unwrap(),
        S1apMessage::InitialContextSetupResponse(_)
    ));
}

#[test]
fn codec_unsupported_variant_returns_error_not_garbage() {
    let result = encode_s1ap_pdu(&S1apMessage::UeContextReleaseCommand {
        mme_ue_s1ap_id: 1,
        enb_ue_s1ap_id: 1,
        cause: S1apCause::NasNormalRelease,
    });
    assert!(result.is_err(), "out-of-scope variants must error, not silently mis-encode");
}

#[test]
fn codec_decode_rejects_truncated_buffer() {
    assert!(decode_s1ap_pdu(&[0x00]).is_err());
}

#[test]
fn codec_decode_rejects_unknown_procedure_code() {
    // Hand-build a PDU wrapper with a bogus procedure code (250) and an
    // empty IE container, to confirm the dispatcher actually checks it.
    let mut value_w = PerWriter::new();
    write_ie_container(&mut value_w, &[]);
    let bytes = encode_pdu_wrapper(PDU_CHOICE_INITIATING_MESSAGE, 250, ie::CRITICALITY_IGNORE, &value_w.into_bytes());
    assert!(decode_s1ap_pdu(&bytes).is_err());
}
