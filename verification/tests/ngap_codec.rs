//! NGAP encoding and decoding.

use bytes::Bytes;
use midn_core::ap::{decode_pdu_wrapper, encode_pdu_wrapper, write_ie_container, PDU_CHOICE_INITIATING_MESSAGE};
use midn_core::error::ProtoError;
use midn_core::ngap::codec::{read_user_location_info, write_user_location_info};
use midn_core::ngap::ie_ids as ie;
use midn_core::ngap::{
    decode_ngap_pdu, encode_ngap_pdu, NgapCause, NgapDownlinkNasTransport, NgapInitialContextSetupRequest,
    NgapInitialContextSetupResponse, NgapInitialUeMessage, NgapMessage, NgapUeContextReleaseComplete,
    NgapUplinkNasTransport, PduSessionSetupItem, PduSessionToSetup,
};
use midn_core::per::{PerReader, PerWriter};

#[test]
fn initial_ue_message_round_trip() {
    let msg = NgapInitialUeMessage {
        ran_ue_ngap_id: 0x0001_0001,
        nas_pdu: Bytes::from_static(&[0x7E, 0x00, 0x41]),
        tai: [0x00, 0x01, 0x02, 0x00, 0x00, 0x01],
        nr_cgi: [0x00, 0x01, 0x02, 0x10, 0x20, 0x30, 0x40, 0x50, 0x60],
        rrc_establishment_cause: 3,
    };

    let bytes = encode_ngap_pdu(&NgapMessage::InitialUeMessage(msg.clone())).unwrap();
    let decoded = decode_ngap_pdu(&bytes).unwrap();

    match decoded {
        NgapMessage::InitialUeMessage(d) => {
            assert_eq!(d.ran_ue_ngap_id, msg.ran_ue_ngap_id);
            assert_eq!(d.nas_pdu, msg.nas_pdu);
            assert_eq!(d.tai, msg.tai);
            assert_eq!(d.nr_cgi, msg.nr_cgi);
            assert_eq!(d.rrc_establishment_cause, msg.rrc_establishment_cause);
        }
        other => panic!("wrong variant decoded: {other:?}"),
    }
}

#[test]
fn uplink_nas_transport_round_trip() {
    let msg = NgapUplinkNasTransport {
        amf_ue_ngap_id: 0xCAFEBABE,
        ran_ue_ngap_id: 0x0001_0002,
        nas_pdu: Bytes::from_static(&[0x7E, 0x02, 0x08, 0xA5, 0x42, 0x11, 0xD5, 0xE3, 0xBA, 0x50, 0xBF]),
        tai: [1, 2, 3, 0, 0, 4],
        nr_cgi: [9, 8, 7, 6, 5, 4, 3, 2, 1],
    };

    let bytes = encode_ngap_pdu(&NgapMessage::UplinkNasTransport(msg.clone())).unwrap();
    let decoded = decode_ngap_pdu(&bytes).unwrap();

    match decoded {
        NgapMessage::UplinkNasTransport(d) => {
            assert_eq!(d.amf_ue_ngap_id, msg.amf_ue_ngap_id);
            assert_eq!(d.ran_ue_ngap_id, msg.ran_ue_ngap_id);
            assert_eq!(d.nas_pdu, msg.nas_pdu);
            assert_eq!(d.tai, msg.tai);
            assert_eq!(d.nr_cgi, msg.nr_cgi);
        }
        other => panic!("wrong variant decoded: {other:?}"),
    }
}

#[test]
fn downlink_nas_transport_round_trip() {
    let msg = NgapDownlinkNasTransport {
        amf_ue_ngap_id: 42,
        ran_ue_ngap_id: 7,
        nas_pdu: Bytes::from_static(&[0x7E, 0x00, 0x42, 0x01]),
    };

    let bytes = encode_ngap_pdu(&NgapMessage::DownlinkNasTransport(msg.clone())).unwrap();
    let decoded = decode_ngap_pdu(&bytes).unwrap();

    match decoded {
        NgapMessage::DownlinkNasTransport(d) => {
            assert_eq!(d.amf_ue_ngap_id, msg.amf_ue_ngap_id);
            assert_eq!(d.ran_ue_ngap_id, msg.ran_ue_ngap_id);
            assert_eq!(d.nas_pdu, msg.nas_pdu);
        }
        other => panic!("wrong variant decoded: {other:?}"),
    }
}

#[test]
fn initial_context_setup_request_round_trip() {
    let msg = NgapInitialContextSetupRequest {
        amf_ue_ngap_id: 0xCAFEBABE,
        ran_ue_ngap_id: 7,
        pdu_sessions: vec![PduSessionToSetup {
            pdu_session_id: 1,
            qfi: 9,
            gtp_teid: [0x00, 0x02, 0x00, 0x01],
            transport_layer_addr: [10, 0, 0, 1],
        }],
        nas_pdu: Some(Bytes::from_static(&[0x7E, 0x02, 0x42, 0x01])),
        ue_ambr: (50_000_000, 50_000_000),
        security_key: [0xAB; 32],
    };

    let bytes = encode_ngap_pdu(&NgapMessage::InitialContextSetupRequest(msg.clone())).unwrap();
    let decoded = decode_ngap_pdu(&bytes).unwrap();

    match decoded {
        NgapMessage::InitialContextSetupRequest(d) => {
            assert_eq!(d.amf_ue_ngap_id, msg.amf_ue_ngap_id);
            assert_eq!(d.ran_ue_ngap_id, msg.ran_ue_ngap_id);
            assert_eq!(d.pdu_sessions.len(), 1);
            assert_eq!(d.pdu_sessions[0].pdu_session_id, msg.pdu_sessions[0].pdu_session_id);
            assert_eq!(d.pdu_sessions[0].qfi, msg.pdu_sessions[0].qfi);
            assert_eq!(d.pdu_sessions[0].gtp_teid, msg.pdu_sessions[0].gtp_teid);
            assert_eq!(d.pdu_sessions[0].transport_layer_addr, msg.pdu_sessions[0].transport_layer_addr);
            assert_eq!(d.nas_pdu, msg.nas_pdu);
            assert_eq!(d.ue_ambr, msg.ue_ambr);
            assert_eq!(d.security_key, msg.security_key);
        }
        other => panic!("wrong variant decoded: {other:?}"),
    }
}

#[test]
fn initial_context_setup_request_round_trip_no_pdu_session_no_nas_pdu() {
    // Both `pdu_sessions` and `nas_pdu` are optional in practice
    // (Phase A never bundles either) — confirms the `if !...is_empty()`/
    // `if let Some(...)` guards correctly omit the IE entirely rather
    // than writing a degenerate empty one.
    let msg = NgapInitialContextSetupRequest {
        amf_ue_ngap_id: 1,
        ran_ue_ngap_id: 2,
        pdu_sessions: vec![],
        nas_pdu: None,
        ue_ambr: (1, 1),
        security_key: [0u8; 32],
    };

    let bytes = encode_ngap_pdu(&NgapMessage::InitialContextSetupRequest(msg.clone())).unwrap();
    let decoded = decode_ngap_pdu(&bytes).unwrap();

    match decoded {
        NgapMessage::InitialContextSetupRequest(d) => {
            assert!(d.pdu_sessions.is_empty());
            assert!(d.nas_pdu.is_none());
        }
        other => panic!("wrong variant decoded: {other:?}"),
    }
}

#[test]
fn initial_context_setup_response_round_trip() {
    let msg = NgapInitialContextSetupResponse {
        amf_ue_ngap_id: 42,
        ran_ue_ngap_id: 7,
        pdu_sessions_setup: vec![PduSessionSetupItem {
            pdu_session_id: 1,
            transport_layer_addr: [172, 16, 0, 5],
            gtp_teid: [0xAA, 0xBB, 0xCC, 0xDD],
        }],
        pdu_sessions_failed: vec![2, 3],
    };

    let bytes = encode_ngap_pdu(&NgapMessage::InitialContextSetupResponse(msg.clone())).unwrap();
    let decoded = decode_ngap_pdu(&bytes).unwrap();

    match decoded {
        NgapMessage::InitialContextSetupResponse(d) => {
            assert_eq!(d.amf_ue_ngap_id, msg.amf_ue_ngap_id);
            assert_eq!(d.ran_ue_ngap_id, msg.ran_ue_ngap_id);
            assert_eq!(d.pdu_sessions_setup.len(), 1);
            assert_eq!(d.pdu_sessions_setup[0].pdu_session_id, msg.pdu_sessions_setup[0].pdu_session_id);
            assert_eq!(d.pdu_sessions_setup[0].transport_layer_addr, msg.pdu_sessions_setup[0].transport_layer_addr);
            assert_eq!(d.pdu_sessions_setup[0].gtp_teid, msg.pdu_sessions_setup[0].gtp_teid);
            assert_eq!(d.pdu_sessions_failed, msg.pdu_sessions_failed);
        }
        other => panic!("wrong variant decoded: {other:?}"),
    }
}

#[test]
fn initial_context_setup_request_and_response_share_procedure_code_but_not_choice() {
    // Both PDUs carry PROC_INITIAL_CONTEXT_SETUP: the decoder tells them apart
    // by the PDU choice.
    let req = NgapInitialContextSetupRequest {
        amf_ue_ngap_id: 1, ran_ue_ngap_id: 1, pdu_sessions: vec![],
        nas_pdu: None, ue_ambr: (1, 1), security_key: [0u8; 32],
    };
    let resp = NgapInitialContextSetupResponse {
        amf_ue_ngap_id: 1, ran_ue_ngap_id: 1,
        pdu_sessions_setup: vec![], pdu_sessions_failed: vec![],
    };

    let req_bytes = encode_ngap_pdu(&NgapMessage::InitialContextSetupRequest(req)).unwrap();
    let resp_bytes = encode_ngap_pdu(&NgapMessage::InitialContextSetupResponse(resp)).unwrap();

    assert!(matches!(decode_ngap_pdu(&req_bytes).unwrap(), NgapMessage::InitialContextSetupRequest(_)));
    assert!(matches!(decode_ngap_pdu(&resp_bytes).unwrap(), NgapMessage::InitialContextSetupResponse(_)));
}

#[test]
fn ue_context_release_command_round_trip() {
    for cause in [
        NgapCause::RadioNetworkUnspecified,
        NgapCause::TransportUnspecified,
        NgapCause::NasNormalRelease,
        NgapCause::NasDeregister,
        NgapCause::NasAuthFailure,
        NgapCause::ProtocolUnspecified,
        NgapCause::MiscUnspecified,
    ] {
        let msg =
            NgapMessage::UeContextReleaseCommand { amf_ue_ngap_id: 0xCAFEBABE, ran_ue_ngap_id: 7, cause };
        let bytes = encode_ngap_pdu(&msg).unwrap();
        match decode_ngap_pdu(&bytes).unwrap() {
            NgapMessage::UeContextReleaseCommand { amf_ue_ngap_id, ran_ue_ngap_id, cause: d } => {
                assert_eq!(amf_ue_ngap_id, 0xCAFEBABE);
                assert_eq!(ran_ue_ngap_id, 7);
                assert_eq!(d, cause);
            }
            other => panic!("wrong variant decoded: {other:?}"),
        }
    }
}

#[test]
fn ue_context_release_complete_round_trip() {
    let msg = NgapUeContextReleaseComplete { amf_ue_ngap_id: 0xCAFEBABE, ran_ue_ngap_id: 7 };
    let bytes = encode_ngap_pdu(&NgapMessage::UeContextReleaseComplete(msg.clone())).unwrap();
    match decode_ngap_pdu(&bytes).unwrap() {
        NgapMessage::UeContextReleaseComplete(d) => {
            assert_eq!(d.amf_ue_ngap_id, msg.amf_ue_ngap_id);
            assert_eq!(d.ran_ue_ngap_id, msg.ran_ue_ngap_id);
        }
        other => panic!("wrong variant decoded: {other:?}"),
    }
}

#[test]
fn ue_context_release_command_and_complete_share_procedure_code_but_not_choice() {
    let cmd = NgapMessage::UeContextReleaseCommand {
        amf_ue_ngap_id: 1, ran_ue_ngap_id: 1, cause: NgapCause::NasDeregister,
    };
    let complete = NgapMessage::UeContextReleaseComplete(NgapUeContextReleaseComplete {
        amf_ue_ngap_id: 1, ran_ue_ngap_id: 1,
    });

    let cmd_bytes = encode_ngap_pdu(&cmd).unwrap();
    let complete_bytes = encode_ngap_pdu(&complete).unwrap();

    let (cmd_choice, cmd_proc, ..) = decode_pdu_wrapper(&cmd_bytes).unwrap();
    let (complete_choice, complete_proc, ..) = decode_pdu_wrapper(&complete_bytes).unwrap();

    assert_eq!(cmd_proc, ie::PROC_UE_CONTEXT_RELEASE);
    assert_eq!(complete_proc, ie::PROC_UE_CONTEXT_RELEASE);
    assert_ne!(cmd_choice, complete_choice, "Command/Complete must differ in PDU choice, not procedure code");

    assert!(matches!(decode_ngap_pdu(&cmd_bytes).unwrap(), NgapMessage::UeContextReleaseCommand { .. }));
    assert!(matches!(decode_ngap_pdu(&complete_bytes).unwrap(), NgapMessage::UeContextReleaseComplete(_)));
}

#[test]
fn unsupported_variant_returns_error_not_garbage() {
    // NgSetupRequest has no wire encoding.
    let result = encode_ngap_pdu(&NgapMessage::NgSetupRequest);
    assert!(result.is_err(), "out-of-scope variants must error, not silently mis-encode");
}

#[test]
fn decode_rejects_truncated_buffer() {
    assert!(decode_ngap_pdu(&[0x00]).is_err());
}

#[test]
fn decode_rejects_unknown_procedure_code() {
    let mut value_w = PerWriter::new();
    write_ie_container(&mut value_w, &[]);
    let bytes = encode_pdu_wrapper(PDU_CHOICE_INITIATING_MESSAGE, 250, ie::CRITICALITY_IGNORE, &value_w.into_bytes());
    assert!(decode_ngap_pdu(&bytes).is_err());
}

#[test]
fn user_location_info_round_trip() {
    let mut w = PerWriter::new();
    let nr_cgi = [1u8, 2, 3, 4, 5, 6, 7, 8, 9];
    let tai = [10u8, 11, 12, 13, 14, 15];
    write_user_location_info(&mut w, &nr_cgi, &tai);
    let bytes = w.into_bytes();
    let mut r = PerReader::new(&bytes);
    let (d_cgi, d_tai) = read_user_location_info(&mut r).unwrap();
    assert_eq!(d_cgi, nr_cgi);
    assert_eq!(d_tai, tai);
}

fn int_value(v: u64, max: u64) -> Vec<u8> {
    let mut w = PerWriter::new();
    w.write_constrained_int(v, 0, max);
    w.into_bytes()
}

#[test]
fn order_criticality_and_unknown_ies_do_not_matter() {
    let amf = int_value(5, ie::AMF_UE_NGAP_ID_MAX);
    let ran = int_value(7, ie::RAN_UE_NGAP_ID_MAX);
    let cause = int_value(3, ie::CAUSE_MAX);
    let mut value_w = PerWriter::new();
    write_ie_container(
        &mut value_w,
        &[
            (ie::ID_CAUSE, ie::CRITICALITY_REJECT, cause),
            (60_000, ie::CRITICALITY_IGNORE, vec![1, 2, 3]),
            (ie::ID_RAN_UE_NGAP_ID, ie::CRITICALITY_IGNORE, ran),
            (ie::ID_AMF_UE_NGAP_ID, ie::CRITICALITY_IGNORE, amf),
        ],
    );
    let bytes = encode_pdu_wrapper(
        PDU_CHOICE_INITIATING_MESSAGE,
        ie::PROC_UE_CONTEXT_RELEASE,
        ie::CRITICALITY_REJECT,
        &value_w.into_bytes(),
    );
    assert!(matches!(
        decode_ngap_pdu(&bytes),
        Ok(NgapMessage::UeContextReleaseCommand {
            amf_ue_ngap_id: 5,
            ran_ue_ngap_id: 7,
            cause: NgapCause::NasDeregister
        })
    ));
}

#[test]
fn a_release_command_needs_both_identifiers_and_the_cause() {
    let entries = [
        (ie::ID_AMF_UE_NGAP_ID, ie::CRITICALITY_REJECT, int_value(5, ie::AMF_UE_NGAP_ID_MAX)),
        (ie::ID_RAN_UE_NGAP_ID, ie::CRITICALITY_REJECT, int_value(7, ie::RAN_UE_NGAP_ID_MAX)),
        (ie::ID_CAUSE, ie::CRITICALITY_IGNORE, int_value(3, ie::CAUSE_MAX)),
    ];
    for (missing, reason) in
        ["missing AMF-UE-NGAP-ID", "missing RAN-UE-NGAP-ID", "missing or invalid Cause"].into_iter().enumerate()
    {
        let mut left = entries.to_vec();
        left.remove(missing);
        let mut value_w = PerWriter::new();
        write_ie_container(&mut value_w, &left);
        let bytes = encode_pdu_wrapper(
            PDU_CHOICE_INITIATING_MESSAGE,
            ie::PROC_UE_CONTEXT_RELEASE,
            ie::CRITICALITY_IGNORE,
            &value_w.into_bytes(),
        );
        assert!(matches!(decode_ngap_pdu(&bytes), Err(ProtoError::MalformedNgap { reason: r }) if r == reason));
    }
}
