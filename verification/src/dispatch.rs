//! Relay dispatch: the per-request pipeline that wraps an inbound JSONRPC
//! payload in private data, hashes it, builds the unsigned descriptor,
//! serializes it canonically and signs it. Sending the signed envelope over
//! the provider connection is the transport's job around the library.
use vstd::prelude::*;
use vstd::string::StringExecFns;

use vstd::utf8::encode_utf8;

use crate::crypto::{recoverable_signature_of, sha256_of, sign_data, SigningKey};
use crate::relay_session::{generate_content_hash, serialize_relay_session, spec_content_bytes,
    spec_serialized_chars, RelayPrivateData, RelayPrivateDataView, RelaySession, RelaySessionView};
use crate::session_context::ProviderSession;
use crate::utils::{jsonrpc_interface, lava_chain_id, spec_id};

verus! {

/// Errors of one relay dispatch, surfaced to the single inbound request that
/// triggered them.
#[derive(Debug, PartialEq, Eq, Structural)]
pub enum DispatchError {
    /// The current ranking holds no provider to send to.
    NoProviderAvailable,
    /// The signing backend rejected the envelope.
    SigningFailure,
}

/// The private data of one inbound JSONRPC payload on the baseline path: a
/// POST to the root with the raw body as request data, no metadata, no
/// extensions, no addon, the latest block requested and no block seen.
pub open spec fn spec_baseline_private_data(payload: Seq<u8>) -> RelayPrivateDataView {
    RelayPrivateDataView {
        connection_type: "POST"@,
        api_url: Seq::empty(),
        data: payload,
        request_block: -1i64,
        api_interface: "jsonrpc"@,
        salt: Seq::empty(),
        metadata: Seq::empty(),
        addon: Seq::empty(),
        extensions: Seq::empty(),
        seen_block: 0,
    }
}

/// Wrap an inbound payload in the baseline private data.
pub fn build_relay_private_data(payload: Vec<u8>) -> (d: RelayPrivateData)
    ensures
        d@ == spec_baseline_private_data(payload@),
{
    let d = RelayPrivateData {
        connection_type: String::from_str("POST"),
        api_url: String::new(),
        data: payload,
        request_block: -1,
        api_interface: jsonrpc_interface(),
        salt: Vec::new(),
        metadata: Vec::new(),
        addon: String::new(),
        extensions: Vec::new(),
        seen_block: 0,
    };
    proof {
        assert(d@ =~~= spec_baseline_private_data(d.data@));
    }
    d
}

/// The unsigned descriptor of one dispatch: the fixed spec and chain
/// identifiers, the payload's content hash, the session counters as they
/// stand, the selected provider, and no optional reports.
pub open spec fn spec_unsigned_descriptor(
    content_hash: Seq<u8>,
    session: ProviderSession,
    provider: Seq<char>,
    epoch: i64,
) -> RelaySessionView {
    RelaySessionView {
        spec_id: "ETH1"@,
        content_hash: content_hash,
        session_id: session.session_id,
        cu_sum: session.cu_sum,
        provider: provider,
        relay_num: session.relay_num,
        qos_report: None,
        epoch: epoch,
        unresponsive_providers: Seq::empty(),
        lava_chain_id: "lava-testnet-2"@,
        sig: Seq::empty(),
        badge: None,
        qos_excellence_report: None,
    }
}

/// A signed envelope ready to send, with the private data it covers.
pub struct SignedRelay {
    pub relay_session: RelaySession,
    pub relay_data: RelayPrivateData,
}

/// The canonical bytes a dispatch signs: the serialized unsigned descriptor
/// of the payload's content hash under this session, provider and epoch.
pub open spec fn spec_signed_message(
    payload: Seq<u8>,
    session: ProviderSession,
    provider: Seq<char>,
    epoch: i64,
) -> Seq<u8> {
    encode_utf8(
        spec_serialized_chars(
            spec_unsigned_descriptor(
                sha256_of(spec_content_bytes(spec_baseline_private_data(payload))),
                session,
                provider,
                epoch,
            ),
        ),
    )
}

/// Build, hash, serialize and sign the envelope of one dispatch. The call
/// succeeds exactly when the backend signs the canonical unsigned descriptor
/// under the key; the descriptor then carries the payload's content hash
/// with the 65-byte recoverable signature embedded.
pub fn prepare_relay(
    payload: Vec<u8>,
    provider_address: String,
    session: &ProviderSession,
    epoch: i64,
    key: &SigningKey,
) -> (r: Result<SignedRelay, DispatchError>)
    ensures
        r is Ok <==> recoverable_signature_of(
            key@,
            sha256_of(spec_signed_message(payload@, *session, provider_address@, epoch)),
        ) is Some,
        r matches Ok(sr) ==> sr.relay_data@ == spec_baseline_private_data(payload@),
        r matches Ok(sr) ==> sr.relay_session@ == (RelaySessionView {
            sig: sr.relay_session@.sig,
            ..spec_unsigned_descriptor(
                sha256_of(spec_content_bytes(spec_baseline_private_data(payload@))),
                *session,
                provider_address@,
                epoch,
            )
        }),
        r matches Ok(sr) ==> (recoverable_signature_of(
            key@,
            sha256_of(spec_signed_message(payload@, *session, provider_address@, epoch)),
        ) matches Some(p) && sr.relay_session@.sig == seq![(27 + p.1) as u8] + p.0),
        r matches Ok(sr) ==> sr.relay_session@.sig.len() == 65 && 27 <= sr.relay_session@.sig[0]
            <= 30,
        r matches Err(e) ==> e == DispatchError::SigningFailure,
{
    let relay_data = build_relay_private_data(payload);
    let content_hash = generate_content_hash(&relay_data);
    let relay_session = RelaySession {
        spec_id: spec_id(),
        content_hash,
        session_id: session.session_id,
        cu_sum: session.cu_sum,
        provider: provider_address,
        relay_num: session.relay_num,
        qos_report: None,
        epoch,
        unresponsive_providers: Vec::new(),
        lava_chain_id: lava_chain_id(),
        sig: Vec::new(),
        badge: None,
        qos_excellence_report: None,
    };
    proof {
        assert(relay_session@ =~~= spec_unsigned_descriptor(
            sha256_of(spec_content_bytes(relay_data@)),
            *session,
            relay_session.provider@,
            epoch,
        ));
    }
    let serialized_relay_session = serialize_relay_session(&relay_session);
    match sign_data(serialized_relay_session.as_slice(), key) {
        Ok(signature) => {
            let RelaySession {
                spec_id: f_spec_id,
                content_hash: f_content_hash,
                session_id: f_session_id,
                cu_sum: f_cu_sum,
                provider: f_provider,
                relay_num: f_relay_num,
                qos_report: f_qos_report,
                epoch: f_epoch,
                unresponsive_providers: f_unresponsive,
                lava_chain_id: f_chain_id,
                sig: _,
                badge: f_badge,
                qos_excellence_report: f_excellence,
            } = relay_session;
            let signed = RelaySession {
                spec_id: f_spec_id,
                content_hash: f_content_hash,
                session_id: f_session_id,
                cu_sum: f_cu_sum,
                provider: f_provider,
                relay_num: f_relay_num,
                qos_report: f_qos_report,
                epoch: f_epoch,
                unresponsive_providers: f_unresponsive,
                lava_chain_id: f_chain_id,
                sig: signature,
                badge: f_badge,
                qos_excellence_report: f_excellence,
            };
            proof {
                assert(signed@ =~~= (RelaySessionView {
                    sig: signed@.sig,
                    ..spec_unsigned_descriptor(
                        sha256_of(spec_content_bytes(relay_data@)),
                        *session,
                        signed.provider@,
                        epoch,
                    )
                }));
            }
            Ok(SignedRelay { relay_session: signed, relay_data })
        },
        Err(_) => Err(DispatchError::SigningFailure),
    }
}

} // verus!
