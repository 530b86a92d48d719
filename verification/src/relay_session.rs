//! Canonical relay-envelope builder: the deterministic, order-fixed text
//! serialization of a relay session descriptor and the content hash of the
//! private request data. The byte-exact output is a wire contract: providers
//! verify the envelope signature against exactly these bytes.
use vstd::prelude::*;
use vstd::string::{StrSliceExecFns, StringExecFns, StringSliceAdditionalSpecFns};
use vstd::utf8::encode_utf8;

use crate::crypto::{sha256_digest, sha256_of};
use crate::utils::{append_bytes, byte_array_to_string, decimal_char, encode_uint64, escaped_bytes,
    push_char, u64_le_bytes};

verus! {

/// One metadata entry of the private request data.
pub struct Metadata {
    pub name: String,
    pub value: String,
}

/// Mathematical model of a metadata entry.
#[verifier::ext_equal]
pub ghost struct MetadataView {
    pub name: Seq<char>,
    pub value: Seq<char>,
}

impl View for Metadata {
    type V = MetadataView;

    open spec fn view(&self) -> MetadataView {
        MetadataView { name: self.name@, value: self.value@ }
    }
}

impl DeepView for Metadata {
    type V = MetadataView;

    open spec fn deep_view(&self) -> MetadataView {
        self@
    }
}

/// Quality-of-service figures as decimal strings.
pub struct QualityOfServiceReport {
    pub latency: String,
    pub availability: String,
    pub sync: String,
}

/// Mathematical model of a quality-of-service report.
#[verifier::ext_equal]
pub ghost struct QosReportView {
    pub latency: Seq<char>,
    pub availability: Seq<char>,
    pub sync: Seq<char>,
}

impl View for QualityOfServiceReport {
    type V = QosReportView;

    open spec fn view(&self) -> QosReportView {
        QosReportView {
            latency: self.latency@,
            availability: self.availability@,
            sync: self.sync@,
        }
    }
}

impl DeepView for QualityOfServiceReport {
    type V = QosReportView;

    open spec fn deep_view(&self) -> QosReportView {
        self@
    }
}

/// One provider reported as unresponsive.
pub struct ReportedProvider {
    pub address: String,
    pub disconnections: u64,
    pub errors: u64,
    pub timestamp_s: i64,
}

/// Mathematical model of a reported provider.
#[verifier::ext_equal]
pub ghost struct ReportedProviderView {
    pub address: Seq<char>,
    pub disconnections: u64,
    pub errors: u64,
    pub timestamp_s: i64,
}

impl View for ReportedProvider {
    type V = ReportedProviderView;

    open spec fn view(&self) -> ReportedProviderView {
        ReportedProviderView {
            address: self.address@,
            disconnections: self.disconnections,
            errors: self.errors,
            timestamp_s: self.timestamp_s,
        }
    }
}

impl DeepView for ReportedProvider {
    type V = ReportedProviderView;

    open spec fn deep_view(&self) -> ReportedProviderView {
        self@
    }
}

/// Delegated-authority voucher optionally attached to a descriptor. It is
/// carried through unchanged and takes no part in the canonical
/// serialization.
pub struct Badge {
    pub cu_allocation: u64,
    pub epoch: u64,
    pub address: String,
    pub project_sig: Vec<u8>,
}

/// Mathematical model of a badge.
#[verifier::ext_equal]
pub ghost struct BadgeView {
    pub cu_allocation: u64,
    pub epoch: u64,
    pub address: Seq<char>,
    pub project_sig: Seq<u8>,
}

impl View for Badge {
    type V = BadgeView;

    open spec fn view(&self) -> BadgeView {
        BadgeView {
            cu_allocation: self.cu_allocation,
            epoch: self.epoch,
            address: self.address@,
            project_sig: self.project_sig@,
        }
    }
}

impl DeepView for Badge {
    type V = BadgeView;

    open spec fn deep_view(&self) -> BadgeView {
        self@
    }
}

/// The signed envelope metadata of one relay.
pub struct RelaySession {
    pub spec_id: String,
    pub content_hash: Vec<u8>,
    pub session_id: u64,
    pub cu_sum: u64,
    pub provider: String,
    pub relay_num: u64,
    pub qos_report: Option<QualityOfServiceReport>,
    pub epoch: i64,
    pub unresponsive_providers: Vec<ReportedProvider>,
    pub lava_chain_id: String,
    pub sig: Vec<u8>,
    pub badge: Option<Badge>,
    pub qos_excellence_report: Option<QualityOfServiceReport>,
}

/// Mathematical model of a relay session descriptor.
#[verifier::ext_equal]
pub ghost struct RelaySessionView {
    pub spec_id: Seq<char>,
    pub content_hash: Seq<u8>,
    pub session_id: u64,
    pub cu_sum: u64,
    pub provider: Seq<char>,
    pub relay_num: u64,
    pub qos_report: Option<QosReportView>,
    pub epoch: i64,
    pub unresponsive_providers: Seq<ReportedProviderView>,
    pub lava_chain_id: Seq<char>,
    pub sig: Seq<u8>,
    pub badge: Option<BadgeView>,
    pub qos_excellence_report: Option<QosReportView>,
}

impl View for RelaySession {
    type V = RelaySessionView;

    open spec fn view(&self) -> RelaySessionView {
        RelaySessionView {
            spec_id: self.spec_id@,
            content_hash: self.content_hash@,
            session_id: self.session_id,
            cu_sum: self.cu_sum,
            provider: self.provider@,
            relay_num: self.relay_num,
            qos_report: self.qos_report.deep_view(),
            epoch: self.epoch,
            unresponsive_providers: self.unresponsive_providers.deep_view(),
            lava_chain_id: self.lava_chain_id@,
            sig: self.sig@,
            badge: self.badge.deep_view(),
            qos_excellence_report: self.qos_excellence_report.deep_view(),
        }
    }
}

/// The private request payload wrapper; only its content hash is ever signed.
pub struct RelayPrivateData {
    pub connection_type: String,
    pub api_url: String,
    pub data: Vec<u8>,
    pub request_block: i64,
    pub api_interface: String,
    pub salt: Vec<u8>,
    pub metadata: Vec<Metadata>,
    pub addon: String,
    pub extensions: Vec<String>,
    pub seen_block: i64,
}

/// Mathematical model of the private request data.
#[verifier::ext_equal]
pub ghost struct RelayPrivateDataView {
    pub connection_type: Seq<char>,
    pub api_url: Seq<char>,
    pub data: Seq<u8>,
    pub request_block: i64,
    pub api_interface: Seq<char>,
    pub salt: Seq<u8>,
    pub metadata: Seq<MetadataView>,
    pub addon: Seq<char>,
    pub extensions: Seq<Seq<char>>,
    pub seen_block: i64,
}

impl View for RelayPrivateData {
    type V = RelayPrivateDataView;

    open spec fn view(&self) -> RelayPrivateDataView {
        RelayPrivateDataView {
            connection_type: self.connection_type@,
            api_url: self.api_url@,
            data: self.data@,
            request_block: self.request_block,
            api_interface: self.api_interface@,
            salt: self.salt@,
            metadata: self.metadata.deep_view(),
            addon: self.addon@,
            extensions: self.extensions.deep_view(),
            seen_block: self.seen_block,
        }
    }
}

/// A field value of the canonical text encoding.
pub enum Value {
    String(String),
    Number(i64),
    Bytes(Vec<u8>),
    QoSReport(QualityOfServiceReport),
    ReportedProviders(Vec<ReportedProvider>),
}

/// Mathematical model of a field value.
#[verifier::ext_equal]
pub ghost enum ValueView {
    String(Seq<char>),
    Number(i64),
    Bytes(Seq<u8>),
    QoSReport(QosReportView),
    ReportedProviders(Seq<ReportedProviderView>),
}

impl View for Value {
    type V = ValueView;

    open spec fn view(&self) -> ValueView {
        match self {
            Value::String(s) => ValueView::String(s@),
            Value::Number(n) => ValueView::Number(*n),
            Value::Bytes(b) => ValueView::Bytes(b@),
            Value::QoSReport(q) => ValueView::QoSReport(q@),
            Value::ReportedProviders(ps) => ValueView::ReportedProviders(ps.deep_view()),
        }
    }
}

/// The decimal digit characters of a non-negative integer, most significant
/// first, with no leading zeros except for zero itself.
pub open spec fn dec_digits(n: nat) -> Seq<char>
    decreases n,
{
    if n < 10 {
        seq![decimal_char(n as u8)]
    } else {
        dec_digits(n / 10) + seq![decimal_char((n % 10) as u8)]
    }
}

/// The decimal rendering of a signed integer: a minus sign before the digits
/// of its magnitude when negative.
pub open spec fn dec_int(n: int) -> Seq<char> {
    if n < 0 {
        seq!['-'] + dec_digits((-n) as nat)
    } else {
        dec_digits(n as nat)
    }
}

/// Render a non-negative integer in decimal.
pub fn u64_to_string(n: u64) -> (r: String)
    ensures
        r@ == dec_digits(n as nat),
    decreases n,
{
    if n < 10 {
        let mut s = String::new();
        push_char(&mut s, (0x30 + (n as u8)) as char);
        proof {
            assert(s@ =~= dec_digits(n as nat));
        }
        s
    } else {
        let mut s = u64_to_string(n / 10);
        push_char(&mut s, (0x30 + ((n % 10) as u8)) as char);
        proof {
            assert(s@ =~= dec_digits(n as nat));
        }
        s
    }
}

/// Render a signed integer in decimal.
pub fn i64_to_string(n: i64) -> (r: String)
    ensures
        r@ == dec_int(n as int),
{
    if n >= 0 {
        u64_to_string(n as u64)
    } else {
        // Magnitude computed without negating an i64, which would overflow on
        // the smallest value.
        let m: u64 = (-(n as i128)) as u64;
        let mut s = String::new();
        push_char(&mut s, '-');
        let digits = u64_to_string(m);
        s.append(digits.as_str());
        proof {
            assert(s@ =~= dec_int(n as int));
        }
        s
    }
}

/// The value an unsigned 64-bit integer denotes when reinterpreted as a
/// signed 64-bit integer (two's complement).
pub open spec fn wrapped_i64(v: u64) -> i64 {
    if v <= 0x7fff_ffff_ffff_ffff {
        v as i64
    } else {
        ((v as int) - 0x1_0000_0000_0000_0000) as i64
    }
}

/// Reinterpret an unsigned 64-bit integer as signed, wrapping.
pub fn u64_as_i64(v: u64) -> (r: i64)
    ensures
        r == wrapped_i64(v),
{
    if v <= 0x7fff_ffff_ffff_ffff {
        v as i64
    } else {
        let d: u64 = 0xffff_ffff_ffff_ffff - v;
        -(d as i64) - 1
    }
}

/// The value a signed 64-bit integer denotes when reinterpreted as unsigned
/// (two's complement).
pub open spec fn wrapped_u64(v: i64) -> u64 {
    if v >= 0 {
        v as u64
    } else {
        ((v as int) + 0x1_0000_0000_0000_0000) as u64
    }
}

/// Reinterpret a signed 64-bit integer as unsigned, wrapping.
pub fn i64_as_u64(v: i64) -> (r: u64)
    ensures
        r == wrapped_u64(v),
{
    if v >= 0 {
        v as u64
    } else {
        let d: i64 = -1 - v;
        0xffff_ffff_ffff_ffff - (d as u64)
    }
}

/// The canonical segment of a quality-of-service report, three quoted figures
/// in fixed order.
pub open spec fn spec_qos_report(q: QosReportView) -> Seq<char> {
    "latency:\""@ + q.latency + "\" availability:\""@ + q.availability + "\" sync:\""@ + q.sync
        + "\""@
}

/// The canonical segment of one reported provider.
pub open spec fn spec_reported_provider(p: ReportedProviderView) -> Seq<char> {
    "address:\""@ + p.address + "\" disconnections:"@ + dec_digits(p.disconnections as nat)
        + " errors:"@ + dec_digits(p.errors as nat) + " timestamp_s:"@ + dec_int(
        p.timestamp_s as int,
    )
}

/// The views of a sequence of reported providers.
pub open spec fn rp_views(ps: Seq<ReportedProvider>) -> Seq<ReportedProviderView> {
    ps.map_values(|p: ReportedProvider| p@)
}

/// The canonical segments of a list of reported providers: the same key is
/// re-emitted before each entry; an entry whose rendering is empty is
/// skipped.
pub open spec fn spec_reported_providers(key: Seq<char>, ps: Seq<ReportedProviderView>) -> Seq<
    char,
>
    decreases ps.len(),
{
    if ps.len() == 0 {
        Seq::empty()
    } else {
        let inner = spec_reported_provider(ps.last());
        spec_reported_providers(key, ps.drop_last()) + (if inner.len() == 0 {
            Seq::<char>::empty()
        } else {
            key + ":<"@ + inner + "> "@
        })
    }
}

/// The canonical segment of one `key:value` pair. An empty string field, a
/// zero numeric field and an empty repeated field render as nothing at all;
/// every present segment ends in a single space.
pub open spec fn spec_key_value(key: Seq<char>, v: ValueView) -> Seq<char> {
    match v {
        ValueView::String(s) => if s.len() == 0 {
            Seq::empty()
        } else {
            key + ":\""@ + s + "\" "@
        },
        ValueView::Number(n) => if n == 0 {
            Seq::empty()
        } else {
            key + ":"@ + dec_int(n as int) + " "@
        },
        ValueView::Bytes(b) => key + ":\""@ + escaped_bytes(b, false) + "\" "@,
        ValueView::QoSReport(q) => key + ":<"@ + spec_qos_report(q) + "> "@,
        ValueView::ReportedProviders(ps) => spec_reported_providers(key, ps),
    }
}

/// Render a quality-of-service report for embedding in its angle-bracketed
/// segment.
pub fn serialize_qos_report(qos: &QualityOfServiceReport) -> (res: String)
    ensures
        res@ == spec_qos_report(qos@),
{
    let mut s = String::new();
    s.append("latency:\"");
    s.append(qos.latency.as_str());
    s.append("\" availability:\"");
    s.append(qos.availability.as_str());
    s.append("\" sync:\"");
    s.append(qos.sync.as_str());
    s.append("\"");
    proof {
        assert(s@ =~= spec_qos_report(qos@));
    }
    s
}

/// Render one reported provider for embedding in its segment.
pub fn serialize_reported_provider(provider: &ReportedProvider) -> (res: String)
    ensures
        res@ == spec_reported_provider(provider@),
{
    let mut s = String::new();
    s.append("address:\"");
    s.append(provider.address.as_str());
    s.append("\" disconnections:");
    let d = u64_to_string(provider.disconnections);
    s.append(d.as_str());
    s.append(" errors:");
    let e = u64_to_string(provider.errors);
    s.append(e.as_str());
    s.append(" timestamp_s:");
    let t = i64_to_string(provider.timestamp_s);
    s.append(t.as_str());
    proof {
        assert(s@ =~= spec_reported_provider(provider@));
    }
    s
}

/// Render a list of reported providers, re-emitting the key for each entry.
pub fn serialize_reported_providers(key: &str, providers: &[ReportedProvider]) -> (res: String)
    ensures
        res@ == spec_reported_providers(key@, rp_views(providers@)),
{
    let mut s = String::new();
    let len = providers.len();
    assert(rp_views(providers@.take(0)) =~= Seq::<ReportedProviderView>::empty());
    for i in 0..len
        invariant
            len == providers@.len(),
            s@ == spec_reported_providers(key@, rp_views(providers@.take(i as int))),
    {
        let inner = serialize_reported_provider(&providers[i]);
        proof {
            assert(rp_views(providers@.take(i + 1)).drop_last() =~= rp_views(
                providers@.take(i as int),
            ));
            assert(rp_views(providers@.take(i + 1)).last() == providers@[i as int]@);
        }
        if !inner.as_str().is_empty() {
            s.append(key);
            s.append(":<");
            s.append(inner.as_str());
            s.append("> ");
        }
        proof {
            assert(s@ =~= spec_reported_providers(key@, rp_views(providers@.take(i + 1))));
        }
    }
    proof {
        assert(rp_views(providers@.take(len as int)) =~= rp_views(providers@));
    }
    s
}

/// Render one `key:value` segment of the canonical encoding.
pub fn serialize_key_value(key: &str, value: &Value) -> (res: String)
    ensures
        res@ == spec_key_value(key@, value@),
{
    match value {
        Value::String(s) => {
            if s.as_str().is_empty() {
                String::new()
            } else {
                let mut r = String::new();
                r.append(key);
                r.append(":\"");
                r.append(s.as_str());
                r.append("\" ");
                proof {
                    assert(r@ =~= spec_key_value(key@, value@));
                }
                r
            }
        },
        Value::Number(n) => {
            if *n == 0 {
                String::new()
            } else {
                let mut r = String::new();
                r.append(key);
                r.append(":");
                let digits = i64_to_string(*n);
                r.append(digits.as_str());
                r.append(" ");
                proof {
                    assert(r@ =~= spec_key_value(key@, value@));
                }
                r
            }
        },
        Value::Bytes(b) => {
            let mut r = String::new();
            r.append(key);
            r.append(":\"");
            let escaped = byte_array_to_string(b.as_slice(), false);
            r.append(escaped.as_str());
            r.append("\" ");
            proof {
                assert(r@ =~= spec_key_value(key@, value@));
            }
            r
        },
        Value::QoSReport(q) => {
            let mut r = String::new();
            r.append(key);
            r.append(":<");
            let inner = serialize_qos_report(q);
            r.append(inner.as_str());
            r.append("> ");
            proof {
                assert(r@ =~= spec_key_value(key@, value@));
            }
            r
        },
        Value::ReportedProviders(providers) => {
            let r = serialize_reported_providers(key, providers.as_slice());
            proof {
                assert(rp_views(providers@) =~= providers.deep_view());
            }
            r
        },
    }
}

/// The field list of the canonical encoding, in its fixed order: an optional
/// quality-of-service report after the base fields, the unresponsive
/// providers only when any were reported, and an optional excellence report
/// last. The signature and badge never enter the serialization.
pub open spec fn spec_request_fields(r: RelaySessionView) -> Seq<(Seq<char>, ValueView)> {
    seq![
        ("spec_id"@, ValueView::String(r.spec_id)),
        ("content_hash"@, ValueView::Bytes(r.content_hash)),
        ("session_id"@, ValueView::Number(wrapped_i64(r.session_id))),
        ("cu_sum"@, ValueView::Number(wrapped_i64(r.cu_sum))),
        ("provider"@, ValueView::String(r.provider)),
        ("relay_num"@, ValueView::Number(wrapped_i64(r.relay_num))),
    ] + (if r.qos_report is Some {
        seq![("qos_report"@, ValueView::QoSReport(r.qos_report->0))]
    } else {
        Seq::empty()
    }) + seq![("epoch"@, ValueView::Number(r.epoch))] + (if r.unresponsive_providers.len() > 0 {
        seq![("unresponsive_providers"@, ValueView::ReportedProviders(r.unresponsive_providers))]
    } else {
        Seq::empty()
    }) + seq![("lava_chain_id"@, ValueView::String(r.lava_chain_id))] + (
    if r.qos_excellence_report is Some {
        seq![("qos_excellence_report"@, ValueView::QoSReport(r.qos_excellence_report->0))]
    } else {
        Seq::empty()
    })
}

/// The views of an exec field list.
pub open spec fn fields_view(s: Seq<(&'static str, Value)>) -> Seq<(Seq<char>, ValueView)> {
    s.map_values(|p: (&'static str, Value)| (p.0@, p.1@))
}

/// Copy a quality-of-service report.
fn clone_qos_report(q: &QualityOfServiceReport) -> (r: QualityOfServiceReport)
    ensures
        r@ == q@,
{
    QualityOfServiceReport {
        latency: q.latency.clone(),
        availability: q.availability.clone(),
        sync: q.sync.clone(),
    }
}

/// Copy a list of reported providers.
fn clone_reported_providers(ps: &Vec<ReportedProvider>) -> (r: Vec<ReportedProvider>)
    ensures
        r@.len() == ps@.len(),
        r.deep_view() == ps.deep_view(),
{
    let mut out: Vec<ReportedProvider> = Vec::new();
    let len = ps.len();
    for i in 0..len
        invariant
            len == ps@.len(),
            out@.len() == i,
            forall|j: int| 0 <= j < i ==> out@[j]@ == ps@[j]@,
    {
        let p = ReportedProvider {
            address: ps[i].address.clone(),
            disconnections: ps[i].disconnections,
            errors: ps[i].errors,
            timestamp_s: ps[i].timestamp_s,
        };
        out.push(p);
    }
    proof {
        assert(out.deep_view() =~= ps.deep_view());
    }
    out
}

/// Copy a byte vector.
fn clone_bytes(b: &Vec<u8>) -> (r: Vec<u8>)
    ensures
        r@ == b@,
{
    let mut out: Vec<u8> = Vec::new();
    append_bytes(&mut out, b.as_slice());
    proof {
        assert(out@ =~= b@);
    }
    out
}

/// Lay a descriptor out as the ordered `key:value` list of the canonical
/// encoding.
pub fn request_to_vec(request: &RelaySession) -> (r: Vec<(&'static str, Value)>)
    ensures
        fields_view(r@) == spec_request_fields(request@),
{
    let mut vec: Vec<(&'static str, Value)> = Vec::new();
    vec.push(("spec_id", Value::String(request.spec_id.clone())));
    vec.push(("content_hash", Value::Bytes(clone_bytes(&request.content_hash))));
    vec.push(("session_id", Value::Number(u64_as_i64(request.session_id))));
    vec.push(("cu_sum", Value::Number(u64_as_i64(request.cu_sum))));
    vec.push(("provider", Value::String(request.provider.clone())));
    vec.push(("relay_num", Value::Number(u64_as_i64(request.relay_num))));
    if let Some(qos_report) = &request.qos_report {
        vec.push(("qos_report", Value::QoSReport(clone_qos_report(qos_report))));
    }
    vec.push(("epoch", Value::Number(request.epoch)));
    if request.unresponsive_providers.len() > 0 {
        vec.push((
            "unresponsive_providers",
            Value::ReportedProviders(clone_reported_providers(&request.unresponsive_providers)),
        ));
    }
    vec.push(("lava_chain_id", Value::String(request.lava_chain_id.clone())));
    if let Some(qos_excellence_report) = &request.qos_excellence_report {
        vec.push((
            "qos_excellence_report",
            Value::QoSReport(clone_qos_report(qos_excellence_report)),
        ));
    }
    proof {
        let r = request@;
        if r.qos_report is Some {
            if r.unresponsive_providers.len() > 0 {
                if r.qos_excellence_report is Some {
                    assert(fields_view(vec@) =~~= spec_request_fields(r));
                } else {
                    assert(fields_view(vec@) =~~= spec_request_fields(r));
                }
            } else {
                if r.qos_excellence_report is Some {
                    assert(fields_view(vec@) =~~= spec_request_fields(r));
                } else {
                    assert(fields_view(vec@) =~~= spec_request_fields(r));
                }
            }
        } else {
            if r.unresponsive_providers.len() > 0 {
                if r.qos_excellence_report is Some {
                    assert(fields_view(vec@) =~~= spec_request_fields(r));
                } else {
                    assert(fields_view(vec@) =~~= spec_request_fields(r));
                }
            } else {
                if r.qos_excellence_report is Some {
                    assert(fields_view(vec@) =~~= spec_request_fields(r));
                } else {
                    assert(fields_view(vec@) =~~= spec_request_fields(r));
                }
            }
        }
    }
    vec
}

/// The canonical text of an ordered field list: each field's segment in
/// turn.
pub open spec fn spec_fields_chars(fields: Seq<(Seq<char>, ValueView)>) -> Seq<char>
    decreases fields.len(),
{
    if fields.len() == 0 {
        Seq::empty()
    } else {
        spec_fields_chars(fields.drop_last()) + spec_key_value(fields.last().0, fields.last().1)
    }
}

/// The canonical text of a whole descriptor.
pub open spec fn spec_serialized_chars(r: RelaySessionView) -> Seq<char> {
    spec_fields_chars(spec_request_fields(r))
}

/// Serialize a descriptor to its canonical bytes: the UTF-8 encoding of the
/// ordered, omission-filtered `key:value` text.
pub fn serialize_relay_session(request: &RelaySession) -> (res: Vec<u8>)
    ensures
        res@ == encode_utf8(spec_serialized_chars(request@)),
{
    let mut serialized_request = String::new();
    let request_vec = request_to_vec(request);
    let len = request_vec.len();
    assert(fields_view(request_vec@.take(0)) =~= Seq::<(Seq<char>, ValueView)>::empty());
    for i in 0..len
        invariant
            len == request_vec@.len(),
            fields_view(request_vec@) == spec_request_fields(request@),
            serialized_request@ == spec_fields_chars(fields_view(request_vec@.take(i as int))),
    {
        let kv = serialize_key_value(request_vec[i].0, &request_vec[i].1);
        serialized_request.append(kv.as_str());
        proof {
            assert(fields_view(request_vec@.take(i + 1)).drop_last() =~= fields_view(
                request_vec@.take(i as int),
            ));
            assert(fields_view(request_vec@.take(i + 1)).last() == (
                request_vec@[i as int].0@,
                request_vec@[i as int].1@,
            ));
            assert(fields_view(request_vec@)[i as int] == (
                request_vec@[i as int].0@,
                request_vec@[i as int].1@,
            ));
            assert(serialized_request@ =~= spec_fields_chars(
                fields_view(request_vec@.take(i + 1)),
            ));
        }
    }
    proof {
        assert(fields_view(request_vec@.take(len as int)) =~= fields_view(request_vec@));
    }
    serialized_request.as_str().as_bytes_vec()
}

/// The views of a sequence of metadata entries.
pub open spec fn md_views(ms: Seq<Metadata>) -> Seq<MetadataView> {
    ms.map_values(|m: Metadata| m@)
}

/// The views of a sequence of strings.
pub open spec fn str_views(xs: Seq<String>) -> Seq<Seq<char>> {
    xs.map_values(|x: String| x@)
}

/// The hashed bytes of the metadata entries: each name then value, in list
/// order, with no delimiters.
pub open spec fn spec_metadata_bytes(md: Seq<MetadataView>) -> Seq<u8>
    decreases md.len(),
{
    if md.len() == 0 {
        Seq::empty()
    } else {
        spec_metadata_bytes(md.drop_last()) + encode_utf8(md.last().name) + encode_utf8(
            md.last().value,
        )
    }
}

/// All strings of a list joined with no separator.
pub open spec fn spec_concat_chars(xs: Seq<Seq<char>>) -> Seq<char>
    decreases xs.len(),
{
    if xs.len() == 0 {
        Seq::empty()
    } else {
        spec_concat_chars(xs.drop_last()) + xs.last()
    }
}

/// The bytes whose SHA-256 digest is the content hash: metadata pairs, joined
/// extensions, addon, api interface, connection type, api url, the raw
/// request, the two block numbers as 8-byte little-endian values, and the
/// salt, concatenated with no delimiters.
pub open spec fn spec_content_bytes(d: RelayPrivateDataView) -> Seq<u8> {
    spec_metadata_bytes(d.metadata) + encode_utf8(spec_concat_chars(d.extensions)) + encode_utf8(
        d.addon,
    ) + encode_utf8(d.api_interface) + encode_utf8(d.connection_type) + encode_utf8(d.api_url)
        + d.data + u64_le_bytes(wrapped_u64(d.request_block)) + u64_le_bytes(
        wrapped_u64(d.seen_block),
    ) + d.salt
}

/// Compute the deterministic content hash of the private request data: the
/// SHA-256 digest of its canonical byte concatenation.
pub fn generate_content_hash(data: &RelayPrivateData) -> (r: Vec<u8>)
    ensures
        r@ == sha256_of(spec_content_bytes(data@)),
        r@.len() == 32,
{
    let mut metadata_bytes: Vec<u8> = Vec::new();
    let mlen = data.metadata.len();
    assert(md_views(data.metadata@.take(0)) =~= Seq::<MetadataView>::empty());
    for i in 0..mlen
        invariant
            mlen == data.metadata@.len(),
            metadata_bytes@ == spec_metadata_bytes(md_views(data.metadata@.take(i as int))),
    {
        append_bytes(&mut metadata_bytes, data.metadata[i].name.as_str().as_bytes());
        append_bytes(&mut metadata_bytes, data.metadata[i].value.as_str().as_bytes());
        proof {
            assert(md_views(data.metadata@.take(i + 1)).drop_last() =~= md_views(
                data.metadata@.take(i as int),
            ));
            assert(md_views(data.metadata@.take(i + 1)).last() == data.metadata@[i as int]@);
            assert(metadata_bytes@ =~= spec_metadata_bytes(
                md_views(data.metadata@.take(i + 1)),
            ));
        }
    }
    proof {
        assert(md_views(data.metadata@.take(mlen as int)) =~= md_views(data.metadata@));
        assert(md_views(data.metadata@) =~= data.metadata.deep_view());
    }
    let mut extensions_concat = String::new();
    let elen = data.extensions.len();
    assert(str_views(data.extensions@.take(0)) =~= Seq::<Seq<char>>::empty());
    for i in 0..elen
        invariant
            elen == data.extensions@.len(),
            extensions_concat@ == spec_concat_chars(str_views(data.extensions@.take(i as int))),
    {
        extensions_concat.append(data.extensions[i].as_str());
        proof {
            assert(str_views(data.extensions@.take(i + 1)).drop_last() =~= str_views(
                data.extensions@.take(i as int),
            ));
            assert(str_views(data.extensions@.take(i + 1)).last() == data.extensions@[i as int]@);
            assert(extensions_concat@ =~= spec_concat_chars(
                str_views(data.extensions@.take(i + 1)),
            ));
        }
    }
    proof {
        assert(str_views(data.extensions@.take(elen as int)) =~= str_views(data.extensions@));
        assert(str_views(data.extensions@) =~= data.extensions.deep_view());
    }
    let request_block_bytes = encode_uint64(i64_as_u64(data.request_block));
    let seen_block_bytes = encode_uint64(i64_as_u64(data.seen_block));

    let mut msg_parts: Vec<u8> = Vec::new();
    append_bytes(&mut msg_parts, metadata_bytes.as_slice());
    append_bytes(&mut msg_parts, extensions_concat.as_str().as_bytes());
    append_bytes(&mut msg_parts, data.addon.as_str().as_bytes());
    append_bytes(&mut msg_parts, data.api_interface.as_str().as_bytes());
    append_bytes(&mut msg_parts, data.connection_type.as_str().as_bytes());
    append_bytes(&mut msg_parts, data.api_url.as_str().as_bytes());
    append_bytes(&mut msg_parts, data.data.as_slice());
    append_bytes(&mut msg_parts, request_block_bytes.as_slice());
    append_bytes(&mut msg_parts, seen_block_bytes.as_slice());
    append_bytes(&mut msg_parts, data.salt.as_slice());
    proof {
        assert(msg_parts@ =~= spec_content_bytes(data@));
    }
    sha256_digest(msg_parts.as_slice())
}

/// The content hash is a pure function of the private data's model: two
/// values that agree on every field hash to the same 32 bytes.
pub proof fn lemma_content_hash_deterministic(a: RelayPrivateData, b: RelayPrivateData)
    requires
        a@ == b@,
    ensures
        sha256_of(spec_content_bytes(a@)) == sha256_of(spec_content_bytes(b@)),
{
}

/// An empty string field contributes nothing to the canonical encoding.
pub proof fn lemma_empty_string_field_omitted(key: Seq<char>, s: Seq<char>)
    requires
        s.len() == 0,
    ensures
        spec_key_value(key, ValueView::String(s)) == Seq::<char>::empty(),
{
}

/// A zero numeric field contributes nothing to the canonical encoding.
pub proof fn lemma_zero_numeric_field_omitted(key: Seq<char>)
    ensures
        spec_key_value(key, ValueView::Number(0)) == Seq::<char>::empty(),
{
}

/// An empty repeated field contributes nothing to the canonical encoding.
pub proof fn lemma_empty_repeated_field_omitted(key: Seq<char>)
    ensures
        spec_key_value(key, ValueView::ReportedProviders(Seq::empty())) == Seq::<char>::empty(),
{
}

/// A non-zero numeric field renders as its key, a colon, its decimal digits
/// and a trailing space.
pub proof fn lemma_nonzero_numeric_field_present(key: Seq<char>, n: i64)
    requires
        n != 0,
    ensures
        spec_key_value(key, ValueView::Number(n)) == key + ":"@ + dec_int(n as int) + " "@,
{
}

/// The segments of a field list concatenate.
proof fn lemma_fields_chars_concat(a: Seq<(Seq<char>, ValueView)>, b: Seq<(Seq<char>, ValueView)>)
    ensures
        spec_fields_chars(a + b) == spec_fields_chars(a) + spec_fields_chars(b),
    decreases b.len(),
{
    if b.len() == 0 {
        assert(a + b =~= a);
        assert(spec_fields_chars(a) + spec_fields_chars(b) =~= spec_fields_chars(a));
    } else {
        lemma_fields_chars_concat(a, b.drop_last());
        assert((a + b).drop_last() =~= a + b.drop_last());
        assert((a + b).last() == b.last());
        assert(spec_fields_chars(a + b) =~= spec_fields_chars(a) + spec_fields_chars(b));
    }
}

/// Appending one field appends its segment.
proof fn lemma_fields_chars_push(s: Seq<(Seq<char>, ValueView)>, k: Seq<char>, v: ValueView)
    ensures
        spec_fields_chars(s.push((k, v))) == spec_fields_chars(s) + spec_key_value(k, v),
{
    assert(s.push((k, v)).drop_last() =~= s);
    assert(s.push((k, v)).last() == (k, v));
}

/// A single field's text is its segment.
proof fn lemma_fields_chars_singleton(k: Seq<char>, v: ValueView)
    ensures
        spec_fields_chars(seq![(k, v)]) == spec_key_value(k, v),
{
    assert(spec_fields_chars(Seq::<(Seq<char>, ValueView)>::empty()) == Seq::<char>::empty());
    assert(seq![(k, v)].drop_last() =~= Seq::<(Seq<char>, ValueView)>::empty());
    assert(seq![(k, v)].last() == (k, v));
    assert(spec_fields_chars(seq![(k, v)]) =~= spec_key_value(k, v));
}

/// Field order of the canonical encoding: whatever the field values, the
/// serialized text is the concatenation of the per-field segments in exactly
/// this fixed order, with the optional reports and the reported-provider list
/// contributing nothing when absent.
pub proof fn lemma_field_order(r: RelaySessionView)
    ensures
        spec_serialized_chars(r) == spec_key_value("spec_id"@, ValueView::String(r.spec_id))
            + spec_key_value("content_hash"@, ValueView::Bytes(r.content_hash)) + spec_key_value(
            "session_id"@,
            ValueView::Number(wrapped_i64(r.session_id)),
        ) + spec_key_value("cu_sum"@, ValueView::Number(wrapped_i64(r.cu_sum))) + spec_key_value(
            "provider"@,
            ValueView::String(r.provider),
        ) + spec_key_value("relay_num"@, ValueView::Number(wrapped_i64(r.relay_num))) + (
        if r.qos_report is Some {
            spec_key_value("qos_report"@, ValueView::QoSReport(r.qos_report->0))
        } else {
            Seq::<char>::empty()
        }) + spec_key_value("epoch"@, ValueView::Number(r.epoch)) + spec_reported_providers(
            "unresponsive_providers"@,
            r.unresponsive_providers,
        ) + spec_key_value("lava_chain_id"@, ValueView::String(r.lava_chain_id)) + (
        if r.qos_excellence_report is Some {
            spec_key_value(
                "qos_excellence_report"@,
                ValueView::QoSReport(r.qos_excellence_report->0),
            )
        } else {
            Seq::<char>::empty()
        }),
{
    let a1 = ("spec_id"@, ValueView::String(r.spec_id));
    let a2 = ("content_hash"@, ValueView::Bytes(r.content_hash));
    let a3 = ("session_id"@, ValueView::Number(wrapped_i64(r.session_id)));
    let a4 = ("cu_sum"@, ValueView::Number(wrapped_i64(r.cu_sum)));
    let a5 = ("provider"@, ValueView::String(r.provider));
    let a6 = ("relay_num"@, ValueView::Number(wrapped_i64(r.relay_num)));
    let head = seq![a1, a2, a3, a4, a5, a6];
    let qos = if r.qos_report is Some {
        seq![("qos_report"@, ValueView::QoSReport(r.qos_report->0))]
    } else {
        Seq::<(Seq<char>, ValueView)>::empty()
    };
    let epoch_field = seq![("epoch"@, ValueView::Number(r.epoch))];
    let unresp = if r.unresponsive_providers.len() > 0 {
        seq![("unresponsive_providers"@, ValueView::ReportedProviders(r.unresponsive_providers))]
    } else {
        Seq::<(Seq<char>, ValueView)>::empty()
    };
    let chain = seq![("lava_chain_id"@, ValueView::String(r.lava_chain_id))];
    let exc = if r.qos_excellence_report is Some {
        seq![("qos_excellence_report"@, ValueView::QoSReport(r.qos_excellence_report->0))]
    } else {
        Seq::<(Seq<char>, ValueView)>::empty()
    };
    assert(spec_request_fields(r) == head + qos + epoch_field + unresp + chain + exc);

    // The six leading fields, one push at a time.
    assert(head =~= seq![a1, a2, a3, a4, a5].push(a6));
    assert(seq![a1, a2, a3, a4, a5] =~= seq![a1, a2, a3, a4].push(a5));
    assert(seq![a1, a2, a3, a4] =~= seq![a1, a2, a3].push(a4));
    assert(seq![a1, a2, a3] =~= seq![a1, a2].push(a3));
    assert(seq![a1, a2] =~= seq![a1].push(a2));
    lemma_fields_chars_singleton(a1.0, a1.1);
    lemma_fields_chars_push(seq![a1], a2.0, a2.1);
    lemma_fields_chars_push(seq![a1, a2], a3.0, a3.1);
    lemma_fields_chars_push(seq![a1, a2, a3], a4.0, a4.1);
    lemma_fields_chars_push(seq![a1, a2, a3, a4], a5.0, a5.1);
    lemma_fields_chars_push(seq![a1, a2, a3, a4, a5], a6.0, a6.1);

    // The optional and repeated chunks.
    if r.qos_report is Some {
        lemma_fields_chars_singleton("qos_report"@, ValueView::QoSReport(r.qos_report->0));
    }
    lemma_fields_chars_singleton("epoch"@, ValueView::Number(r.epoch));
    if r.unresponsive_providers.len() > 0 {
        lemma_fields_chars_singleton(
            "unresponsive_providers"@,
            ValueView::ReportedProviders(r.unresponsive_providers),
        );
    }
    lemma_fields_chars_singleton("lava_chain_id"@, ValueView::String(r.lava_chain_id));
    if r.qos_excellence_report is Some {
        lemma_fields_chars_singleton(
            "qos_excellence_report"@,
            ValueView::QoSReport(r.qos_excellence_report->0),
        );
    }

    lemma_fields_chars_concat(head, qos);
    lemma_fields_chars_concat(head + qos, epoch_field);
    lemma_fields_chars_concat(head + qos + epoch_field, unresp);
    lemma_fields_chars_concat(head + qos + epoch_field + unresp, chain);
    lemma_fields_chars_concat(head + qos + epoch_field + unresp + chain, exc);
}

} // verus!
