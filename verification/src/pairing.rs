//! Provider pairing: the epoch parameters and provider set fetched from the
//! discovery endpoint, defensive parsing of their stringified numbers, the
//! stake filter, the latency ranking of probed providers, the shared pairing
//! state that one refresh cycle replaces atomically, and the scheduler's
//! decisions.
use vstd::prelude::*;
use vstd::string::StrSliceExecFns;

verus! {

/// Epoch metadata of the current pairing.
pub struct SDKPairingParams {
    pub current_epoch: i64,
    pub time_left_to_next_pairing: u64,
    pub spec_last_updated_block: u64,
    pub block_of_next_pairing: u64,
    pub downtime_duration: String,
    pub epoch_duration: String,
}

/// Mathematical model of the pairing parameters.
#[verifier::ext_equal]
pub ghost struct SDKPairingParamsView {
    pub current_epoch: i64,
    pub time_left_to_next_pairing: u64,
    pub spec_last_updated_block: u64,
    pub block_of_next_pairing: u64,
    pub downtime_duration: Seq<char>,
    pub epoch_duration: Seq<char>,
}

impl View for SDKPairingParams {
    type V = SDKPairingParamsView;

    open spec fn view(&self) -> SDKPairingParamsView {
        SDKPairingParamsView {
            current_epoch: self.current_epoch,
            time_left_to_next_pairing: self.time_left_to_next_pairing,
            spec_last_updated_block: self.spec_last_updated_block,
            block_of_next_pairing: self.block_of_next_pairing,
            downtime_duration: self.downtime_duration@,
            epoch_duration: self.epoch_duration@,
        }
    }
}

impl Default for SDKPairingParams {
    /// The parameters before any successful refresh: every number zero and
    /// both duration strings empty.
    fn default() -> (r: Self)
        ensures
            r.current_epoch == 0,
            r.time_left_to_next_pairing == 0,
            r.spec_last_updated_block == 0,
            r.block_of_next_pairing == 0,
            r.downtime_duration@ == Seq::<char>::empty(),
            r.epoch_duration@ == Seq::<char>::empty(),
    {
        SDKPairingParams {
            current_epoch: 0,
            time_left_to_next_pairing: 0,
            spec_last_updated_block: 0,
            block_of_next_pairing: 0,
            downtime_duration: String::new(),
            epoch_duration: String::new(),
        }
    }
}

/// A candidate relay endpoint, immutable once fetched.
pub struct Provider {
    pub address: String,
    pub stake: u64,
    pub endpoints: Vec<String>,
    pub latest_block: u64,
}

/// Mathematical model of a provider.
#[verifier::ext_equal]
pub ghost struct ProviderView {
    pub address: Seq<char>,
    pub stake: u64,
    pub endpoints: Seq<Seq<char>>,
    pub latest_block: u64,
}

impl View for Provider {
    type V = ProviderView;

    open spec fn view(&self) -> ProviderView {
        ProviderView {
            address: self.address@,
            stake: self.stake,
            endpoints: self.endpoints.deep_view(),
            latest_block: self.latest_block,
        }
    }
}

impl DeepView for Provider {
    type V = ProviderView;

    open spec fn deep_view(&self) -> ProviderView {
        self@
    }
}

/// A provider that answered its probe, with the measured latency in
/// microseconds. The per-provider shared connection of the running system
/// lives with the transport around the library.
pub struct RankedProvider {
    pub provider: Provider,
    pub latency_micros: u64,
}

/// Mathematical model of a ranked provider.
#[verifier::ext_equal]
pub ghost struct RankedProviderView {
    pub provider: ProviderView,
    pub latency_micros: u64,
}

impl View for RankedProvider {
    type V = RankedProviderView;

    open spec fn view(&self) -> RankedProviderView {
        RankedProviderView { provider: self.provider@, latency_micros: self.latency_micros }
    }
}

impl DeepView for RankedProvider {
    type V = RankedProviderView;

    open spec fn deep_view(&self) -> RankedProviderView {
        self@
    }
}

/// The views of a sequence of providers.
pub open spec fn provider_views(ps: Seq<Provider>) -> Seq<ProviderView> {
    ps.map_values(|p: Provider| p@)
}

/// The views of a sequence of ranked providers.
pub open spec fn ranked_views(ps: Seq<RankedProvider>) -> Seq<RankedProviderView> {
    ps.map_values(|p: RankedProvider| p@)
}

/// A decimal digit character.
pub open spec fn is_dec_digit(c: char) -> bool {
    '0' <= c && c <= '9'
}

/// The value of one decimal digit character.
pub open spec fn digit_val(c: char) -> int
    recommends
        is_dec_digit(c),
{
    (c as u32) - 0x30
}

/// Every character of the string is a decimal digit.
pub open spec fn all_dec_digits(s: Seq<char>) -> bool {
    forall|i: int| 0 <= i < s.len() ==> is_dec_digit(#[trigger] s[i])
}

/// The integer a digit string denotes, most significant digit first.
pub open spec fn digits_val(s: Seq<char>) -> int
    recommends
        all_dec_digits(s),
    decreases s.len(),
{
    if s.len() == 0 {
        0
    } else {
        digits_val(s.drop_last()) * 10 + digit_val(s.last())
    }
}

/// A digit string denotes a non-negative value.
proof fn lemma_digits_val_nonneg(s: Seq<char>)
    requires
        all_dec_digits(s),
    ensures
        digits_val(s) >= 0,
    decreases s.len(),
{
    if s.len() > 0 {
        assert(all_dec_digits(s.drop_last()));
        lemma_digits_val_nonneg(s.drop_last());
    }
}

/// A prefix of a digit string denotes at most the whole string's value.
proof fn lemma_digits_val_prefix_le(s: Seq<char>, i: int)
    requires
        all_dec_digits(s),
        0 <= i <= s.len(),
    ensures
        digits_val(s.take(i)) <= digits_val(s),
    decreases s.len() - i,
{
    if i < s.len() {
        lemma_digits_val_prefix_le(s, i + 1);
        assert(s.take(i + 1).drop_last() =~= s.take(i));
        assert(all_dec_digits(s.take(i)));
        lemma_digits_val_nonneg(s.take(i));
        assert(digits_val(s.take(i + 1)) == digits_val(s.take(i)) * 10 + digit_val(s[i]));
    } else {
        assert(s.take(i) =~= s);
    }
}

/// Parse a string of decimal digits: succeeds exactly on a non-empty
/// all-digit string whose value fits in 64 bits, and returns that value.
pub fn parse_decimal_digits(s: &str) -> (r: Option<u64>)
    ensures
        r is Some <==> s@.len() > 0 && all_dec_digits(s@) && digits_val(s@)
            <= 0xffff_ffff_ffff_ffff,
        r is Some ==> r->0 as int == digits_val(s@),
{
    let n = s.unicode_len();
    if n == 0 {
        return None;
    }
    let mut acc: u64 = 0;
    let mut i: usize = 0;
    while i < n
        invariant
            0 <= i <= n,
            n == s@.len(),
            all_dec_digits(s@.take(i as int)),
            acc as int == digits_val(s@.take(i as int)),
        decreases n - i,
    {
        let c = s.get_char(i);
        let cv = c as u32;
        if cv < 0x30 || cv > 0x39 {
            proof {
                assert(!is_dec_digit(s@[i as int]));
            }
            return None;
        }
        let d = (cv - 0x30) as u64;
        if acc > (0xffff_ffff_ffff_ffffu64 - d) / 10 {
            proof {
                assert(acc * 10 + d > 0xffff_ffff_ffff_ffff) by (nonlinear_arith)
                    requires
                        acc > (0xffff_ffff_ffff_ffffu64 - d) / 10,
                        d <= 9,
                ;
                assert(s@.take(i + 1).drop_last() =~= s@.take(i as int));
                assert(digits_val(s@.take(i + 1)) == acc * 10 + d);
                if all_dec_digits(s@) {
                    lemma_digits_val_prefix_le(s@, i + 1);
                }
            }
            return None;
        }
        proof {
            assert(acc * 10 + d <= 0xffff_ffff_ffff_ffff) by (nonlinear_arith)
                requires
                    acc <= (0xffff_ffff_ffff_ffffu64 - d) / 10,
                    d <= 9,
            ;
            assert(s@.take(i + 1).drop_last() =~= s@.take(i as int));
            assert(s@.take(i + 1).last() == s@[i as int]);
        }
        acc = acc * 10 + d;
        i = i + 1;
    }
    proof {
        assert(s@.take(n as int) =~= s@);
    }
    Some(acc)
}

/// The digits of an unsigned decimal string: a single leading plus sign is
/// tolerated.
pub open spec fn unsigned_body(s: Seq<char>) -> Seq<char> {
    if s.len() > 0 && s[0] == '+' {
        s.skip(1)
    } else {
        s
    }
}

/// A string that parses as a 64-bit unsigned decimal.
pub open spec fn is_valid_u64_str(s: Seq<char>) -> bool {
    let b = unsigned_body(s);
    b.len() > 0 && all_dec_digits(b) && digits_val(b) <= 0xffff_ffff_ffff_ffff
}

/// Parse an unsigned decimal integer the way the standard parser does: an
/// optional leading plus sign, then digits; anything else, an empty digit
/// string or an overflowing value is rejected.
pub fn parse_u64(s: &str) -> (r: Option<u64>)
    ensures
        r is Some <==> is_valid_u64_str(s@),
        r is Some ==> r->0 as int == digits_val(unsigned_body(s@)),
{
    let n = s.unicode_len();
    if n > 0 && s.get_char(0) == '+' {
        let rest = s.substring_char(1, n);
        proof {
            assert(rest@ =~= s@.skip(1));
        }
        parse_decimal_digits(rest)
    } else {
        parse_decimal_digits(s)
    }
}

/// The magnitude digits of a signed decimal string.
pub open spec fn signed_body(s: Seq<char>) -> Seq<char> {
    if s.len() > 0 && (s[0] == '-' || s[0] == '+') {
        s.skip(1)
    } else {
        s
    }
}

/// A string that parses as a 64-bit signed decimal.
pub open spec fn is_valid_i64_str(s: Seq<char>) -> bool {
    let b = signed_body(s);
    b.len() > 0 && all_dec_digits(b) && (if s.len() > 0 && s[0] == '-' {
        digits_val(b) <= 0x8000_0000_0000_0000
    } else {
        digits_val(b) <= 0x7fff_ffff_ffff_ffff
    })
}

/// The value a signed decimal string denotes.
pub open spec fn i64_str_val(s: Seq<char>) -> int
    recommends
        is_valid_i64_str(s),
{
    if s.len() > 0 && s[0] == '-' {
        -digits_val(signed_body(s))
    } else {
        digits_val(signed_body(s))
    }
}

/// Parse a signed decimal integer the way the standard parser does: an
/// optional sign, then digits, rejecting empty digit strings and overflow.
pub fn parse_i64(s: &str) -> (r: Option<i64>)
    ensures
        r is Some <==> is_valid_i64_str(s@),
        r is Some ==> r->0 as int == i64_str_val(s@),
{
    let n = s.unicode_len();
    if n > 0 && s.get_char(0) == '-' {
        let rest = s.substring_char(1, n);
        proof {
            assert(rest@ =~= s@.skip(1));
        }
        match parse_decimal_digits(rest) {
            Some(m) => {
                if m < 0x8000_0000_0000_0000 {
                    Some(-(m as i64))
                } else if m == 0x8000_0000_0000_0000 {
                    Some(i64::MIN)
                } else {
                    None
                }
            },
            None => None,
        }
    } else if n > 0 && s.get_char(0) == '+' {
        let rest = s.substring_char(1, n);
        proof {
            assert(rest@ =~= s@.skip(1));
        }
        match parse_decimal_digits(rest) {
            Some(m) => {
                if m <= 0x7fff_ffff_ffff_ffff {
                    Some(m as i64)
                } else {
                    None
                }
            },
            None => None,
        }
    } else {
        match parse_decimal_digits(s) {
            Some(m) => {
                if m <= 0x7fff_ffff_ffff_ffff {
                    Some(m as i64)
                } else {
                    None
                }
            },
            None => None,
        }
    }
}

/// The pairing parameters as the discovery response carries them: each
/// numeric field is the string it arrived as, absent when the response
/// lacked it or it was not a string.
pub struct RawPairingParams {
    pub current_epoch: Option<String>,
    pub time_left_to_next_pairing: Option<String>,
    pub spec_last_updated_block: Option<String>,
    pub block_of_next_pairing: Option<String>,
    pub downtime_duration: Option<String>,
    pub epoch_duration: Option<String>,
}

/// Mathematical model of the raw pairing parameters.
#[verifier::ext_equal]
pub ghost struct RawPairingParamsView {
    pub current_epoch: Option<Seq<char>>,
    pub time_left_to_next_pairing: Option<Seq<char>>,
    pub spec_last_updated_block: Option<Seq<char>>,
    pub block_of_next_pairing: Option<Seq<char>>,
    pub downtime_duration: Option<Seq<char>>,
    pub epoch_duration: Option<Seq<char>>,
}

impl View for RawPairingParams {
    type V = RawPairingParamsView;

    open spec fn view(&self) -> RawPairingParamsView {
        RawPairingParamsView {
            current_epoch: self.current_epoch.deep_view(),
            time_left_to_next_pairing: self.time_left_to_next_pairing.deep_view(),
            spec_last_updated_block: self.spec_last_updated_block.deep_view(),
            block_of_next_pairing: self.block_of_next_pairing.deep_view(),
            downtime_duration: self.downtime_duration.deep_view(),
            epoch_duration: self.epoch_duration.deep_view(),
        }
    }
}

/// One provider entry of the discovery response, as it arrived: the address,
/// the stake amount and the reported block as optional strings, and the
/// endpoint host strings found in the entry — absent when the entry carried
/// no endpoints list at all (the field missing or not an array).
pub struct RawProvider {
    pub address: Option<String>,
    pub stake: Option<String>,
    pub endpoints: Option<Vec<String>>,
    pub latest_block: Option<String>,
}

/// Mathematical model of a raw provider entry.
#[verifier::ext_equal]
pub ghost struct RawProviderView {
    pub address: Option<Seq<char>>,
    pub stake: Option<Seq<char>>,
    pub endpoints: Option<Seq<Seq<char>>>,
    pub latest_block: Option<Seq<char>>,
}

impl View for RawProvider {
    type V = RawProviderView;

    open spec fn view(&self) -> RawProviderView {
        RawProviderView {
            address: self.address.deep_view(),
            stake: self.stake.deep_view(),
            endpoints: self.endpoints.deep_view(),
            latest_block: self.latest_block.deep_view(),
        }
    }
}

impl DeepView for RawProvider {
    type V = RawProviderView;

    open spec fn deep_view(&self) -> RawProviderView {
        self@
    }
}

/// The views of a sequence of raw provider entries.
pub open spec fn raw_provider_views(ps: Seq<RawProvider>) -> Seq<RawProviderView> {
    ps.map_values(|p: RawProvider| p@)
}

/// The unsigned value a defensive numeric field yields: the parsed value, or
/// zero when the field is absent or does not parse.
pub open spec fn u64_or_zero(o: Option<Seq<char>>) -> u64 {
    if o is Some && is_valid_u64_str(o->0) {
        digits_val(unsigned_body(o->0)) as u64
    } else {
        0
    }
}

/// The signed value a defensive numeric field yields, or zero.
pub open spec fn i64_or_zero(o: Option<Seq<char>>) -> i64 {
    if o is Some && is_valid_i64_str(o->0) {
        i64_str_val(o->0) as i64
    } else {
        0
    }
}

/// The string a defensive string field yields: empty when absent.
pub open spec fn str_or_empty(o: Option<Seq<char>>) -> Seq<char> {
    if o is Some {
        o->0
    } else {
        Seq::empty()
    }
}

/// Parse an optional numeric string defensively, degrading to zero.
fn parse_u64_or_zero(o: &Option<String>) -> (r: u64)
    ensures
        r == u64_or_zero(o.deep_view()),
{
    match o {
        Some(s) => match parse_u64(s.as_str()) {
            Some(v) => v,
            None => 0,
        },
        None => 0,
    }
}

/// Parse an optional signed numeric string defensively, degrading to zero.
fn parse_i64_or_zero(o: &Option<String>) -> (r: i64)
    ensures
        r == i64_or_zero(o.deep_view()),
{
    match o {
        Some(s) => match parse_i64(s.as_str()) {
            Some(v) => v,
            None => 0,
        },
        None => 0,
    }
}

/// Copy an optional string, empty when absent.
fn string_or_empty(o: &Option<String>) -> (r: String)
    ensures
        r@ == str_or_empty(o.deep_view()),
{
    match o {
        Some(s) => s.clone(),
        None => String::new(),
    }
}

/// Parse the epoch and pairing parameters of a discovery response. Numeric
/// fields arrive as strings and are parsed defensively: an absent or
/// unparseable field becomes zero rather than failing the refresh.
pub fn parse_sdk_pairing_params(raw: &RawPairingParams) -> (p: SDKPairingParams)
    ensures
        p@ == (SDKPairingParamsView {
            current_epoch: i64_or_zero(raw@.current_epoch),
            time_left_to_next_pairing: u64_or_zero(raw@.time_left_to_next_pairing),
            spec_last_updated_block: u64_or_zero(raw@.spec_last_updated_block),
            block_of_next_pairing: u64_or_zero(raw@.block_of_next_pairing),
            downtime_duration: str_or_empty(raw@.downtime_duration),
            epoch_duration: str_or_empty(raw@.epoch_duration),
        }),
{
    let p = SDKPairingParams {
        current_epoch: parse_i64_or_zero(&raw.current_epoch),
        time_left_to_next_pairing: parse_u64_or_zero(&raw.time_left_to_next_pairing),
        spec_last_updated_block: parse_u64_or_zero(&raw.spec_last_updated_block),
        block_of_next_pairing: parse_u64_or_zero(&raw.block_of_next_pairing),
        downtime_duration: string_or_empty(&raw.downtime_duration),
        epoch_duration: string_or_empty(&raw.epoch_duration),
    };
    proof {
        assert(p@ =~= (SDKPairingParamsView {
            current_epoch: i64_or_zero(raw@.current_epoch),
            time_left_to_next_pairing: u64_or_zero(raw@.time_left_to_next_pairing),
            spec_last_updated_block: u64_or_zero(raw@.spec_last_updated_block),
            block_of_next_pairing: u64_or_zero(raw@.block_of_next_pairing),
            downtime_duration: str_or_empty(raw@.downtime_duration),
            epoch_duration: str_or_empty(raw@.epoch_duration),
        }));
    }
    p
}

/// Copy a vector of strings.
fn clone_string_vec(v: &Vec<String>) -> (r: Vec<String>)
    ensures
        r.deep_view() == v.deep_view(),
{
    let mut out: Vec<String> = Vec::new();
    let len = v.len();
    for i in 0..len
        invariant
            len == v@.len(),
            out@.len() == i,
            forall|j: int| 0 <= j < i ==> out@[j]@ == v@[j]@,
    {
        out.push(v[i].clone());
    }
    proof {
        assert(out.deep_view() =~= v.deep_view());
    }
    out
}

/// The provider a raw entry denotes: present exactly when the address is a
/// string, the entry carried an endpoints list, and both the stake amount
/// and the reported block parse as 64-bit decimals.
pub open spec fn spec_parse_provider(r: RawProviderView) -> Option<ProviderView> {
    if r.address is Some && r.stake is Some && is_valid_u64_str(r.stake->0)
        && r.endpoints is Some && r.latest_block is Some && is_valid_u64_str(
        r.latest_block->0,
    ) {
        Some(ProviderView {
            address: r.address->0,
            stake: digits_val(unsigned_body(r.stake->0)) as u64,
            endpoints: r.endpoints->0,
            latest_block: digits_val(unsigned_body(r.latest_block->0)) as u64,
        })
    } else {
        None
    }
}

/// Parse one provider entry, rejecting it when a required field is missing
/// or malformed.
pub fn parse_provider(raw: &RawProvider) -> (r: Option<Provider>)
    ensures
        r is Some <==> spec_parse_provider(raw@) is Some,
        r is Some ==> r->0@ == spec_parse_provider(raw@)->0,
{
    let address = match &raw.address {
        Some(a) => a.clone(),
        None => {
            return None;
        },
    };
    let stake = match &raw.stake {
        Some(s) => match parse_u64(s.as_str()) {
            Some(v) => v,
            None => {
                return None;
            },
        },
        None => {
            return None;
        },
    };
    let latest_block = match &raw.latest_block {
        Some(s) => match parse_u64(s.as_str()) {
            Some(v) => v,
            None => {
                return None;
            },
        },
        None => {
            return None;
        },
    };
    let endpoints = match &raw.endpoints {
        Some(es) => clone_string_vec(es),
        None => {
            return None;
        },
    };
    let p = Provider { address, stake, endpoints, latest_block };
    proof {
        assert(p@ =~= spec_parse_provider(raw@)->0);
    }
    Some(p)
}

/// The providers that parse out of a list of raw entries, in arrival order.
pub open spec fn spec_parsed_providers(rs: Seq<RawProviderView>) -> Seq<ProviderView>
    decreases rs.len(),
{
    if rs.len() == 0 {
        Seq::empty()
    } else {
        spec_parsed_providers(rs.drop_last()) + (match spec_parse_provider(rs.last()) {
            Some(p) => seq![p],
            None => Seq::<ProviderView>::empty(),
        })
    }
}

/// Providers ordered by non-increasing stake.
pub open spec fn sorted_by_stake_desc(ps: Seq<ProviderView>) -> bool {
    forall|i: int, j: int| 0 <= i <= j < ps.len() ==> #[trigger] ps[i].stake >= #[trigger] ps[j].stake
}

/// Insert a provider behind every entry whose stake is at least as large:
/// one step of the stable descending insertion sort.
pub open spec fn spec_insert_by_stake(s: Seq<ProviderView>, p: ProviderView) -> Seq<ProviderView>
    decreases s.len(),
{
    if s.len() == 0 {
        seq![p]
    } else if s[0].stake >= p.stake {
        seq![s[0]] + spec_insert_by_stake(s.drop_first(), p)
    } else {
        seq![p] + s
    }
}

/// The stable ordering of providers by non-increasing stake: entries of
/// equal stake keep their arrival order, which also decides who survives the
/// top-ten cut.
pub open spec fn spec_sort_by_stake_desc(s: Seq<ProviderView>) -> Seq<ProviderView>
    decreases s.len(),
{
    if s.len() == 0 {
        Seq::empty()
    } else {
        spec_insert_by_stake(spec_sort_by_stake_desc(s.drop_last()), s.last())
    }
}

/// The stable insertion point is the first index whose stake is smaller.
proof fn lemma_insert_by_stake_at(s: Seq<ProviderView>, p: ProviderView, k: int)
    requires
        0 <= k <= s.len(),
        forall|j: int| 0 <= j < k ==> #[trigger] s[j].stake >= p.stake,
        k < s.len() ==> s[k].stake < p.stake,
    ensures
        spec_insert_by_stake(s, p) == s.insert(k, p),
    decreases s.len(),
{
    if s.len() == 0 {
        assert(spec_insert_by_stake(s, p) =~= s.insert(k, p));
    } else if k == 0 {
        assert(spec_insert_by_stake(s, p) =~= s.insert(0, p));
    } else {
        lemma_insert_by_stake_at(s.drop_first(), p, k - 1);
        assert(s.drop_first().insert(k - 1, p) =~= s.insert(k, p).drop_first());
        assert(s.insert(k, p)[0] == s[0]);
        assert(spec_insert_by_stake(s, p) =~= s.insert(k, p));
    }
}

/// Sort providers stably by descending stake: the result is exactly the
/// stable ordering — so also a permutation of the input, ordered.
fn sort_providers_by_stake_desc(v: Vec<Provider>) -> (r: Vec<Provider>)
    ensures
        provider_views(r@) == spec_sort_by_stake_desc(provider_views(v@)),
        r@.len() == v@.len(),
        provider_views(r@).to_multiset() == provider_views(v@).to_multiset(),
        sorted_by_stake_desc(provider_views(r@)),
{
    broadcast use vstd::seq_lib::group_to_multiset_ensures;

    let ghost origs = provider_views(v@);
    let mut rest = v;
    let total = rest.len();
    let mut out: Vec<Provider> = Vec::new();
    let mut i: usize = 0;
    proof {
        broadcast use vstd::multiset::group_multiset_axioms;

        assert(origs.len() == total);
        assert(provider_views(out@) =~= spec_sort_by_stake_desc(origs.take(0)));
        assert(provider_views(rest@) =~= origs.skip(0));
        assert(provider_views(out@).to_multiset() =~= vstd::multiset::Multiset::<ProviderView>::empty());
        assert(provider_views(out@).to_multiset().add(provider_views(rest@).to_multiset())
            =~= origs.to_multiset());
    }
    while rest.len() > 0
        invariant
            i + rest@.len() == origs.len(),
            origs.len() == total,
            i <= total,
            out@.len() == i,
            provider_views(rest@) == origs.skip(i as int),
            provider_views(out@) == spec_sort_by_stake_desc(origs.take(i as int)),
            provider_views(out@).to_multiset().add(provider_views(rest@).to_multiset())
                == origs.to_multiset(),
            sorted_by_stake_desc(provider_views(out@)),
        decreases rest@.len(),
    {
        let ghost rest_before = rest@;
        let x = rest.remove(0);
        let ghost xv = x@;
        proof {
            vstd::seq_lib::to_multiset_remove(provider_views(rest_before), 0);
            assert(provider_views(rest@) =~= provider_views(rest_before).remove(0));
            assert(provider_views(rest@) =~= origs.skip(i + 1));
            assert(xv == origs[i as int]);
        }
        let mut k: usize = 0;
        let olen = out.len();
        while k < olen && out[k].stake >= x.stake
            invariant
                0 <= k <= olen,
                olen == out@.len(),
                forall|j: int| 0 <= j < k ==> #[trigger] out@[j].stake >= x.stake,
            decreases olen - k,
        {
            k = k + 1;
        }
        let ghost out_before = provider_views(out@);
        out.insert(k, x);
        proof {
            broadcast use vstd::multiset::group_multiset_axioms;

            lemma_insert_by_stake_at(out_before, xv, k as int);
            assert(provider_views(out@) =~= out_before.insert(k as int, xv));
            vstd::seq_lib::to_multiset_insert(out_before, k as int, xv);
            assert(origs.take(i + 1).drop_last() =~= origs.take(i as int));
            assert(origs.take(i + 1).last() == origs[i as int]);
            assert(provider_views(out@) =~= spec_sort_by_stake_desc(origs.take(i + 1)));
            assert(provider_views(rest_before)[0] == xv);
            vstd::seq_lib::to_multiset_contains(provider_views(rest_before), xv);
            assert(provider_views(rest_before).contains(xv));
            assert(provider_views(out@).to_multiset().add(provider_views(rest@).to_multiset())
                =~= origs.to_multiset());
            let sa = provider_views(out@);
            assert(sa =~= out_before.take(k as int).push(xv) + out_before.skip(k as int));
            assert(forall|j: int| 0 <= j < k ==> sa[j] == out_before[j]);
            assert(sa[k as int] == xv);
            assert(forall|j: int| k < j < sa.len() ==> sa[j] == out_before[j - 1]);
            assert forall|a: int, b: int| 0 <= a <= b < sa.len() implies sa[a].stake
                >= sa[b].stake by {
                if a < k && b == k {
                    assert(out_before[a].stake >= xv.stake);
                } else if a == k && b > k {
                    assert(out_before[k as int].stake < xv.stake);
                    assert(out_before[b - 1].stake <= out_before[k as int].stake);
                }
            }
        }
        i = i + 1;
    }
    proof {
        assert(origs.take(i as int) =~= origs);
    }
    out
}

/// Providers filtered from raw entries, kept to the ten highest stakes, in
/// non-increasing stake order.
pub fn parse_providers(raws: &Vec<RawProvider>) -> (r: Vec<Provider>)
    ensures
        provider_views(r@) == spec_sort_by_stake_desc(
            spec_parsed_providers(raw_provider_views(raws@)),
        ).take(
            vstd::math::min(spec_parsed_providers(raw_provider_views(raws@)).len() as int, 10),
        ),
        r@.len() == vstd::math::min(spec_parsed_providers(raw_provider_views(raws@)).len() as int, 10),
        sorted_by_stake_desc(provider_views(r@)),
        provider_views(r@).to_multiset().subset_of(
            spec_parsed_providers(raw_provider_views(raws@)).to_multiset(),
        ),
        spec_parsed_providers(raw_provider_views(raws@)).len() <= 10 ==> provider_views(
            r@,
        ).to_multiset() == spec_parsed_providers(raw_provider_views(raws@)).to_multiset(),
        spec_parsed_providers(raw_provider_views(raws@)).len() > 10 ==> forall|p: ProviderView|
            spec_parsed_providers(raw_provider_views(raws@)).to_multiset().count(p)
                > #[trigger] provider_views(r@).to_multiset().count(p) ==> p.stake
                <= provider_views(r@)[9].stake,
{
    broadcast use vstd::seq_lib::group_to_multiset_ensures;

    let mut providers: Vec<Provider> = Vec::new();
    let len = raws.len();
    assert(raw_provider_views(raws@.take(0)) =~= Seq::<RawProviderView>::empty());
    for i in 0..len
        invariant
            len == raws@.len(),
            provider_views(providers@) == spec_parsed_providers(
                raw_provider_views(raws@.take(i as int)),
            ),
    {
        proof {
            assert(raw_provider_views(raws@.take(i + 1)).drop_last() =~= raw_provider_views(
                raws@.take(i as int),
            ));
            assert(raw_provider_views(raws@.take(i + 1)).last() == raws@[i as int]@);
        }
        if let Some(p) = parse_provider(&raws[i]) {
            providers.push(p);
        }
        proof {
            assert(provider_views(providers@) =~= spec_parsed_providers(
                raw_provider_views(raws@.take(i + 1)),
            ));
        }
    }
    proof {
        assert(raw_provider_views(raws@.take(len as int)) =~= raw_provider_views(raws@));
    }
    let mut sorted = sort_providers_by_stake_desc(providers);
    let ghost full = provider_views(sorted@);
    proof {
        if full.len() <= 10 {
            assert(full.take(full.len() as int) =~= full);
        }
    }
    if sorted.len() > 10 {
        sorted.truncate(10);
        proof {
            broadcast use vstd::multiset::group_multiset_axioms;

            assert(provider_views(sorted@) =~= full.take(10));
            lemma_take_multiset_subset(full, 10);
            let kept = full.take(10);
            let dropped = full.skip(10);
            assert(full =~= kept + dropped);
            vstd::seq_lib::lemma_multiset_commutative(kept, dropped);
            assert forall|p: ProviderView|
                full.to_multiset().count(p) > #[trigger] kept.to_multiset().count(p) implies p.stake
                <= kept[9].stake by {
                vstd::seq_lib::to_multiset_contains(dropped, p);
                assert(dropped.contains(p));
                let k = choose|k: int| 0 <= k < dropped.len() && dropped[k] == p;
                assert(full[10 + k] == p);
                assert(full[9].stake >= full[10 + k].stake);
            }
        }
    }
    sorted
}

/// The first part of a sequence carries a sub-multiset of the whole.
proof fn lemma_take_multiset_subset<A>(s: Seq<A>, n: int)
    requires
        0 <= n <= s.len(),
    ensures
        s.take(n).to_multiset().subset_of(s.to_multiset()),
    decreases s.len() - n,
{
    broadcast use vstd::seq_lib::group_to_multiset_ensures;

    if n < s.len() {
        lemma_take_multiset_subset(s, n + 1);
        assert(s.take(n + 1).drop_last() =~= s.take(n));
        assert(s.take(n + 1) =~= s.take(n).push(s[n]));
        assert(s.take(n).push(s[n]).to_multiset() == s.take(n).to_multiset().insert(s[n]));
    } else {
        assert(s.take(n) =~= s);
    }
}

/// Ranked providers ordered by non-decreasing latency.
pub open spec fn sorted_by_latency_asc(ps: Seq<RankedProviderView>) -> bool {
    forall|i: int, j: int|
        0 <= i <= j < ps.len() ==> #[trigger] ps[i].latency_micros <= #[trigger] ps[j].latency_micros
}

/// The views of a sequence of probe outcomes.
pub open spec fn outcome_views(s: Seq<(RankedProvider, bool)>) -> Seq<(RankedProviderView, bool)> {
    s.map_values(|p: (RankedProvider, bool)| (p.0@, p.1))
}

/// The successful outcomes of a probe cycle, in arrival order.
pub open spec fn spec_successful(s: Seq<(RankedProviderView, bool)>) -> Seq<RankedProviderView>
    decreases s.len(),
{
    if s.len() == 0 {
        Seq::empty()
    } else {
        spec_successful(s.drop_last()) + (if s.last().1 {
            seq![s.last().0]
        } else {
            Seq::<RankedProviderView>::empty()
        })
    }
}

/// Insert a ranked provider behind every entry whose latency is no larger:
/// one step of the stable ascending insertion sort.
pub open spec fn spec_insert_by_latency(
    s: Seq<RankedProviderView>,
    p: RankedProviderView,
) -> Seq<RankedProviderView>
    decreases s.len(),
{
    if s.len() == 0 {
        seq![p]
    } else if s[0].latency_micros <= p.latency_micros {
        seq![s[0]] + spec_insert_by_latency(s.drop_first(), p)
    } else {
        seq![p] + s
    }
}

/// The stable ordering of ranked providers by non-decreasing latency:
/// entries of equal latency keep their arrival order.
pub open spec fn spec_sort_by_latency_asc(s: Seq<RankedProviderView>) -> Seq<RankedProviderView>
    decreases s.len(),
{
    if s.len() == 0 {
        Seq::empty()
    } else {
        spec_insert_by_latency(spec_sort_by_latency_asc(s.drop_last()), s.last())
    }
}

/// The stable insertion point is the first index whose latency is larger.
proof fn lemma_insert_by_latency_at(s: Seq<RankedProviderView>, p: RankedProviderView, k: int)
    requires
        0 <= k <= s.len(),
        forall|j: int| 0 <= j < k ==> #[trigger] s[j].latency_micros <= p.latency_micros,
        k < s.len() ==> s[k].latency_micros > p.latency_micros,
    ensures
        spec_insert_by_latency(s, p) == s.insert(k, p),
    decreases s.len(),
{
    if s.len() == 0 {
        assert(spec_insert_by_latency(s, p) =~= s.insert(k, p));
    } else if k == 0 {
        assert(spec_insert_by_latency(s, p) =~= s.insert(0, p));
    } else {
        lemma_insert_by_latency_at(s.drop_first(), p, k - 1);
        assert(s.drop_first().insert(k - 1, p) =~= s.insert(k, p).drop_first());
        assert(s.insert(k, p)[0] == s[0]);
        assert(spec_insert_by_latency(s, p) =~= s.insert(k, p));
    }
}

/// Sort ranked providers stably by ascending latency: the result is exactly
/// the stable ordering — so also a permutation of the input, ordered.
fn sort_ranked_by_latency_asc(v: Vec<RankedProvider>) -> (r: Vec<RankedProvider>)
    ensures
        ranked_views(r@) == spec_sort_by_latency_asc(ranked_views(v@)),
        r@.len() == v@.len(),
        ranked_views(r@).to_multiset() == ranked_views(v@).to_multiset(),
        sorted_by_latency_asc(ranked_views(r@)),
{
    broadcast use vstd::seq_lib::group_to_multiset_ensures;

    let ghost origs = ranked_views(v@);
    let mut rest = v;
    let total = rest.len();
    let mut out: Vec<RankedProvider> = Vec::new();
    let mut i: usize = 0;
    proof {
        broadcast use vstd::multiset::group_multiset_axioms;

        assert(origs.len() == total);
        assert(ranked_views(out@) =~= spec_sort_by_latency_asc(origs.take(0)));
        assert(ranked_views(rest@) =~= origs.skip(0));
        assert(ranked_views(out@).to_multiset()
            =~= vstd::multiset::Multiset::<RankedProviderView>::empty());
        assert(ranked_views(out@).to_multiset().add(ranked_views(rest@).to_multiset())
            =~= origs.to_multiset());
    }
    while rest.len() > 0
        invariant
            i + rest@.len() == origs.len(),
            origs.len() == total,
            i <= total,
            out@.len() == i,
            ranked_views(rest@) == origs.skip(i as int),
            ranked_views(out@) == spec_sort_by_latency_asc(origs.take(i as int)),
            ranked_views(out@).to_multiset().add(ranked_views(rest@).to_multiset())
                == origs.to_multiset(),
            sorted_by_latency_asc(ranked_views(out@)),
        decreases rest@.len(),
    {
        let ghost rest_before = rest@;
        let x = rest.remove(0);
        let ghost xv = x@;
        proof {
            vstd::seq_lib::to_multiset_remove(ranked_views(rest_before), 0);
            assert(ranked_views(rest@) =~= ranked_views(rest_before).remove(0));
            assert(ranked_views(rest@) =~= origs.skip(i + 1));
            assert(xv == origs[i as int]);
        }
        let mut k: usize = 0;
        let olen = out.len();
        while k < olen && out[k].latency_micros <= x.latency_micros
            invariant
                0 <= k <= olen,
                olen == out@.len(),
                forall|j: int| 0 <= j < k ==> #[trigger] out@[j].latency_micros
                    <= x.latency_micros,
            decreases olen - k,
        {
            k = k + 1;
        }
        let ghost out_before = ranked_views(out@);
        out.insert(k, x);
        proof {
            broadcast use vstd::multiset::group_multiset_axioms;

            lemma_insert_by_latency_at(out_before, xv, k as int);
            assert(ranked_views(out@) =~= out_before.insert(k as int, xv));
            vstd::seq_lib::to_multiset_insert(out_before, k as int, xv);
            assert(origs.take(i + 1).drop_last() =~= origs.take(i as int));
            assert(origs.take(i + 1).last() == origs[i as int]);
            assert(ranked_views(out@) =~= spec_sort_by_latency_asc(origs.take(i + 1)));
            assert(ranked_views(rest_before)[0] == xv);
            vstd::seq_lib::to_multiset_contains(ranked_views(rest_before), xv);
            assert(ranked_views(rest_before).contains(xv));
            assert(ranked_views(out@).to_multiset().add(ranked_views(rest@).to_multiset())
                =~= origs.to_multiset());
            let sa = ranked_views(out@);
            assert(sa =~= out_before.take(k as int).push(xv) + out_before.skip(k as int));
            assert(forall|j: int| 0 <= j < k ==> sa[j] == out_before[j]);
            assert(sa[k as int] == xv);
            assert(forall|j: int| k < j < sa.len() ==> sa[j] == out_before[j - 1]);
            assert forall|a: int, b: int| 0 <= a <= b < sa.len() implies sa[a].latency_micros
                <= sa[b].latency_micros by {
                if a < k && b == k {
                    assert(out_before[a].latency_micros <= xv.latency_micros);
                } else if a == k && b > k {
                    assert(out_before[k as int].latency_micros > xv.latency_micros);
                    assert(out_before[b - 1].latency_micros >= out_before[
                        k as int
                    ].latency_micros);
                }
            }
        }
        i = i + 1;
    }
    proof {
        assert(origs.take(i as int) =~= origs);
    }
    out
}

/// Rank the outcomes of one probe cycle: exactly the successful probes
/// survive, ordered by ascending measured latency. Failed probes are
/// dropped, and an empty result is a valid outcome.
pub fn rank_providers(results: Vec<(RankedProvider, bool)>) -> (r: Vec<RankedProvider>)
    ensures
        ranked_views(r@) == spec_sort_by_latency_asc(spec_successful(outcome_views(results@))),
        ranked_views(r@).to_multiset() == spec_successful(
            outcome_views(results@),
        ).to_multiset(),
        sorted_by_latency_asc(ranked_views(r@)),
{
    let mut survivors: Vec<RankedProvider> = Vec::new();
    let len = results.len();
    let ghost all = results@;
    assert(outcome_views(all.take(0)) =~= Seq::<(RankedProviderView, bool)>::empty());
    let mut i: usize = 0;
    let mut rest = results;
    while rest.len() > 0
        invariant
            i + rest@.len() == all.len(),
            i <= all.len(),
            all.len() <= usize::MAX,
            rest@ == all.skip(i as int),
            ranked_views(survivors@) == spec_successful(outcome_views(all.take(i as int))),
        decreases rest@.len(),
    {
        let (ranked, ok) = rest.remove(0);
        proof {
            assert(all.skip(i as int)[0] == all[i as int]);
            assert(rest@ =~= all.skip(i + 1));
            assert(outcome_views(all.take(i + 1)).drop_last() =~= outcome_views(
                all.take(i as int),
            ));
            assert(outcome_views(all.take(i + 1)).last() == (all[i as int].0@, all[i as int].1));
        }
        if ok {
            survivors.push(ranked);
        }
        proof {
            assert(ranked_views(survivors@) =~= spec_successful(outcome_views(all.take(i + 1))));
        }
        i = i + 1;
    }
    proof {
        assert(all.take(i as int) =~= all);
    }
    sort_ranked_by_latency_asc(survivors)
}

/// Whether one probe counts as successful: the endpoint connected and the
/// liveness call returned, both within the time budget.
pub fn probe_verdict(timed_out: bool, connected: bool, call_ok: bool) -> (r: bool)
    ensures
        r == (!timed_out && connected && call_ok),
{
    !timed_out && connected && call_ok
}

/// The shared pairing state: the sole source of truth that dispatch reads
/// and the refresh scheduler writes. The running system guards one instance
/// with a single exclusive lock held across every whole-state read or write.
pub struct SDKPairingState {
    pub params: SDKPairingParams,
    pub providers: Vec<Provider>,
    pub ranked_providers: Vec<RankedProvider>,
    pub last_updated: u64,
}

/// Mathematical model of the pairing state.
#[verifier::ext_equal]
pub ghost struct SDKPairingStateView {
    pub params: SDKPairingParamsView,
    pub providers: Seq<ProviderView>,
    pub ranked_providers: Seq<RankedProviderView>,
    pub last_updated: u64,
}

impl View for SDKPairingState {
    type V = SDKPairingStateView;

    open spec fn view(&self) -> SDKPairingStateView {
        SDKPairingStateView {
            params: self.params@,
            providers: provider_views(self.providers@),
            ranked_providers: ranked_views(self.ranked_providers@),
            last_updated: self.last_updated,
        }
    }
}

/// The results of one successful refresh cycle, installed as a unit.
pub struct RefreshData {
    pub params: SDKPairingParams,
    pub providers: Vec<Provider>,
    pub ranked_providers: Vec<RankedProvider>,
    pub now: u64,
}

/// Mathematical model of a refresh cycle's results.
#[verifier::ext_equal]
pub ghost struct RefreshDataView {
    pub params: SDKPairingParamsView,
    pub providers: Seq<ProviderView>,
    pub ranked_providers: Seq<RankedProviderView>,
    pub now: u64,
}

impl View for RefreshData {
    type V = RefreshDataView;

    open spec fn view(&self) -> RefreshDataView {
        RefreshDataView {
            params: self.params@,
            providers: provider_views(self.providers@),
            ranked_providers: ranked_views(self.ranked_providers@),
            now: self.now,
        }
    }
}

/// The state a commit leaves behind: every field of that one refresh cycle.
pub open spec fn spec_committed(d: RefreshDataView) -> SDKPairingStateView {
    SDKPairingStateView {
        params: d.params,
        providers: d.providers,
        ranked_providers: d.ranked_providers,
        last_updated: d.now,
    }
}

impl SDKPairingState {
    /// The state before any refresh: default parameters, no providers, no
    /// ranking, and the construction instant as the last-updated stamp.
    pub fn new(now: u64) -> (s: Self)
        ensures
            s@.params.current_epoch == 0,
            s@.params.time_left_to_next_pairing == 0,
            s@.params.spec_last_updated_block == 0,
            s@.params.block_of_next_pairing == 0,
            s@.params.downtime_duration == Seq::<char>::empty(),
            s@.params.epoch_duration == Seq::<char>::empty(),
            s@.providers == Seq::<ProviderView>::empty(),
            s@.ranked_providers == Seq::<RankedProviderView>::empty(),
            s@.last_updated == now,
    {
        let s = SDKPairingState {
            params: SDKPairingParams::default(),
            providers: Vec::new(),
            ranked_providers: Vec::new(),
            last_updated: now,
        };
        proof {
            assert(s@.providers =~= Seq::<ProviderView>::empty());
            assert(s@.ranked_providers =~= Seq::<RankedProviderView>::empty());
        }
        s
    }

    /// Entering a refresh: clamp the time to the next pairing to one second,
    /// so that a refresh that dies midway self-heals with a fast retry.
    /// Nothing else of the state changes.
    pub fn clamp_retry(&mut self)
        ensures
            final(self)@.params.time_left_to_next_pairing == 1,
            final(self)@.params.current_epoch == old(self)@.params.current_epoch,
            final(self)@.params.spec_last_updated_block == old(self)@.params.spec_last_updated_block,
            final(self)@.params.block_of_next_pairing == old(self)@.params.block_of_next_pairing,
            final(self)@.params.downtime_duration == old(self)@.params.downtime_duration,
            final(self)@.params.epoch_duration == old(self)@.params.epoch_duration,
            final(self)@.providers == old(self)@.providers,
            final(self)@.ranked_providers == old(self)@.ranked_providers,
            final(self)@.last_updated == old(self)@.last_updated,
    {
        self.params.time_left_to_next_pairing = 1;
    }

    /// Atomically install the results of one refresh cycle: the parameters,
    /// the provider set, the ranking and the timestamp are replaced together
    /// by this single call, so no later reader can observe fields of two
    /// different cycles.
    pub fn commit_refresh(&mut self, data: RefreshData)
        ensures
            final(self)@ == spec_committed(data@),
    {
        let RefreshData { params, providers, ranked_providers, now } = data;
        self.params = params;
        self.providers = providers;
        self.ranked_providers = ranked_providers;
        self.last_updated = now;
        proof {
            assert(final(self)@ =~= spec_committed(data@));
        }
    }

    /// Apply the outcome of one refresh attempt: a successful cycle commits
    /// its whole result; a failed one changes nothing, leaving the one-second
    /// retry set when the refresh began.
    pub fn apply_refresh_outcome(&mut self, outcome: Option<RefreshData>)
        ensures
            outcome matches Some(d) ==> final(self)@ == spec_committed(d@),
            outcome is None ==> final(self)@ == old(self)@,
    {
        match outcome {
            Some(data) => self.commit_refresh(data),
            None => (),
        }
    }
}

/// Pairing-state atomicity: the state a commit installs is determined by the
/// refresh data alone, so every field a later reader observes comes from
/// that one cycle — the parameters of one cycle can never pair with the
/// rankings of another.
pub proof fn lemma_commit_replaces_whole_state(d: RefreshDataView)
    ensures
        spec_committed(d).params == d.params,
        spec_committed(d).providers == d.providers,
        spec_committed(d).ranked_providers == d.ranked_providers,
        spec_committed(d).last_updated == d.now,
{
}

/// Copy the pairing parameters.
fn clone_params(p: &SDKPairingParams) -> (r: SDKPairingParams)
    ensures
        r@ == p@,
{
    let r = SDKPairingParams {
        current_epoch: p.current_epoch,
        time_left_to_next_pairing: p.time_left_to_next_pairing,
        spec_last_updated_block: p.spec_last_updated_block,
        block_of_next_pairing: p.block_of_next_pairing,
        downtime_duration: p.downtime_duration.clone(),
        epoch_duration: p.epoch_duration.clone(),
    };
    proof {
        assert(r@ =~= p@);
    }
    r
}

/// Copy a provider.
pub fn clone_provider(p: &Provider) -> (r: Provider)
    ensures
        r@ == p@,
{
    let r = Provider {
        address: p.address.clone(),
        stake: p.stake,
        endpoints: clone_string_vec(&p.endpoints),
        latest_block: p.latest_block,
    };
    proof {
        assert(r@ =~= p@);
    }
    r
}

/// Copy a ranked provider.
pub fn clone_ranked_provider(p: &RankedProvider) -> (r: RankedProvider)
    ensures
        r@ == p@,
{
    RankedProvider { provider: clone_provider(&p.provider), latency_micros: p.latency_micros }
}

/// Read the pairing parameters of a state snapshot.
pub fn get_sdk_pairing_params(state: &SDKPairingState) -> (r: SDKPairingParams)
    ensures
        r@ == state@.params,
{
    clone_params(&state.params)
}

/// Read the current ranking of a state snapshot.
pub fn get_ranked_providers(state: &SDKPairingState) -> (r: Vec<RankedProvider>)
    ensures
        ranked_views(r@) == state@.ranked_providers,
{
    let mut out: Vec<RankedProvider> = Vec::new();
    let len = state.ranked_providers.len();
    for i in 0..len
        invariant
            len == state.ranked_providers@.len(),
            out@.len() == i,
            forall|j: int| 0 <= j < i ==> out@[j]@ == state.ranked_providers@[j]@,
    {
        out.push(clone_ranked_provider(&state.ranked_providers[i]));
    }
    proof {
        assert(ranked_views(out@) =~= state@.ranked_providers);
    }
    out
}

/// An event the pairing scheduler reacts to.
pub enum SchedulerEvent {
    /// The sleep until the next pairing ran out.
    TimerExpired,
    /// The shutdown signal arrived.
    ShutdownSignal,
}

/// What the scheduler does next.
#[derive(Debug, PartialEq, Eq, Structural)]
pub enum SchedulerAction {
    /// Fetch the discovery endpoint, probe, and install the results.
    BeginRefresh,
    /// Exit the scheduling loop without completing an in-flight refresh.
    Stop,
}

/// One decision of the pairing scheduler: a timer expiry starts a refresh; a
/// shutdown signal stops the scheduler, and takes precedence over anything
/// else it might do.
pub fn scheduler_step(event: &SchedulerEvent) -> (a: SchedulerAction)
    ensures
        event is TimerExpired ==> a is BeginRefresh,
        event is ShutdownSignal ==> a is Stop,
{
    match event {
        SchedulerEvent::TimerExpired => SchedulerAction::BeginRefresh,
        SchedulerEvent::ShutdownSignal => SchedulerAction::Stop,
    }
}

/// How long the scheduler sleeps before the next refresh: the seconds left
/// to the next pairing, as the last refresh (or the retry clamp) set them.
pub fn next_sleep_seconds(state: &SDKPairingState) -> (r: u64)
    ensures
        r == state@.params.time_left_to_next_pairing,
{
    state.params.time_left_to_next_pairing
}

} // verus!
