use vstd::prelude::*;
use vstd::string::StringSliceAdditionalSpecFns;
use vstd::utf8::encode_utf8;

verus! {

/// How many blocks after a change of detection parameters clues made with
/// the previous precision are still accepted.
pub const FMD_GRACE_PERIOD_BLOCKS: u64 = 10;

/// Parameters of fuzzy message detection.
#[derive(Clone, Copy, Debug, PartialEq, Eq, Structural)]
pub struct FmdParameters {
    /// Bits of precision.
    pub precision_bits: u8,
    /// The block height at which these parameters became effective.
    pub as_of_block_height: u64,
}

impl Default for FmdParameters {
    fn default() -> (r: FmdParameters)
        ensures
            r.precision_bits == 0 && r.as_of_block_height == 1,
    {
        FmdParameters { precision_bits: 0, as_of_block_height: 1 }
    }
}

/// Whether a clue of `precision_bits` is accepted at `block_height`: it uses
/// the current precision, or the previous one within the grace period after
/// the previous parameters took effect.
pub open spec fn clue_precision_ok(precision_bits: u8, previous: FmdParameters, current: FmdParameters, block_height: u64) -> bool {
    precision_bits == current.precision_bits || (precision_bits == previous.precision_bits && block_height
        < previous.as_of_block_height + FMD_GRACE_PERIOD_BLOCKS)
}

/// A ratio of two `u64` values, for governance thresholds. It offers
/// construction and comparison only: comparing cross-multiplies, so that
/// `1/2` equals `2/4`.
#[derive(Clone, Copy, Debug)]
pub struct Ratio {
    numerator: u64,
    denominator: u64,
}

impl Ratio {
    /// The numerator.
    pub closed spec fn num(&self) -> u64 {
        self.numerator
    }

    /// The denominator.
    pub closed spec fn den(&self) -> u64 {
        self.denominator
    }

    /// The ratio `numerator / denominator`.
    pub fn new(numerator: u64, denominator: u64) -> (r: Ratio)
        ensures
            r.num() == numerator,
            r.den() == denominator,
    {
        Ratio { numerator, denominator }
    }

    /// The numerator.
    pub fn numerator(&self) -> (r: u64)
        ensures
            r == self.num(),
    {
        self.numerator
    }

    /// The denominator.
    pub fn denominator(&self) -> (r: u64)
        ensures
            r == self.den(),
    {
        self.denominator
    }

    /// `a / b` against `c / d`, as `a * d` against `b * c`.
    pub open spec fn cmp_spec(&self, other: &Ratio) -> core::cmp::Ordering {
        let l = self.num() as int * other.den() as int;
        let r = self.den() as int * other.num() as int;
        if l < r {
            core::cmp::Ordering::Less
        } else if l == r {
            core::cmp::Ordering::Equal
        } else {
            core::cmp::Ordering::Greater
        }
    }

    /// Compares by cross-multiplication in 128 bits, which cannot overflow.
    pub fn compare(&self, other: &Ratio) -> (r: core::cmp::Ordering)
        ensures
            r == self.cmp_spec(other),
    {
        let a = self.numerator as u128;
        let b = other.denominator as u128;
        let c = self.denominator as u128;
        let d = other.numerator as u128;
        assert(a * b <= u64::MAX as int * u64::MAX as int) by (nonlinear_arith)
            requires
                a <= u64::MAX,
                b <= u64::MAX,
        ;
        assert(c * d <= u64::MAX as int * u64::MAX as int) by (nonlinear_arith)
            requires
                c <= u64::MAX,
                d <= u64::MAX,
        ;
        let l = a * b;
        let r = c * d;
        if l < r {
            core::cmp::Ordering::Less
        } else if l == r {
            core::cmp::Ordering::Equal
        } else {
            core::cmp::Ordering::Greater
        }
    }
}

impl PartialEq for Ratio {
    fn eq(&self, other: &Ratio) -> (r: bool) {
        match self.compare(other) {
            core::cmp::Ordering::Equal => true,
            _ => false,
        }
    }
}

impl vstd::std_specs::cmp::PartialEqSpecImpl for Ratio {
    open spec fn obeys_eq_spec() -> bool {
        true
    }

    open spec fn eq_spec(&self, other: &Ratio) -> bool {
        self.cmp_spec(other) == core::cmp::Ordering::Equal
    }
}

impl Eq for Ratio {
}

impl PartialOrd for Ratio {
    fn partial_cmp(&self, other: &Ratio) -> (r: Option<core::cmp::Ordering>) {
        Some(self.compare(other))
    }
}

impl vstd::std_specs::cmp::PartialOrdSpecImpl for Ratio {
    open spec fn obeys_partial_cmp_spec() -> bool {
        true
    }

    open spec fn partial_cmp_spec(&self, other: &Ratio) -> Option<core::cmp::Ordering> {
        Some(self.cmp_spec(other))
    }
}


/// Why a ratio did not parse.
#[derive(Clone, Copy, Debug, PartialEq, Eq, Structural)]
pub enum RatioError {
    /// A part is not a decimal `u64`.
    InvalidNumber,
    /// There is no `/`.
    MissingDenominator,
    /// There is more than one `/`.
    TooManyParts,
}


/// Why chain parameters did not decode.
#[derive(Clone, Copy, Debug, PartialEq, Eq, Structural)]
pub enum ParamsError {
    MissingDepositAmount,
    ValidQuorum(RatioError),
    PassThreshold(RatioError),
    SlashThreshold(RatioError),
}

/// Chain parameters as they travel: ratios as `numerator/denominator` text,
/// and a deposit amount that may be missing.
pub struct ChainParametersMessage {
    pub chain_id: String,
    pub epoch_duration: u64,
    pub unbonding_epochs: u64,
    pub active_validator_limit: u64,
    pub base_reward_rate: u64,
    pub slashing_penalty_misbehavior: u64,
    pub slashing_penalty_downtime: u64,
    pub signed_blocks_window_len: u64,
    pub missed_blocks_maximum: u64,
    pub ibc_enabled: bool,
    pub inbound_ics20_transfers_enabled: bool,
    pub outbound_ics20_transfers_enabled: bool,
    pub proposal_voting_blocks: u64,
    pub proposal_deposit_amount: Option<u128>,
    pub proposal_valid_quorum: String,
    pub proposal_pass_threshold: String,
    pub proposal_slash_threshold: String,
    pub dao_spend_proposals_enabled: bool,
}

/// The parameters of the chain.
pub struct ChainParameters {
    pub chain_id: String,
    pub epoch_duration: u64,
    pub unbonding_epochs: u64,
    /// The number of validators allowed in the consensus set.
    pub active_validator_limit: u64,
    /// The base reward rate, in basis points of basis points.
    pub base_reward_rate: u64,
    /// The penalty for slashing due to misbehavior, in basis points squared.
    pub slashing_penalty_misbehavior: u64,
    /// The penalty for slashing due to downtime, in basis points squared.
    pub slashing_penalty_downtime: u64,
    /// The number of blocks in the window checked for downtime.
    pub signed_blocks_window_len: u64,
    /// The most blocks of that window a validator may miss unslashed.
    pub missed_blocks_maximum: u64,
    pub ibc_enabled: bool,
    pub inbound_ics20_transfers_enabled: bool,
    pub outbound_ics20_transfers_enabled: bool,
    /// The number of blocks during which a proposal is voted on.
    pub proposal_voting_blocks: u64,
    /// The deposit required to create a proposal.
    pub proposal_deposit_amount: u128,
    /// The share of the total stake that must vote for a proposal to count.
    pub proposal_valid_quorum: Ratio,
    /// The share of "yes" over "yes" and "no" that passes a proposal.
    pub proposal_pass_threshold: Ratio,
    /// The share of "no" over all votes above which a proposal is slashed.
    pub proposal_slash_threshold: Ratio,
    pub dao_spend_proposals_enabled: bool,
}

/// What decoding `m` gives: the first failing part, in field order, or the
/// three ratios.
pub open spec fn params_outcome(m: ChainParametersMessage) -> Result<(u128, (u64, u64), (u64, u64), (u64, u64)), ParamsError> {
    match m.proposal_deposit_amount {
        None => Err(ParamsError::MissingDepositAmount),
        Some(d) => match ratio_outcome(encode_utf8(m.proposal_valid_quorum@)) {
            Err(e) => Err(ParamsError::ValidQuorum(e)),
            Ok(q) => match ratio_outcome(encode_utf8(m.proposal_pass_threshold@)) {
                Err(e) => Err(ParamsError::PassThreshold(e)),
                Ok(p) => match ratio_outcome(encode_utf8(m.proposal_slash_threshold@)) {
                    Err(e) => Err(ParamsError::SlashThreshold(e)),
                    Ok(s) => Ok((d, q, p, s)),
                },
            },
        },
    }
}

/// Whether `b` is an ASCII decimal digit.
pub open spec fn is_digit(b: u8) -> bool {
    48 <= b <= 57
}

/// The value of a string of decimal digits.
pub open spec fn digits_value(s: Seq<u8>) -> int
    decreases s.len(),
{
    if s.len() == 0 {
        0
    } else {
        digits_value(s.drop_last()) * 10 + (s.last() - 48)
    }
}

/// The digits of a number as `u64` parsing takes it: after an optional `+`.
pub open spec fn digits_of(s: Seq<u8>) -> Seq<u8> {
    if s.len() > 0 && s[0] == 43 {
        s.drop_first()
    } else {
        s
    }
}

/// Whether `s` is a decimal `u64`: an optional `+`, then at least one
/// digit, with a value that fits.
pub open spec fn parses_u64(s: Seq<u8>) -> bool {
    let d = digits_of(s);
    d.len() > 0 && (forall|i: int| 0 <= i < d.len() ==> is_digit(#[trigger] d[i])) && digits_value(d) <= u64::MAX
}

/// The index of the first `/` in `s` at or after `from`, or its length.
pub open spec fn slash_from(s: Seq<u8>, from: int) -> int
    decreases s.len() - from,
{
    if from >= s.len() {
        s.len() as int
    } else if s[from] == 47 {
        from
    } else {
        slash_from(s, from + 1)
    }
}

/// What parsing `s` as `numerator/denominator` gives.
pub open spec fn ratio_outcome(s: Seq<u8>) -> Result<(u64, u64), RatioError> {
    let i = slash_from(s, 0);
    let first = s.subrange(0, i);
    if !parses_u64(first) {
        Err(RatioError::InvalidNumber)
    } else if i == s.len() {
        Err(RatioError::MissingDenominator)
    } else {
        let j = slash_from(s, i + 1);
        let second = s.subrange(i + 1, j);
        if !parses_u64(second) {
            Err(RatioError::InvalidNumber)
        } else if j < s.len() {
            Err(RatioError::TooManyParts)
        } else {
            Ok((digits_value(digits_of(first)) as u64, digits_value(digits_of(second)) as u64))
        }
    }
}

/// More digits never make a smaller value.
pub proof fn lemma_digits_grow(s: Seq<u8>, k: int)
    requires
        0 <= k <= s.len(),
        forall|i: int| 0 <= i < s.len() ==> is_digit(#[trigger] s[i]),
    ensures
        digits_value(s) >= digits_value(s.subrange(0, k)),
        digits_value(s) >= 0,
    decreases s.len(),
{
    if s.len() > 0 {
        assert forall|i: int| 0 <= i < s.drop_last().len() implies is_digit(#[trigger] s.drop_last()[i]) by {
            assert(is_digit(s[i]));
        }
        assert(is_digit(s[s.len() - 1]));
        if k == s.len() {
            assert(s.subrange(0, k) =~= s);
            lemma_digits_grow(s.drop_last(), 0);
        } else {
            assert(s.drop_last().subrange(0, k) =~= s.subrange(0, k));
            lemma_digits_grow(s.drop_last(), k);
        }
    } else {
        assert(s.subrange(0, k) =~= s);
    }
}

/// The index of the first `/` at or after `from`, or the length.
fn find_slash(b: &[u8], from: usize) -> (r: usize)
    requires
        from <= b@.len(),
    ensures
        r == slash_from(b@, from as int),
        from <= r <= b@.len(),
{
    let mut i = from;
    while i < b.len()
        invariant
            from <= i <= b@.len(),
            slash_from(b@, from as int) == slash_from(b@, i as int),
        decreases b@.len() - i,
    {
        if b[i] == 47 {
            return i;
        }
        i = i + 1;
    }
    i
}

/// The decimal `u64` that `b[lo..hi]` holds, if it holds one.
fn parse_u64(b: &[u8], lo: usize, hi: usize) -> (r: Option<u64>)
    requires
        lo <= hi <= b@.len(),
    ensures
        r is Some <==> parses_u64(b@.subrange(lo as int, hi as int)),
        r matches Some(x) ==> x == digits_value(digits_of(b@.subrange(lo as int, hi as int))),
{
    let ghost s = b@.subrange(lo as int, hi as int);
    let mut start = lo;
    if lo < hi && b[lo] == 43 {
        start = lo + 1;
    }
    let ghost d = b@.subrange(start as int, hi as int);
    assert(digits_of(s) =~= d);
    if start == hi {
        return None;
    }
    let mut acc: u64 = 0;
    let mut k = start;
    assert(d.subrange(0, 0) =~= Seq::<u8>::empty());
    while k < hi
        invariant
            lo <= start <= k <= hi <= b@.len(),
            d == b@.subrange(start as int, hi as int),
            digits_of(s) == d,
            s == b@.subrange(lo as int, hi as int),
            forall|i: int| 0 <= i < k - start ==> is_digit(#[trigger] d[i]),
            acc == digits_value(d.subrange(0, k - start)),
        decreases hi - k,
    {
        let c = b[k];
        if c < 48 || c > 57 {
            assert(!is_digit(d[k - start]));
            return None;
        }
        let ghost p = d.subrange(0, k - start + 1);
        assert(p.drop_last() =~= d.subrange(0, k - start));
        assert(p.last() == c);
        match acc.checked_mul(10) {
            None => {
                proof {
                    if forall|i: int| 0 <= i < d.len() ==> is_digit(#[trigger] d[i]) {
                        lemma_digits_grow(d, k - start + 1);
                    }
                }
                return None;
            },
            Some(m) => match m.checked_add((c - 48) as u64) {
                None => {
                    proof {
                        if forall|i: int| 0 <= i < d.len() ==> is_digit(#[trigger] d[i]) {
                            lemma_digits_grow(d, k - start + 1);
                        }
                    }
                    return None;
                },
                Some(v) => {
                    acc = v;
                },
            },
        }
        k = k + 1;
    }
    assert(d.subrange(0, d.len() as int) =~= d);
    Some(acc)
}

impl Ratio {
    /// Parses `numerator/denominator`, each a decimal `u64`.
    pub fn parse(s: &str) -> (r: Result<Ratio, RatioError>)
        ensures
            match ratio_outcome(s.spec_bytes()) {
                Ok((n, d)) => r matches Ok(q) && q.num() == n && q.den() == d,
                Err(e) => r == Err::<Ratio, RatioError>(e),
            },
    {
        let b = s.as_bytes();
        let i = find_slash(b, 0);
        let n = match parse_u64(b, 0, i) {
            None => {
                return Err(RatioError::InvalidNumber);
            },
            Some(n) => n,
        };
        if i == b.len() {
            return Err(RatioError::MissingDenominator);
        }
        let j = find_slash(b, i + 1);
        let d = match parse_u64(b, i + 1, j) {
            None => {
                return Err(RatioError::InvalidNumber);
            },
            Some(d) => d,
        };
        if j < b.len() {
            return Err(RatioError::TooManyParts);
        }
        Ok(Ratio { numerator: n, denominator: d })
    }
}

impl core::str::FromStr for Ratio {
    type Err = RatioError;

    fn from_str(s: &str) -> Result<Ratio, RatioError> {
        Ratio::parse(s)
    }
}

} // verus!

verus! {

impl ChainParameters {
    /// Decodes chain parameters: the deposit amount must be present and the
    /// three governance ratios must parse; everything else is taken as is.
    pub fn from_message(m: ChainParametersMessage) -> (r: Result<ChainParameters, ParamsError>)
        ensures
            match params_outcome(m) {
                Err(e) => r == Err::<ChainParameters, ParamsError>(e),
                Ok((d, q, p, s)) => r matches Ok(c) && c.proposal_deposit_amount == d && (c.proposal_valid_quorum.num(),
                    c.proposal_valid_quorum.den()) == q && (c.proposal_pass_threshold.num(),
                    c.proposal_pass_threshold.den()) == p && (c.proposal_slash_threshold.num(),
                    c.proposal_slash_threshold.den()) == s && c.chain_id == m.chain_id && c.epoch_duration
                    == m.epoch_duration && c.proposal_voting_blocks == m.proposal_voting_blocks,
            },
    {
        let deposit = match m.proposal_deposit_amount {
            None => {
                return Err(ParamsError::MissingDepositAmount);
            },
            Some(d) => d,
        };
        let quorum = match Ratio::parse(m.proposal_valid_quorum.as_str()) {
            Err(e) => {
                return Err(ParamsError::ValidQuorum(e));
            },
            Ok(q) => q,
        };
        let pass = match Ratio::parse(m.proposal_pass_threshold.as_str()) {
            Err(e) => {
                return Err(ParamsError::PassThreshold(e));
            },
            Ok(p) => p,
        };
        let slash = match Ratio::parse(m.proposal_slash_threshold.as_str()) {
            Err(e) => {
                return Err(ParamsError::SlashThreshold(e));
            },
            Ok(s) => s,
        };
        Ok(
            ChainParameters {
                chain_id: m.chain_id,
                epoch_duration: m.epoch_duration,
                unbonding_epochs: m.unbonding_epochs,
                active_validator_limit: m.active_validator_limit,
                base_reward_rate: m.base_reward_rate,
                slashing_penalty_misbehavior: m.slashing_penalty_misbehavior,
                slashing_penalty_downtime: m.slashing_penalty_downtime,
                signed_blocks_window_len: m.signed_blocks_window_len,
                missed_blocks_maximum: m.missed_blocks_maximum,
                ibc_enabled: m.ibc_enabled,
                inbound_ics20_transfers_enabled: m.inbound_ics20_transfers_enabled,
                outbound_ics20_transfers_enabled: m.outbound_ics20_transfers_enabled,
                proposal_voting_blocks: m.proposal_voting_blocks,
                proposal_deposit_amount: deposit,
                proposal_valid_quorum: quorum,
                proposal_pass_threshold: pass,
                proposal_slash_threshold: slash,
                dao_spend_proposals_enabled: m.dao_spend_proposals_enabled,
            },
        )
    }
}

impl Default for ChainParameters {
    fn default() -> (r: ChainParameters)
        ensures
            r.epoch_duration == 719 && r.unbonding_epochs == 2 && r.active_validator_limit == 80,
            r.signed_blocks_window_len == 10000 && r.missed_blocks_maximum == 9500,
            r.slashing_penalty_misbehavior == 1000_0000 && r.slashing_penalty_downtime == 1_0000,
            r.base_reward_rate == 3_0000,
            r.ibc_enabled && r.inbound_ics20_transfers_enabled && r.outbound_ics20_transfers_enabled,
            r.proposal_voting_blocks == 17_280 && r.proposal_deposit_amount == 10_000_000,
            r.proposal_valid_quorum.num() == 40 && r.proposal_valid_quorum.den() == 100,
            r.proposal_pass_threshold.num() == 50 && r.proposal_pass_threshold.den() == 100,
            r.proposal_slash_threshold.num() == 80 && r.proposal_slash_threshold.den() == 100,
            r.dao_spend_proposals_enabled,
            r.chain_id@ == Seq::<char>::empty(),
    {
        ChainParameters {
            chain_id: String::new(),
            epoch_duration: 719,
            unbonding_epochs: 2,
            active_validator_limit: 80,
            signed_blocks_window_len: 10000,
            missed_blocks_maximum: 9500,
            slashing_penalty_misbehavior: 1000_0000,
            slashing_penalty_downtime: 1_0000,
            base_reward_rate: 3_0000,
            ibc_enabled: true,
            inbound_ics20_transfers_enabled: true,
            outbound_ics20_transfers_enabled: true,
            proposal_voting_blocks: 17_280,
            proposal_deposit_amount: 10_000_000,
            proposal_valid_quorum: Ratio::new(40, 100),
            proposal_pass_threshold: Ratio::new(50, 100),
            proposal_slash_threshold: Ratio::new(80, 100),
            dao_spend_proposals_enabled: true,
        }
    }
}

} // verus!
