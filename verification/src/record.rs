//! The persisted form of a bank: a layout of fixed length that opens with a tag naming the
//! kind of record and the version of the layout. Numbers stand in little-endian; signed
//! numbers are moved up by two to the sixty-third first, so that they stand as unsigned
//! ones in their order.
use vstd::prelude::*;
use vstd::bytes::{lemma_auto_spec_u128_to_from_le_bytes, lemma_auto_spec_u64_to_from_le_bytes, spec_u128_from_le_bytes, spec_u128_to_le_bytes, spec_u64_from_le_bytes, spec_u64_to_le_bytes, u128_from_le_bytes, u128_to_le_bytes, u64_from_le_bytes, u64_to_le_bytes};
use crate::address::{address_of, lemma_address_bytes, lemma_address_of_view, Address};
use crate::bank::{Bank, Mint};
use crate::config::{BankConfig, InterestRateConfig, OracleRef, RiskTier};
use crate::group::flag_byte;
use crate::vault::{BankVaults, VaultSlot};

verus! {

/// What is added to a signed number before it is written.
pub const SIGN_BIAS: u64 = 0x8000_0000_0000_0000;

/// The unsigned number that stands for a signed one.
pub open spec fn biased(x: i64) -> u64 {
    (x + SIGN_BIAS) as u64
}

/// The signed number that an unsigned one stands for.
pub open spec fn unbiased(u: u64) -> i64 {
    (u - SIGN_BIAS) as i64
}

/// The bytes of a signed number.
pub open spec fn i64_bytes(x: i64) -> Seq<u8> {
    spec_u64_to_le_bytes(biased(x))
}

/// The unsigned number that stands in eight bytes from place `at` on.
pub open spec fn u64_at(bytes: Seq<u8>, at: int) -> u64 {
    spec_u64_from_le_bytes(bytes.subrange(at, at + 8))
}

/// The signed number that stands in eight bytes from place `at` on.
pub open spec fn i64_at(bytes: Seq<u8>, at: int) -> i64 {
    unbiased(u64_at(bytes, at))
}

/// The number that stands in sixteen bytes from place `at` on.
pub open spec fn u128_at(bytes: Seq<u8>, at: int) -> u128 {
    spec_u128_from_le_bytes(bytes.subrange(at, at + 16))
}

/// The address that stands in thirty-two bytes from place `at` on.
pub open spec fn address_at(bytes: Seq<u8>, at: int) -> Address {
    address_of(bytes.subrange(at, at + 32))
}

/// A part of a whole that stands in `bytes` stands in `bytes` itself, further on.
pub proof fn lemma_part_of_whole(bytes: Seq<u8>, at: int, whole: Seq<u8>, off: int, part: Seq<u8>)
    requires
        0 <= at,
        at + whole.len() <= bytes.len(),
        bytes.subrange(at, at + whole.len()) == whole,
        0 <= off,
        off + part.len() <= whole.len(),
        whole.subrange(off, off + part.len()) == part,
    ensures
        bytes.subrange(at + off, at + off + part.len()) == part,
{
    let left = bytes.subrange(at + off, at + off + part.len());
    let right = whole.subrange(off, off + part.len());
    assert(left =~= right) by {
        assert forall|i: int| 0 <= i < part.len() implies #[trigger] left[i] == right[i] by {
            assert(bytes.subrange(at, at + whole.len())[off + i] == bytes[at + off + i]);
        }
    }
}

/// A signed number is read as it was written, from eight bytes.
pub proof fn lemma_i64_bytes(x: i64)
    ensures
        i64_bytes(x).len() == 8,
        unbiased(spec_u64_from_le_bytes(i64_bytes(x))) == x,
{
    lemma_auto_spec_u64_to_from_le_bytes();
}

/// A number of sixteen bytes is read as it was written.
pub proof fn lemma_u128_bytes(x: u128)
    ensures
        spec_u128_to_le_bytes(x).len() == 16,
        spec_u128_from_le_bytes(spec_u128_to_le_bytes(x)) == x,
{
    lemma_auto_spec_u128_to_from_le_bytes();
    assert(spec_u128_to_le_bytes(x).len() == 16);
}

/// Eight bytes are written as they were read, as an unsigned number and as a signed one.
pub proof fn lemma_eight_bytes(bytes: Seq<u8>)
    requires
        bytes.len() == 8,
    ensures
        spec_u64_to_le_bytes(spec_u64_from_le_bytes(bytes)) == bytes,
        i64_bytes(unbiased(spec_u64_from_le_bytes(bytes))) == bytes,
{
    lemma_auto_spec_u64_to_from_le_bytes();
    let u = spec_u64_from_le_bytes(bytes);
    assert(biased(unbiased(u)) == u);
}

/// Sixteen bytes are written as they were read.
pub proof fn lemma_sixteen_bytes(bytes: Seq<u8>)
    requires
        bytes.len() == 16,
    ensures
        spec_u128_to_le_bytes(spec_u128_from_le_bytes(bytes)) == bytes,
{
    lemma_auto_spec_u128_to_from_le_bytes();
}

pub(crate) fn bias(x: i64) -> (u: u64)
    ensures
        u == biased(x),
{
    if x >= 0 {
        x as u64 + SIGN_BIAS
    } else {
        (x - i64::MIN) as u64
    }
}

pub(crate) fn unbias(u: u64) -> (x: i64)
    ensures
        x == unbiased(u),
{
    if u >= SIGN_BIAS {
        (u - SIGN_BIAS) as i64
    } else {
        u as i64 + i64::MIN
    }
}

pub(crate) fn write_u64(out: &mut Vec<u8>, x: u64)
    ensures
        final(out)@ == old(out)@ + spec_u64_to_le_bytes(x),
{
    let mut bytes: Vec<u8> = u64_to_le_bytes(x);
    out.append(&mut bytes);
}

pub(crate) fn write_i64(out: &mut Vec<u8>, x: i64)
    ensures
        final(out)@ == old(out)@ + i64_bytes(x),
{
    write_u64(out, bias(x));
}

pub(crate) fn write_u128(out: &mut Vec<u8>, x: u128)
    ensures
        final(out)@ == old(out)@ + spec_u128_to_le_bytes(x),
{
    let mut bytes: Vec<u8> = u128_to_le_bytes(x);
    out.append(&mut bytes);
}

pub(crate) fn write_address(out: &mut Vec<u8>, a: &Address)
    ensures
        final(out)@ == old(out)@ + a@,
{
    let mut bytes: Vec<u8> = a.to_vec();
    out.append(&mut bytes);
}

pub(crate) fn write_flag(out: &mut Vec<u8>, flag: bool)
    ensures
        final(out)@ == old(out)@ + seq![flag_byte(flag)],
{
    out.push(if flag { 1 } else { 0 });
    assert(out@ =~= old(out)@ + seq![flag_byte(flag)]);
}

pub(crate) fn read_u64(bytes: &Vec<u8>, at: usize) -> (x: u64)
    requires
        at + 8 <= bytes@.len(),
    ensures
        x == u64_at(bytes@, at as int),
{
    let len: usize = bytes.len();
    u64_from_le_bytes(vstd::slice::slice_subrange(bytes.as_slice(), at, at + 8))
}

pub(crate) fn read_i64(bytes: &Vec<u8>, at: usize) -> (x: i64)
    requires
        at + 8 <= bytes@.len(),
    ensures
        x == i64_at(bytes@, at as int),
{
    unbias(read_u64(bytes, at))
}

pub(crate) fn read_u128(bytes: &Vec<u8>, at: usize) -> (x: u128)
    requires
        at + 16 <= bytes@.len(),
    ensures
        x == u128_at(bytes@, at as int),
{
    let len: usize = bytes.len();
    u128_from_le_bytes(vstd::slice::slice_subrange(bytes.as_slice(), at, at + 16))
}

pub(crate) fn read_address(bytes: &Vec<u8>, at: usize) -> (a: Address)
    requires
        at + 32 <= bytes@.len(),
    ensures
        a == address_at(bytes@, at as int),
{
    match Address::from_slice(bytes, at) {
        Some(a) => a,
        None => Address::new([0u8; 32]),
    }
}

/// The length in bytes of a persisted mint.
pub const MINT_RECORD_LEN: usize = 65;

/// The length in bytes of a persisted vault slot.
pub const SLOT_RECORD_LEN: usize = 66;

/// The length in bytes of the persisted vaults of a bank.
pub const VAULTS_RECORD_LEN: usize = 198;

/// The length in bytes of a persisted interest curve.
pub const CURVE_RECORD_LEN: usize = 40;

/// The persisted form of a mint: its key, its token program, its decimals.
pub open spec fn mint_record(mint: Mint) -> Seq<u8> {
    mint.key@ + mint.token_program@ + seq![mint.decimals]
}

/// The mint that stands in `bytes` from place `at` on.
pub open spec fn mint_at(bytes: Seq<u8>, at: int) -> Mint {
    Mint { key: address_at(bytes, at), token_program: address_at(bytes, at + 32), decimals: bytes[at + 64] }
}

/// A mint is read as it was written, and is written as it was read.
pub proof fn lemma_mint_round_trip(bytes: Seq<u8>, at: int, mint: Mint)
    requires
        0 <= at,
        at + MINT_RECORD_LEN <= bytes.len(),
    ensures
        mint_record(mint).len() == MINT_RECORD_LEN,
        bytes.subrange(at, at + MINT_RECORD_LEN) == mint_record(mint) <==> mint_at(bytes, at) == mint,
{
    let whole = mint_record(mint);
    lemma_address_of_view(mint.key);
    lemma_address_of_view(mint.token_program);
    assert(whole.subrange(0, 32) =~= mint.key@);
    assert(whole.subrange(32, 64) =~= mint.token_program@);
    assert(whole[64] == mint.decimals);
    let part = bytes.subrange(at, at + MINT_RECORD_LEN);
    if part == whole {
        lemma_part_of_whole(bytes, at, whole, 0, mint.key@);
        lemma_part_of_whole(bytes, at, whole, 32, mint.token_program@);
        assert(part[64] == bytes[at + 64]);
    }
    if mint_at(bytes, at) == mint {
        lemma_address_bytes(bytes.subrange(at, at + 32));
        lemma_address_bytes(bytes.subrange(at + 32, at + 64));
        assert(part =~= whole) by {
            assert forall|i: int| 0 <= i < 65 implies #[trigger] part[i] == whole[i] by {
                if i < 32 {
                    assert(bytes.subrange(at, at + 32)[i] == bytes[at + i]);
                } else if i < 64 {
                    assert(bytes.subrange(at + 32, at + 64)[i - 32] == bytes[at + i]);
                }
            }
        }
    }
}

pub(crate) fn write_mint(out: &mut Vec<u8>, mint: &Mint)
    ensures
        final(out)@ == old(out)@ + mint_record(*mint),
{
    write_address(out, &mint.key);
    write_address(out, &mint.token_program);
    out.push(mint.decimals);
    assert(out@ =~= old(out)@ + mint_record(*mint));
}

pub(crate) fn read_mint(bytes: &Vec<u8>, at: usize) -> (mint: Mint)
    requires
        at + MINT_RECORD_LEN <= bytes@.len(),
    ensures
        mint == mint_at(bytes@, at as int),
{
    let len: usize = bytes.len();
    Mint { key: read_address(bytes, at), token_program: read_address(bytes, at + 32), decimals: bytes[at + 64] }
}

/// The persisted form of a vault slot: the vault, its bump, the authority, its bump.
pub open spec fn slot_record(slot: VaultSlot) -> Seq<u8> {
    slot.vault@ + seq![slot.vault_bump] + slot.authority@ + seq![slot.authority_bump]
}

/// The vault slot that stands in `bytes` from place `at` on.
pub open spec fn slot_at(bytes: Seq<u8>, at: int) -> VaultSlot {
    VaultSlot {
        vault: address_at(bytes, at),
        vault_bump: bytes[at + 32],
        authority: address_at(bytes, at + 33),
        authority_bump: bytes[at + 65],
    }
}

/// A vault slot is read as it was written, and is written as it was read.
pub proof fn lemma_slot_round_trip(bytes: Seq<u8>, at: int, slot: VaultSlot)
    requires
        0 <= at,
        at + SLOT_RECORD_LEN <= bytes.len(),
    ensures
        slot_record(slot).len() == SLOT_RECORD_LEN,
        bytes.subrange(at, at + SLOT_RECORD_LEN) == slot_record(slot) <==> slot_at(bytes, at) == slot,
{
    let whole = slot_record(slot);
    lemma_address_of_view(slot.vault);
    lemma_address_of_view(slot.authority);
    assert(whole.subrange(0, 32) =~= slot.vault@);
    assert(whole[32] == slot.vault_bump);
    assert(whole.subrange(33, 65) =~= slot.authority@);
    assert(whole[65] == slot.authority_bump);
    let part = bytes.subrange(at, at + SLOT_RECORD_LEN);
    if part == whole {
        lemma_part_of_whole(bytes, at, whole, 0, slot.vault@);
        lemma_part_of_whole(bytes, at, whole, 33, slot.authority@);
        assert(part[32] == bytes[at + 32]);
        assert(part[65] == bytes[at + 65]);
    }
    if slot_at(bytes, at) == slot {
        lemma_address_bytes(bytes.subrange(at, at + 32));
        lemma_address_bytes(bytes.subrange(at + 33, at + 65));
        assert(part =~= whole) by {
            assert forall|i: int| 0 <= i < 66 implies #[trigger] part[i] == whole[i] by {
                if i < 32 {
                    assert(bytes.subrange(at, at + 32)[i] == bytes[at + i]);
                } else if 33 <= i < 65 {
                    assert(bytes.subrange(at + 33, at + 65)[i - 33] == bytes[at + i]);
                }
            }
        }
    }
}

pub(crate) fn write_slot(out: &mut Vec<u8>, slot: &VaultSlot)
    ensures
        final(out)@ == old(out)@ + slot_record(*slot),
{
    write_address(out, &slot.vault);
    out.push(slot.vault_bump);
    write_address(out, &slot.authority);
    out.push(slot.authority_bump);
    assert(out@ =~= old(out)@ + slot_record(*slot));
}

pub(crate) fn read_slot(bytes: &Vec<u8>, at: usize) -> (slot: VaultSlot)
    requires
        at + SLOT_RECORD_LEN <= bytes@.len(),
    ensures
        slot == slot_at(bytes@, at as int),
{
    let len: usize = bytes.len();
    VaultSlot {
        vault: read_address(bytes, at),
        vault_bump: bytes[at + 32],
        authority: read_address(bytes, at + 33),
        authority_bump: bytes[at + 65],
    }
}

/// The persisted form of a bank's vaults: the liquidity, insurance and fee slots.
pub open spec fn vaults_record(vaults: BankVaults) -> Seq<u8> {
    slot_record(vaults.liquidity) + slot_record(vaults.insurance) + slot_record(vaults.fee)
}

/// The vaults that stand in `bytes` from place `at` on.
pub open spec fn vaults_at(bytes: Seq<u8>, at: int) -> BankVaults {
    BankVaults { liquidity: slot_at(bytes, at), insurance: slot_at(bytes, at + 66), fee: slot_at(bytes, at + 132) }
}

/// The vaults of a bank are read as they were written, and written as they were read.
pub proof fn lemma_vaults_round_trip(bytes: Seq<u8>, at: int, vaults: BankVaults)
    requires
        0 <= at,
        at + VAULTS_RECORD_LEN <= bytes.len(),
    ensures
        vaults_record(vaults).len() == VAULTS_RECORD_LEN,
        bytes.subrange(at, at + VAULTS_RECORD_LEN) == vaults_record(vaults) <==> vaults_at(bytes, at) == vaults,
{
    let whole = vaults_record(vaults);
    lemma_slot_round_trip(bytes, at, vaults.liquidity);
    lemma_slot_round_trip(bytes, at + 66, vaults.insurance);
    lemma_slot_round_trip(bytes, at + 132, vaults.fee);
    assert(whole.subrange(0, 66) =~= slot_record(vaults.liquidity));
    assert(whole.subrange(66, 132) =~= slot_record(vaults.insurance));
    assert(whole.subrange(132, 198) =~= slot_record(vaults.fee));
    let part = bytes.subrange(at, at + VAULTS_RECORD_LEN);
    if part == whole {
        lemma_part_of_whole(bytes, at, whole, 0, slot_record(vaults.liquidity));
        lemma_part_of_whole(bytes, at, whole, 66, slot_record(vaults.insurance));
        lemma_part_of_whole(bytes, at, whole, 132, slot_record(vaults.fee));
    }
    if vaults_at(bytes, at) == vaults {
        assert(part =~= whole) by {
            assert forall|i: int| 0 <= i < 198 implies #[trigger] part[i] == whole[i] by {
                if i < 66 {
                    assert(bytes.subrange(at, at + 66)[i] == bytes[at + i]);
                } else if i < 132 {
                    assert(bytes.subrange(at + 66, at + 132)[i - 66] == bytes[at + i]);
                } else {
                    assert(bytes.subrange(at + 132, at + 198)[i - 132] == bytes[at + i]);
                }
            }
        }
    }
}

pub(crate) fn write_vaults(out: &mut Vec<u8>, vaults: &BankVaults)
    ensures
        final(out)@ == old(out)@ + vaults_record(*vaults),
{
    write_slot(out, &vaults.liquidity);
    write_slot(out, &vaults.insurance);
    write_slot(out, &vaults.fee);
    assert(out@ =~= old(out)@ + vaults_record(*vaults));
}

pub(crate) fn read_vaults(bytes: &Vec<u8>, at: usize) -> (vaults: BankVaults)
    requires
        at + VAULTS_RECORD_LEN <= bytes@.len(),
    ensures
        vaults == vaults_at(bytes@, at as int),
{
    let len: usize = bytes.len();
    BankVaults { liquidity: read_slot(bytes, at), insurance: read_slot(bytes, at + 66), fee: read_slot(bytes, at + 132) }
}

/// The persisted form of an interest curve: its five numbers.
pub open spec fn curve_record(curve: InterestRateConfig) -> Seq<u8> {
    spec_u64_to_le_bytes(curve.optimal_utilization_rate) + spec_u64_to_le_bytes(curve.plateau_interest_rate)
        + spec_u64_to_le_bytes(curve.max_interest_rate) + spec_u64_to_le_bytes(curve.insurance_ir_fee)
        + spec_u64_to_le_bytes(curve.protocol_ir_fee)
}

/// The interest curve that stands in `bytes` from place `at` on.
pub open spec fn curve_at(bytes: Seq<u8>, at: int) -> InterestRateConfig {
    InterestRateConfig {
        optimal_utilization_rate: u64_at(bytes, at),
        plateau_interest_rate: u64_at(bytes, at + 8),
        max_interest_rate: u64_at(bytes, at + 16),
        insurance_ir_fee: u64_at(bytes, at + 24),
        protocol_ir_fee: u64_at(bytes, at + 32),
    }
}

/// An interest curve is read as it was written, and is written as it was read.
pub proof fn lemma_curve_round_trip(bytes: Seq<u8>, at: int, curve: InterestRateConfig)
    requires
        0 <= at,
        at + CURVE_RECORD_LEN <= bytes.len(),
    ensures
        curve_record(curve).len() == CURVE_RECORD_LEN,
        bytes.subrange(at, at + CURVE_RECORD_LEN) == curve_record(curve) <==> curve_at(bytes, at) == curve,
{
    lemma_auto_spec_u64_to_from_le_bytes();
    let whole = curve_record(curve);
    let a = spec_u64_to_le_bytes(curve.optimal_utilization_rate);
    let b = spec_u64_to_le_bytes(curve.plateau_interest_rate);
    let c = spec_u64_to_le_bytes(curve.max_interest_rate);
    let d = spec_u64_to_le_bytes(curve.insurance_ir_fee);
    let e = spec_u64_to_le_bytes(curve.protocol_ir_fee);
    assert(a.len() == 8 && b.len() == 8 && c.len() == 8 && d.len() == 8 && e.len() == 8);
    assert(whole.subrange(0, 8) =~= a);
    assert(whole.subrange(8, 16) =~= b);
    assert(whole.subrange(16, 24) =~= c);
    assert(whole.subrange(24, 32) =~= d);
    assert(whole.subrange(32, 40) =~= e);
    let part = bytes.subrange(at, at + CURVE_RECORD_LEN);
    if part == whole {
        lemma_part_of_whole(bytes, at, whole, 0, a);
        lemma_part_of_whole(bytes, at, whole, 8, b);
        lemma_part_of_whole(bytes, at, whole, 16, c);
        lemma_part_of_whole(bytes, at, whole, 24, d);
        lemma_part_of_whole(bytes, at, whole, 32, e);
    }
    if curve_at(bytes, at) == curve {
        assert(bytes.subrange(at, at + 8) == a);
        assert(bytes.subrange(at + 8, at + 16) == b);
        assert(bytes.subrange(at + 16, at + 24) == c);
        assert(bytes.subrange(at + 24, at + 32) == d);
        assert(bytes.subrange(at + 32, at + 40) == e);
        assert(part =~= whole) by {
            assert forall|i: int| 0 <= i < 40 implies #[trigger] part[i] == whole[i] by {
                if i < 8 {
                    assert(bytes.subrange(at, at + 8)[i] == bytes[at + i]);
                } else if i < 16 {
                    assert(bytes.subrange(at + 8, at + 16)[i - 8] == bytes[at + i]);
                } else if i < 24 {
                    assert(bytes.subrange(at + 16, at + 24)[i - 16] == bytes[at + i]);
                } else if i < 32 {
                    assert(bytes.subrange(at + 24, at + 32)[i - 24] == bytes[at + i]);
                } else {
                    assert(bytes.subrange(at + 32, at + 40)[i - 32] == bytes[at + i]);
                }
            }
        }
    }
}

pub(crate) fn write_curve(out: &mut Vec<u8>, curve: &InterestRateConfig)
    ensures
        final(out)@ == old(out)@ + curve_record(*curve),
{
    write_u64(out, curve.optimal_utilization_rate);
    write_u64(out, curve.plateau_interest_rate);
    write_u64(out, curve.max_interest_rate);
    write_u64(out, curve.insurance_ir_fee);
    write_u64(out, curve.protocol_ir_fee);
    assert(out@ =~= old(out)@ + curve_record(*curve));
}

pub(crate) fn read_curve(bytes: &Vec<u8>, at: usize) -> (curve: InterestRateConfig)
    requires
        at + CURVE_RECORD_LEN <= bytes@.len(),
    ensures
        curve == curve_at(bytes@, at as int),
{
    let len: usize = bytes.len();
    InterestRateConfig {
        optimal_utilization_rate: read_u64(bytes, at),
        plateau_interest_rate: read_u64(bytes, at + 8),
        max_interest_rate: read_u64(bytes, at + 16),
        insurance_ir_fee: read_u64(bytes, at + 24),
        protocol_ir_fee: read_u64(bytes, at + 32),
    }
}

/// The length in bytes of a persisted bank configuration.
pub const CONFIG_RECORD_LEN: usize = 132;

/// The length in bytes of the persisted books of a bank.
pub const BOOKS_RECORD_LEN: usize = 104;

/// The length in bytes of a persisted bank.
pub const BANK_RECORD_LEN: usize = 603;

/// The byte that tells the kinds of oracle reference apart.
pub open spec fn oracle_tag(oracle: OracleRef) -> u8 {
    match oracle {
        OracleRef::Direct(_) => 0,
        OracleRef::Feed(_) => 1,
    }
}

/// The key that an oracle reference holds.
pub open spec fn oracle_key(oracle: OracleRef) -> Address {
    match oracle {
        OracleRef::Direct(key) => key,
        OracleRef::Feed(key) => key,
    }
}

/// The byte that stands for a risk tier.
pub open spec fn tier_byte(tier: RiskTier) -> u8 {
    match tier {
        RiskTier::Collateral => 0,
        RiskTier::Isolated => 1,
    }
}

/// The persisted form of a bank configuration: the four weights, the two limits, the oracle
/// reference and its maximum age, the curve, the two pause flags and the risk tier.
pub open spec fn config_record(config: BankConfig) -> Seq<u8> {
    i64_bytes(config.asset_weight_init) + i64_bytes(config.asset_weight_maint) + i64_bytes(
        config.liability_weight_init,
    ) + i64_bytes(config.liability_weight_maint) + i64_bytes(config.deposit_limit) + i64_bytes(config.borrow_limit)
        + seq![oracle_tag(config.oracle)] + oracle_key(config.oracle)@ + spec_u64_to_le_bytes(config.oracle_max_age)
        + curve_record(config.interest_rate_config) + seq![
        flag_byte(config.deposits_paused),
        flag_byte(config.borrows_paused),
        tier_byte(config.risk_tier),
    ]
}

/// The bank configuration that stands in `bytes` from place `at` on, if the bytes that tell
/// kinds and flags apart hold values that do.
pub open spec fn config_at(bytes: Seq<u8>, at: int) -> Option<BankConfig> {
    if bytes[at + 48] <= 1 && bytes[at + 129] <= 1 && bytes[at + 130] <= 1 && bytes[at + 131] <= 1 {
        Some(
            BankConfig {
                asset_weight_init: i64_at(bytes, at),
                asset_weight_maint: i64_at(bytes, at + 8),
                liability_weight_init: i64_at(bytes, at + 16),
                liability_weight_maint: i64_at(bytes, at + 24),
                deposit_limit: i64_at(bytes, at + 32),
                borrow_limit: i64_at(bytes, at + 40),
                oracle: if bytes[at + 48] == 0 {
                    OracleRef::Direct(address_at(bytes, at + 49))
                } else {
                    OracleRef::Feed(address_at(bytes, at + 49))
                },
                oracle_max_age: u64_at(bytes, at + 81),
                interest_rate_config: curve_at(bytes, at + 89),
                deposits_paused: bytes[at + 129] == 1,
                borrows_paused: bytes[at + 130] == 1,
                risk_tier: if bytes[at + 131] == 0 {
                    RiskTier::Collateral
                } else {
                    RiskTier::Isolated
                },
            },
        )
    } else {
        None
    }
}

/// A bank configuration is read as it was written, and is written as it was read.
pub proof fn lemma_config_round_trip(bytes: Seq<u8>, at: int, config: BankConfig)
    requires
        0 <= at,
        at + CONFIG_RECORD_LEN <= bytes.len(),
    ensures
        config_record(config).len() == CONFIG_RECORD_LEN,
        bytes.subrange(at, at + CONFIG_RECORD_LEN) == config_record(config) <==> config_at(bytes, at) == Some(config),
{
    lemma_auto_spec_u64_to_from_le_bytes();
    let whole = config_record(config);
    let w1 = i64_bytes(config.asset_weight_init);
    let w2 = i64_bytes(config.asset_weight_maint);
    let w3 = i64_bytes(config.liability_weight_init);
    let w4 = i64_bytes(config.liability_weight_maint);
    let l1 = i64_bytes(config.deposit_limit);
    let l2 = i64_bytes(config.borrow_limit);
    let key = oracle_key(config.oracle)@;
    let age = spec_u64_to_le_bytes(config.oracle_max_age);
    let curve = curve_record(config.interest_rate_config);
    lemma_i64_bytes(config.asset_weight_init);
    lemma_i64_bytes(config.asset_weight_maint);
    lemma_i64_bytes(config.liability_weight_init);
    lemma_i64_bytes(config.liability_weight_maint);
    lemma_i64_bytes(config.deposit_limit);
    lemma_i64_bytes(config.borrow_limit);
    lemma_address_of_view(oracle_key(config.oracle));
    lemma_curve_round_trip(bytes, at + 89, config.interest_rate_config);
    assert(whole.len() == 132);
    assert(whole.subrange(0, 8) =~= w1);
    assert(whole.subrange(8, 16) =~= w2);
    assert(whole.subrange(16, 24) =~= w3);
    assert(whole.subrange(24, 32) =~= w4);
    assert(whole.subrange(32, 40) =~= l1);
    assert(whole.subrange(40, 48) =~= l2);
    assert(whole[48] == oracle_tag(config.oracle));
    assert(whole.subrange(49, 81) =~= key);
    assert(whole.subrange(81, 89) =~= age);
    assert(whole.subrange(89, 129) =~= curve);
    assert(whole[129] == flag_byte(config.deposits_paused));
    assert(whole[130] == flag_byte(config.borrows_paused));
    assert(whole[131] == tier_byte(config.risk_tier));
    let part = bytes.subrange(at, at + CONFIG_RECORD_LEN);
    if part == whole {
        lemma_part_of_whole(bytes, at, whole, 0, w1);
        lemma_part_of_whole(bytes, at, whole, 8, w2);
        lemma_part_of_whole(bytes, at, whole, 16, w3);
        lemma_part_of_whole(bytes, at, whole, 24, w4);
        lemma_part_of_whole(bytes, at, whole, 32, l1);
        lemma_part_of_whole(bytes, at, whole, 40, l2);
        lemma_part_of_whole(bytes, at, whole, 49, key);
        lemma_part_of_whole(bytes, at, whole, 81, age);
        lemma_part_of_whole(bytes, at, whole, 89, curve);
        assert(part[48] == bytes[at + 48]);
        assert(part[129] == bytes[at + 129]);
        assert(part[130] == bytes[at + 130]);
        assert(part[131] == bytes[at + 131]);
        assert(config_at(bytes, at) == Some(config));
    }
    if config_at(bytes, at) == Some(config) {
        lemma_eight_bytes(bytes.subrange(at, at + 8));
        lemma_eight_bytes(bytes.subrange(at + 8, at + 16));
        lemma_eight_bytes(bytes.subrange(at + 16, at + 24));
        lemma_eight_bytes(bytes.subrange(at + 24, at + 32));
        lemma_eight_bytes(bytes.subrange(at + 32, at + 40));
        lemma_eight_bytes(bytes.subrange(at + 40, at + 48));
        lemma_eight_bytes(bytes.subrange(at + 81, at + 89));
        lemma_address_bytes(bytes.subrange(at + 49, at + 81));
        assert(part =~= whole) by {
            assert forall|i: int| 0 <= i < 132 implies #[trigger] part[i] == whole[i] by {
                if i < 8 {
                    assert(bytes.subrange(at, at + 8)[i] == bytes[at + i]);
                } else if i < 16 {
                    assert(bytes.subrange(at + 8, at + 16)[i - 8] == bytes[at + i]);
                } else if i < 24 {
                    assert(bytes.subrange(at + 16, at + 24)[i - 16] == bytes[at + i]);
                } else if i < 32 {
                    assert(bytes.subrange(at + 24, at + 32)[i - 24] == bytes[at + i]);
                } else if i < 40 {
                    assert(bytes.subrange(at + 32, at + 40)[i - 32] == bytes[at + i]);
                } else if i < 48 {
                    assert(bytes.subrange(at + 40, at + 48)[i - 40] == bytes[at + i]);
                } else if 49 <= i < 81 {
                    assert(bytes.subrange(at + 49, at + 81)[i - 49] == bytes[at + i]);
                } else if 81 <= i < 89 {
                    assert(bytes.subrange(at + 81, at + 89)[i - 81] == bytes[at + i]);
                } else if 89 <= i < 129 {
                    assert(bytes.subrange(at + 89, at + 129)[i - 89] == bytes[at + i]);
                }
            }
        }
    }
}

pub(crate) fn write_config(out: &mut Vec<u8>, config: &BankConfig)
    ensures
        final(out)@ == old(out)@ + config_record(*config),
{
    let ghost start = out@;
    write_i64(out, config.asset_weight_init);
    let ghost mut written = i64_bytes(config.asset_weight_init);
    write_i64(out, config.asset_weight_maint);
    proof {
        written = written + i64_bytes(config.asset_weight_maint);
        assert(out@ =~= start + written);
    }
    write_i64(out, config.liability_weight_init);
    proof {
        written = written + i64_bytes(config.liability_weight_init);
        assert(out@ =~= start + written);
    }
    write_i64(out, config.liability_weight_maint);
    proof {
        written = written + i64_bytes(config.liability_weight_maint);
        assert(out@ =~= start + written);
    }
    write_i64(out, config.deposit_limit);
    proof {
        written = written + i64_bytes(config.deposit_limit);
        assert(out@ =~= start + written);
    }
    write_i64(out, config.borrow_limit);
    proof {
        written = written + i64_bytes(config.borrow_limit);
        assert(out@ =~= start + written);
    }
    let (tag, key): (u8, Address) = match config.oracle {
        OracleRef::Direct(key) => (0, key),
        OracleRef::Feed(key) => (1, key),
    };
    out.push(tag);
    proof {
        written = written + seq![oracle_tag(config.oracle)];
        assert(out@ =~= start + written);
    }
    write_address(out, &key);
    proof {
        written = written + oracle_key(config.oracle)@;
        assert(out@ =~= start + written);
    }
    write_u64(out, config.oracle_max_age);
    proof {
        written = written + spec_u64_to_le_bytes(config.oracle_max_age);
        assert(out@ =~= start + written);
    }
    write_curve(out, &config.interest_rate_config);
    proof {
        written = written + curve_record(config.interest_rate_config);
        assert(out@ =~= start + written);
    }
    write_flag(out, config.deposits_paused);
    write_flag(out, config.borrows_paused);
    out.push(
        match config.risk_tier {
            RiskTier::Collateral => 0,
            RiskTier::Isolated => 1,
        },
    );
    proof {
        written = written + seq![
            flag_byte(config.deposits_paused),
            flag_byte(config.borrows_paused),
            tier_byte(config.risk_tier),
        ];
        assert(out@ =~= start + written);
        assert(written == config_record(*config));
    }
}

pub(crate) fn read_config(bytes: &Vec<u8>, at: usize) -> (config: Option<BankConfig>)
    requires
        at + CONFIG_RECORD_LEN <= bytes@.len(),
    ensures
        config == config_at(bytes@, at as int),
{
    let len: usize = bytes.len();
    if bytes[at + 48] > 1 || bytes[at + 129] > 1 || bytes[at + 130] > 1 || bytes[at + 131] > 1 {
        return None;
    }
    let key: Address = read_address(bytes, at + 49);
    Some(
        BankConfig {
            asset_weight_init: read_i64(bytes, at),
            asset_weight_maint: read_i64(bytes, at + 8),
            liability_weight_init: read_i64(bytes, at + 16),
            liability_weight_maint: read_i64(bytes, at + 24),
            deposit_limit: read_i64(bytes, at + 32),
            borrow_limit: read_i64(bytes, at + 40),
            oracle: if bytes[at + 48] == 0 {
                OracleRef::Direct(key)
            } else {
                OracleRef::Feed(key)
            },
            oracle_max_age: read_u64(bytes, at + 81),
            interest_rate_config: read_curve(bytes, at + 89),
            deposits_paused: bytes[at + 129] == 1,
            borrows_paused: bytes[at + 130] == 1,
            risk_tier: if bytes[at + 131] == 0 {
                RiskTier::Collateral
            } else {
                RiskTier::Isolated
            },
        },
    )
}

/// The tag that opens a persisted bank: seven bytes that name the kind of record, `mfibank`,
/// and the version of the layout.
pub open spec fn bank_record_tag() -> Seq<u8> {
    seq![109u8, 102, 105, 98, 97, 110, 107, 1]
}

/// The persisted form of a bank's books: the time of the last accrual, what depositors are
/// owed and borrowers owe, the two totals of interest, the outstanding fees, the seized
/// collateral, and the balances of the three vaults.
pub open spec fn books_record(bank: Bank) -> Seq<u8> {
    i64_bytes(bank.last_update) + spec_u64_to_le_bytes(bank.total_deposits) + spec_u64_to_le_bytes(
        bank.total_liabilities,
    ) + spec_u128_to_le_bytes(bank.accrued_deposit_interest) + spec_u128_to_le_bytes(bank.accrued_liability_interest)
        + spec_u64_to_le_bytes(bank.insurance_fees_outstanding) + spec_u64_to_le_bytes(bank.protocol_fees_outstanding)
        + spec_u64_to_le_bytes(bank.seized_collateral) + spec_u64_to_le_bytes(bank.liquidity_vault_balance)
        + spec_u64_to_le_bytes(bank.insurance_vault_balance) + spec_u64_to_le_bytes(bank.fee_vault_balance)
}

/// The books that stand in `bytes` from place `at` on are those of `bank`.
pub open spec fn books_match(bytes: Seq<u8>, at: int, bank: Bank) -> bool {
    &&& i64_at(bytes, at) == bank.last_update
    &&& u64_at(bytes, at + 8) == bank.total_deposits
    &&& u64_at(bytes, at + 16) == bank.total_liabilities
    &&& u128_at(bytes, at + 24) == bank.accrued_deposit_interest
    &&& u128_at(bytes, at + 40) == bank.accrued_liability_interest
    &&& u64_at(bytes, at + 56) == bank.insurance_fees_outstanding
    &&& u64_at(bytes, at + 64) == bank.protocol_fees_outstanding
    &&& u64_at(bytes, at + 72) == bank.seized_collateral
    &&& u64_at(bytes, at + 80) == bank.liquidity_vault_balance
    &&& u64_at(bytes, at + 88) == bank.insurance_vault_balance
    &&& u64_at(bytes, at + 96) == bank.fee_vault_balance
}

/// The books of a bank are read as they were written, and written as they were read.
pub proof fn lemma_books_round_trip(bytes: Seq<u8>, at: int, bank: Bank)
    requires
        0 <= at,
        at + BOOKS_RECORD_LEN <= bytes.len(),
    ensures
        books_record(bank).len() == BOOKS_RECORD_LEN,
        bytes.subrange(at, at + BOOKS_RECORD_LEN) == books_record(bank) <==> books_match(bytes, at, bank),
{
    lemma_auto_spec_u64_to_from_le_bytes();
    lemma_auto_spec_u128_to_from_le_bytes();
    let whole = books_record(bank);
    let f0 = i64_bytes(bank.last_update);
    let f1 = spec_u64_to_le_bytes(bank.total_deposits);
    let f2 = spec_u64_to_le_bytes(bank.total_liabilities);
    let f3 = spec_u128_to_le_bytes(bank.accrued_deposit_interest);
    let f4 = spec_u128_to_le_bytes(bank.accrued_liability_interest);
    let f5 = spec_u64_to_le_bytes(bank.insurance_fees_outstanding);
    let f6 = spec_u64_to_le_bytes(bank.protocol_fees_outstanding);
    let f7 = spec_u64_to_le_bytes(bank.seized_collateral);
    let f8 = spec_u64_to_le_bytes(bank.liquidity_vault_balance);
    let f9 = spec_u64_to_le_bytes(bank.insurance_vault_balance);
    let f10 = spec_u64_to_le_bytes(bank.fee_vault_balance);
    lemma_i64_bytes(bank.last_update);
    lemma_u128_bytes(bank.accrued_deposit_interest);
    lemma_u128_bytes(bank.accrued_liability_interest);
    assert(f3.len() == 16 && f4.len() == 16);
    assert(whole.len() == 104);
    assert(whole.subrange(0, 8) =~= f0);
    assert(whole.subrange(8, 16) =~= f1);
    assert(whole.subrange(16, 24) =~= f2);
    assert(whole.subrange(24, 40) =~= f3);
    assert(whole.subrange(40, 56) =~= f4);
    assert(whole.subrange(56, 64) =~= f5);
    assert(whole.subrange(64, 72) =~= f6);
    assert(whole.subrange(72, 80) =~= f7);
    assert(whole.subrange(80, 88) =~= f8);
    assert(whole.subrange(88, 96) =~= f9);
    assert(whole.subrange(96, 104) =~= f10);
    let part = bytes.subrange(at, at + BOOKS_RECORD_LEN);
    if part == whole {
        lemma_part_of_whole(bytes, at, whole, 0, f0);
        lemma_part_of_whole(bytes, at, whole, 8, f1);
        lemma_part_of_whole(bytes, at, whole, 16, f2);
        lemma_part_of_whole(bytes, at, whole, 24, f3);
        lemma_part_of_whole(bytes, at, whole, 40, f4);
        lemma_part_of_whole(bytes, at, whole, 56, f5);
        lemma_part_of_whole(bytes, at, whole, 64, f6);
        lemma_part_of_whole(bytes, at, whole, 72, f7);
        lemma_part_of_whole(bytes, at, whole, 80, f8);
        lemma_part_of_whole(bytes, at, whole, 88, f9);
        lemma_part_of_whole(bytes, at, whole, 96, f10);
    }
    if books_match(bytes, at, bank) {
        lemma_eight_bytes(bytes.subrange(at, at + 8));
        lemma_sixteen_bytes(bytes.subrange(at + 24, at + 40));
        lemma_sixteen_bytes(bytes.subrange(at + 40, at + 56));
        assert(part =~= whole) by {
            assert forall|i: int| 0 <= i < 104 implies #[trigger] part[i] == whole[i] by {
                if i < 8 {
                    assert(bytes.subrange(at, at + 8)[i] == bytes[at + i]);
                } else if i < 16 {
                    assert(bytes.subrange(at + 8, at + 16)[i - 8] == bytes[at + i]);
                } else if i < 24 {
                    assert(bytes.subrange(at + 16, at + 24)[i - 16] == bytes[at + i]);
                } else if i < 40 {
                    assert(bytes.subrange(at + 24, at + 40)[i - 24] == bytes[at + i]);
                } else if i < 56 {
                    assert(bytes.subrange(at + 40, at + 56)[i - 40] == bytes[at + i]);
                } else if i < 64 {
                    assert(bytes.subrange(at + 56, at + 64)[i - 56] == bytes[at + i]);
                } else if i < 72 {
                    assert(bytes.subrange(at + 64, at + 72)[i - 64] == bytes[at + i]);
                } else if i < 80 {
                    assert(bytes.subrange(at + 72, at + 80)[i - 72] == bytes[at + i]);
                } else if i < 88 {
                    assert(bytes.subrange(at + 80, at + 88)[i - 80] == bytes[at + i]);
                } else if i < 96 {
                    assert(bytes.subrange(at + 88, at + 96)[i - 88] == bytes[at + i]);
                } else {
                    assert(bytes.subrange(at + 96, at + 104)[i - 96] == bytes[at + i]);
                }
            }
        }
    }
}

pub(crate) fn write_books(out: &mut Vec<u8>, bank: &Bank)
    ensures
        final(out)@ == old(out)@ + books_record(*bank),
{
    let ghost start = out@;
    write_i64(out, bank.last_update);
    let ghost mut written = i64_bytes(bank.last_update);
    write_u64(out, bank.total_deposits);
    proof {
        written = written + spec_u64_to_le_bytes(bank.total_deposits);
        assert(out@ =~= start + written);
    }
    write_u64(out, bank.total_liabilities);
    proof {
        written = written + spec_u64_to_le_bytes(bank.total_liabilities);
        assert(out@ =~= start + written);
    }
    write_u128(out, bank.accrued_deposit_interest);
    proof {
        written = written + spec_u128_to_le_bytes(bank.accrued_deposit_interest);
        assert(out@ =~= start + written);
    }
    write_u128(out, bank.accrued_liability_interest);
    proof {
        written = written + spec_u128_to_le_bytes(bank.accrued_liability_interest);
        assert(out@ =~= start + written);
    }
    write_u64(out, bank.insurance_fees_outstanding);
    proof {
        written = written + spec_u64_to_le_bytes(bank.insurance_fees_outstanding);
        assert(out@ =~= start + written);
    }
    write_u64(out, bank.protocol_fees_outstanding);
    proof {
        written = written + spec_u64_to_le_bytes(bank.protocol_fees_outstanding);
        assert(out@ =~= start + written);
    }
    write_u64(out, bank.seized_collateral);
    proof {
        written = written + spec_u64_to_le_bytes(bank.seized_collateral);
        assert(out@ =~= start + written);
    }
    write_u64(out, bank.liquidity_vault_balance);
    proof {
        written = written + spec_u64_to_le_bytes(bank.liquidity_vault_balance);
        assert(out@ =~= start + written);
    }
    write_u64(out, bank.insurance_vault_balance);
    proof {
        written = written + spec_u64_to_le_bytes(bank.insurance_vault_balance);
        assert(out@ =~= start + written);
    }
    write_u64(out, bank.fee_vault_balance);
    proof {
        written = written + spec_u64_to_le_bytes(bank.fee_vault_balance);
        assert(out@ =~= start + written);
        assert(written == books_record(*bank));
    }
}

/// The persisted form of a bank: the tag, the key, the group, the mint, the configuration,
/// the oracle account, the vaults with their bumps, and the books.
pub open spec fn bank_record(bank: Bank) -> Seq<u8> {
    bank_record_tag() + bank.key@ + bank.group@ + mint_record(bank.mint) + config_record(bank.config)
        + bank.oracle_account@ + vaults_record(bank.vaults) + books_record(bank)
}

/// The bank that bytes persist, if they have the length and the tag of a persisted bank and
/// hold a configuration.
pub open spec fn bank_parsed(bytes: Seq<u8>) -> Option<Bank> {
    if bytes.len() == BANK_RECORD_LEN && bytes.subrange(0, 8) == bank_record_tag() {
        match config_at(bytes, 137) {
            None => None,
            Some(config) => Some(
                Bank {
                    key: address_at(bytes, 8),
                    group: address_at(bytes, 40),
                    mint: mint_at(bytes, 72),
                    config,
                    oracle_account: address_at(bytes, 269),
                    vaults: vaults_at(bytes, 301),
                    last_update: i64_at(bytes, 499),
                    total_deposits: u64_at(bytes, 507),
                    total_liabilities: u64_at(bytes, 515),
                    accrued_deposit_interest: u128_at(bytes, 523),
                    accrued_liability_interest: u128_at(bytes, 539),
                    insurance_fees_outstanding: u64_at(bytes, 555),
                    protocol_fees_outstanding: u64_at(bytes, 563),
                    seized_collateral: u64_at(bytes, 571),
                    liquidity_vault_balance: u64_at(bytes, 579),
                    insurance_vault_balance: u64_at(bytes, 587),
                    fee_vault_balance: u64_at(bytes, 595),
                },
            ),
        }
    } else {
        None
    }
}

/// What lies where in a persisted bank.
pub proof fn lemma_bank_record_parts(bank: Bank)
    ensures
        bank_record(bank).len() == BANK_RECORD_LEN,
        bank_record(bank).subrange(0, 8) == bank_record_tag(),
        bank_record(bank).subrange(8, 40) == bank.key@,
        bank_record(bank).subrange(40, 72) == bank.group@,
        bank_record(bank).subrange(72, 137) == mint_record(bank.mint),
        bank_record(bank).subrange(137, 269) == config_record(bank.config),
        bank_record(bank).subrange(269, 301) == bank.oracle_account@,
        bank_record(bank).subrange(301, 499) == vaults_record(bank.vaults),
        bank_record(bank).subrange(499, 603) == books_record(bank),
{
    let whole = bank_record(bank);
    let pad = Seq::new(603, |i: int| 0u8);
    lemma_mint_round_trip(pad, 0, bank.mint);
    lemma_config_round_trip(pad, 0, bank.config);
    lemma_vaults_round_trip(pad, 0, bank.vaults);
    lemma_books_round_trip(pad, 0, bank);
    assert(whole.len() == 603);
    assert(whole.subrange(0, 8) =~= bank_record_tag());
    assert(whole.subrange(8, 40) =~= bank.key@);
    assert(whole.subrange(40, 72) =~= bank.group@);
    assert(whole.subrange(72, 137) =~= mint_record(bank.mint));
    assert(whole.subrange(137, 269) =~= config_record(bank.config));
    assert(whole.subrange(269, 301) =~= bank.oracle_account@);
    assert(whole.subrange(301, 499) =~= vaults_record(bank.vaults));
    assert(whole.subrange(499, 603) =~= books_record(bank));
}

/// Reading what was written gives the bank back, and the bytes of a bank that was read are
/// the bytes it is written as.
pub proof fn law_bank_record_round_trip(bank: Bank, bytes: Seq<u8>)
    ensures
        bank_parsed(bank_record(bank)) == Some(bank),
        bank_parsed(bytes) matches Some(read) ==> bank_record(read) == bytes,
{
    let whole = bank_record(bank);
    lemma_bank_record_parts(bank);
    lemma_mint_round_trip(whole, 72, bank.mint);
    lemma_config_round_trip(whole, 137, bank.config);
    lemma_vaults_round_trip(whole, 301, bank.vaults);
    lemma_books_round_trip(whole, 499, bank);
    lemma_address_of_view(bank.key);
    lemma_address_of_view(bank.group);
    lemma_address_of_view(bank.oracle_account);
    if let Some(read) = bank_parsed(bytes) {
        let written = bank_record(read);
        lemma_bank_record_parts(read);
        lemma_mint_round_trip(bytes, 72, read.mint);
        lemma_config_round_trip(bytes, 137, read.config);
        lemma_vaults_round_trip(bytes, 301, read.vaults);
        lemma_books_round_trip(bytes, 499, read);
        lemma_address_bytes(bytes.subrange(8, 40));
        lemma_address_bytes(bytes.subrange(40, 72));
        lemma_address_bytes(bytes.subrange(269, 301));
        assert(written =~= bytes) by {
            assert forall|i: int| 0 <= i < 603 implies #[trigger] written[i] == bytes[i] by {
                if i < 8 {
                    assert(written.subrange(0, 8)[i] == bytes.subrange(0, 8)[i]);
                } else if i < 40 {
                    assert(written.subrange(8, 40)[i - 8] == bytes.subrange(8, 40)[i - 8]);
                } else if i < 72 {
                    assert(written.subrange(40, 72)[i - 40] == bytes.subrange(40, 72)[i - 40]);
                } else if i < 137 {
                    assert(written.subrange(72, 137)[i - 72] == bytes.subrange(72, 137)[i - 72]);
                } else if i < 269 {
                    assert(written.subrange(137, 269)[i - 137] == bytes.subrange(137, 269)[i - 137]);
                } else if i < 301 {
                    assert(written.subrange(269, 301)[i - 269] == bytes.subrange(269, 301)[i - 269]);
                } else if i < 499 {
                    assert(written.subrange(301, 499)[i - 301] == bytes.subrange(301, 499)[i - 301]);
                } else {
                    assert(written.subrange(499, 603)[i - 499] == bytes.subrange(499, 603)[i - 499]);
                }
            }
        }
    }
}

impl Bank {
    /// Writes the bank in its persisted form.
    pub fn to_bytes(&self) -> (bytes: Vec<u8>)
        ensures
            bytes@ == bank_record(*self),
            bytes@.len() == BANK_RECORD_LEN,
    {
        let mut bytes: Vec<u8> = vec![109u8, 102, 105, 98, 97, 110, 107, 1];
        let ghost mut written = bank_record_tag();
        assert(bytes@ =~= written);
        write_address(&mut bytes, &self.key);
        proof {
            written = written + self.key@;
        }
        write_address(&mut bytes, &self.group);
        proof {
            written = written + self.group@;
        }
        write_mint(&mut bytes, &self.mint);
        proof {
            written = written + mint_record(self.mint);
        }
        write_config(&mut bytes, &self.config);
        proof {
            written = written + config_record(self.config);
        }
        write_address(&mut bytes, &self.oracle_account);
        proof {
            written = written + self.oracle_account@;
        }
        write_vaults(&mut bytes, &self.vaults);
        proof {
            written = written + vaults_record(self.vaults);
        }
        write_books(&mut bytes, self);
        proof {
            written = written + books_record(*self);
            assert(bytes@ == written);
            lemma_bank_record_parts(*self);
        }
        bytes
    }

    /// Reads a bank from its persisted form.
    pub fn from_bytes(bytes: &Vec<u8>) -> (r: Option<Bank>)
        ensures
            r == bank_parsed(bytes@),
    {
        if bytes.len() != BANK_RECORD_LEN {
            return None;
        }
        if bytes[0] != 109 || bytes[1] != 102 || bytes[2] != 105 || bytes[3] != 98 || bytes[4] != 97 || bytes[5] != 110
            || bytes[6] != 107 || bytes[7] != 1 {
            assert(bytes@.subrange(0, 8)[0] == bytes@[0]);
            assert(bytes@.subrange(0, 8)[1] == bytes@[1]);
            assert(bytes@.subrange(0, 8)[2] == bytes@[2]);
            assert(bytes@.subrange(0, 8)[3] == bytes@[3]);
            assert(bytes@.subrange(0, 8)[4] == bytes@[4]);
            assert(bytes@.subrange(0, 8)[5] == bytes@[5]);
            assert(bytes@.subrange(0, 8)[6] == bytes@[6]);
            assert(bytes@.subrange(0, 8)[7] == bytes@[7]);
            return None;
        }
        assert(bytes@.subrange(0, 8) =~= bank_record_tag());
        let config: BankConfig = match read_config(bytes, 137) {
            None => {
                return None;
            },
            Some(config) => config,
        };
        Some(
            Bank {
                key: read_address(bytes, 8),
                group: read_address(bytes, 40),
                mint: read_mint(bytes, 72),
                config,
                oracle_account: read_address(bytes, 269),
                vaults: read_vaults(bytes, 301),
                last_update: read_i64(bytes, 499),
                total_deposits: read_u64(bytes, 507),
                total_liabilities: read_u64(bytes, 515),
                accrued_deposit_interest: read_u128(bytes, 523),
                accrued_liability_interest: read_u128(bytes, 539),
                insurance_fees_outstanding: read_u64(bytes, 555),
                protocol_fees_outstanding: read_u64(bytes, 563),
                seized_collateral: read_u64(bytes, 571),
                liquidity_vault_balance: read_u64(bytes, 579),
                insurance_vault_balance: read_u64(bytes, 587),
                fee_vault_balance: read_u64(bytes, 595),
            },
        )
    }
}

} // verus!
