use vstd::prelude::*;
use vstd::string::*;

verus! {

/// Capacity of every bounded channel of a shard pipeline.
pub const CHANNEL_CAPACITY: usize = 1_000;

/// Round number that the commit consumer flags, and the default collection threshold.
pub const DEFAULT_GC_ROUND: u64 = 100_000;

/// Number of shard pipelines a node runs by default.
pub const DEFAULT_SHARDS: u64 = 15;

/// The character of a decimal digit.
pub open spec fn digit_char(d: nat) -> char {
    seq!['0', '1', '2', '3', '4', '5', '6', '7', '8', '9'][d as int]
}

/// Decimal notation of `n`: no sign, no leading zeros.
pub open spec fn decimal(n: nat) -> Seq<char>
    decreases n,
{
    if n < 10 {
        seq![digit_char(n)]
    } else {
        decimal(n / 10).push(digit_char(n % 10))
    }
}

/// The store path of shard `i`: `db_` followed by `i` in decimal.
pub open spec fn store_path_of(i: nat) -> Seq<char> {
    seq!['d', 'b', '_'] + decimal(i)
}

proof fn lemma_digit_char_injective(a: nat, b: nat)
    requires
        a < 10,
        b < 10,
        digit_char(a) == digit_char(b),
    ensures
        a == b,
{
}

proof fn lemma_decimal_long(n: nat)
    ensures
        decimal(n).len() >= 1,
        n >= 10 ==> decimal(n).len() >= 2,
    decreases n,
{
    if n >= 10 {
        lemma_decimal_long(n / 10);
    }
}

proof fn lemma_decimal_injective(n: nat, m: nat)
    requires
        decimal(n) == decimal(m),
    ensures
        n == m,
    decreases n,
{
    lemma_decimal_long(n);
    lemma_decimal_long(m);
    if n < 10 && m < 10 {
        assert(decimal(n) == seq![digit_char(n)]);
        assert(decimal(m) == seq![digit_char(m)]);
        assert(decimal(n)[0] == digit_char(n));
        assert(decimal(m)[0] == digit_char(m));
        lemma_digit_char_injective(n, m);
    } else if n >= 10 && m >= 10 {
        assert(decimal(n) == decimal(n / 10).push(digit_char(n % 10)));
        assert(decimal(m) == decimal(m / 10).push(digit_char(m % 10)));
        assert(decimal(n).last() == digit_char(n % 10));
        assert(decimal(m).last() == digit_char(m % 10));
        lemma_digit_char_injective(n % 10, m % 10);
        assert(decimal(n).drop_last() =~= decimal(n / 10));
        assert(decimal(m).drop_last() =~= decimal(m / 10));
        lemma_decimal_injective(n / 10, m / 10);
    } else {
        lemma_decimal_long(n / 10);
        lemma_decimal_long(m / 10);
    }
}

/// Distinct shards get distinct store paths, so no two shards share a store.
pub proof fn lemma_store_paths_distinct(i: nat, j: nat)
    requires
        i != j,
    ensures
        store_path_of(i) != store_path_of(j),
{
    if store_path_of(i) == store_path_of(j) {
        assert(store_path_of(i).skip(3) =~= decimal(i));
        assert(store_path_of(j).skip(3) =~= decimal(j));
        lemma_decimal_injective(i, j);
    }
}

/// Relies on `ToString` for `u64` (its `Display`): the decimal digits of the
/// number, with no sign and no leading zeros.
#[verifier::external_body]
fn decimal_string(n: u64) -> (r: String)
    ensures
        r@ == decimal(n as nat),
{
    n.to_string()
}

/// The path of the store that shard `index` owns.
pub fn shard_store_path(index: u64) -> (r: String)
    ensures
        r@ == store_path_of(index as nat),
{
    let prefix = String::from_str("db_");
    proof {
        reveal_strlit("db_");
    }
    let digits = decimal_string(index);
    prefix.concat(digits.as_str())
}

/// What the orchestrator builds for one shard pipeline.
#[derive(Debug, PartialEq, Eq)]
pub struct ShardSpec {
    /// The shard's index, which also scopes its handler-map entries.
    pub index: u64,
    /// Path of the shard's own store.
    pub store_path: String,
    /// Capacity of each of the shard's three channels.
    pub channel_capacity: usize,
}

/// The pipelines of a node with `n` shards: one per index in `0..n`, each with
/// a store path of its own.
pub fn plan_shards(n: u64) -> (r: Vec<ShardSpec>)
    ensures
        r@.len() == n as nat,
        forall|i: int|
            0 <= i < n ==> {
                &&& #[trigger] r@[i].index == i
                &&& r@[i].store_path@ == store_path_of(i as nat)
                &&& r@[i].channel_capacity == CHANNEL_CAPACITY
            },
        forall|i: int, j: int|
            0 <= i < n && 0 <= j < n && i != j ==> #[trigger] r@[i].store_path@
                != #[trigger] r@[j].store_path@,
{
    let mut r: Vec<ShardSpec> = Vec::new();
    let mut k: u64 = 0;
    while k < n
        invariant
            k <= n,
            r@.len() == k as nat,
            forall|i: int|
                0 <= i < k ==> {
                    &&& #[trigger] r@[i].index == i
                    &&& r@[i].store_path@ == store_path_of(i as nat)
                    &&& r@[i].channel_capacity == CHANNEL_CAPACITY
                },
        decreases n - k,
    {
        let store_path = shard_store_path(k);
        r.push(ShardSpec { index: k, store_path, channel_capacity: CHANNEL_CAPACITY });
        k = k + 1;
    }
    assert forall|i: int, j: int|
        0 <= i < n && 0 <= j < n && i != j implies #[trigger] r@[i].store_path@
            != #[trigger] r@[j].store_path@ by {
        assert(r@[i].index == i);
        assert(r@[j].index == j);
        lemma_store_paths_distinct(i as nat, j as nat);
    }
    r
}

/// What the commit consumer reads of a committed block.
#[derive(Clone, Copy, Debug, PartialEq, Eq)]
pub struct BlockSummary {
    pub round: u64,
    /// Number of transaction batches in the payload.
    pub payload_len: usize,
}

/// What the commit consumer flags about a block.
#[derive(Clone, Copy, Debug, PartialEq, Eq)]
pub struct BlockReport {
    /// The block's round is the sentinel `DEFAULT_GC_ROUND`.
    pub sentinel_round: bool,
    /// The block carries a non-empty payload.
    pub has_transactions: bool,
}

/// Inspects one committed block.
pub fn inspect_block(block: &BlockSummary) -> (r: BlockReport)
    ensures
        r.sentinel_round == (block.round == DEFAULT_GC_ROUND),
        r.has_transactions == (block.payload_len > 0),
{
    BlockReport {
        sentinel_round: block.round == DEFAULT_GC_ROUND,
        has_transactions: block.payload_len > 0,
    }
}

/// An IP address: four octets, or eight 16-bit segments.
#[derive(Clone, Copy, Debug, PartialEq, Eq)]
pub enum IpAddress {
    V4([u8; 4]),
    V6([u16; 8]),
}

/// A socket address: host and port.
#[derive(Clone, Copy, Debug, PartialEq, Eq)]
pub struct SocketAddress {
    pub ip: IpAddress,
    pub port: u16,
}

/// `0.0.0.0` as a host.
pub open spec fn is_wildcard(ip: IpAddress) -> bool {
    match ip {
        IpAddress::V4(octets) => octets@ == seq![0u8, 0u8, 0u8, 0u8],
        IpAddress::V6(_) => false,
    }
}

/// The address to bind for `addr`: the same port on every IPv4 interface.
pub fn with_wildcard_ip(addr: SocketAddress) -> (r: SocketAddress)
    ensures
        is_wildcard(r.ip),
        r.port == addr.port,
{
    let octets: [u8; 4] = [0u8, 0u8, 0u8, 0u8];
    assert(octets@ =~= seq![0u8, 0u8, 0u8, 0u8]);
    SocketAddress { ip: IpAddress::V4(octets), port: addr.port }
}

} // verus!
