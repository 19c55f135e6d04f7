use vstd::prelude::*;

verus! {

/// The trading pools whose series are kept, each with its own table.
#[derive(Clone, Copy, Debug, PartialEq, Eq, Structural)]
pub enum Pool {
    EthUsdt,
    EthUsdc,
    BtcBtc,
    EthEth,
}

/// Upstream identifier of each pool.
pub open spec fn identifier_of(p: Pool) -> Seq<char> {
    match p {
        Pool::EthUsdt => "ETH.USDT-0XDAC17F958D2EE523A2206206994597C13D831EC7"@,
        Pool::EthUsdc => "ETH.USDC-0XA0B86991C6218B36C1D19D4A2E9EB0CE3606EB48"@,
        Pool::BtcBtc => "BTC.BTC"@,
        Pool::EthEth => "ETH.ETH"@,
    }
}

/// Storage table of each pool.
pub open spec fn table_of(p: Pool) -> Seq<char> {
    match p {
        Pool::EthUsdt => "ETHUSDT0XDAC17F958D2EE523A2206206994594597C13D831EC7"@,
        Pool::EthUsdc => "ETHUSDC0XA0B86991C6218B36C1D19D4A2E9EB0CE3606EB48"@,
        Pool::BtcBtc => "BTCBTC"@,
        Pool::EthEth => "ETHETH"@,
    }
}

/// The pools in the order they are processed.
pub open spec fn pool_order() -> Seq<Pool> {
    seq![Pool::EthUsdt, Pool::EthUsdc, Pool::BtcBtc, Pool::EthEth]
}

impl Pool {
    /// The identifier the upstream provider uses for this pool.
    pub fn identifier(&self) -> (r: &'static str)
        ensures
            r@ == identifier_of(*self),
    {
        match self {
            Pool::EthUsdt => "ETH.USDT-0XDAC17F958D2EE523A2206206994597C13D831EC7",
            Pool::EthUsdc => "ETH.USDC-0XA0B86991C6218B36C1D19D4A2E9EB0CE3606EB48",
            Pool::BtcBtc => "BTC.BTC",
            Pool::EthEth => "ETH.ETH",
        }
    }

    /// The name of the table that holds this pool's series.
    pub fn table_name(&self) -> (r: &'static str)
        ensures
            r@ == table_of(*self),
    {
        match self {
            Pool::EthUsdt => "ETHUSDT0XDAC17F958D2EE523A2206206994594597C13D831EC7",
            Pool::EthUsdc => "ETHUSDC0XA0B86991C6218B36C1D19D4A2E9EB0CE3606EB48",
            Pool::BtcBtc => "BTCBTC",
            Pool::EthEth => "ETHETH",
        }
    }

    /// Every known pool, in processing order.
    pub fn all() -> (r: Vec<Pool>)
        ensures
            r@ == pool_order(),
    {
        let r = vec![Pool::EthUsdt, Pool::EthUsdc, Pool::BtcBtc, Pool::EthEth];
        assert(r@ =~= pool_order());
        r
    }
}

/// Whether two texts are equal, character by character.
pub fn same_text(a: &str, b: &str) -> (r: bool)
    ensures
        r == (a@ == b@),
{
    let n = a.unicode_len();
    if n != b.unicode_len() {
        return false;
    }
    let mut i: usize = 0;
    while i < n
        invariant
            n == a@.len() == b@.len(),
            i <= n,
            a@.subrange(0, i as int) == b@.subrange(0, i as int),
        decreases n - i,
    {
        if a.get_char(i) != b.get_char(i) {
            return false;
        }
        assert(a@.subrange(0, i + 1) =~= a@.subrange(0, i as int).push(a@[i as int]));
        assert(b@.subrange(0, i + 1) =~= b@.subrange(0, i as int).push(b@[i as int]));
        i = i + 1;
    }
    assert(a@ =~= a@.subrange(0, n as int));
    assert(b@ =~= b@.subrange(0, n as int));
    true
}

/// Looks a pool up by its upstream identifier; an identifier outside the
/// mapping yields `None`.
pub fn pool_from_identifier(s: &str) -> (r: Option<Pool>)
    ensures
        match r {
            Some(p) => identifier_of(p) == s@,
            None => forall|p: Pool| identifier_of(p) != s@,
        },
{
    let pools = Pool::all();
    let mut i: usize = 0;
    while i < pools.len()
        invariant
            pools@ == pool_order(),
            i <= pools@.len(),
            forall|j: int| 0 <= j < i ==> identifier_of(#[trigger] pools@[j]) != s@,
        decreases pools@.len() - i,
    {
        let p = pools[i];
        if same_text(p.identifier(), s) {
            return Some(p);
        }
        i = i + 1;
    }
    assert forall|p: Pool| identifier_of(p) != s@ by {
        match p {
            Pool::EthUsdt => assert(pools@[0] == p),
            Pool::EthUsdc => assert(pools@[1] == p),
            Pool::BtcBtc => assert(pools@[2] == p),
            Pool::EthEth => assert(pools@[3] == p),
        }
    }
    None
}

} // verus!
