//! General constant enums used across the trading platform.
use vstd::prelude::*;
use vstd::string::StrSliceExecFns;

verus! {

/// Side of an order or a trade.
#[derive(Clone, Copy, Debug, PartialEq, Eq, Structural, Hash)]
pub enum Direction {
    NONE,
    LONG,
    SHORT,
    NET,
}

impl Default for Direction {
    fn default() -> (r: Self)
        ensures
            r == Direction::NONE,
    {
        Direction::NONE
    }
}

/// Whether an order opens or closes a position.
#[derive(Clone, Copy, Debug, PartialEq, Eq, Structural, Hash)]
pub enum Offset {
    NONE,
    OPEN,
    CLOSE,
    CLOSETODAY,
    CLOSEYESTERDAY,
}

impl Default for Offset {
    fn default() -> (r: Self)
        ensures
            r == Offset::NONE,
    {
        Offset::NONE
    }
}

/// Lifecycle state of a limit order.
#[derive(Clone, Copy, Debug, PartialEq, Eq, Structural, Hash)]
pub enum Status {
    SUBMITTING,
    NOTTRADED,
    PARTTRADED,
    ALLTRADED,
    CANCELLED,
    REJECTED,
}

impl Default for Status {
    fn default() -> (r: Self)
        ensures
            r == Status::SUBMITTING,
    {
        Status::SUBMITTING
    }
}

/// Kind of traded product.
#[derive(Clone, Copy, Debug, PartialEq, Eq, Structural, Hash)]
pub enum Product {
    EQUITY,
    FUTURES,
    OPTION,
    INDEX,
    FOREX,
    SPOT,
    ETF,
    BOND,
    WARRANT,
    SPREAD,
    FUND,
    CFD,
    SWAP,
}

/// Kind of order as a venue understands it.
#[derive(Clone, Copy, Debug, PartialEq, Eq, Structural, Hash)]
pub enum OrderType {
    LIMIT,
    MARKET,
    STOP,
    FAK,
    FOK,
    RFQ,
}

impl Default for OrderType {
    fn default() -> (r: Self)
        ensures
            r == OrderType::LIMIT,
    {
        OrderType::LIMIT
    }
}

/// Call or put.
#[derive(Clone, Copy, Debug, PartialEq, Eq, Structural, Hash)]
pub enum OptionType {
    CALL,
    PUT,
}

/// Trading venue.
#[derive(Clone, Copy, Debug, PartialEq, Eq, Structural, Hash)]
pub enum Exchange {
    /// China Financial Futures Exchange
    CFFEX,
    /// Shanghai Futures Exchange
    SHFE,
    /// Zhengzhou Commodity Exchange
    CZCE,
    /// Dalian Commodity Exchange
    DCE,
    /// Shanghai International Energy Exchange
    INE,
    /// Guangzhou Futures Exchange
    GFEX,
    /// Shanghai Stock Exchange
    SSE,
    /// Shenzhen Stock Exchange
    SZSE,
    /// Beijing Stock Exchange
    BSE,
    /// Shanghai-HK Stock Connect
    SHHK,
    /// Shenzhen-HK Stock Connect
    SZHK,
    /// Shanghai Gold Exchange
    SGE,
    /// Wuxi Steel Exchange
    WXE,
    /// CFETS Bond Market Maker Trading System
    CFETS,
    /// CFETS X-Bond Anonymous Trading System
    XBOND,
    /// Smart Router for US stocks
    SMART,
    /// New York Stock Exchange
    NYSE,
    /// Nasdaq Exchange
    NASDAQ,
    /// ARCA Exchange
    ARCA,
    /// Direct Edge Exchange
    EDGEA,
    /// Nasdaq Island ECN
    ISLAND,
    /// Bats Global Markets
    BATS,
    /// The Investors Exchange
    IEX,
    /// American Stock Exchange
    AMEX,
    /// Toronto Stock Exchange
    TSE,
    /// New York Mercantile Exchange
    NYMEX,
    /// COMEX of CME
    COMEX,
    /// Globex of CME
    GLOBEX,
    /// Forex ECN of Interactive Brokers
    IDEALPRO,
    /// Chicago Mercantile Exchange
    CME,
    /// Intercontinental Exchange
    ICE,
    /// Stock Exchange of Hong Kong
    SEHK,
    /// Hong Kong Futures Exchange
    HKFE,
    /// Singapore Global Exchange
    SGX,
    /// Chicago Board of Trade
    CBOT,
    /// Chicago Board Options Exchange
    CBOE,
    /// CBOE Futures Exchange
    CFE,
    /// Dubai Mercantile Exchange
    DME,
    /// Eurex Exchange
    EUREX,
    /// Asia Pacific Exchange
    APEX,
    /// London Metal Exchange
    LME,
    /// Bursa Malaysia Derivatives
    BMD,
    /// Tokyo Commodity Exchange
    TOCOM,
    /// Euronext Exchange
    EUNX,
    /// Korean Exchange
    KRX,
    /// OTC Product (Forex/CFD/Pink Sheet Equity)
    OTC,
    /// Paper Trading Exchange of IB
    IBKRATS,
    /// OKX
    OKX,
    /// For locally generated data
    LOCAL,
}

impl Default for Exchange {
    fn default() -> (r: Self)
        ensures
            r == Exchange::LOCAL,
    {
        Exchange::LOCAL
    }
}

/// Settlement currency.
#[derive(Clone, Copy, Debug, PartialEq, Eq, Structural, Hash)]
pub enum Currency {
    USD,
    HKD,
    CNY,
    CAD,
}

/// Cadence of market data.
#[derive(Clone, Copy, Debug, PartialEq, Eq, Structural, Hash)]
pub enum Interval {
    NONE,
    MINUTE,
    HOUR,
    DAILY,
    WEEKLY,
    TICK,
}

impl Default for Interval {
    fn default() -> (r: Self)
        ensures
            r == Interval::NONE,
    {
        Interval::NONE
    }
}

impl Status {
    /// An order in one of these states may still trade or be cancelled.
    pub open spec fn spec_is_active(self) -> bool {
        self == Status::SUBMITTING || self == Status::NOTTRADED || self == Status::PARTTRADED
    }

    #[verifier::when_used_as_spec(spec_is_active)]
    pub fn is_active(self) -> (r: bool)
        ensures
            r == self.spec_is_active(),
    {
        match self {
            Status::SUBMITTING | Status::NOTTRADED | Status::PARTTRADED => true,
            _ => false,
        }
    }
}

/// The name under which each venue is written in a `vt_symbol`.
pub open spec fn exchange_name(e: Exchange) -> Seq<char> {
    match e {
        Exchange::CFFEX => "CFFEX"@,
        Exchange::SHFE => "SHFE"@,
        Exchange::CZCE => "CZCE"@,
        Exchange::DCE => "DCE"@,
        Exchange::INE => "INE"@,
        Exchange::GFEX => "GFEX"@,
        Exchange::SSE => "SSE"@,
        Exchange::SZSE => "SZSE"@,
        Exchange::BSE => "BSE"@,
        Exchange::SHHK => "SHHK"@,
        Exchange::SZHK => "SZHK"@,
        Exchange::SGE => "SGE"@,
        Exchange::WXE => "WXE"@,
        Exchange::CFETS => "CFETS"@,
        Exchange::XBOND => "XBOND"@,
        Exchange::SMART => "SMART"@,
        Exchange::NYSE => "NYSE"@,
        Exchange::NASDAQ => "NASDAQ"@,
        Exchange::ARCA => "ARCA"@,
        Exchange::EDGEA => "EDGEA"@,
        Exchange::ISLAND => "ISLAND"@,
        Exchange::BATS => "BATS"@,
        Exchange::IEX => "IEX"@,
        Exchange::AMEX => "AMEX"@,
        Exchange::TSE => "TSE"@,
        Exchange::NYMEX => "NYMEX"@,
        Exchange::COMEX => "COMEX"@,
        Exchange::GLOBEX => "GLOBEX"@,
        Exchange::IDEALPRO => "IDEALPRO"@,
        Exchange::CME => "CME"@,
        Exchange::ICE => "ICE"@,
        Exchange::SEHK => "SEHK"@,
        Exchange::HKFE => "HKFE"@,
        Exchange::SGX => "SGX"@,
        Exchange::CBOT => "CBOT"@,
        Exchange::CBOE => "CBOE"@,
        Exchange::CFE => "CFE"@,
        Exchange::DME => "DME"@,
        Exchange::EUREX => "EUREX"@,
        Exchange::APEX => "APEX"@,
        Exchange::LME => "LME"@,
        Exchange::BMD => "BMD"@,
        Exchange::TOCOM => "TOCOM"@,
        Exchange::EUNX => "EUNX"@,
        Exchange::KRX => "KRX"@,
        Exchange::OTC => "OTC"@,
        Exchange::IBKRATS => "IBKRATS"@,
        Exchange::OKX => "OKX"@,
        Exchange::LOCAL => "LOCAL"@,
    }
}

/// The venue whose name is `s`, if any.
pub open spec fn exchange_named(s: Seq<char>) -> Option<Exchange> {
    if s == "CFFEX"@ {
        Some(Exchange::CFFEX)
    } else if s == "SHFE"@ {
        Some(Exchange::SHFE)
    } else if s == "CZCE"@ {
        Some(Exchange::CZCE)
    } else if s == "DCE"@ {
        Some(Exchange::DCE)
    } else if s == "INE"@ {
        Some(Exchange::INE)
    } else if s == "GFEX"@ {
        Some(Exchange::GFEX)
    } else if s == "SSE"@ {
        Some(Exchange::SSE)
    } else if s == "SZSE"@ {
        Some(Exchange::SZSE)
    } else if s == "BSE"@ {
        Some(Exchange::BSE)
    } else if s == "SHHK"@ {
        Some(Exchange::SHHK)
    } else if s == "SZHK"@ {
        Some(Exchange::SZHK)
    } else if s == "SGE"@ {
        Some(Exchange::SGE)
    } else if s == "WXE"@ {
        Some(Exchange::WXE)
    } else if s == "CFETS"@ {
        Some(Exchange::CFETS)
    } else if s == "XBOND"@ {
        Some(Exchange::XBOND)
    } else if s == "SMART"@ {
        Some(Exchange::SMART)
    } else if s == "NYSE"@ {
        Some(Exchange::NYSE)
    } else if s == "NASDAQ"@ {
        Some(Exchange::NASDAQ)
    } else if s == "ARCA"@ {
        Some(Exchange::ARCA)
    } else if s == "EDGEA"@ {
        Some(Exchange::EDGEA)
    } else if s == "ISLAND"@ {
        Some(Exchange::ISLAND)
    } else if s == "BATS"@ {
        Some(Exchange::BATS)
    } else if s == "IEX"@ {
        Some(Exchange::IEX)
    } else if s == "AMEX"@ {
        Some(Exchange::AMEX)
    } else if s == "TSE"@ {
        Some(Exchange::TSE)
    } else if s == "NYMEX"@ {
        Some(Exchange::NYMEX)
    } else if s == "COMEX"@ {
        Some(Exchange::COMEX)
    } else if s == "GLOBEX"@ {
        Some(Exchange::GLOBEX)
    } else if s == "IDEALPRO"@ {
        Some(Exchange::IDEALPRO)
    } else if s == "CME"@ {
        Some(Exchange::CME)
    } else if s == "ICE"@ {
        Some(Exchange::ICE)
    } else if s == "SEHK"@ {
        Some(Exchange::SEHK)
    } else if s == "HKFE"@ {
        Some(Exchange::HKFE)
    } else if s == "SGX"@ {
        Some(Exchange::SGX)
    } else if s == "CBOT"@ {
        Some(Exchange::CBOT)
    } else if s == "CBOE"@ {
        Some(Exchange::CBOE)
    } else if s == "CFE"@ {
        Some(Exchange::CFE)
    } else if s == "DME"@ {
        Some(Exchange::DME)
    } else if s == "EUREX"@ {
        Some(Exchange::EUREX)
    } else if s == "APEX"@ {
        Some(Exchange::APEX)
    } else if s == "LME"@ {
        Some(Exchange::LME)
    } else if s == "BMD"@ {
        Some(Exchange::BMD)
    } else if s == "TOCOM"@ {
        Some(Exchange::TOCOM)
    } else if s == "EUNX"@ {
        Some(Exchange::EUNX)
    } else if s == "KRX"@ {
        Some(Exchange::KRX)
    } else if s == "OTC"@ {
        Some(Exchange::OTC)
    } else if s == "IBKRATS"@ {
        Some(Exchange::IBKRATS)
    } else if s == "OKX"@ {
        Some(Exchange::OKX)
    } else if s == "LOCAL"@ {
        Some(Exchange::LOCAL)
    } else {
        None
    }
}

/// Whether two strings hold the same characters.
pub fn str_eq(a: &str, b: &str) -> (r: bool)
    ensures
        r == (a@ == b@),
{
    let n = a.unicode_len();
    if n != b.unicode_len() {
        return false;
    }
    let mut i: usize = 0;
    while i < n
        invariant
            n == a@.len() == b@.len(),
            i <= n,
            forall|j: int| 0 <= j < i ==> a@[j] == b@[j],
        decreases n - i,
    {
        if a.get_char(i) != b.get_char(i) {
            return false;
        }
        i += 1;
    }
    assert(a@ =~= b@);
    true
}

impl Exchange {
    /// The name of the venue as written in a `vt_symbol`.
    pub fn name(&self) -> (r: &'static str)
        ensures
            r@ == exchange_name(*self),
    {
        match self {
            Exchange::CFFEX => "CFFEX",
            Exchange::SHFE => "SHFE",
            Exchange::CZCE => "CZCE",
            Exchange::DCE => "DCE",
            Exchange::INE => "INE",
            Exchange::GFEX => "GFEX",
            Exchange::SSE => "SSE",
            Exchange::SZSE => "SZSE",
            Exchange::BSE => "BSE",
            Exchange::SHHK => "SHHK",
            Exchange::SZHK => "SZHK",
            Exchange::SGE => "SGE",
            Exchange::WXE => "WXE",
            Exchange::CFETS => "CFETS",
            Exchange::XBOND => "XBOND",
            Exchange::SMART => "SMART",
            Exchange::NYSE => "NYSE",
            Exchange::NASDAQ => "NASDAQ",
            Exchange::ARCA => "ARCA",
            Exchange::EDGEA => "EDGEA",
            Exchange::ISLAND => "ISLAND",
            Exchange::BATS => "BATS",
            Exchange::IEX => "IEX",
            Exchange::AMEX => "AMEX",
            Exchange::TSE => "TSE",
            Exchange::NYMEX => "NYMEX",
            Exchange::COMEX => "COMEX",
            Exchange::GLOBEX => "GLOBEX",
            Exchange::IDEALPRO => "IDEALPRO",
            Exchange::CME => "CME",
            Exchange::ICE => "ICE",
            Exchange::SEHK => "SEHK",
            Exchange::HKFE => "HKFE",
            Exchange::SGX => "SGX",
            Exchange::CBOT => "CBOT",
            Exchange::CBOE => "CBOE",
            Exchange::CFE => "CFE",
            Exchange::DME => "DME",
            Exchange::EUREX => "EUREX",
            Exchange::APEX => "APEX",
            Exchange::LME => "LME",
            Exchange::BMD => "BMD",
            Exchange::TOCOM => "TOCOM",
            Exchange::EUNX => "EUNX",
            Exchange::KRX => "KRX",
            Exchange::OTC => "OTC",
            Exchange::IBKRATS => "IBKRATS",
            Exchange::OKX => "OKX",
            Exchange::LOCAL => "LOCAL",
        }
    }

    /// The venue of the given name, if there is one.
    pub fn from_name(name: &str) -> (r: Option<Exchange>)
        ensures
            r == exchange_named(name@),
            r matches Some(e) ==> exchange_name(e) == name@,
            r is None ==> forall|e: Exchange| exchange_name(e) != name@,
    {
        if str_eq(name, "CFFEX") {
            return Some(Exchange::CFFEX);
        }
        if str_eq(name, "SHFE") {
            return Some(Exchange::SHFE);
        }
        if str_eq(name, "CZCE") {
            return Some(Exchange::CZCE);
        }
        if str_eq(name, "DCE") {
            return Some(Exchange::DCE);
        }
        if str_eq(name, "INE") {
            return Some(Exchange::INE);
        }
        if str_eq(name, "GFEX") {
            return Some(Exchange::GFEX);
        }
        if str_eq(name, "SSE") {
            return Some(Exchange::SSE);
        }
        if str_eq(name, "SZSE") {
            return Some(Exchange::SZSE);
        }
        if str_eq(name, "BSE") {
            return Some(Exchange::BSE);
        }
        if str_eq(name, "SHHK") {
            return Some(Exchange::SHHK);
        }
        if str_eq(name, "SZHK") {
            return Some(Exchange::SZHK);
        }
        if str_eq(name, "SGE") {
            return Some(Exchange::SGE);
        }
        if str_eq(name, "WXE") {
            return Some(Exchange::WXE);
        }
        if str_eq(name, "CFETS") {
            return Some(Exchange::CFETS);
        }
        if str_eq(name, "XBOND") {
            return Some(Exchange::XBOND);
        }
        if str_eq(name, "SMART") {
            return Some(Exchange::SMART);
        }
        if str_eq(name, "NYSE") {
            return Some(Exchange::NYSE);
        }
        if str_eq(name, "NASDAQ") {
            return Some(Exchange::NASDAQ);
        }
        if str_eq(name, "ARCA") {
            return Some(Exchange::ARCA);
        }
        if str_eq(name, "EDGEA") {
            return Some(Exchange::EDGEA);
        }
        if str_eq(name, "ISLAND") {
            return Some(Exchange::ISLAND);
        }
        if str_eq(name, "BATS") {
            return Some(Exchange::BATS);
        }
        if str_eq(name, "IEX") {
            return Some(Exchange::IEX);
        }
        if str_eq(name, "AMEX") {
            return Some(Exchange::AMEX);
        }
        if str_eq(name, "TSE") {
            return Some(Exchange::TSE);
        }
        if str_eq(name, "NYMEX") {
            return Some(Exchange::NYMEX);
        }
        if str_eq(name, "COMEX") {
            return Some(Exchange::COMEX);
        }
        if str_eq(name, "GLOBEX") {
            return Some(Exchange::GLOBEX);
        }
        if str_eq(name, "IDEALPRO") {
            return Some(Exchange::IDEALPRO);
        }
        if str_eq(name, "CME") {
            return Some(Exchange::CME);
        }
        if str_eq(name, "ICE") {
            return Some(Exchange::ICE);
        }
        if str_eq(name, "SEHK") {
            return Some(Exchange::SEHK);
        }
        if str_eq(name, "HKFE") {
            return Some(Exchange::HKFE);
        }
        if str_eq(name, "SGX") {
            return Some(Exchange::SGX);
        }
        if str_eq(name, "CBOT") {
            return Some(Exchange::CBOT);
        }
        if str_eq(name, "CBOE") {
            return Some(Exchange::CBOE);
        }
        if str_eq(name, "CFE") {
            return Some(Exchange::CFE);
        }
        if str_eq(name, "DME") {
            return Some(Exchange::DME);
        }
        if str_eq(name, "EUREX") {
            return Some(Exchange::EUREX);
        }
        if str_eq(name, "APEX") {
            return Some(Exchange::APEX);
        }
        if str_eq(name, "LME") {
            return Some(Exchange::LME);
        }
        if str_eq(name, "BMD") {
            return Some(Exchange::BMD);
        }
        if str_eq(name, "TOCOM") {
            return Some(Exchange::TOCOM);
        }
        if str_eq(name, "EUNX") {
            return Some(Exchange::EUNX);
        }
        if str_eq(name, "KRX") {
            return Some(Exchange::KRX);
        }
        if str_eq(name, "OTC") {
            return Some(Exchange::OTC);
        }
        if str_eq(name, "IBKRATS") {
            return Some(Exchange::IBKRATS);
        }
        if str_eq(name, "OKX") {
            return Some(Exchange::OKX);
        }
        if str_eq(name, "LOCAL") {
            return Some(Exchange::LOCAL);
        }
        None
    }
}

} // verus!
