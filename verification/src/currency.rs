//! Currencies a contract can accept: strict name parsing (each currency
//! has a fixed list of accepted spellings), classification, and the
//! canonical storage string.

use vstd::prelude::*;
use crate::error::DomainError;
use crate::text::str_eq;

verus! {

/// A currency accepted by an asset contract.
#[derive(Debug, Clone, PartialEq, Eq, Hash, Structural)]
pub enum Currency {
    USD,
    EUR,
    XRP,
    RUB,
    ARS,
    BRL,
    CNY,
    GBP,
    MXN,
    QAR,
    JPY,
    DOGE,
    XRFQ,
    SOL,
    BTC,
    ETH,
    ADA,
    USDT,
    BNB,
}

/// A list of currencies, as stored alongside a contract.
#[derive(Debug, Clone, PartialEq, Eq, Hash)]
pub struct CurrencyList(pub Vec<Currency>);

/// The currency named by a string, if any: each currency accepts its
/// code in upper and lower case and a fixed list of full names.
pub open spec fn currency_of(s: Seq<char>) -> Option<Currency> {
    if s == "USD"@ || s == "usd"@ || s == "US Dollar"@ || s == "us dollar"@ {
        Some(Currency::USD)
    } else if s == "EUR"@ || s == "eur"@ || s == "Euro"@ || s == "euro"@ {
        Some(Currency::EUR)
    } else if s == "XRP"@ || s == "xrp"@ || s == "Ripple"@ || s == "ripple"@ {
        Some(Currency::XRP)
    } else if s == "RUB"@ || s == "rub"@ || s == "Russian Ruble"@ || s == "russian ruble"@ {
        Some(Currency::RUB)
    } else if s == "ARS"@ || s == "ars"@ || s == "Argentine Peso"@ || s == "argentine peso"@ {
        Some(Currency::ARS)
    } else if s == "BRL"@ || s == "brl"@ || s == "Brazilian Real"@ || s == "brazilian real"@ {
        Some(Currency::BRL)
    } else if s == "CNY"@ || s == "cny"@ || s == "Chinese Yuan"@ || s == "chinese yuan"@ {
        Some(Currency::CNY)
    } else if s == "GBP"@ || s == "gbp"@ || s == "British Pound"@ || s == "british pound"@
        || s == "Pound Sterling"@ || s == "pound sterling"@ {
        Some(Currency::GBP)
    } else if s == "MXN"@ || s == "mxn"@ || s == "Mexican Peso"@ || s == "mexican peso"@ {
        Some(Currency::MXN)
    } else if s == "QAR"@ || s == "qar"@ || s == "Qatari Rial"@ || s == "qatari rial"@ {
        Some(Currency::QAR)
    } else if s == "JPY"@ || s == "jpy"@ || s == "Japanese Yen"@ || s == "japanese yen"@ {
        Some(Currency::JPY)
    } else if s == "DOGE"@ || s == "doge"@ || s == "Dogecoin"@ || s == "dogecoin"@ {
        Some(Currency::DOGE)
    } else if s == "XRFQ"@ || s == "xrfq"@ {
        Some(Currency::XRFQ)
    } else if s == "SOL"@ || s == "sol"@ || s == "Solana"@ || s == "solana"@ || s == "SOLANA"@ {
        Some(Currency::SOL)
    } else if s == "BTC"@ || s == "btc"@ || s == "Bitcoin"@ || s == "bitcoin"@ || s == "BITCOIN"@ {
        Some(Currency::BTC)
    } else if s == "ETH"@ || s == "eth"@ || s == "Ethereum"@ || s == "ethereum"@
        || s == "ETHEREUM"@ {
        Some(Currency::ETH)
    } else if s == "ADA"@ || s == "ada"@ || s == "Cardano"@ || s == "cardano"@ || s == "CARDANO"@ {
        Some(Currency::ADA)
    } else if s == "USDT"@ || s == "usdt"@ || s == "Tether"@ || s == "tether"@ || s == "TETHER"@ {
        Some(Currency::USDT)
    } else if s == "BNB"@ || s == "bnb"@ || s == "Binance Coin"@ || s == "binance coin"@
        || s == "BNB Coin"@ || s == "BinanceCoin"@ {
        Some(Currency::BNB)
    } else {
        None
    }
}

impl Currency {
    /// Parses a currency name; an unrecognized string is rejected.
    pub fn parse(s: &str) -> (r: Result<Currency, DomainError>)
        ensures
            currency_of(s@) matches Some(c) ==> r == Ok::<Currency, DomainError>(c),
            r is Err <==> currency_of(s@) is None,
    {
        if str_eq(s, "USD") || str_eq(s, "usd") || str_eq(s, "US Dollar") || str_eq(s, "us dollar") {
            Ok(Currency::USD)
        } else if str_eq(s, "EUR") || str_eq(s, "eur") || str_eq(s, "Euro") || str_eq(s, "euro") {
            Ok(Currency::EUR)
        } else if str_eq(s, "XRP") || str_eq(s, "xrp") || str_eq(s, "Ripple") || str_eq(s, "ripple") {
            Ok(Currency::XRP)
        } else if str_eq(s, "RUB") || str_eq(s, "rub") || str_eq(s, "Russian Ruble") || str_eq(
            s,
            "russian ruble",
        ) {
            Ok(Currency::RUB)
        } else if str_eq(s, "ARS") || str_eq(s, "ars") || str_eq(s, "Argentine Peso") || str_eq(
            s,
            "argentine peso",
        ) {
            Ok(Currency::ARS)
        } else if str_eq(s, "BRL") || str_eq(s, "brl") || str_eq(s, "Brazilian Real") || str_eq(
            s,
            "brazilian real",
        ) {
            Ok(Currency::BRL)
        } else if str_eq(s, "CNY") || str_eq(s, "cny") || str_eq(s, "Chinese Yuan") || str_eq(
            s,
            "chinese yuan",
        ) {
            Ok(Currency::CNY)
        } else if str_eq(s, "GBP") || str_eq(s, "gbp") || str_eq(s, "British Pound") || str_eq(
            s,
            "british pound",
        ) || str_eq(s, "Pound Sterling") || str_eq(s, "pound sterling") {
            Ok(Currency::GBP)
        } else if str_eq(s, "MXN") || str_eq(s, "mxn") || str_eq(s, "Mexican Peso") || str_eq(
            s,
            "mexican peso",
        ) {
            Ok(Currency::MXN)
        } else if str_eq(s, "QAR") || str_eq(s, "qar") || str_eq(s, "Qatari Rial") || str_eq(
            s,
            "qatari rial",
        ) {
            Ok(Currency::QAR)
        } else if str_eq(s, "JPY") || str_eq(s, "jpy") || str_eq(s, "Japanese Yen") || str_eq(
            s,
            "japanese yen",
        ) {
            Ok(Currency::JPY)
        } else if str_eq(s, "DOGE") || str_eq(s, "doge") || str_eq(s, "Dogecoin") || str_eq(
            s,
            "dogecoin",
        ) {
            Ok(Currency::DOGE)
        } else if str_eq(s, "XRFQ") || str_eq(s, "xrfq") {
            Ok(Currency::XRFQ)
        } else if str_eq(s, "SOL") || str_eq(s, "sol") || str_eq(s, "Solana") || str_eq(s, "solana")
            || str_eq(s, "SOLANA") {
            Ok(Currency::SOL)
        } else if str_eq(s, "BTC") || str_eq(s, "btc") || str_eq(s, "Bitcoin") || str_eq(
            s,
            "bitcoin",
        ) || str_eq(s, "BITCOIN") {
            Ok(Currency::BTC)
        } else if str_eq(s, "ETH") || str_eq(s, "eth") || str_eq(s, "Ethereum") || str_eq(
            s,
            "ethereum",
        ) || str_eq(s, "ETHEREUM") {
            Ok(Currency::ETH)
        } else if str_eq(s, "ADA") || str_eq(s, "ada") || str_eq(s, "Cardano") || str_eq(
            s,
            "cardano",
        ) || str_eq(s, "CARDANO") {
            Ok(Currency::ADA)
        } else if str_eq(s, "USDT") || str_eq(s, "usdt") || str_eq(s, "Tether") || str_eq(
            s,
            "tether",
        ) || str_eq(s, "TETHER") {
            Ok(Currency::USDT)
        } else if str_eq(s, "BNB") || str_eq(s, "bnb") || str_eq(s, "Binance Coin") || str_eq(
            s,
            "binance coin",
        ) || str_eq(s, "BNB Coin") || str_eq(s, "BinanceCoin") {
            Ok(Currency::BNB)
        } else {
            Err(DomainError::InvalidArgument(String::from_str("unknown currency")))
        }
    }

    /// True exactly for the crypto currencies.
    pub fn is_crypto(&self) -> (r: bool)
        ensures
            r <==> (self == Currency::XRP || self == Currency::XRFQ || self == Currency::DOGE
                || self == Currency::SOL || self == Currency::USDT || self == Currency::ADA
                || self == Currency::BTC || self == Currency::ETH || self == Currency::BNB),
    {
        match self {
            Currency::XRP => true,
            Currency::XRFQ => true,
            Currency::DOGE => true,
            Currency::SOL => true,
            Currency::USDT => true,
            Currency::ADA => true,
            Currency::BTC => true,
            Currency::ETH => true,
            Currency::BNB => true,
            _ => false,
        }
    }

    /// The canonical string stored for this currency.
    pub open spec fn db_chars(self) -> Seq<char> {
        match self {
            Currency::USD => "USD"@,
            Currency::EUR => "EUR"@,
            Currency::XRP => "XRP"@,
            Currency::RUB => "RUB"@,
            Currency::ARS => "ARS"@,
            Currency::BRL => "BRL"@,
            Currency::CNY => "CNY"@,
            Currency::GBP => "GBP"@,
            Currency::MXN => "MXN"@,
            Currency::QAR => "QAR"@,
            Currency::JPY => "JPY"@,
            Currency::DOGE => "DOGE"@,
            Currency::XRFQ => "XRFQ"@,
            Currency::SOL => "SOL"@,
            Currency::BTC => "BTC"@,
            Currency::ETH => "ETH"@,
            Currency::ADA => "ADA"@,
            Currency::USDT => "USDT"@,
            Currency::BNB => "BNB"@,
        }
    }

    /// The canonical storage string: always the upper-case currency code.
    pub fn db_string(&self) -> (r: &'static str)
        ensures
            r@ == self.db_chars(),
    {
        match self {
            Currency::USD => "USD",
            Currency::EUR => "EUR",
            Currency::XRP => "XRP",
            Currency::RUB => "RUB",
            Currency::ARS => "ARS",
            Currency::BRL => "BRL",
            Currency::CNY => "CNY",
            Currency::GBP => "GBP",
            Currency::MXN => "MXN",
            Currency::QAR => "QAR",
            Currency::JPY => "JPY",
            Currency::DOGE => "DOGE",
            Currency::XRFQ => "XRFQ",
            Currency::SOL => "SOL",
            Currency::BTC => "BTC",
            Currency::ETH => "ETH",
            Currency::ADA => "ADA",
            Currency::USDT => "USDT",
            Currency::BNB => "BNB",
        }
    }
}

impl core::str::FromStr for Currency {
    type Err = DomainError;

    fn from_str(s: &str) -> Result<Currency, DomainError> {
        Currency::parse(s)
    }
}

/// All input strings name a currency.
pub open spec fn all_currencies_valid(inputs: Seq<String>) -> bool {
    forall|j: int| 0 <= j < inputs.len() ==> currency_of(#[trigger] inputs[j]@) is Some
}

/// A currency is named by at least one of the input strings.
pub open spec fn named_by_some_input(inputs: Seq<String>, c: Currency) -> bool {
    exists|j: int| 0 <= j < inputs.len() && currency_of(#[trigger] inputs[j]@) == Some(c)
}

/// Extending a checked prefix by one name extends its validity and the
/// set of currencies it names in the evident way.
proof fn lemma_prefix_extend(inputs: Seq<String>, i: int)
    requires
        0 <= i < inputs.len(),
    ensures
        all_currencies_valid(inputs.subrange(0, i + 1)) <==> (all_currencies_valid(
            inputs.subrange(0, i),
        ) && currency_of(inputs[i]@) is Some),
        forall|c: Currency|
            named_by_some_input(inputs.subrange(0, i + 1), c) <==> (named_by_some_input(
                inputs.subrange(0, i),
                c,
            ) || currency_of(inputs[i]@) == Some(c)),
{
    let p = inputs.subrange(0, i);
    let q = inputs.subrange(0, i + 1);
    assert(q[i] == inputs[i]);
    if all_currencies_valid(q) {
        assert forall|j: int| 0 <= j < p.len() implies currency_of(#[trigger] p[j]@) is Some by {
            assert(p[j] == q[j]);
            assert(currency_of(q[j]@) is Some);
        }
    }
    if all_currencies_valid(p) && currency_of(inputs[i]@) is Some {
        assert forall|j: int| 0 <= j < q.len() implies currency_of(#[trigger] q[j]@) is Some by {
            if j < i {
                assert(q[j] == p[j]);
                assert(currency_of(p[j]@) is Some);
            }
        }
    }
    assert forall|c: Currency| named_by_some_input(q, c) implies (named_by_some_input(p, c)
        || currency_of(inputs[i]@) == Some(c)) by {
        let j = choose|j: int| 0 <= j < q.len() && currency_of(#[trigger] q[j]@) == Some(c);
        if j < i {
            assert(p[j] == q[j]);
            assert(currency_of(p[j]@) == Some(c));
        }
    }
    assert forall|c: Currency| (named_by_some_input(p, c) || currency_of(inputs[i]@) == Some(c))
        implies named_by_some_input(q, c) by {
        if named_by_some_input(p, c) {
            let j = choose|j: int| 0 <= j < p.len() && currency_of(#[trigger] p[j]@) == Some(c);
            assert(q[j] == p[j]);
            assert(currency_of(q[j]@) == Some(c));
        } else {
            assert(currency_of(q[i]@) == Some(c));
        }
    }
}

/// Pushing an element onto a sequence makes its membership the old
/// membership plus the new element.
proof fn lemma_push_contains<A>(s: Seq<A>, x: A)
    ensures
        forall|y: A| s.push(x).contains(y) <==> (s.contains(y) || y == x),
{
    assert forall|y: A| s.push(x).contains(y) implies (s.contains(y) || y == x) by {
        let k = choose|k: int| 0 <= k < s.push(x).len() && s.push(x)[k] == y;
        if k < s.len() {
            assert(s[k] == y);
        }
    }
    assert forall|y: A| s.contains(y) implies s.push(x).contains(y) by {
        let k = choose|k: int| 0 <= k < s.len() && s[k] == y;
        assert(s.push(x)[k] == y);
    }
    assert(s.push(x)[s.len() as int] == x);
}

/// Parses a batch of currency names. The whole batch is rejected if any
/// name is unrecognized; otherwise the result holds each named currency
/// exactly once, duplicates collapsed.
pub fn process_accepted_currencies(accepted_currencies: Vec<String>) -> (r: Result<
    Vec<Currency>,
    String,
>)
    ensures
        r is Ok <==> all_currencies_valid(accepted_currencies@),
        r matches Ok(v) ==> {
            &&& forall|c: Currency| v@.contains(c) <==> named_by_some_input(
                accepted_currencies@,
                c,
            )
            &&& forall|p: int, q: int| 0 <= p < q < v@.len() ==> v@[p] != v@[q]
        },
{
    let mut out: Vec<Currency> = Vec::new();
    let mut i: usize = 0;
    let n = accepted_currencies.len();
    let mut ok = true;
    while i < n
        invariant
            i <= n,
            n == accepted_currencies@.len(),
            ok <==> all_currencies_valid(accepted_currencies@.subrange(0, i as int)),
            forall|c: Currency| out@.contains(c) <==> named_by_some_input(
                accepted_currencies@.subrange(0, i as int),
                c,
            ),
            forall|p: int, q: int| 0 <= p < q < out@.len() ==> out@[p] != out@[q],
        decreases n - i,
    {
        proof {
            lemma_prefix_extend(accepted_currencies@, i as int);
        }
        match Currency::parse(accepted_currencies[i].as_str()) {
            Ok(c) => {
                let ghost out0 = out@;
                let had = currency_list_contains(&out, &c);
                if !had {
                    out.push(c);
                    proof {
                        lemma_push_contains(out0, c);
                    }
                }
                proof {
                    let next = accepted_currencies@.subrange(0, i as int + 1);
                    assert(currency_of(accepted_currencies@[i as int]@) == Some(c));
                    assert forall|cc: Currency| out@.contains(cc) implies named_by_some_input(
                        next,
                        cc,
                    ) by {
                        assert(out0.contains(cc) || cc == c);
                    }
                    assert forall|cc: Currency| named_by_some_input(next, cc) implies out@
                        .contains(cc) by {
                        assert(named_by_some_input(
                            accepted_currencies@.subrange(0, i as int),
                            cc,
                        ) || cc == c);
                        if cc != c {
                            assert(out0.contains(cc));
                        }
                    }
                }
            },
            Err(_) => {
                // keep scanning so every name is checked; the batch is
                // rejected on any single bad name
                ok = false;
            },
        }
        i = i + 1;
    }
    proof {
        assert(accepted_currencies@.subrange(0, n as int) =~= accepted_currencies@);
    }
    if ok {
        Ok(out)
    } else {
        Err(String::from_str("Invalid currencies provided"))
    }
}

/// True exactly when the list already holds the currency.
fn currency_list_contains(list: &Vec<Currency>, c: &Currency) -> (r: bool)
    ensures
        r <==> list@.contains(*c),
{
    let mut i: usize = 0;
    let n = list.len();
    while i < n
        invariant
            i <= n,
            n == list@.len(),
            forall|j: int| 0 <= j < i ==> list@[j] != *c,
        decreases n - i,
    {
        if list[i] == *c {
            return true;
        }
        i = i + 1;
    }
    false
}

} // verus!
