//! Currency conversion: the rates the exchange-rate service answers with,
//! and amounts converted with them.
use vstd::prelude::*;
use crate::decimal::{decimal_product, fits_i128, multiply, product_in_range, parse_decimal, parsed_decimal, product_defined, wide_mantissa, widen, Decimal, WideDecimal};
use crate::errors::{api_error_view, ApiError, ApiErrorView};
use crate::text::{owned, push_str, str_eq};
use crate::types::currency_code::currency_code_label;
use crate::types::CurrencyCode;

verus! {

/// The currency amounts are reported in.
pub fn primary_currency() -> (res: CurrencyCode)
    ensures
        res == CurrencyCode::Eur,
{
    CurrencyCode::Eur
}

/// The rate of `c` in a table of rates: the first entry for it.
pub open spec fn rate_of(rates: Seq<(CurrencyCode, Decimal)>, c: CurrencyCode) -> Option<Decimal>
    decreases rates.len(),
{
    if rates.len() == 0 {
        None
    } else {
        match rate_of(rates.drop_last(), c) {
            Some(r) => Some(r),
            None => if rates.last().0 == c {
                Some(rates.last().1)
            } else {
                None
            },
        }
    }
}

/// Converts an amount between currencies with the rates based on `from`:
/// the same currency needs no rate; otherwise the amount is multiplied by
/// the rate of `to`, whose absence is an internal error.
pub fn convert_currency(amount: &Decimal, from: CurrencyCode, to: CurrencyCode, rates: &Vec<(CurrencyCode, Decimal)>) -> (res:
    Result<WideDecimal, ApiError>)
    requires
        forall|i: int| 0 <= i < rates@.len() ==> product_defined(*amount, (#[trigger] rates@[i]).1),
    ensures
        from == to ==> match res {
            Ok(w) => wide_mantissa(w) == amount.mantissa && w.scale == amount.scale,
            Err(_) => false,
        },
        from != to ==> match rate_of(rates@, to) {
            None => match res {
                Err(e) => api_error_view(e) == ApiErrorView::Internal,
                Ok(_) => false,
            },
            Some(r) => match res {
                Ok(w) => decimal_product(amount.mantissa as int, amount.scale as int, r.mantissa as int, r.scale as int)
                    == (wide_mantissa(w), w.scale as int),
                Err(_) => false,
            },
        },
{
    if from == to {
        return Ok(widen(amount));
    }
    let mut i: usize = 0;
    let mut found: Option<Decimal> = None;
    while i < rates.len()
        invariant
            i <= rates@.len(),
            found == rate_of(rates@.take(i as int), to),
        decreases rates@.len() - i,
    {
        assert(rates@.take(i + 1).drop_last() == rates@.take(i as int));
        if found.is_none() && rates[i].0 == to {
            found = Some(rates[i].1);
        }
        i = i + 1;
    }
    assert(rates@.take(rates@.len() as int) == rates@);
    let rate = match found {
        Some(r) => r,
        None => {
            return Err(ApiError::Internal);
        },
    };
    proof {
        lemma_rate_listed(rates@, to);
    }
    Ok(multiply(amount, &rate))
}

/// A source of exchange rates (a live service, or fixed rates for tests);
/// conversions are built on the rates it answers with.
pub trait ExchangeRateProvider {
    /// The rates of the supported currencies, based on `base_currency`.
    fn get_exchange_rates(&self, base_currency: CurrencyCode) -> Result<Vec<(CurrencyCode, Decimal)>, ApiError>;

    /// Converts an amount with the rates based on its currency
    /// (`convert_currency`); the rates are not asked for where the
    /// currencies are the same, and an error of the rates is the answer.
    fn convert_currency(&self, amount: &Decimal, from_currency: CurrencyCode, to_currency: CurrencyCode) -> (res:
        Result<WideDecimal, ApiError>)
        default_ensures
            from_currency == to_currency ==> match res {
                Ok(w) => wide_mantissa(w) == amount.mantissa && w.scale == amount.scale,
                Err(_) => false,
            },
    {
        if from_currency == to_currency {
            return Ok(widen(amount));
        }
        let rates = self.get_exchange_rates(from_currency)?;
        let mut i: usize = 0;
        while i < rates.len()
            invariant
                from_currency != to_currency,
                i <= rates@.len(),
                forall|j: int| 0 <= j < i ==> product_defined(*amount, (#[trigger] rates@[j]).1),
            decreases rates@.len() - i,
        {
            if !product_in_range(amount, &rates[i].1) {
                return Err(ApiError::Internal);
            }
            i = i + 1;
        }
        convert_currency(amount, from_currency, to_currency, &rates)
    }

    /// Converts an amount into the primary currency with this provider's
    /// `convert_currency`.
    fn convert_to_primary_currency(&self, amount: &Decimal, from_currency: CurrencyCode) -> Result<
        WideDecimal,
        ApiError,
    > {
        self.convert_currency(amount, from_currency, primary_currency())
    }
}

proof fn lemma_rate_listed(rates: Seq<(CurrencyCode, Decimal)>, c: CurrencyCode)
    ensures
        rate_of(rates, c) matches Some(r) ==> exists|i: int| 0 <= i < rates.len() && #[trigger] rates[i] == (c, r),
    decreases rates.len(),
{
    if rates.len() > 0 {
        lemma_rate_listed(rates.drop_last(), c);
        if rate_of(rates.drop_last(), c) is Some {
            let r = rate_of(rates.drop_last(), c)->0;
            let i = choose|i: int| 0 <= i < rates.drop_last().len() && #[trigger] rates.drop_last()[i] == (c, r);
            assert(rates[i] == (c, r));
        } else if rates.last().0 == c {
            assert(rates[rates.len() - 1] == (c, rates.last().1));
        }
    }
}

/// The address of the latest rates based on `base`.
pub fn rates_url(api_key: &str, base: CurrencyCode) -> (res: String)
    ensures
        res@ == "https://v6.exchangerate-api.com/v6/"@ + api_key@ + "/latest/"@ + currency_code_label(base),
{
    let mut u = owned("https://v6.exchangerate-api.com/v6/");
    push_str(&mut u, api_key);
    push_str(&mut u, "/latest/");
    push_str(&mut u, base.as_str());
    u
}

/// The currencies the application supports, in the order rates are read.
pub open spec fn supported_currencies() -> Seq<CurrencyCode> {
    seq![
        CurrencyCode::Eur,
        CurrencyCode::Usd,
        CurrencyCode::Gbp,
        CurrencyCode::Jpy,
        CurrencyCode::Cad,
        CurrencyCode::Aud,
        CurrencyCode::Inr,
    ]
}

/// The rate text listed for the currency code `code`: the first entry for
/// it.
pub open spec fn listed_rate(listed: Seq<(String, String)>, code: Seq<char>) -> Option<Seq<char>>
    decreases listed.len(),
{
    if listed.len() == 0 {
        None
    } else {
        match listed_rate(listed.drop_last(), code) {
            Some(t) => Some(t),
            None => if listed.last().0@ == code {
                Some(listed.last().1@)
            } else {
                None
            },
        }
    }
}

fn find_listed(listed: &Vec<(String, String)>, code: &str) -> (res: Option<String>)
    ensures
        match res {
            Some(t) => listed_rate(listed@, code@) == Some(t@),
            None => listed_rate(listed@, code@) is None,
        },
{
    let mut i: usize = 0;
    let mut found: Option<String> = None;
    while i < listed.len()
        invariant
            i <= listed@.len(),
            match found {
                Some(t) => listed_rate(listed@.take(i as int), code@) == Some(t@),
                None => listed_rate(listed@.take(i as int), code@) is None,
            },
        decreases listed@.len() - i,
    {
        assert(listed@.take(i + 1).drop_last() == listed@.take(i as int));
        if found.is_none() && str_eq(listed[i].0.as_str(), code) {
            found = Some(listed[i].1.clone());
        }
        i = i + 1;
    }
    assert(listed@.take(listed@.len() as int) == listed@);
    found
}

/// Whether each supported currency among the first `n` has a listed rate
/// that reads as an amount with an `i128` mantissa.
pub open spec fn rates_readable(listed: Seq<(String, String)>, n: int) -> bool {
    forall|k: int|
        0 <= k < n ==> match listed_rate(listed, currency_code_label(#[trigger] supported_currencies()[k])) {
            Some(t) => parsed_decimal(t) matches Some(p) && fits_i128(p.0),
            None => true,
        }
}

/// The rates of the first `n` supported currencies that are listed, in
/// that order.
pub open spec fn supported_rates_of(listed: Seq<(String, String)>, n: int) -> Seq<(CurrencyCode, (int, int))>
    decreases n,
{
    if n <= 0 {
        Seq::empty()
    } else {
        let c = supported_currencies()[n - 1];
        let prev = supported_rates_of(listed, n - 1);
        match listed_rate(listed, currency_code_label(c)) {
            Some(t) => prev.push((c, parsed_decimal(t)->0)),
            None => prev,
        }
    }
}

pub open spec fn rate_pairs(rates: Seq<(CurrencyCode, Decimal)>) -> Seq<(CurrencyCode, (int, int))> {
    rates.map_values(|r: (CurrencyCode, Decimal)| (r.0, (r.1.mantissa as int, r.1.scale as int)))
}

/// The rates of the supported currencies among those the service listed
/// (currency code and the rate's text), in the supported order; a rate
/// that does not read as an amount is an internal error.
pub fn supported_rates(listed: &Vec<(String, String)>) -> (res: Result<Vec<(CurrencyCode, Decimal)>, ApiError>)
    ensures
        rates_readable(listed@, 7) ==> (res matches Ok(r) && rate_pairs(r@) == supported_rates_of(listed@, 7)),
        !rates_readable(listed@, 7) ==> (res matches Err(e) && api_error_view(e) == ApiErrorView::Internal),
{
    let currencies: Vec<CurrencyCode> = vec![
        CurrencyCode::Eur,
        CurrencyCode::Usd,
        CurrencyCode::Gbp,
        CurrencyCode::Jpy,
        CurrencyCode::Cad,
        CurrencyCode::Aud,
        CurrencyCode::Inr,
    ];
    assert(currencies@ == supported_currencies());
    let mut out: Vec<(CurrencyCode, Decimal)> = Vec::new();
    let mut k: usize = 0;
    while k < currencies.len()
        invariant
            currencies@ == supported_currencies(),
            k <= 7,
            rates_readable(listed@, k as int),
            rate_pairs(out@) == supported_rates_of(listed@, k as int),
        decreases 7 - k,
    {
        let c = currencies[k];
        match find_listed(listed, c.as_str()) {
            Some(t) => match parse_decimal(t.as_str()) {
                Some(d) => {
                    out.push((c, d));
                    assert(rate_pairs(out@) =~= supported_rates_of(listed@, k + 1));
                },
                None => {
                    proof {
                        assert(!rates_readable(listed@, 7)) by {
                            assert(supported_currencies()[k as int] == c);
                        }
                    }
                    return Err(ApiError::Internal);
                },
            },
            None => {
                assert(rate_pairs(out@) =~= supported_rates_of(listed@, k + 1));
            },
        }
        k = k + 1;
    }
    Ok(out)
}

/// Checks the service's answer: a success status, the result "success",
/// and rates present; each failure is an internal error.
pub fn check_rates_answer(success_status: bool, result: &str, has_rates: bool) -> (res: Result<(), ApiError>)
    ensures
        (success_status && result@ == "success"@ && has_rates) ==> res is Ok,
        !(success_status && result@ == "success"@ && has_rates) ==> (res matches Err(e) && api_error_view(e)
            == ApiErrorView::Internal),
{
    if !success_status || !str_eq(result, "success") || !has_rates {
        return Err(ApiError::Internal);
    }
    Ok(())
}

} // verus!
