//! The values that requests carry and responses deliver.

use vstd::prelude::*;
use crate::fields::{check_decimal, is_decimal_token};

verus! {

/// The earliest Unix timestamp that a [`Timestamp`] can hold: the first
/// second of the year -9999.
pub const MIN_UNIX_SECONDS: i64 = -377705116800;

/// The latest Unix timestamp that a [`Timestamp`] can hold: the last second
/// of the year 9999.
pub const MAX_UNIX_SECONDS: i64 = 253402300799;

/// Whether a number of seconds since the Unix epoch names a representable
/// point in time.
pub open spec fn is_unix_seconds(seconds: int) -> bool {
    MIN_UNIX_SECONDS <= seconds <= MAX_UNIX_SECONDS
}

/// Tells whether a Unix timestamp names a date and time of the calendar.
///
/// Calls `time::OffsetDateTime::from_unix_timestamp`, which returns a value
/// exactly for the timestamps from midnight of the first day of the year
/// -9999 to the last second of the year 9999 (UTC) and a range error for all
/// others. The contract states these two bounds in seconds.
#[verifier::external_body]
fn calendar_accepts(seconds: i64) -> (ok: bool)
    ensures
        ok == is_unix_seconds(seconds as int),
{
    time::OffsetDateTime::from_unix_timestamp(seconds).is_ok()
}

/// A point in time, to the second, as seconds since the Unix epoch (UTC).
#[derive(Debug, Clone, Copy, PartialEq, Eq)]
pub struct Timestamp {
    seconds: i64,
}

impl View for Timestamp {
    type V = int;

    closed spec fn view(&self) -> int {
        self.seconds as int
    }
}

impl Timestamp {
    #[verifier::type_invariant]
    spec fn in_calendar(self) -> bool {
        is_unix_seconds(self.seconds as int)
    }

    /// The point in time that lies `seconds` after the Unix epoch, if the
    /// calendar reaches that far.
    pub fn from_unix_seconds(seconds: i64) -> (timestamp: Option<Timestamp>)
        ensures
            timestamp is Some <==> is_unix_seconds(seconds as int),
            timestamp matches Some(t) ==> t@ == seconds,
    {
        if calendar_accepts(seconds) {
            Some(Timestamp { seconds })
        } else {
            None
        }
    }

    /// Seconds since the Unix epoch.
    pub fn unix_seconds(&self) -> (seconds: i64)
        ensures
            seconds == self@,
            is_unix_seconds(seconds as int),
    {
        proof {
            use_type_invariant(self);
        }
        self.seconds
    }
}

/// A number in decimal text, as the gateway writes prices and sizes.
///
/// The text is kept as it was written: an optional sign, then digits with at
/// most one decimal point.
#[derive(Debug, PartialEq, Eq)]
pub struct Decimal {
    text: String,
}

impl View for Decimal {
    type V = Seq<char>;

    closed spec fn view(&self) -> Seq<char> {
        self.text@
    }
}

impl Decimal {
    #[verifier::type_invariant]
    spec fn well_formed(self) -> bool {
        is_decimal_token(self.text@)
    }

    /// Reads a number from decimal text.
    pub fn parse(token: &str) -> (number: Option<Decimal>)
        ensures
            number is Some <==> is_decimal_token(token@),
            number matches Some(d) ==> d@ == token@,
    {
        if check_decimal(token) {
            Some(Decimal { text: String::from_str(token) })
        } else {
            None
        }
    }

    /// The number zero, written `0`.
    pub fn zero() -> (number: Decimal)
        ensures
            number@ == seq!['0'],
    {
        proof {
            reveal_strlit("0");
        }
        let text = String::from_str("0");
        assert(text@ =~= seq!['0']);
        proof {
            let body = crate::fields::unsigned_part(text@);
            assert(body =~= text@);
            assert(crate::fields::is_digit(body[0]));
        }
        Decimal { text }
    }

    /// The text of the number.
    pub fn as_str(&self) -> (text: &str)
        ensures
            text@ == self@,
            is_decimal_token(text@),
    {
        proof {
            use_type_invariant(self);
        }
        self.text.as_str()
    }
}

impl Clone for Decimal {
    fn clone(&self) -> (copy: Self)
        ensures
            copy@ == self@,
    {
        proof {
            use_type_invariant(self);
        }
        Decimal { text: self.text.clone() }
    }
}

/// Qualifiers of a bid/ask tick, as the bit mask that the gateway sends.
#[derive(Debug, Clone, Copy, PartialEq, Eq)]
pub struct TickAttribBidAsk {
    pub mask: i32,
}

/// An instrument, as far as a request names it.
///
/// On the wire it is thirteen fields, in the order of the fields here.
#[derive(Debug, PartialEq, Eq)]
pub struct Contract {
    pub contract_id: i32,
    pub symbol: String,
    pub security_type: String,
    pub last_trade_date_or_contract_month: String,
    pub strike: Decimal,
    pub right: String,
    pub multiplier: String,
    pub exchange: String,
    pub primary_exchange: String,
    pub currency: String,
    pub local_symbol: String,
    pub trading_class: String,
    pub include_expired: bool,
}

/// The mathematical value of a [`Contract`].
pub struct ContractView {
    pub contract_id: int,
    pub symbol: Seq<char>,
    pub security_type: Seq<char>,
    pub last_trade_date_or_contract_month: Seq<char>,
    pub strike: Seq<char>,
    pub right: Seq<char>,
    pub multiplier: Seq<char>,
    pub exchange: Seq<char>,
    pub primary_exchange: Seq<char>,
    pub currency: Seq<char>,
    pub local_symbol: Seq<char>,
    pub trading_class: Seq<char>,
    pub include_expired: bool,
}

impl View for Contract {
    type V = ContractView;

    open spec fn view(&self) -> ContractView {
        ContractView {
            contract_id: self.contract_id as int,
            symbol: self.symbol@,
            security_type: self.security_type@,
            last_trade_date_or_contract_month: self.last_trade_date_or_contract_month@,
            strike: self.strike@,
            right: self.right@,
            multiplier: self.multiplier@,
            exchange: self.exchange@,
            primary_exchange: self.primary_exchange@,
            currency: self.currency@,
            local_symbol: self.local_symbol@,
            trading_class: self.trading_class@,
            include_expired: self.include_expired,
        }
    }
}

impl ContractView {
    /// The contract with identifier 0, strike `0`, every text empty and
    /// expired instruments left out.
    pub open spec fn blank() -> ContractView {
        ContractView {
            contract_id: 0,
            symbol: Seq::empty(),
            security_type: Seq::empty(),
            last_trade_date_or_contract_month: Seq::empty(),
            strike: seq!['0'],
            right: Seq::empty(),
            multiplier: Seq::empty(),
            exchange: Seq::empty(),
            primary_exchange: Seq::empty(),
            currency: Seq::empty(),
            local_symbol: Seq::empty(),
            trading_class: Seq::empty(),
            include_expired: false,
        }
    }
}

impl Default for Contract {
    /// The blank contract.
    fn default() -> (contract: Contract)
        ensures
            contract@ == ContractView::blank(),
    {
        Contract {
            contract_id: 0,
            symbol: String::new(),
            security_type: String::new(),
            last_trade_date_or_contract_month: String::new(),
            strike: Decimal::zero(),
            right: String::new(),
            multiplier: String::new(),
            exchange: String::new(),
            primary_exchange: String::new(),
            currency: String::new(),
            local_symbol: String::new(),
            trading_class: String::new(),
            include_expired: false,
        }
    }
}

impl Clone for Contract {
    fn clone(&self) -> (copy: Self)
        ensures
            copy@ == self@,
    {
        Contract {
            contract_id: self.contract_id,
            symbol: self.symbol.clone(),
            security_type: self.security_type.clone(),
            last_trade_date_or_contract_month: self.last_trade_date_or_contract_month.clone(),
            strike: self.strike.clone(),
            right: self.right.clone(),
            multiplier: self.multiplier.clone(),
            exchange: self.exchange.clone(),
            primary_exchange: self.primary_exchange.clone(),
            currency: self.currency.clone(),
            local_symbol: self.local_symbol.clone(),
            trading_class: self.trading_class.clone(),
            include_expired: self.include_expired,
        }
    }
}

} // verus!
