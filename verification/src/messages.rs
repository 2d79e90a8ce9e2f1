//! Messages: outbound packets under construction and inbound packets
//! under a cursor.
//!
//! A message is a sequence of field tokens. On the wire every field is
//! followed by one delimiter character.

use vstd::prelude::*;
use crate::domain::{Contract, ContractView, Decimal, Timestamp, is_unix_seconds};
use crate::errors::{Error, ErrorView};
use crate::fields::{
    bool_token, decode_bool, decode_int, decode_long, encode_bool, encode_int, int_token,
    is_decimal_token, parse_bool_token, parse_bounded_int, push_char,
};

verus! {

/// The character that ends a field on the wire.
pub const DELIMITER: char = '\0';

/// The tokens that a sequence of strings holds.
pub open spec fn tokens_of(strings: Seq<String>) -> Seq<Seq<char>> {
    Seq::new(strings.len(), |i: int| strings[i]@)
}

/// The wire text of a message: every field followed by the delimiter.
pub open spec fn wire_text(fields: Seq<Seq<char>>) -> Seq<char>
    decreases fields.len(),
{
    if fields.len() == 0 {
        Seq::empty()
    } else {
        wire_text(fields.drop_last()) + fields.last().push(DELIMITER)
    }
}

/// The text that follows the last delimiter of a wire text.
pub open spec fn unterminated_tail(text: Seq<char>) -> Seq<char>
    decreases text.len(),
{
    if text.len() == 0 || text.last() == DELIMITER {
        Seq::empty()
    } else {
        unterminated_tail(text.drop_last()).push(text.last())
    }
}

/// The fields of a wire text that a delimiter ends.
pub open spec fn terminated_fields(text: Seq<char>) -> Seq<Seq<char>>
    decreases text.len(),
{
    if text.len() == 0 {
        Seq::empty()
    } else if text.last() == DELIMITER {
        terminated_fields(text.drop_last()).push(unterminated_tail(text.drop_last()))
    } else {
        terminated_fields(text.drop_last())
    }
}

/// The fields of a wire text: the pieces that the delimiters end and, where
/// text follows the last delimiter, that text as one more field.
pub open spec fn wire_fields(text: Seq<char>) -> Seq<Seq<char>> {
    if unterminated_tail(text).len() == 0 {
        terminated_fields(text)
    } else {
        terminated_fields(text).push(unterminated_tail(text))
    }
}

/// Whether no field of a message holds the delimiter.
pub open spec fn delimiter_free(fields: Seq<Seq<char>>) -> bool {
    forall|i: int, j: int|
        0 <= i < fields.len() && 0 <= j < fields[i].len() ==> #[trigger] fields[i][j] != DELIMITER
}

proof fn lemma_scan_token(text: Seq<char>, token: Seq<char>)
    requires
        forall|j: int| 0 <= j < token.len() ==> token[j] != DELIMITER,
    ensures
        terminated_fields(text + token) == terminated_fields(text),
        unterminated_tail(text + token) == unterminated_tail(text) + token,
    decreases token.len(),
{
    if token.len() == 0 {
        assert(text + token =~= text);
        assert(unterminated_tail(text) + token =~= unterminated_tail(text));
    } else {
        let shorter = token.drop_last();
        lemma_scan_token(text, shorter);
        let whole = text + token;
        assert(whole.drop_last() =~= text + shorter);
        assert(whole.last() == token.last());
        assert(unterminated_tail(text) + token =~= (unterminated_tail(text) + shorter).push(
            token.last(),
        ));
    }
}

/// Written to the wire and read back, a message whose fields are free of the
/// delimiter comes out field by field as it went in.
pub proof fn lemma_wire_round_trip(fields: Seq<Seq<char>>)
    requires
        delimiter_free(fields),
    ensures
        wire_fields(wire_text(fields)) == fields,
        unterminated_tail(wire_text(fields)).len() == 0,
        terminated_fields(wire_text(fields)) == fields,
    decreases fields.len(),
{
    if fields.len() == 0 {
        assert(terminated_fields(wire_text(fields)) =~= fields);
    } else {
        let front = fields.drop_last();
        let token = fields.last();
        assert forall|i: int, j: int| 0 <= i < front.len() && 0 <= j < front[i].len() implies (
        #[trigger] front[i][j]) != DELIMITER by {
            assert(front[i][j] == fields[i][j]);
        }
        lemma_wire_round_trip(front);
        assert forall|j: int| 0 <= j < token.len() implies token[j] != DELIMITER by {
            assert(token[j] == fields[fields.len() - 1][j]);
        }
        let before = wire_text(front);
        lemma_scan_token(before, token);
        let text = wire_text(fields);
        assert(text =~= (before + token).push(DELIMITER));
        assert(text.drop_last() =~= before + token);
        assert(text.last() == DELIMITER);
        assert(unterminated_tail(before) + token =~= token);
        assert(terminated_fields(text) =~= fields);
    }
}

/// The thirteen fields of a contract, in wire order.
pub open spec fn contract_fields(contract: ContractView) -> Seq<Seq<char>> {
    seq![
        int_token(contract.contract_id),
        contract.symbol,
        contract.security_type,
        contract.last_trade_date_or_contract_month,
        contract.strike,
        contract.right,
        contract.multiplier,
        contract.exchange,
        contract.primary_exchange,
        contract.currency,
        contract.local_symbol,
        contract.trading_class,
        bool_token(contract.include_expired),
    ]
}

/// An outbound message under construction: the field tokens appended so far.
#[derive(Debug, PartialEq, Eq)]
pub struct RequestPacket {
    fields: Vec<String>,
}

impl View for RequestPacket {
    type V = Seq<Seq<char>>;

    closed spec fn view(&self) -> Seq<Seq<char>> {
        tokens_of(self.fields@)
    }
}

impl Default for RequestPacket {
    fn default() -> (packet: RequestPacket)
        ensures
            packet@ == Seq::<Seq<char>>::empty(),
    {
        RequestPacket::new()
    }
}

impl Clone for RequestPacket {
    fn clone(&self) -> (copy: Self)
        ensures
            copy@ == self@,
    {
        let mut fields: Vec<String> = Vec::new();
        let n = self.fields.len();
        let mut i: usize = 0;
        while i < n
            invariant
                n == self.fields.len(),
                i <= n,
                fields@ == self.fields@.take(i as int),
            decreases n - i,
        {
            fields.push(self.fields[i].clone());
            assert(fields@ =~= self.fields@.take(i + 1));
            i = i + 1;
        }
        assert(self.fields@.take(n as int) =~= self.fields@);
        RequestPacket { fields }
    }
}

impl RequestPacket {
    /// A message without fields.
    pub fn new() -> (packet: RequestPacket)
        ensures
            packet@ == Seq::<Seq<char>>::empty(),
    {
        let packet = RequestPacket { fields: Vec::new() };
        assert(packet@ =~= Seq::<Seq<char>>::empty());
        packet
    }

    fn push_token(&mut self, token: String)
        ensures
            final(self)@ == old(self)@.push(token@),
    {
        self.fields.push(token);
        assert(self@ =~= old(self)@.push(token@));
    }

    /// Appends a boolean field.
    pub fn add_bool(&mut self, value: bool)
        ensures
            final(self)@ == old(self)@.push(bool_token(value)),
    {
        self.push_token(encode_bool(value));
    }

    /// Appends an integer field.
    pub fn add_int(&mut self, value: i32)
        ensures
            final(self)@ == old(self)@.push(int_token(value as int)),
    {
        self.push_token(encode_int(value as i64));
    }

    /// Appends a 64-bit integer field.
    pub fn add_long(&mut self, value: i64)
        ensures
            final(self)@ == old(self)@.push(int_token(value as int)),
    {
        self.push_token(encode_int(value));
    }

    /// Appends a text field, as it is.
    pub fn add_str(&mut self, value: &str)
        ensures
            final(self)@ == old(self)@.push(value@),
    {
        self.push_token(String::from_str(value));
    }

    /// Appends a decimal field.
    pub fn add_decimal(&mut self, value: &Decimal)
        ensures
            final(self)@ == old(self)@.push(value@),
    {
        self.push_token(String::from_str(value.as_str()));
    }

    /// Appends an optional integer field: the empty token when it is absent.
    pub fn add_optional_int(&mut self, value: Option<i32>)
        ensures
            final(self)@ == old(self)@.push(
                match value {
                    Some(v) => int_token(v as int),
                    None => Seq::empty(),
                },
            ),
    {
        match value {
            Some(v) => self.add_int(v),
            None => self.push_token(String::new()),
        }
    }

    /// Appends the thirteen fields of a contract.
    pub fn add_contract(&mut self, contract: &Contract)
        ensures
            final(self)@ == old(self)@ + contract_fields(contract@),
    {
        self.add_int(contract.contract_id);
        self.add_str(contract.symbol.as_str());
        self.add_str(contract.security_type.as_str());
        self.add_str(contract.last_trade_date_or_contract_month.as_str());
        self.add_decimal(&contract.strike);
        self.add_str(contract.right.as_str());
        self.add_str(contract.multiplier.as_str());
        self.add_str(contract.exchange.as_str());
        self.add_str(contract.primary_exchange.as_str());
        self.add_str(contract.currency.as_str());
        self.add_str(contract.local_symbol.as_str());
        self.add_str(contract.trading_class.as_str());
        self.add_bool(contract.include_expired);
        assert(self@ =~= old(self)@ + contract_fields(contract@));
    }

    /// The number of fields.
    pub fn len(&self) -> (n: usize)
        ensures
            n == self@.len(),
    {
        self.fields.len()
    }

    /// The token of the field at `index`.
    pub fn field(&self, index: usize) -> (token: &str)
        requires
            index < self@.len(),
        ensures
            token@ == self@[index as int],
    {
        self.fields[index].as_str()
    }

    /// Tells whether no field holds the delimiter, so that the wire text of
    /// the message reads back as the same fields.
    pub fn is_delimiter_free(&self) -> (free: bool)
        ensures
            free == delimiter_free(self@),
    {
        let n = self.fields.len();
        let mut i: usize = 0;
        while i < n
            invariant
                n == self.fields.len(),
                i <= n,
                delimiter_free(self@.take(i as int)),
            decreases n - i,
        {
            let token = self.fields[i].as_str();
            let ghost text = token@;
            assert(text == self@[i as int]);
            for c in it: token.chars()
                invariant
                    it.seq() == text,
                    i < self@.len(),
                    text == self@[i as int],
                    forall|j: int| 0 <= j < it.index() ==> text[j] != DELIMITER,
            {
                if c == DELIMITER {
                    assert(self@[i as int][it.index() as int] == DELIMITER);
                    return false;
                }
            }
            proof {
                let longer = self@.take(i + 1);
                assert forall|a: int, b: int|
                    0 <= a < longer.len() && 0 <= b < longer[a].len() implies (
                #[trigger] longer[a][b]) != DELIMITER by {
                    if a < i {
                        assert(self@.take(i as int)[a][b] != DELIMITER);
                    }
                }
            }
            i = i + 1;
        }
        assert(self@.take(n as int) =~= self@);
        true
    }

    /// The wire text of the message.
    pub fn encode(&self) -> (text: String)
        ensures
            text@ == wire_text(self@),
    {
        let mut text = String::new();
        let n = self.fields.len();
        let mut i: usize = 0;
        while i < n
            invariant
                n == self.fields.len(),
                i <= n,
                text@ == wire_text(self@.take(i as int)),
            decreases n - i,
        {
            let ghost before = text@;
            text.append(self.fields[i].as_str());
            push_char(&mut text, DELIMITER);
            proof {
                let prefix = self@.take(i + 1);
                assert(prefix.drop_last() =~= self@.take(i as int));
                assert(prefix.last() == self@[i as int]);
                assert(text@ =~= before + self@[i as int].push(DELIMITER));
            }
            i = i + 1;
        }
        assert(self@.take(n as int) =~= self@);
        text
    }
}

/// The mathematical value of a [`ResponsePacket`]: how many fields have been
/// read, and the fields that have not been read yet.
pub struct ResponseView {
    pub position: nat,
    pub unread: Seq<Seq<char>>,
}

impl ResponseView {
    /// The message after `count` more of its fields have been read.
    pub open spec fn skip_fields(self, count: nat) -> ResponseView {
        ResponseView { position: self.position + count, unread: self.unread.skip(count as int) }
    }

    /// The message after one more of its fields has been read, if one is
    /// left.
    pub open spec fn advance(self) -> ResponseView {
        if self.unread.len() == 0 {
            self
        } else {
            self.skip_fields(1)
        }
    }

    /// Whether `later` is this message after some of its fields have been
    /// read.
    pub open spec fn leads_to(self, later: ResponseView) -> bool {
        &&& self.position <= later.position <= self.position + self.unread.len()
        &&& later == self.skip_fields((later.position - self.position) as nat)
    }

    /// What reading the unread field at `index` gives, under a rule that
    /// says which tokens are values: the value, `UnexpectedEndOfMessage`
    /// where the message has no such field, `MalformedField` with the
    /// position of the field where its token is no value.
    pub open spec fn field<T>(self, index: nat, parse: spec_fn(Seq<char>) -> Option<T>) -> Result<
        T,
        ErrorView,
    > {
        if index >= self.unread.len() {
            Err(ErrorView::UnexpectedEndOfMessage)
        } else {
            match parse(self.unread[index as int]) {
                Some(value) => Ok(value),
                None => Err(ErrorView::MalformedField { index: (self.position + index) as int }),
            }
        }
    }

    /// What reading the next field gives, under a rule that says which
    /// tokens are values.
    pub open spec fn read<T>(self, parse: spec_fn(Seq<char>) -> Option<T>) -> Result<
        T,
        ErrorView,
    > {
        if self.unread.len() == 0 {
            Err(ErrorView::UnexpectedEndOfMessage)
        } else {
            match parse(self.unread[0]) {
                Some(value) => Ok(value),
                None => Err(ErrorView::MalformedField { index: self.position as int }),
            }
        }
    }
}

/// A boolean field reads as true exactly when its token is `1` and as false
/// exactly when its token is `0`; any other token is a malformed field.
pub proof fn lemma_bool_field(message: ResponseView)
    requires
        message.unread.len() > 0,
    ensures
        ({
            let token = message.unread[0];
            let value = message.read(|t: Seq<char>| parse_bool_token(t));
            &&& value == Ok::<bool, ErrorView>(true) <==> token == seq!['1']
            &&& value == Ok::<bool, ErrorView>(false) <==> token == seq!['0']
            &&& value == Err::<bool, ErrorView>(
                ErrorView::MalformedField { index: message.position as int },
            ) <==> token != seq!['1'] && token != seq!['0']
        }),
{
    crate::fields::lemma_bool_token_exact(message.unread[0]);
}

/// The 32-bit integer that a token stands for.
pub open spec fn int_field(token: Seq<char>) -> Option<int> {
    parse_bounded_int(token, i32::MIN as int, i32::MAX as int)
}

/// The 64-bit integer that a token stands for.
pub open spec fn long_field(token: Seq<char>) -> Option<int> {
    parse_bounded_int(token, i64::MIN as int, i64::MAX as int)
}

/// The optional 32-bit integer that a token stands for: the empty token is
/// the absent value.
pub open spec fn optional_int_field(token: Seq<char>) -> Option<Option<int>> {
    if token.len() == 0 {
        Some(None)
    } else {
        match int_field(token) {
            Some(value) => Some(Some(value)),
            None => None,
        }
    }
}

/// The decimal number that a token stands for.
pub open spec fn decimal_field(token: Seq<char>) -> Option<Seq<char>> {
    if is_decimal_token(token) {
        Some(token)
    } else {
        None
    }
}

/// The point in time that a token stands for: seconds since the Unix epoch,
/// as decimal text.
pub open spec fn timestamp_field(token: Seq<char>) -> Option<int> {
    match long_field(token) {
        Some(seconds) => if is_unix_seconds(seconds) {
            Some(seconds)
        } else {
            None
        },
        None => None,
    }
}

/// An inbound message: its field tokens and a cursor that only moves
/// forward.
#[derive(Debug, PartialEq, Eq)]
pub struct ResponsePacket {
    fields: Vec<String>,
    cursor: usize,
}

impl View for ResponsePacket {
    type V = ResponseView;

    closed spec fn view(&self) -> ResponseView {
        ResponseView {
            position: self.cursor as nat,
            unread: tokens_of(self.fields@).skip(self.cursor as int),
        }
    }
}

impl Clone for ResponsePacket {
    fn clone(&self) -> (copy: Self)
        ensures
            copy@ == self@,
    {
        proof {
            use_type_invariant(self);
        }
        let mut fields: Vec<String> = Vec::new();
        let n = self.fields.len();
        let mut i: usize = 0;
        while i < n
            invariant
                n == self.fields.len(),
                i <= n,
                fields@ == self.fields@.take(i as int),
            decreases n - i,
        {
            fields.push(self.fields[i].clone());
            assert(fields@ =~= self.fields@.take(i + 1));
            i = i + 1;
        }
        assert(self.fields@.take(n as int) =~= self.fields@);
        ResponsePacket { fields, cursor: self.cursor }
    }
}

impl ResponsePacket {
    #[verifier::type_invariant]
    spec fn cursor_in_bounds(self) -> bool {
        self.cursor <= self.fields.len()
    }

    /// The message with the given fields, none of them read.
    pub fn from_fields(fields: Vec<String>) -> (packet: ResponsePacket)
        ensures
            packet@ == (ResponseView { position: 0, unread: tokens_of(fields@) }),
    {
        let packet = ResponsePacket { fields, cursor: 0 };
        assert(packet@.unread =~= tokens_of(fields@));
        packet
    }

    /// The message that a wire text holds, none of its fields read.
    ///
    /// Every delimiter ends a field. Text after the last delimiter is taken
    /// as one more field.
    pub fn from(text: &str) -> (packet: ResponsePacket)
        ensures
            packet@ == (ResponseView { position: 0, unread: wire_fields(text@) }),
    {
        let mut fields: Vec<String> = Vec::new();
        let mut current = String::new();
        let ghost whole = text@;
        for c in it: text.chars()
            invariant
                it.seq() == whole,
                whole == text@,
                tokens_of(fields@) == terminated_fields(whole.take(it.index() as int)),
                current@ == unterminated_tail(whole.take(it.index() as int)),
        {
            let ghost k = it.index() as int;
            let ghost before = fields@;
            proof {
                assert(whole.take(k + 1).drop_last() =~= whole.take(k));
                assert(whole.take(k + 1).last() == c);
            }
            if c == DELIMITER {
                fields.push(current);
                current = String::new();
                proof {
                    assert(fields@ == before.push(fields@[before.len() as int]));
                    assert(tokens_of(fields@) =~= tokens_of(before).push(
                        unterminated_tail(whole.take(k)),
                    ));
                }
            } else {
                push_char(&mut current, c);
            }
        }
        assert(whole.take(whole.len() as int) =~= whole);
        if current.as_str().unicode_len() > 0 {
            let ghost before = fields@;
            fields.push(current);
            proof {
                assert(fields@ == before.push(fields@[before.len() as int]));
                assert(tokens_of(fields@) =~= tokens_of(before).push(unterminated_tail(whole)));
            }
        }
        ResponsePacket::from_fields(fields)
    }

    /// The number of fields that have not been read.
    pub fn remaining(&self) -> (n: usize)
        ensures
            n == self@.unread.len(),
    {
        proof {
            use_type_invariant(self);
        }
        self.fields.len() - self.cursor
    }

    /// The number of fields that have been read.
    pub fn position(&self) -> (n: usize)
        ensures
            n == self@.position,
    {
        self.cursor
    }

    fn next_token(&mut self) -> (token: Option<&str>)
        ensures
            final(self)@ == old(self)@.advance(),
            old(self)@.unread.len() == 0 <==> token is None,
            token matches Some(t) ==> t@ == old(self)@.unread[0],
            old(self)@.position < usize::MAX || token is None,
    {
        proof {
            use_type_invariant(&*self);
        }
        if self.cursor < self.fields.len() {
            let index = self.cursor;
            self.cursor = index + 1;
            assert(self@.unread =~= old(self)@.unread.skip(1));
            Some(self.fields[index].as_str())
        } else {
            None
        }
    }

    /// Reads the next field as a 32-bit integer.
    pub fn next_int(&mut self) -> (value: Result<i32, Error>)
        ensures
            final(self)@ == old(self)@.advance(),
            match value {
                Ok(v) => old(self)@.read(|t: Seq<char>| int_field(t)) == Ok::<int, ErrorView>(
                    v as int,
                ),
                Err(e) => old(self)@.read(|t: Seq<char>| int_field(t)) == Err::<int, ErrorView>(e@),
            },
    {
        let index = self.cursor;
        match self.next_token() {
            None => Err(Error::UnexpectedEndOfMessage),
            Some(token) => match decode_int(token) {
                Some(v) => Ok(v),
                None => Err(Error::MalformedField { index }),
            },
        }
    }

    /// Reads the next field as an optional 32-bit integer: the empty token
    /// is the absent value.
    pub fn next_optional_int(&mut self) -> (value: Result<Option<i32>, Error>)
        ensures
            final(self)@ == old(self)@.advance(),
            match value {
                Ok(Some(v)) => old(self)@.read(|t: Seq<char>| optional_int_field(t)) == Ok::<
                    Option<int>,
                    ErrorView,
                >(Some(v as int)),
                Ok(None) => old(self)@.read(|t: Seq<char>| optional_int_field(t)) == Ok::<
                    Option<int>,
                    ErrorView,
                >(None),
                Err(e) => old(self)@.read(|t: Seq<char>| optional_int_field(t)) == Err::<
                    Option<int>,
                    ErrorView,
                >(e@),
            },
    {
        let index = self.cursor;
        match self.next_token() {
            None => Err(Error::UnexpectedEndOfMessage),
            Some(token) => if token.unicode_len() == 0 {
                Ok(None)
            } else {
                match decode_int(token) {
                    Some(v) => Ok(Some(v)),
                    None => Err(Error::MalformedField { index }),
                }
            },
        }
    }

    /// Reads the next field as a 64-bit integer.
    pub fn next_long(&mut self) -> (value: Result<i64, Error>)
        ensures
            final(self)@ == old(self)@.advance(),
            match value {
                Ok(v) => old(self)@.read(|t: Seq<char>| long_field(t)) == Ok::<int, ErrorView>(
                    v as int,
                ),
                Err(e) => old(self)@.read(|t: Seq<char>| long_field(t)) == Err::<int, ErrorView>(
                    e@,
                ),
            },
    {
        let index = self.cursor;
        match self.next_token() {
            None => Err(Error::UnexpectedEndOfMessage),
            Some(token) => match decode_long(token) {
                Some(v) => Ok(v),
                None => Err(Error::MalformedField { index }),
            },
        }
    }

    /// Reads the next field as a boolean.
    pub fn next_bool(&mut self) -> (value: Result<bool, Error>)
        ensures
            final(self)@ == old(self)@.advance(),
            match value {
                Ok(v) => old(self)@.read(|t: Seq<char>| parse_bool_token(t)) == Ok::<
                    bool,
                    ErrorView,
                >(v),
                Err(e) => old(self)@.read(|t: Seq<char>| parse_bool_token(t)) == Err::<
                    bool,
                    ErrorView,
                >(e@),
            },
    {
        let index = self.cursor;
        match self.next_token() {
            None => Err(Error::UnexpectedEndOfMessage),
            Some(token) => match decode_bool(token) {
                Some(v) => Ok(v),
                None => Err(Error::MalformedField { index }),
            },
        }
    }

    /// Reads the next field as text.
    pub fn next_string(&mut self) -> (value: Result<String, Error>)
        ensures
            final(self)@ == old(self)@.advance(),
            match value {
                Ok(v) => old(self)@.unread.len() > 0 && v@ == old(self)@.unread[0],
                Err(e) => old(self)@.unread.len() == 0 && e@ == ErrorView::UnexpectedEndOfMessage,
            },
    {
        match self.next_token() {
            None => Err(Error::UnexpectedEndOfMessage),
            Some(token) => Ok(String::from_str(token)),
        }
    }

    /// Reads the next field as a decimal number.
    pub fn next_decimal(&mut self) -> (value: Result<Decimal, Error>)
        ensures
            final(self)@ == old(self)@.advance(),
            match value {
                Ok(v) => old(self)@.read(|t: Seq<char>| decimal_field(t)) == Ok::<
                    Seq<char>,
                    ErrorView,
                >(v@),
                Err(e) => old(self)@.read(|t: Seq<char>| decimal_field(t)) == Err::<
                    Seq<char>,
                    ErrorView,
                >(e@),
            },
    {
        let index = self.cursor;
        match self.next_token() {
            None => Err(Error::UnexpectedEndOfMessage),
            Some(token) => match Decimal::parse(token) {
                Some(v) => Ok(v),
                None => Err(Error::MalformedField { index }),
            },
        }
    }

    /// Reads the next field as a point in time.
    pub fn next_date_time(&mut self) -> (value: Result<Timestamp, Error>)
        ensures
            final(self)@ == old(self)@.advance(),
            match value {
                Ok(v) => old(self)@.read(|t: Seq<char>| timestamp_field(t)) == Ok::<
                    int,
                    ErrorView,
                >(v@),
                Err(e) => old(self)@.read(|t: Seq<char>| timestamp_field(t)) == Err::<
                    int,
                    ErrorView,
                >(e@),
            },
    {
        let index = self.cursor;
        match self.next_token() {
            None => Err(Error::UnexpectedEndOfMessage),
            Some(token) => match decode_long(token) {
                Some(seconds) => match Timestamp::from_unix_seconds(seconds) {
                    Some(v) => Ok(v),
                    None => Err(Error::MalformedField { index }),
                },
                None => Err(Error::MalformedField { index }),
            },
        }
    }

    /// Checks that every field has been read.
    pub fn finish(&self) -> (done: Result<(), Error>)
        ensures
            match done {
                Ok(_) => self@.unread.len() == 0,
                Err(e) => self@.unread.len() > 0 && e@ == (ErrorView::TrailingFields {
                    count: self@.unread.len() as int,
                }),
            },
    {
        let count = self.remaining();
        if count == 0 {
            Ok(())
        } else {
            Err(Error::TrailingFields { count })
        }
    }
}

impl ContractView {
    /// Whether this is the value of some [`Contract`]: the identifier fits
    /// 32 bits and the strike is decimal text.
    pub open spec fn valid(self) -> bool {
        &&& i32::MIN <= self.contract_id <= i32::MAX
        &&& is_decimal_token(self.strike)
    }
}

/// The contract that the next thirteen fields of a message hold, or the
/// error at the first field that is missing or malformed.
pub open spec fn parse_contract(message: ResponseView) -> Result<ContractView, ErrorView> {
    let fields = message.unread;
    let contract_id = message.field(0, |t: Seq<char>| int_field(t));
    let strike = message.field(4, |t: Seq<char>| decimal_field(t));
    let include_expired = message.field(12, |t: Seq<char>| parse_bool_token(t));
    if contract_id is Err {
        Err(contract_id->Err_0)
    } else if strike is Err {
        Err(strike->Err_0)
    } else if include_expired is Err {
        Err(include_expired->Err_0)
    } else {
        Ok(
            ContractView {
                contract_id: contract_id->Ok_0,
                symbol: fields[1],
                security_type: fields[2],
                last_trade_date_or_contract_month: fields[3],
                strike: strike->Ok_0,
                right: fields[5],
                multiplier: fields[6],
                exchange: fields[7],
                primary_exchange: fields[8],
                currency: fields[9],
                local_symbol: fields[10],
                trading_class: fields[11],
                include_expired: include_expired->Ok_0,
            },
        )
    }
}

/// Facts about a message of which `count` fields have been read.
pub proof fn lemma_read_ahead(message: ResponseView, count: nat)
    requires
        count <= message.unread.len(),
    ensures
        message.leads_to(message.skip_fields(count)),
        message.leads_to(message.skip_fields(count).advance()),
        message.skip_fields(count).unread.len() == message.unread.len() - count,
        count < message.unread.len() ==> {
            &&& message.skip_fields(count).advance() == message.skip_fields(count + 1)
            &&& message.skip_fields(count).unread[0] == message.unread[count as int]
        },
{
    if count < message.unread.len() {
        assert(message.unread.skip(count as int).skip(1) =~= message.unread.skip(count as int + 1));
    }
}

/// The fields of a contract, read back, give the contract: every value and
/// the order of the fields survive the round trip, whatever follows them in
/// the message.
pub proof fn lemma_contract_round_trip(
    contract: ContractView,
    position: nat,
    rest: Seq<Seq<char>>,
)
    requires
        contract.valid(),
    ensures
        contract_fields(contract).len() == 13,
        parse_contract(ResponseView { position, unread: contract_fields(contract) + rest }) == Ok::<
            ContractView,
            ErrorView,
        >(contract),
{
    let fields = contract_fields(contract) + rest;
    crate::fields::lemma_int_token_round_trip(contract.contract_id);
    assert(fields[0] == int_token(contract.contract_id));
    assert(fields[4] == contract.strike);
    assert(fields[12] == bool_token(contract.include_expired));
    crate::fields::lemma_bool_token_round_trip(contract.include_expired);
    assert(fields[1] == contract.symbol);
    assert(fields[2] == contract.security_type);
    assert(fields[3] == contract.last_trade_date_or_contract_month);
    assert(fields[5] == contract.right);
    assert(fields[6] == contract.multiplier);
    assert(fields[7] == contract.exchange);
    assert(fields[8] == contract.primary_exchange);
    assert(fields[9] == contract.currency);
    assert(fields[10] == contract.local_symbol);
    assert(fields[11] == contract.trading_class);
}

impl ResponsePacket {
    /// Reads the next thirteen fields as a contract.
    pub fn next_contract(&mut self) -> (value: Result<Contract, Error>)
        ensures
            match value {
                Ok(contract) => {
                    &&& parse_contract(old(self)@) == Ok::<ContractView, ErrorView>(contract@)
                    &&& final(self)@ == old(self)@.skip_fields(13)
                },
                Err(e) => {
                    &&& parse_contract(old(self)@) == Err::<ContractView, ErrorView>(e@)
                    &&& old(self)@.leads_to(final(self)@)
                },
            },
    {
        let ghost start = self@;
        proof {
            lemma_read_ahead(start, 0);
            assert(start.skip_fields(0) == start) by {
                assert(start.unread.skip(0) =~= start.unread);
            }
        }
        let contract_id = self.next_int()?;
        proof {
            lemma_read_ahead(start, 1);
        }
        let symbol = self.next_string()?;
        proof {
            lemma_read_ahead(start, 2);
        }
        let security_type = self.next_string()?;
        proof {
            lemma_read_ahead(start, 3);
        }
        let last_trade_date_or_contract_month = self.next_string()?;
        proof {
            lemma_read_ahead(start, 4);
        }
        let strike = self.next_decimal()?;
        proof {
            lemma_read_ahead(start, 5);
        }
        let right = self.next_string()?;
        proof {
            lemma_read_ahead(start, 6);
        }
        let multiplier = self.next_string()?;
        proof {
            lemma_read_ahead(start, 7);
        }
        let exchange = self.next_string()?;
        proof {
            lemma_read_ahead(start, 8);
        }
        let primary_exchange = self.next_string()?;
        proof {
            lemma_read_ahead(start, 9);
        }
        let currency = self.next_string()?;
        proof {
            lemma_read_ahead(start, 10);
        }
        let local_symbol = self.next_string()?;
        proof {
            lemma_read_ahead(start, 11);
        }
        let trading_class = self.next_string()?;
        proof {
            lemma_read_ahead(start, 12);
        }
        let include_expired = self.next_bool()?;
        Ok(
            Contract {
                contract_id,
                symbol,
                security_type,
                last_trade_date_or_contract_month,
                strike,
                right,
                multiplier,
                exchange,
                primary_exchange,
                currency,
                local_symbol,
                trading_class,
                include_expired,
            },
        )
    }
}

} // verus!
