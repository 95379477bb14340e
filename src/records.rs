//! The tabular form of the ledger: which column holds which field, what a row
//! of text becomes, and the row written for an account.
use crate::models::amount::{amount_of_text, decimal_text_of, in_amount_range};
use crate::models::client_id::u16_of_text;
use crate::models::transaction::LedgerEntry;
use crate::models::transaction_id::u32_of_text;
use crate::models::{AccountingOperation, Amount, ClientId, Transaction, TransactionId, TransactionKind};
use crate::processor::{ClientAccount, ClientAccountState};
use vstd::prelude::*;

verus! {

/// Number of fields a row holds.
pub const FIELD_COUNT: usize = 4;

/// A text with leading and trailing whitespace removed.
pub uninterp spec fn trimmed_text(s: Seq<char>) -> Seq<char>;

/// A text in lower case.
pub uninterp spec fn lowercase_text(s: Seq<char>) -> Seq<char>;

/// How a 16-bit unsigned integer is written in decimal.
pub uninterp spec fn u16_text(v: u16) -> Seq<char>;

/// Relies on `str::trim`: the text without leading and trailing whitespace.
#[verifier::external_body]
fn trim(s: &str) -> (r: String)
    ensures
        r@ == trimmed_text(s@),
{
    s.trim().to_string()
}

/// Relies on `str::to_lowercase`: the text in lower case.
#[verifier::external_body]
fn lowercase(s: &str) -> (r: String)
    ensures
        r@ == lowercase_text(s@),
{
    s.to_lowercase()
}

/// Relies on the `Display` of `u16`: the number in decimal.
#[verifier::external_body]
fn u16_to_string(v: u16) -> (r: String)
    ensures
        r@ == u16_text(v),
{
    v.to_string()
}

/// Why the header row of an input was refused.
#[derive(Debug, PartialEq, Eq, Structural, Clone, Copy)]
pub enum CsvReaderError {
    /// The input has no header row.
    HeaderNotFound,
    /// The header names are not exactly `type`, `client`, `tx` and `amount`.
    InvalidHeaders,
}

/// The column of each field.
#[derive(Debug, PartialEq, Eq, Structural, Clone, Copy)]
pub struct HeaderIndex {
    pub type_col: usize,
    pub client_col: usize,
    pub tx_col: usize,
    pub amount_col: usize,
}

impl HeaderIndex {
    /// Every column lies below `len`.
    pub open spec fn within(self, len: nat) -> bool {
        self.type_col < len && self.client_col < len && self.tx_col < len && self.amount_col < len
    }
}

/// What a row of text stands for.
#[derive(Debug)]
pub enum RecordOutcome {
    /// The row is malformed and is passed over.
    Skip,
    /// The row names an unknown operation, which ends the input.
    End,
    /// The operation the row describes.
    Operation(AccountingOperation),
}

/// The name a header cell gives: trimmed and in lower case.
pub open spec fn header_name(cell: Seq<char>) -> Seq<char> {
    lowercase_text(trimmed_text(cell))
}

/// One of the four field names.
pub open spec fn is_field_name(n: Seq<char>) -> bool {
    n == "type"@ || n == "client"@ || n == "tx"@ || n == "amount"@
}

/// `col` is the last header cell that names `wanted`.
pub open spec fn last_column_of(headers: Seq<String>, wanted: Seq<char>, col: int) -> bool {
    &&& 0 <= col < headers.len()
    &&& header_name(headers[col]@) == wanted
    &&& forall|j: int| col < j < headers.len() ==> header_name(#[trigger] headers[j]@) != wanted
}

/// Some header cell names `wanted`.
pub open spec fn names_field(headers: Seq<String>, wanted: Seq<char>) -> bool {
    exists|i: int| 0 <= i < headers.len() && header_name(#[trigger] headers[i]@) == wanted
}

/// The header cells name exactly the four fields, each at least once.
pub open spec fn valid_headers(headers: Seq<String>) -> bool {
    &&& names_field(headers, "type"@)
    &&& names_field(headers, "client"@)
    &&& names_field(headers, "tx"@)
    &&& names_field(headers, "amount"@)
    &&& forall|i: int| 0 <= i < headers.len() ==> is_field_name(header_name(#[trigger] headers[i]@))
}

/// The last column whose name is `wanted`, if any.
fn last_column(names: &Vec<String>, wanted: &str) -> (r: Option<usize>)
    ensures
        r is None <==> forall|i: int| 0 <= i < names@.len() ==> #[trigger] names@[i]@ != wanted@,
        r matches Some(c) ==> c < names@.len() && names@[c as int]@ == wanted@ && forall|j: int|
            c < j < names@.len() ==> #[trigger] names@[j]@ != wanted@,
{
    let target = wanted.to_owned();
    let mut found: Option<usize> = None;
    let mut i: usize = 0;
    while i < names.len()
        invariant
            i <= names@.len(),
            target@ == wanted@,
            found is None <==> forall|k: int| 0 <= k < i ==> #[trigger] names@[k]@ != wanted@,
            found matches Some(c) ==> c < i && names@[c as int]@ == wanted@ && forall|j: int|
                c < j < i ==> #[trigger] names@[j]@ != wanted@,
        decreases names@.len() - i,
    {
        if names[i] == target {
            found = Some(i);
        }
        i = i + 1;
    }
    found
}

/// Finds the column of each field from the header row. The names are
/// compared trimmed and in lower case; where a name repeats, its last
/// column counts.
pub fn header_index(headers: &Vec<String>) -> (r: Result<HeaderIndex, CsvReaderError>)
    ensures
        r is Ok <==> valid_headers(headers@),
        r matches Err(e) ==> e == CsvReaderError::InvalidHeaders,
        r matches Ok(index) ==> {
            &&& last_column_of(headers@, "type"@, index.type_col as int)
            &&& last_column_of(headers@, "client"@, index.client_col as int)
            &&& last_column_of(headers@, "tx"@, index.tx_col as int)
            &&& last_column_of(headers@, "amount"@, index.amount_col as int)
        },
{
    let mut names: Vec<String> = Vec::new();
    let mut i: usize = 0;
    while i < headers.len()
        invariant
            i <= headers@.len(),
            names@.len() == i,
            forall|k: int|
                #![trigger names@[k]]
                #![trigger headers@[k]]
                0 <= k < i ==> names@[k]@ == header_name(headers@[k]@),
        decreases headers@.len() - i,
    {
        let trimmed = trim(headers[i].as_str());
        names.push(lowercase(trimmed.as_str()));
        i = i + 1;
    }
    let type_col = last_column(&names, "type");
    let client_col = last_column(&names, "client");
    let tx_col = last_column(&names, "tx");
    let amount_col = last_column(&names, "amount");
    let mut all_known = true;
    let mut j: usize = 0;
    while j < names.len()
        invariant
            j <= names@.len(),
            all_known == forall|k: int|
                0 <= k < j ==> is_field_name(header_name(#[trigger] headers@[k]@)),
            names@.len() == headers@.len(),
            forall|k: int|
                #![trigger names@[k]]
                #![trigger headers@[k]]
                0 <= k < names@.len() ==> names@[k]@ == header_name(headers@[k]@),
        decreases names@.len() - j,
    {
        let n = &names[j];
        let known = *n == "type".to_owned() || *n == "client".to_owned() || *n == "tx".to_owned()
            || *n == "amount".to_owned();
        assert(names@[j as int]@ == header_name(headers@[j as int]@));
        all_known = all_known && known;
        j = j + 1;
    }
    proof {
        assert forall|w: Seq<char>| names_field(headers@, w) <==> exists|k: int|
            0 <= k < names@.len() && #[trigger] names@[k]@ == w by {
            if names_field(headers@, w) {
                let k = choose|k: int| 0 <= k < headers@.len() && header_name(#[trigger] headers@[k]@) == w;
                assert(names@[k]@ == w);
            }
        }
    }
    match (type_col, client_col, tx_col, amount_col) {
        (Some(type_col), Some(client_col), Some(tx_col), Some(amount_col)) => {
            if all_known {
                Ok(HeaderIndex { type_col, client_col, tx_col, amount_col })
            } else {
                Err(CsvReaderError::InvalidHeaders)
            }
        },
        _ => Err(CsvReaderError::InvalidHeaders),
    }
}

/// The trimmed text of column `col` of a row.
pub open spec fn field_text(fields: Seq<String>, col: usize) -> Seq<char> {
    trimmed_text(fields[col as int]@)
}

/// `r` is what the row `fields` stands for: a row of the wrong width, or
/// with a client, transaction number or needed amount that does not parse,
/// is passed over; an unknown operation name ends the input.
pub open spec fn describes_row(r: RecordOutcome, fields: Seq<String>, index: HeaderIndex) -> bool {
    if fields.len() != FIELD_COUNT {
        r is Skip
    } else {
        let kind = field_text(fields, index.type_col);
        match (
            u16_of_text(field_text(fields, index.client_col)),
            u32_of_text(field_text(fields, index.tx_col)),
        ) {
            (Some(c), Some(t)) => {
                if kind == "deposit"@ || kind == "withdrawal"@ {
                    match amount_of_text(field_text(fields, index.amount_col)) {
                        None => r is Skip,
                        Some(v) => match r {
                            RecordOutcome::Operation(
                                AccountingOperation::Transaction { transaction },
                            ) => transaction@ == (LedgerEntry {
                                client: c,
                                id: t,
                                amount: v,
                                kind: if kind == "deposit"@ {
                                    TransactionKind::Deposit
                                } else {
                                    TransactionKind::Withdrawal
                                },
                            }),
                            _ => false,
                        },
                    }
                } else if kind == "dispute"@ {
                    match r {
                        RecordOutcome::Operation(
                            AccountingOperation::Dispute { client_id, ref_id },
                        ) => client_id@ == c && ref_id@ == t,
                        _ => false,
                    }
                } else if kind == "resolve"@ {
                    match r {
                        RecordOutcome::Operation(
                            AccountingOperation::Resolve { client_id, ref_id },
                        ) => client_id@ == c && ref_id@ == t,
                        _ => false,
                    }
                } else if kind == "chargeback"@ {
                    match r {
                        RecordOutcome::Operation(
                            AccountingOperation::Chargeback { client_id, ref_id },
                        ) => client_id@ == c && ref_id@ == t,
                        _ => false,
                    }
                } else {
                    r is End
                }
            },
            _ => r is Skip,
        }
    }
}

/// Reads one row of text as an operation.
pub fn read_record(fields: &Vec<String>, index: &HeaderIndex) -> (r: RecordOutcome)
    requires
        fields@.len() == FIELD_COUNT ==> index.within(FIELD_COUNT as nat),
    ensures
        describes_row(r, fields@, *index),
{
    if fields.len() != FIELD_COUNT {
        return RecordOutcome::Skip;
    }
    let client_text = trim(fields[index.client_col].as_str());
    let client = match ClientId::try_from(client_text.as_str()) {
        Ok(c) => c,
        Err(_) => {
            return RecordOutcome::Skip;
        },
    };
    let tx_text = trim(fields[index.tx_col].as_str());
    let tx = match TransactionId::try_from(tx_text.as_str()) {
        Ok(t) => t,
        Err(_) => {
            return RecordOutcome::Skip;
        },
    };
    let amount_text = trim(fields[index.amount_col].as_str());
    let kind_text = trim(fields[index.type_col].as_str());
    let kind = if kind_text == "deposit".to_owned() {
        Some(TransactionKind::Deposit)
    } else if kind_text == "withdrawal".to_owned() {
        Some(TransactionKind::Withdrawal)
    } else {
        None
    };
    match kind {
        Some(kind) => match Amount::try_from(amount_text.as_str()) {
            Ok(amount) => RecordOutcome::Operation(
                AccountingOperation::Transaction {
                    transaction: Transaction::new(client, tx, amount, kind),
                },
            ),
            Err(_) => RecordOutcome::Skip,
        },
        None => {
            if kind_text == "dispute".to_owned() {
                RecordOutcome::Operation(AccountingOperation::Dispute { client_id: client, ref_id: tx })
            } else if kind_text == "resolve".to_owned() {
                RecordOutcome::Operation(AccountingOperation::Resolve { client_id: client, ref_id: tx })
            } else if kind_text == "chargeback".to_owned() {
                RecordOutcome::Operation(
                    AccountingOperation::Chargeback { client_id: client, ref_id: tx },
                )
            } else {
                RecordOutcome::End
            }
        },
    }
}

/// The fields written for an account: client, available, held, total and
/// whether it is locked.
pub open spec fn describes_account(r: Seq<String>, account: ClientAccount) -> bool {
    &&& r.len() == 5
    &&& r[0]@ == u16_text(account@.client)
    &&& r[1]@ == decimal_text_of(account@.available)
    &&& r[2]@ == decimal_text_of(account@.held)
    &&& r[3]@ == decimal_text_of(account@.total())
    &&& r[4]@ == (if account@.locked {
        "true"@
    } else {
        "false"@
    })
}

/// The row written for an account.
pub fn account_record(account: &ClientAccount) -> (r: Vec<String>)
    requires
        in_amount_range(account@.total()),
    ensures
        describes_account(r@, *account),
{
    let total = account.available_balance.add(account.held_balance);
    let locked = match account.state {
        ClientAccountState::Normal => "false".to_owned(),
        ClientAccountState::Locked => "true".to_owned(),
    };
    let mut r: Vec<String> = Vec::new();
    r.push(u16_to_string(account.client_id.as_u16()));
    r.push(account.available_balance.to_string());
    r.push(account.held_balance.to_string());
    r.push(total.to_string());
    r.push(locked);
    r
}

} // verus!
