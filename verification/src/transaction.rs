//! The transaction record: the sole entity the service stores and serves.

use vstd::prelude::*;

verus! {

/// A single financial transaction record.
///
/// The monetary amount and the open metadata document are kept as the exact
/// text they occupied on the wire: the store never computes with either, it
/// only hands them back, so the decimal text of the amount and the verbatim
/// text of the metadata document are their in-memory forms.
pub struct Transaction {
    /// Externally supplied identifier; uniqueness is not enforced.
    pub transaction_id: String,
    /// Unsigned integer identifying the originating account.
    pub user_id: u32,
    /// The monetary value, as its decimal wire text (for example `12.5`).
    pub amount: String,
    /// Free-form currency label, unvalidated.
    pub currency: String,
    /// The open, arbitrarily nested metadata document, verbatim wire text.
    pub metadata: String,
    /// Caller-supplied timestamp, unvalidated and unparsed.
    pub timestamp: String,
}

/// The mathematical value of a `Transaction`: each text field as its
/// character sequence.
pub struct TransactionView {
    pub transaction_id: Seq<char>,
    pub user_id: u32,
    pub amount: Seq<char>,
    pub currency: Seq<char>,
    pub metadata: Seq<char>,
    pub timestamp: Seq<char>,
}

impl View for Transaction {
    type V = TransactionView;

    open spec fn view(&self) -> TransactionView {
        TransactionView {
            transaction_id: self.transaction_id@,
            user_id: self.user_id,
            amount: self.amount@,
            currency: self.currency@,
            metadata: self.metadata@,
            timestamp: self.timestamp@,
        }
    }
}

impl Transaction {
    /// An owned copy of the record; callers of the store receive copies,
    /// never a reference into its state.
    pub fn duplicate(&self) -> (r: Transaction)
        ensures
            r@ == self@,
    {
        Transaction {
            transaction_id: self.transaction_id.clone(),
            user_id: self.user_id,
            amount: self.amount.clone(),
            currency: self.currency.clone(),
            metadata: self.metadata.clone(),
            timestamp: self.timestamp.clone(),
        }
    }
}

} // verus!
