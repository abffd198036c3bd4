//! A value transfer between two unauthenticated identity labels.

use vstd::prelude::*;

use crate::clock::now_seconds;
use crate::decimal::{append_signed, signed_decimal};

verus! {

/// The mathematical content of a [`Transfer`].
pub struct TransferModel {
    pub sender: Seq<char>,
    pub receiver: Seq<char>,
    pub amount: int,
    pub created_at: int,
}

/// An immutable entry moving `amount` whole coins from `sender` to
/// `receiver`. Amounts may be zero or negative, and sender and receiver may
/// coincide: nothing here validates them.
#[derive(Clone, Debug)]
pub struct Transfer {
    pub sender: String,
    pub receiver: String,
    pub amount: i64,
    /// Seconds since the Unix epoch.
    pub created_at: i64,
}

impl View for Transfer {
    type V = TransferModel;

    open spec fn view(&self) -> TransferModel {
        TransferModel {
            sender: self.sender@,
            receiver: self.receiver@,
            amount: self.amount as int,
            created_at: self.created_at as int,
        }
    }
}

/// The text a transfer contributes to a block digest: sender, receiver,
/// amount and timestamp, in that order, with no separator.
pub open spec fn canonical(t: TransferModel) -> Seq<char> {
    t.sender + t.receiver + signed_decimal(t.amount) + signed_decimal(t.created_at)
}

/// Appends the canonical text of `t` to `out`.
pub fn append_canonical(out: &mut String, t: &Transfer)
    ensures
        final(out)@ == old(out)@ + canonical(t@),
{
    out.append(t.sender.as_str());
    out.append(t.receiver.as_str());
    append_signed(out, t.amount);
    append_signed(out, t.created_at);
    assert(final(out)@ =~= old(out)@ + canonical(t@));
}

impl Transfer {
    /// A transfer stamped with the given time.
    pub fn with_time(sender: String, receiver: String, amount: i64, created_at: i64) -> (r:
        Transfer)
        ensures
            r.sender@ == sender@,
            r.receiver@ == receiver@,
            r.amount == amount,
            r.created_at == created_at,
    {
        Transfer { sender, receiver, amount, created_at }
    }

    /// A transfer stamped with the current wall-clock time.
    pub fn new(sender: String, receiver: String, amount: i64) -> (r: Transfer)
        ensures
            r.sender@ == sender@,
            r.receiver@ == receiver@,
            r.amount == amount,
    {
        Transfer::with_time(sender, receiver, amount, now_seconds())
    }

    /// The canonical text of this transfer, as it enters a block digest.
    pub fn canonical_string(&self) -> (r: String)
        ensures
            r@ == canonical(self@),
    {
        let mut out = String::new();
        append_canonical(&mut out, self);
        assert(out@ =~= canonical(self@));
        out
    }
}

} // verus!
