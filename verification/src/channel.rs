use vstd::prelude::*;
use std::sync::mpsc::Sender;

verus! {

/// The sending half of a queue between two tasks of one host. Nothing of its
/// inside is visible to proofs.
#[verifier::external_type_specification]
#[verifier::external_body]
#[verifier::reject_recursive_types(T)]
pub struct ExSender<T>(Sender<T>);

/// `std::sync::mpsc::Sender::send`: enqueues `value` unless the receiving half
/// is gone. Whether it is gone is decided by the other task, so nothing says
/// which outcome comes; on refusal the very value that was offered is handed
/// back.
#[verifier::external_body]
pub(crate) fn hand_over<T>(tx: &Sender<T>, value: T) -> (r: Result<(), T>)
    ensures
        r matches Err(back) ==> back == value,
{
    match tx.send(value) {
        Ok(()) => Ok(()),
        Err(refused) => Err(refused.0),
    }
}

} // verus!
