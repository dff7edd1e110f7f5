use vstd::prelude::*;

verus! {

/// Name of the family of gauges that count the messages a host has received.
pub const RECEIVED_NAME: &'static str = "messages_recv_total";

/// What the family is said to hold.
pub const RECEIVED_HELP: &'static str =
    "total messages received from source by target from last request";

/// The family of gauges that count the messages a host has received, one
/// gauge for each triple of source, target and status. It holds a
/// `prometheus::IntGaugeVec`, a type that is built from private parts of its
/// crate; nothing of its inside is visible to proofs, and the numbers in it
/// change under the hands of whoever reads or resets the registry.
#[verifier::external_body]
pub struct ReceivedMessages {
    family: prometheus::IntGaugeVec,
}

/// Number of labels that a family was made with: the number of label values
/// that it takes to name one of its gauges.
pub uninterp spec fn family_labels(received: ReceivedMessages) -> nat;

/// `prometheus::IntGaugeVec::new` on `prometheus::Opts::new(name, help)`: a
/// family of gauges with the three labels given, or nothing where the crate
/// refuses the names.
#[verifier::external_body]
fn family_new(name: &str, help: &str, first: &str, second: &str, third: &str) -> (r: Option<
    ReceivedMessages,
>)
    ensures
        r matches Some(received) ==> family_labels(received) == 3,
{
    match prometheus::IntGaugeVec::new(prometheus::Opts::new(name, help), &[first, second, third]) {
        Ok(family) => Some(ReceivedMessages { family }),
        Err(_) => None,
    }
}

/// `prometheus::register`: enters the family into the registry of the
/// process. Says whether the registry took it.
#[verifier::external_body]
fn family_register(received: &ReceivedMessages) -> (taken: bool) {
    prometheus::register(Box::new(received.family.clone())).is_ok()
}

/// `MetricVec::get_metric_with_label_values` and, on the gauge that it
/// gives, `GenericGauge::inc`: adds one to the gauge of these three label
/// values. Says whether the family gave a gauge: it gives one, making it
/// where it was not there, exactly when it is handed as many label values as
/// it was made with labels.
#[verifier::external_body]
fn family_inc(received: &ReceivedMessages, source: &str, target: &str, status: &str) -> (counted:
    bool)
    ensures
        counted == (family_labels(*received) == 3),
{
    match received.family.get_metric_with_label_values(&[source, target, status]) {
        Ok(gauge) => {
            gauge.inc();
            true
        },
        Err(_) => false,
    }
}

/// `MetricVec::reset`: forgets every gauge of the family, so that counting
/// starts anew.
#[verifier::external_body]
fn family_reset(received: &ReceivedMessages) {
    received.family.reset()
}

impl ReceivedMessages {
    /// Starts the counting anew, as is done each time the counts have been
    /// read out.
    pub fn reset(&self) {
        family_reset(self)
    }

    /// Makes the family, with the labels `source`, `target` and `status`,
    /// and enters it into the registry of the process. Gives nothing where
    /// the registry holds a family of this name already.
    pub fn new() -> (r: Option<ReceivedMessages>)
        ensures
            r matches Some(received) ==> family_labels(received) == 3,
    {
        match family_new(RECEIVED_NAME, RECEIVED_HELP, "source", "target", "status") {
            Some(received) => {
                if family_register(&received) {
                    Some(received)
                } else {
                    None
                }
            },
            None => None,
        }
    }
}

/// Counts one message that `target` received from `from`, with the status
/// under which it was taken in. Says whether it was counted: it is, where
/// the family takes a source, a target and a status, as every family does
/// that [`ReceivedMessages::new`] has made.
pub fn inc_received_messages(
    received: &ReceivedMessages,
    from: String,
    target: String,
    status: String,
) -> (counted: bool)
    ensures
        counted == (family_labels(*received) == 3),
{
    family_inc(received, from.as_str(), target.as_str(), status.as_str())
}

} // verus!
