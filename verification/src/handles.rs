//! The handles that the relay keeps of what runs beside it: of a live
//! connection, the sending half of its outbound queue and the token that shuts
//! it down; of a task that waits for a snapshot, the sending half of its reply.
//! The relay's rules carry these handles from place to place and never look
//! inside them.

use tokio::sync::mpsc::Sender;
use tokio_util::sync::CancellationToken;
use vstd::prelude::*;

verus! {

/// `tokio::sync::mpsc::Sender`, the sending half of a bounded queue. Nothing is
/// said of what a sender holds; as a value it stands for its queue.
#[verifier::external_type_specification]
#[verifier::external_body]
#[verifier::reject_recursive_types(T)]
pub struct ExSender<T>(tokio::sync::mpsc::Sender<T>);

/// `tokio_util::sync::CancellationToken`. Nothing is said of what a token
/// holds; as a value it stands for the request it signals.
#[verifier::external_type_specification]
#[verifier::external_body]
pub struct ExCancellationToken(tokio_util::sync::CancellationToken);

/// `tokio::sync::oneshot::Sender`, the sending half of a single reply. Nothing
/// is said of what it holds; as a value it stands for whoever waits.
#[verifier::external_type_specification]
#[verifier::external_body]
#[verifier::reject_recursive_types(T)]
pub struct ExReplySender<T>(tokio::sync::oneshot::Sender<T>);

/// `Sender::clone`: the clone sends to the same queue.
pub assume_specification<T>[ <Sender<T> as Clone>::clone ](tx: &Sender<T>) -> (res: Sender<T>)
    ensures
        res == *tx,
;

/// `CancellationToken::clone`: the clone is cancelled whenever the token is, and
/// the token whenever the clone is.
pub assume_specification[ <CancellationToken as Clone>::clone ](
    token: &CancellationToken,
) -> (res: CancellationToken)
    ensures
        res == *token,
;

/// `CancellationToken::new`: a token that is not cancelled. Which one it is
/// cannot be told from the arguments, so nothing is said of it.
pub assume_specification[ CancellationToken::new ]() -> (res: CancellationToken);

} // verus!
