//! Channel endpoints of the worker and the non-blocking receive operations that
//! the loop makes on them.

use vstd::prelude::*;

verus! {

#[verifier::external_type_specification]
#[verifier::external_body]
#[verifier::reject_recursive_types(T)]
pub struct ExReceiver<T>(crossbeam_channel::Receiver<T>);

#[verifier::external_type_specification]
#[verifier::external_body]
#[verifier::reject_recursive_types(T)]
pub struct ExSender<T>(crossbeam_channel::Sender<T>);

/// Relies on `crossbeam_channel::Receiver::try_iter`: it hands out, without
/// blocking, the messages that the channel holds now. Which ones those are depends
/// on other threads, so nothing is stated of them.
#[verifier::external_body]
pub(crate) fn take_available<T>(port: &crossbeam_channel::Receiver<T>) -> (r: Vec<T>) {
    port.try_iter().collect()
}

/// Relies on `crossbeam_channel::Receiver::try_recv`: one message if the channel
/// holds one now, without blocking; an empty or disconnected channel gives `None`.
#[verifier::external_body]
pub(crate) fn try_receive<T>(port: &crossbeam_channel::Receiver<T>) -> (r: Option<T>) {
    port.try_recv().ok()
}

/// Relies on `crossbeam_channel::Sender::send`: hands `msg` to the channel, and
/// fails only when every receiver is gone.
#[verifier::external_body]
fn send_message<T>(sender: &crossbeam_channel::Sender<T>, msg: T) -> (r: Result<(), ()>) {
    sender.send(msg).map_err(|_| ())
}

/// Relies on `Clone` for `crossbeam_channel::Sender`: one more sender on the same
/// channel.
#[verifier::external_body]
fn clone_sender<T>(sender: &crossbeam_channel::Sender<T>) -> (r: crossbeam_channel::Sender<T>) {
    sender.clone()
}

/// A message for a worker, as the worker's own event loop sees it.
pub enum WorkerScriptMsg<M> {
    /// A generic task.
    Common(M),
    /// A message posted to the worker, which its owner handles itself.
    DomMessage { origin: String, data: Vec<u8> },
}

/// What travels on a dedicated worker's task channel.
pub enum DedicatedWorkerScriptMsg<A, M> {
    /// A message, with the address of the worker object that it keeps alive.
    CommonWorker(A, WorkerScriptMsg<M>),
    /// A bare wake-up sentinel.
    WakeUp,
}

/// A message that is valid on the channel but not where a generic task is due.
#[derive(Clone, Copy, Debug, PartialEq, Eq, Structural)]
pub enum ProtocolViolation {
    WakeUp,
    DomMessage,
}

/// Why no generic task was received.
#[derive(Clone, Copy, Debug, PartialEq, Eq, Structural)]
pub enum RecvFailure {
    /// The channel is empty and every sender is gone.
    Disconnected,
    /// A message that breaks the protocol; the worker cannot go on.
    Unexpected(ProtocolViolation),
}

/// The generic task that `msg` carries; a wake-up sentinel or a posted message
/// is a protocol violation.
pub fn common_payload<A, M>(msg: DedicatedWorkerScriptMsg<A, M>) -> (r: Result<M, ProtocolViolation>)
    ensures
        match msg {
            DedicatedWorkerScriptMsg::CommonWorker(_, WorkerScriptMsg::Common(m)) => r == Ok::<
                M,
                ProtocolViolation,
            >(m),
            DedicatedWorkerScriptMsg::CommonWorker(_, WorkerScriptMsg::DomMessage { .. }) => r
                == Err::<M, ProtocolViolation>(ProtocolViolation::DomMessage),
            DedicatedWorkerScriptMsg::WakeUp => r == Err::<M, ProtocolViolation>(
                ProtocolViolation::WakeUp,
            ),
        },
{
    match msg {
        DedicatedWorkerScriptMsg::CommonWorker(_, WorkerScriptMsg::Common(m)) => Ok(m),
        DedicatedWorkerScriptMsg::CommonWorker(_, WorkerScriptMsg::DomMessage { .. }) => Err(
            ProtocolViolation::DomMessage,
        ),
        DedicatedWorkerScriptMsg::WakeUp => Err(ProtocolViolation::WakeUp),
    }
}

/// The generic task of what a blocking receive gave: `None` (every sender gone)
/// is a disconnection, and a message other than a generic task is a protocol
/// violation, after which the worker cannot go on.
pub fn recv_common<A, M>(received: Option<DedicatedWorkerScriptMsg<A, M>>) -> (r: Result<
    M,
    RecvFailure,
>)
    ensures
        match received {
            None => r == Err::<M, RecvFailure>(RecvFailure::Disconnected),
            Some(DedicatedWorkerScriptMsg::CommonWorker(_, WorkerScriptMsg::Common(m))) => r == Ok::<
                M,
                RecvFailure,
            >(m),
            Some(DedicatedWorkerScriptMsg::CommonWorker(_, WorkerScriptMsg::DomMessage { .. })) => r
                == Err::<M, RecvFailure>(RecvFailure::Unexpected(ProtocolViolation::DomMessage)),
            Some(DedicatedWorkerScriptMsg::WakeUp) => r == Err::<M, RecvFailure>(
                RecvFailure::Unexpected(ProtocolViolation::WakeUp),
            ),
        },
{
    match received {
        None => Err(RecvFailure::Disconnected),
        Some(msg) => match common_payload(msg) {
            Ok(m) => Ok(m),
            Err(v) => Err(RecvFailure::Unexpected(v)),
        },
    }
}

/// The message that a worker channel sends for the task `msg`.
pub open spec fn common_message<A, M>(worker: A, msg: M) -> DedicatedWorkerScriptMsg<A, M> {
    DedicatedWorkerScriptMsg::CommonWorker(worker, WorkerScriptMsg::Common(msg))
}

fn wrap_common<A, M>(worker: A, msg: M) -> (r: DedicatedWorkerScriptMsg<A, M>)
    ensures
        r == common_message(worker, msg),
{
    DedicatedWorkerScriptMsg::CommonWorker(worker, WorkerScriptMsg::Common(msg))
}

/// A sender of generic tasks to a worker, which sends the worker's address with
/// each of them and so keeps the worker object alive while it exists.
#[verifier::reject_recursive_types(A)]
#[verifier::reject_recursive_types(M)]
pub struct SendableWorkerScriptChan<A, M> {
    pub sender: crossbeam_channel::Sender<DedicatedWorkerScriptMsg<A, M>>,
    pub worker: A,
}

impl<A: Clone, M> SendableWorkerScriptChan<A, M> {
    /// Sends `msg` as a generic task of the worker; fails once the worker's
    /// receiving end is gone.
    pub fn send(&self, msg: M) -> (r: Result<(), ()>) {
        let m = wrap_common(self.worker.clone(), msg);
        send_message(&self.sender, m)
    }

    /// Another sender to the same worker.
    pub fn as_boxed(&self) -> (r: Box<Self>)
        ensures
            cloned(self.worker, r.worker),
    {
        Box::new(SendableWorkerScriptChan { sender: clone_sender(&self.sender), worker: self.worker.clone() })
    }
}

/// A sender of generic tasks from the worker's own thread to its event loop,
/// which sends the worker's address with each of them.
#[verifier::reject_recursive_types(A)]
#[verifier::reject_recursive_types(M)]
pub struct WorkerThreadWorkerChan<A, M> {
    pub sender: crossbeam_channel::Sender<DedicatedWorkerScriptMsg<A, M>>,
    pub worker: A,
}

impl<A: Clone, M> WorkerThreadWorkerChan<A, M> {
    /// Sends `msg` as a generic task of the worker; fails once the worker's
    /// receiving end is gone.
    pub fn send(&self, msg: M) -> (r: Result<(), ()>) {
        let m = wrap_common(self.worker.clone(), msg);
        send_message(&self.sender, m)
    }

    /// Another sender to the same worker.
    pub fn as_boxed(&self) -> (r: Box<Self>)
        ensures
            cloned(self.worker, r.worker),
    {
        Box::new(WorkerThreadWorkerChan { sender: clone_sender(&self.sender), worker: self.worker.clone() })
    }
}

} // verus!
