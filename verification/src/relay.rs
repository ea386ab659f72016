//! The routing of messages between the two ends of a transport: what
//! becomes of each message that one end hands to the loop that serves it.

use vstd::prelude::*;

verus! {

/// A message on the wire.
#[derive(Debug)]
pub enum RpcMessage<Req, Notif, Resp, E> {
    Request(u64, Req),
    Response(u64, Resp),
    Notification(Notif),
    Error(u64, E),
}

/// What the core asks its writer loop to do.
#[derive(Debug)]
pub enum CoreRpc<Req, Notif> {
    Request(u64, Req),
    Notification(Notif),
    Shutdown,
}

/// What the reader loop does with a message that came in.
#[derive(Debug)]
pub enum Inbound<Req, Notif, Resp, E> {
    /// Hand the request to the handler and send its answer back under `id`.
    Handle { id: u64, request: Req },
    /// Hand the notification to the handler.
    Notify(Notif),
    /// Complete the pending request `id` of the core.
    Complete { id: u64, result: Result<Resp, E> },
}

/// The message that the writer loop sends for `msg`; `None` where the loop
/// ends.
pub fn outgoing<Req, Notif, Resp, E>(msg: CoreRpc<Req, Notif>) -> (r: Option<
    RpcMessage<Req, Notif, Resp, E>,
>)
    ensures
        r == (match msg {
            CoreRpc::Request(id, rpc) => Some(RpcMessage::<Req, Notif, Resp, E>::Request(id, rpc)),
            CoreRpc::Notification(rpc) => Some(
                RpcMessage::<Req, Notif, Resp, E>::Notification(rpc),
            ),
            CoreRpc::Shutdown => None,
        }),
{
    match msg {
        CoreRpc::Request(id, rpc) => Some(RpcMessage::Request(id, rpc)),
        CoreRpc::Notification(rpc) => Some(RpcMessage::Notification(rpc)),
        CoreRpc::Shutdown => None,
    }
}

/// What is to be done with a message that came in.
pub fn incoming<Req, Notif, Resp, E>(msg: RpcMessage<Req, Notif, Resp, E>) -> (r: Inbound<
    Req,
    Notif,
    Resp,
    E,
>)
    ensures
        r == (match msg {
            RpcMessage::Request(id, request) => Inbound::Handle { id, request },
            RpcMessage::Notification(n) => Inbound::Notify(n),
            RpcMessage::Response(id, resp) => Inbound::Complete {
                id,
                result: Ok::<Resp, E>(resp),
            },
            RpcMessage::Error(id, err) => Inbound::Complete { id, result: Err::<Resp, E>(err) },
        }),
{
    match msg {
        RpcMessage::Request(id, request) => Inbound::Handle { id, request },
        RpcMessage::Notification(n) => Inbound::Notify(n),
        RpcMessage::Response(id, resp) => Inbound::Complete { id, result: Ok(resp) },
        RpcMessage::Error(id, err) => Inbound::Complete { id, result: Err(err) },
    }
}

/// The message that answers request `id` with what its handler returned.
pub fn answer<Req, Notif, Resp, E>(id: u64, result: Result<Resp, E>) -> (r: RpcMessage<
    Req,
    Notif,
    Resp,
    E,
>)
    ensures
        r == (match result {
            Ok(resp) => RpcMessage::<Req, Notif, Resp, E>::Response(id, resp),
            Err(e) => RpcMessage::<Req, Notif, Resp, E>::Error(id, e),
        }),
{
    match result {
        Ok(resp) => RpcMessage::Response(id, resp),
        Err(e) => RpcMessage::Error(id, e),
    }
}

} // verus!
