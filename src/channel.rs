//! A command channel between whoever owns a connection and the parts that
//! ask it for work or watch what it receives.

use crate::codec::{MCString, Short, VarInt};
use crate::packet::DecodedPacket;
use crate::session::ConnectionError;
use std::sync::mpsc::{Receiver, Sender};
use vstd::prelude::*;

verus! {

#[verifier::external_type_specification]
#[verifier::external_body]
#[verifier::reject_recursive_types(T)]
pub struct ExSender<T>(Sender<T>);

#[verifier::external_type_specification]
#[verifier::external_body]
#[verifier::reject_recursive_types(T)]
pub struct ExReceiver<T>(Receiver<T>);

/// A message over the command channel.
#[derive(Debug)]
pub enum NetworkCommand {
    /// The last command was carried out.
    Ack,
    Error(ConnectionError),
    Disconnect,
    /// Log in with this protocol version, port and player name.
    Login(VarInt, Short, MCString),
    Status,
    SendPacket(DecodedPacket),
    ReceivePacket(DecodedPacket),
}

/// The receiving end is gone; the command that could not be sent is
/// handed back.
#[derive(Debug)]
pub struct ChannelClosed(pub NetworkCommand);

/// The two ends a party holds: commands it sends, and commands it receives.
pub struct NetworkChannel {
    pub send: Sender<NetworkCommand>,
    pub recv: Receiver<NetworkCommand>,
}

/// Relies on std::sync::mpsc::Sender::send: when the receiving end is gone
/// the value is not sent and comes back inside the error.
#[verifier::external_body]
fn send_command(sender: &Sender<NetworkCommand>, c: NetworkCommand) -> (r: Result<(), NetworkCommand>)
    ensures
        r matches Err(back) ==> back == c,
{
    sender.send(c).map_err(|e| e.0)
}

impl NetworkChannel {
    /// Asks for `packet` to be sent. On failure the packet comes back.
    pub fn send_packet(&self, packet: DecodedPacket) -> (r: Result<(), ChannelClosed>)
        ensures
            r matches Err(ChannelClosed(c)) ==> c == NetworkCommand::SendPacket(packet),
    {
        match send_command(&self.send, NetworkCommand::SendPacket(packet)) {
            Ok(()) => Ok(()),
            Err(c) => Err(ChannelClosed(c)),
        }
    }
}

} // verus!
