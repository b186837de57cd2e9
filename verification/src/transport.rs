//! The transport channel and the RPC client, both taken from tonic. Nothing
//! in this file is proved: each item states what is assumed of tonic's code.

use tonic::client::Grpc;
use tonic::transport::Channel;
use vstd::prelude::*;

verus! {

/// `tonic::transport::Channel`, the transport channel to the remote service.
/// Opaque.
#[verifier::external_type_specification]
#[verifier::external_body]
pub struct ExChannel(Channel);

/// `tonic::client::Grpc`, the RPC client over a transport. Opaque.
#[verifier::external_type_specification]
#[verifier::external_body]
#[verifier::reject_recursive_types(T)]
pub struct ExGrpc<T>(Grpc<T>);

/// Calls `clone` of `tonic::transport::Channel`, which makes another handle
/// to the same transport. Nothing is claimed of the handle.
#[verifier::external_body]
pub(crate) fn clone_channel(channel: &Channel) -> (cloned: Channel) {
    channel.clone()
}

/// Calls `tonic::client::Grpc::new`, which makes a client over `channel`.
/// Nothing is claimed of the client.
#[verifier::external_body]
pub(crate) fn client_over(channel: Channel) -> (client: Grpc<Channel>) {
    Grpc::new(channel)
}

/// Calls `clone` of `tonic::client::Grpc`, which makes a second client over
/// the same transport with the same settings. Nothing is claimed of the
/// clone.
#[verifier::external_body]
pub(crate) fn clone_client(client: &Grpc<Channel>) -> (cloned: Grpc<Channel>) {
    client.clone()
}

} // verus!
