//! The client handle's pure half: translating caller intent into typed
//! requests, and typed responses back into caller results. The awaiting
//! itself happens outside, around the connection manager.

use vstd::prelude::*;

verus! {

use crate::codec::{Request, Response, ZkError};
use crate::error;
use crate::types::{Acl, CreateMode, Stat};
use crate::wire::WriteTo;
use vstd::string::{StringSliceAdditionalSpecFns, StringExecFns};

/// A failure that is not an operation-specific refusal: the reply had the
/// wrong shape, or carried an error code the operation has no typed face
/// for. Both poison the call, not the connection.
#[derive(Clone, Copy, Debug, PartialEq, Eq, Structural)]
pub enum ClientError {
    /// The reply decoded to a response of the wrong kind.
    UnexpectedResponse,
    /// A protocol error this operation does not map.
    Server(ZkError),
}

/// The first handshake of a fresh session: all fields zero, no prior
/// session to resume.
pub fn handshake_request() -> (req: Request)
    ensures
        req matches Request::Connect {
            protocol_version,
            last_zxid_seen,
            timeout,
            session_id,
            passwd,
            read_only,
        } && {
            &&& protocol_version == 0
            &&& last_zxid_seen == 0
            &&& timeout == 0
            &&& session_id == 0
            &&& passwd@ == Seq::<u8>::empty()
            &&& read_only == false
        },
        req.wf(),
{
    Request::Connect {
        protocol_version: 0,
        last_zxid_seen: 0,
        timeout: 0,
        session_id: 0,
        passwd: Vec::new(),
        read_only: false,
    }
}

pub fn create_request(path: &str, data: Vec<u8>, acl: Vec<Acl>, mode: CreateMode) -> (req: Request)
    requires
        path.spec_bytes().len() <= i32::MAX,
        data@.len() <= i32::MAX,
        acl.wire_wf(),
    ensures
        req matches Request::Create { path: p, data: d, acl: a, mode: m } && {
            &&& p@ == path@
            &&& d == data
            &&& a == acl
            &&& m == mode
        },
        req.wf(),
{
    Request::Create { path: String::from_str(path), data, acl, mode }
}

pub fn exists_request(path: &str, watch: bool) -> (req: Request)
    requires
        path.spec_bytes().len() <= i32::MAX,
    ensures
        req matches Request::Exists { path: p, watch: w } && {
            &&& p@ == path@
            &&& w == watch
        },
        req.wf(),
{
    Request::Exists { path: String::from_str(path), watch }
}

/// Without an expected version the delete is unconditional: the wire
/// carries -1.
pub fn delete_request(path: &str, version: Option<i32>) -> (req: Request)
    requires
        path.spec_bytes().len() <= i32::MAX,
    ensures
        req matches Request::Delete { path: p, version: v } && {
            &&& p@ == path@
            &&& v == (match version {
                Some(x) => x,
                None => -1i32,
            })
        },
        req.wf(),
{
    let v = match version {
        Some(x) => x,
        None => -1i32,
    };
    Request::Delete { path: String::from_str(path), version: v }
}

/// Interprets the reply to a create: the created path on success; a typed
/// refusal for the four codes a create can draw; anything else poisons the
/// call.
pub fn create_result(r: Result<Response, ZkError>) -> (res: Result<
    Result<String, error::Create>,
    ClientError,
>)
    ensures
        match r {
            Ok(Response::Path(s)) => res matches Ok(Ok(p)) && p == s,
            Ok(_) => res == Err::<Result<String, error::Create>, ClientError>(
                ClientError::UnexpectedResponse,
            ),
            Err(ZkError::NoNode) => res == Ok::<Result<String, error::Create>, ClientError>(
                Err(error::Create::NoNode),
            ),
            Err(ZkError::NodeExists) => res == Ok::<Result<String, error::Create>, ClientError>(
                Err(error::Create::NodeExists),
            ),
            Err(ZkError::InvalidACL) => res == Ok::<Result<String, error::Create>, ClientError>(
                Err(error::Create::InvalidAcl),
            ),
            Err(ZkError::NoChildrenForEphemerals) => res == Ok::<
                Result<String, error::Create>,
                ClientError,
            >(Err(error::Create::NoChildrenForEphemerals)),
            Err(e) => res == Err::<Result<String, error::Create>, ClientError>(
                ClientError::Server(e),
            ),
        },
{
    match r {
        Ok(Response::Path(s)) => Ok(Ok(s)),
        Ok(_) => Err(ClientError::UnexpectedResponse),
        Err(ZkError::NoNode) => Ok(Err(error::Create::NoNode)),
        Err(ZkError::NodeExists) => Ok(Err(error::Create::NodeExists)),
        Err(ZkError::InvalidACL) => Ok(Err(error::Create::InvalidAcl)),
        Err(ZkError::NoChildrenForEphemerals) => Ok(Err(error::Create::NoChildrenForEphemerals)),
        Err(e) => Err(ClientError::Server(e)),
    }
}

/// Interprets the reply to an exists: the node's metadata when it is
/// there, nothing when it is not, and a poisoned call otherwise.
pub fn exists_result(r: Result<Response, ZkError>) -> (res: Result<Option<Stat>, ClientError>)
    ensures
        match r {
            Ok(Response::Exists { stat }) => res == Ok::<Option<Stat>, ClientError>(Some(stat)),
            Ok(_) => res == Err::<Option<Stat>, ClientError>(ClientError::UnexpectedResponse),
            Err(ZkError::NoNode) => res == Ok::<Option<Stat>, ClientError>(None),
            Err(e) => res == Err::<Option<Stat>, ClientError>(ClientError::Server(e)),
        },
{
    match r {
        Ok(Response::Exists { stat }) => Ok(Some(stat)),
        Ok(_) => Err(ClientError::UnexpectedResponse),
        Err(ZkError::NoNode) => Ok(None),
        Err(e) => Err(ClientError::Server(e)),
    }
}

/// Interprets the reply to a delete. A version refusal reports the version
/// the caller expected, as sent on the wire.
pub fn delete_result(r: Result<Response, ZkError>, expected_version: i32) -> (res: Result<
    Result<(), error::Delete>,
    ClientError,
>)
    ensures
        match r {
            Ok(Response::Empty) => res == Ok::<Result<(), error::Delete>, ClientError>(Ok(())),
            Ok(_) => res == Err::<Result<(), error::Delete>, ClientError>(
                ClientError::UnexpectedResponse,
            ),
            Err(ZkError::NoNode) => res == Ok::<Result<(), error::Delete>, ClientError>(
                Err(error::Delete::NoNode),
            ),
            Err(ZkError::NotEmpty) => res == Ok::<Result<(), error::Delete>, ClientError>(
                Err(error::Delete::NotEmpty),
            ),
            Err(ZkError::BadVersion) => res == Ok::<Result<(), error::Delete>, ClientError>(
                Err(error::Delete::BadVersion { expected: expected_version }),
            ),
            Err(e) => res == Err::<Result<(), error::Delete>, ClientError>(ClientError::Server(e)),
        },
{
    match r {
        Ok(Response::Empty) => Ok(Ok(())),
        Ok(_) => Err(ClientError::UnexpectedResponse),
        Err(ZkError::NoNode) => Ok(Err(error::Delete::NoNode)),
        Err(ZkError::NotEmpty) => Ok(Err(error::Delete::NotEmpty)),
        Err(ZkError::BadVersion) => Ok(Err(error::Delete::BadVersion { expected: expected_version })),
        Err(e) => Err(ClientError::Server(e)),
    }
}

} // verus!
