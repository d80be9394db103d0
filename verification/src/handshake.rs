//! The decisions of the agent listener: what a peer's first request leads
//! to, what is written back, and when the accept loop yields a connection.
//!
//! The transport itself stays with the caller, who reads the request, hands
//! it in, writes what it is told to write and reports whether that worked.

use std::marker::PhantomData;
use vstd::prelude::*;

verus! {

/// The most bytes that are read of a peer's request.
pub const HANDSHAKE_BUF_SIZE: usize = 4096;

/// The policy that says who may connect. The listener only hands values on
/// between these three operations and promises nothing of what they return.
pub trait ClusterValidator<REQ> {
    /// Reads a request out of the bytes that a peer sent.
    fn validate_connect_req(&self, req: &[u8]) -> Result<REQ, String>;

    /// Derives the domain that identifies the peer.
    fn generate_domain(&self, req: &REQ) -> Result<String, String>;

    /// The signed answer to a request: to an accepted one with `None`, to a
    /// refused one with the reason.
    fn sign_response_res(&self, m: &REQ, err: Option<String>) -> Vec<u8>;
}

/// Why one connection attempt gave no connection.
#[derive(Debug, Clone, PartialEq, Eq)]
pub enum HandshakeError {
    /// The peer's stream ended before it sent anything.
    NoData,
    /// The request could not be read; the peer is told nothing.
    Invalid(String),
    /// No domain could be derived; the peer was sent the signed reason.
    Rejected(String),
    /// The stream failed while the answer was written.
    Transport,
}

/// What the listener decided on a peer's request.
#[derive(Debug, Clone, PartialEq, Eq)]
pub enum Verdict {
    /// Write `response`, then yield a connection named `domain`.
    Accept { domain: String, response: Vec<u8> },
    /// Write `response`, then give the attempt up with `error`.
    Reject { error: String, response: Vec<u8> },
    /// Write nothing and give the attempt up.
    Abandon(HandshakeError),
}

/// An authenticated agent, known by its domain.
#[derive(Debug, PartialEq, Eq)]
pub struct AgentQuicConnection {
    domain: String,
}

/// What the accept loop met.
#[derive(Debug)]
pub enum Incoming {
    /// The endpoint accepts no more connections.
    EndpointClosed,
    /// A connection came in and its transport could not be set up.
    UpgradeFailed,
    /// A connection came in and its handshake ended thus.
    Attempt(Result<AgentQuicConnection, HandshakeError>),
}

/// What the accept loop does next.
#[derive(Debug)]
pub enum Accepted {
    /// Return this connection.
    Connection(AgentQuicConnection),
    /// Wait for the next incoming connection.
    Retry,
    /// Stop: the endpoint is of no more use.
    Fatal,
}

/// The reason that the signed answer carries: none for a derived domain, the
/// error otherwise.
pub open spec fn rejection_for(domain: Result<String, String>) -> Option<String> {
    match domain {
        Ok(_) => None,
        Err(e) => Some(e),
    }
}

/// The verdict on a request that could be read, given the outcome of the
/// domain's derivation and the signed answer.
pub open spec fn verdict_for(domain: Result<String, String>, response: Vec<u8>) -> Verdict {
    match domain {
        Ok(d) => Verdict::Accept { domain: d, response },
        Err(e) => Verdict::Reject { error: e, response },
    }
}

/// The bytes that a verdict has written to the peer, if any.
pub open spec fn response_for(verdict: Verdict) -> Option<Vec<u8>> {
    match verdict {
        Verdict::Accept { domain, response } => Some(response),
        Verdict::Reject { error, response } => Some(response),
        Verdict::Abandon(_) => None,
    }
}

/// How an attempt ends, given the verdict and whether the answer, if one was
/// due, was written in full.
pub open spec fn conclusion_for(verdict: Verdict, written: bool) -> Result<Seq<char>, HandshakeError> {
    match verdict {
        Verdict::Accept { domain, response } => if written {
            Ok(domain@)
        } else {
            Err(HandshakeError::Transport)
        },
        Verdict::Reject { error, response } => if written {
            Err(HandshakeError::Rejected(error))
        } else {
            Err(HandshakeError::Transport)
        },
        Verdict::Abandon(e) => Err(e),
    }
}

/// The reason to hand to `sign_response_res` after the domain's derivation.
pub fn rejection_of(domain: &Result<String, String>) -> (reason: Option<String>)
    ensures
        reason == rejection_for(*domain),
{
    match domain {
        Ok(_) => None,
        Err(e) => Some(e.clone()),
    }
}

/// The verdict on a request that could be read.
pub fn verdict_of(domain: Result<String, String>, response: Vec<u8>) -> (verdict: Verdict)
    ensures
        verdict == verdict_for(domain, response),
{
    match domain {
        Ok(d) => Verdict::Accept { domain: d, response },
        Err(e) => Verdict::Reject { error: e, response },
    }
}

impl Verdict {
    /// The bytes to write to the peer: the signed answer of an accepted or a
    /// rejected request, nothing for an abandoned attempt.
    pub fn response(&self) -> (bytes: Option<&Vec<u8>>)
        ensures
            match bytes {
                Some(b) => response_for(*self) == Some(*b),
                None => response_for(*self).is_none(),
            },
    {
        match self {
            Verdict::Accept { domain: _, response } => Some(response),
            Verdict::Reject { error: _, response } => Some(response),
            Verdict::Abandon(_) => None,
        }
    }

    /// Ends the attempt. Only an accepted request whose answer was written
    /// gives a connection, under the derived domain.
    pub fn conclude(self, written: bool) -> (end: Result<AgentQuicConnection, HandshakeError>)
        ensures
            match end {
                Ok(conn) => conclusion_for(self, written) == Ok::<Seq<char>, HandshakeError>(conn@),
                Err(e) => conclusion_for(self, written) == Err::<Seq<char>, HandshakeError>(e),
            },
    {
        match self {
            Verdict::Accept { domain, response: _ } => if written {
                Ok(AgentQuicConnection { domain })
            } else {
                Err(HandshakeError::Transport)
            },
            Verdict::Reject { error, response: _ } => if written {
                Err(HandshakeError::Rejected(error))
            } else {
                Err(HandshakeError::Transport)
            },
            Verdict::Abandon(e) => Err(e),
        }
    }
}

impl AgentQuicConnection {
    /// The domain, as a sequence of characters.
    pub closed spec fn view(&self) -> Seq<char> {
        self.domain@
    }

    /// The domain that identifies the agent.
    pub fn domain(&self) -> (name: String)
        ensures
            name@ == self@,
    {
        self.domain.clone()
    }
}

/// What the accept loop does on `event`.
pub open spec fn step_for(event: Incoming) -> Accepted {
    match event {
        Incoming::EndpointClosed => Accepted::Fatal,
        Incoming::UpgradeFailed => Accepted::Retry,
        Incoming::Attempt(Ok(conn)) => Accepted::Connection(conn),
        Incoming::Attempt(Err(_)) => Accepted::Retry,
    }
}

/// The listener's side of the handshake, with the policy it was given.
pub struct AgentQuicListener<VALIDATE: ClusterValidator<REQ>, REQ> {
    cluster_validator: VALIDATE,
    _tmp: PhantomData<REQ>,
}

impl<VALIDATE: ClusterValidator<REQ>, REQ> AgentQuicListener<VALIDATE, REQ> {
    /// The policy that the listener decides by.
    pub closed spec fn validator(&self) -> VALIDATE {
        self.cluster_validator
    }

    /// A listener that decides by `cluster_validator`.
    pub fn new(cluster_validator: VALIDATE) -> (listener: Self)
        ensures
            listener.validator() == cluster_validator,
    {
        AgentQuicListener { cluster_validator, _tmp: PhantomData }
    }

    /// Decides on what a peer sent on its first stream; `None` stands for a
    /// stream that ended with nothing sent. A request that cannot be read is
    /// abandoned unanswered. One that can is answered with what the
    /// validator signed: for the derived domain, or for the reason why none
    /// was derived.
    pub fn process_incoming_conn(&self, received: Option<&[u8]>) -> (verdict: Verdict)
        ensures
            received.is_none() ==> verdict == Verdict::Abandon(HandshakeError::NoData),
            received.is_some() ==> match verdict {
                Verdict::Accept { domain, response } => true,
                Verdict::Reject { error, response } => true,
                Verdict::Abandon(HandshakeError::Invalid(_)) => true,
                Verdict::Abandon(_) => false,
            },
    {
        let buf = match received {
            Some(buf) => buf,
            None => {
                return Verdict::Abandon(HandshakeError::NoData);
            },
        };
        match self.cluster_validator.validate_connect_req(buf) {
            Ok(request) => {
                let domain = self.cluster_validator.generate_domain(&request);
                let reason = rejection_of(&domain);
                let response = self.cluster_validator.sign_response_res(&request, reason);
                verdict_of(domain, response)
            },
            Err(e) => Verdict::Abandon(HandshakeError::Invalid(e)),
        }
    }

    /// One turn of the accept loop: a finished handshake is returned, the
    /// end of the endpoint is fatal, and every other outcome of a single
    /// peer leads to the next incoming connection.
    pub fn recv(&self, event: Incoming) -> (next: Accepted)
        ensures
            next == step_for(event),
    {
        match event {
            Incoming::EndpointClosed => Accepted::Fatal,
            Incoming::UpgradeFailed => Accepted::Retry,
            Incoming::Attempt(Ok(conn)) => Accepted::Connection(conn),
            Incoming::Attempt(Err(_)) => Accepted::Retry,
        }
    }
}

} // verus!
