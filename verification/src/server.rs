//! The front door of the server: which client a request belongs to, whether it is let in,
//! and what is sent back.

use crate::common::{error_response, Error, ErrorResponse, BAD_REQUEST, TOO_MANY_REQUESTS};
use crate::config::ServerConfig;
use crate::gate::{admits, after_admit, Admission, ClientAddr, RequestGate, Token};
use crate::text::{ends_with, strip_suffix};
use vstd::prelude::*;
use vstd::string::StringExecFns;

verus! {

/// The content type of a GIF.
pub const GIF_CONTENT_TYPE: &'static str = "image/gif";

/// What is sent back to a client.
#[derive(Debug, PartialEq, Eq)]
pub enum Reply {
    /// The GIF, to be sent with the content type of GIFs.
    Gif(Vec<u8>),
    /// An error, to be sent as JSON with its status code.
    Failure(ErrorResponse),
}

/// The part of a request's path that holds the tempo: the path without a `.gif` at its
/// end.
pub open spec fn tempo_text(query: Seq<char>) -> Seq<char> {
    if ends_with(query, ".gif"@) {
        query.take(query.len() - ".gif"@.len())
    } else {
        query
    }
}

/// The text that tells a client that it has a request in flight already.
pub open spec fn rate_limit_text() -> Seq<char> {
    "Hey you, behave yourself! We only have one Hat Kid, don't spam requests at her like that. Please wait until your previous GIF arrives."@
}

/// The address that a request is counted under. Behind a reverse proxy it is the address
/// that the proxy names, if it names one that can be read; in every other case it is the
/// address of the peer.
pub open spec fn counted_addr(
    reverse_proxy: bool,
    forwarded: Option<ClientAddr>,
    peer: ClientAddr,
) -> ClientAddr {
    match forwarded {
        Some(addr) if reverse_proxy => addr,
        _ => peer,
    }
}

/// Cuts the tempo out of the path of a request.
pub fn tempo_query(query: &str) -> (tempo: String)
    ensures
        tempo@ == tempo_text(query@),
{
    strip_suffix(query, ".gif")
}

/// The reply to a request whose tempo cannot be read as a number.
pub fn bad_tempo_response(cause: &str) -> (response: ErrorResponse)
    ensures
        response.status == BAD_REQUEST,
        response.body.error@ == "Cannot parse BPM value: "@ + cause@,
{
    error_response(BAD_REQUEST, String::from_str("Cannot parse BPM value: ").concat(cause))
}

/// The reply to a client that has a request in flight already.
pub fn rate_limited_response() -> (response: ErrorResponse)
    ensures
        response.status == TOO_MANY_REQUESTS,
        response.body.error@ == rate_limit_text(),
{
    error_response(
        TOO_MANY_REQUESTS,
        String::from_str(
            "Hey you, behave yourself! We only have one Hat Kid, don't spam requests at her like that. Please wait until your previous GIF arrives.",
        ),
    )
}

/// Picks the address that a request is counted under.
pub fn client_addr(reverse_proxy: bool, forwarded: Option<ClientAddr>, peer: ClientAddr) -> (addr:
    ClientAddr)
    ensures
        addr == counted_addr(reverse_proxy, forwarded, peer),
{
    if reverse_proxy {
        match forwarded {
            Some(addr) => addr,
            None => peer,
        }
    } else {
        peer
    }
}

/// The front door: the request gate and what the configuration says of proxies.
pub struct Server {
    reverse_proxy: bool,
    gate: RequestGate,
}

impl Server {
    /// The addresses that have a request in flight.
    pub closed spec fn waiting(&self) -> Set<ClientAddr> {
        self.gate.waiting()
    }

    pub closed spec fn rate_limiting(&self) -> bool {
        self.gate.rate_limiting()
    }

    pub closed spec fn reverse_proxy(&self) -> bool {
        self.reverse_proxy
    }

    /// A front door with no request in flight.
    pub fn new(config: &ServerConfig) -> (server: Self)
        ensures
            server.waiting() == Set::<ClientAddr>::empty(),
            server.rate_limiting() == config.rate_limiting,
            server.reverse_proxy() == config.reverse_proxy,
    {
        Server { reverse_proxy: config.reverse_proxy, gate: RequestGate::new(config.rate_limiting) }
    }

    /// Receives a request. `unreadable` holds the reason where the tempo could not be read
    /// as a number; such a request is turned away as a bad one and is not counted.
    /// Any other request asks to be let in under its counted address, and is turned away
    /// with the reply for too many requests where it is rejected. A request that is
    /// let in gets the token that `finish` takes back.
    pub fn begin(
        &mut self,
        unreadable: Option<String>,
        forwarded: Option<ClientAddr>,
        peer: ClientAddr,
    ) -> (entry: Result<Token, ErrorResponse>)
        ensures
            final(self).rate_limiting() == old(self).rate_limiting(),
            final(self).reverse_proxy() == old(self).reverse_proxy(),
            match unreadable {
                Some(cause) => {
                    &&& final(self).waiting() == old(self).waiting()
                    &&& entry matches Err(response)
                    &&& response.status == BAD_REQUEST
                    &&& response.body.error@ == "Cannot parse BPM value: "@ + cause@
                },
                None => {
                    let addr = counted_addr(old(self).reverse_proxy(), forwarded, peer);
                    &&& final(self).waiting() == after_admit(
                        old(self).waiting(),
                        old(self).rate_limiting(),
                        addr,
                    )
                    &&& match entry {
                        Ok(token) => token.addr() == addr && admits(
                            old(self).waiting(),
                            old(self).rate_limiting(),
                            addr,
                        ),
                        Err(response) => {
                            &&& !admits(old(self).waiting(), old(self).rate_limiting(), addr)
                            &&& final(self).waiting() == old(self).waiting()
                            &&& response.status == TOO_MANY_REQUESTS
                            &&& response.body.error@ == rate_limit_text()
                        },
                    }
                },
            },
    {
        match unreadable {
            Some(cause) => Err(bad_tempo_response(cause.as_str())),
            None => {
                let addr = client_addr(self.reverse_proxy, forwarded, peer);
                match self.gate.enter(addr) {
                    Admission::Admitted(token) => Ok(token),
                    Admission::Rejected => {
                        proof {
                            assert(old(self).waiting().insert(addr) =~= old(self).waiting());
                        }
                        Err(rate_limited_response())
                    },
                }
            },
        }
    }

    /// Ends a request that was let in: the token is handed back, whatever the
    /// result is, and the result becomes the reply.
    pub fn finish(&mut self, token: Token, result: Result<Vec<u8>, Error>) -> (reply: Reply)
        ensures
            final(self).rate_limiting() == old(self).rate_limiting(),
            final(self).reverse_proxy() == old(self).reverse_proxy(),
            final(self).waiting() == old(self).waiting().remove(token.addr()),
            match result {
                Ok(gif) => reply == Reply::Gif(gif),
                Err(error) => {
                    &&& reply matches Reply::Failure(response)
                    &&& response.status == error.status()
                    &&& response.body.error@ == error.reply_text()
                },
            },
    {
        self.gate.release(token);
        match result {
            Ok(gif) => Reply::Gif(gif),
            Err(error) => Reply::Failure(error.to_response()),
        }
    }
}

} // verus!
