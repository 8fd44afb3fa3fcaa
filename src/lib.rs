//! WHOIS querying and parsing.
//!
//! The client follows one registry-to-registrar referral and hands back the
//! final response text; the parser turns that text into a typed record.
//!
//! Network round trips are not made here: [`Whois::start`] names the first
//! query, and [`Whois::step`] takes the bytes a round trip produced and
//! decides what happens next.
use vstd::prelude::*;
use vstd::utf8::{decode_first_scalar, decode_utf8, pop_first_scalar, valid_utf8};

pub mod datetime;
pub mod errors;
pub mod parser;
pub mod text;

use crate::errors::WhoisError;
use crate::text::{
    chars_of, find_from, find_seq_from, from_utf8, index_from, index_of_from, slice_of, string_of,
    trim, trimmed,
};

verus! {

/// Configuration for a WHOIS lookup: the server to ask first, as `host:port`,
/// and the domain to look up.
#[derive(Clone, Copy)]
pub struct WhoisOpt {
    pub whois_server: &'static str,
    pub domain2lookup: &'static str,
}

/// A WHOIS client for one configured target.
#[derive(Clone, Copy)]
pub struct Whois {
    target: WhoisOpt,
}

/// Which round trip a reply answers.
#[derive(Clone, Copy, Debug, PartialEq, Eq, Structural)]
pub enum Hop {
    /// The query sent to the configured server.
    Registry,
    /// The query sent to the server named by a referral.
    Referred,
}

/// What the caller has to do next.
pub enum Action {
    /// Send `domain` to `authority` (`host:port`), then hand the reply to
    /// [`Whois::step`] together with `hop`.
    Query { authority: String, domain: String, hop: Hop },
    /// Resolution is over, with the final response text or an error.
    Finish(Result<String, WhoisError>),
}

pub enum ActionView {
    Query { authority: Seq<char>, domain: Seq<char>, hop: Hop },
    Finish(Result<Seq<char>, WhoisError>),
}

impl View for Action {
    type V = ActionView;

    open spec fn view(&self) -> ActionView {
        match self {
            Action::Query { authority, domain, hop } => ActionView::Query {
                authority: authority@,
                domain: domain@,
                hop: *hop,
            },
            Action::Finish(Ok(s)) => ActionView::Finish(Ok(s@)),
            Action::Finish(Err(e)) => ActionView::Finish(Err(*e)),
        }
    }
}

/// The marker that introduces a referral line.
pub open spec fn referral_marker() -> Seq<char> {
    seq!['w', 'h', 'o', 'i', 's', ':']
}

/// The referral a response text carries: `Ok(None)` when it has no marker;
/// otherwise the trimmed text between the first marker and the next newline,
/// or `MalformedReferral` when no newline follows.
pub open spec fn referral_of(text: Seq<char>) -> Result<Option<Seq<char>>, WhoisError> {
    match find_from(text, referral_marker(), 0) {
        None => Ok(None),
        Some(i) => match index_from(text, '\n', i + 6) {
            None => Err(WhoisError::MalformedReferral),
            Some(j) => Ok(Some(trim(text.subrange(i + 6, j)))),
        },
    }
}

/// The port segment of an authority: what follows its first `:`, if any.
pub open spec fn port_of(authority: Seq<char>) -> Option<Seq<char>> {
    match index_from(authority, ':', 0) {
        None => None,
        Some(k) => Some(authority.subrange(k + 1, authority.len() as int)),
    }
}

/// The text a round trip yields: `None` stands for a failed round trip.
pub open spec fn reply_text(reply: Option<Seq<u8>>) -> Result<Seq<char>, WhoisError> {
    match reply {
        None => Err(WhoisError::NoTransport),
        Some(b) => if b.len() == 0 {
            Err(WhoisError::EmptyResponse)
        } else if !valid_utf8(b) {
            Err(WhoisError::InvalidEncoding)
        } else {
            Ok(decode_utf8(b))
        },
    }
}

pub open spec fn reply_view(reply: Option<Vec<u8>>) -> Option<Seq<u8>> {
    match reply {
        None => None,
        Some(b) => Some(b@),
    }
}

/// What follows a reply to the round trip `hop` of a lookup of `domain`
/// that started at `server`.
pub open spec fn next_action(
    server: Seq<char>,
    domain: Seq<char>,
    hop: Hop,
    reply: Option<Seq<u8>>,
) -> ActionView {
    match reply_text(reply) {
        Err(e) => ActionView::Finish(Err(e)),
        Ok(text) => match hop {
            Hop::Referred => ActionView::Finish(Ok(text)),
            Hop::Registry => match referral_of(text) {
                Err(e) => ActionView::Finish(Err(e)),
                Ok(None) => ActionView::Finish(Ok(text)),
                Ok(Some(host)) => match port_of(server) {
                    None => ActionView::Finish(Err(WhoisError::MissingPort)),
                    Some(port) => ActionView::Query {
                        authority: host + seq![':'] + port,
                        domain,
                        hop: Hop::Referred,
                    },
                },
            },
        },
    }
}

/// The outcome of a whole lookup, given the reply to the first round trip and
/// the reply to the second, should one be made.
pub open spec fn resolution(
    server: Seq<char>,
    domain: Seq<char>,
    first: Option<Seq<u8>>,
    second: Option<Seq<u8>>,
) -> Result<Seq<char>, WhoisError> {
    match next_action(server, domain, Hop::Registry, first) {
        ActionView::Finish(r) => r,
        ActionView::Query { .. } => reply_text(second),
    }
}

/// A first reply without a referral marker is the final answer, unchanged,
/// and no second round trip is made.
pub proof fn lemma_no_referral_is_final(
    server: Seq<char>,
    domain: Seq<char>,
    first: Seq<u8>,
    second: Option<Seq<u8>>,
)
    requires
        first.len() > 0,
        valid_utf8(first),
        find_from(decode_utf8(first), referral_marker(), 0) is None,
    ensures
        next_action(server, domain, Hop::Registry, Some(first)) == ActionView::Finish(
            Ok(decode_utf8(first)),
        ),
        resolution(server, domain, Some(first), second) == Ok::<Seq<char>, WhoisError>(
            decode_utf8(first),
        ),
{
}

/// A referral cannot be followed from a server configured without a port:
/// the lookup fails with `MissingPort`, whatever the second reply would be.
pub proof fn lemma_referral_needs_port(
    server: Seq<char>,
    domain: Seq<char>,
    first: Seq<u8>,
    second: Option<Seq<u8>>,
)
    requires
        port_of(server) is None,
        first.len() > 0,
        valid_utf8(first),
        referral_of(decode_utf8(first)) matches Ok(Some(_)),
    ensures
        resolution(server, domain, Some(first), second) == Err::<Seq<char>, WhoisError>(
            WhoisError::MissingPort,
        ),
{
}

/// An empty reply, to either round trip, ends the lookup with `EmptyResponse`;
/// a reply that is a lone newline is a valid, final text.
pub proof fn lemma_empty_reply(server: Seq<char>, domain: Seq<char>, hop: Hop)
    ensures
        next_action(server, domain, hop, Some(Seq::<u8>::empty())) == ActionView::Finish(
            Err(WhoisError::EmptyResponse),
        ),
        forall|second: Option<Seq<u8>>|
            resolution(server, domain, Some(Seq::<u8>::empty()), second) == Err::<
                Seq<char>,
                WhoisError,
            >(WhoisError::EmptyResponse),
        next_action(server, domain, hop, Some(seq![10u8])) == ActionView::Finish(
            Ok(seq!['\n']),
        ),
{
    let nl = seq![10u8];
    reveal_with_fuel(valid_utf8, 2);
    reveal_with_fuel(decode_utf8, 2);
    assert((10u8 & 0x7f) == 10u8) by (bit_vector);
    assert(decode_first_scalar(nl) == 10u32);
    assert(10u32 as char == '\n');
    assert(pop_first_scalar(nl) =~= Seq::<u8>::empty());
    assert(valid_utf8(nl));
    assert(decode_utf8(nl) =~= seq!['\n']);
    let text = decode_utf8(nl);
    assert(find_from(text, referral_marker(), 0) is None);
}

/// Turns the reply of a round trip into text.
pub fn decode_reply(reply: Option<Vec<u8>>) -> (r: Result<String, WhoisError>)
    ensures
        match r {
            Ok(s) => reply_text(reply_view(reply)) == Ok::<Seq<char>, WhoisError>(s@),
            Err(e) => reply_text(reply_view(reply)) == Err::<Seq<char>, WhoisError>(e),
        },
{
    match reply {
        None => Err(WhoisError::NoTransport),
        Some(b) => {
            if b.len() == 0 {
                Err(WhoisError::EmptyResponse)
            } else {
                match from_utf8(b) {
                    Some(s) => Ok(s),
                    None => Err(WhoisError::InvalidEncoding),
                }
            }
        },
    }
}

/// Finds the referral host in a response text.
pub fn referral_host(text: &[char]) -> (r: Result<Option<Vec<char>>, WhoisError>)
    ensures
        match r {
            Ok(None) => referral_of(text@) == Ok::<Option<Seq<char>>, WhoisError>(None),
            Ok(Some(h)) => referral_of(text@) == Ok::<Option<Seq<char>>, WhoisError>(Some(h@)),
            Err(e) => referral_of(text@) == Err::<Option<Seq<char>>, WhoisError>(e),
        },
{
    let marker: Vec<char> = vec!['w', 'h', 'o', 'i', 's', ':'];
    assert(marker@ =~= referral_marker());
    match find_seq_from(text, marker.as_slice(), 0) {
        None => Ok(None),
        Some(i) => {
            let start = i + 6;
            match index_of_from(text, '\n', start) {
                None => Err(WhoisError::MalformedReferral),
                Some(j) => {
                    let raw = slice_of(text, start, j);
                    Ok(Some(trimmed(raw.as_slice())))
                },
            }
        },
    }
}

impl Whois {
    /// The configuration this client was made with.
    pub closed spec fn opt(&self) -> WhoisOpt {
        self.target
    }

    /// Creates a client for the given target.
    pub fn new(opt: WhoisOpt) -> (r: Whois)
        ensures
            r.opt() == opt,
    {
        Whois { target: opt }
    }

    /// The configured target.
    pub fn target(&self) -> (r: &WhoisOpt)
        ensures
            *r == self.opt(),
    {
        &self.target
    }

    /// The first query: the domain, sent to the configured server.
    pub fn start(&self) -> (a: Action)
        ensures
            a@ == (ActionView::Query {
                authority: self.opt().whois_server@,
                domain: self.opt().domain2lookup@,
                hop: Hop::Registry,
            }),
    {
        Action::Query {
            authority: self.target.whois_server.to_owned(),
            domain: self.target.domain2lookup.to_owned(),
            hop: Hop::Registry,
        }
    }

    /// Decides what follows the reply to round trip `hop`; `None` stands for a
    /// round trip that failed.
    ///
    /// A reply from the configured server that names another server is
    /// followed once, on the configured port; any other reply ends the lookup.
    pub fn step(&self, hop: Hop, reply: Option<Vec<u8>>) -> (a: Action)
        ensures
            a@ == next_action(
                self.opt().whois_server@,
                self.opt().domain2lookup@,
                hop,
                reply_view(reply),
            ),
    {
        let text = match decode_reply(reply) {
            Err(e) => return Action::Finish(Err(e)),
            Ok(t) => t,
        };
        match hop {
            Hop::Referred => Action::Finish(Ok(text)),
            Hop::Registry => {
                let chars = chars_of(text.as_str());
                match referral_host(chars.as_slice()) {
                    Err(e) => Action::Finish(Err(e)),
                    Ok(None) => Action::Finish(Ok(text)),
                    Ok(Some(host)) => {
                        let server = chars_of(self.target.whois_server);
                        match index_of_from(server.as_slice(), ':', 0) {
                            None => Action::Finish(Err(WhoisError::MissingPort)),
                            Some(k) => {
                                let port = slice_of(server.as_slice(), k + 1, server.len());
                                let ghost host_view = host@;
                                let mut authority = host;
                                authority.push(':');
                                let ghost with_colon = authority@;
                                let mut i: usize = 0;
                                while i < port.len()
                                    invariant
                                        i <= port.len(),
                                        authority@ == with_colon + port@.subrange(0, i as int),
                                    decreases port.len() - i,
                                {
                                    authority.push(port[i]);
                                    i = i + 1;
                                    assert(authority@ =~= with_colon + port@.subrange(0, i as int));
                                }
                                assert(port@.subrange(0, port.len() as int) =~= port@);
                                assert(authority@ =~= host_view + seq![':'] + port@);
                                Action::Query {
                                    authority: string_of(authority.as_slice()),
                                    domain: self.target.domain2lookup.to_owned(),
                                    hop: Hop::Referred,
                                }
                            },
                        }
                    },
                }
            },
        }
    }
}

} // verus!
