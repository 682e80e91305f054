//! Configuration of a P2P session.

use vstd::prelude::*;
use crate::p2p::ice_server::{IceServer, IceServerView, google_stun_urls, stun_view};

verus! {

/// What a session configuration is.
pub struct SessionConfigView {
    pub signalling_server: Seq<char>,
    pub poll_interval_ms: u64,
    pub ice_servers: Seq<IceServerView>,
}

/// The views of a list of ICE servers.
pub open spec fn server_views(v: Seq<IceServer>) -> Seq<IceServerView> {
    v.map_values(|s: IceServer| s@)
}

/// Google's five STUN servers, as views.
pub open spec fn default_servers() -> Seq<IceServerView> {
    Seq::new(5, |i: int| stun_view(google_stun_urls()[i]))
}

/// Configuration for a P2P session.
#[derive(Debug)]
pub struct SessionConfig {
    /// Matchbox signalling server URL.
    pub signalling_server: String,
    /// Polling interval in milliseconds.
    pub poll_interval_ms: u64,
    /// ICE servers for the WebRTC connection.
    pub ice_servers: Vec<IceServer>,
}

impl View for SessionConfig {
    type V = SessionConfigView;

    open spec fn view(&self) -> SessionConfigView {
        SessionConfigView {
            signalling_server: self.signalling_server@,
            poll_interval_ms: self.poll_interval_ms,
            ice_servers: server_views(self.ice_servers@),
        }
    }
}

impl Clone for SessionConfig {
    fn clone(&self) -> (c: Self)
        ensures
            c@ == self@,
    {
        let mut servers: Vec<IceServer> = Vec::new();
        let mut i: usize = 0;
        while i < self.ice_servers.len()
            invariant
                i <= self.ice_servers@.len(),
                server_views(servers@) == server_views(self.ice_servers@).take(i as int),
            decreases self.ice_servers@.len() - i,
        {
            let ghost prev = server_views(servers@);
            let s = self.ice_servers[i].clone();
            servers.push(s);
            proof {
                assert(server_views(servers@) =~= prev.push(self.ice_servers@[i as int]@));
                assert(server_views(self.ice_servers@).take(i + 1) =~= server_views(
                    self.ice_servers@,
                ).take(i as int).push(self.ice_servers@[i as int]@));
            }
            i += 1;
        }
        proof {
            assert(server_views(self.ice_servers@).take(self.ice_servers@.len() as int)
                =~= server_views(self.ice_servers@));
        }
        SessionConfig {
            signalling_server: self.signalling_server.clone(),
            poll_interval_ms: self.poll_interval_ms,
            ice_servers: servers,
        }
    }
}

impl Default for SessionConfig {
    /// The konnektoren signalling server, a 100 ms poll interval and
    /// Google's STUN servers.
    fn default() -> (c: Self)
        ensures
            c@ == (SessionConfigView {
                signalling_server: "wss://match.konnektoren.help"@,
                poll_interval_ms: 100,
                ice_servers: default_servers(),
            }),
    {
        let c = SessionConfig {
            signalling_server: String::from_str("wss://match.konnektoren.help"),
            poll_interval_ms: 100,
            ice_servers: IceServer::default_stun_servers(),
        };
        assert(c@.ice_servers =~= default_servers());
        c
    }
}

impl SessionConfig {
    /// The default configuration with another signalling server.
    pub fn new(signalling_server: String) -> (c: Self)
        ensures
            c@ == (SessionConfigView {
                signalling_server: signalling_server@,
                poll_interval_ms: 100,
                ice_servers: default_servers(),
            }),
    {
        SessionConfig { signalling_server, ..Default::default() }
    }

    /// The configuration with another poll interval.
    pub fn with_poll_interval(self, ms: u64) -> (c: Self)
        ensures
            c@ == (SessionConfigView { poll_interval_ms: ms, ..self@ }),
    {
        SessionConfig { poll_interval_ms: ms, ..self }
    }

    /// The configuration with a STUN server added.
    pub fn with_stun_server(self, url: String) -> (c: Self)
        ensures
            c@ == (SessionConfigView { ice_servers: self@.ice_servers.push(stun_view(url@)), ..self@ }),
    {
        let mut c = self;
        let ghost prev = c@.ice_servers;
        c.ice_servers.push(IceServer::stun(url));
        assert(c@.ice_servers =~= prev.push(stun_view(url@)));
        c
    }

    /// The configuration with a TURN server (with authentication) added.
    pub fn with_turn_server(self, url: String, username: String, credential: String) -> (c: Self)
        ensures
            c@ == (SessionConfigView {
                ice_servers: self@.ice_servers.push(
                    IceServerView {
                        urls: seq![url@],
                        username: Some(username@),
                        credential: Some(credential@),
                    },
                ),
                ..self@
            }),
    {
        let mut c = self;
        let ghost prev = c@.ice_servers;
        let s = IceServer::turn(url, username, credential);
        let ghost sv = s@;
        c.ice_servers.push(s);
        assert(c@.ice_servers =~= prev.push(sv));
        c
    }

    /// The configuration with these ICE servers in place of its own.
    pub fn with_ice_servers(self, ice_servers: Vec<IceServer>) -> (c: Self)
        ensures
            c@ == (SessionConfigView { ice_servers: server_views(ice_servers@), ..self@ }),
    {
        SessionConfig { ice_servers, ..self }
    }

    /// The configuration with these ICE servers added after its own.
    pub fn add_ice_servers(self, ice_servers: Vec<IceServer>) -> (c: Self)
        ensures
            c@ == (SessionConfigView {
                ice_servers: self@.ice_servers + server_views(ice_servers@),
                ..self@
            }),
    {
        let mut c = self;
        let mut more = ice_servers;
        let ghost prev = c@.ice_servers;
        let ghost added = server_views(more@);
        c.ice_servers.append(&mut more);
        assert(c@.ice_servers =~= prev + added);
        c
    }
}

} // verus!
