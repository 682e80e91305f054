//! ICE server configurations for WebRTC.

use vstd::prelude::*;

verus! {

/// What an ICE server configuration is: its URLs and optional credentials.
pub struct IceServerView {
    pub urls: Seq<Seq<char>>,
    pub username: Option<Seq<char>>,
    pub credential: Option<Seq<char>>,
}

/// The texts of an optional string.
pub open spec fn opt_text(s: Option<String>) -> Option<Seq<char>> {
    match s {
        Some(s) => Some(s@),
        None => None,
    }
}

/// ICE server configuration for WebRTC.
#[derive(Debug, PartialEq)]
pub struct IceServer {
    /// Server URLs (several for failover).
    pub urls: Vec<String>,
    /// Username for authentication (required for TURN).
    pub username: Option<String>,
    /// Credential for authentication (required for TURN).
    pub credential: Option<String>,
}

impl View for IceServer {
    type V = IceServerView;

    open spec fn view(&self) -> IceServerView {
        IceServerView {
            urls: self.urls@.map_values(|u: String| u@),
            username: opt_text(self.username),
            credential: opt_text(self.credential),
        }
    }
}

/// A copy of a list of texts.
pub fn copy_strings(v: &Vec<String>) -> (r: Vec<String>)
    ensures
        r@.map_values(|u: String| u@) == v@.map_values(|u: String| u@),
{
    let mut r: Vec<String> = Vec::new();
    let mut i: usize = 0;
    while i < v.len()
        invariant
            i <= v@.len(),
            r@.map_values(|u: String| u@) == v@.map_values(|u: String| u@).take(i as int),
        decreases v.len() - i,
    {
        let ghost prev = r@.map_values(|u: String| u@);
        r.push(v[i].clone());
        proof {
            assert(r@.map_values(|u: String| u@) =~= prev.push(v@[i as int]@));
            assert(v@.map_values(|u: String| u@).take(i + 1) =~= v@.map_values(|u: String| u@).take(
                i as int,
            ).push(v@[i as int]@));
        }
        i += 1;
    }
    proof {
        assert(v@.map_values(|u: String| u@).take(v@.len() as int) =~= v@.map_values(|u: String| u@));
    }
    r
}

fn copy_opt(s: &Option<String>) -> (r: Option<String>)
    ensures
        opt_text(r) == opt_text(*s),
{
    match s {
        Some(s) => Some(s.clone()),
        None => None,
    }
}

impl Clone for IceServer {
    fn clone(&self) -> (s: Self)
        ensures
            s@ == self@,
    {
        IceServer {
            urls: copy_strings(&self.urls),
            username: copy_opt(&self.username),
            credential: copy_opt(&self.credential),
        }
    }
}

/// The five Google STUN servers, as their URLs.
pub open spec fn google_stun_urls() -> Seq<Seq<char>> {
    seq![
        "stun:stun.l.google.com:19302"@,
        "stun:stun1.l.google.com:19302"@,
        "stun:stun2.l.google.com:19302"@,
        "stun:stun3.l.google.com:19302"@,
        "stun:stun4.l.google.com:19302"@,
    ]
}

/// A STUN server at `url`, without credentials.
pub open spec fn stun_view(url: Seq<char>) -> IceServerView {
    IceServerView { urls: seq![url], username: None, credential: None }
}

impl IceServer {
    /// A STUN server configuration.
    pub fn stun(url: String) -> (s: Self)
        ensures
            s@ == stun_view(url@),
    {
        let mut urls: Vec<String> = Vec::new();
        urls.push(url);
        let s = IceServer { urls, username: None, credential: None };
        assert(s@.urls =~= seq![url@]);
        s
    }

    /// A TURN server configuration with authentication.
    pub fn turn(url: String, username: String, credential: String) -> (s: Self)
        ensures
            s@ == (IceServerView {
                urls: seq![url@],
                username: Some(username@),
                credential: Some(credential@),
            }),
    {
        let mut urls: Vec<String> = Vec::new();
        urls.push(url);
        let s = IceServer { urls, username: Some(username), credential: Some(credential) };
        assert(s@.urls =~= seq![url@]);
        s
    }

    /// A configuration with several URLs (for failover).
    pub fn from_urls(urls: Vec<String>) -> (s: Self)
        ensures
            s@ == (IceServerView {
                urls: urls@.map_values(|u: String| u@),
                username: None,
                credential: None,
            }),
    {
        IceServer { urls, username: None, credential: None }
    }

    /// The configuration with authentication added.
    pub fn with_auth(self, username: String, credential: String) -> (s: Self)
        ensures
            s@ == (IceServerView {
                username: Some(username@),
                credential: Some(credential@),
                ..self@
            }),
    {
        IceServer { username: Some(username), credential: Some(credential), ..self }
    }

    /// Google's default STUN servers.
    pub fn default_stun_servers() -> (v: Vec<Self>)
        ensures
            v@.len() == 5,
            forall|i: int| 0 <= i < 5 ==> #[trigger] v@[i]@ == stun_view(google_stun_urls()[i]),
    {
        let mut v: Vec<IceServer> = Vec::new();
        v.push(Self::stun(String::from_str("stun:stun.l.google.com:19302")));
        v.push(Self::stun(String::from_str("stun:stun1.l.google.com:19302")));
        v.push(Self::stun(String::from_str("stun:stun2.l.google.com:19302")));
        v.push(Self::stun(String::from_str("stun:stun3.l.google.com:19302")));
        v.push(Self::stun(String::from_str("stun:stun4.l.google.com:19302")));
        v
    }
}

/// The URLs of the ICE server that `matchbox_socket` uses by default.
pub open spec fn matchbox_default_urls() -> Seq<Seq<char>> {
    seq!["stun:stun.l.google.com:19302"@, "stun:stun1.l.google.com:19302"@]
}

/// Calls `Default::default` of `matchbox_socket::RtcIceServerConfig` and
/// returns its fields. Claimed, as its source in `matchbox_socket` 0.15
/// writes it: the two Google STUN URLs below, without credentials.
#[verifier::external_body]
fn matchbox_default_ice_server() -> (s: IceServer)
    ensures
        s@ == (IceServerView { urls: matchbox_default_urls(), username: None, credential: None }),
{
    let d = matchbox_socket::RtcIceServerConfig::default();
    IceServer { urls: d.urls, username: d.username, credential: d.credential }
}

/// The ICE configuration for the WebRTC socket, which takes one server:
/// the first of `ice_servers`, or the socket's default when there is none.
pub fn build_ice_server_config(ice_servers: &Vec<IceServer>) -> (c: IceServer)
    ensures
        ice_servers@.len() == 0 ==> c@ == (IceServerView {
            urls: matchbox_default_urls(),
            username: None,
            credential: None,
        }),
        ice_servers@.len() > 0 ==> c@ == ice_servers@[0]@,
{
    if ice_servers.len() == 0 {
        return matchbox_default_ice_server();
    }
    ice_servers[0].clone()
}

} // verus!
