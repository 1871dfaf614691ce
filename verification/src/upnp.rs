//! Best-effort UPnP port forwarding on `serve`: what the attempt reports.
//!
//! Consumer routers that speak IGD open a port on request; when they do
//! not, the host gets a clear error and a pointer to Tailscale. Talking
//! to the gateway is the caller's part.
use crate::text::string_push_str;
use vstd::prelude::*;

verus! {

/// Lease asked for on each mapping (2 h): long enough for a session,
/// short enough that stale mappings clean themselves up.
pub const LEASE_SECS: u32 = 7200;

/// How a forwarding attempt turned out, as the host is told about it.
#[derive(Clone, Copy, Debug, PartialEq, Eq, Structural)]
pub enum ForwardOutcome {
    /// Both ports opened: friends connect and install directly.
    Both,
    /// Only the game port: direct connect works, auto-install does not.
    GameOnly,
    /// Only the install port: auto-install works, connecting needs a
    /// manual forward.
    HttpOnly,
    /// Nothing usable: forward by hand, tunnel, or stay on the LAN.
    Failed,
}

/// What the forwarding attempt achieved.
pub struct ForwardReport {
    pub game_opened: bool,
    pub http_opened: bool,
    pub error: Option<String>,
}

impl ForwardReport {
    /// No IGD gateway answered the search; `e` is the search error.
    pub fn no_gateway(e: &str) -> (r: ForwardReport)
        ensures
            !r.game_opened,
            !r.http_opened,
            r.error matches Some(m) && m@ == "no IGD gateway found: "@ + e@,
    {
        let mut m = String::new();
        string_push_str(&mut m, "no IGD gateway found: ");
        string_push_str(&mut m, e);
        ForwardReport { game_opened: false, http_opened: false, error: Some(m) }
    }

    /// A gateway was found and asked for both mappings; an error is
    /// reported only when it refused both.
    pub fn from_mappings(game_opened: bool, http_opened: bool) -> (r: ForwardReport)
        ensures
            r.game_opened == game_opened,
            r.http_opened == http_opened,
            (!game_opened && !http_opened) ==> (r.error matches Some(m) && m@
                == "gateway found but add_port refused (router may disable UPnP)"@),
            (game_opened || http_opened) ==> r.error is None,
    {
        let error = if !game_opened && !http_opened {
            let mut m = String::new();
            string_push_str(&mut m, "gateway found but add_port refused (router may disable UPnP)");
            Some(m)
        } else {
            None
        };
        ForwardReport { game_opened, http_opened, error }
    }

    /// Classify the report: both ports open counts whatever the error
    /// field says; a single open port counts only with no error.
    pub fn outcome(&self) -> (o: ForwardOutcome)
        ensures
            o == (if self.game_opened && self.http_opened {
                ForwardOutcome::Both
            } else if self.error is None && self.game_opened && !self.http_opened {
                ForwardOutcome::GameOnly
            } else if self.error is None && !self.game_opened && self.http_opened {
                ForwardOutcome::HttpOnly
            } else {
                ForwardOutcome::Failed
            }),
    {
        match (&self.error, self.game_opened, self.http_opened) {
            (_, true, true) => ForwardOutcome::Both,
            (None, true, false) => ForwardOutcome::GameOnly,
            (None, false, true) => ForwardOutcome::HttpOnly,
            _ => ForwardOutcome::Failed,
        }
    }
}

} // verus!
