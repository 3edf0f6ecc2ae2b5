//! The shared, read-only presentation configuration and the status response
//! derived from it for the server-list ping.

use vstd::prelude::*;

verus! {

/// What the server presents: title and subtitle shown after onboarding, the
/// message of the day, the player-count display bounds, and the optional
/// icon payload (already encoded for the wire).
pub struct PresentationConfig {
    pub title: String,
    pub subtitle: String,
    pub motd: String,
    pub max_players: i32,
    pub online_players: i32,
    pub favicon: Option<String>,
}

/// A status response for the server-list ping: the displayed player-count
/// bounds, the message of the day, and the optional icon payload.
pub struct StatusResponse {
    pub max_players: i32,
    pub online_players: i32,
    pub motd: String,
    pub favicon: Option<String>,
}

/// The text of an optional string, for stating what an option holds.
pub open spec fn spec_opt_text(o: Option<String>) -> Option<Seq<char>> {
    match o {
        Some(s) => Some(s@),
        None => None,
    }
}

/// Builds the status response for the server-list ping: every field comes
/// straight from the shared configuration, and no sample players are listed.
pub fn status_response(cfg: &PresentationConfig) -> (r: StatusResponse)
    ensures
        r.max_players == cfg.max_players,
        r.online_players == cfg.online_players,
        r.motd@ == cfg.motd@,
        spec_opt_text(r.favicon) == spec_opt_text(cfg.favicon),
{
    StatusResponse {
        max_players: cfg.max_players,
        online_players: cfg.online_players,
        motd: cfg.motd.clone(),
        favicon: match &cfg.favicon {
            Some(s) => Some(s.clone()),
            None => None,
        },
    }
}

} // verus!
