use vstd::prelude::*;
use crate::define::BroadcastEvent;
use crate::stream::{IdentifierView, StreamIdentifier};

verus! {

/// Which relays this node runs: pulling streams that are asked for but
/// absent here from an upstream server, and pushing local streams to
/// downstream servers.
#[derive(Debug, Clone, Copy, PartialEq, Eq, Structural)]
pub struct RelayConfig {
    pub pull_enabled: bool,
    pub push_enabled: bool,
}

/// What a relay listener should start or stop for a stream.
#[derive(Debug, Clone)]
pub enum RelayIntent {
    StartPull { identifier: StreamIdentifier },
    StopPull { identifier: StreamIdentifier },
    StartPush { identifier: StreamIdentifier },
    StopPush { identifier: StreamIdentifier },
}

/// The kinds of intent, as plain values.
pub ghost enum IntentKind {
    StartPull,
    StopPull,
    StartPush,
    StopPush,
}

impl RelayIntent {
    pub open spec fn kind(self) -> IntentKind {
        match self {
            RelayIntent::StartPull { .. } => IntentKind::StartPull,
            RelayIntent::StopPull { .. } => IntentKind::StopPull,
            RelayIntent::StartPush { .. } => IntentKind::StartPush,
            RelayIntent::StopPush { .. } => IntentKind::StopPush,
        }
    }

    pub open spec fn identifier(self) -> IdentifierView {
        match self {
            RelayIntent::StartPull { identifier } => identifier@,
            RelayIntent::StopPull { identifier } => identifier@,
            RelayIntent::StartPush { identifier } => identifier@,
            RelayIntent::StopPush { identifier } => identifier@,
        }
    }
}

/// The intent a broadcast event calls for under `cfg`, if any: a stream asked
/// for and absent is pulled, and one no longer wanted stops being pulled; a
/// local stream is pushed while it is published.
pub open spec fn intent_of(cfg: RelayConfig, e: BroadcastEvent) -> Option<IntentKind> {
    match e {
        BroadcastEvent::Subscribe { .. } => if cfg.pull_enabled {
            Some(IntentKind::StartPull)
        } else {
            None
        },
        BroadcastEvent::UnSubscribe { .. } => if cfg.pull_enabled {
            Some(IntentKind::StopPull)
        } else {
            None
        },
        BroadcastEvent::Publish { .. } => if cfg.push_enabled {
            Some(IntentKind::StartPush)
        } else {
            None
        },
        BroadcastEvent::UnPublish { .. } => if cfg.push_enabled {
            Some(IntentKind::StopPush)
        } else {
            None
        },
    }
}

/// Turns a broadcast event into a relay intent for the same stream.
pub fn relay_intent(cfg: RelayConfig, event: &BroadcastEvent) -> (r: Option<RelayIntent>)
    ensures
        r is None <==> intent_of(cfg, *event) is None,
        r matches Some(i) ==> Some(i.kind()) == intent_of(cfg, *event) && i.identifier()
            == event.identifier(),
{
    match event {
        BroadcastEvent::Subscribe { identifier } => if cfg.pull_enabled {
            Some(RelayIntent::StartPull { identifier: identifier.duplicate() })
        } else {
            None
        },
        BroadcastEvent::UnSubscribe { identifier } => if cfg.pull_enabled {
            Some(RelayIntent::StopPull { identifier: identifier.duplicate() })
        } else {
            None
        },
        BroadcastEvent::Publish { identifier } => if cfg.push_enabled {
            Some(RelayIntent::StartPush { identifier: identifier.duplicate() })
        } else {
            None
        },
        BroadcastEvent::UnPublish { identifier } => if cfg.push_enabled {
            Some(RelayIntent::StopPush { identifier: identifier.duplicate() })
        } else {
            None
        },
    }
}

} // verus!
