//! The reactive model: nodes consume discrete external events one at a
//! time instead of being polled every tick, and may declare which kinds of
//! event they are interested in.
mod events;
mod node;
mod adapt;
mod composite;
mod decor;
mod bhv_ext;
mod laws;
mod either;

pub use events::{EventKind, Event, EventExt, EventType, EventTypeExt, UnitEventPump, NamedEvent, fingerprint, kind_of};
pub use crate::either::Either;
pub use node::Bhv;
pub use adapt::{Action, Cond, AsyncAction, action, cond, async_action};
pub use composite::{Sel, Sequence, list_react, prefix_interested};
pub use decor::{Inv, Pass, Fail, Repeat, RepeatUntilPass, RepeatUntilFail, WaitFor};
pub use bhv_ext::{BhvExt, reactive_run};
pub use laws::{lemma_wait_for_filters, lemma_event_gate_blocks};
