//! A behavior-tree library with verified execution semantics.
//!
//! A behavior tree is a hierarchy of nodes that, given a shared mutable
//! context, cooperatively decide what happens next and report one of three
//! outcomes: still running, succeeded, or failed.  Two models of execution
//! are offered and never mixed within one tree:
//!
//! * the *poll* model ([`Bhv`]): the driver repeatedly steps the root with
//!   the context until a terminal status is produced;
//! * the *reactive* model ([`reactive::Bhv`]): nodes consume discrete
//!   external events one at a time, and may declare which kinds of event
//!   they are interested in.
//!
//! Every node's behavior is captured by a transition relation (`step`,
//! `resets`, `reacts`) stated in its trait contract, and the composite and
//! decorator nodes are verified against those relations.  The laws modules
//! state and prove the algebraic properties of the combinators.

mod node;
mod either;
mod laws;
pub mod reactive;
mod adapt;
mod composite;
mod async_composite;
mod decor;
mod bhv_ext;

pub use node::{Status, Bhv, run_steps, reaches, halts, halts_within, terminal};
pub use either::Either;
pub use bhv_ext::BhvExt;
pub use composite::{Sel, Sequence, list_step, list_step_tail, resets_upto};
pub use async_composite::{WhenAny, WhenAll, sweep_step};
pub use laws::{succ_chain, resetting_runs, full_runs, reset_choice, resets_total, reset_prefix, wrap_inv, lemma_selector_demorgan_fwd, lemma_selector_demorgan_bwd, lemma_sequence_all_success, lemma_sequence_failure_aborts, lemma_invert_involution, lemma_invert_involution_runs, lemma_repeat_counts, lemma_repeat_one_transparent, lemma_repeat_until_countdown};
pub use adapt::{Cond, Action, AsyncAction, cond, action, async_action};
pub use decor::{Inv, Pass, Fail, Repeat, RepeatUntil, RepeatUntilPass, RepeatUntilFail, RunIf, repeat, repeat_until, invert, force};
