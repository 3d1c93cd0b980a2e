//! A background worker that periodically mirrors git repositories from a
//! source remote to a target remote, job by job: which jobs are due, how
//! transient ssh key material is normalised and bounded to one attempt, the
//! exact clone, retarget and push subprocess sequence, and the isolation of
//! one failing job from the rest of the batch.

/// Password hashing and random session tokens.
pub mod crypto;
/// Zero-filled weekly log counts for the dashboard.
pub mod dashboard;
/// One job's attempt as a state machine: phases, actions, events, and the
/// guarantees kept across any trace of outcomes.
pub mod executor;
/// The job model, due-ness, and the overdue-first bounded selection.
pub mod jobs;
/// The response envelope and the fixed catcher bodies.
pub mod response;
/// Normalisation of raw private-key material.
pub mod sanitize;
/// The poll cycle: planning a batch, reading outcomes, recording completions.
pub mod worker;
