//! Ous, a personal cognitive operating system: the journal of captures,
//! decisions and projects, the memory jobs that consolidate it (daily notes, the
//! minor league, melatonin and dreaming), the packet and note ingestion, the model
//! routing and the small bus listeners, as verified functions on plain values.
//! Reading and writing files, the network and the terminal are left to the caller.
pub mod text;
pub mod json;
pub mod clock;
pub mod journal;
pub mod reply;
pub mod dreaming;
pub mod observer;
pub mod minor_league;
pub mod daily_notes;
pub mod melatonin;
pub mod work_manager;
pub mod bus;
pub mod packets;
pub mod guided;
pub mod ai_router;
pub mod signals;
pub mod dashboard;
pub mod status;
pub mod lytho;
pub mod scheduler;
