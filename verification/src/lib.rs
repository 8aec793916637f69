pub mod category;
pub mod domain;
pub mod shape;
pub mod text;
pub mod shape_laws;
pub mod state;
pub mod tally;
pub mod streaks;
pub mod transitions;
pub mod reversion;
pub mod buckets;
pub mod bucket_laws;
pub mod numtext;
pub mod sqlfilter;
pub mod rules;
pub mod gameday;
pub mod events;
pub mod import;
pub mod archive;
pub mod cycles;
pub mod windows;
pub mod sync;
pub mod signals;
pub mod sums;
pub mod runs;
