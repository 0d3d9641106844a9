use vstd::prelude::*;

pub mod broker;
pub mod decimal;
pub mod message;
pub mod place_runner;
pub mod relay;

verus! {

/// Options for one run, as collected from the command line by the caller.
///
/// `place_id` and `universe_id` are always present for a valid run;
/// `place_file`, `creator_id` and `creator_type` are present whenever
/// `team_test` is false. The caller enforces this before a run starts.
#[derive(Clone, Debug)]
pub struct RunOptions {
    /// Path of the script file whose contents will be sent to instances.
    pub script: String,
    /// Path of the place file to serve (absent in team-test mode).
    pub place_file: Option<String>,
    /// Universe id of the place.
    pub universe_id: Option<u64>,
    /// Place id of the place.
    pub place_id: Option<u64>,
    /// Creator id of the universe or place (absent in team-test mode).
    pub creator_id: Option<u64>,
    /// Creator type: usually 0 for an individual, 1 for a group.
    pub creator_type: Option<u8>,
    /// How many client instances to launch alongside the server.
    pub num_clients: u8,
    /// End the run after the first instance disconnects or stops.
    pub oneshot: bool,
    /// The host application's lifecycle is managed externally: do not launch it.
    pub no_launch: bool,
    /// Leave the host application alive when this run ends.
    pub no_exit: bool,
    /// Open an existing published place as a team test.
    pub team_test: bool,
}

/// Mathematical image of `RunOptions`: every text field as a sequence of
/// characters, everything else as a plain value.
pub struct RunOptionsView {
    pub script: Seq<char>,
    pub place_file: Option<Seq<char>>,
    pub universe_id: Option<u64>,
    pub place_id: Option<u64>,
    pub creator_id: Option<u64>,
    pub creator_type: Option<u8>,
    pub num_clients: u8,
    pub oneshot: bool,
    pub no_launch: bool,
    pub no_exit: bool,
    pub team_test: bool,
}

impl View for RunOptions {
    type V = RunOptionsView;

    open spec fn view(&self) -> RunOptionsView {
        RunOptionsView {
            script: self.script@,
            place_file: self.place_file.deep_view(),
            universe_id: self.universe_id,
            place_id: self.place_id,
            creator_id: self.creator_id,
            creator_type: self.creator_type,
            num_clients: self.num_clients,
            oneshot: self.oneshot,
            no_launch: self.no_launch,
            no_exit: self.no_exit,
            team_test: self.team_test,
        }
    }
}

} // verus!
