//! What a backup asks to be done, and what it is told in return.

use vstd::prelude::*;

use crate::cmd::{arg_texts, pipe, var_texts, Command, CommandError, CommandView, PipeStage, Pipeline};
use crate::config::Config;
use crate::path::{join, tmp_sibling};
use crate::state::{AtomicWrite, State, WriteError, WriteStage};

verus! {

/// One thing to do in the outside world.
#[derive(Debug)]
pub enum Action {
    /// Replace a file atomically. Answered by [`Reply::Written`].
    Write(AtomicWrite),
    /// Run a command. Answered by [`Reply::Ran`].
    Run(Command),
    /// Run a pipeline of commands. Answered by [`Reply::Ran`].
    Pipe(Pipeline),
    /// Run a command for its output. Answered by [`Reply::Captured`].
    Capture(Command),
    /// Rename a file. Answered by [`Reply::Done`].
    Rename { from: String, to: String },
    /// Remove a file. Answered by [`Reply::Done`].
    RemoveFile { path: String },
    /// Create a symbolic link. Answered by [`Reply::Done`].
    Symlink { target: String, link: String },
    /// Tell whether there is a regular file. Answered by [`Reply::Found`].
    ProbeFile { path: String },
    /// Tell whether there is anything, links followed. Answered by
    /// [`Reply::Found`].
    ProbeTarget { path: String },
    /// Tell whether there is anything, links not followed. Answered by
    /// [`Reply::Found`].
    ProbeEntry { path: String },
    /// List a directory. Answered by [`Reply::Listed`].
    ListDir { path: String },
    /// Nothing: the backup is over.
    Stop,
}

/// What came of an [`Action`].
#[derive(Debug)]
pub enum Reply {
    Written(Result<(), WriteError>),
    Ran(Result<(), CommandError>),
    Captured(Result<String, CommandError>),
    /// `Err` gives the reason.
    Done(Result<(), String>),
    Found(bool),
    /// The names of the entries. An entry that could not be read, and a directory
    /// that could not be opened, come with the reason.
    Listed(Result<Vec<Result<String, String>>, String>),
}

/// The text of an [`Action`]. How far a write or a pipeline has got is left out;
/// [`Action::is_fresh`] says that it has not been started.
#[verifier::ext_equal]
pub enum ActionView {
    Write { path: Seq<char>, tmp_path: Seq<char>, content: Seq<char> },
    Run(CommandView),
    Pipe(Seq<CommandView>),
    Capture(CommandView),
    Rename { from: Seq<char>, to: Seq<char> },
    RemoveFile { path: Seq<char> },
    Symlink { target: Seq<char>, link: Seq<char> },
    ProbeFile { path: Seq<char> },
    ProbeTarget { path: Seq<char> },
    ProbeEntry { path: Seq<char> },
    ListDir { path: Seq<char> },
    Stop,
}

/// The text of a list of commands.
pub open spec fn command_views(commands: Seq<Command>) -> Seq<CommandView> {
    commands.map_values(|c: Command| c@)
}

impl View for Action {
    type V = ActionView;

    open spec fn view(&self) -> ActionView {
        match self {
            Action::Write(w) => ActionView::Write { path: w.path@, tmp_path: w.tmp_path@, content: w.content@ },
            Action::Run(c) => ActionView::Run(c@),
            Action::Pipe(p) => ActionView::Pipe(command_views(p@.steps)),
            Action::Capture(c) => ActionView::Capture(c@),
            Action::Rename { from, to } => ActionView::Rename { from: from@, to: to@ },
            Action::RemoveFile { path } => ActionView::RemoveFile { path: path@ },
            Action::Symlink { target, link } => ActionView::Symlink { target: target@, link: link@ },
            Action::ProbeFile { path } => ActionView::ProbeFile { path: path@ },
            Action::ProbeTarget { path } => ActionView::ProbeTarget { path: path@ },
            Action::ProbeEntry { path } => ActionView::ProbeEntry { path: path@ },
            Action::ListDir { path } => ActionView::ListDir { path: path@ },
            Action::Stop => ActionView::Stop,
        }
    }
}

impl Action {
    /// A write or a pipeline has yet to be started.
    pub open spec fn is_fresh(&self) -> bool {
        match self {
            Action::Write(w) => w.stage == WriteStage::Create && w.failure is None,
            Action::Pipe(p) => p@.well_formed() && p@.stage == PipeStage::Spawn(0) && p@.failure is None,
            _ => true,
        }
    }
}

/// Putting `content` at `name` in `dir`.
pub open spec fn write_action(dir: Seq<char>, name: Seq<char>, content: Seq<char>) -> ActionView {
    ActionView::Write { path: join(dir, name), tmp_path: tmp_sibling(join(dir, name)), content }
}

/// Writing `state`, with the timestamp `ts`, to the state file in `dir`.
pub open spec fn state_action(dir: Seq<char>, state: State, ts: u64) -> ActionView {
    write_action(dir, "state"@, state.file_text(ts))
}

/// Makes the action that writes `state`, with the timestamp `ts`, to the state
/// file in `dir`.
pub(crate) fn state_write(dir: &str, state: State, ts: u64) -> (r: Action)
    ensures
        r@ == state_action(dir@, state, ts),
        r.is_fresh(),
{
    Action::Write(state.write_at(dir, Ok(ts)).unwrap())
}

/// `btrfs` with the arguments `args`.
pub open spec fn btrfs(args: Seq<Seq<char>>) -> CommandView {
    CommandView { program: "btrfs"@, args, env: seq![] }
}

/// Makes the command `btrfs` with the arguments `args`.
pub(crate) fn btrfs_command(args: &[&str]) -> (r: Command)
    ensures
        r@ == btrfs(arg_texts(args@)),
{
    let r = Command::new("btrfs", args, &[]);
    proof {
        let none: [(&str, &str); 0] = [];
        assert(var_texts(none@) =~= seq![]);
    }
    r
}

/// Deleting the subvolume at `path`.
pub open spec fn delete_subvolume(path: Seq<char>) -> ActionView {
    ActionView::Run(btrfs(seq!["subvolume"@, "delete"@, path]))
}

/// Makes the action that deletes the subvolume at `path`.
pub(crate) fn subvolume_delete(path: &str) -> (r: Action)
    ensures
        r@ == delete_subvolume(path@),
        r.is_fresh(),
{
    let args = ["subvolume", "delete", path];
    assert(arg_texts(args@) =~= seq!["subvolume"@, "delete"@, path@]);
    Action::Run(btrfs_command(&args))
}

/// Creating a read-only snapshot of the source subvolume at `snap_tmp`.
pub open spec fn create_snapshot(config: Config, snap_tmp: Seq<char>) -> ActionView {
    ActionView::Run(btrfs(seq!["subvolume"@, "snapshot"@, "-r"@, config.subvolume(), snap_tmp]))
}

/// Makes the action that creates a read-only snapshot of the source subvolume.
pub(crate) fn snapshot_creation(config: &Config, snap_tmp: &str) -> (r: Action)
    ensures
        r@ == create_snapshot(*config, snap_tmp@),
        r.is_fresh(),
{
    let subvolume = config.source_subvolume_path();
    let args: [&str; 5] = ["subvolume", "snapshot", "-r", subvolume.as_str(), snap_tmp];
    let r = Action::Run(btrfs_command(&args));
    assert(arg_texts(args@) =~= seq!["subvolume"@, "snapshot"@, "-r"@, subvolume@, snap_tmp@]);
    r
}

/// The steps that a snapshot is transferred with: `btrfs` with the arguments
/// `send`, piped to a `btrfs receive` in `snaps_dir`.
pub open spec fn transfer_steps(send: Seq<Seq<char>>, snaps_dir: Seq<char>) -> Seq<CommandView> {
    seq![btrfs(send), btrfs(seq!["receive"@, snaps_dir])]
}

/// Makes the action that pipes `btrfs` with the arguments `send` to a
/// `btrfs receive` in `snaps_dir`.
pub(crate) fn transfer(send: &[&str], snaps_dir: &str) -> (r: Action)
    ensures
        r@ == ActionView::Pipe(transfer_steps(arg_texts(send@), snaps_dir@)),
        r.is_fresh(),
{
    let receive: [&str; 2] = ["receive", snaps_dir];
    let steps: [(&str, &[&str]); 2] = [("btrfs", send), ("btrfs", &receive)];
    let p = pipe(&steps).unwrap();
    let r = Action::Pipe(p);
    proof {
        let got = command_views(p@.steps);
        assert(arg_texts(receive@) =~= seq!["receive"@, snaps_dir@]);
        assert(got[0] == p@.steps[0]@);
        assert(got[1] == p@.steps[1]@);
        assert(got =~= transfer_steps(arg_texts(send@), snaps_dir@));
    }
    r
}

} // verus!
