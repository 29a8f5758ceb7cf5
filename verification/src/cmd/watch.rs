//! Watching for changes: what a batch of file system events asks for.
use vstd::prelude::*;
use crate::fs::File;
use crate::fs::FileSystemError;
use crate::fs::FileSystemErrorModel;
use crate::fs::PathProbe;
use crate::fs::ProbeModel;
use crate::text::texts;

verus! {

/// How to watch.
#[derive(Clone, Copy, Debug, PartialEq, Eq, Structural)]
pub struct WatchParam {
    /// Whether to build everything before watching.
    pub build_first: bool,
}

/// What has changed.
#[derive(Debug)]
pub enum Changed {
    /// The article at the path.
    Article(String),
    /// Something in the template directory.
    Template,
}

/// What happened to the paths of an event.
#[derive(Clone, Copy, Debug, PartialEq, Eq, Structural)]
pub enum ChangeKind {
    Create,
    Modify,
    /// Anything else: an access, a removal, or what the watcher could not
    /// tell.
    Other,
}

/// An event of the file system: what happened, and to which paths.
#[derive(Debug)]
pub struct FileEvent {
    pub kind: ChangeKind,
    pub paths: Vec<String>,
}

/// What a list of events holds.
pub open spec fn events_view(events: Seq<FileEvent>) -> Seq<(ChangeKind, Seq<Seq<char>>)> {
    Seq::new(events.len(), |i: int| (events[i].kind, texts(events[i].paths@)))
}

/// The paths that the first `n` of `events` created or modified, in
/// order, each as often as it is named.
pub open spec fn touched(events: Seq<(ChangeKind, Seq<Seq<char>>)>, n: nat) -> Seq<Seq<char>>
    decreases n,
{
    if n == 0 || n > events.len() {
        Seq::empty()
    } else if events[n - 1].0 == ChangeKind::Other {
        touched(events, (n - 1) as nat)
    } else {
        touched(events, (n - 1) as nat) + events[n - 1].1
    }
}

/// The paths that `events` created or modified. Whether they still exist
/// is for the caller to find out.
pub fn handle_notify_event(events: &Vec<FileEvent>) -> (paths: Vec<String>)
    ensures
        texts(paths@) == touched(events_view(events@), events@.len()),
{
    let mut paths: Vec<String> = Vec::new();
    let mut i: usize = 0;
    proof {
        assert(texts(paths@) =~= Seq::<Seq<char>>::empty());
    }
    while i < events.len()
        invariant
            i <= events.len(),
            texts(paths@) == touched(events_view(events@), i as nat),
        decreases events.len() - i,
    {
        let event = &events[i];
        proof {
            assert(events_view(events@)[i as int] == (event.kind, texts(event.paths@)));
        }
        match event.kind {
            ChangeKind::Other => {},
            _ => {
                let ghost before = texts(paths@);
                let mut k: usize = 0;
                proof {
                    assert(texts(event.paths@).subrange(0, 0) =~= Seq::<Seq<char>>::empty());
                    assert(before + Seq::<Seq<char>>::empty() =~= before);
                }
                while k < event.paths.len()
                    invariant
                        k <= event.paths.len(),
                        texts(paths@) == before + texts(event.paths@).subrange(0, k as int),
                    decreases event.paths.len() - k,
                {
                    proof {
                        let added = texts(event.paths@);
                        assert(texts(paths@.push(event.paths@[k as int])) =~= texts(paths@).push(
                            event.paths@[k as int]@,
                        ));
                        assert(added.subrange(0, k + 1) =~= added.subrange(0, k as int).push(
                            added[k as int],
                        ));
                        assert((before + added.subrange(0, k as int)).push(added[k as int])
                            =~= before + added.subrange(0, k + 1));
                    }
                    paths.push(event.paths[k].clone());
                    k += 1;
                }
                proof {
                    assert(texts(event.paths@).subrange(0, event.paths@.len() as int) =~= texts(
                        event.paths@,
                    ));
                }
            },
        }
        i += 1;
    }
    paths
}

/// The files among the paths that were probed, and for each path at
/// which something is that is no file, its place and the reason.
#[derive(Debug)]
pub struct ChangedFiles {
    pub files: Vec<File>,
    pub failures: Vec<(usize, FileSystemError)>,
}

/// The files that the first `n` of `probes` found, in order.
pub open spec fn files_found(probes: Seq<ProbeModel>, n: nat) -> Seq<Seq<char>>
    decreases n,
{
    if n == 0 || n > probes.len() {
        Seq::empty()
    } else if probes[n - 1].exists && probes[n - 1].file() is Ok {
        files_found(probes, (n - 1) as nat).push(probes[n - 1].file()->Ok_0)
    } else {
        files_found(probes, (n - 1) as nat)
    }
}

/// The places and errors of those of the first `n` of `probes` that found
/// something that is no file, in order.
pub open spec fn files_refused(probes: Seq<ProbeModel>, n: nat) -> Seq<(usize, FileSystemErrorModel)>
    decreases n,
{
    if n == 0 || n > probes.len() {
        Seq::empty()
    } else if probes[n - 1].exists && probes[n - 1].file() is Err {
        files_refused(probes, (n - 1) as nat).push(((n - 1) as usize, probes[n - 1].file()->Err_0))
    } else {
        files_refused(probes, (n - 1) as nat)
    }
}

/// What a list of probes holds.
pub open spec fn probes_view(probes: Seq<PathProbe>) -> Seq<ProbeModel> {
    Seq::new(probes.len(), |i: int| probes[i]@)
}

/// What a list of files holds.
pub open spec fn files_view(files: Seq<File>) -> Seq<Seq<char>> {
    Seq::new(files.len(), |i: int| files[i]@)
}

/// What a list of refusals holds.
pub open spec fn refusals_view(refusals: Seq<(usize, FileSystemError)>) -> Seq<
    (usize, FileSystemErrorModel),
> {
    Seq::new(refusals.len(), |i: int| (refusals[i].0, refusals[i].1@))
}

/// The files that changed, given the probes of the paths that were
/// touched: a path at which nothing is any more is passed over, and a path
/// that leads to no file is reported.
pub fn changed_files(probes: &Vec<PathProbe>) -> (changed: ChangedFiles)
    ensures
        files_view(changed.files@) == files_found(probes_view(probes@), probes@.len()),
        refusals_view(changed.failures@) == files_refused(probes_view(probes@), probes@.len()),
{
    let mut files: Vec<File> = Vec::new();
    let mut failures: Vec<(usize, FileSystemError)> = Vec::new();
    let mut i: usize = 0;
    proof {
        assert(files_view(files@) =~= Seq::<Seq<char>>::empty());
        assert(refusals_view(failures@) =~= Seq::<(usize, FileSystemErrorModel)>::empty());
    }
    while i < probes.len()
        invariant
            i <= probes.len(),
            files_view(files@) == files_found(probes_view(probes@), i as nat),
            refusals_view(failures@) == files_refused(probes_view(probes@), i as nat),
        decreases probes.len() - i,
    {
        proof {
            assert(probes_view(probes@)[i as int] == probes@[i as int]@);
        }
        if probes[i].exists {
            match File::new(&probes[i]) {
                Ok(file) => {
                    proof {
                        assert(files_view(files@.push(file)) =~= files_view(files@).push(file@));
                    }
                    files.push(file);
                },
                Err(error) => {
                    proof {
                        assert(refusals_view(failures@.push((i, error))) =~= refusals_view(
                            failures@,
                        ).push((i, error@)));
                    }
                    failures.push((i, error));
                },
            }
        }
        i += 1;
    }
    ChangedFiles { files, failures }
}

/// What the watcher hears.
#[derive(Debug)]
pub enum WatchInput {
    /// Events below the directory of the articles.
    Articles(Vec<FileEvent>),
    /// Events below the directory of the templates.
    Templates(Vec<FileEvent>),
    /// A batch that could not be read.
    Unreadable,
    /// The user asked to stop.
    Interrupt,
}

/// What the watcher does next.
#[derive(Debug)]
pub enum WatchAction {
    /// Build the articles at these paths, then go on watching.
    BuildArticles(Vec<String>),
    /// Copy the template files at these paths, then go on watching.
    UpdateTemplates(Vec<String>),
    /// Go on watching.
    KeepWatching,
    /// Stop watching.
    Stop,
}

/// What the watcher does when it hears `input`: a batch is handled as a
/// whole before the next is heard, a batch that cannot be read changes
/// nothing, and only a request to stop ends the watching.
pub fn watch_for_change(input: &WatchInput) -> (action: WatchAction)
    ensures
        match input {
            WatchInput::Articles(events) => action matches WatchAction::BuildArticles(paths)
                && texts(paths@) == touched(events_view(events@), events@.len()),
            WatchInput::Templates(events) => action matches WatchAction::UpdateTemplates(paths)
                && texts(paths@) == touched(events_view(events@), events@.len()),
            WatchInput::Unreadable => action is KeepWatching,
            WatchInput::Interrupt => action is Stop,
        },
{
    match input {
        WatchInput::Articles(events) => WatchAction::BuildArticles(handle_notify_event(events)),
        WatchInput::Templates(events) => WatchAction::UpdateTemplates(handle_notify_event(events)),
        WatchInput::Unreadable => WatchAction::KeepWatching,
        WatchInput::Interrupt => WatchAction::Stop,
    }
}

} // verus!
