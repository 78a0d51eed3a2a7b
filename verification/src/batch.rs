//! A batch of renames, or of reverts, as a sequence of turns.
//!
//! The batch decides; its caller acts. Each turn hands the caller one
//! request (read a file, ask the oracle, look whether a path is taken, ask
//! the user, rename on disk, persist the mapping) and the caller answers
//! with the event that tells how it went. The mapping is passed in on every
//! turn and changes only when a rename on disk has succeeded.

use crate::date::{date_hint, file_date};
use crate::store::RevertMapping;
use crate::text::{ends_with, opt_text, rank, texts, Rank};
use vstd::prelude::*;

verus! {

/// What a mapping holds: the original path of each renamed path.
pub type Names = Map<Seq<char>, Seq<char>>;

/// What a batch does to its items.
#[derive(Clone, Copy, Debug, PartialEq, Eq, Structural)]
pub enum Mode {
    /// Give each item the name that the oracle proposes.
    Rename,
    /// Give each item its original name back.
    Revert,
}

/// Which answer a batch is waiting for.
#[derive(Clone, Copy, Debug, PartialEq, Eq, Structural)]
pub enum Stage {
    /// Nothing has been asked yet.
    Fresh,
    /// The bytes of the current item.
    Reading,
    /// The oracle's proposal for the current item.
    Suggesting,
    /// Whether a file exists at the probed path.
    Probing,
    /// The user's approval of the move.
    Confirming,
    /// The outcome of the move on disk.
    Moving,
    /// The outcome of persisting the mapping.
    Persisting,
    /// Nothing: the batch is over.
    Finished,
}

/// Why a batch stopped before it had gone through all its items.
#[derive(Clone, Copy, Debug, PartialEq, Eq, Structural)]
pub enum Failure {
    /// A candidate could not be read.
    Read,
    /// A rename on disk that the batch had decided on did not happen.
    Move,
    /// The mapping could not be persisted.
    Persist,
}

/// How the caller answers a request.
pub enum Event {
    /// Starts the batch.
    Begin,
    /// The file was read: its bytes, and the day it was created if known.
    Contents { image: Vec<u8>, created: Option<String> },
    /// The file could not be read.
    Unreadable,
    /// The oracle was asked: the file name it proposes, if any.
    Suggested { name: Option<String> },
    /// Whether a file exists at the probed path.
    Probed { exists: bool },
    /// Whether the user approved.
    Answered { approved: bool },
    /// Whether the rename on disk happened.
    Moved { done: bool },
    /// Whether the mapping was persisted.
    Persisted { done: bool },
}

/// What the batch asks of its caller.
pub enum Request {
    /// Read the file at `path`, and find out when it was created.
    Read { path: String },
    /// Ask the oracle to name the image.
    Suggest { path: String, image: Vec<u8>, date_hint: Option<String> },
    /// Look whether `path` is taken: by a regular file where `file_only` is
    /// set, else by anything at all.
    Probe { path: String, file_only: bool },
    /// Ask the user whether `from` may be renamed to `to`.
    Confirm { from: String, to: String },
    /// Rename `from` to `to` on disk.
    Move { from: String, to: String },
    /// Persist the mapping.
    Persist,
    /// Stop: the batch is over, with the failure that ended it if any.
    Done { failure: Option<Failure> },
    /// The event did not answer what was asked; nothing has changed.
    Rejected,
}

/// A request as contracts see it: variant for variant that of `Request`,
/// with texts for strings.
pub enum RequestView {
    /// Read the file at `path`.
    Read { path: Seq<char> },
    /// Ask the oracle to name the image.
    Suggest { path: Seq<char>, image: Seq<u8>, date_hint: Option<Seq<char>> },
    /// Look whether `path` is taken.
    Probe { path: Seq<char>, file_only: bool },
    /// Ask the user whether `from` may be renamed to `to`.
    Confirm { from: Seq<char>, to: Seq<char> },
    /// Rename `from` to `to` on disk.
    Move { from: Seq<char>, to: Seq<char> },
    /// Persist the mapping.
    Persist,
    /// Stop.
    Done { failure: Option<Failure> },
    /// The event did not answer what was asked.
    Rejected,
}

impl View for Request {
    type V = RequestView;

    open spec fn view(&self) -> RequestView {
        match *self {
            Request::Read { path } => RequestView::Read { path: path@ },
            Request::Suggest { path, image, date_hint } => RequestView::Suggest {
                path: path@,
                image: image@,
                date_hint: opt_text(date_hint),
            },
            Request::Probe { path, file_only } => RequestView::Probe { path: path@, file_only },
            Request::Confirm { from, to } => RequestView::Confirm { from: from@, to: to@ },
            Request::Move { from, to } => RequestView::Move { from: from@, to: to@ },
            Request::Persist => RequestView::Persist,
            Request::Done { failure } => RequestView::Done { failure },
            Request::Rejected => RequestView::Rejected,
        }
    }
}

/// What the caller should tell the user.
pub enum Notice {
    /// A batch of renames starts with `count` images.
    Starting { count: usize },
    /// The oracle proposed no name for `path`: the file is skipped.
    NoSuggestion { path: String },
    /// A file exists where `path` would go: the file is skipped.
    Collision { path: String },
    /// The renamed file `path` is gone: the entry is skipped and kept.
    Missing { path: String },
    /// The user declined the move of `path`: the file is skipped.
    Declined { path: String },
    /// `from` is about to be renamed to `to`.
    Renaming { from: String, to: String },
    /// `from` is about to get its original name `to` back.
    Reverting { from: String, to: String },
}

/// A notice as contracts see it: variant for variant that of `Notice`, with
/// texts for strings.
pub enum NoticeView {
    /// A batch of renames starts with `count` images.
    Starting { count: nat },
    /// The oracle proposed no name for `path`.
    NoSuggestion { path: Seq<char> },
    /// A file exists where `path` would go.
    Collision { path: Seq<char> },
    /// The renamed file `path` is gone.
    Missing { path: Seq<char> },
    /// The user declined the move of `path`.
    Declined { path: Seq<char> },
    /// `from` is about to be renamed to `to`.
    Renaming { from: Seq<char>, to: Seq<char> },
    /// `from` is about to get its original name `to` back.
    Reverting { from: Seq<char>, to: Seq<char> },
}

impl View for Notice {
    type V = NoticeView;

    open spec fn view(&self) -> NoticeView {
        match *self {
            Notice::Starting { count } => NoticeView::Starting { count: count as nat },
            Notice::NoSuggestion { path } => NoticeView::NoSuggestion { path: path@ },
            Notice::Collision { path } => NoticeView::Collision { path: path@ },
            Notice::Missing { path } => NoticeView::Missing { path: path@ },
            Notice::Declined { path } => NoticeView::Declined { path: path@ },
            Notice::Renaming { from, to } => NoticeView::Renaming { from: from@, to: to@ },
            Notice::Reverting { from, to } => NoticeView::Reverting { from: from@, to: to@ },
        }
    }
}

/// One turn of a batch: what to tell the user, and what to do next.
pub struct Turn {
    /// What the batch has decided since the last turn, if it is worth a line.
    pub notice: Option<Notice>,
    /// What the caller is to do now.
    pub request: Request,
}

/// A turn as contracts see it.
pub struct TurnView {
    /// What the batch has decided since the last turn.
    pub notice: Option<NoticeView>,
    /// What the caller is to do now.
    pub request: RequestView,
}

impl View for Turn {
    type V = TurnView;

    open spec fn view(&self) -> TurnView {
        TurnView {
            notice: match self.notice {
                Some(notice) => Some(notice@),
                None => None,
            },
            request: self.request@,
        }
    }
}

/// The state of a batch.
pub struct BatchView {
    /// What the batch does to its items.
    pub mode: Mode,
    /// Whether the user is asked before each move.
    pub confirm: bool,
    /// The paths to go through, in order.
    pub items: Seq<Seq<char>>,
    /// How many items have been taken up.
    pub position: nat,
    /// Which answer the batch is waiting for.
    pub stage: Stage,
    /// The path of the current item.
    pub source: Seq<char>,
    /// The path that the current item is to get.
    pub destination: Seq<char>,
    /// Why the batch stopped early, if it did.
    pub failure: Option<Failure>,
}

/// What a transition leads to.
pub struct Outcome {
    /// The batch after the transition.
    pub batch: BatchView,
    /// The mapping after the transition.
    pub names: Names,
    /// The turn that the transition hands to the caller.
    pub turn: TurnView,
}

/// The renamed paths to revert: all recorded ones where no path is asked
/// for, else the recorded ones among those asked for; in either case in the
/// order of the mapping's keys.
pub open spec fn revert_targets(keys: Seq<Seq<char>>, wanted: Seq<Seq<char>>) -> Seq<Seq<char>> {
    if wanted.len() == 0 {
        keys
    } else {
        keys.filter(|key: Seq<char>| wanted.contains(key))
    }
}

/// A batch before its first turn.
pub open spec fn fresh(mode: Mode, confirm: bool, items: Seq<Seq<char>>) -> BatchView {
    BatchView {
        mode,
        confirm,
        items,
        position: 0,
        stage: Stage::Fresh,
        source: Seq::empty(),
        destination: Seq::empty(),
        failure: None,
    }
}

/// Takes up the next item, or asks to persist where none is left.
pub open spec fn advance(s: BatchView, names: Names, notice: Option<NoticeView>) -> Outcome {
    if s.position < s.items.len() {
        let path = s.items[s.position as int];
        Outcome {
            batch: BatchView {
                position: s.position + 1,
                source: path,
                stage: match s.mode {
                    Mode::Rename => Stage::Reading,
                    Mode::Revert => Stage::Probing,
                },
                ..s
            },
            names,
            turn: TurnView {
                notice,
                request: match s.mode {
                    Mode::Rename => RequestView::Read { path },
                    Mode::Revert => RequestView::Probe { path, file_only: false },
                },
            },
        }
    } else {
        Outcome {
            batch: BatchView { stage: Stage::Persisting, ..s },
            names,
            turn: TurnView { notice, request: RequestView::Persist },
        }
    }
}

/// Gives the remaining items up and asks to persist what was recorded so far.
pub open spec fn fail(s: BatchView, names: Names, failure: Failure) -> Outcome {
    Outcome {
        batch: BatchView { stage: Stage::Persisting, failure: Some(failure), ..s },
        names,
        turn: TurnView { notice: None, request: RequestView::Persist },
    }
}

/// Announces the move of the current item and asks for it.
pub open spec fn start_move(s: BatchView, names: Names) -> Outcome {
    Outcome {
        batch: BatchView { stage: Stage::Moving, ..s },
        names,
        turn: TurnView {
            notice: Some(
                match s.mode {
                    Mode::Rename => NoticeView::Renaming { from: s.source, to: s.destination },
                    Mode::Revert => NoticeView::Reverting { from: s.source, to: s.destination },
                },
            ),
            request: RequestView::Move { from: s.source, to: s.destination },
        },
    }
}

/// Asks the user first where the batch confirms, else moves at once.
pub open spec fn approve(s: BatchView, names: Names) -> Outcome {
    if s.confirm {
        Outcome {
            batch: BatchView { stage: Stage::Confirming, ..s },
            names,
            turn: TurnView {
                notice: None,
                request: RequestView::Confirm { from: s.source, to: s.destination },
            },
        }
    } else {
        start_move(s, names)
    }
}

/// Refuses an event that does not answer what was asked.
pub open spec fn reject(s: BatchView, names: Names) -> Outcome {
    Outcome { batch: s, names, turn: TurnView { notice: None, request: RequestView::Rejected } }
}

/// What the answer to a probe leads to. A rename is skipped where a file
/// has the destination. A revert is skipped where the renamed file is gone,
/// and its entry stays.
pub open spec fn probed(s: BatchView, names: Names, exists: bool) -> Outcome {
    match s.mode {
        Mode::Rename => if exists {
            advance(s, names, Some(NoticeView::Collision { path: s.source }))
        } else {
            approve(s, names)
        },
        Mode::Revert => if !exists {
            advance(s, names, Some(NoticeView::Missing { path: s.source }))
        } else if names.contains_key(s.source) {
            approve(BatchView { destination: names[s.source], ..s }, names)
        } else {
            advance(s, names, None)
        },
    }
}

/// What a move that happened leads to: a rename is recorded, a revert is
/// struck from the record.
pub open spec fn moved(s: BatchView, names: Names) -> Outcome {
    advance(
        s,
        match s.mode {
            Mode::Rename => names.insert(s.destination, s.source),
            Mode::Revert => names.remove(s.source),
        },
        None,
    )
}

/// What the attempt to persist leads to: the end of the batch, with the
/// failure that stopped it, or else with the failure to persist.
pub open spec fn persisted(s: BatchView, names: Names, done: bool) -> Outcome {
    let failure = if s.failure is Some {
        s.failure
    } else if done {
        None
    } else {
        Some(Failure::Persist)
    };
    Outcome {
        batch: BatchView { stage: Stage::Finished, failure, ..s },
        names,
        turn: TurnView { notice: None, request: RequestView::Done { failure } },
    }
}

/// `beside` is `path` cut short at some point, then a separator or none,
/// then `name`.
pub open spec fn is_sibling(path: Seq<char>, name: Seq<char>, beside: Seq<char>) -> bool {
    exists|cut: int|
        0 <= cut <= path.len() && (beside == #[trigger] path.take(cut) + name || beside
            == path.take(cut) + seq!['/'] + name)
}

/// A sibling path ends with the name it was made for.
pub proof fn lemma_sibling_ends_with(path: Seq<char>, name: Seq<char>, beside: Seq<char>)
    requires
        is_sibling(path, name, beside),
    ensures
        ends_with(beside, name),
{
    let cut = choose|cut: int|
        0 <= cut <= path.len() && (beside == #[trigger] path.take(cut) + name || beside
            == path.take(cut) + seq!['/'] + name);
    let head = path.take(cut);
    if beside == head + name {
        assert(beside.skip(beside.len() - name.len()) =~= name);
    } else {
        assert(beside.skip(beside.len() - name.len()) =~= name);
    }
}

/// The name that `event` proposes to the batch `s`, where the batch is
/// waiting for a proposal and the event brings one.
pub open spec fn proposes(s: BatchView, event: Event) -> Option<Seq<char>> {
    match (s.stage, event) {
        (Stage::Suggesting, Event::Suggested { name: Some(name) }) => Some(name@),
        _ => None,
    }
}

/// The transition of a batch: where the batch `s` with the mapping `names`
/// goes on `event`. `sibling` is the path beside the current item that
/// ends with the proposed name; it matters only when a name is proposed.
pub open spec fn next(s: BatchView, names: Names, event: Event, sibling: Seq<char>) -> Outcome {
    match (s.stage, event) {
        (Stage::Fresh, Event::Begin) => advance(
            s,
            names,
            match s.mode {
                Mode::Rename => Some(NoticeView::Starting { count: s.items.len() }),
                Mode::Revert => None,
            },
        ),
        (Stage::Reading, Event::Contents { image, created }) => Outcome {
            batch: BatchView { stage: Stage::Suggesting, ..s },
            names,
            turn: TurnView {
                notice: None,
                request: RequestView::Suggest {
                    path: s.source,
                    image: image@,
                    date_hint: date_hint(image@, opt_text(created)),
                },
            },
        },
        (Stage::Reading, Event::Unreadable) => fail(s, names, Failure::Read),
        (Stage::Suggesting, Event::Suggested { name: None }) => advance(
            s,
            names,
            Some(NoticeView::NoSuggestion { path: s.source }),
        ),
        (Stage::Suggesting, Event::Suggested { name: Some(_) }) => Outcome {
            batch: BatchView { stage: Stage::Probing, destination: sibling, ..s },
            names,
            turn: TurnView {
                notice: None,
                request: RequestView::Probe { path: sibling, file_only: true },
            },
        },
        (Stage::Probing, Event::Probed { exists }) => probed(s, names, exists),
        (Stage::Confirming, Event::Answered { approved }) => if approved {
            start_move(s, names)
        } else {
            advance(s, names, Some(NoticeView::Declined { path: s.source }))
        },
        (Stage::Moving, Event::Moved { done }) => if done {
            moved(s, names)
        } else {
            fail(s, names, Failure::Move)
        },
        (Stage::Persisting, Event::Persisted { done }) => persisted(s, names, done),
        _ => reject(s, names),
    }
}

/// Calls `Path::with_file_name` on `path` and hands the result back as a
/// string. Trusted: the call cuts `path` back to its parent, or leaves it
/// whole where it has no file name, and extends it with `name`; a `name`
/// that is absolute takes the place of all of it. So the result is `path`
/// cut short, a separator where one is needed, and `name`. Where the cut
/// falls is for the path syntax of Unix to say and is not stated.
#[verifier::external_body]
fn sibling_path(path: &str, name: &str) -> (r: String)
    ensures
        is_sibling(path@, name@, r@),
{
    std::path::Path::new(path).with_file_name(name).to_string_lossy().into_owned()
}

/// Whether `key` is one of `paths`.
fn listed(paths: &Vec<String>, key: &str) -> (b: bool)
    ensures
        b == texts(paths@).contains(key@),
{
    let mut i: usize = 0;
    while i < paths.len()
        invariant
            i <= paths.len(),
            forall|j: int| 0 <= j < i ==> texts(paths@)[j] != key@,
        decreases paths.len() - i,
    {
        if rank(paths[i].as_str(), key) == Rank::Same {
            assert(texts(paths@)[i as int] == key@);
            return true;
        }
        i += 1;
    }
    false
}

/// The renamed paths that a revert of `paths` goes through.
pub fn targets(mapping: &RevertMapping, paths: &Vec<String>) -> (list: Vec<String>)
    ensures
        texts(list@) == revert_targets(mapping.key_seq(), texts(paths@)),
{
    let keys = mapping.keys();
    if paths.len() == 0 {
        return keys;
    }
    let ghost wanted = texts(paths@);
    let ghost pred = |key: Seq<char>| wanted.contains(key);
    let ghost all = texts(keys@);
    let mut list: Vec<String> = Vec::new();
    let mut i: usize = 0;
    assert(texts(list@) =~= all.take(0).filter(pred)) by {
        reveal(Seq::filter);
    }
    while i < keys.len()
        invariant
            i <= keys.len(),
            all == texts(keys@),
            wanted == texts(paths@),
            pred == (|key: Seq<char>| wanted.contains(key)),
            texts(list@) == all.take(i as int).filter(pred),
        decreases keys.len() - i,
    {
        proof {
            assert(all.take(i + 1) =~= all.take(i as int).push(all[i as int]));
            all.take(i as int).lemma_filter_push(all[i as int], pred);
        }
        let ghost was = list@;
        if listed(paths, keys[i].as_str()) {
            list.push(keys[i].clone());
            assert(texts(list@) =~= texts(was).push(all[i as int]));
        }
        i += 1;
    }
    assert(all.take(i as int) =~= all);
    list
}

/// A batch of renames or reverts in progress.
pub struct Batch {
    mode: Mode,
    confirm: bool,
    items: Vec<String>,
    position: usize,
    stage: Stage,
    source: String,
    destination: String,
    failure: Option<Failure>,
}

impl View for Batch {
    type V = BatchView;

    closed spec fn view(&self) -> BatchView {
        BatchView {
            mode: self.mode,
            confirm: self.confirm,
            items: texts(self.items@),
            position: self.position as nat,
            stage: self.stage,
            source: self.source@,
            destination: self.destination@,
            failure: self.failure,
        }
    }
}

impl Batch {
    /// A batch that renames the candidates, asking the user before each
    /// rename where `confirm` is set.
    pub fn rename_files(candidates: Vec<String>, confirm: bool) -> (batch: Self)
        ensures
            batch@ == fresh(Mode::Rename, confirm, texts(candidates@)),
    {
        Batch {
            mode: Mode::Rename,
            confirm,
            items: candidates,
            position: 0,
            stage: Stage::Fresh,
            source: String::new(),
            destination: String::new(),
            failure: None,
        }
    }

    /// A batch that reverts the renames recorded in `mapping`: all of them
    /// where `paths` is empty, else those of the renamed paths in `paths`.
    pub fn revert_filenames(mapping: &RevertMapping, paths: &Vec<String>, confirm: bool) -> (batch:
        Self)
        ensures
            batch@ == fresh(
                Mode::Revert,
                confirm,
                revert_targets(mapping.key_seq(), texts(paths@)),
            ),
    {
        Batch {
            mode: Mode::Revert,
            confirm,
            items: targets(mapping, paths),
            position: 0,
            stage: Stage::Fresh,
            source: String::new(),
            destination: String::new(),
            failure: None,
        }
    }

    /// Which answer the batch is waiting for.
    pub fn stage(&self) -> (stage: Stage)
        ensures
            stage == self@.stage,
    {
        self.stage
    }

    /// Why the batch stopped early, if it did.
    pub fn failure(&self) -> (failure: Option<Failure>)
        ensures
            failure == self@.failure,
    {
        self.failure
    }

    /// Whether the batch is over.
    pub fn is_finished(&self) -> (b: bool)
        ensures
            b == (self@.stage == Stage::Finished),
    {
        self.stage == Stage::Finished
    }

    /// Takes up the next item, or asks to persist where none is left.
    fn advance(&mut self, notice: Option<Notice>) -> (turn: Turn)
        ensures
            final(self)@ == advance(old(self)@, Map::empty(), turn@.notice).batch,
            turn@ == advance(
                old(self)@,
                Map::empty(),
                match notice {
                    Some(notice) => Some(notice@),
                    None => None,
                },
            ).turn,
    {
        if self.position < self.items.len() {
            let path = self.items[self.position].clone();
            assert(path@ == texts(self.items@)[self.position as int]);
            let request = match self.mode {
                Mode::Rename => Request::Read { path: path.clone() },
                Mode::Revert => Request::Probe { path: path.clone(), file_only: false },
            };
            self.stage = match self.mode {
                Mode::Rename => Stage::Reading,
                Mode::Revert => Stage::Probing,
            };
            self.source = path;
            self.position = self.position + 1;
            Turn { notice, request }
        } else {
            self.stage = Stage::Persisting;
            Turn { notice, request: Request::Persist }
        }
    }

    /// Gives the remaining items up and asks to persist.
    fn fail(&mut self, failure: Failure) -> (turn: Turn)
        ensures
            final(self)@ == fail(old(self)@, Map::empty(), failure).batch,
            turn@ == fail(old(self)@, Map::empty(), failure).turn,
    {
        self.stage = Stage::Persisting;
        self.failure = Some(failure);
        Turn { notice: None, request: Request::Persist }
    }

    /// Announces the move of the current item and asks for it.
    fn start_move(&mut self) -> (turn: Turn)
        ensures
            final(self)@ == start_move(old(self)@, Map::empty()).batch,
            turn@ == start_move(old(self)@, Map::empty()).turn,
    {
        self.stage = Stage::Moving;
        let notice = match self.mode {
            Mode::Rename => Notice::Renaming {
                from: self.source.clone(),
                to: self.destination.clone(),
            },
            Mode::Revert => Notice::Reverting {
                from: self.source.clone(),
                to: self.destination.clone(),
            },
        };
        Turn {
            notice: Some(notice),
            request: Request::Move { from: self.source.clone(), to: self.destination.clone() },
        }
    }

    /// Asks the user first where the batch confirms, else moves at once.
    fn approve(&mut self) -> (turn: Turn)
        ensures
            final(self)@ == approve(old(self)@, Map::empty()).batch,
            turn@ == approve(old(self)@, Map::empty()).turn,
    {
        if self.confirm {
            self.stage = Stage::Confirming;
            Turn {
                notice: None,
                request: Request::Confirm {
                    from: self.source.clone(),
                    to: self.destination.clone(),
                },
            }
        } else {
            self.start_move()
        }
    }

    /// Decides on the answer to a probe.
    fn probed(&mut self, names: &RevertMapping, exists: bool) -> (turn: Turn)
        ensures
            final(self)@ == probed(old(self)@, names@, exists).batch,
            turn@ == probed(old(self)@, names@, exists).turn,
    {
        match self.mode {
            Mode::Rename => {
                if exists {
                    let notice = Notice::Collision { path: self.source.clone() };
                    self.advance(Some(notice))
                } else {
                    self.approve()
                }
            },
            Mode::Revert => {
                if !exists {
                    let notice = Notice::Missing { path: self.source.clone() };
                    self.advance(Some(notice))
                } else {
                    match names.lookup(self.source.as_str()) {
                        Some(original) => {
                            self.destination = original.clone();
                            self.approve()
                        },
                        None => self.advance(None),
                    }
                }
            },
        }
    }

    /// Records a move that happened and goes on.
    fn moved(&mut self, names: &mut RevertMapping) -> (turn: Turn)
        ensures
            final(self)@ == moved(old(self)@, old(names)@).batch,
            final(names)@ == moved(old(self)@, old(names)@).names,
            turn@ == moved(old(self)@, old(names)@).turn,
            final(names).wf(),
    {
        match self.mode {
            Mode::Rename => {
                names.insert(self.destination.clone(), self.source.clone());
            },
            Mode::Revert => {
                names.remove(self.source.as_str());
            },
        }
        self.advance(None)
    }

    /// Takes the answer to the last request and decides what comes next.
    ///
    /// The batch and the mapping go where `next` says, for the sibling path
    /// that the batch keeps as its destination. Where a name is proposed,
    /// that path is the path of the current item cut short, a separator or
    /// none, and the proposed name. An event that does not answer
    /// the last request changes nothing and is answered with
    /// `Request::Rejected`.
    pub fn step(&mut self, names: &mut RevertMapping, event: Event) -> (turn: Turn)
        ensures
            final(self)@ == next(old(self)@, old(names)@, event, final(self)@.destination).batch,
            final(names)@ == next(old(self)@, old(names)@, event, final(self)@.destination).names,
            turn@ == next(old(self)@, old(names)@, event, final(self)@.destination).turn,
            proposes(old(self)@, event) matches Some(name) ==> is_sibling(
                old(self)@.source,
                name,
                final(self)@.destination,
            ),
            proposes(old(self)@, event) matches Some(name) ==> ends_with(
                final(self)@.destination,
                name,
            ),
            final(names).wf(),
    {
        proof {
            use_type_invariant(&*names);
        }
        match (self.stage, event) {
            (Stage::Fresh, Event::Begin) => {
                let notice = match self.mode {
                    Mode::Rename => Some(Notice::Starting { count: self.items.len() }),
                    Mode::Revert => None,
                };
                self.advance(notice)
            },
            (Stage::Reading, Event::Contents { image, created }) => {
                let hint = file_date(image.as_slice(), created);
                self.stage = Stage::Suggesting;
                Turn {
                    notice: None,
                    request: Request::Suggest { path: self.source.clone(), image, date_hint: hint },
                }
            },
            (Stage::Reading, Event::Unreadable) => self.fail(Failure::Read),
            (Stage::Suggesting, Event::Suggested { name: None }) => {
                let notice = Notice::NoSuggestion { path: self.source.clone() };
                self.advance(Some(notice))
            },
            (Stage::Suggesting, Event::Suggested { name: Some(name) }) => {
                self.destination = sibling_path(self.source.as_str(), name.as_str());
                proof {
                    lemma_sibling_ends_with(self.source@, name@, self.destination@);
                }
                self.stage = Stage::Probing;
                Turn {
                    notice: None,
                    request: Request::Probe { path: self.destination.clone(), file_only: true },
                }
            },
            (Stage::Probing, Event::Probed { exists }) => self.probed(names, exists),
            (Stage::Confirming, Event::Answered { approved }) => {
                if approved {
                    self.start_move()
                } else {
                    let notice = Notice::Declined { path: self.source.clone() };
                    self.advance(Some(notice))
                }
            },
            (Stage::Moving, Event::Moved { done }) => {
                if done {
                    self.moved(names)
                } else {
                    self.fail(Failure::Move)
                }
            },
            (Stage::Persisting, Event::Persisted { done }) => {
                let failure = if self.failure.is_some() {
                    self.failure
                } else if done {
                    None
                } else {
                    Some(Failure::Persist)
                };
                self.stage = Stage::Finished;
                self.failure = failure;
                Turn { notice: None, request: Request::Done { failure } }
            },
            _ => Turn { notice: None, request: Request::Rejected },
        }
    }
}

} // verus!
