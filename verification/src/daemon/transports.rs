//! The ways to the workers and submitters, by number and by path.
use super::machine::{SubmissionId, WorkerId};
use crate::decimal::{decimal, format_unsigned};
use crate::error::{ErrorKind, PoolError};
use crate::ids::{fresh_uuid, is_uuid};
use crate::path::{Parts, parts};
use crate::path_map::PathMap;
use crate::text::{concat2, concat3};
use crate::time::Duration;
use crate::transport::{AtomicWrite, Transport, Way, dir_of, file_over, write_over};
use std::collections::HashMap;
use vstd::prelude::*;

verus! {

broadcast use vstd::std_specs::hash::group_hash_axioms;

/// Numbers that ways are kept under.
pub trait TransportId: Sized + Copy {
    /// What is kept beside the way.
    type Data: View;

    /// The number itself.
    spec fn number_of(self) -> u32;

    /// The identifier with this number.
    spec fn of(number: u32) -> Self;

    /// How the identifier is shown.
    spec fn label_text(self) -> Seq<char>;

    /// The number itself.
    fn number(self) -> (r: u32)
        ensures
            r == self.number_of(),
    ;

    /// The identifier with this number.
    fn from_number(number: u32) -> (r: Self)
        ensures
            r == Self::of(number),
            r.number_of() == number,
    ;

    /// How the identifier is shown.
    fn label(self) -> (r: String)
        ensures
            r@ == self.label_text(),
    ;
}

impl TransportId for WorkerId {
    type Data = ();

    open spec fn number_of(self) -> u32 {
        self.0
    }

    open spec fn of(number: u32) -> WorkerId {
        WorkerId(number)
    }

    open spec fn label_text(self) -> Seq<char> {
        "WorkerId("@ + decimal(self.0 as nat) + ")"@
    }

    fn number(self) -> (r: u32) {
        self.0
    }

    fn from_number(number: u32) -> (r: WorkerId) {
        WorkerId(number)
    }

    fn label(self) -> (r: String) {
        concat3("WorkerId(", &format_unsigned(self.0 as u64), ")")
    }
}

/// What is kept of a submission.
#[derive(Debug, Clone, PartialEq, Eq)]
pub struct SubmissionData {
    /// The task's content.
    pub content: String,
    /// How long a worker has for the task.
    pub timeout: Duration,
}

/// A submission's content and time limit.
#[verifier::ext_equal]
pub struct Job {
    /// The task's content.
    pub content: Seq<char>,
    /// How long a worker has for the task.
    pub timeout: Duration,
}

impl View for SubmissionData {
    type V = Job;

    open spec fn view(&self) -> Job {
        Job { content: self.content@, timeout: self.timeout }
    }
}

impl TransportId for SubmissionId {
    type Data = SubmissionData;

    open spec fn number_of(self) -> u32 {
        self.0
    }

    open spec fn of(number: u32) -> SubmissionId {
        SubmissionId(number)
    }

    open spec fn label_text(self) -> Seq<char> {
        "SubmissionId("@ + decimal(self.0 as nat) + ")"@
    }

    fn number(self) -> (r: u32) {
        self.0
    }

    fn from_number(number: u32) -> (r: SubmissionId) {
        SubmissionId(number)
    }

    fn label(self) -> (r: String) {
        concat3("SubmissionId(", &format_unsigned(self.0 as u64), ")")
    }
}

/// The ways, each with what is kept beside it, by number and by path.
pub struct TransportMap<Id: TransportId> {
    entries: HashMap<u32, (Transport, Id::Data)>,
    path_to_id: PathMap,
    next_id: u32,
}

/// A table of ways.
#[verifier::ext_equal]
pub struct Table<D> {
    /// The ways, by number, each with what is kept beside it.
    pub entries: Map<u32, (Way, D)>,
    /// The numbers that paths stand for.
    pub paths: Map<Parts, u32>,
    /// The number that is given next.
    pub next_id: u32,
}

impl<D> Table<D> {
    /// Where a directory is kept under a number, its path stands for that number.
    pub open spec fn well_formed(self) -> bool {
        forall|id: u32| #[trigger]
            self.entries.contains_key(id) ==> match self.entries[id].0 {
                Way::Directory(path) => self.paths.contains_key(parts(path))
                    && self.paths[parts(path)] == id,
                _ => true,
            }
    }

    /// The table with a way kept under a number.
    pub open spec fn with_entry(self, id: u32, way: Way, data: D) -> Table<D> {
        Table { entries: self.entries.insert(id, (way, data)), ..self }
    }

    /// The table with a path that stands for a number.
    pub open spec fn with_path(self, path: Seq<char>, id: u32) -> Table<D> {
        Table { paths: self.paths.insert(parts(path), id), ..self }
    }

    /// The table after one more number was given.
    pub open spec fn advanced(self) -> Table<D> {
        Table { next_id: (self.next_id + 1) as u32, ..self }
    }

    /// The table without the way under a number. Only the path of a directory is
    /// forgotten with it.
    pub open spec fn without(self, id: u32) -> Table<D> {
        if !self.entries.contains_key(id) {
            self
        } else {
            Table {
                entries: self.entries.remove(id),
                paths: match self.entries[id].0 {
                    Way::Directory(path) => self.paths.remove(parts(path)),
                    _ => self.paths,
                },
                ..self
            }
        }
    }
}

impl<Id: TransportId> View for TransportMap<Id> {
    type V = Table<<Id::Data as View>::V>;

    closed spec fn view(&self) -> Table<<Id::Data as View>::V> {
        Table {
            entries: self.entries@.map_values(|entry: (Transport, Id::Data)| (entry.0@, entry.1@)),
            paths: self.path_to_id@,
            next_id: self.next_id,
        }
    }
}

impl<Id: TransportId> TransportMap<Id> {
    /// An empty map.
    pub fn new() -> (r: TransportMap<Id>)
        ensures
            r@.entries == Map::<u32, (Way, <Id::Data as View>::V)>::empty(),
            r@.paths == Map::<Parts, u32>::empty(),
            r@.next_id == 0,
            r@.well_formed(),
    {
        let r = TransportMap { entries: HashMap::new(), path_to_id: PathMap::new(), next_id: 0 };
        assert(r@.entries =~= Map::<u32, (Way, <Id::Data as View>::V)>::empty());
        r
    }

    /// Gives a number under which nothing is kept yet.
    pub fn allocate_id(&mut self) -> (r: Id)
        requires
            old(self)@.next_id < u32::MAX,
        ensures
            r == Id::of(old(self)@.next_id),
            r.number_of() == old(self)@.next_id,
            final(self)@ == old(self)@.advanced(),
    {
        let id = Id::from_number(self.next_id);
        self.next_id = self.next_id + 1;
        id
    }

    /// How many numbers are left to be given.
    pub fn numbers_left(&self) -> (r: u32)
        ensures
            r == u32::MAX - self@.next_id,
    {
        u32::MAX - self.next_id
    }

    /// Keeps a way under a number.
    fn keep(&mut self, number: u32, transport: Transport, data: Id::Data)
        ensures
            final(self)@ == old(self)@.with_entry(number, transport@, data@),
    {
        self.entries.insert(number, (transport, data));
        assert(self@.entries =~= old(self)@.entries.insert(number, (transport@, data@)));
    }

    /// Keeps a directory under a number that was given before, unless its path stands
    /// for a number already.
    pub fn register(&mut self, id: Id, path: String, data: Id::Data) -> (r: bool)
        requires
            old(self)@.well_formed(),
        ensures
            r == !old(self)@.paths.contains_key(parts(path@)),
            final(self)@ == if r {
                old(self)@.with_path(path@, id.number_of()).with_entry(
                    id.number_of(),
                    Way::Directory(path@),
                    data@,
                )
            } else {
                old(self)@
            },
            final(self)@.well_formed(),
    {
        if self.path_to_id.contains_key(&path) {
            return false;
        }
        self.path_to_id.insert(&path, id.number());
        let ghost mid = *self;
        assert(mid@ =~= old(self)@.with_path(path@, id.number_of()));
        self.keep(id.number(), Transport::Directory(path), data);
        true
    }

    /// Keeps a directory under a new number. The number is used up even where the path
    /// stands for a number already.
    pub fn register_directory(&mut self, path: String, data: Id::Data) -> (r: Option<Id>)
        requires
            old(self)@.well_formed(),
            old(self)@.next_id < u32::MAX,
        ensures
            match r {
                Some(id) => {
                    &&& !old(self)@.paths.contains_key(parts(path@))
                    &&& id == Id::of(old(self)@.next_id)
                    &&& id.number_of() == old(self)@.next_id
                    &&& final(self)@ == old(self)@.advanced().with_path(
                        path@,
                        old(self)@.next_id,
                    ).with_entry(old(self)@.next_id, Way::Directory(path@), data@)
                },
                None => {
                    &&& old(self)@.paths.contains_key(parts(path@))
                    &&& final(self)@ == old(self)@.advanced()
                },
            },
            final(self)@.well_formed(),
    {
        let id = self.allocate_id();
        if self.register(id, path, data) {
            Some(id)
        } else {
            None
        }
    }

    /// Keeps a connection under a new number.
    pub fn register_socket(&mut self, connection: u64, data: Id::Data) -> (r: Id)
        requires
            old(self)@.well_formed(),
            old(self)@.next_id < u32::MAX,
        ensures
            r == Id::of(old(self)@.next_id),
            r.number_of() == old(self)@.next_id,
            final(self)@ == old(self)@.advanced().with_entry(
                old(self)@.next_id,
                Way::Socket(connection),
                data@,
            ),
            final(self)@.well_formed(),
    {
        let id = self.allocate_id();
        self.keep(id.number(), Transport::Socket(connection), data);
        id
    }

    /// Keeps a connection under a number that was given before.
    pub fn register_socket_as(&mut self, id: Id, connection: u64, data: Id::Data)
        requires
            old(self)@.well_formed(),
        ensures
            final(self)@ == old(self)@.with_entry(
                id.number_of(),
                Way::Socket(connection),
                data@,
            ),
            final(self)@.well_formed(),
    {
        self.keep(id.number(), Transport::Socket(connection), data);
    }

    /// Keeps flat files under a new number, unless `key_path` stands for a number
    /// already; then no number is used up.
    pub fn register_flat_file(
        &mut self,
        key_path: String,
        dir: String,
        uuid: String,
        data: Id::Data,
    ) -> (r: Option<Id>)
        requires
            old(self)@.well_formed(),
            old(self)@.next_id < u32::MAX,
        ensures
            match r {
                Some(id) => {
                    &&& !old(self)@.paths.contains_key(parts(key_path@))
                    &&& id == Id::of(old(self)@.next_id)
                    &&& id.number_of() == old(self)@.next_id
                    &&& final(self)@ == old(self)@.advanced().with_path(
                        key_path@,
                        old(self)@.next_id,
                    ).with_entry(
                        old(self)@.next_id,
                        Way::FlatFile { dir: dir@, uuid: uuid@ },
                        data@,
                    )
                },
                None => {
                    &&& old(self)@.paths.contains_key(parts(key_path@))
                    &&& final(self)@ == old(self)@
                },
            },
            final(self)@.well_formed(),
    {
        if self.path_to_id.contains_key(&key_path) {
            return None;
        }
        let id = self.allocate_id();
        self.path_to_id.insert(&key_path, id.number());
        let ghost mid = *self;
        assert(mid@ =~= old(self)@.advanced().with_path(key_path@, id.number_of()));
        self.keep(id.number(), Transport::FlatFile { dir, uuid }, data);
        Some(id)
    }

    /// The way under a number.
    pub fn get_transport(&self, id: Id) -> (r: Option<&Transport>)
        ensures
            match r {
                Some(transport) => self@.entries.contains_key(id.number_of())
                    && self@.entries[id.number_of()].0 == transport@,
                None => !self@.entries.contains_key(id.number_of()),
            },
    {
        match self.entries.get(&id.number()) {
            Some(entry) => Some(&entry.0),
            None => None,
        }
    }

    /// What is kept beside the way under a number.
    pub fn get_data(&self, id: Id) -> (r: Option<&Id::Data>)
        ensures
            match r {
                Some(data) => self@.entries.contains_key(id.number_of())
                    && self@.entries[id.number_of()].1 == data@,
                None => !self@.entries.contains_key(id.number_of()),
            },
    {
        match self.entries.get(&id.number()) {
            Some(entry) => Some(&entry.1),
            None => None,
        }
    }

    /// What a path stands for.
    pub fn get_id_by_path(&self, path: &str) -> (r: Option<Id>)
        ensures
            match r {
                Some(id) => self@.paths.contains_key(parts(path@)) && id == Id::of(
                    self@.paths[parts(path@)],
                ),
                None => !self@.paths.contains_key(parts(path@)),
            },
    {
        match self.path_to_id.get(path) {
            Some(number) => Some(Id::from_number(number)),
            None => None,
        }
    }

    /// Takes out the way under a number, and hands it over with what was kept beside it.
    pub fn remove(&mut self, id: Id) -> (r: Option<(Transport, Id::Data)>)
        requires
            old(self)@.well_formed(),
        ensures
            match r {
                Some(entry) => old(self)@.entries.contains_key(id.number_of())
                    && old(self)@.entries[id.number_of()] == (entry.0@, entry.1@),
                None => !old(self)@.entries.contains_key(id.number_of()),
            },
            final(self)@ == old(self)@.without(id.number_of()),
            final(self)@.well_formed(),
    {
        let entry = self.entries.remove(&id.number());
        match entry {
            Some(entry) => {
                let ghost mid = *self;
                assert(mid@.entries =~= old(self)@.entries.remove(id.number_of()));
                if let Transport::Directory(path) = &entry.0 {
                    self.path_to_id.remove(path);
                }
                assert(self@ =~= old(self)@.without(id.number_of()));
                Some(entry)
            },
            None => {
                assert(self@ =~= old(self)@);
                None
            },
        }
    }

    /// How to write a file by the way under a number, with `unique` in the name of the
    /// temporary file.
    pub fn write_to_with(&self, id: Id, filename: &str, content: &str, unique: &str) -> (r: Result<
        AtomicWrite,
        PoolError,
    >)
        ensures
            match r {
                Ok(write) => self@.entries.contains_key(id.number_of()) && write_over(
                    self@.entries[id.number_of()].0,
                    filename@,
                    content@,
                    unique@,
                ) == Some(write@),
                Err(error) => {
                    ||| !self@.entries.contains_key(id.number_of()) && error.says(
                        ErrorKind::NotFound,
                        "[E009] transport not found for id "@ + id.label_text(),
                    )
                    ||| self@.entries.contains_key(id.number_of())
                        && self@.entries[id.number_of()].0 is Socket && error.says(
                        ErrorKind::Unsupported,
                        "[E028] socket write not yet implemented"@,
                    )
                },
            },
    {
        match self.get_transport(id) {
            Some(transport) => transport.write_with(filename, content, unique),
            None => Err(
                PoolError {
                    kind: ErrorKind::NotFound,
                    message: concat2("[E009] transport not found for id ", &id.label()),
                },
            ),
        }
    }

    /// How to write a file by the way under a number, with a fresh UUID in the name of the
    /// temporary file.
    pub fn write_to(&self, id: Id, filename: &str, content: &str) -> (r: Result<
        AtomicWrite,
        PoolError,
    >)
        ensures
            match r {
                Ok(write) => self@.entries.contains_key(id.number_of()) && exists|
                    unique: Seq<char>,
                |
                    is_uuid(unique) && #[trigger] write_over(
                        self@.entries[id.number_of()].0,
                        filename@,
                        content@,
                        unique,
                    ) == Some(write@),
                Err(error) => {
                    ||| !self@.entries.contains_key(id.number_of()) && error.says(
                        ErrorKind::NotFound,
                        "[E009] transport not found for id "@ + id.label_text(),
                    )
                    ||| self@.entries.contains_key(id.number_of())
                        && self@.entries[id.number_of()].0 is Socket && error.says(
                        ErrorKind::Unsupported,
                        "[E028] socket write not yet implemented"@,
                    )
                },
            },
    {
        let unique = fresh_uuid();
        self.write_to_with(id, filename, content, &unique)
    }

    /// The file to read by the way under a number.
    pub fn read_from(&self, id: Id, filename: &str) -> (r: Result<String, PoolError>)
        ensures
            match r {
                Ok(path) => self@.entries.contains_key(id.number_of()) && file_over(
                    self@.entries[id.number_of()].0,
                    filename@,
                ) == Some(path@),
                Err(error) => {
                    ||| !self@.entries.contains_key(id.number_of()) && error.says(
                        ErrorKind::NotFound,
                        "[E010] transport not found for id "@ + id.label_text(),
                    )
                    ||| self@.entries.contains_key(id.number_of())
                        && self@.entries[id.number_of()].0 is Socket && error.says(
                        ErrorKind::Unsupported,
                        "[E027] socket read not yet implemented"@,
                    )
                },
            },
    {
        match self.get_transport(id) {
            Some(transport) => transport.read(filename),
            None => Err(
                PoolError {
                    kind: ErrorKind::NotFound,
                    message: concat2("[E010] transport not found for id ", &id.label()),
                },
            ),
        }
    }

    /// The directory of the way under a number.
    pub fn get_path(&self, id: Id) -> (r: Option<&str>)
        ensures
            match r {
                Some(path) => self@.entries.contains_key(id.number_of()) && dir_of(
                    self@.entries[id.number_of()].0,
                ) == Some(path@),
                None => !self@.entries.contains_key(id.number_of()) || dir_of(
                    self@.entries[id.number_of()].0,
                ) is None,
            },
    {
        match self.get_transport(id) {
            Some(transport) => transport.path(),
            None => None,
        }
    }
}

/// The ways to the workers.
pub type WorkerMap = TransportMap<WorkerId>;

/// The ways to the submitters.
pub type SubmissionMap = TransportMap<SubmissionId>;

/// A directory that was kept under a new number is found under its path and under its number,
/// and its path cannot be kept a second time.
pub proof fn law_kept_directory_is_found<D>(table: Table<D>, path: Seq<char>, data: D)
    requires
        table.next_id < u32::MAX,
    ensures
        ({
            let id = table.next_id;
            let after = table.advanced().with_path(path, id).with_entry(
                id,
                Way::Directory(path),
                data,
            );
            &&& after.paths.contains_key(parts(path))
            &&& after.paths[parts(path)] == id
            &&& after.entries.contains_key(id)
            &&& after.entries[id] == (Way::Directory(path), data)
            &&& after.next_id == id + 1
        }),
{
}

/// Taking out a directory that was kept under a new number undoes the keeping: only the number
/// is used up.
pub proof fn law_removal_undoes_keeping<D>(table: Table<D>, path: Seq<char>, data: D)
    requires
        table.next_id < u32::MAX,
        !table.entries.contains_key(table.next_id),
        !table.paths.contains_key(parts(path)),
    ensures
        table.advanced().with_path(path, table.next_id).with_entry(
            table.next_id,
            Way::Directory(path),
            data,
        ).without(table.next_id) == table.advanced(),
{
    let id = table.next_id;
    let kept = table.advanced().with_path(path, id).with_entry(id, Way::Directory(path), data);
    assert(kept.without(id).entries =~= table.entries);
    assert(kept.without(id).paths =~= table.paths);
}

/// Taking out one way leaves the others as they are.
pub proof fn law_removal_leaves_others<D>(table: Table<D>, id: u32, other: u32)
    requires
        table.well_formed(),
        other != id,
        table.entries.contains_key(other),
    ensures
        table.without(id).entries.contains_key(other),
        table.without(id).entries[other] == table.entries[other],
        match table.entries[other].0 {
            Way::Directory(path) => table.without(id).paths.contains_key(parts(path))
                && table.without(id).paths[parts(path)] == other,
            _ => true,
        },
{
}

} // verus!
