//! How a worker or a submitter is reached: by files in a directory, by files with a
//! common prefix, or by a socket.
use crate::error::{ErrorKind, PoolError};
use crate::ids::{fresh_uuid, is_uuid};
use crate::constants::{
    READY_FILE, READY_SUFFIX, RESPONSE_FILE, TASK_FILE, TASK_SUFFIX, WORKER_RESPONSE_SUFFIX,
};
use crate::path::{Parts, inner, join, joined, law_join_adds_one_component, outer, parts, plain_name};
use crate::text::concat3;
use vstd::prelude::*;

verus! {

/// The way to one worker or submitter.
#[derive(Debug, Clone, PartialEq, Eq)]
pub enum Transport {
    /// Files `<dir>/<filename>`; for a submission, the request file itself.
    Directory(String),
    /// Files `<dir>/<uuid>.<filename>`.
    FlatFile {
        /// The directory that holds the files.
        dir: String,
        /// What the names begin with.
        uuid: String,
    },
    /// An open connection, by its number.
    Socket(u64),
}

/// A transport's texts.
pub enum Way {
    /// See [`Transport::Directory`].
    Directory(Seq<char>),
    /// See [`Transport::FlatFile`].
    FlatFile {
        /// The directory that holds the files.
        dir: Seq<char>,
        /// What the names begin with.
        uuid: Seq<char>,
    },
    /// See [`Transport::Socket`].
    Socket(u64),
}

impl View for Transport {
    type V = Way;

    open spec fn view(&self) -> Way {
        match self {
            Transport::Directory(path) => Way::Directory(path@),
            Transport::FlatFile { dir, uuid } => Way::FlatFile { dir: dir@, uuid: uuid@ },
            Transport::Socket(number) => Way::Socket(*number),
        }
    }
}

/// A file to be written whole: the content goes to `temp`, which is then renamed to
/// `target`.
#[derive(Debug, Clone, PartialEq, Eq)]
pub struct AtomicWrite {
    /// The file that is written.
    pub temp: String,
    /// What it is renamed to.
    pub target: String,
    /// The content.
    pub content: String,
    /// What is said, before the cause, when writing fails.
    pub write_error: String,
    /// What is said, before the cause, when renaming fails.
    pub rename_error: String,
}

/// The texts of an [`AtomicWrite`].
#[verifier::ext_equal]
pub struct WriteText {
    /// The file that is written.
    pub temp: Seq<char>,
    /// What it is renamed to.
    pub target: Seq<char>,
    /// The content.
    pub content: Seq<char>,
    /// What is said, before the cause, when writing fails.
    pub write_error: Seq<char>,
    /// What is said, before the cause, when renaming fails.
    pub rename_error: Seq<char>,
}

impl View for AtomicWrite {
    type V = WriteText;

    open spec fn view(&self) -> WriteText {
        WriteText {
            temp: self.temp@,
            target: self.target@,
            content: self.content@,
            write_error: self.write_error@,
            rename_error: self.rename_error@,
        }
    }
}

/// A write of `content` to `dir/name` by way of a hidden file beside it.
pub open spec fn write_beside(
    dir: Seq<char>,
    name: Seq<char>,
    content: Seq<char>,
    unique: Seq<char>,
    write_code: Seq<char>,
    rename_code: Seq<char>,
) -> WriteText {
    let temp = joined(dir, "."@ + name + "."@ + unique + ".tmp"@);
    let target = joined(dir, name);
    WriteText {
        temp,
        target,
        content,
        write_error: write_code + " failed to write temp file "@ + temp + ": "@,
        rename_error: rename_code + " failed to rename "@ + temp + " to "@ + target + ": "@,
    }
}

/// How a file is written over a transport; nothing for a socket.
pub open spec fn write_over(
    way: Way,
    filename: Seq<char>,
    content: Seq<char>,
    unique: Seq<char>,
) -> Option<WriteText> {
    match way {
        Way::Directory(path) => Some(
            write_beside(path, filename, content, unique, "[E061]"@, "[E062]"@),
        ),
        Way::FlatFile { dir, uuid } => Some(
            write_beside(
                dir,
                uuid + "."@ + filename,
                content,
                unique,
                "[E063]"@,
                "[E064]"@,
            ),
        ),
        Way::Socket(number) => None,
    }
}

/// Where a file of the transport lies; nothing for a socket.
pub open spec fn file_over(way: Way, filename: Seq<char>) -> Option<Seq<char>> {
    match way {
        Way::Directory(path) => Some(joined(path, filename)),
        Way::FlatFile { dir, uuid } => Some(joined(dir, uuid + "."@ + filename)),
        Way::Socket(number) => None,
    }
}

/// The directory of a transport; nothing for a socket.
pub open spec fn dir_of(way: Way) -> Option<Seq<char>> {
    match way {
        Way::Directory(path) => Some(path),
        Way::FlatFile { dir, uuid } => Some(dir),
        Way::Socket(number) => None,
    }
}

/// A write of `content` to `dir/name` by way of a hidden file beside it.
pub fn plan_write(
    dir: &str,
    name: &str,
    content: &str,
    unique: &str,
    write_code: &str,
    rename_code: &str,
) -> (r: AtomicWrite)
    ensures
        r@ == write_beside(dir@, name@, content@, unique@, write_code@, rename_code@),
{
    let mut hidden = concat3(".", name, ".");
    hidden.append(unique);
    hidden.append(".tmp");
    let temp = join(dir, &hidden);
    let target = join(dir, name);
    let mut write_error = concat3(write_code, " failed to write temp file ", &temp);
    write_error.append(": ");
    let mut rename_error = concat3(rename_code, " failed to rename ", &temp);
    rename_error.append(" to ");
    rename_error.append(&target);
    rename_error.append(": ");
    AtomicWrite { temp, target, content: content.to_owned(), write_error, rename_error }
}

impl Transport {
    /// The file to read: `<dir>/<filename>`, or `<dir>/<uuid>.<filename>`. A socket
    /// cannot be read.
    pub fn read(&self, filename: &str) -> (r: Result<String, PoolError>)
        ensures
            match r {
                Ok(path) => file_over(self@, filename@) == Some(path@),
                Err(error) => file_over(self@, filename@) is None && error.says(
                    ErrorKind::Unsupported,
                    "[E027] socket read not yet implemented"@,
                ),
            },
    {
        match self {
            Transport::Directory(path) => Ok(join(path, filename)),
            Transport::FlatFile { dir, uuid } => Ok(join(dir, &concat3(uuid, ".", filename))),
            Transport::Socket(_) => Err(
                PoolError::new(ErrorKind::Unsupported, "[E027] socket read not yet implemented"),
            ),
        }
    }

    /// How to write a file, with `unique` in the name of the temporary file. A socket
    /// cannot be written.
    pub fn write_with(&self, filename: &str, content: &str, unique: &str) -> (r: Result<
        AtomicWrite,
        PoolError,
    >)
        ensures
            match r {
                Ok(write) => write_over(self@, filename@, content@, unique@) == Some(write@),
                Err(error) => self@ is Socket && error.says(
                    ErrorKind::Unsupported,
                    "[E028] socket write not yet implemented"@,
                ),
            },
    {
        match self {
            Transport::Directory(path) => Ok(
                plan_write(path, filename, content, unique, "[E061]", "[E062]"),
            ),
            Transport::FlatFile { dir, uuid } => Ok(
                plan_write(
                    dir,
                    &concat3(uuid, ".", filename),
                    content,
                    unique,
                    "[E063]",
                    "[E064]",
                ),
            ),
            Transport::Socket(_) => Err(
                PoolError::new(ErrorKind::Unsupported, "[E028] socket write not yet implemented"),
            ),
        }
    }

    /// How to write a file, with a fresh UUID in the name of the temporary file.
    pub fn write(&self, filename: &str, content: &str) -> (r: Result<AtomicWrite, PoolError>)
        ensures
            match r {
                Ok(write) => exists|unique: Seq<char>|
                    is_uuid(unique) && #[trigger] write_over(self@, filename@, content@, unique)
                        == Some(write@),
                Err(error) => self@ is Socket && error.says(
                    ErrorKind::Unsupported,
                    "[E028] socket write not yet implemented"@,
                ),
            },
    {
        let unique = fresh_uuid();
        self.write_with(filename, content, &unique)
    }

    /// The transport's directory.
    pub fn path(&self) -> (r: Option<&str>)
        ensures
            match r {
                Some(path) => dir_of(self@) == Some(path@),
                None => dir_of(self@) is None,
            },
    {
        match self {
            Transport::Directory(path) => Some(path.as_str()),
            Transport::FlatFile { dir, uuid } => Some(dir.as_str()),
            Transport::Socket(_) => None,
        }
    }
}

/// What is read is what was written: a file that was written over a transport is found
/// where a read of it looks, with the content that was given.
pub proof fn law_read_finds_what_was_written(
    way: Way,
    filename: Seq<char>,
    content: Seq<char>,
    unique: Seq<char>,
)
    ensures
        write_over(way, filename, content, unique) is Some <==> file_over(way, filename) is Some,
        write_over(way, filename, content, unique) matches Some(write) ==> Some(write.target)
            == file_over(way, filename) && write.content == content,
{
}

/// The flat files of a worker are the files of the protocol: the task file, the answer and
/// the ready file that are named by its UUID.
pub proof fn law_flat_files_are_the_protocols(dir: Seq<char>, uuid: Seq<char>)
    ensures
        ({
            let way = Way::FlatFile { dir, uuid };
            &&& file_over(way, TASK_FILE@) == Some(joined(dir, uuid + TASK_SUFFIX@))
            &&& file_over(way, RESPONSE_FILE@) == Some(joined(dir, uuid + WORKER_RESPONSE_SUFFIX@))
            &&& file_over(way, READY_FILE@) == Some(joined(dir, uuid + READY_SUFFIX@))
        }),
{
    reveal_strlit(".");
    reveal_strlit("task.json");
    reveal_strlit(".task.json");
    reveal_strlit("response.json");
    reveal_strlit(".response.json");
    reveal_strlit("ready.json");
    reveal_strlit(".ready.json");
    assert("."@ + TASK_FILE@ =~= TASK_SUFFIX@);
    assert("."@ + RESPONSE_FILE@ =~= WORKER_RESPONSE_SUFFIX@);
    assert("."@ + READY_FILE@ =~= READY_SUFFIX@);
    assert(uuid + "."@ + TASK_FILE@ =~= uuid + ("."@ + TASK_FILE@));
    assert(uuid + "."@ + RESPONSE_FILE@ =~= uuid + ("."@ + RESPONSE_FILE@));
    assert(uuid + "."@ + READY_FILE@ =~= uuid + ("."@ + READY_FILE@));
}

/// The temporary file lies in the directory of the file that it becomes, so that renaming
/// stays within one file system.
pub proof fn law_temporary_file_is_beside_target(
    dir: Seq<char>,
    name: Seq<char>,
    content: Seq<char>,
    unique: Seq<char>,
    write_code: Seq<char>,
    rename_code: Seq<char>,
)
    requires
        plain_name(name),
        !unique.contains('/'),
    ensures
        ({
            let write = write_beside(dir, name, content, unique, write_code, rename_code);
            &&& outer(parts(write.temp)) == parts(dir)
            &&& outer(parts(write.target)) == parts(dir)
            &&& parts(write.temp) != parts(write.target)
        }),
{
    reveal_strlit(".");
    reveal_strlit(".tmp");
    let hidden = "."@ + name + "."@ + unique + ".tmp"@;
    assert forall|i: int| 0 <= i < hidden.len() implies hidden[i] != '/' by {
        if 1 <= i < 1 + name.len() {
            assert(hidden[i] == name[i - 1]);
            assert(name.contains(name[i - 1]));
        } else if 2 + name.len() <= i < 2 + name.len() + unique.len() {
            assert(hidden[i] == unique[i - 2 - name.len()]);
            assert(unique.contains(unique[i - 2 - name.len()]));
        }
    }
    assert(hidden.len() > name.len());
    assert(seq!['.'].len() == 1);
    law_join_adds_one_component(dir, name);
    law_join_adds_one_component(dir, hidden);
    assert(inner(parts(dir), name).names.drop_last() =~= parts(dir).names);
    assert(inner(parts(dir), hidden).names.drop_last() =~= parts(dir).names);
    assert(inner(parts(dir), name).names.last() == name);
    assert(inner(parts(dir), hidden).names.last() == hidden);
}

/// Files and what they hold, while a write is under way: so much of the content is in the
/// temporary file.
pub open spec fn while_writing(files: Map<Parts, Seq<char>>, write: WriteText, so_far: Seq<char>) -> Map<
    Parts,
    Seq<char>,
> {
    files.insert(parts(write.temp), so_far)
}

/// Files and what they hold, once a write is done: the temporary file, whole, was renamed.
pub open spec fn once_written(files: Map<Parts, Seq<char>>, write: WriteText) -> Map<
    Parts,
    Seq<char>,
> {
    while_writing(files, write, write.content).remove(parts(write.temp)).insert(
        parts(write.target),
        write.content,
    )
}

/// A file is never there with a part of its content: until the write is done the file is as it
/// was, and then it holds all of it; the temporary file is gone, and no other file has changed.
pub proof fn law_file_is_never_partly_written(
    files: Map<Parts, Seq<char>>,
    write: WriteText,
    so_far: Seq<char>,
)
    requires
        parts(write.temp) != parts(write.target),
    ensures
        ({
            let target = parts(write.target);
            let during = while_writing(files, write, so_far);
            let after = once_written(files, write);
            &&& during.contains_key(target) == files.contains_key(target)
            &&& files.contains_key(target) ==> during[target] == files[target]
            &&& after.contains_key(target)
            &&& after[target] == write.content
            &&& !after.contains_key(parts(write.temp))
            &&& forall|other: Parts|
                other != target && other != parts(write.temp) ==> {
                    &&& #[trigger] after.contains_key(other) == files.contains_key(other)
                    &&& files.contains_key(other) ==> after[other] == files[other]
                }
        }),
{
}

/// The files of a way lie in its directory, each under a name of its own.
pub proof fn law_files_lie_in_the_directory(way: Way, filename: Seq<char>, other: Seq<char>)
    requires
        plain_name(filename),
        plain_name(other),
        way matches Way::FlatFile { dir, uuid } ==> !uuid.contains('/'),
    ensures
        dir_of(way) is Some <==> file_over(way, filename) is Some,
        way is Socket <==> dir_of(way) is None,
        dir_of(way) matches Some(dir) ==> outer(parts(file_over(way, filename)->0)) == parts(dir),
        dir_of(way) is Some && filename != other ==> parts(file_over(way, filename)->0) != parts(
            file_over(way, other)->0,
        ),
{
    match way {
        Way::Directory(path) => {
            law_join_adds_one_component(path, filename);
            law_join_adds_one_component(path, other);
            assert(inner(parts(path), filename).names.drop_last() =~= parts(path).names);
            assert(inner(parts(path), filename).names.last() == filename);
            assert(inner(parts(path), other).names.last() == other);
        },
        Way::FlatFile { dir, uuid } => {
            reveal_strlit(".");
            let one = uuid + "."@ + filename;
            let two = uuid + "."@ + other;
            lemma_flat_name(uuid, filename);
            lemma_flat_name(uuid, other);
            law_join_adds_one_component(dir, one);
            law_join_adds_one_component(dir, two);
            assert(inner(parts(dir), one).names.drop_last() =~= parts(dir).names);
            assert(inner(parts(dir), one).names.last() == one);
            assert(inner(parts(dir), two).names.last() == two);
            if one == two {
                assert(one.skip(uuid.len() as int + 1) =~= filename);
                assert(two.skip(uuid.len() as int + 1) =~= other);
            }
        },
        Way::Socket(number) => {},
    }
}

proof fn lemma_flat_name(uuid: Seq<char>, filename: Seq<char>)
    requires
        !uuid.contains('/'),
        plain_name(filename),
    ensures
        plain_name(uuid + "."@ + filename),
{
    reveal_strlit(".");
    let name = uuid + "."@ + filename;
    assert forall|i: int| 0 <= i < name.len() implies name[i] != '/' by {
        if i < uuid.len() {
            assert(uuid.contains(uuid[i]));
        } else if i > uuid.len() {
            assert(filename.contains(filename[i - uuid.len() - 1]));
        }
    }
    assert(name.len() > 1);
    assert(seq!['.'].len() == 1);
}

} // verus!
