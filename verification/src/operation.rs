//! The operation of a run, and what it asks of one host: the command to
//! execute, or the paths between which a file travels.

use crate::error::{annotated, HostError};
use crate::path::{
    append_path, appended, base_name, file_name, is_absolute, lemma_appended_below,
    lemma_base_name_is_component, path_is_absolute,
};
use crate::server::{home_dir, host_label, HostView, SessionInfo};
use vstd::prelude::*;

verus! {

/// The permission bits of an uploaded file: read and write for the owner,
/// read for everyone else.
pub const UPLOAD_MODE: i32 = 0o644;

/// The cause reported when an upload's local file has no name to go by.
pub const NO_LOCAL_NAME: &'static str = "从localfile中解析filename失败";

/// The cause reported when a download's remote file has no name to go by.
pub const NO_REMOTE_NAME: &'static str = "从remote_path中解析filename失败";

/// The single action of a run, applied once to every connected host.
#[derive(Debug)]
pub enum Operation {
    /// Run a command and capture what it prints.
    Exec { command: String },
    /// Fetch one file from the host.
    Get { remote_file: String, local_dir: String },
    /// Send one file to the host.
    Put { local_file: String, remote_dir: String },
}

/// What an `Operation` holds, as mathematical values.
pub enum OperationView {
    Exec { command: Seq<char> },
    Get { remote_file: Seq<char>, local_dir: Seq<char> },
    Put { local_file: Seq<char>, remote_dir: Seq<char> },
}

impl View for Operation {
    type V = OperationView;

    open spec fn view(&self) -> OperationView {
        match self {
            Operation::Exec { command } => OperationView::Exec { command: command@ },
            Operation::Get { remote_file, local_dir } => OperationView::Get {
                remote_file: remote_file@,
                local_dir: local_dir@,
            },
            Operation::Put { local_file, remote_dir } => OperationView::Put {
                local_file: local_file@,
                remote_dir: remote_dir@,
            },
        }
    }
}

impl Clone for Operation {
    fn clone(&self) -> (copy: Self)
        ensures
            copy@ == self@,
    {
        match self {
            Operation::Exec { command } => Operation::Exec { command: command.clone() },
            Operation::Get { remote_file, local_dir } => Operation::Get {
                remote_file: remote_file.clone(),
                local_dir: local_dir.clone(),
            },
            Operation::Put { local_file, remote_dir } => Operation::Put {
                local_file: local_file.clone(),
                remote_dir: remote_dir.clone(),
            },
        }
    }
}

/// The texts of a sequence of words, in order.
pub open spec fn word_views(words: Seq<String>) -> Seq<Seq<char>> {
    Seq::new(words.len(), |i: int| words[i]@)
}

/// The words in order, with one space between each two of them.
pub open spec fn spaced(words: Seq<Seq<char>>) -> Seq<char>
    decreases words.len(),
{
    if words.len() == 0 {
        Seq::empty()
    } else if words.len() == 1 {
        words[0]
    } else {
        spaced(words.drop_last()) + " "@ + words.last()
    }
}

/// The command that the words of a statement make: the words in order, with
/// one space between each two of them.
pub fn command_line(statement: &Vec<String>) -> (command: String)
    ensures
        command@ == spaced(word_views(statement@)),
{
    let mut command = String::new();
    let mut i: usize = 0;
    while i < statement.len()
        invariant
            i <= statement.len(),
            command@ == spaced(word_views(statement@).take(i as int)),
        decreases statement.len() - i,
    {
        proof {
            let all = word_views(statement@);
            assert(all.take(i + 1).drop_last() == all.take(i as int));
            assert(all.take(i + 1).last() == statement[i as int]@);
        }
        if i > 0 {
            command.append(" ");
        }
        command.append(statement[i].as_str());
        i += 1;
    }
    proof {
        let all = word_views(statement@);
        assert(all.take(i as int) == all);
    }
    command
}

impl Operation {
    /// The operation that runs the command made of the words of `statement`.
    pub fn exec(statement: &Vec<String>) -> (operation: Self)
        ensures
            operation@ == (OperationView::Exec { command: spaced(word_views(statement@)) }),
    {
        Operation::Exec { command: command_line(statement) }
    }
}

/// What an upload declares before any byte is sent.
#[derive(Debug)]
pub struct Upload {
    /// Where the file goes on the host.
    pub remote_path: String,
    /// The permission bits of the file.
    pub mode: i32,
    /// How many bytes will be sent.
    pub size: u64,
}

/// Where an upload goes on the host. An absolute `remote_dir` is the file's
/// path itself. A relative one is a directory below the user's home, and the
/// file keeps the base name of `local_file`; without a base name there is no
/// such path.
pub open spec fn upload_path(host: HostView, local_file: Seq<char>, remote_dir: Seq<char>) -> Option<
    Seq<char>,
> {
    if is_absolute(remote_dir) {
        Some(remote_dir)
    } else {
        match base_name(local_file) {
            Some(name) => Some(appended(appended(home_dir(host.user), remote_dir), name)),
            None => None,
        }
    }
}

/// Prepares the upload of the `length` bytes of `local_file` to the host
/// `info`. It fails, for this host, only where `upload_path` finds no path.
pub fn plan_upload(info: &SessionInfo, local_file: &str, remote_dir: &str, length: usize) -> (planned:
    Result<Upload, HostError>)
    ensures
        match upload_path(info@, local_file@, remote_dir@) {
            Some(path) => planned is Ok && planned->Ok_0.remote_path@ == path && planned->Ok_0.mode
                == UPLOAD_MODE && planned->Ok_0.size == length,
            None => planned is Err && planned->Err_0 is Transfer && planned->Err_0.message()
                == annotated(NO_LOCAL_NAME@, info@),
        },
{
    if path_is_absolute(remote_dir) {
        return Ok(
            Upload { remote_path: String::from_str(remote_dir), mode: UPLOAD_MODE, size: length as u64 },
        );
    }
    match file_name(local_file) {
        Some(name) => {
            let home = info.home_buf_path();
            let directory = append_path(home.as_str(), remote_dir);
            let remote_path = append_path(directory.as_str(), name.as_str());
            Ok(Upload { remote_path, mode: UPLOAD_MODE, size: length as u64 })
        },
        None => Err(HostError::transfer(NO_LOCAL_NAME, info)),
    }
}

/// What a download asks of the host.
#[derive(Debug)]
pub struct Download {
    /// The file to fetch, below the user's home on the host.
    pub remote_path: String,
    /// The base name of the file.
    pub file_name: String,
}

/// Prepares the download of `remote_file` from the host `info`: the file is
/// looked for below the user's home. It fails, for this host, exactly when
/// `remote_file` has no base name.
pub fn plan_download(info: &SessionInfo, remote_file: &str) -> (planned: Result<Download, HostError>)
    ensures
        match base_name(remote_file@) {
            Some(name) => planned is Ok && planned->Ok_0.remote_path@ == appended(
                home_dir(info@.user),
                remote_file@,
            ) && planned->Ok_0.file_name@ == name,
            None => planned is Err && planned->Err_0 is Transfer && planned->Err_0.message()
                == annotated(NO_REMOTE_NAME@, info@),
        },
{
    match file_name(remote_file) {
        Some(name) => {
            let home = info.home_buf_path();
            Ok(Download { remote_path: append_path(home.as_str(), remote_file), file_name: name })
        },
        None => Err(HostError::transfer(NO_REMOTE_NAME, info)),
    }
}

/// The name under which a downloaded file is kept in a directory: the host's
/// label, `_`, and the file's own name.
pub open spec fn kept_name(host: HostView, file_name: Seq<char>) -> Seq<char> {
    host_label(host) + "_"@ + file_name
}

/// Where a downloaded file is written. Where `local_dir` is a directory, the
/// file goes into it under its kept name; otherwise `local_dir` is the file's
/// path itself.
pub open spec fn download_path(
    host: HostView,
    file_name: Seq<char>,
    local_dir: Seq<char>,
    local_is_dir: bool,
) -> Seq<char> {
    if local_is_dir {
        appended(local_dir, kept_name(host, file_name))
    } else {
        local_dir
    }
}

/// The path at which the file named `file_name`, fetched from `info`, is
/// written; `local_is_dir` says whether `local_dir` is an existing directory.
pub fn local_destination(
    info: &SessionInfo,
    file_name: &str,
    local_dir: &str,
    local_is_dir: bool,
) -> (path: String)
    ensures
        path@ == download_path(info@, file_name@, local_dir@, local_is_dir),
{
    if local_is_dir {
        let mut name = info.hostname_ip();
        name.append("_");
        name.append(file_name);
        append_path(local_dir, name.as_str())
    } else {
        String::from_str(local_dir)
    }
}

/// A relative upload lands below the user's home, under the base name of the
/// local file, which names a single component.
pub proof fn lemma_upload_below_home(host: HostView, local_file: Seq<char>, remote_dir: Seq<char>)
    requires
        !is_absolute(remote_dir),
        base_name(local_file) is Some,
    ensures
        upload_path(host, local_file, remote_dir) is Some,
        home_dir(host.user).is_prefix_of(upload_path(host, local_file, remote_dir)->Some_0),
        base_name(local_file)->Some_0.is_suffix_of(
            upload_path(host, local_file, remote_dir)->Some_0,
        ),
        !base_name(local_file)->Some_0.contains('/'),
{
    let home = home_dir(host.user);
    let directory = appended(home, remote_dir);
    let name = base_name(local_file)->Some_0;
    let path = appended(directory, name);
    lemma_appended_below(home, remote_dir);
    lemma_appended_below(directory, name);
    lemma_base_name_is_component(local_file);
    assert(path.subrange(0, home.len() as int) == directory.subrange(0, home.len() as int));
}

/// A download into a directory lands inside that directory, under the kept
/// name; any other download lands at the path given.
pub proof fn lemma_download_inside(
    host: HostView,
    file_name: Seq<char>,
    local_dir: Seq<char>,
    local_is_dir: bool,
)
    ensures
        local_is_dir ==> local_dir.is_prefix_of(
            download_path(host, file_name, local_dir, local_is_dir),
        ) && kept_name(host, file_name).is_suffix_of(
            download_path(host, file_name, local_dir, local_is_dir),
        ),
        !local_is_dir ==> download_path(host, file_name, local_dir, local_is_dir) == local_dir,
{
    lemma_appended_below(local_dir, kept_name(host, file_name));
}

} // verus!
