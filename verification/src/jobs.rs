//! Bookkeeping of the server's transcription jobs: their numbers, the
//! names and paths of their files, and the conversion command.

use vstd::prelude::*;
use vstd::string::*;
use crate::text::{decimal, push_decimal, lemma_decimal_injective, has_substring, contains_text};
use crate::errors::{AppErr, INTERNAL_SERVER_ERROR, internal_error};

verus! {

/// The message of the error answered when no downloaded file has the
/// job's name.
pub const NO_FILE: &'static str = "no file";

/// The message of the error answered when the downloaded file has no
/// extension.
pub const NO_EXTENSION: &'static str = "error while read ext";

/// The field of an upload form that holds the file.
pub const UPLOAD_FIELD: &'static str = "file";

/// Numbers the jobs: 1, 2, 3, and so on.
#[derive(Debug)]
pub struct TempCounter {
    pub value: u64,
}

impl TempCounter {
    /// A counter that has numbered no job yet.
    pub fn new() -> (c: TempCounter)
        ensures
            c.value == 0,
    {
        TempCounter { value: 0 }
    }

    /// The number of the next job.
    pub fn next(&mut self) -> (n: u64)
        requires
            old(self).value < u64::MAX,
        ensures
            final(self).value == old(self).value + 1,
            n == final(self).value,
    {
        self.value = self.value + 1;
        self.value
    }
}

/// The base name of the files of job `n`.
pub open spec fn temp_name(n: nat) -> Seq<char> {
    "temp"@ + decimal(n)
}

/// The base name of the files of job `n`: `temp` and the number.
pub fn temp_file_name(n: u64) -> (name: String)
    ensures
        name@ == temp_name(n as nat),
{
    let mut name = String::from_str("temp");
    push_decimal(&mut name, n);
    name
}

/// Different jobs get different file names.
pub proof fn lemma_temp_names_distinct(a: nat, b: nat)
    requires
        a != b,
    ensures
        temp_name(a) != temp_name(b),
{
    if temp_name(a) == temp_name(b) {
        let k = "temp"@.len() as int;
        assert(temp_name(a).subrange(k, temp_name(a).len() as int) == decimal(a));
        assert(temp_name(b).subrange(k, temp_name(b).len() as int) == decimal(b));
        lemma_decimal_injective(a, b);
    }
}

/// Numbers handed out by calls of `next` one after another, starting from a
/// counter at `start`: each call returns the counter's value before it plus
/// one, and leaves the counter at what it returned.
pub open spec fn successive_numbers(start: nat, results: Seq<u64>) -> bool {
    forall|i: int|
        0 <= i < results.len() ==> #[trigger] results[i] == (if i == 0 {
            start
        } else {
            results[i - 1] as nat
        }) + 1
}

/// `k` calls of `next` in a row, from a counter at `start`, hand out exactly
/// `start + 1`, ..., `start + k`, each once, so no two of these jobs share a
/// file name; the counter is then at `start + k`. (Calls from several tasks
/// are one after another when they are made under one lock.)
pub proof fn lemma_successive_numbers(start: nat, results: Seq<u64>)
    requires
        successive_numbers(start, results),
    ensures
        forall|i: int| 0 <= i < results.len() ==> #[trigger] results[i] == start + i + 1,
        results.len() > 0 ==> results.last() == start + results.len(),
        results.no_duplicates(),
        results.to_set() =~= Set::new(|x: u64| start < x <= start + results.len()),
        forall|i: int, j: int|
            0 <= i < results.len() && 0 <= j < results.len() && i != j ==> temp_name(
                #[trigger] results[i] as nat,
            ) != temp_name(#[trigger] results[j] as nat),
    decreases results.len(),
{
    if results.len() > 0 {
        let prefix = results.drop_last();
        assert forall|i: int| 0 <= i < prefix.len() implies #[trigger] prefix[i] == (if i == 0 {
            start
        } else {
            prefix[i - 1] as nat
        }) + 1 by {
            assert(prefix[i] == results[i]);
            if i > 0 {
                assert(prefix[i - 1] == results[i - 1]);
            }
        }
        lemma_successive_numbers(start, prefix);
        assert forall|i: int| 0 <= i < results.len() implies #[trigger] results[i] == start + i
            + 1 by {
            if i < prefix.len() {
                assert(prefix[i] == results[i]);
            } else if i > 0 {
                assert(prefix[i - 1] == results[i - 1]);
            }
        }
        assert forall|x: u64| #[trigger] results.to_set().contains(x) == (start < x <= start
            + results.len()) by {
            if start < x <= start + results.len() {
                assert(results[x - start - 1] == x);
            }
        }
    }
    assert forall|i: int, j: int|
        0 <= i < results.len() && 0 <= j < results.len() && i != j implies temp_name(
        #[trigger] results[i] as nat,
    ) != temp_name(#[trigger] results[j] as nat) by {
        lemma_temp_names_distinct(results[i] as nat, results[j] as nat);
    }
}

/// `./folder/name`.
pub open spec fn in_folder(folder: Seq<char>, name: Seq<char>) -> Seq<char> {
    "./"@ + folder + "/"@ + name
}

/// Where the upload of job `file_name` is stored: `./folder/file_name`.
pub fn upload_file_path(folder: &str, file_name: &str) -> (p: String)
    ensures
        p@ == in_folder(folder@, file_name@),
{
    let mut p = String::from_str("./");
    p.append(folder);
    p.append("/");
    p.append(file_name);
    p
}

/// Where the download of job `file_name` lies, with its extension `ext`:
/// `./folder/file_name.ext`.
pub fn downloaded_file_path(folder: &str, file_name: &str, ext: &str) -> (p: String)
    ensures
        p@ == in_folder(folder@, file_name@ + "."@ + ext@),
{
    let mut p = String::from_str("./");
    p.append(folder);
    p.append("/");
    p.append(file_name);
    p.append(".");
    p.append(ext);
    assert(p@ =~= in_folder(folder@, file_name@ + "."@ + ext@));
    p
}

/// The name of the converted audio of job `file_name`: `file_name.wav`.
pub fn wav_file_name(file_name: &str) -> (n: String)
    ensures
        n@ == file_name@ + ".wav"@,
{
    let mut n = String::from_str(file_name);
    n.append(".wav");
    n
}

/// Where the converted audio of job `file_name` is written:
/// `./folder/file_name.wav`.
pub fn wav_file_path(folder: &str, file_name: &str) -> (p: String)
    ensures
        p@ == in_folder(folder@, file_name@ + ".wav"@),
{
    let mut p = String::from_str("./");
    p.append(folder);
    p.append("/");
    p.append(file_name);
    p.append(".wav");
    assert(p@ =~= in_folder(folder@, file_name@ + ".wav"@));
    p
}

/// The arguments of the ffmpeg run that converts `input` into the mono
/// audio file `output`, overwriting it, quietly.
pub open spec fn ffmpeg_args_spec(input: Seq<char>, output: Seq<char>) -> Seq<Seq<char>> {
    seq!["-y"@, "-i"@, input, "-ac"@, "1"@, "-loglevel"@, "quiet"@, output]
}

/// The arguments of the ffmpeg run that converts `input` into `output`.
pub fn ffmpeg_args(input: &str, output: &str) -> (args: Vec<String>)
    ensures
        args@.map_values(|a: String| a@) == ffmpeg_args_spec(input@, output@),
{
    let mut args: Vec<String> = Vec::new();
    args.push(String::from_str("-y"));
    args.push(String::from_str("-i"));
    args.push(String::from_str(input));
    args.push(String::from_str("-ac"));
    args.push(String::from_str("1"));
    args.push(String::from_str("-loglevel"));
    args.push(String::from_str("quiet"));
    args.push(String::from_str(output));
    assert(args@.map_values(|a: String| a@) =~= ffmpeg_args_spec(input@, output@));
    args
}

/// Whether an upload form field named `name` holds the file.
pub fn is_upload_field(name: &str) -> (b: bool)
    ensures
        b == (name@ == UPLOAD_FIELD@),
{
    let a = String::from_str(name);
    let f = String::from_str(UPLOAD_FIELD);
    a == f
}

/// What `Path::extension` gives for the path `path`, as text: the part of
/// its last component after the last dot, if there is one that does not
/// start the component.
pub uninterp spec fn extension_of(path: Seq<char>) -> Option<Seq<char>>;

/// Calls `std::path::Path::extension` on `path`. Its result is named: it
/// depends on the path alone, through the splitting of a path into
/// components.
#[verifier::external_body]
fn path_extension(path: &str) -> (ext: Option<String>)
    ensures
        match ext {
            Some(e) => extension_of(path@) == Some(e@),
            None => extension_of(path@) is None,
        },
{
    match std::path::Path::new(path).extension() {
        Some(e) => Some(e.to_string_lossy().into_owned()),
        None => None,
    }
}

/// The extension of the found file, or the error answered when it has
/// none.
pub fn extension_result(ext: Option<String>) -> (r: Result<String, AppErr>)
    ensures
        match ext {
            Some(e) => r matches Ok(x) && x@ == e@,
            None => r matches Err(err) && err.code == INTERNAL_SERVER_ERROR && err.msg@
                == NO_EXTENSION@,
        },
{
    match ext {
        Some(e) => Ok(e),
        None => Err(internal_error(NO_EXTENSION)),
    }
}

/// What the search for the extension of job `name` among the files
/// `paths` gives: the extension of the first path that contains `name`, or
/// the message of the error.
pub open spec fn ext_by_name_spec(paths: Seq<Seq<char>>, name: Seq<char>) -> Result<
    Seq<char>,
    Seq<char>,
>
    decreases paths.len(),
{
    if paths.len() == 0 {
        Err(NO_FILE@)
    } else if has_substring(paths[0], name) {
        match extension_of(paths[0]) {
            Some(e) => Ok(e),
            None => Err(NO_EXTENSION@),
        }
    } else {
        ext_by_name_spec(paths.drop_first(), name)
    }
}

/// The extension of the file, among those at `paths` (in the order the
/// directory listed them), whose path contains `file_name`.
pub fn ext_by_name(paths: &Vec<String>, file_name: &str) -> (r: Result<String, AppErr>)
    ensures
        match ext_by_name_spec(paths@.map_values(|p: String| p@), file_name@) {
            Ok(e) => r matches Ok(x) && x@ == e,
            Err(m) => r matches Err(err) && err.code == INTERNAL_SERVER_ERROR && err.msg@ == m,
        },
{
    let ghost views = paths@.map_values(|p: String| p@);
    assert(views.skip(0) =~= views);
    for k in 0..paths.len()
        invariant
            views == paths@.map_values(|p: String| p@),
            ext_by_name_spec(views, file_name@) == ext_by_name_spec(views.skip(k as int), file_name@),
    {
        proof {
            assert(views.skip(k as int)[0] == paths@[k as int]@);
            assert(views.skip(k as int).drop_first() =~= views.skip(k + 1));
        }
        if contains_text(paths[k].as_str(), file_name) {
            return extension_result(path_extension(paths[k].as_str()));
        }
    }
    assert(views.skip(paths.len() as int).len() == 0);
    Err(internal_error(NO_FILE))
}

} // verus!
