//! Wallpapers that lie in a git repository.
//!
//! Running `git` and touching the file system is left to the caller. This
//! module says which commands to run in a scratch checkout, reads what they
//! print, and says where a wallpaper lies once it is checked out.

use crate::config::Config;
use crate::content_managers::wallpapers_of_kind;
use crate::content_managers::ContentManagerTypes;
use crate::random::is_random_name;
use crate::random::random_name;
use crate::text::lemma_texts_push;
use crate::text::texts;
use crate::wallpaper::wallpapers_view;
use crate::wallpaper::Wallpaper;
use crate::wallpaper::WallpaperView;
use vstd::prelude::*;
use vstd::string::StrSliceExecFns;
use vstd::string::StringSliceAdditionalSpecFns;
use vstd::string::StringExecFns;
use vstd::utf8::decode_utf8;
use vstd::utf8::valid_utf8;

verus! {

/// Why work in a scratch checkout failed.
#[derive(Debug)]
pub enum GitTempRepoError {
    CheckoutFailure,
    CloneFailure,
    NoHeadRev,
    NoFiles,
    IoError(String),
}

/// A command to run in the scratch checkout: its line, and the error that
/// its failure stands for.
#[derive(Debug)]
pub struct GitCommand {
    pub line: String,
    pub failure: GitTempRepoError,
}

/// Whether a character is white space, as `char::is_whitespace` says.
pub uninterp spec fn spec_is_whitespace(c: char) -> bool;

/// Whether `c` is white space, decided by `char::is_whitespace`, which goes
/// by the Unicode property of that name. The contract only names the result.
#[verifier::external_body]
fn is_whitespace(c: char) -> (r: bool)
    ensures
        r == spec_is_whitespace(c),
{
    c.is_whitespace()
}

/// The word, if there is one.
pub open spec fn word_if_any(word: Seq<char>) -> Seq<Seq<char>> {
    if word.len() > 0 {
        seq![word]
    } else {
        Seq::empty()
    }
}

/// The words of `text` that follow the unfinished word `word`.
pub open spec fn spec_words_from(text: Seq<char>, word: Seq<char>) -> Seq<Seq<char>>
    decreases text.len(),
{
    if text.len() == 0 {
        word_if_any(word)
    } else if spec_is_whitespace(text[0]) {
        word_if_any(word) + spec_words_from(text.drop_first(), Seq::empty())
    } else {
        spec_words_from(text.drop_first(), word.push(text[0]))
    }
}

/// The words of a command line: its longest runs of characters that are not
/// white space, in order.
pub open spec fn spec_words(line: Seq<char>) -> Seq<Seq<char>> {
    spec_words_from(line, Seq::empty())
}

/// Splits a command line into its words: the program first, then its
/// arguments. A line of white space only has no words.
pub fn command_words(line: &str) -> (words: Vec<String>)
    ensures
        texts(words@) == spec_words(line@),
{
    let n = line.unicode_len();
    let mut words: Vec<String> = Vec::new();
    let mut start: usize = 0;
    let mut i: usize = 0;
    proof {
        assert(line@.skip(0) =~= line@);
        assert(line@.subrange(0, 0) =~= Seq::<char>::empty());
        assert(texts(words@) =~= Seq::<Seq<char>>::empty());
        assert(texts(words@) + spec_words_from(line@, Seq::empty()) =~= spec_words(line@));
    }
    while i < n
        invariant
            start <= i <= n,
            n == line@.len(),
            spec_words(line@) == texts(words@) + spec_words_from(
                line@.skip(i as int),
                line@.subrange(start as int, i as int),
            ),
        decreases n - i,
    {
        let c = line.get_char(i);
        let ghost rest = line@.skip(i as int);
        let ghost word = line@.subrange(start as int, i as int);
        let ghost before = texts(words@);
        proof {
            assert(rest.drop_first() =~= line@.skip(i + 1));
            assert(rest[0] == c);
        }
        if is_whitespace(c) {
            if start < i {
                let found = line.substring_char(start, i).to_owned();
                words.push(found);
                assert(texts(words@) =~= before + seq![word]);
            }
            start = i + 1;
            proof {
                assert(line@.subrange(start as int, i + 1) =~= Seq::<char>::empty());
                assert(texts(words@) =~= before + word_if_any(word));
                assert(before + (word_if_any(word) + spec_words_from(
                    rest.drop_first(),
                    Seq::empty(),
                )) =~= (before + word_if_any(word)) + spec_words_from(
                    rest.drop_first(),
                    Seq::empty(),
                ));
            }
        } else {
            proof {
                assert(line@.subrange(start as int, i + 1) =~= word.push(c));
            }
        }
        i += 1;
    }
    let ghost word = line@.subrange(start as int, n as int);
    let ghost before = texts(words@);
    proof {
        assert(line@.skip(n as int) =~= Seq::<char>::empty());
    }
    if start < n {
        let found = line.substring_char(start, n).to_owned();
        words.push(found);
        assert(texts(words@) =~= before + seq![word]);
    }
    assert(texts(words@) =~= before + word_if_any(word));
    words
}

impl GitCommand {
    /// The words of the command: the program first, then its arguments.
    pub fn words(&self) -> (words: Vec<String>)
        ensures
            texts(words@) == spec_words(self.line@),
    {
        command_words(self.line.as_str())
    }
}

/// The text that the bytes encode, decoded by `String::from_utf8`: there is
/// one exactly where the bytes are valid UTF-8, and it is their decoding.
#[verifier::external_body]
fn text_of(bytes: Vec<u8>) -> (text: Option<String>)
    ensures
        match text {
            Some(text) => valid_utf8(bytes@) && text@ == decode_utf8(bytes@),
            None => !valid_utf8(bytes@),
        },
{
    String::from_utf8(bytes).ok()
}

/// The contents of a vector of byte strings.
pub open spec fn byte_lines(lines: Seq<Vec<u8>>) -> Seq<Seq<u8>> {
    lines.map_values(|line: Vec<u8>| line@)
}

/// A line without the carriage return that may end it.
pub open spec fn without_cr(line: Seq<u8>) -> Seq<u8> {
    if line.len() > 0 && line.last() == 13 {
        line.drop_last()
    } else {
        line
    }
}

/// The lines of `bytes` that follow the unfinished line `line`.
pub open spec fn spec_lines_from(bytes: Seq<u8>, line: Seq<u8>) -> Seq<Seq<u8>>
    decreases bytes.len(),
{
    if bytes.len() == 0 {
        if line.len() > 0 {
            seq![line]
        } else {
            Seq::empty()
        }
    } else if bytes[0] == 10 {
        seq![without_cr(line)] + spec_lines_from(bytes.drop_first(), Seq::empty())
    } else {
        spec_lines_from(bytes.drop_first(), line.push(bytes[0]))
    }
}

/// The lines of an output: each ends at a line feed, which is dropped
/// together with a carriage return before it; what follows the last line
/// feed is a line too, unless it is empty.
pub open spec fn spec_lines(bytes: Seq<u8>) -> Seq<Seq<u8>> {
    spec_lines_from(bytes, Seq::empty())
}

/// The text without any occurrence of `part`, found from left to right. An
/// empty `part` occurs nowhere.
pub open spec fn without(text: Seq<u8>, part: Seq<u8>) -> Seq<u8>
    decreases text.len(),
{
    if part.len() == 0 || text.len() == 0 {
        text
    } else if part.is_prefix_of(text) {
        without(text.skip(part.len() as int), part)
    } else {
        seq![text[0]] + without(text.drop_first(), part)
    }
}

/// The text without the slashes that it starts with.
pub open spec fn trim_slashes(text: Seq<u8>) -> Seq<u8>
    decreases text.len(),
{
    if text.len() > 0 && text[0] == 47 {
        trim_slashes(text.drop_first())
    } else {
        text
    }
}

/// The file that a line of the listing names relative to `path`: the line
/// must be text and start with `path`; then it is the line without any
/// occurrence of `path` and without the slashes left at its start.
pub open spec fn listed_file(line: Seq<u8>, path: Seq<u8>) -> Option<Seq<char>> {
    if valid_utf8(line) && path.is_prefix_of(line) && valid_utf8(
        trim_slashes(without(line, path)),
    ) {
        Some(decode_utf8(trim_slashes(without(line, path))))
    } else {
        None
    }
}

/// The files that the lines name relative to `path`, in order.
pub open spec fn spec_files(lines: Seq<Seq<u8>>, path: Seq<u8>) -> Seq<Seq<char>>
    decreases lines.len(),
{
    if lines.len() == 0 {
        Seq::empty()
    } else {
        match listed_file(lines.last(), path) {
            Some(file) => spec_files(lines.drop_last(), path).push(file),
            None => spec_files(lines.drop_last(), path),
        }
    }
}

/// The files under `path` that a listing of the repository's tree names.
pub open spec fn spec_ls_tree(listing: Seq<u8>, path: Seq<u8>) -> Seq<Seq<char>> {
    spec_files(spec_lines(listing), path)
}

/// The text without the line feeds that end it.
pub open spec fn trim_line_feeds(text: Seq<u8>) -> Seq<u8>
    decreases text.len(),
{
    if text.len() > 0 && text.last() == 10 {
        trim_line_feeds(text.drop_last())
    } else {
        text
    }
}

/// Cuts an output into its lines.
pub fn lines(bytes: &Vec<u8>) -> (found: Vec<Vec<u8>>)
    ensures
        byte_lines(found@) == spec_lines(bytes@),
{
    let mut found: Vec<Vec<u8>> = Vec::new();
    let mut line: Vec<u8> = Vec::new();
    let mut i: usize = 0;
    proof {
        assert(bytes@.skip(0) =~= bytes@);
        assert(byte_lines(found@) + spec_lines_from(bytes@, line@) =~= spec_lines(bytes@));
    }
    while i < bytes.len()
        invariant
            i <= bytes.len(),
            spec_lines(bytes@) == byte_lines(found@) + spec_lines_from(
                bytes@.skip(i as int),
                line@,
            ),
        decreases bytes.len() - i,
    {
        let ghost rest = bytes@.skip(i as int);
        let ghost before = byte_lines(found@);
        let ghost pending = line@;
        proof {
            assert(rest.drop_first() =~= bytes@.skip(i + 1));
            assert(rest[0] == bytes@[i as int]);
        }
        if bytes[i] == 10 {
            if line.len() > 0 && line[line.len() - 1] == 13 {
                line.pop();
            }
            assert(line@ =~= without_cr(pending));
            found.push(line);
            line = Vec::new();
            proof {
                assert(byte_lines(found@) =~= before + seq![without_cr(pending)]);
                assert(before + (seq![without_cr(pending)] + spec_lines_from(
                    rest.drop_first(),
                    Seq::empty(),
                )) =~= (before + seq![without_cr(pending)]) + spec_lines_from(
                    rest.drop_first(),
                    Seq::empty(),
                ));
            }
        } else {
            line.push(bytes[i]);
        }
        i += 1;
    }
    let ghost before = byte_lines(found@);
    let ghost pending = line@;
    proof {
        assert(bytes@.skip(i as int) =~= Seq::<u8>::empty());
    }
    if line.len() > 0 {
        found.push(line);
        assert(byte_lines(found@) =~= before + seq![pending]);
    }
    found
}

/// Whether `part` stands in `text` at the place `at`.
pub fn starts_at(text: &Vec<u8>, at: usize, part: &Vec<u8>) -> (r: bool)
    requires
        at <= text.len(),
    ensures
        r == part@.is_prefix_of(text@.skip(at as int)),
{
    if part.len() > text.len() - at {
        return false;
    }
    let mut k: usize = 0;
    while k < part.len()
        invariant
            k <= part.len(),
            at + part.len() <= text.len(),
            forall|j: int| 0 <= j < k ==> part@[j] == text@[at + j],
        decreases part.len() - k,
    {
        if part[k] != text[at + k] {
            assert(text@.skip(at as int).subrange(0, part@.len() as int)[k as int] != part@[k as int]);
            return false;
        }
        k += 1;
    }
    assert(part@ =~= text@.skip(at as int).subrange(0, part@.len() as int));
    true
}

/// Removes every occurrence of `part` from `text`, found from left to right.
pub fn remove_all(text: &Vec<u8>, part: &Vec<u8>) -> (rest: Vec<u8>)
    ensures
        rest@ == without(text@, part@),
{
    let mut rest: Vec<u8> = Vec::new();
    let mut i: usize = 0;
    proof {
        assert(text@.skip(0) =~= text@);
        assert(rest@ + without(text@, part@) =~= without(text@, part@));
    }
    while i < text.len()
        invariant
            i <= text.len(),
            without(text@, part@) == rest@ + without(text@.skip(i as int), part@),
        decreases text.len() - i,
    {
        let ghost tail = text@.skip(i as int);
        let ghost before = rest@;
        if part.len() > 0 && starts_at(text, i, part) {
            proof {
                assert(tail.skip(part@.len() as int) =~= text@.skip(i + part@.len()));
            }
            i += part.len();
        } else {
            rest.push(text[i]);
            proof {
                assert(tail.drop_first() =~= text@.skip(i + 1));
                assert(tail[0] == text@[i as int]);
                if part@.len() == 0 {
                    lemma_without_nothing(tail.drop_first());
                    assert(tail =~= seq![tail[0]] + tail.drop_first());
                }
                assert(before + (seq![tail[0]] + without(tail.drop_first(), part@)) =~= (before
                    + seq![tail[0]]) + without(tail.drop_first(), part@));
            }
            i += 1;
        }
    }
    proof {
        assert(text@.skip(i as int) =~= Seq::<u8>::empty());
    }
    rest
}

/// Removing nothing leaves the text as it is.
pub proof fn lemma_without_nothing(text: Seq<u8>)
    ensures
        without(text, Seq::empty()) == text,
{
}

/// Removes the slashes that `text` starts with.
pub fn trim_leading_slashes(text: &Vec<u8>) -> (rest: Vec<u8>)
    ensures
        rest@ == trim_slashes(text@),
{
    let mut i: usize = 0;
    proof {
        assert(text@.skip(0) =~= text@);
    }
    while i < text.len() && text[i] == 47
        invariant
            i <= text.len(),
            trim_slashes(text@) == trim_slashes(text@.skip(i as int)),
        decreases text.len() - i,
    {
        proof {
            assert(text@.skip(i as int).drop_first() =~= text@.skip(i + 1));
        }
        i += 1;
    }
    let ghost from = i;
    let mut rest: Vec<u8> = Vec::new();
    while i < text.len()
        invariant
            from <= i <= text.len(),
            rest@ == text@.subrange(from as int, i as int),
        decreases text.len() - i,
    {
        rest.push(text[i]);
        assert(rest@ =~= text@.subrange(from as int, i + 1));
        i += 1;
    }
    assert(rest@ =~= text@.skip(from as int));
    rest
}

/// A copy of the bytes.
fn copy_of(bytes: &Vec<u8>) -> (copy: Vec<u8>)
    ensures
        copy@ == bytes@,
{
    let mut copy: Vec<u8> = Vec::new();
    let mut i: usize = 0;
    while i < bytes.len()
        invariant
            i <= bytes.len(),
            copy@ == bytes@.take(i as int),
        decreases bytes.len() - i,
    {
        copy.push(bytes[i]);
        assert(copy@ =~= bytes@.take(i + 1));
        i += 1;
    }
    assert(bytes@.take(i as int) =~= bytes@);
    copy
}

/// The file that a line of the listing names relative to `path`, if it names
/// one.
pub fn file_of_line(line: &Vec<u8>, path: &Vec<u8>) -> (file: Option<String>)
    ensures
        match file {
            Some(file) => listed_file(line@, path@) == Some(file@),
            None => listed_file(line@, path@) is None,
        },
{
    if text_of(copy_of(line)).is_none() {
        return None;
    }
    proof {
        assert(line@.skip(0) =~= line@);
    }
    if !starts_at(line, 0, path) {
        return None;
    }
    let cleaned = trim_leading_slashes(&remove_all(line, path));
    text_of(cleaned)
}

/// Removes the line feeds that end `text`.
pub fn trim_trailing_line_feeds(text: &Vec<u8>) -> (rest: Vec<u8>)
    ensures
        rest@ == trim_line_feeds(text@),
{
    let mut end: usize = text.len();
    proof {
        assert(text@.take(end as int) =~= text@);
    }
    while end > 0 && text[end - 1] == 10
        invariant
            end <= text.len(),
            trim_line_feeds(text@) == trim_line_feeds(text@.take(end as int)),
        decreases end,
    {
        proof {
            assert(text@.take(end as int).drop_last() =~= text@.take(end - 1));
        }
        end -= 1;
    }
    let mut rest: Vec<u8> = Vec::new();
    let mut i: usize = 0;
    while i < end
        invariant
            i <= end <= text.len(),
            rest@ == text@.take(i as int),
        decreases end - i,
    {
        rest.push(text[i]);
        assert(rest@ =~= text@.take(i + 1));
        i += 1;
    }
    rest
}

/// A scratch checkout of the repository: the parts of the path of its
/// directory, and the address of the repository.
pub struct GitTempRepo {
    pub path: Vec<String>,
    pub repo_url: String,
}

impl GitTempRepo {
    /// The address of the repository.
    pub open spec fn url(&self) -> Seq<char> {
        self.repo_url@
    }

    /// A scratch checkout of `repo_url` under a directory of its own in the
    /// scratch area below `data_dir`. The directory's name is ten letters and
    /// digits drawn at random.
    pub fn new(data_dir: &str, repo_url: &str) -> (repo: GitTempRepo)
        ensures
            repo.url() == repo_url@,
            repo.path@.len() == 3,
            repo.path@[0]@ == data_dir@,
            repo.path@[1]@ == "temp-repos"@,
            is_random_name(repo.path@[2]@, 10),
    {
        let mut generator = rand::rng();
        let temp_id = random_name(&mut generator, 10);
        let repo = GitTempRepo::with_id(data_dir, repo_url, temp_id);
        assert(texts(repo.path@).len() == 3);
        assert(texts(repo.path@)[0] == data_dir@);
        assert(texts(repo.path@)[1] == "temp-repos"@);
        assert(texts(repo.path@)[2] == temp_id@);
        repo
    }

    /// The scratch checkout of `repo_url` under the directory `temp_id` of
    /// the scratch area below `data_dir`.
    pub fn with_id(data_dir: &str, repo_url: &str, temp_id: String) -> (repo: GitTempRepo)
        ensures
            repo.url() == repo_url@,
            texts(repo.path@) == seq![data_dir@, "temp-repos"@, temp_id@],
    {
        let mut path: Vec<String> = Vec::new();
        path.push(String::from_str(data_dir));
        path.push(String::from_str("temp-repos"));
        path.push(temp_id);
        assert(texts(path@) =~= seq![data_dir@, "temp-repos"@, temp_id@]);
        GitTempRepo { path, repo_url: String::from_str(repo_url) }
    }

    /// The command that clones the repository into the checkout's directory
    /// without its files: only the newest commit, and no trees.
    pub fn clone_repo(&self) -> (command: GitCommand)
        ensures
            command.line@ == "git clone -n --depth=1 --filter=tree:0 "@ + self.url() + " ."@,
            command.failure == GitTempRepoError::CloneFailure,
    {
        let line = String::from_str("git clone -n --depth=1 --filter=tree:0 ").concat(
            self.repo_url.as_str(),
        ).concat(" .");
        GitCommand { line, failure: GitTempRepoError::CloneFailure }
    }

    /// The command that limits the checkout to one file.
    pub fn sparse_checkout(&self, file_path: &str) -> (command: GitCommand)
        ensures
            command.line@ == "git sparse-checkout set --no-cone "@ + file_path@,
            command.failure == GitTempRepoError::CheckoutFailure,
    {
        let line = String::from_str("git sparse-checkout set --no-cone ").concat(file_path);
        GitCommand { line, failure: GitTempRepoError::CheckoutFailure }
    }

    /// The command that prepares the checkout for being limited.
    pub fn sparse_checkout_2(&self) -> (command: GitCommand)
        ensures
            command.line@ == "git sparse-checkout init --cone"@,
            command.failure == GitTempRepoError::CheckoutFailure,
    {
        GitCommand {
            line: String::from_str("git sparse-checkout init --cone"),
            failure: GitTempRepoError::CheckoutFailure,
        }
    }

    /// The command that brings the files of the checkout into its directory.
    pub fn checkout(&self) -> (command: GitCommand)
        ensures
            command.line@ == "git checkout"@,
            command.failure == GitTempRepoError::CheckoutFailure,
    {
        GitCommand {
            line: String::from_str("git checkout"),
            failure: GitTempRepoError::CheckoutFailure,
        }
    }

    /// The command that lists the files of the commit that `rev_output`
    /// names: what `git rev-parse HEAD` printed. The output must be text, and
    /// the line feeds that end it do not belong to the name.
    pub fn ls_tree_command(&self, rev_output: &Vec<u8>) -> (command: Result<
        GitCommand,
        GitTempRepoError,
    >)
        ensures
            match command {
                Ok(command) => valid_utf8(rev_output@) && valid_utf8(
                    trim_line_feeds(rev_output@),
                ) && command.line@ == "git ls-tree -r "@ + decode_utf8(
                    trim_line_feeds(rev_output@),
                ) + " --name-only"@ && command.failure == GitTempRepoError::NoFiles,
                Err(error) => error == GitTempRepoError::NoHeadRev && !(valid_utf8(rev_output@)
                    && valid_utf8(trim_line_feeds(rev_output@))),
            },
    {
        if text_of(copy_of(rev_output)).is_none() {
            return Err(GitTempRepoError::NoHeadRev);
        }
        match text_of(trim_trailing_line_feeds(rev_output)) {
            Some(rev) => {
                let line = String::from_str("git ls-tree -r ").concat(rev.as_str()).concat(
                    " --name-only",
                );
                Ok(GitCommand { line, failure: GitTempRepoError::NoFiles })
            },
            None => Err(GitTempRepoError::NoHeadRev),
        }
    }

    /// The files under `path` that `listing` names: what the command of
    /// [`Self::ls_tree_command`] printed. A line counts if it is text and
    /// starts with `path`; its file is the line without any occurrence of
    /// `path` and without the slashes left at its start.
    pub fn ls_tree(&self, path: &str, listing: &Vec<u8>) -> (files: Vec<String>)
        ensures
            texts(files@) == spec_ls_tree(listing@, path.spec_bytes()),
    {
        let path = path.as_bytes_vec();
        let found = lines(listing);
        let mut files: Vec<String> = Vec::new();
        let mut i: usize = 0;
        proof {
            assert(byte_lines(found@).take(0) =~= Seq::<Seq<u8>>::empty());
            assert(texts(files@) =~= Seq::<Seq<char>>::empty());
        }
        while i < found.len()
            invariant
                i <= found.len(),
                texts(files@) == spec_files(byte_lines(found@).take(i as int), path@),
            decreases found.len() - i,
        {
            let ghost before = texts(files@);
            proof {
                let upto = byte_lines(found@).take(i + 1);
                assert(upto.drop_last() =~= byte_lines(found@).take(i as int));
                assert(upto.last() == found@[i as int]@);
            }
            match file_of_line(&found[i], &path) {
                Some(file) => {
                    files.push(file);
                    assert(texts(files@) =~= before.push(file@));
                },
                None => {},
            }
            i += 1;
        }
        proof {
            assert(byte_lines(found@).take(i as int) =~= byte_lines(found@));
        }
        files
    }

    /// The command that prints the newest commit of the checkout.
    pub fn rev_parse(&self) -> (command: GitCommand)
        ensures
            command.line@ == "git rev-parse HEAD"@,
            command.failure == GitTempRepoError::NoHeadRev,
    {
        GitCommand {
            line: String::from_str("git rev-parse HEAD"),
            failure: GitTempRepoError::NoHeadRev,
        }
    }
}

/// The source of the wallpapers in one repository.
#[derive(Debug)]
pub struct GitContentManager {
    data_dir: String,
    url: String,
    path: Option<String>,
}

/// The parts of the path of the wallpaper `id` in a scratch checkout: those
/// of the checkout's directory, then the path of the wallpapers in the
/// repository, then the file name.
pub open spec fn spec_temp_file(checkout: Seq<Seq<char>>, path: Seq<char>, id: Seq<char>) -> Seq<
    Seq<char>,
> {
    checkout.push(path).push(id)
}

impl GitContentManager {
    /// The directory below which scratch checkouts are made.
    pub closed spec fn data_dir(&self) -> Seq<char> {
        self.data_dir@
    }

    /// The address of the repository.
    pub closed spec fn url(&self) -> Seq<char> {
        self.url@
    }

    /// The path of the wallpapers in the repository, if one is set.
    pub closed spec fn path(&self) -> Option<Seq<char>> {
        match self.path {
            Some(path) => Some(path@),
            None => None,
        }
    }

    /// The source for the repository that the configuration names.
    pub fn new(config: &Config) -> (manager: GitContentManager)
        ensures
            manager.data_dir() == config.data_dir@,
            manager.url() == config.file_config.git.url@,
            manager.path() == match config.file_config.git.path {
                Some(path) => Some(path@),
                None => None,
            },
    {
        let path = match &config.file_config.git.path {
            Some(path) => Some(path.clone()),
            None => None,
        };
        GitContentManager {
            data_dir: config.data_dir.clone(),
            url: config.file_config.git.url.clone(),
            path,
        }
    }

    /// A scratch checkout of the repository, under a name drawn at random.
    pub fn temp_repo(&self) -> (repo: GitTempRepo)
        ensures
            repo.url() == self.url(),
            repo.path@.len() == 3,
            repo.path@[0]@ == self.data_dir(),
            repo.path@[1]@ == "temp-repos"@,
            is_random_name(repo.path@[2]@, 10),
    {
        GitTempRepo::new(self.data_dir.as_str(), self.url.as_str())
    }

    /// The path of the wallpapers in the repository, if one is set.
    pub fn listing_path(&self) -> (path: Option<&str>)
        ensures
            match path {
                Some(path) => self.path() == Some(path@),
                None => self.path() is None,
            },
    {
        match &self.path {
            Some(path) => Some(path.as_str()),
            None => None,
        }
    }

    /// The wallpapers for the files that a listing named, in the order
    /// given. A listing that failed stands for no wallpapers.
    pub fn wallpapers_from(&self, listed: Result<Vec<String>, GitTempRepoError>) -> (wallpapers:
        Vec<Wallpaper>)
        ensures
            match listed {
                Ok(files) => wallpapers_view(wallpapers@) == Seq::new(
                    files@.len(),
                    |i: int| WallpaperView { id: files@[i]@, type_id: ContentManagerTypes::Git },
                ),
                Err(_) => wallpapers@.len() == 0,
            },
    {
        match listed {
            Ok(files) => wallpapers_of_kind(files, ContentManagerTypes::Git),
            Err(_) => Vec::new(),
        }
    }

    /// The parts of the path of the wallpaper `id` in the scratch checkout
    /// `repo`. There is none where no path of the wallpapers in the
    /// repository is set.
    pub fn get_temp_file(&self, repo: &GitTempRepo, id: &str) -> (parts: Result<Vec<String>, ()>)
        ensures
            match parts {
                Ok(parts) => self.path() matches Some(path) && texts(parts@) == spec_temp_file(
                    texts(repo.path@),
                    path,
                    id@,
                ),
                Err(_) => self.path() is None,
            },
    {
        let path = match &self.path {
            Some(path) => path,
            None => {
                return Err(());
            },
        };
        let mut parts: Vec<String> = Vec::new();
        let mut i: usize = 0;
        while i < repo.path.len()
            invariant
                i <= repo.path.len(),
                texts(parts@) == texts(repo.path@).take(i as int),
            decreases repo.path.len() - i,
        {
            let part = repo.path[i].clone();
            proof {
                lemma_texts_push(parts@, part);
            }
            parts.push(part);
            assert(texts(parts@) =~= texts(repo.path@).take(i + 1));
            i += 1;
        }
        assert(texts(repo.path@).take(i as int) =~= texts(repo.path@));
        let ghost checkout = texts(parts@);
        parts.push(path.clone());
        parts.push(id.to_owned());
        assert(texts(parts@) =~= checkout.push(path@).push(id@));
        Ok(parts)
    }
}

} // verus!
