//! Migration notes: where the note of a pull request lies, what it holds, and the commit
//! that records it.

use vstd::prelude::*;
use vstd::string::StrSliceExecFns;
use vstd::string::StringExecFns;
use crate::git_client::{
    CommitStage, GitClient, SessionState, SingleFileCommit, SingleFileCommitView,
};
use crate::identifier::{checked_label, repo_text, valid_label, validate_label, ValidationError};
use crate::identifier_proofs::lemma_label_is_one_component;
use crate::path::{join_paths, joined};
use crate::settings::{Settings, SettingsView};
use crate::text::{
    chars_of, decimal, ends_with, lemma_decimal_digits, lemma_decimal_injective, lowercase,
    push_decimal, to_lowercase,
};

verus! {

/// The author of a pull request.
#[derive(Debug)]
pub struct PullRequestUser {
    pub login: String,
    pub id: u64,
}

/// A merged pull request, as the host reports it.
#[derive(Debug)]
pub struct PullRequestRecord {
    pub number: u64,
    pub title: String,
    pub body: Option<String>,
    pub closed_at: String,
    pub user: PullRequestUser,
    pub labels: Vec<String>,
}

/// What a [`PipelineError`] stands for.
pub enum PipelineFault {
    ReleaseFolderMissing(Seq<char>),
    MissingBody(u64),
    WriteFailed(Seq<char>),
}

/// A failure while notes are generated.
#[derive(Debug)]
pub enum PipelineError {
    /// The release folder, whose path is given, does not exist and is not to be created.
    ReleaseFolderMissing(String),
    /// The pull request with the given number has no body.
    MissingBody(u64),
    /// The note could not be written, for the given cause.
    WriteFailed(String),
}

impl View for PipelineError {
    type V = PipelineFault;

    open spec fn view(&self) -> PipelineFault {
        match self {
            PipelineError::ReleaseFolderMissing(p) => PipelineFault::ReleaseFolderMissing(p@),
            PipelineError::MissingBody(n) => PipelineFault::MissingBody(*n),
            PipelineError::WriteFailed(c) => PipelineFault::WriteFailed(c@),
        }
    }
}

/// What a failure of the generation tells the user. Where the release folder is
/// missing, it says how to have it created.
pub open spec fn pipeline_message(e: PipelineFault) -> Seq<char> {
    match e {
        PipelineFault::ReleaseFolderMissing(p) => "The release folder "@ + p
            + " was not found. Use --create-release to create it."@,
        PipelineFault::MissingBody(n) => "Pull request #"@ + decimal(n as nat) + " has no body"@,
        PipelineFault::WriteFailed(c) => "failed to write the note: "@ + c,
    }
}

impl PipelineError {
    pub fn message(&self) -> (m: String)
        ensures
            m@ == pipeline_message(self@),
    {
        match self {
            PipelineError::ReleaseFolderMissing(p) => {
                let mut m = String::from_str("The release folder ");
                m.append(p.as_str());
                m.append(" was not found. Use --create-release to create it.");
                m
            },
            PipelineError::MissingBody(n) => {
                let mut m = String::from_str("Pull request #");
                push_decimal(&mut m, *n);
                m.append(" has no body");
                m
            },
            PipelineError::WriteFailed(c) => {
                let mut m = String::from_str("failed to write the note: ");
                m.append(c.as_str());
                m
            },
        }
    }
}

/// The texts of a list of strings.
pub open spec fn texts(v: Seq<String>) -> Seq<Seq<char>> {
    Seq::new(v.len(), |i: int| v[i]@)
}

/// A text between double quotes.
pub open spec fn quoted(s: Seq<char>) -> Seq<char> {
    "\""@ + s + "\""@
}

/// A character that cannot stand as it is inside a quoted text: the double quote, the
/// backslash and the line feed.
pub open spec fn needs_escape(c: char) -> bool {
    c == '"' || c == '\\' || c == '\n'
}

/// How one character is written inside a quoted text: a backslash before a double quote
/// and before a backslash, a backslash and the letter `n` for a line feed, and every other
/// character as it is.
pub open spec fn escaped_char(c: char) -> Seq<char> {
    if c == '"' {
        seq!['\\', '"']
    } else if c == '\\' {
        seq!['\\', '\\']
    } else if c == '\n' {
        seq!['\\', 'n']
    } else {
        seq![c]
    }
}

/// A text as it is written inside a quoted text: each of its characters escaped, in order.
pub open spec fn escaped(s: Seq<char>) -> Seq<char>
    decreases s.len(),
{
    if s.len() == 0 {
        Seq::empty()
    } else {
        escaped(s.drop_last()) + escaped_char(s.last())
    }
}

/// The areas, each between double quotes, separated by a comma and a space.
pub open spec fn area_list(areas: Seq<Seq<char>>) -> Seq<char>
    decreases areas.len(),
{
    if areas.len() == 0 {
        Seq::empty()
    } else if areas.len() == 1 {
        quoted(areas[0])
    } else {
        area_list(areas.drop_last()) + ", "@ + quoted(areas.last())
    }
}

/// The line of the areas, which is left out where there is none.
pub open spec fn areas_line(areas: Seq<Seq<char>>) -> Seq<char> {
    if areas.len() == 0 {
        Seq::empty()
    } else {
        "areas = ["@ + area_list(areas) + "]\n"@
    }
}

/// The block of metadata that opens a note. The title stands escaped between its quotes,
/// so that it is one quoted text on one line whatever it holds.
pub open spec fn front_matter(
    number: u64,
    title: Seq<char>,
    closed_at: Seq<char>,
    areas: Seq<Seq<char>>,
) -> Seq<char> {
    "+++\n"@ + "pr = "@ + decimal(number as nat) + "\n"@ + "title = "@ + quoted(escaped(title))
        + "\n"@ + "close_date = "@ + quoted(closed_at) + "\n"@ + areas_line(areas) + "+++\n"@
}

/// The name of the note of a pull request within its release folder.
pub open spec fn note_file_name(number: u64) -> Seq<char> {
    decimal(number as nat) + ".md"@
}

/// The trailer that names the author of a pull request as co-author of a commit. The
/// address is the one that the host gives a user who hides their own: the id, a plus sign
/// and `lowered`, which is the login in lower case.
pub open spec fn co_author_trailer(login: Seq<char>, id: u64, lowered: Seq<char>) -> Seq<char> {
    "Co-authored-by: "@ + login + " <"@ + decimal(id as nat) + "+"@ + lowered
        + "@users.noreply.github.com>"@
}

/// The subject of the commit that records the note of a pull request.
pub open spec fn commit_subject(source_repo: Seq<char>, number: u64) -> Seq<char> {
    "Create migration note for "@ + source_repo + "#"@ + decimal(number as nat)
}

/// The message of a commit that records the note of a pull request: the subject, an
/// empty line, and the trailer, in which `lowered` stands for the login in lower case.
pub open spec fn commit_message_with(
    source_repo: Seq<char>,
    number: u64,
    login: Seq<char>,
    id: u64,
    lowered: Seq<char>,
) -> Seq<char> {
    commit_subject(source_repo, number) + "\n\n"@ + co_author_trailer(login, id, lowered)
}

/// The message of the commit that records the note of a pull request.
pub open spec fn commit_message(
    source_repo: Seq<char>,
    number: u64,
    login: Seq<char>,
    id: u64,
) -> Seq<char> {
    commit_message_with(source_repo, number, login, id, lowercase(login))
}

fn push_quoted(out: &mut String, s: &str)
    ensures
        final(out)@ == old(out)@ + quoted(s@),
{
    out.append("\"");
    out.append(s);
    out.append("\"");
    assert(out@ =~= old(out)@ + quoted(s@));
}

/// Appends `s` to `out`, escaped. Runs of characters that need no escape are copied whole.
fn push_escaped(out: &mut String, s: &str)
    ensures
        final(out)@ == old(out)@ + escaped(s@),
{
    let v = chars_of(s);
    let mut start: usize = 0;
    let mut i: usize = 0;
    assert(s@.take(0) =~= Seq::<char>::empty());
    while i < v.len()
        invariant
            start <= i <= v.len(),
            v@ == s@,
            out@ == old(out)@ + escaped(s@.take(start as int)),
            escaped(s@.take(i as int)) == escaped(s@.take(start as int)) + s@.subrange(
                start as int,
                i as int,
            ),
        decreases v.len() - i,
    {
        let c = v[i];
        proof {
            assert(s@.take(i + 1).drop_last() =~= s@.take(i as int));
            assert(s@.take(i + 1).last() == c);
        }
        if c == '"' || c == '\\' || c == '\n' {
            proof {
                reveal_strlit("\\\"");
                reveal_strlit("\\\\");
                reveal_strlit("\\n");
                assert("\\\""@ =~= seq!['\\', '"']);
                assert("\\\\"@ =~= seq!['\\', '\\']);
                assert("\\n"@ =~= seq!['\\', 'n']);
            }
            out.append(s.substring_char(start, i));
            if c == '"' {
                out.append("\\\"");
            } else if c == '\\' {
                out.append("\\\\");
            } else {
                out.append("\\n");
            }
            start = i + 1;
            proof {
                assert(out@ =~= old(out)@ + escaped(s@.take(start as int)));
                assert(s@.subrange(start as int, start as int) =~= Seq::<char>::empty());
                assert(escaped(s@.take(start as int)) =~= escaped(s@.take(start as int))
                    + s@.subrange(start as int, start as int));
            }
        } else {
            proof {
                assert(s@.subrange(start as int, i as int).push(c) =~= s@.subrange(
                    start as int,
                    i + 1,
                ));
                assert(escaped(s@.take(i + 1)) =~= escaped(s@.take(start as int)) + s@.subrange(
                    start as int,
                    i + 1,
                ));
            }
        }
        i += 1;
    }
    out.append(s.substring_char(start, i));
    proof {
        assert(s@.take(v.len() as int) =~= s@);
        assert(out@ =~= old(out)@ + escaped(s@));
    }
}

fn push_area_list(out: &mut String, areas: &Vec<String>)
    ensures
        final(out)@ == old(out)@ + area_list(texts(areas@)),
{
    let ghost all = texts(areas@);
    let mut i: usize = 0;
    while i < areas.len()
        invariant
            i <= areas.len(),
            all == texts(areas@),
            out@ == old(out)@ + area_list(all.take(i as int)),
        decreases areas.len() - i,
    {
        let ghost before = out@;
        if i > 0 {
            out.append(", ");
        }
        push_quoted(out, areas[i].as_str());
        proof {
            let next = all.take(i + 1);
            assert(next.drop_last() =~= all.take(i as int));
            assert(next.last() == areas@[i as int]@);
            if i == 0 {
                assert(next[0] == next.last());
                assert(area_list(all.take(0)) =~= Seq::<char>::empty());
                assert(out@ =~= old(out)@ + area_list(next));
            } else {
                assert(out@ =~= old(out)@ + area_list(next));
            }
        }
        i += 1;
    }
    assert(all.take(areas.len() as int) =~= all);
}

/// Appends the front matter of a note to `out`.
pub fn push_front_matter(out: &mut String, pr: &PullRequestRecord, areas: &Vec<String>)
    ensures
        final(out)@ == old(out)@ + front_matter(
            pr.number,
            pr.title@,
            pr.closed_at@,
            texts(areas@),
        ),
{
    let ghost fm = front_matter(pr.number, pr.title@, pr.closed_at@, texts(areas@));
    out.append("+++\n");
    out.append("pr = ");
    push_decimal(out, pr.number);
    out.append("\n");
    out.append("title = ");
    out.append("\"");
    push_escaped(out, pr.title.as_str());
    out.append("\"");
    out.append("\n");
    out.append("close_date = ");
    push_quoted(out, pr.closed_at.as_str());
    out.append("\n");
    let ghost mid = out@;
    assert(mid =~= old(out)@ + ("+++\n"@ + "pr = "@ + decimal(pr.number as nat) + "\n"@
        + "title = "@ + quoted(escaped(pr.title@)) + "\n"@ + "close_date = "@ + quoted(
        pr.closed_at@,
    ) + "\n"@));
    if areas.len() > 0 {
        out.append("areas = [");
        push_area_list(out, areas);
        out.append("]\n");
        assert(out@ =~= mid + areas_line(texts(areas@)));
    } else {
        assert(out@ =~= mid + areas_line(texts(areas@)));
    }
    out.append("+++\n");
    assert(out@ =~= old(out)@ + fm);
}

/// Writes the note of `pr` to `file`: the front matter, then `section`, which is the
/// migration guide taken from the body of the pull request. `areas` are the areas that
/// the labels of the pull request name.
///
/// A pull request without a body has no note: the call fails with `MissingBody` and
/// leaves `file` as it was.
pub fn write_migration_note(
    pr: &PullRequestRecord,
    areas: &Vec<String>,
    section: &str,
    file: &mut String,
) -> (r: Result<(), PipelineError>)
    ensures
        pr.body is Some ==> r is Ok && final(file)@ == old(file)@ + front_matter(
            pr.number,
            pr.title@,
            pr.closed_at@,
            texts(areas@),
        ) + section@,
        pr.body is None ==> final(file)@ == old(file)@ && (r matches Err(e) && e@
            == PipelineFault::MissingBody(pr.number)),
{
    if pr.body.is_none() {
        return Err(PipelineError::MissingBody(pr.number));
    }
    push_front_matter(file, pr, areas);
    file.append(section);
    Ok(())
}

/// What is asked of the markdown transform for one pull request.
#[derive(Debug)]
pub struct SectionRequest {
    /// The body of the pull request.
    pub body: String,
    /// The title of the section to take out of it.
    pub section_title: String,
    /// Whether the section is to be rewritten so that it passes the linter.
    pub lint_clean: bool,
}

/// Says what to ask of the markdown transform for `pr`: the section titled
/// `migration guide` of its body, rewritten for the linter. Fails with `MissingBody`
/// where the pull request has no body.
pub fn section_request(pr: &PullRequestRecord) -> (r: Result<SectionRequest, PipelineError>)
    ensures
        pr.body matches Some(body) ==> (r matches Ok(q) && q.body@ == body@ && q.section_title@
            == "migration guide"@ && q.lint_clean),
        pr.body is None ==> (r matches Err(e) && e@ == PipelineFault::MissingBody(pr.number)),
{
    match &pr.body {
        Some(body) => Ok(
            SectionRequest {
                body: body.clone(),
                section_title: String::from_str("migration guide"),
                lint_clean: true,
            },
        ),
        None => Err(PipelineError::MissingBody(pr.number)),
    }
}

/// What a [`MigrationNoteFile`] stands for.
pub struct MigrationNoteFileView {
    pub relative_path: Seq<char>,
    pub absolute_path: Seq<char>,
    pub content: Seq<char>,
    pub commit: Option<SingleFileCommitView>,
}

/// The note of one pull request: where it goes, what it holds, and the commit that is to
/// record it, if any.
#[derive(Debug)]
pub struct MigrationNoteFile {
    /// The path of the note from the root of the working copy.
    pub relative_path: String,
    /// The path of the note in the file system.
    pub absolute_path: String,
    /// The whole content of the file.
    pub content: String,
    /// The commit of this one file, not yet begun.
    pub commit: Option<SingleFileCommit>,
}

/// The view of an optional commit.
pub open spec fn commit_view(o: Option<SingleFileCommit>) -> Option<SingleFileCommitView> {
    match o {
        Some(c) => Some(c@),
        None => None,
    }
}

impl View for MigrationNoteFile {
    type V = MigrationNoteFileView;

    open spec fn view(&self) -> MigrationNoteFileView {
        MigrationNoteFileView {
            relative_path: self.relative_path@,
            absolute_path: self.absolute_path@,
            content: self.content@,
            commit: commit_view(self.commit),
        }
    }
}

/// The note of a pull request with a body. Its path is the release path and the number of
/// the pull request, and nothing else; its commit stages that path.
pub open spec fn planned_note(
    pr: PullRequestRecord,
    areas: Seq<Seq<char>>,
    section: Seq<char>,
    source_repo_name: Seq<char>,
    base_path: Seq<char>,
    release_path: Seq<char>,
    create_commit: bool,
) -> MigrationNoteFileView {
    let relative_path = joined(release_path, note_file_name(pr.number));
    MigrationNoteFileView {
        relative_path,
        absolute_path: joined(base_path, relative_path),
        content: front_matter(pr.number, pr.title@, pr.closed_at@, areas) + section,
        commit: if create_commit {
            Some(
                SingleFileCommitView {
                    path: relative_path,
                    message: commit_message(source_repo_name, pr.number, pr.user.login@, pr.user.id),
                    stage: CommitStage::StagePath,
                },
            )
        } else {
            None
        },
    }
}

/// Writes the message of the commit for the pull request `number` of `source_repo_name`
/// by the user `login` with `id`, whose login in lower case is `lowered`.
pub fn commit_message_from(
    source_repo_name: &str,
    number: u64,
    login: &str,
    id: u64,
    lowered: &str,
) -> (m: String)
    ensures
        m@ == commit_message_with(source_repo_name@, number, login@, id, lowered@),
{
    let mut m = String::from_str("Create migration note for ");
    m.append(source_repo_name);
    m.append("#");
    push_decimal(&mut m, number);
    m.append("\n\n");
    m.append("Co-authored-by: ");
    m.append(login);
    m.append(" <");
    push_decimal(&mut m, id);
    m.append("+");
    m.append(lowered);
    m.append("@users.noreply.github.com>");
    assert(m@ =~= commit_message_with(source_repo_name@, number, login@, id, lowered@));
    m
}

/// Writes the message of the commit that records the note of `pr`.
pub fn build_commit_message(source_repo_name: &str, pr: &PullRequestRecord) -> (m: String)
    ensures
        m@ == commit_message(source_repo_name@, pr.number, pr.user.login@, pr.user.id),
{
    let lowered = to_lowercase(pr.user.login.as_str());
    commit_message_from(
        source_repo_name,
        pr.number,
        pr.user.login.as_str(),
        pr.user.id,
        lowered.as_str(),
    )
}

/// Plans the note of `pr` in the release folder `release_path` of the working copy at
/// `base_path`. `areas` and `section` are as in [`write_migration_note`]. With
/// `create_commit` the note comes with the commit that records it, begun on `git_client`.
///
/// Fails with `MissingBody` where the pull request has no body.
pub fn create_migration_note_file(
    pr: &PullRequestRecord,
    areas: &Vec<String>,
    section: &str,
    source_repo_name: &str,
    base_path: &str,
    release_path: &str,
    create_commit: bool,
    git_client: Option<&GitClient>,
) -> (r: Result<MigrationNoteFile, PipelineError>)
    requires
        create_commit ==> git_client is Some && git_client->0@.state == SessionState::Open,
    ensures
        pr.body is Some ==> (r matches Ok(note) && note@ == planned_note(
            *pr,
            texts(areas@),
            section@,
            source_repo_name@,
            base_path@,
            release_path@,
            create_commit,
        )),
        pr.body is None ==> (r matches Err(e) && e@ == PipelineFault::MissingBody(pr.number)),
{
    let mut file_name = String::new();
    push_decimal(&mut file_name, pr.number);
    file_name.append(".md");
    assert(file_name@ =~= note_file_name(pr.number));
    let relative_path = join_paths(release_path, file_name.as_str());
    let absolute_path = join_paths(base_path, relative_path.as_str());
    let mut content = String::new();
    match write_migration_note(pr, areas, section, &mut content) {
        Ok(_) => {},
        Err(e) => {
            return Err(e);
        },
    }
    assert(content@ =~= front_matter(pr.number, pr.title@, pr.closed_at@, texts(areas@))
        + section@);
    let commit = if create_commit {
        match git_client {
            Some(client) => {
                let message = build_commit_message(source_repo_name, pr);
                Some(client.create_single_file_commit(relative_path.as_str(), message.as_str()))
            },
            None => None,
        }
    } else {
        None
    };
    Ok(MigrationNoteFile { relative_path, absolute_path, content, commit })
}

impl MigrationNoteFile {
    /// Takes note of the attempt to write the file. Written, the commit that records the
    /// note is due, if there is one. Not written, the note fails with `WriteFailed` and
    /// the cause, and nothing is committed.
    pub fn written(self, outcome: Result<(), String>) -> (r: Result<
        Option<SingleFileCommit>,
        PipelineError,
    >)
        ensures
            outcome is Ok ==> (r matches Ok(commit) && commit_view(commit) == self@.commit),
            outcome matches Err(cause) ==> (r matches Err(e) && e@ == PipelineFault::WriteFailed(
                cause@,
            )),
    {
        match outcome {
            Ok(_) => Ok(self.commit),
            Err(cause) => Err(PipelineError::WriteFailed(cause)),
        }
    }
}

/// What a [`NotesCommand`] stands for.
pub struct NotesCommandView {
    pub remote_url: Seq<char>,
    pub release_path: Seq<char>,
    pub release_dir: Seq<char>,
    pub label: Seq<char>,
    pub create_release: bool,
    pub create_commit: bool,
    pub clone: bool,
}

/// One run of note generation, with everything that follows from the settings and the
/// arguments alone.
#[derive(Debug)]
pub struct NotesCommand {
    /// The address that the notes repository is cloned from.
    pub remote_url: String,
    /// The release folder, from the root of the working copy.
    pub release_path: String,
    /// The release folder in the file system.
    pub release_dir: String,
    /// The label that a pull request must carry to get a note.
    pub label: String,
    /// Whether a missing release folder is to be created.
    pub create_release: bool,
    /// Whether each note is to be committed.
    pub create_commit: bool,
    /// Whether a missing working copy is to be cloned.
    pub clone: bool,
}

impl View for NotesCommand {
    type V = NotesCommandView;

    open spec fn view(&self) -> NotesCommandView {
        NotesCommandView {
            remote_url: self.remote_url@,
            release_path: self.release_path@,
            release_dir: self.release_dir@,
            label: self.label@,
            create_release: self.create_release,
            create_commit: self.create_commit,
            clone: self.clone,
        }
    }
}

/// The release folder from the root of the working copy: the release, under the project
/// prefix where there is one.
pub open spec fn release_path(project_prefix: Option<Seq<char>>, release: Seq<char>) -> Seq<char> {
    match project_prefix {
        Some(prefix) => prefix + "/"@ + release,
        None => release,
    }
}

/// The run that the settings and the arguments describe.
pub open spec fn planned_command(
    settings: SettingsView,
    release: Seq<char>,
    create_release: bool,
    no_create_commit: bool,
    clone: bool,
) -> NotesCommandView {
    NotesCommandView {
        remote_url: "https://github.com/"@ + repo_text(settings.migration_notes_repo),
        release_path: release_path(settings.project_prefix, release),
        release_dir: joined(
            settings.migration_notes_local_path,
            release_path(settings.project_prefix, release),
        ),
        label: "C-Breaking-Change"@,
        create_release,
        create_commit: !no_create_commit,
        clone,
    }
}

/// Plans a run for the release `release`. The release name is checked before anything
/// else happens: the call fails with `InvalidLabel` where it is no release label.
pub fn migration_notes_command(
    settings: &Settings,
    release: &str,
    create_release: bool,
    no_create_commit: bool,
    clone: bool,
) -> (r: Result<NotesCommand, ValidationError>)
    ensures
        checked_label(release@) is Ok ==> (r matches Ok(command) && command@ == planned_command(
            settings@,
            release@,
            create_release,
            no_create_commit,
            clone,
        )),
        checked_label(release@) is Err ==> (r matches Err(e) && e@ == checked_label(
            release@,
        )->Err_0),
{
    let label = match validate_label(release) {
        Ok(l) => l,
        Err(e) => {
            return Err(e);
        },
    };
    let mut remote_url = String::from_str("https://github.com/");
    let repo = settings.migration_notes_repo.to_text();
    remote_url.append(repo.as_str());
    let release_path = match &settings.project_prefix {
        Some(prefix) => {
            let mut p = String::from_str(prefix.as_str());
            p.append("/");
            p.append(label.as_str());
            assert(p@ =~= prefix@ + "/"@ + release@);
            p
        },
        None => String::from_str(label.as_str()),
    };
    let release_dir = join_paths(settings.migration_notes_local_path.as_str(), release_path.as_str());
    Ok(
        NotesCommand {
            remote_url,
            release_path,
            release_dir,
            label: String::from_str("C-Breaking-Change"),
            create_release,
            create_commit: !no_create_commit,
            clone,
        },
    )
}

impl NotesCommand {
    /// Decides what happens to the release folder, given whether it exists: `Ok(false)`
    /// where it is there, `Ok(true)` where it is to be created first, and
    /// `ReleaseFolderMissing` with its path where it is missing and not to be created.
    pub fn release_folder(&self, exists: bool) -> (r: Result<bool, PipelineError>)
        ensures
            exists ==> r == Ok::<bool, PipelineError>(false),
            !exists && self.create_release ==> r == Ok::<bool, PipelineError>(true),
            !exists && !self.create_release ==> (r matches Err(e) && e@
                == PipelineFault::ReleaseFolderMissing(self.release_dir@)),
    {
        if exists {
            Ok(false)
        } else if self.create_release {
            Ok(true)
        } else {
            Err(PipelineError::ReleaseFolderMissing(self.release_dir.clone()))
        }
    }
}

/// With `create_commit` every planned note comes with exactly one commit, and without it
/// with none. The commit stages the path of that note and nothing else, starts at its first
/// step, names the pull request by its number at the end of its subject, and ends in the
/// trailer for the author of the pull request.
pub proof fn lemma_one_commit_per_note(
    pr: PullRequestRecord,
    areas: Seq<Seq<char>>,
    section: Seq<char>,
    source_repo_name: Seq<char>,
    base_path: Seq<char>,
    release_path: Seq<char>,
    create_commit: bool,
)
    ensures
        ({
            let note = planned_note(
                pr,
                areas,
                section,
                source_repo_name,
                base_path,
                release_path,
                create_commit,
            );
            &&& note.commit is Some <==> create_commit
            &&& note.commit matches Some(commit) ==> {
                &&& commit.path == note.relative_path
                &&& commit.stage == CommitStage::StagePath
                &&& ends_with(commit_subject(source_repo_name, pr.number), decimal(pr.number as nat))
                &&& commit_subject(source_repo_name, pr.number).is_prefix_of(commit.message)
                &&& ends_with(
                    commit.message,
                    co_author_trailer(pr.user.login@, pr.user.id, lowercase(pr.user.login@)),
                )
            }
        }),
{
    let subject = commit_subject(source_repo_name, pr.number);
    let number = decimal(pr.number as nat);
    let trailer = co_author_trailer(pr.user.login@, pr.user.id, lowercase(pr.user.login@));
    let message = commit_message(source_repo_name, pr.number, pr.user.login@, pr.user.id);
    assert(subject.subrange(subject.len() - number.len(), subject.len() as int) =~= number);
    assert(message.subrange(message.len() - trailer.len(), message.len() as int) =~= trailer);
    assert(message.subrange(0, subject.len() as int) =~= subject);
}

/// The content at `path` among `notes`: that of the last note that goes there.
pub open spec fn last_content(notes: Seq<MigrationNoteFileView>, path: Seq<char>) -> Option<
    Seq<char>,
>
    decreases notes.len(),
{
    if notes.len() == 0 {
        None
    } else if notes.last().absolute_path == path {
        Some(notes.last().content)
    } else {
        last_content(notes.drop_last(), path)
    }
}

/// The files, from path to content, after `notes` have been written one after the other,
/// each in place of whatever lay at its path.
pub open spec fn files_after(
    files: Map<Seq<char>, Seq<char>>,
    notes: Seq<MigrationNoteFileView>,
) -> Map<Seq<char>, Seq<char>>
    decreases notes.len(),
{
    if notes.len() == 0 {
        files
    } else {
        files_after(files, notes.drop_last()).insert(
            notes.last().absolute_path,
            notes.last().content,
        )
    }
}

/// After the notes have been written, a path holds the content of the last note that
/// goes there, and what it held before where no note goes there.
pub proof fn lemma_files_after(
    files: Map<Seq<char>, Seq<char>>,
    notes: Seq<MigrationNoteFileView>,
    path: Seq<char>,
)
    ensures
        files_after(files, notes).dom().contains(path) <==> files.dom().contains(path)
            || last_content(notes, path) is Some,
        last_content(notes, path) matches Some(content) ==> files_after(files, notes)[path]
            == content,
        last_content(notes, path) is None ==> files_after(files, notes)[path] == files[path],
    decreases notes.len(),
{
    if notes.len() > 0 {
        lemma_files_after(files, notes.drop_last(), path);
    }
}

/// Generating the same notes a second time changes nothing: the files and their contents
/// are those of the first run, since a note replaces the file at its path whole.
pub proof fn lemma_generation_idempotent(
    files: Map<Seq<char>, Seq<char>>,
    notes: Seq<MigrationNoteFileView>,
)
    ensures
        files_after(files_after(files, notes), notes) == files_after(files, notes),
{
    let once = files_after(files, notes);
    let twice = files_after(once, notes);
    assert forall|path: Seq<char>| #[trigger]
        twice.dom().contains(path) == once.dom().contains(path) && (once.dom().contains(path)
            ==> twice[path] == once[path]) by {
        lemma_files_after(files, notes, path);
        lemma_files_after(once, notes, path);
    }
    assert(twice =~= once);
}

/// The note of a pull request lies in the release folder under the number of the pull
/// request: at `release/<number>.md`, or at `prefix/release/<number>.md` where there is a
/// project prefix.
pub proof fn lemma_note_path(project_prefix: Option<Seq<char>>, release: Seq<char>, number: u64)
    requires
        valid_label(release),
        project_prefix matches Some(prefix) ==> valid_label(prefix),
    ensures
        joined(release_path(project_prefix, release), note_file_name(number)) == release_path(
            project_prefix,
            release,
        ) + "/"@ + decimal(number as nat) + ".md"@,
{
    let folder = release_path(project_prefix, release);
    let name = note_file_name(number);
    reveal_strlit("/");
    lemma_decimal_digits(number as nat);
    lemma_label_is_one_component(release);
    assert(name[0] == decimal(number as nat)[0]);
    assert(folder.last() == release.last());
    assert(folder.push('/') + name =~= folder + "/"@ + decimal(number as nat) + ".md"@);
}

/// Two pull requests never share a note: in one release folder, different numbers give
/// different paths, from the root of the working copy and in the file system.
pub proof fn lemma_one_note_per_pull_request(
    base_path: Seq<char>,
    release_path: Seq<char>,
    a: u64,
    b: u64,
)
    requires
        a != b,
    ensures
        joined(release_path, note_file_name(a)) != joined(release_path, note_file_name(b)),
        joined(base_path, joined(release_path, note_file_name(a))) != joined(
            base_path,
            joined(release_path, note_file_name(b)),
        ),
{
    let na = note_file_name(a);
    let nb = note_file_name(b);
    lemma_decimal_digits(a as nat);
    lemma_decimal_digits(b as nat);
    assert(na[0] == decimal(a as nat)[0] && nb[0] == decimal(b as nat)[0]);
    if na == nb {
        assert(decimal(a as nat) =~= na.subrange(0, na.len() - ".md"@.len()));
        assert(decimal(b as nat) =~= nb.subrange(0, nb.len() - ".md"@.len()));
        lemma_decimal_injective(a as nat, b as nat);
    }
    let ra = joined(release_path, na);
    let rb = joined(release_path, nb);
    // Both names go after the same beginning, so the paths differ where the names do.
    let lead = ra.len() - na.len();
    assert(ra.subrange(lead, ra.len() as int) =~= na);
    assert(rb.subrange(rb.len() - nb.len(), rb.len() as int) =~= nb);
    assert(rb.len() - nb.len() == lead);
    if ra == rb {
        assert(na == nb);
    }
    assert(ra.len() > 0 && rb.len() > 0);
    // Both are rooted or neither is, so both are taken from the base in the same way.
    assert((ra[0] == '/') == (rb[0] == '/')) by {
        if lead > 0 {
            assert(ra[0] == release_path[0] && rb[0] == release_path[0]);
        } else {
            assert(ra =~= na && rb =~= nb);
        }
    }
    let fa = joined(base_path, ra);
    let fb = joined(base_path, rb);
    assert(fa.subrange(fa.len() - ra.len(), fa.len() as int) =~= ra);
    assert(fb.subrange(fb.len() - rb.len(), fb.len() as int) =~= rb);
    assert(fa.len() - ra.len() == fb.len() - rb.len());
}

/// A text without double quote, backslash and line feed is written as it is.
pub proof fn lemma_escaped_plain(s: Seq<char>)
    requires
        forall|i: int| 0 <= i < s.len() ==> !needs_escape(#[trigger] s[i]),
    ensures
        escaped(s) == s,
    decreases s.len(),
{
    if s.len() > 0 {
        lemma_escaped_plain(s.drop_last());
        assert(s.drop_last().push(s.last()) =~= s);
        assert(escaped(s) =~= s);
    }
}

/// An escaped text stays on one line and does not close the quotes around it: it holds no
/// line feed, and every double quote in it comes right after a backslash. It is at least
/// as long as the text and at most twice as long.
pub proof fn lemma_escaped_is_one_line(s: Seq<char>)
    ensures
        forall|i: int| 0 <= i < escaped(s).len() ==> #[trigger] escaped(s)[i] != '\n',
        forall|i: int|
            0 <= i < escaped(s).len() && #[trigger] escaped(s)[i] == '"' ==> i > 0 && escaped(
                s,
            )[i - 1] == '\\',
        s.len() <= escaped(s).len() <= 2 * s.len(),
    decreases s.len(),
{
    if s.len() > 0 {
        lemma_escaped_is_one_line(s.drop_last());
        let head = escaped(s.drop_last());
        let tail = escaped_char(s.last());
        assert forall|i: int| 0 <= i < escaped(s).len() implies #[trigger] escaped(s)[i]
            != '\n' by {
            if i >= head.len() {
                assert(escaped(s)[i] == tail[i - head.len()]);
            }
        }
        assert forall|i: int|
            0 <= i < escaped(s).len() && #[trigger] escaped(s)[i] == '"' implies i > 0
            && escaped(s)[i - 1] == '\\' by {
            if i >= head.len() {
                assert(escaped(s)[i] == tail[i - head.len()]);
                assert(i == head.len() + 1);
                assert(escaped(s)[i - 1] == tail[0]);
            } else {
                assert(escaped(s)[i] == head[i]);
                assert(escaped(s)[i - 1] == head[i - 1]);
            }
        }
    }
}

/// The character that stands escaped after a backslash.
pub open spec fn unescaped_char(c: char) -> char {
    if c == 'n' {
        '\n'
    } else {
        c
    }
}

/// The text that an escaped text is read back as: a backslash and the character after it
/// give one character, and every other character gives itself.
pub open spec fn unescaped(t: Seq<char>) -> Seq<char>
    decreases t.len(),
{
    if t.len() == 0 {
        Seq::empty()
    } else if t[0] == '\\' && t.len() >= 2 {
        seq![unescaped_char(t[1])] + unescaped(t.skip(2))
    } else {
        seq![t[0]] + unescaped(t.skip(1))
    }
}

/// An escaped text starts with its first character escaped, and goes on with the rest
/// escaped.
pub proof fn lemma_escaped_front(s: Seq<char>)
    requires
        s.len() > 0,
    ensures
        escaped(s) == escaped_char(s[0]) + escaped(s.drop_first()),
    decreases s.len(),
{
    if s.len() == 1 {
        assert(s.drop_last() =~= Seq::<char>::empty());
        assert(s.drop_first() =~= Seq::<char>::empty());
        assert(escaped(s) =~= escaped_char(s[0]) + escaped(s.drop_first()));
    } else {
        lemma_escaped_front(s.drop_last());
        assert(s.drop_last().drop_first() =~= s.drop_first().drop_last());
        assert(s.drop_first().last() == s.last());
        assert(escaped(s) =~= escaped_char(s[0]) + escaped(s.drop_first()));
    }
}

/// Escaping loses nothing: read back, an escaped text is the text it was made from.
pub proof fn lemma_unescaped_escaped(s: Seq<char>)
    ensures
        unescaped(escaped(s)) == s,
    decreases s.len(),
{
    if s.len() > 0 {
        lemma_escaped_front(s);
        lemma_unescaped_escaped(s.drop_first());
        let e = escaped(s);
        let rest = escaped(s.drop_first());
        if needs_escape(s[0]) {
            assert(e[0] == '\\');
            assert(unescaped_char(e[1]) == s[0]);
            assert(e.skip(2) =~= rest);
        } else {
            assert(e[0] == s[0]);
            assert(e.skip(1) =~= rest);
        }
        assert(seq![s[0]] + s.drop_first() =~= s);
    }
}

} // verus!
