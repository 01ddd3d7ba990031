//! The interactive builder of Google Cloud credentials behind `print`.

use vstd::prelude::*;

use crate::http::{pair_outcome, text_outcome};
use crate::json::{
    field, get, get_text, parse_json, parsed_json, pretty_texts, print_texts, text_of, Json,
    JsonModel,
};
use crate::provider::jwt::{
    generate_rsa_private_key_pem, info_possible, key_possible, public_key_info_at, unix_now,
};
use crate::registry::{lookup, Entries};
use crate::session::{kept, say, warn, Event, Log, Note, OUT_OF_STEP};
use crate::text::{
    cat2, cat3, cat4, lemma_piece_added, lemma_single_piece, pieces, split, trim, trimmed,
};

verus! {

// ---------------------------------------------------------------------------
// Credentials in a file
// ---------------------------------------------------------------------------

/// The private key and the e-mail address in a credentials file.
pub open spec fn credentials_in(tree: JsonModel) -> Result<(Seq<char>, Seq<char>), Seq<char>> {
    match text_of(field(Some(tree), "private_key"@)) {
        None => Err("Missing 'private_key' in credentials file"@),
        Some(key) => match text_of(field(Some(tree), "client_email"@)) {
            None => Err("Missing 'client_email' in credentials file"@),
            Some(email) => Ok((key, email)),
        },
    }
}

/// What the content of a credentials file says.
pub open spec fn credentials_outcome(path: Seq<char>, content: Seq<char>) -> Result<
    (Seq<char>, Seq<char>),
    Seq<char>,
> {
    match parsed_json(content) {
        Ok(tree) => credentials_in(tree),
        Err(e) => Err("Cannot parse JSON from '"@ + path + "': "@ + e),
    }
}

/// The private key and the e-mail address in a credentials file.
pub fn find_credentials(tree: &Json) -> (r: Result<(String, String), String>)
    ensures
        pair_outcome(r) == credentials_in(tree.deep_view()),
{
    match get_text(get(Some(tree), "private_key")) {
        None => Err("Missing 'private_key' in credentials file".to_owned()),
        Some(key) => match get_text(get(Some(tree), "client_email")) {
            None => Err("Missing 'client_email' in credentials file".to_owned()),
            Some(email) => Ok((key, email)),
        },
    }
}

/// Judge the content of a credentials file.
pub fn load_google_application_credentials(path: &str, content: &str) -> (r: Result<(String, String), String>)
    ensures
        pair_outcome(r) == credentials_outcome(path@, content@),
{
    match parse_json(content) {
        Ok(tree) => find_credentials(&tree),
        Err(e) => Err(cat4("Cannot parse JSON from '", path, "': ", e.as_str())),
    }
}

/// Credentials as the text of a credentials file.
pub open spec fn credentials_text(private_key: Seq<char>, client_email: Seq<char>) -> Seq<char> {
    pretty_texts(credential_entries(private_key, client_email))
}

/// What a credentials file holds.
pub open spec fn credential_entries(private_key: Seq<char>, client_email: Seq<char>) -> Entries {
    seq![("type"@, "service_account"@), ("private_key"@, private_key), ("client_email"@, client_email)]
}

/// Credentials as the text of a credentials file. Reading it gives back the
/// key and the e-mail address.
pub fn credentials_json(private_key: &str, client_email: &str) -> (r: String)
    ensures
        r@ == credentials_text(private_key@, client_email@),
        forall|path: Seq<char>| #[trigger]
            credentials_outcome(path, r@) == Ok::<(Seq<char>, Seq<char>), Seq<char>>(
                (private_key@, client_email@),
            ),
{
    let entries: Vec<(String, String)> = vec![
        ("type".to_owned(), "service_account".to_owned()),
        ("private_key".to_owned(), private_key.to_owned()),
        ("client_email".to_owned(), client_email.to_owned()),
    ];
    let ghost model = credential_entries(private_key@, client_email@);
    assert(entries.deep_view() =~= model);
    let r = print_texts(&entries);
    proof {
        reveal_strlit("type");
        reveal_strlit("private_key");
        reveal_strlit("client_email");
        assert("private_key"@.len() != "client_email"@.len());
        let front = model.drop_last();
        assert(model.last() == ("client_email"@, client_email@));
        assert(front.last() == ("private_key"@, private_key@));
        assert(lookup(front, "private_key"@) == Some(private_key@));
        assert(lookup(model, "private_key"@) == Some(private_key@));
        assert(lookup(model, "client_email"@) == Some(client_email@));
    }
    r
}

/// The file that credentials are saved to.
pub open spec fn credential_file(email: Seq<char>) -> Seq<char> {
    "maglev-credentials-"@ + pieces(email, '@')[0] + ".json"@
}

/// The file that credentials are saved to.
pub fn credential_file_name(email: &str) -> (r: String)
    ensures
        r@ == credential_file(email@),
{
    let parts = split(email, '@');
    assert(parts.deep_view()[0] == parts@[0]@);
    cat3("maglev-credentials-", parts[0].as_str(), ".json")
}

/// Judge what the operator typed for an e-mail address.
pub fn prompt_client_email(line: &str) -> (r: Result<String, String>)
    ensures
        text_outcome(r) == email_outcome(line@),
{
    let email = trim(line);
    if email.as_str().is_empty() {
        Err("Client email cannot be empty.".to_owned())
    } else {
        Ok(email)
    }
}

/// What the operator's line says of an e-mail address.
pub open spec fn email_outcome(line: Seq<char>) -> Result<Seq<char>, Seq<char>> {
    if trimmed(line).len() == 0 {
        Err("Client email cannot be empty."@)
    } else {
        Ok(trimmed(line))
    }
}

// ---------------------------------------------------------------------------
// The builder
// ---------------------------------------------------------------------------

/// What the builder wants done next.
#[derive(Debug, PartialEq, Eq)]
pub enum Task<S> {
    /// Put a yes/no question to the operator.
    Confirm(S),
    /// Ask the operator for a line of text, after this prompt.
    Prompt(S),
    /// Read a file.
    ReadFile(S),
    /// Tell whether a file exists.
    Exists(S),
    /// A new private key is to be made.
    NewKey,
    /// Create the directories above a file.
    CreateParents(S),
    /// Write a text to a file.
    WriteFile(S, S),
    /// A certificate for the private key is to be made. Its outcome is the PEM
    /// text.
    Certify,
    /// End the program with a failure, without a further word.
    Quit,
}

impl<S: DeepView> DeepView for Task<S> {
    type V = Task<S::V>;

    open spec fn deep_view(&self) -> Task<S::V> {
        match *self {
            Task::Confirm(s) => Task::Confirm(s.deep_view()),
            Task::Prompt(s) => Task::Prompt(s.deep_view()),
            Task::ReadFile(s) => Task::ReadFile(s.deep_view()),
            Task::Exists(s) => Task::Exists(s.deep_view()),
            Task::NewKey => Task::NewKey,
            Task::CreateParents(s) => Task::CreateParents(s.deep_view()),
            Task::WriteFile(p, s) => Task::WriteFile(p.deep_view(), s.deep_view()),
            Task::Certify => Task::Certify,
            Task::Quit => Task::Quit,
        }
    }
}

/// Where the builder stands.
pub enum BuilderStage<S> {
    /// A credentials file is being read from here.
    ReadingCredentials(S),
    /// Is there a key file here?
    Looking(S),
    ReadingKey(S),
    /// May a new key be made?
    AskGenerate(S),
    Generating(S),
    /// The directories above the key file are being created.
    Preparing(S),
    WritingKey(S),
    /// The e-mail address is being asked for.
    AskEmail,
    Certifying,
    /// Should the credentials be printed?
    AskShow,
    /// Should the credentials be saved?
    AskSave,
    Saving,
    Quitting,
}

impl<S: DeepView> DeepView for BuilderStage<S> {
    type V = BuilderStage<S::V>;

    open spec fn deep_view(&self) -> BuilderStage<S::V> {
        match *self {
            BuilderStage::ReadingCredentials(s) => BuilderStage::ReadingCredentials(s.deep_view()),
            BuilderStage::Looking(s) => BuilderStage::Looking(s.deep_view()),
            BuilderStage::ReadingKey(s) => BuilderStage::ReadingKey(s.deep_view()),
            BuilderStage::AskGenerate(s) => BuilderStage::AskGenerate(s.deep_view()),
            BuilderStage::Generating(s) => BuilderStage::Generating(s.deep_view()),
            BuilderStage::Preparing(s) => BuilderStage::Preparing(s.deep_view()),
            BuilderStage::WritingKey(s) => BuilderStage::WritingKey(s.deep_view()),
            BuilderStage::AskEmail => BuilderStage::AskEmail,
            BuilderStage::Certifying => BuilderStage::Certifying,
            BuilderStage::AskShow => BuilderStage::AskShow,
            BuilderStage::AskSave => BuilderStage::AskSave,
            BuilderStage::Saving => BuilderStage::Saving,
            BuilderStage::Quitting => BuilderStage::Quitting,
        }
    }
}

/// The builder of credentials.
pub struct Builder<S> {
    /// `MAGLEV_CLIENT_EMAIL`.
    pub given_email: Option<S>,
    pub private_key: S,
    pub client_email: S,
    pub stage: BuilderStage<S>,
}

impl<S: DeepView> DeepView for Builder<S> {
    type V = Builder<S::V>;

    open spec fn deep_view(&self) -> Builder<S::V> {
        Builder {
            given_email: self.given_email.deep_view(),
            private_key: self.private_key.deep_view(),
            client_email: self.client_email.deep_view(),
            stage: self.stage.deep_view(),
        }
    }
}

pub type BuilderModel = Builder<Seq<char>>;

/// Where the builder stands after an event.
pub enum Building<S> {
    /// It waits for the outcome of a task.
    Wait(Builder<S>, Task<S>),
    Done,
    /// It gave up, for the reason given.
    Failed(S),
}

impl<S: DeepView> DeepView for Building<S> {
    type V = Building<S::V>;

    open spec fn deep_view(&self) -> Building<S::V> {
        match *self {
            Building::Wait(b, t) => Building::Wait(b.deep_view(), t.deep_view()),
            Building::Done => Building::Done,
            Building::Failed(s) => Building::Failed(s.deep_view()),
        }
    }
}

pub type BuilderStep = (Building<Seq<char>>, Log);

/// The builder waits for a task.
pub open spec fn builder_wait(m: BuilderModel, stage: BuilderStage<Seq<char>>, task: Task<Seq<char>>, log: Log) -> BuilderStep {
    (Building::Wait(Builder { stage, ..m }, task), log)
}

/// The builder starts with the credentials file, or where there is none with
/// the key file.
pub open spec fn builder_begin(
    credentials_path: Option<Seq<char>>,
    key_path: Option<Seq<char>>,
    email: Option<Seq<char>>,
    log: Log,
) -> BuilderStep {
    let m = Builder {
        given_email: email,
        private_key: ""@,
        client_email: ""@,
        stage: BuilderStage::AskEmail,
    };
    let headed = log.push(Note::Say("=== Maglev Credential Builder ===\n"@));
    match credentials_path {
        Some(path) => builder_wait(
            m,
            BuilderStage::ReadingCredentials(path),
            Task::ReadFile(path),
            headed.push(Note::Say("GOOGLE_APPLICATION_CREDENTIALS = "@ + path)),
        ),
        None => {
            let told = headed.push(
                Note::Say("  GOOGLE_APPLICATION_CREDENTIALS not set — falling through.\n"@),
            );
            match key_path {
                Some(path) => builder_wait(
                    m,
                    BuilderStage::Looking(path),
                    Task::Exists(path),
                    told.push(Note::Say("MAGLEV_PRIVATE_KEY = "@ + path)),
                ),
                None => (Building::Failed("MAGLEV_PRIVATE_KEY environment variable is not set"@), told),
            }
        },
    }
}

/// The private key is known: find the e-mail address.
pub open spec fn key_found(m: BuilderModel, log: Log) -> BuilderStep {
    match m.given_email {
        Some(email) => certify(Builder { client_email: email, ..m }, log),
        None => builder_wait(
            m,
            BuilderStage::AskEmail,
            Task::Prompt("  Enter client email: "@),
            log.push(Note::Say("  MAGLEV_CLIENT_EMAIL not set."@)),
        ),
    }
}

/// Key and e-mail address are known: make a certificate.
pub open spec fn certify(m: BuilderModel, log: Log) -> BuilderStep {
    builder_wait(m, BuilderStage::Certifying, Task::Certify, log)
}

/// The certificate was made: show it.
pub open spec fn certified(m: BuilderModel, pem: Seq<char>, log: Log) -> BuilderStep {
    builder_wait(
        m,
        BuilderStage::AskShow,
        Task::Confirm("\nPrint the JSON file?"@),
        log.push(
            Note::Say("\n── Public certificate (RSA_X509_PEM) ──────────────────────────────────\n"@),
        ).push(Note::Say(pem)).push(Note::Say("Upload steps:"@)).push(
            Note::Say("  • IAM & Admin → Service Accounts → "@ + m.client_email + " → Keys"@),
        ).push(Note::Say("    → Add Key → Upload public key, and paste the certificate above."@)).push(
            Note::Say("  • Or via CLI:"@),
        ).push(Note::Say("      gcloud iam service-accounts keys upload cert.pem \\"@)).push(
            Note::Say("        --iam-account="@ + m.client_email),
        ).push(
            Note::Say("\n── Credentials ─────────────────────────────────────────────────────────\n"@),
        ),
    )
}

/// The credentials were shown, or not: save them, if that is wanted.
pub open spec fn ask_save(m: BuilderModel, log: Log) -> BuilderStep {
    builder_wait(m, BuilderStage::AskSave, Task::Confirm("\nSave credentials to file?"@), log)
}

/// What the builder does when it is told the outcome of its task.
pub open spec fn builder_next(m: BuilderModel, event: Event<Seq<char>>, log: Log) -> BuilderStep {
    match (m.stage, event) {
        (BuilderStage::ReadingCredentials(path), Event::Output(content)) => match credentials_outcome(
            path,
            content,
        ) {
            Ok((private_key, client_email)) => certify(
                Builder { private_key, client_email, ..m },
                log.push(Note::Say("  Using credentials from GOOGLE_APPLICATION_CREDENTIALS.\n"@)),
            ),
            Err(e) => (Building::Failed(e), log),
        },
        (BuilderStage::ReadingCredentials(path), Event::Failed(e)) => (
            Building::Failed("Cannot read '"@ + path + "': "@ + e),
            log,
        ),
        (BuilderStage::Looking(path), Event::Answer(there)) => if there {
            builder_wait(
                m,
                BuilderStage::ReadingKey(path),
                Task::ReadFile(path),
                log.push(Note::Say("  Key file found — reading …"@)),
            )
        } else {
            builder_wait(
                m,
                BuilderStage::AskGenerate(path),
                Task::Confirm("  Generate and save a new RSA-2048 private key?"@),
                log.push(Note::Say("  Key file does not exist at: "@ + path)),
            )
        },
        (BuilderStage::ReadingKey(_), Event::Output(content)) => key_found(
            Builder { private_key: content, ..m },
            log,
        ),
        (BuilderStage::ReadingKey(path), Event::Failed(e)) => (
            Building::Failed("Cannot read '"@ + path + "': "@ + e),
            log,
        ),
        (BuilderStage::AskGenerate(path), Event::Answer(yes)) => if yes {
            builder_wait(m, BuilderStage::Generating(path), Task::NewKey, log)
        } else {
            builder_wait(m, BuilderStage::Quitting, Task::Quit, log.push(Note::Warn("  Aborted."@)))
        },
        (BuilderStage::Generating(path), Event::Output(pem)) => builder_wait(
            Builder { private_key: pem, ..m },
            BuilderStage::Preparing(path),
            Task::CreateParents(path),
            log,
        ),
        (BuilderStage::Generating(_), Event::Failed(e)) => (Building::Failed(e), log),
        (BuilderStage::Preparing(path), Event::Finished) => builder_wait(
            m,
            BuilderStage::WritingKey(path),
            Task::WriteFile(path, m.private_key),
            log,
        ),
        (BuilderStage::Preparing(_), Event::Failed(e)) => (
            Building::Failed("Cannot create parent directories: "@ + e),
            log,
        ),
        (BuilderStage::WritingKey(path), Event::Finished) => key_found(
            m,
            log.push(Note::Say("  Private key saved to: "@ + path)),
        ),
        (BuilderStage::WritingKey(path), Event::Failed(e)) => (
            Building::Failed("Cannot write private key to '"@ + path + "': "@ + e),
            log,
        ),
        (BuilderStage::AskEmail, Event::Output(line)) => match email_outcome(line) {
            Ok(email) => certify(Builder { client_email: email, ..m }, log),
            Err(e) => (Building::Failed(e), log),
        },
        (BuilderStage::AskEmail, Event::Failed(e)) => (Building::Failed(e), log),
        (BuilderStage::Certifying, Event::Output(pem)) => certified(m, pem, log),
        (BuilderStage::Certifying, Event::Failed(e)) => (Building::Failed(e), log),
        (BuilderStage::AskShow, Event::Answer(yes)) => if yes {
            ask_save(m, log.push(Note::Say(credentials_text(m.private_key, m.client_email))))
        } else {
            ask_save(m, log)
        },
        (BuilderStage::AskSave, Event::Answer(yes)) => if yes {
            builder_wait(
                m,
                BuilderStage::Saving,
                Task::WriteFile(
                    credential_file(m.client_email),
                    credentials_text(m.private_key, m.client_email),
                ),
                log,
            )
        } else {
            (Building::Done, log)
        },
        (BuilderStage::Saving, Event::Finished) => (
            Building::Done,
            log.push(Note::Say("✓ Credentials saved to: "@ + credential_file(m.client_email))).push(
                Note::Say("⚠ Keep this file secure!"@),
            ),
        ),
        (BuilderStage::Saving, Event::Failed(e)) => (
            Building::Failed("Cannot write credentials: "@ + e),
            log,
        ),
        _ => (Building::Failed(OUT_OF_STEP@), log),
    }
}

/// The event that tells of a text that was made, or why it was not.
pub open spec fn text_event(made: Result<Seq<char>, Seq<char>>) -> Event<Seq<char>> {
    match made {
        Ok(text) => Event::Output(text),
        Err(e) => Event::Failed(e),
    }
}

/// The event that tells of a certificate that was made, or why it was not.
pub open spec fn certificate_event(made: Result<(Seq<char>, Seq<char>), Seq<char>>) -> Event<Seq<char>> {
    match made {
        Ok((pem, _)) => Event::Output(pem),
        Err(e) => Event::Failed(e),
    }
}

/// Whether `end` can come of a step, once the key or the certificate that it
/// waits for is made at `now`. Which key is made depends on chance.
pub open spec fn advances(s: BuilderStep, now: int, end: BuilderStep) -> bool {
    match s.0 {
        Building::Wait(m, Task::NewKey) => exists|made: Result<Seq<char>, Seq<char>>|
            {
                &&& #[trigger] key_possible(made)
                &&& end == builder_next(
                    m,
                    text_event(made),
                    s.1.push(Note::Say("  Generating RSA-2048 private key …"@)),
                )
            },
        Building::Wait(m, Task::Certify) => exists|made: Result<(Seq<char>, Seq<char>), Seq<char>>|
            {
                &&& #[trigger] info_possible(m.private_key, m.client_email, now, made)
                &&& end == builder_next(m, certificate_event(made), s.1)
            },
        _ => end == s,
    }
}

/// A key is made, and credentials are shown or saved, only when the operator
/// has agreed.
pub proof fn law_builder_needs_approval(m: BuilderModel, event: Event<Seq<char>>, log: Log)
    ensures
        builder_next(m, event, log).0 matches Building::Wait(n, t) ==> (t is NewKey || n.stage is Saving
            ==> event == Event::<Seq<char>>::Answer(true)),
        m.stage is AskShow && event != Event::<Seq<char>>::Answer(true) ==> builder_next(m, event, log).1 == log,
{
}

/// How far the builder is from its end.
pub open spec fn builder_rank(m: BuilderModel) -> nat {
    match m.stage {
        BuilderStage::ReadingCredentials(_) => 12,
        BuilderStage::Looking(_) => 11,
        BuilderStage::ReadingKey(_) => 10,
        BuilderStage::AskGenerate(_) => 10,
        BuilderStage::Generating(_) => 9,
        BuilderStage::Preparing(_) => 8,
        BuilderStage::WritingKey(_) => 7,
        BuilderStage::AskEmail => 6,
        BuilderStage::Certifying => 5,
        BuilderStage::AskShow => 4,
        BuilderStage::AskSave => 3,
        BuilderStage::Saving => 2,
        BuilderStage::Quitting => 1,
    }
}

/// The builder comes to an end: every step takes it nearer.
pub proof fn law_builder_ends(m: BuilderModel, event: Event<Seq<char>>, log: Log)
    ensures
        builder_next(m, event, log).0 matches Building::Wait(n, _) ==> builder_rank(n) < builder_rank(m),
{
}

/// The key that is written is the one that was made.
pub proof fn law_new_key_is_written(m: BuilderModel, path: Seq<char>, pem: Seq<char>, log: Log)
    requires
        m.stage == BuilderStage::Generating(path),
    ensures
        builder_next(m, Event::Output(pem), log).0 matches Building::Wait(n, _) && builder_next(
            n,
            Event::Finished,
            log,
        ).0 matches Building::Wait(_, t) && t == Task::WriteFile(path, pem),
{
}

/// Credentials are read if and only if the file is JSON and has both a private
/// key and an address, and then they are those two.
pub proof fn law_credentials_need_both(path: Seq<char>, content: Seq<char>)
    ensures
        match parsed_json(content) {
            Ok(tree) => match (field(Some(tree), "private_key"@), field(Some(tree), "client_email"@)) {
                (Some(JsonModel::Text(key)), Some(JsonModel::Text(email))) => credentials_outcome(path, content)
                    == Ok::<(Seq<char>, Seq<char>), Seq<char>>((key, email)),
                (Some(JsonModel::Text(_)), _) => credentials_outcome(path, content) == Err::<
                    (Seq<char>, Seq<char>),
                    Seq<char>,
                >("Missing 'client_email' in credentials file"@),
                _ => credentials_outcome(path, content) == Err::<(Seq<char>, Seq<char>), Seq<char>>(
                    "Missing 'private_key' in credentials file"@,
                ),
            },
            Err(e) => credentials_outcome(path, content) == Err::<(Seq<char>, Seq<char>), Seq<char>>(
                "Cannot parse JSON from '"@ + path + "': "@ + e,
            ),
        },
{
}

/// The file that credentials are saved to is called after what stands before
/// the `@` of the address.
pub proof fn law_credential_file_named_after_user(user: Seq<char>, domain: Seq<char>)
    requires
        !user.contains('@'),
        !domain.contains('@'),
    ensures
        credential_file(user + seq!['@'] + domain) == "maglev-credentials-"@ + user + ".json"@,
        credential_file(user) == "maglev-credentials-"@ + user + ".json"@,
{
    lemma_single_piece(user, '@');
    lemma_piece_added(user, domain, '@');
}

/// The builder starts with the credentials file, where one is named; else it
/// looks for the key file, where one is named; and else it fails. The address
/// that it was given stays with it.
pub proof fn law_builder_starts(
    credentials_path: Option<Seq<char>>,
    key_path: Option<Seq<char>>,
    email: Option<Seq<char>>,
    log: Log,
)
    ensures
        match (credentials_path, key_path) {
            (Some(path), _) => builder_begin(credentials_path, key_path, email, log).0 matches Building::Wait(m, t)
                && m.stage == BuilderStage::ReadingCredentials(path) && t == Task::ReadFile(path) && m.given_email
                == email,
            (None, Some(path)) => builder_begin(credentials_path, key_path, email, log).0 matches Building::Wait(m, t)
                && m.stage == BuilderStage::Looking(path) && t == Task::Exists(path) && m.given_email == email,
            (None, None) => builder_begin(credentials_path, key_path, email, log).0 == Building::Failed(
                "MAGLEV_PRIVATE_KEY environment variable is not set"@,
            ),
        },
        ({
            let told = builder_begin(credentials_path, key_path, email, log).1;
            &&& kept(log.push(Note::Say("=== Maglev Credential Builder ===\n"@)), told)
            &&& match (credentials_path, key_path) {
                (Some(path), _) => told.last() == Note::Say("GOOGLE_APPLICATION_CREDENTIALS = "@ + path),
                (None, Some(path)) => told.last() == Note::Say("MAGLEV_PRIVATE_KEY = "@ + path),
                (None, None) => told.last() == Note::Say(
                    "  GOOGLE_APPLICATION_CREDENTIALS not set — falling through.\n"@,
                ),
            }
        }),
{
}

/// The key and the address of the builder are those it was told, and no others:
/// both from a credentials file; else the key that was read, or the one that
/// was made, and the address it was given, or else the one that was typed,
/// without white space around it.
pub proof fn law_builder_keeps_what_it_is_told(m: BuilderModel, event: Event<Seq<char>>, log: Log)
    ensures
        builder_next(m, event, log).0 matches Building::Wait(n, _) ==> {
            &&& n.given_email == m.given_email
            &&& match (m.stage, event) {
                (BuilderStage::ReadingCredentials(path), Event::Output(content)) => credentials_outcome(path, content)
                    == Ok::<(Seq<char>, Seq<char>), Seq<char>>((n.private_key, n.client_email)) && n.stage is Certifying,
                (BuilderStage::ReadingKey(_), Event::Output(content)) => n.private_key == content && (
                match m.given_email {
                    Some(email) => n.client_email == email && n.stage is Certifying,
                    None => n.stage is AskEmail,
                }),
                (BuilderStage::Generating(_), Event::Output(pem)) => n.private_key == pem && n.client_email
                    == m.client_email,
                (BuilderStage::WritingKey(_), _) => n.private_key == m.private_key && (match m.given_email {
                    Some(email) => n.client_email == email && n.stage is Certifying,
                    None => n.stage is AskEmail,
                }),
                (BuilderStage::AskEmail, Event::Output(line)) => n.private_key == m.private_key && n.client_email
                    == trimmed(line) && trimmed(line).len() > 0 && n.stage is Certifying,
                _ => n.private_key == m.private_key && n.client_email == m.client_email,
            }
        },
        m.stage is AskEmail ==> (event matches Event::Output(line) ==> (builder_next(m, event, log).0 is Failed
            <==> trimmed(line).len() == 0)),
{
}

/// No line that the operator was told by the builder is ever taken back. A
/// missing key file is told by its path, the certificate is shown with the
/// account that it has to be uploaded for, and a failure to read names the file
/// and the reason.
pub proof fn law_builder_tells(m: BuilderModel, event: Event<Seq<char>>, text: Seq<char>, log: Log)
    ensures
        kept(log, builder_next(m, event, log).1),
        m.stage matches BuilderStage::Looking(path) ==> builder_next(m, Event::Answer(false), log).1 == log.push(
            Note::Say("  Key file does not exist at: "@ + path),
        ) && builder_next(m, Event::Answer(true), log).1 == log.push(Note::Say("  Key file found — reading …"@)),
        m.stage matches BuilderStage::ReadingCredentials(path) ==> builder_next(m, Event::Failed(text), log).0
            == Building::Failed("Cannot read '"@ + path + "': "@ + text),
        m.stage matches BuilderStage::ReadingKey(path) ==> builder_next(m, Event::Failed(text), log).0
            == Building::Failed("Cannot read '"@ + path + "': "@ + text),
        m.stage is AskEmail && trimmed(text).len() == 0 ==> builder_next(m, Event::Output(text), log).0
            == Building::Failed("Client email cannot be empty."@),
        m.stage is Certifying ==> kept(
            log.push(
                Note::Say("\n── Public certificate (RSA_X509_PEM) ──────────────────────────────────\n"@),
            ).push(Note::Say(text)).push(Note::Say("Upload steps:"@)).push(
                Note::Say("  • IAM & Admin → Service Accounts → "@ + m.client_email + " → Keys"@),
            ),
            builder_next(m, Event::Output(text), log).1,
        ) && builder_next(m, Event::Output(text), log).1.contains(
            Note::Say("        --iam-account="@ + m.client_email),
        ),
{
    if m.stage is Certifying {
        let told = builder_next(m, Event::Output(text), log).1;
        assert(told[log.len() as int + 7] == Note::Say("        --iam-account="@ + m.client_email));
    }
}

/// Every task of the builder belongs to its stage: the key is read from, or
/// written to, the file that was named, and what is saved are the credentials
/// that were built.
pub proof fn law_builder_asks_rightly(m: BuilderModel, event: Event<Seq<char>>, log: Log)
    ensures
        builder_next(m, event, log).0 matches Building::Wait(n, t) ==> match n.stage {
            BuilderStage::ReadingKey(path) => t == Task::ReadFile(path) && m.stage == BuilderStage::Looking(path)
                && event == Event::<Seq<char>>::Answer(true),
            BuilderStage::AskGenerate(path) => t == Task::Confirm(
                "  Generate and save a new RSA-2048 private key?"@,
            ) && m.stage == BuilderStage::Looking(path) && event == Event::<Seq<char>>::Answer(false),
            BuilderStage::Generating(path) => t is NewKey && m.stage == BuilderStage::AskGenerate(path),
            BuilderStage::Preparing(path) => t == Task::CreateParents(path) && m.stage == BuilderStage::Generating(path),
            BuilderStage::WritingKey(path) => t == Task::WriteFile(path, m.private_key) && m.stage
                == BuilderStage::Preparing(path),
            BuilderStage::AskEmail => t is Prompt,
            BuilderStage::Certifying => t is Certify,
            BuilderStage::AskShow => t == Task::Confirm("\nPrint the JSON file?"@) && m.stage is Certifying,
            BuilderStage::AskSave => t == Task::Confirm("\nSave credentials to file?"@) && m.stage is AskShow,
            BuilderStage::Saving => m.stage is AskSave && t == Task::WriteFile(
                "maglev-credentials-"@ + pieces(m.client_email, '@')[0] + ".json"@,
                pretty_texts(
                    seq![
                        ("type"@, "service_account"@),
                        ("private_key"@, m.private_key),
                        ("client_email"@, m.client_email),
                    ],
                ),
            ),
            BuilderStage::Quitting => t is Quit && m.stage is AskGenerate && event == Event::<Seq<char>>::Answer(false),
            _ => false,
        },
        m.stage is AskShow ==> builder_next(m, Event::Answer(true), log).1.last() == Note::Say(
            pretty_texts(
                seq![
                    ("type"@, "service_account"@),
                    ("private_key"@, m.private_key),
                    ("client_email"@, m.client_email),
                ],
            ),
        ),
        m.stage is AskSave ==> (builder_next(m, Event::Answer(true), log).0 is Wait && builder_next(
            m,
            Event::Answer(false),
            log,
        ).0 is Done),
        m.stage is Saving && event is Finished ==> builder_next(m, event, log).0 is Done,
{
}

/// Start building credentials. The arguments are the values of
/// `GOOGLE_APPLICATION_CREDENTIALS`, `MAGLEV_PRIVATE_KEY` and
/// `MAGLEV_CLIENT_EMAIL`, as far as they are set.
pub fn print_build_credential(
    credentials_path: Option<String>,
    key_path: Option<String>,
    email: Option<String>,
    log: &mut Vec<Note<String>>,
) -> (r: Building<String>)
    ensures
        (r.deep_view(), final(log).deep_view()) == builder_begin(
            credentials_path.deep_view(),
            key_path.deep_view(),
            email.deep_view(),
            old(log).deep_view(),
        ),
{
    say(log, "=== Maglev Credential Builder ===\n".to_owned());
    let m = Builder {
        given_email: email,
        private_key: "".to_owned(),
        client_email: "".to_owned(),
        stage: BuilderStage::AskEmail,
    };
    match credentials_path {
        Some(path) => {
            say(log, cat2("GOOGLE_APPLICATION_CREDENTIALS = ", path.as_str()));
            let task = Task::ReadFile(path.clone());
            m.wait(BuilderStage::ReadingCredentials(path), task)
        },
        None => {
            say(log, "  GOOGLE_APPLICATION_CREDENTIALS not set — falling through.\n".to_owned());
            match key_path {
                Some(path) => {
                    say(log, cat2("MAGLEV_PRIVATE_KEY = ", path.as_str()));
                    let task = Task::Exists(path.clone());
                    m.wait(BuilderStage::Looking(path), task)
                },
                None => Building::Failed(
                    "MAGLEV_PRIVATE_KEY environment variable is not set".to_owned(),
                ),
            }
        },
    }
}

impl Builder<String> {
    fn wait(self, stage: BuilderStage<String>, task: Task<String>) -> (r: Building<String>)
        ensures
            r.deep_view() == Building::Wait(
                Builder { stage: stage.deep_view(), ..self.deep_view() },
                task.deep_view(),
            ),
    {
        Building::Wait(Builder { stage, ..self }, task)
    }

    fn key_found(self, log: &mut Vec<Note<String>>) -> (r: Building<String>)
        ensures
            (r.deep_view(), final(log).deep_view()) == key_found(self.deep_view(), old(log).deep_view()),
    {
        match &self.given_email {
            Some(email) => {
                let client_email = email.clone();
                Builder { client_email, ..self }.wait(BuilderStage::Certifying, Task::Certify)
            },
            None => {
                say(log, "  MAGLEV_CLIENT_EMAIL not set.".to_owned());
                self.wait(BuilderStage::AskEmail, Task::Prompt("  Enter client email: ".to_owned()))
            },
        }
    }

    fn certified(self, pem: String, log: &mut Vec<Note<String>>) -> (r: Building<String>)
        ensures
            (r.deep_view(), final(log).deep_view()) == certified(
                self.deep_view(),
                pem@,
                old(log).deep_view(),
            ),
    {
        let email = self.client_email.as_str();
        say(log, "\n── Public certificate (RSA_X509_PEM) ──────────────────────────────────\n".to_owned());
        say(log, pem);
        say(log, "Upload steps:".to_owned());
        say(log, cat3("  • IAM & Admin → Service Accounts → ", email, " → Keys"));
        say(log, "    → Add Key → Upload public key, and paste the certificate above.".to_owned());
        say(log, "  • Or via CLI:".to_owned());
        say(log, "      gcloud iam service-accounts keys upload cert.pem \\".to_owned());
        say(log, cat2("        --iam-account=", email));
        say(log, "\n── Credentials ─────────────────────────────────────────────────────────\n".to_owned());
        self.wait(BuilderStage::AskShow, Task::Confirm("\nPrint the JSON file?".to_owned()))
    }

    fn ask_save(self) -> (r: Building<String>)
        ensures
            r.deep_view() == Building::Wait(
                Builder { stage: BuilderStage::AskSave, ..self.deep_view() },
                Task::Confirm("\nSave credentials to file?"@),
            ),
    {
        let task = Task::Confirm("\nSave credentials to file?".to_owned());
        Building::Wait(Builder { stage: BuilderStage::AskSave, ..self }, task)
    }

    fn step_key(self, event: Event<String>, log: &mut Vec<Note<String>>) -> (r: Building<String>)
        requires
            self.stage is ReadingCredentials || self.stage is Looking || self.stage is ReadingKey
                || self.stage is AskGenerate || self.stage is Generating || self.stage is Preparing
                || self.stage is WritingKey,
        ensures
            (r.deep_view(), final(log).deep_view()) == builder_next(
                self.deep_view(),
                event.deep_view(),
                old(log).deep_view(),
            ),
    {
        let Builder { given_email, private_key, client_email, stage } = self;
        let m = Builder { given_email, private_key, client_email, stage: BuilderStage::AskEmail };
        match (stage, event) {
            (BuilderStage::ReadingCredentials(path), Event::Output(content)) => {
                match load_google_application_credentials(path.as_str(), content.as_str()) {
                    Ok((private_key, client_email)) => {
                        say(
                            log,
                            "  Using credentials from GOOGLE_APPLICATION_CREDENTIALS.\n".to_owned(),
                        );
                        Builder { private_key, client_email, ..m }.wait(
                            BuilderStage::Certifying,
                            Task::Certify,
                        )
                    },
                    Err(e) => Building::Failed(e),
                }
            },
            (BuilderStage::ReadingCredentials(path), Event::Failed(e)) => Building::Failed(
                cat4("Cannot read '", path.as_str(), "': ", e.as_str()),
            ),
            (BuilderStage::Looking(path), Event::Answer(there)) => if there {
                say(log, "  Key file found — reading …".to_owned());
                let task = Task::ReadFile(path.clone());
                m.wait(BuilderStage::ReadingKey(path), task)
            } else {
                say(log, cat2("  Key file does not exist at: ", path.as_str()));
                m.wait(
                    BuilderStage::AskGenerate(path),
                    Task::Confirm("  Generate and save a new RSA-2048 private key?".to_owned()),
                )
            },
            (BuilderStage::ReadingKey(_), Event::Output(content)) => Builder {
                private_key: content,
                ..m
            }.key_found(log),
            (BuilderStage::ReadingKey(path), Event::Failed(e)) => Building::Failed(
                cat4("Cannot read '", path.as_str(), "': ", e.as_str()),
            ),
            (BuilderStage::AskGenerate(path), Event::Answer(yes)) => if yes {
                m.wait(BuilderStage::Generating(path), Task::NewKey)
            } else {
                warn(log, "  Aborted.".to_owned());
                m.wait(BuilderStage::Quitting, Task::Quit)
            },
            (BuilderStage::Generating(path), Event::Output(pem)) => {
                let task = Task::CreateParents(path.clone());
                Builder { private_key: pem, ..m }.wait(BuilderStage::Preparing(path), task)
            },
            (BuilderStage::Generating(_), Event::Failed(e)) => Building::Failed(e),
            (BuilderStage::Preparing(path), Event::Finished) => {
                let task = Task::WriteFile(path.clone(), m.private_key.clone());
                m.wait(BuilderStage::WritingKey(path), task)
            },
            (BuilderStage::Preparing(_), Event::Failed(e)) => Building::Failed(
                cat2("Cannot create parent directories: ", e.as_str()),
            ),
            (BuilderStage::WritingKey(path), Event::Finished) => {
                say(log, cat2("  Private key saved to: ", path.as_str()));
                m.key_found(log)
            },
            (BuilderStage::WritingKey(path), Event::Failed(e)) => Building::Failed(
                cat4("Cannot write private key to '", path.as_str(), "': ", e.as_str()),
            ),
            _ => Building::Failed(OUT_OF_STEP.to_owned()),
        }
    }

    /// Take the outcome of the task that was asked for.
    pub fn step(self, event: Event<String>, log: &mut Vec<Note<String>>) -> (r: Building<String>)
        ensures
            (r.deep_view(), final(log).deep_view()) == builder_next(
                self.deep_view(),
                event.deep_view(),
                old(log).deep_view(),
            ),
    {
        match (&self.stage, event) {
            (BuilderStage::ReadingCredentials(_), e) => self.step_key(e, log),
            (BuilderStage::Looking(_), e) => self.step_key(e, log),
            (BuilderStage::ReadingKey(_), e) => self.step_key(e, log),
            (BuilderStage::AskGenerate(_), e) => self.step_key(e, log),
            (BuilderStage::Generating(_), e) => self.step_key(e, log),
            (BuilderStage::Preparing(_), e) => self.step_key(e, log),
            (BuilderStage::WritingKey(_), e) => self.step_key(e, log),
            (BuilderStage::AskEmail, Event::Output(line)) => {
                match prompt_client_email(line.as_str()) {
                    Ok(email) => Builder { client_email: email, ..self }.wait(
                        BuilderStage::Certifying,
                        Task::Certify,
                    ),
                    Err(e) => Building::Failed(e),
                }
            },
            (BuilderStage::AskEmail, Event::Failed(e)) => Building::Failed(e),
            (BuilderStage::Certifying, Event::Output(pem)) => self.certified(pem, log),
            (BuilderStage::Certifying, Event::Failed(e)) => Building::Failed(e),
            (BuilderStage::AskShow, Event::Answer(yes)) => {
                if yes {
                    say(log, credentials_json(self.private_key.as_str(), self.client_email.as_str()));
                }
                self.ask_save()
            },
            (BuilderStage::AskSave, Event::Answer(yes)) => if yes {
                let file = credential_file_name(self.client_email.as_str());
                let json = credentials_json(self.private_key.as_str(), self.client_email.as_str());
                self.wait(BuilderStage::Saving, Task::WriteFile(file, json))
            } else {
                Building::Done
            },
            (BuilderStage::Saving, Event::Finished) => {
                let file = credential_file_name(self.client_email.as_str());
                say(log, cat2("✓ Credentials saved to: ", file.as_str()));
                say(log, "⚠ Keep this file secure!".to_owned());
                Building::Done
            },
            (BuilderStage::Saving, Event::Failed(e)) => Building::Failed(
                cat2("Cannot write credentials: ", e.as_str()),
            ),
            _ => Building::Failed(OUT_OF_STEP.to_owned()),
        }
    }

    /// Take the outcome of the task that was asked for, and make keys and
    /// certificates on the way, now: the next task is neither.
    pub fn advance(self, event: Event<String>, log: &mut Vec<Note<String>>) -> (r: Building<String>)
        ensures
            exists|now: int| #[trigger]
                advances(
                    builder_next(self.deep_view(), event.deep_view(), old(log).deep_view()),
                    now,
                    (r.deep_view(), final(log).deep_view()),
                ),
            r matches Building::Wait(_, t) ==> !(t is NewKey) && !(t is Certify),
    {
        let now = unix_now();
        self.advance_at(event, now, log)
    }

    /// Take the outcome of the task that was asked for, and make keys and
    /// certificates on the way, at `now`: the next task is neither.
    pub fn advance_at(self, event: Event<String>, now: i64, log: &mut Vec<Note<String>>) -> (r: Building<String>)
        requires
            i64::MIN + 300 <= now,
            now + 315_360_000 <= i64::MAX,
        ensures
            advances(
                builder_next(self.deep_view(), event.deep_view(), old(log).deep_view()),
                now as int,
                (r.deep_view(), final(log).deep_view()),
            ),
            r matches Building::Wait(_, t) ==> !(t is NewKey) && !(t is Certify),
    {
        match self.step(event, log) {
            Building::Wait(m, Task::NewKey) => {
                let made = generate_rsa_private_key_pem(log);
                let ghost outcome = text_outcome(made);
                let event = match made {
                    Ok(pem) => Event::Output(pem),
                    Err(e) => Event::Failed(e),
                };
                assert(key_possible(outcome));
                assert(event.deep_view() == text_event(outcome));
                m.step(event, log)
            },
            Building::Wait(m, Task::Certify) => {
                let made = public_key_info_at(m.private_key.as_str(), m.client_email.as_str(), now);
                let ghost outcome = pair_outcome(made);
                let event = match made {
                    Ok((pem, _)) => Event::Output(pem),
                    Err(e) => Event::Failed(e),
                };
                assert(event.deep_view() == certificate_event(outcome));
                m.step(event, log)
            },
            other => other,
        }
    }
}

} // verus!
