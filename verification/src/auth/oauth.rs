//! Remotes whose token `rclone authorize` fetches: Dropbox, Google Drive,
//! pCloud.

use vstd::prelude::*;

use crate::auth::config;
use crate::auth::config::{text_entry, to_json, Document, DocumentView, Table, TableView};
use crate::auth::provision::{
    AddRemote, AddRemoteView, AddStage, RenewConfig, RenewConfigView, RenewStage,
};
use crate::text;
use crate::text::{concat, ends_with, split_lines, starts_with, trim};

verus! {

/// OAuth providers that use `rclone authorize` for token capture.
#[derive(Clone, Copy, Debug, PartialEq, Eq, Structural)]
pub enum OAuthProvider {
    Dropbox,
    GDrive,
    PCloud,
}

impl OAuthProvider {
    /// The provider's name for rclone.
    pub open spec fn name(self) -> Seq<char> {
        match self {
            OAuthProvider::Dropbox => "dropbox"@,
            OAuthProvider::GDrive => "drive"@,
            OAuthProvider::PCloud => "pcloud"@,
        }
    }

    /// The provider's name for rclone.
    pub fn rclone_type(self) -> (name: &'static str)
        ensures
            name@ == self.name(),
    {
        match self {
            OAuthProvider::Dropbox => "dropbox",
            OAuthProvider::GDrive => "drive",
            OAuthProvider::PCloud => "pcloud",
        }
    }
}

/// The text, or the empty text.
pub open spec fn or_empty(text: Option<Seq<char>>) -> Seq<char> {
    match text {
        Some(own) => own,
        None => Seq::empty(),
    }
}

/// The arguments that `rclone` is run with: the client's own id and secret
/// only where both are there and not empty.
pub open spec fn authorize_arguments(
    provider: OAuthProvider,
    client_id: Option<Seq<char>>,
    client_secret: Option<Seq<char>>,
) -> Seq<Seq<char>> {
    let (id, secret) = (or_empty(client_id), or_empty(client_secret));
    if id.len() > 0 && secret.len() > 0 {
        seq!["authorize"@, provider.name(), id, secret]
    } else {
        seq!["authorize"@, provider.name()]
    }
}

/// The arguments that `rclone` is run with.
pub fn authorize_args(
    provider: OAuthProvider,
    client_id: Option<&str>,
    client_secret: Option<&str>,
) -> (arguments: Vec<String>)
    ensures
        text::views(arguments@) == authorize_arguments(
            provider,
            text::opt_view(client_id),
            text::opt_view(client_secret),
        ),
{
    let mut arguments: Vec<String> = Vec::new();
    arguments.push("authorize".to_owned());
    arguments.push(provider.rclone_type().to_owned());
    match (client_id, client_secret) {
        (Some(id), Some(secret)) => {
            if id.unicode_len() > 0 && secret.unicode_len() > 0 {
                arguments.push(id.to_owned());
                arguments.push(secret.to_owned());
            }
        },
        _ => {},
    }
    assert(text::views(arguments@) =~= authorize_arguments(
        provider,
        text::opt_view(client_id),
        text::opt_view(client_secret),
    ));
    arguments
}

/// The line looks like a token: braces around something.
pub open spec fn is_token(line: Seq<char>) -> bool {
    line.len() > 0 && line[0] == '{' && line.last() == '}'
}

/// The first of the lines that is a token once trimmed.
pub open spec fn first_token(lines: Seq<Seq<char>>) -> Option<Seq<char>>
    decreases lines.len(),
{
    if lines.len() == 0 {
        None
    } else if is_token(text::trimmed(lines[0])) {
        Some(text::trimmed(lines[0]))
    } else {
        first_token(lines.drop_first())
    }
}

/// The token in what `rclone authorize` printed, or why there is none.
pub open spec fn token_in(stdout: Seq<char>) -> Result<Seq<char>, Seq<char>> {
    match first_token(text::lines(stdout)) {
        Some(token) => Ok(token),
        None => Err(
            "couldn't parse rclone authorize output (expected a JSON token line). Raw:\n"@
                + text::trimmed(stdout),
        ),
    }
}

/// A result of texts, by their views.
pub open spec fn result_view(result: Result<String, String>) -> Result<Seq<char>, Seq<char>> {
    match result {
        Ok(text) => Ok(text@),
        Err(words) => Err(words@),
    }
}

/// Pulls the token out of what `rclone authorize` printed. rclone prints a
/// banner around the token, so the first line that looks like one is taken.
pub fn extract_token(stdout: &str) -> (token: Result<String, String>)
    ensures
        result_view(token) == token_in(stdout@),
{
    let list = split_lines(stdout);
    let ghost all = text::views(list@);
    let total: usize = list.len();
    let mut i: usize = 0;
    assert(all.skip(0) =~= all);
    proof {
        reveal_strlit("{");
        reveal_strlit("}");
    }
    while i < total
        invariant
            total == list@.len(),
            all == text::views(list@),
            all == text::lines(stdout@),
            i <= total,
            first_token(all) == first_token(all.skip(i as int)),
            "{"@ =~= seq!['{'],
            "}"@ =~= seq!['}'],
        decreases total - i,
    {
        let trimmed = trim(list[i].as_str());
        proof {
            assert(all.skip(i as int)[0] == list@[i as int]@);
            assert(all.skip(i as int).drop_first() =~= all.skip(i + 1));
            let line = trimmed@;
            if line.len() > 0 {
                assert("{"@[0] == '{' && "}"@[0] == '}');
                assert(line.subrange(0, 1)[0] == line[0]);
                assert(line.subrange(line.len() - 1, line.len() as int)[0] == line.last());
                if line[0] == '{' {
                    assert(line.subrange(0, 1) =~= "{"@);
                }
                if line.last() == '}' {
                    assert(line.subrange(line.len() - 1, line.len() as int) =~= "}"@);
                }
            }
        }
        if starts_with(trimmed.as_str(), "{") && ends_with(trimmed.as_str(), "}") {
            assert(is_token(trimmed@));
            return Ok(trimmed);
        }
        assert(!is_token(trimmed@));
        i = i + 1;
    }
    let raw = trim(stdout);
    Err(
        concat(
            "couldn't parse rclone authorize output (expected a JSON token line). Raw:\n",
            raw.as_str(),
        ),
    )
}

/// What running `rclone authorize` gave.
#[derive(Debug, PartialEq, Eq)]
pub enum AuthorizeRun {
    /// It could not be run, with these words.
    NotRun(String),
    /// It ended without success; `status` is how its end is told.
    Failed { status: String, stderr: String },
    /// It ended with success.
    Finished { stdout: String },
}

/// The token that a run of `rclone authorize` gave, or why there is none.
pub open spec fn token_of(run: AuthorizeRun) -> Result<Seq<char>, Seq<char>> {
    match run {
        AuthorizeRun::NotRun(words) => Err("couldn't run `rclone authorize`: "@ + words@),
        AuthorizeRun::Failed { status, stderr } => Err(
            "rclone authorize exited with "@ + status@ + ": "@ + text::trimmed(stderr@),
        ),
        AuthorizeRun::Finished { stdout } => token_in(stdout@),
    }
}

/// The token that a run of `rclone authorize` gave.
pub fn read_authorize(run: AuthorizeRun) -> (token: Result<String, String>)
    ensures
        result_view(token) == token_of(run),
{
    match run {
        AuthorizeRun::NotRun(words) => Err(
            concat("couldn't run `rclone authorize`: ", words.as_str()),
        ),
        AuthorizeRun::Failed { status, stderr } => {
            let mut words = concat("rclone authorize exited with ", status.as_str());
            words.append(": ");
            words.append(trim(stderr.as_str()).as_str());
            Err(words)
        },
        AuthorizeRun::Finished { stdout } => extract_token(stdout.as_str()),
    }
}

/// The configuration of a remote with a token.
pub open spec fn document(
    name: Seq<char>,
    provider: OAuthProvider,
    client_id: Option<Seq<char>>,
    client_secret: Option<Seq<char>>,
    token: Seq<char>,
) -> DocumentView {
    DocumentView {
        texts: seq![("name"@, name), ("type"@, provider.name())],
        tables: seq![
            TableView {
                key: "parameters"@,
                texts: seq![
                    ("client_id"@, or_empty(client_id)),
                    ("client_secret"@, or_empty(client_secret)),
                    ("token"@, token),
                ],
                flags: seq![("config_refresh_token"@, false)],
            },
        ],
    }
}

fn or_empty_text(text: Option<&str>) -> (own: String)
    ensures
        own@ == or_empty(text::opt_view(text)),
{
    match text {
        Some(own) => own.to_owned(),
        None => {
            proof {
                reveal_strlit("");
            }
            let own = "".to_owned();
            assert(own@ =~= Seq::empty());
            own
        },
    }
}

fn document_of(
    name: &str,
    provider: OAuthProvider,
    client_id: Option<&str>,
    client_secret: Option<&str>,
    token: &str,
) -> (whole: Document)
    ensures
        whole@ == document(
            name@,
            provider,
            text::opt_view(client_id),
            text::opt_view(client_secret),
            token@,
        ),
{
    let id = or_empty_text(client_id);
    let secret = or_empty_text(client_secret);
    let parameters = Table {
        key: "parameters".to_owned(),
        texts: vec![
            text_entry("client_id", id.as_str()),
            text_entry("client_secret", secret.as_str()),
            text_entry("token", token),
        ],
        flags: vec![("config_refresh_token".to_owned(), false)],
    };
    let whole = Document {
        texts: vec![text_entry("name", name), text_entry("type", provider.rclone_type())],
        tables: vec![parameters],
    };
    proof {
        let wanted = document(
            name@,
            provider,
            text::opt_view(client_id),
            text::opt_view(client_secret),
            token@,
        );
        assert(parameters@ =~= wanted.tables[0]);
        assert(whole@.texts =~= wanted.texts);
        assert(whole@.tables =~= wanted.tables);
    }
    whole
}

/// Adds a remote with the token that a run of `rclone authorize` gave: its
/// configuration is created, then its row is recorded.
pub fn add_oauth_remote(
    name: &str,
    provider: OAuthProvider,
    client_id: Option<&str>,
    client_secret: Option<&str>,
    run: AuthorizeRun,
) -> (add: Result<AddRemote, String>)
    ensures
        match (token_of(run), add) {
            (Ok(token), Ok(begun)) => begun@ == (AddRemoteView {
                name: name@,
                payload: config::json_text(
                    document(
                        name@,
                        provider,
                        text::opt_view(client_id),
                        text::opt_view(client_secret),
                        token,
                    ),
                ),
                stage: AddStage::Start,
            }),
            (Err(words), Err(told)) => told@ == words,
            _ => false,
        },
{
    match read_authorize(run) {
        Ok(token) => {
            let payload = to_json(
                document_of(name, provider, client_id, client_secret, token.as_str()),
            );
            Ok(AddRemote::new(name, payload))
        },
        Err(words) => Err(words),
    }
}

/// Gives an existing remote the fresh token that a run of `rclone authorize`
/// gave, under the same name. Its row is left untouched.
pub fn reauth_oauth_remote(
    name: &str,
    provider: OAuthProvider,
    client_id: Option<&str>,
    client_secret: Option<&str>,
    run: AuthorizeRun,
) -> (renew: Result<RenewConfig, String>)
    ensures
        match (token_of(run), renew) {
            (Ok(token), Ok(begun)) => begun@ == (RenewConfigView {
                name: name@,
                payload: config::json_text(
                    document(
                        name@,
                        provider,
                        text::opt_view(client_id),
                        text::opt_view(client_secret),
                        token,
                    ),
                ),
                stage: RenewStage::Start,
            }),
            (Err(words), Err(told)) => told@ == words,
            _ => false,
        },
{
    match read_authorize(run) {
        Ok(token) => {
            let payload = to_json(
                document_of(name, provider, client_id, client_secret, token.as_str()),
            );
            Ok(RenewConfig::new(name, payload))
        },
        Err(words) => Err(words),
    }
}

proof fn lemma_first_token(lines: Seq<Seq<char>>)
    ensures
        match first_token(lines) {
            Some(token) => is_token(token) && exists|i: int|
                0 <= i < lines.len() && text::trimmed(#[trigger] lines[i]) == token,
            None => forall|i: int|
                0 <= i < lines.len() ==> !is_token(text::trimmed(#[trigger] lines[i])),
        },
    decreases lines.len(),
{
    if lines.len() > 0 {
        if is_token(text::trimmed(lines[0])) {
            assert(text::trimmed(lines[0]) == first_token(lines)->0);
        } else {
            lemma_first_token(lines.drop_first());
            match first_token(lines) {
                Some(token) => {
                    let rest = lines.drop_first();
                    let i = choose|i: int|
                        0 <= i < rest.len() && text::trimmed(#[trigger] rest[i]) == token;
                    assert(lines[i + 1] == rest[i]);
                },
                None => {
                    assert forall|i: int| 0 <= i < lines.len() implies !is_token(
                        text::trimmed(#[trigger] lines[i]),
                    ) by {
                        if i > 0 {
                            assert(lines[i] == lines.drop_first()[i - 1]);
                        }
                    }
                },
            }
        }
    }
}

/// A token is found exactly where one of the printed lines is one, and it is
/// such a line.
pub proof fn law_token_is_a_printed_line(stdout: Seq<char>)
    ensures
        token_in(stdout) is Ok <==> exists|i: int|
            0 <= i < text::lines(stdout).len() && is_token(
                text::trimmed(#[trigger] text::lines(stdout)[i]),
            ),
        token_in(stdout) matches Ok(token) ==> is_token(token),
{
    lemma_first_token(text::lines(stdout));
}

} // verus!
