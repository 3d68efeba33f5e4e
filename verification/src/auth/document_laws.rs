//! What the configurations of new remotes hold.

use vstd::prelude::*;

use crate::auth::config::DocumentView;
use crate::auth::oauth;
use crate::auth::oauth::{AuthorizeRun, OAuthProvider};
use crate::auth::provision::{
    AddRemoteView, AddStage, CourseView, RenewConfigView, RenewStage, Report, Task,
};
use crate::auth::webdav;
use crate::auth::webdav::WebDavVendor;
use crate::domain::RemoteId;
use crate::text;
use crate::text_laws;

verus! {

/// Under `key` the entries hold `value` and nothing else.
pub open spec fn holds_under<V>(
    entries: Seq<(Seq<char>, V)>,
    key: Seq<char>,
    value: V,
) -> bool {
    &&& entries.contains((key, value))
    &&& forall|i: int| 0 <= i < entries.len() && (#[trigger] entries[i]).0 == key ==> entries[i].1
        == value
}

/// The document has a table `table`, and each table of that name holds the
/// text `value` under `key`.
pub open spec fn has_text(
    document: DocumentView,
    table: Seq<char>,
    key: Seq<char>,
    value: Seq<char>,
) -> bool {
    &&& exists|i: int|
        0 <= i < document.tables.len() && (#[trigger] document.tables[i]).key == table
    &&& forall|i: int|
        0 <= i < document.tables.len() && (#[trigger] document.tables[i]).key == table
            ==> holds_under(document.tables[i].texts, key, value)
}

/// The document has a table `table`, and each table of that name holds the
/// flag `value` under `key`.
pub open spec fn has_flag(
    document: DocumentView,
    table: Seq<char>,
    key: Seq<char>,
    value: bool,
) -> bool {
    &&& exists|i: int|
        0 <= i < document.tables.len() && (#[trigger] document.tables[i]).key == table
    &&& forall|i: int|
        0 <= i < document.tables.len() && (#[trigger] document.tables[i]).key == table
            ==> holds_under(document.tables[i].flags, key, value)
}

proof fn lemma_webdav_keys()
    ensures
        "parameters"@ != "opt"@,
        "url"@ != "vendor"@,
        "url"@ != "user"@,
        "url"@ != "pass"@,
        "vendor"@ != "user"@,
        "vendor"@ != "pass"@,
        "user"@ != "pass"@,
        "name"@ != "type"@,
{
    reveal_strlit("parameters");
    reveal_strlit("opt");
    reveal_strlit("url");
    reveal_strlit("vendor");
    reveal_strlit("user");
    reveal_strlit("pass");
    reveal_strlit("name");
    reveal_strlit("type");
    assert("url"@[0] != "vendor"@[0]);
    assert("url"@.len() != "user"@.len());
    assert("url"@.len() != "pass"@.len());
    assert("vendor"@.len() != "user"@.len());
    assert("vendor"@.len() != "pass"@.len());
    assert("user"@[0] != "pass"@[0]);
    assert("name"@[0] != "type"@[0]);
    assert("parameters"@.len() != "opt"@.len());
}

/// The configuration of a WebDAV remote is for that remote, of the type
/// `webdav`, and holds the user and the password as they were given; the
/// password is to be obscured.
pub proof fn law_webdav_document(
    name: Seq<char>,
    url: Seq<char>,
    user: Seq<char>,
    pass: Seq<char>,
    vendor: WebDavVendor,
)
    ensures
        ({
            let document = webdav::document(name, url, user, pass, vendor);
            &&& holds_under(document.texts, "name"@, name)
            &&& holds_under(document.texts, "type"@, "webdav"@)
            &&& has_text(document, "parameters"@, "user"@, user)
            &&& has_text(document, "parameters"@, "pass"@, pass)
            &&& has_text(
                document,
                "parameters"@,
                "vendor"@,
                match vendor {
                    WebDavVendor::WebDav => "webdav"@,
                    WebDavVendor::Nextcloud => "nextcloud"@,
                    WebDavVendor::Owncloud => "owncloud"@,
                },
            )
            &&& has_flag(document, "opt"@, "obscure"@, true)
        }),
{
    let document = webdav::document(name, url, user, pass, vendor);
    lemma_webdav_keys();
    assert(document.texts[0] == ("name"@, name));
    assert(document.texts[1] == ("type"@, "webdav"@));
    let parameters = document.tables[0];
    assert(parameters.texts[1] == ("vendor"@, vendor.name()));
    assert(parameters.texts[2] == ("user"@, user));
    assert(parameters.texts[3] == ("pass"@, pass));
    assert(document.tables[1].flags[0] == ("obscure"@, true));
}

/// The configuration of a plain WebDAV remote holds exactly the address that
/// the user gave.
pub proof fn law_plain_webdav_address(
    name: Seq<char>,
    url: Seq<char>,
    user: Seq<char>,
    pass: Seq<char>,
)
    ensures
        has_text(
            webdav::document(name, url, user, pass, WebDavVendor::WebDav),
            "parameters"@,
            "url"@,
            url,
        ),
{
    let document = webdav::document(name, url, user, pass, WebDavVendor::WebDav);
    lemma_webdav_keys();
    assert(document.tables[0].texts[0] == ("url"@, url));
}

/// The configuration of a Nextcloud or Owncloud remote holds the address that
/// the user gave, without the slashes at its end, followed by
/// `/remote.php/dav/files/` and the user.
pub proof fn law_cloud_address(
    name: Seq<char>,
    server: Seq<char>,
    slashes: Seq<char>,
    user: Seq<char>,
    pass: Seq<char>,
    vendor: WebDavVendor,
)
    requires
        server.len() == 0 || server.last() != '/',
        forall|i: int| 0 <= i < slashes.len() ==> slashes[i] == '/',
        vendor is Nextcloud || vendor is Owncloud,
    ensures
        has_text(
            webdav::document(name, server + slashes, user, pass, vendor),
            "parameters"@,
            "url"@,
            server + "/remote.php/dav/files/"@ + user,
        ),
{
    let document = webdav::document(name, server + slashes, user, pass, vendor);
    lemma_webdav_keys();
    text_laws::law_slashes_are_taken_off(server, slashes);
    assert(document.tables[0].texts[0] == (
        "url"@,
        server + "/remote.php/dav/files/"@ + user,
    ));
}

/// The configuration of a remote with a token is for that remote, of its
/// provider's type, and holds the token and the client's id and secret as they
/// were given, empty where they were not; rclone does not refresh the token.
pub proof fn law_token_document(
    name: Seq<char>,
    provider: OAuthProvider,
    client_id: Option<Seq<char>>,
    client_secret: Option<Seq<char>>,
    token: Seq<char>,
)
    ensures
        ({
            let document = oauth::document(name, provider, client_id, client_secret, token);
            &&& holds_under(document.texts, "name"@, name)
            &&& holds_under(
                document.texts,
                "type"@,
                match provider {
                    OAuthProvider::Dropbox => "dropbox"@,
                    OAuthProvider::GDrive => "drive"@,
                    OAuthProvider::PCloud => "pcloud"@,
                },
            )
            &&& has_text(document, "parameters"@, "token"@, token)
            &&& has_text(
                document,
                "parameters"@,
                "client_id"@,
                match client_id {
                    Some(id) => id,
                    None => Seq::empty(),
                },
            )
            &&& has_text(
                document,
                "parameters"@,
                "client_secret"@,
                match client_secret {
                    Some(secret) => secret,
                    None => Seq::empty(),
                },
            )
            &&& has_flag(document, "parameters"@, "config_refresh_token"@, false)
        }),
{
    let document = oauth::document(name, provider, client_id, client_secret, token);
    reveal_strlit("client_id");
    reveal_strlit("client_secret");
    reveal_strlit("token");
    lemma_webdav_keys();
    assert("client_id"@.len() != "client_secret"@.len());
    assert("client_id"@.len() != "token"@.len());
    assert("client_secret"@.len() != "token"@.len());
    assert(document.texts[0] == ("name"@, name));
    assert(document.texts[1] == ("type"@, provider.name()));
    let parameters = document.tables[0];
    assert(parameters.texts[0].0 == "client_id"@);
    assert(parameters.texts[1].0 == "client_secret"@);
    assert(parameters.texts[2] == ("token"@, token));
    assert(parameters.flags[0] == ("config_refresh_token"@, false));
}

/// `rclone authorize` is run for the provider; the client's own id and secret
/// are handed on, in this order, only where both are there and not empty.
pub proof fn law_authorize_arguments(
    provider: OAuthProvider,
    client_id: Option<Seq<char>>,
    client_secret: Option<Seq<char>>,
)
    ensures
        ({
            let arguments = oauth::authorize_arguments(provider, client_id, client_secret);
            let own = client_id matches Some(id) && client_secret matches Some(secret) && id.len()
                > 0 && secret.len() > 0;
            &&& arguments.len() == if own {
                4nat
            } else {
                2nat
            }
            &&& arguments[0] == "authorize"@
            &&& arguments[1] == match provider {
                OAuthProvider::Dropbox => "dropbox"@,
                OAuthProvider::GDrive => "drive"@,
                OAuthProvider::PCloud => "pcloud"@,
            }
            &&& own ==> arguments[2] == client_id->0 && arguments[3] == client_secret->0
        }),
{
}

proof fn lemma_first_token_is_first(lines: Seq<Seq<char>>, i: int)
    requires
        0 <= i < lines.len(),
        forall|k: int| 0 <= k < i ==> !oauth::is_token(text::trimmed(#[trigger] lines[k])),
        oauth::is_token(text::trimmed(lines[i])),
    ensures
        oauth::first_token(lines) == Some(text::trimmed(lines[i])),
    decreases i,
{
    if i > 0 {
        let rest = lines.drop_first();
        assert forall|k: int| 0 <= k < i - 1 implies !oauth::is_token(
            text::trimmed(#[trigger] rest[k]),
        ) by {
            assert(rest[k] == lines[k + 1]);
        }
        assert(!oauth::is_token(text::trimmed(lines[0])));
        lemma_first_token_is_first(rest, i - 1);
    }
}

/// The token is the first printed line that is one, without the white space
/// around it; a token begins and ends with a brace.
pub proof fn law_the_first_token_counts(stdout: Seq<char>, i: int)
    requires
        0 <= i < text::lines(stdout).len(),
        forall|k: int|
            0 <= k < i ==> !oauth::is_token(text::trimmed(#[trigger] text::lines(stdout)[k])),
        oauth::is_token(text::trimmed(text::lines(stdout)[i])),
    ensures
        oauth::token_in(stdout) == Ok::<Seq<char>, Seq<char>>(
            text::trimmed(text::lines(stdout)[i]),
        ),
{
    lemma_first_token_is_first(text::lines(stdout), i);
}

/// What is between braces is a token, and nothing else is.
pub proof fn law_tokens_stand_in_braces(inner: Seq<char>, line: Seq<char>)
    ensures
        oauth::is_token(seq!['{'] + inner + seq!['}']),
        oauth::is_token(line) ==> line[0] == '{' && line.last() == '}',
        line.len() > 0 && (line[0] != '{' || line.last() != '}') ==> !oauth::is_token(line),
        !oauth::is_token(Seq::empty()),
{
}

/// A run that could not be made or failed gives no token, and its own words
/// are handed on.
pub proof fn law_failed_runs_give_no_token(run: AuthorizeRun)
    ensures
        match run {
            AuthorizeRun::NotRun(words) => oauth::token_of(run) matches Err(told)
                && words@.is_suffix_of(told),
            AuthorizeRun::Failed { status, stderr } => oauth::token_of(run) matches Err(told)
                && text::trimmed(stderr@).is_suffix_of(told) && text::holds(told, status@),
            AuthorizeRun::Finished { stdout } => oauth::token_of(run) == oauth::token_in(stdout@),
        },
{
    match run {
        AuthorizeRun::NotRun(words) => {
            let told = "couldn't run `rclone authorize`: "@ + words@;
            assert(told.subrange(told.len() - words@.len(), told.len() as int) =~= words@);
        },
        AuthorizeRun::Failed { status, stderr } => {
            let front = "rclone authorize exited with "@;
            let back = ": "@ + text::trimmed(stderr@);
            let told = front + status@ + ": "@ + text::trimmed(stderr@);
            let tail = text::trimmed(stderr@);
            assert(told.subrange(told.len() - tail.len(), told.len() as int) =~= tail);
            assert(told =~= front + status@ + back);
            text_laws::law_held_text(front, status@, back, told);
        },
        _ => {},
    }
}

/// Adding a remote creates its configuration, then records its row under its
/// name and gives the row's id; whatever fails ends it with its own words.
pub proof fn law_adding_a_remote(
    name: Seq<char>,
    payload: Seq<char>,
    made: (),
    id: RemoteId,
    words: String,
)
    ensures
        ({
            let start = AddRemoteView { name, payload, stage: AddStage::Start };
            let (creating, first) = start.begun();
            let (inserting, second) = creating.next(Report::Done(Ok(made)));
            &&& first == CourseView::<RemoteId>::Do(Task::CreateConfig(payload))
            &&& second == CourseView::<RemoteId>::Do(Task::InsertRemote(name))
            &&& inserting.next(Report::Inserted(Ok(id))).1 == CourseView::Finished(Ok(id))
            &&& creating.next(Report::Done(Err(words))).1 == CourseView::<RemoteId>::Finished(
                Err(words@),
            )
            &&& inserting.next(Report::Inserted(Err(words))).1 == CourseView::<
                RemoteId,
            >::Finished(Err(words@))
        }),
{
}

/// Renewing a configuration drops the old one of that name, then creates the
/// new one; a failure of the second is handed on.
pub proof fn law_renewing_a_configuration(
    name: Seq<char>,
    payload: Seq<char>,
    dropped: Result<(), String>,
    made: (),
    words: String,
)
    ensures
        ({
            let start = RenewConfigView { name, payload, stage: RenewStage::Start };
            let (dropping, first) = start.begun();
            let (creating, second) = dropping.next(Report::Done(dropped));
            &&& first == CourseView::<()>::Do(Task::DropConfig(name))
            &&& second == CourseView::<()>::Do(Task::CreateConfig(payload))
            &&& creating.next(Report::Done(Ok(made))).1 == CourseView::<()>::Finished(Ok(()))
            &&& creating.next(Report::Done(Err(words))).1 == CourseView::<()>::Finished(
                Err(words@),
            )
        }),
{
}

/// Where no printed line is a token, what was printed is handed on.
pub proof fn law_output_without_a_token_is_shown(stdout: Seq<char>)
    requires
        forall|i: int|
            0 <= i < text::lines(stdout).len() ==> !oauth::is_token(
                text::trimmed(#[trigger] text::lines(stdout)[i]),
            ),
    ensures
        oauth::token_in(stdout) matches Err(told) && text::trimmed(stdout).is_suffix_of(told),
{
    oauth::law_token_is_a_printed_line(stdout);
    let front = "couldn't parse rclone authorize output (expected a JSON token line). Raw:\n"@;
    let shown = text::trimmed(stdout);
    let told = front + shown;
    assert(told.subrange(told.len() - shown.len(), told.len() as int) =~= shown);
}

} // verus!
