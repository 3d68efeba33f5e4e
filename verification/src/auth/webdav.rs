//! WebDAV, Nextcloud and Owncloud remotes.

use vstd::prelude::*;

use crate::auth::config;
use crate::auth::config::{text_entry, to_json, Document, DocumentView, Table, TableView};
use crate::auth::provision::{AddRemote, AddRemoteView, AddStage};
use crate::text;
use crate::text::{concat, trim_tail_slashes};

verus! {

/// Who serves a WebDAV remote.
#[derive(Clone, Copy, Debug, PartialEq, Eq, Structural)]
pub enum WebDavVendor {
    WebDav,
    Nextcloud,
    Owncloud,
}

impl WebDavVendor {
    /// The vendor's name in a configuration.
    pub open spec fn name(self) -> Seq<char> {
        match self {
            WebDavVendor::WebDav => "webdav"@,
            WebDavVendor::Nextcloud => "nextcloud"@,
            WebDavVendor::Owncloud => "owncloud"@,
        }
    }

    /// The vendor's name in a configuration.
    pub fn rclone_vendor(self) -> (name: &'static str)
        ensures
            name@ == self.name(),
    {
        match self {
            WebDavVendor::WebDav => "webdav",
            WebDavVendor::Nextcloud => "nextcloud",
            WebDavVendor::Owncloud => "owncloud",
        }
    }
}

/// The address that a configuration holds: for Nextcloud and Owncloud the
/// user's files below the server's address.
pub open spec fn address(url: Seq<char>, user: Seq<char>, vendor: WebDavVendor) -> Seq<char> {
    match vendor {
        WebDavVendor::WebDav => url,
        _ => text::without_tail_slashes(url) + "/remote.php/dav/files/"@ + user,
    }
}

/// The address that a configuration holds.
pub fn effective_url(url: &str, user: &str, vendor: WebDavVendor) -> (full: String)
    ensures
        full@ == address(url@, user@, vendor),
{
    match vendor {
        WebDavVendor::WebDav => url.to_owned(),
        _ => {
            let trimmed = trim_tail_slashes(url);
            let files = concat(trimmed.as_str(), "/remote.php/dav/files/");
            concat(files.as_str(), user)
        },
    }
}

/// The configuration of a WebDAV remote.
pub open spec fn document(
    name: Seq<char>,
    url: Seq<char>,
    user: Seq<char>,
    pass: Seq<char>,
    vendor: WebDavVendor,
) -> DocumentView {
    DocumentView {
        texts: seq![("name"@, name), ("type"@, "webdav"@)],
        tables: seq![
            TableView {
                key: "parameters"@,
                texts: seq![
                    ("url"@, address(url, user, vendor)),
                    ("vendor"@, vendor.name()),
                    ("user"@, user),
                    ("pass"@, pass),
                ],
                flags: Seq::empty(),
            },
            TableView { key: "opt"@, texts: Seq::empty(), flags: seq![("obscure"@, true)] },
        ],
    }
}

fn document_of(name: &str, url: &str, user: &str, pass: &str, vendor: WebDavVendor) -> (whole:
    Document)
    ensures
        whole@ == document(name@, url@, user@, pass@, vendor),
{
    let full = effective_url(url, user, vendor);
    let parameters = Table {
        key: "parameters".to_owned(),
        texts: vec![
            text_entry("url", full.as_str()),
            text_entry("vendor", vendor.rclone_vendor()),
            text_entry("user", user),
            text_entry("pass", pass),
        ],
        flags: Vec::new(),
    };
    let opt = Table {
        key: "opt".to_owned(),
        texts: Vec::new(),
        flags: vec![("obscure".to_owned(), true)],
    };
    let whole = Document {
        texts: vec![text_entry("name", name), text_entry("type", "webdav")],
        tables: vec![parameters, opt],
    };
    proof {
        let wanted = document(name@, url@, user@, pass@, vendor);
        assert(parameters@ =~= wanted.tables[0]);
        assert(opt@ =~= wanted.tables[1]);
    }
    whole
}

/// Adds a WebDAV-family remote: its configuration is created, then its row
/// is recorded. Whether the server lets the user in is for the caller to
/// find out.
pub fn add_webdav_remote(name: &str, url: &str, user: &str, pass: &str, vendor: WebDavVendor) -> (
add: AddRemote)
    ensures
        add@ == (AddRemoteView {
            name: name@,
            payload: config::json_text(document(name@, url@, user@, pass@, vendor)),
            stage: AddStage::Start,
        }),
{
    let payload = to_json(document_of(name, url, user, pass, vendor));
    AddRemote::new(name, payload)
}

} // verus!
