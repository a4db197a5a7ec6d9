//! Options of the client: what the command line and the configuration file
//! say, and what follows from them.

use vstd::prelude::*;

use crate::protocol::capabilities;
use crate::protocol::capabilities::{Capabilities, Capability};
use crate::protocol::message::Hello;
use crate::text;

verus! {

/// Options of the command line.
#[derive(Debug)]
pub struct ClientOptions {
    /// CA certificates that the server is verified with.
    pub ca: Option<String>,
    /// Client certificate.
    pub cert: Option<String>,
    /// Private key of the client.
    pub key: Option<String>,
    /// Server name for TLS, in place of the host in the URL.
    pub sni: Option<String>,
    /// Log format, "text" unless another is given.
    pub log_format: String,
    /// Report in JSON.
    pub json: bool,
    /// State database.
    pub state_db: Option<String>,
    /// Use a chunk store.
    pub dedup: bool,
    /// Directory of the chunk store.
    pub chunk_store: Option<String>,
}

/// Options of the command line, by their contents.
#[verifier::ext_equal]
pub struct ClientOptionsView {
    pub ca: Option<Seq<char>>,
    pub cert: Option<Seq<char>>,
    pub key: Option<Seq<char>>,
    pub sni: Option<Seq<char>>,
    pub log_format: Seq<char>,
    pub json: bool,
    pub state_db: Option<Seq<char>>,
    pub dedup: bool,
    pub chunk_store: Option<Seq<char>>,
}

/// An optional text by its contents.
pub open spec fn opt(s: Option<String>) -> Option<Seq<char>> {
    match s {
        Some(x) => Some(x@),
        None => None,
    }
}

impl View for ClientOptions {
    type V = ClientOptionsView;

    open spec fn view(&self) -> ClientOptionsView {
        ClientOptionsView {
            ca: opt(self.ca),
            cert: opt(self.cert),
            key: opt(self.key),
            sni: opt(self.sni),
            log_format: self.log_format@,
            json: self.json,
            state_db: opt(self.state_db),
            dedup: self.dedup,
            chunk_store: opt(self.chunk_store),
        }
    }
}

/// Options of the configuration file; each may be missing.
#[derive(Debug)]
pub struct FileClientConfig {
    pub ca: Option<String>,
    pub cert: Option<String>,
    pub key: Option<String>,
    pub sni: Option<String>,
    pub log_format: Option<String>,
    pub json: Option<bool>,
    pub state_db: Option<String>,
    pub dedup: Option<bool>,
    pub chunk_store: Option<String>,
}

/// The first text if it is given, else the second.
pub open spec fn prefer(a: Option<Seq<char>>, b: Option<Seq<char>>) -> Option<Seq<char>> {
    if a is Some {
        a
    } else {
        b
    }
}

fn prefer_text(a: Option<String>, b: Option<String>) -> (r: Option<String>)
    ensures
        opt(r) == prefer(opt(a), opt(b)),
{
    match a {
        Some(x) => Some(x),
        None => b,
    }
}

/// A flag that the command line sets, or else the file.
pub open spec fn flag(a: bool, b: Option<bool>) -> bool {
    a || b == Some(true)
}

/// Fill in from the configuration file what the command line leaves open. A
/// log format of "text" counts as left open.
pub fn load_client_config(cli: ClientOptions, file: FileClientConfig) -> (r: ClientOptions)
    ensures
        r@ == (ClientOptionsView {
            ca: prefer(cli@.ca, opt(file.ca)),
            cert: prefer(cli@.cert, opt(file.cert)),
            key: prefer(cli@.key, opt(file.key)),
            sni: prefer(cli@.sni, opt(file.sni)),
            log_format: if cli@.log_format == "text"@ && file.log_format is Some {
                (file.log_format->0)@
            } else {
                cli@.log_format
            },
            json: flag(cli.json, file.json),
            state_db: prefer(cli@.state_db, opt(file.state_db)),
            dedup: flag(cli.dedup, file.dedup),
            chunk_store: prefer(cli@.chunk_store, opt(file.chunk_store)),
        }),
{
    let log_format: String = if text::same_text(cli.log_format.as_str(), "text") {
        match file.log_format {
            Some(f) => f,
            None => cli.log_format,
        }
    } else {
        cli.log_format
    };
    let json: bool = match file.json {
        Some(j) => cli.json || j,
        None => cli.json,
    };
    let dedup: bool = match file.dedup {
        Some(d) => cli.dedup || d,
        None => cli.dedup,
    };
    ClientOptions {
        ca: prefer_text(cli.ca, file.ca),
        cert: prefer_text(cli.cert, file.cert),
        key: prefer_text(cli.key, file.key),
        sni: prefer_text(cli.sni, file.sni),
        log_format,
        json,
        state_db: prefer_text(cli.state_db, file.state_db),
        dedup,
        chunk_store: prefer_text(cli.chunk_store, file.chunk_store),
    }
}

/// The command line wins over the configuration file: what it gives, the file
/// does not change. This is what `load_client_config` does with one option.
pub proof fn law_command_line_wins(a: Seq<char>, b: Option<Seq<char>>)
    ensures
        prefer(Some(a), b) == Some(a),
        prefer(None, b) == b,
        forall|f: Option<bool>| flag(true, f),
        flag(false, None) == false,
{
}

impl ClientOptions {
    /// Whether reports are in JSON. `in_environment` is whether the
    /// environment asks for it.
    pub fn cli_log_json(&self, in_environment: bool) -> (r: bool)
        ensures
            r == (self.json || self@.log_format == "json"@ || in_environment),
    {
        self.json || text::same_text(self.log_format.as_str(), "json") || in_environment
    }

    /// Whether a client certificate is presented: only with its key.
    pub fn presents_certificate(&self) -> (r: bool)
        ensures
            r == (self.cert is Some && self.key is Some),
    {
        self.cert.is_some() && self.key.is_some()
    }

    /// What the client announces: the default, and the chunk store if it uses
    /// one.
    pub fn capabilities(&self) -> (r: Capabilities)
        ensures
            forall|c: Capability| #[trigger]
                r.contains(c) <==> c is FixedChunking || c is CdcChunking || c is Blake3
                    || c is CompressionZstd || c is SparseFiles || c is Symlinks || c is Hardlinks
                    || (c is DedupChunkStore && (self.dedup || self.chunk_store is Some)),
            r.0 & capabilities::DEFINED_MASK == r.0,
    {
        let mut caps: Capabilities = Hello::default_client().capabilities;
        if self.dedup || self.chunk_store.is_some() {
            let ghost before = caps;
            caps.set(Capability::DedupChunkStore);
            proof {
                capabilities::lemma_set_within_mask(before, Capability::DedupChunkStore);
                assert forall|c: Capability| #[trigger]
                    caps.contains(c) <==> before.contains(c) || c is DedupChunkStore by {
                    capabilities::law_set_contains(before, Capability::DedupChunkStore, c);
                }
            }
        }
        caps
    }

    /// The directory of the chunk store, if one is used: the given one, or
    /// one in the home directory, or one in the current directory.
    pub fn chunk_store_dir(&self, home: Option<String>) -> (r: Option<String>)
        ensures
            opt(r) == match (self.chunk_store, self.dedup, home) {
                (Some(p), _, _) => Some(p@),
                (None, true, Some(h)) => Some(h@ + "/.velcrux/chunks"@),
                (None, true, None) => Some(".velcrux-chunks"@),
                (None, false, _) => None,
            },
    {
        match &self.chunk_store {
            Some(p) => Some(p.clone()),
            None => {
                if !self.dedup {
                    return None;
                }
                match home {
                    Some(h) => {
                        let mut out: String = h;
                        text::push_str(&mut out, "/.velcrux/chunks");
                        Some(out)
                    },
                    None => Some(".velcrux-chunks".to_owned()),
                }
            },
        }
    }

    /// The state database: the given one, or one in the home directory.
    pub fn state_db_path(&self, home: Option<String>) -> (r: Option<String>)
        ensures
            opt(r) == match (self.state_db, home) {
                (Some(p), _) => Some(p@),
                (None, Some(h)) => Some(h@ + "/.velcrux/client.db"@),
                (None, None) => None,
            },
    {
        match &self.state_db {
            Some(p) => Some(p.clone()),
            None => match home {
                Some(h) => {
                    let mut out: String = h;
                    text::push_str(&mut out, "/.velcrux/client.db");
                    Some(out)
                },
                None => None,
            },
        }
    }
}

} // verus!
