//! Machine-readable reports: the fields of each, in order. Writing them out as
//! JSON is left to the caller.

use vstd::prelude::*;

use crate::client::sync::{DirectoryDiffSummary, FileAction, SyncTally};
use crate::protocol::message::StatResult;
use crate::text;
use crate::util;
use crate::util::TransferId;

verus! {

/// A value in a report.
#[derive(Debug)]
pub enum Value {
    /// A number.
    Number(u64),
    /// A text.
    Text(String),
    /// True or false.
    Flag(bool),
}

/// A value in a report, by its contents.
pub enum ValueView {
    Number(u64),
    Text(Seq<char>),
    Flag(bool),
}

/// A field of a report.
#[derive(Debug)]
pub struct Field {
    /// Its name.
    pub name: &'static str,
    /// Its value.
    pub value: Value,
}

impl View for Field {
    type V = (&'static str, ValueView);

    open spec fn view(&self) -> (&'static str, ValueView) {
        (
            self.name,
            match self.value {
                Value::Number(n) => ValueView::Number(n),
                Value::Text(s) => ValueView::Text(s@),
                Value::Flag(b) => ValueView::Flag(b),
            },
        )
    }
}

/// The fields of a report, by their contents.
pub open spec fn fields(s: Seq<Field>) -> Seq<(&'static str, ValueView)> {
    s.map_values(|f: Field| f@)
}

fn number(name: &'static str, n: u64) -> (r: Field)
    ensures
        r@ == (name, ValueView::Number(n)),
{
    Field { name, value: Value::Number(n) }
}

fn words(name: &'static str, s: &str) -> (r: Field)
    ensures
        r@ == (name, ValueView::Text(s@)),
{
    Field { name, value: Value::Text(s.to_owned()) }
}

fn flag(name: &'static str, b: bool) -> (r: Field)
    ensures
        r@ == (name, ValueView::Flag(b)),
{
    Field { name, value: Value::Flag(b) }
}

/// The report of a transfer that was asked about.
pub fn stat_event(s: &StatResult) -> (r: Vec<Field>)
    ensures
        fields(r@) == seq![
            ("v", ValueView::Number(1)),
            ("event", ValueView::Text("stat"@)),
            ("transfer_id", ValueView::Text(util::transfer_id_text(s@.transfer_id))),
            ("status", ValueView::Text(s@.status)),
            ("direction", ValueView::Text(s@.direction)),
            ("remote_path", ValueView::Text(s@.remote_path)),
            ("file_size", ValueView::Number(s@.file_size)),
            ("bytes_completed", ValueView::Number(s@.bytes_completed)),
            ("verified_up_to", ValueView::Number(s@.verified_up_to)),
            ("created_ms", ValueView::Number(s@.created_ms)),
            ("updated_ms", ValueView::Number(s@.updated_ms)),
        ],
{
    let mut out: Vec<Field> = list_event(s);
    let ghost first = out@;
    out.push(number("verified_up_to", s.verified_up_to));
    out.push(number("created_ms", s.created_ms));
    out.push(number("updated_ms", s.updated_ms));
    assert(fields(out@) =~= fields(first) + seq![
        ("verified_up_to", ValueView::Number(s@.verified_up_to)),
        ("created_ms", ValueView::Number(s@.created_ms)),
        ("updated_ms", ValueView::Number(s@.updated_ms)),
    ]);
    out
}

/// The report of a transfer in a list.
pub fn list_event(s: &StatResult) -> (r: Vec<Field>)
    ensures
        fields(r@) == seq![
            ("v", ValueView::Number(1)),
            ("event", ValueView::Text("stat"@)),
            ("transfer_id", ValueView::Text(util::transfer_id_text(s@.transfer_id))),
            ("status", ValueView::Text(s@.status)),
            ("direction", ValueView::Text(s@.direction)),
            ("remote_path", ValueView::Text(s@.remote_path)),
            ("file_size", ValueView::Number(s@.file_size)),
            ("bytes_completed", ValueView::Number(s@.bytes_completed)),
        ],
{
    let id: String = s.transfer_id.to_string();
    let mut out: Vec<Field> = Vec::new();
    out.push(number("v", 1));
    out.push(words("event", "stat"));
    out.push(words("transfer_id", id.as_str()));
    out.push(words("status", s.status.as_str()));
    out.push(words("direction", s.direction.as_str()));
    out.push(words("remote_path", s.remote_path.as_str()));
    out.push(number("file_size", s.file_size));
    out.push(number("bytes_completed", s.bytes_completed));
    out
}

/// The report of a cancelled transfer.
pub fn cancel_event(given: &str) -> (r: Vec<Field>)
    ensures
        fields(r@) == seq![
            ("v", ValueView::Number(1)),
            ("event", ValueView::Text("cancel"@)),
            ("transfer_id", ValueView::Text(given@)),
            ("status", ValueView::Text("cancelled"@)),
        ],
{
    let mut out: Vec<Field> = Vec::new();
    out.push(number("v", 1));
    out.push(words("event", "cancel"));
    out.push(words("transfer_id", given));
    out.push(words("status", "cancelled"));
    out
}

/// The report of a finished upload.
pub fn upload_event(id: TransferId, file_size: u64, transferred: u64, hash: util::Hash) -> (r: Vec<
    Field,
>)
    ensures
        fields(r@) == seq![
            ("v", ValueView::Number(1)),
            ("event", ValueView::Text("transfer_complete"@)),
            ("op", ValueView::Text("upload"@)),
            ("transfer_id", ValueView::Text(util::transfer_id_text(id@))),
            ("file_size", ValueView::Number(file_size)),
            ("bytes_transferred", ValueView::Number(transferred)),
            ("bytes_completed", ValueView::Number(transferred)),
            ("file_hash", ValueView::Text(text::hex(hash@))),
            ("status", ValueView::Text("committed"@)),
        ],
{
    let id_text: String = id.to_string();
    let hash_text: String = hash.to_string();
    let mut out: Vec<Field> = Vec::new();
    out.push(number("v", 1));
    out.push(words("event", "transfer_complete"));
    out.push(words("op", "upload"));
    out.push(words("transfer_id", id_text.as_str()));
    out.push(number("file_size", file_size));
    out.push(number("bytes_transferred", transferred));
    out.push(number("bytes_completed", transferred));
    out.push(words("file_hash", hash_text.as_str()));
    out.push(words("status", "committed"));
    out
}

/// The report of a finished download.
pub fn download_event(id: TransferId, transferred: u64, hash: util::Hash, local: &str) -> (r: Vec<
    Field,
>)
    ensures
        fields(r@) == seq![
            ("v", ValueView::Number(1)),
            ("event", ValueView::Text("transfer_complete"@)),
            ("op", ValueView::Text("download"@)),
            ("transfer_id", ValueView::Text(util::transfer_id_text(id@))),
            ("bytes_completed", ValueView::Number(transferred)),
            ("file_hash", ValueView::Text(text::hex(hash@))),
            ("local_path", ValueView::Text(local@)),
            ("status", ValueView::Text("committed"@)),
        ],
{
    let id_text: String = id.to_string();
    let hash_text: String = hash.to_string();
    let mut out: Vec<Field> = Vec::new();
    out.push(number("v", 1));
    out.push(words("event", "transfer_complete"));
    out.push(words("op", "download"));
    out.push(words("transfer_id", id_text.as_str()));
    out.push(number("bytes_completed", transferred));
    out.push(words("file_hash", hash_text.as_str()));
    out.push(words("local_path", local));
    out.push(words("status", "committed"));
    out
}

/// The report of a finished transfer that was resumed.
pub fn resume_event(id: TransferId, file_size: u64, hash: util::Hash) -> (r: Vec<Field>)
    ensures
        fields(r@) == seq![
            ("v", ValueView::Number(1)),
            ("event", ValueView::Text("transfer_complete"@)),
            ("op", ValueView::Text("resume"@)),
            ("transfer_id", ValueView::Text(util::transfer_id_text(id@))),
            ("file_size", ValueView::Number(file_size)),
            ("file_hash", ValueView::Text(text::hex(hash@))),
            ("status", ValueView::Text("committed"@)),
        ],
{
    let id_text: String = id.to_string();
    let hash_text: String = hash.to_string();
    let mut out: Vec<Field> = Vec::new();
    out.push(number("v", 1));
    out.push(words("event", "transfer_complete"));
    out.push(words("op", "resume"));
    out.push(words("transfer_id", id_text.as_str()));
    out.push(number("file_size", file_size));
    out.push(words("file_hash", hash_text.as_str()));
    out.push(words("status", "committed"));
    out
}

/// An action in the report of a sync.
pub fn action_fields(a: &FileAction) -> (r: Vec<Field>)
    ensures
        fields(r@) == seq![
            ("action", ValueView::Text(a.action.text()@)),
            ("path", ValueView::Text(a.rel_path@)),
            ("size", ValueView::Number(a.src_size)),
            ("reused", ValueView::Number(a.bytes_reusable)),
        ],
{
    let mut out: Vec<Field> = Vec::new();
    out.push(words("action", a.action.name()));
    out.push(words("path", a.rel_path.as_str()));
    out.push(number("size", a.src_size));
    out.push(number("reused", a.bytes_reusable));
    out
}

/// The report of a sync, but for its actions.
pub open spec fn sync_fields(
    dry_run: bool,
    source: Seq<char>,
    destination: Seq<char>,
    summary: DirectoryDiffSummary,
    tally: SyncTally,
) -> Seq<(&'static str, ValueView)> {
    seq![
        ("v", ValueView::Number(1)),
        ("event", ValueView::Text("sync_summary"@)),
        ("dry_run", ValueView::Flag(dry_run)),
        ("source", ValueView::Text(source)),
        ("destination", ValueView::Text(destination)),
        ("files_unchanged", ValueView::Number(summary.files_unchanged)),
        ("files_modified", ValueView::Number(summary.files_modified)),
        ("files_added", ValueView::Number(summary.files_added)),
        ("files_deleted", ValueView::Number(summary.files_deleted)),
        ("data_present", ValueView::Number(summary.data_present)),
        ("data_to_transfer", ValueView::Number(summary.data_to_transfer)),
        ("files_transferred", ValueView::Number(tally.files_transferred)),
        ("files_committed", ValueView::Number(tally.files_committed)),
        ("files_deleted_count", ValueView::Number(tally.files_deleted)),
    ]
}

/// The report of a sync, but for its actions.
pub fn sync_event(
    dry_run: bool,
    source: &str,
    destination: &str,
    summary: &DirectoryDiffSummary,
    tally: &SyncTally,
) -> (r: Vec<Field>)
    ensures
        fields(r@) == sync_fields(dry_run, source@, destination@, *summary, *tally),
{
    let mut out: Vec<Field> = Vec::new();
    out.push(number("v", 1));
    out.push(words("event", "sync_summary"));
    out.push(flag("dry_run", dry_run));
    out.push(words("source", source));
    out.push(words("destination", destination));
    out.push(number("files_unchanged", summary.files_unchanged));
    out.push(number("files_modified", summary.files_modified));
    out.push(number("files_added", summary.files_added));
    out.push(number("files_deleted", summary.files_deleted));
    out.push(number("data_present", summary.data_present));
    out.push(number("data_to_transfer", summary.data_to_transfer));
    out.push(number("files_transferred", tally.files_transferred));
    out.push(number("files_committed", tally.files_committed));
    out.push(number("files_deleted_count", tally.files_deleted));
    out
}

/// The report of a sync with a server that was performed.
pub fn remote_sync_event(
    source: &str,
    destination: &str,
    summary: &DirectoryDiffSummary,
    tally: &SyncTally,
) -> (r: Vec<Field>)
    ensures
        fields(r@) == sync_fields(false, source@, destination@, *summary, *tally).push(
            ("wire_bytes_transferred", ValueView::Number(tally.wire_bytes)),
        ),
{
    let mut out: Vec<Field> = sync_event(false, source, destination, summary, tally);
    let ghost before = fields(out@);
    out.push(number("wire_bytes_transferred", tally.wire_bytes));
    assert(fields(out@) =~= before.push(
        ("wire_bytes_transferred", ValueView::Number(tally.wire_bytes)),
    ));
    out
}

} // verus!
